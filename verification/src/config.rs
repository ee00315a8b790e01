//! The settings that a run needs, checked before the run starts.

use vstd::prelude::*;
use vstd::string::StringExecFns;
use crate::item::Equality;

verus! {

/// A setting that the deployment supplies.
#[derive(Clone, Copy, Debug, PartialEq, Eq, Structural)]
pub enum Setting {
    /// The table that holds the persisted snapshot.
    TableName,
    /// The address of the catalog page.
    SourceUrl,
    /// The destination of the notices.
    TopicArn,
    /// The equality under which snapshots are reconciled.
    ItemEquality,
}

/// The name of the environment variable that carries `setting`.
pub open spec fn variable_name(setting: Setting) -> Seq<char> {
    match setting {
        Setting::TableName => "TABLE_NAME"@,
        Setting::SourceUrl => "MENU_URL"@,
        Setting::TopicArn => "TOPIC_ARN"@,
        Setting::ItemEquality => "ITEM_EQUALITY"@,
    }
}

impl Setting {
    /// The name of the environment variable that carries this setting.
    pub fn variable(&self) -> (name: &'static str)
        ensures
            name@ == variable_name(*self),
    {
        match self {
            Setting::TableName => "TABLE_NAME",
            Setting::SourceUrl => "MENU_URL",
            Setting::TopicArn => "TOPIC_ARN",
            Setting::ItemEquality => "ITEM_EQUALITY",
        }
    }
}

/// The settings do not allow a run; it must not start.
#[derive(Clone, Copy, Debug, PartialEq, Eq, Structural)]
pub enum ConfigurationError {
    /// A required setting is absent.
    Missing { setting: Setting },
    /// A setting has a value that is not one of those it can take.
    Unrecognized { setting: Setting },
}

/// The diagnostic of `error`: the variable's name, and what is wrong with it.
pub open spec fn configuration_text(error: ConfigurationError) -> Seq<char> {
    match error {
        ConfigurationError::Missing { setting } => variable_name(setting) + " not set"@,
        ConfigurationError::Unrecognized { setting } => variable_name(setting)
            + " not recognized"@,
    }
}

impl ConfigurationError {
    /// The diagnostic of this error.
    pub fn message(&self) -> (text: String)
        ensures
            text@ == configuration_text(*self),
    {
        match self {
            ConfigurationError::Missing { setting } => {
                let mut text = String::from_str(setting.variable());
                text.append(" not set");
                text
            },
            ConfigurationError::Unrecognized { setting } => {
                let mut text = String::from_str(setting.variable());
                text.append(" not recognized");
                text
            },
        }
    }
}

/// The policy that `name` stands for: `full` compares key and description,
/// `key` the key alone.
pub open spec fn equality_named(name: Seq<char>) -> Option<Equality> {
    if name == "full"@ {
        Some(Equality::Full)
    } else if name == "key"@ {
        Some(Equality::KeyOnly)
    } else {
        None
    }
}

/// Reads the name of an equality policy.
pub fn parse_equality(name: &str) -> (policy: Option<Equality>)
    ensures
        policy == equality_named(name@),
{
    let name = String::from_str(name);
    if name == String::from_str("full") {
        Some(Equality::Full)
    } else if name == String::from_str("key") {
        Some(Equality::KeyOnly)
    } else {
        None
    }
}

/// The settings of a run, all present.
#[derive(Debug)]
pub struct Config {
    pub table_name: String,
    pub source_url: String,
    pub topic_arn: String,
    pub equality: Equality,
}

/// The characters of an optional setting.
pub open spec fn value_of(setting: Option<String>) -> Option<Seq<char>> {
    match setting {
        Some(text) => Some(text@),
        None => None,
    }
}

/// What is wrong with the settings, if anything. The required settings are
/// looked at in the order in which a run consults them: the table, the page,
/// the topic. The equality is optional and stands for full equality where it
/// is absent; where it is present it must name a policy.
pub open spec fn configuration_fault(
    table_name: Option<Seq<char>>,
    source_url: Option<Seq<char>>,
    topic_arn: Option<Seq<char>>,
    equality: Option<Seq<char>>,
) -> Option<ConfigurationError> {
    if table_name is None {
        Some(ConfigurationError::Missing { setting: Setting::TableName })
    } else if source_url is None {
        Some(ConfigurationError::Missing { setting: Setting::SourceUrl })
    } else if topic_arn is None {
        Some(ConfigurationError::Missing { setting: Setting::TopicArn })
    } else if equality matches Some(name) && equality_named(name) is None {
        Some(ConfigurationError::Unrecognized { setting: Setting::ItemEquality })
    } else {
        None
    }
}

/// The policy that the optional setting selects.
pub open spec fn equality_chosen(equality: Option<Seq<char>>) -> Equality {
    match equality {
        Some(name) => match equality_named(name) {
            Some(policy) => policy,
            None => Equality::Full,
        },
        None => Equality::Full,
    }
}

impl Config {
    /// Collects the settings, or says what is wrong with them.
    pub fn new(
        table_name: Option<String>,
        source_url: Option<String>,
        topic_arn: Option<String>,
        equality: Option<String>,
    ) -> (config: Result<Config, ConfigurationError>)
        ensures
            match config {
                Ok(c) => configuration_fault(
                    value_of(table_name),
                    value_of(source_url),
                    value_of(topic_arn),
                    value_of(equality),
                ) is None && Some(c.table_name) == table_name && Some(c.source_url) == source_url
                    && Some(c.topic_arn) == topic_arn && c.equality == equality_chosen(
                    value_of(equality),
                ),
                Err(e) => configuration_fault(
                    value_of(table_name),
                    value_of(source_url),
                    value_of(topic_arn),
                    value_of(equality),
                ) == Some(e),
            },
    {
        let table_name = match table_name {
            Some(text) => text,
            None => {
                return Err(ConfigurationError::Missing { setting: Setting::TableName });
            },
        };
        let source_url = match source_url {
            Some(text) => text,
            None => {
                return Err(ConfigurationError::Missing { setting: Setting::SourceUrl });
            },
        };
        let topic_arn = match topic_arn {
            Some(text) => text,
            None => {
                return Err(ConfigurationError::Missing { setting: Setting::TopicArn });
            },
        };
        let equality = match equality {
            None => Equality::Full,
            Some(name) => match parse_equality(name.as_str()) {
                Some(policy) => policy,
                None => {
                    return Err(ConfigurationError::Unrecognized { setting: Setting::ItemEquality });
                },
            },
        };
        Ok(Config { table_name, source_url, topic_arn, equality })
    }
}

} // verus!
