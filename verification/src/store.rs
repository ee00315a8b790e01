//! How a catalog item is laid out as a row of the backing table, and how a
//! scan of the table is read back into a snapshot.

use vstd::prelude::*;
use vstd::string::StringExecFns;
use crate::item::{views, CatalogItem, ItemView};

verus! {

/// One attribute of a table row: its name and, where the attribute is of
/// string type, its value.
#[derive(Debug)]
pub struct Attribute {
    pub name: String,
    pub value: Option<String>,
}

/// What an `Attribute` is, as plain sequences of characters.
pub struct AttributeView {
    pub name: Seq<char>,
    pub value: Option<Seq<char>>,
}

impl View for Attribute {
    type V = AttributeView;

    open spec fn view(&self) -> AttributeView {
        AttributeView {
            name: self.name@,
            value: match self.value {
                Some(text) => Some(text@),
                None => None,
            },
        }
    }
}

/// The views of a row's attributes, in the same order.
pub open spec fn row_view(row: Seq<Attribute>) -> Seq<AttributeView> {
    row.map_values(|attribute: Attribute| attribute@)
}

/// The views of the rows of a scan, in the same order.
pub open spec fn rows_view(rows: Seq<Vec<Attribute>>) -> Seq<Seq<AttributeView>> {
    rows.map_values(|row: Vec<Attribute>| row_view(row@))
}

/// The name of the attribute that holds an item's key; it is the key of the
/// table.
pub open spec fn key_attribute() -> Seq<char> {
    "item"@
}

/// The name of the attribute that holds an item's description.
pub open spec fn description_attribute() -> Seq<char> {
    "description"@
}

/// The row under which `item` is stored.
pub open spec fn row_of(item: ItemView) -> Seq<AttributeView> {
    seq![
        AttributeView { name: key_attribute(), value: Some(item.key) },
        AttributeView { name: description_attribute(), value: Some(item.description) },
    ]
}

/// The table key under which an item named `key` is stored.
pub open spec fn key_of(key: Seq<char>) -> Seq<AttributeView> {
    seq![AttributeView { name: key_attribute(), value: Some(key) }]
}

/// The string value of the first attribute of `row` named `name`; `None`
/// where the row has no such attribute or its first one is not a string.
pub open spec fn string_value(row: Seq<AttributeView>, name: Seq<char>) -> Option<Seq<char>>
    decreases row.len(),
{
    if row.len() == 0 {
        None
    } else if row[0].name == name {
        row[0].value
    } else {
        string_value(row.drop_first(), name)
    }
}

/// The item that `row` holds; `None` where the key or the description is
/// missing or not a string.
pub open spec fn item_of(row: Seq<AttributeView>) -> Option<ItemView> {
    match (string_value(row, key_attribute()), string_value(row, description_attribute())) {
        (Some(key), Some(description)) => Some(ItemView { key, description }),
        _ => None,
    }
}

/// A row of a scan that holds no item.
#[derive(Clone, Copy, Debug, PartialEq, Eq, Structural)]
pub struct MalformedRow {
    /// The position of the row in the scan.
    pub index: usize,
}

impl MalformedRow {
    /// The diagnostic of a scan with such a row.
    pub fn message(&self) -> (text: String)
        ensures
            text@ == "a stored row lacks the item or the description"@,
    {
        String::from_str("a stored row lacks the item or the description")
    }
}

/// Lays `item` out as the row to store.
pub fn put_attributes(item: &CatalogItem) -> (row: Vec<Attribute>)
    ensures
        row_view(row@) == row_of(item@),
{
    let mut row: Vec<Attribute> = Vec::new();
    row.push(Attribute { name: String::from_str("item"), value: Some(item.key.clone()) });
    row.push(
        Attribute {
            name: String::from_str("description"),
            value: Some(item.description.clone()),
        },
    );
    proof {
        assert(row_view(row@) =~= row_of(item@));
    }
    row
}

/// Lays out the table key of the item named `key`.
pub fn delete_key(key: &str) -> (row: Vec<Attribute>)
    ensures
        row_view(row@) == key_of(key@),
{
    let mut row: Vec<Attribute> = Vec::new();
    row.push(Attribute { name: String::from_str("item"), value: Some(String::from_str(key)) });
    proof {
        assert(row_view(row@) =~= key_of(key@));
    }
    row
}

/// Looks up the string value of the attribute named `name`.
fn find_string(row: &Vec<Attribute>, name: &str) -> (value: Option<String>)
    ensures
        match value {
            Some(text) => string_value(row_view(row@), name@) == Some(text@),
            None => string_value(row_view(row@), name@) is None,
        },
{
    let wanted = String::from_str(name);
    let mut i: usize = 0;
    proof {
        assert(row_view(row@).skip(0) =~= row_view(row@));
    }
    while i < row.len()
        invariant
            i <= row.len(),
            wanted@ == name@,
            string_value(row_view(row@), name@) == string_value(
                row_view(row@).skip(i as int),
                name@,
            ),
        decreases row.len() - i,
    {
        let ghost rest = row_view(row@).skip(i as int);
        proof {
            assert(rest[0] == row@[i as int]@);
            assert(rest.drop_first() =~= row_view(row@).skip(i + 1));
        }
        if row[i].name == wanted {
            return match &row[i].value {
                Some(text) => Some(text.clone()),
                None => None,
            };
        }
        i += 1;
    }
    None
}

/// Reads the item that a scanned row holds.
pub fn decode_row(row: &Vec<Attribute>) -> (item: Option<CatalogItem>)
    ensures
        match item {
            Some(found) => item_of(row_view(row@)) == Some(found@),
            None => item_of(row_view(row@)) is None,
        },
{
    match find_string(row, "item") {
        None => None,
        Some(key) => match find_string(row, "description") {
            None => None,
            Some(description) => Some(CatalogItem { key, description }),
        },
    }
}

/// The rows of a scan; a scan without a row list has none.
pub open spec fn scanned_rows(rows: Option<Vec<Vec<Attribute>>>) -> Seq<Seq<AttributeView>> {
    match rows {
        Some(scanned) => rows_view(scanned@),
        None => Seq::empty(),
    }
}

/// Every row holds an item.
pub open spec fn all_decode(rows: Seq<Seq<AttributeView>>) -> bool {
    forall|i: int| 0 <= i < rows.len() ==> item_of(#[trigger] rows[i]) is Some
}

/// The snapshot that `rows` hold: the item of each row, in order.
pub open spec fn snapshot_of(rows: Seq<Seq<AttributeView>>) -> Seq<ItemView> {
    rows.map_values(|row: Seq<AttributeView>| item_of(row).unwrap())
}

/// Reads a scan back into the previous snapshot. A scan without rows, or
/// without a row list at all, is the empty snapshot. The first row that holds
/// no item makes the whole scan unusable.
pub fn previous_snapshot(rows: Option<Vec<Vec<Attribute>>>) -> (snapshot: Result<
    Vec<CatalogItem>,
    MalformedRow,
>)
    ensures
        match snapshot {
            Ok(items) => all_decode(scanned_rows(rows)) && views(items@) == snapshot_of(
                scanned_rows(rows),
            ),
            Err(e) => e.index < scanned_rows(rows).len() && item_of(
                scanned_rows(rows)[e.index as int],
            ) is None && forall|i: int|
                0 <= i < e.index ==> item_of(#[trigger] scanned_rows(rows)[i]) is Some,
        },
{
    let mut items: Vec<CatalogItem> = Vec::new();
    match rows {
        None => {
            proof {
                assert(views(items@) =~= snapshot_of(scanned_rows(rows)));
            }
            Ok(items)
        },
        Some(scanned) => {
            let mut i: usize = 0;
            while i < scanned.len()
                invariant
                    rows == Some(scanned),
                    i <= scanned.len(),
                    items.len() == i,
                    forall|j: int|
                        0 <= j < i ==> item_of(#[trigger] rows_view(scanned@)[j]) == Some(
                            items@[j]@,
                        ),
                decreases scanned.len() - i,
            {
                proof {
                    assert(rows_view(scanned@)[i as int] == row_view(scanned@[i as int]@));
                }
                match decode_row(&scanned[i]) {
                    Some(item) => items.push(item),
                    None => {
                        return Err(MalformedRow { index: i });
                    },
                }
                i += 1;
            }
            proof {
                assert(views(items@) =~= snapshot_of(scanned_rows(rows)));
            }
            Ok(items)
        },
    }
}

/// A stored row reads back as the item it was laid out from.
pub proof fn lemma_row_round_trip(item: ItemView)
    ensures
        item_of(row_of(item)) == Some(item),
{
    reveal_strlit("item");
    reveal_strlit("description");
    let row = row_of(item);
    assert(key_attribute().len() != description_attribute().len());
    assert(row.drop_first()[0].name == description_attribute());
    reveal_with_fuel(string_value, 3);
}

} // verus!
