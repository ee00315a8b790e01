//! From the text of a catalog page to the current snapshot.
//!
//! The page is parsed by the `select` crate; what this module adds is which
//! nodes of the page are catalog entries and how an entry is read off a node.
//! The parser is not made for every page: one that is too large, or that
//! could nest deeper than the caller has stack for, is refused before it is
//! parsed.

use vstd::prelude::*;
use vstd::string::StringExecFns;
use select::document::Document;
use select::predicate::{Class, Name, Predicate};
use crate::item::{views, CatalogItem, ItemView};

verus! {

/// The largest page, in bytes, that is handed to the parser.
pub const MAX_PAGE_BYTES: usize = 0x1000_0000;

/// The stack, in bytes, that the walk of a parsed page is given for each
/// level of nesting. The parsed tree is walked by recursion; on the machines
/// this was measured on a level took about a quarter of this.
pub const STACK_BYTES_PER_LEVEL: usize = 4096;

/// The character at position `i` of `page`; a blank beyond its ends.
pub open spec fn char_at(page: Seq<char>, i: int) -> char {
    if 0 <= i < page.len() {
        page[i]
    } else {
        ' '
    }
}

/// `c` is one of the two letters `lower` and `upper`.
pub open spec fn is_either(c: char, lower: char, upper: char) -> bool {
    c == lower || c == upper
}

/// `c` is a letter of the ASCII alphabet.
pub open spec fn is_ascii_letter(c: char) -> bool {
    ('a' <= c && c <= 'z') || ('A' <= c && c <= 'Z')
}

/// What the character `d` adds to the nesting cost of a page, where `a`,
/// `b` and `c` are the three characters before it:
/// - one where it is the letter that follows a `<`, for the element that the
///   tag opens;
/// - two more where it completes `<td` or `<th`, one more where it completes
///   `<tr` or `<col`, for the table parts that the parser puts above such an
///   element when they are missing;
/// - one where it completes `</p` or `</br`, the two closing tags that the
///   parser answers with an element.
///
/// Letters count in either case, and what follows the letters is not looked
/// at, so that a longer name with such a beginning is charged alike.
pub open spec fn window_cost(a: char, b: char, c: char, d: char) -> nat {
    let opening: nat = if c == '<' && is_ascii_letter(d) {
        1
    } else {
        0
    };
    let cell: nat = if b == '<' && is_either(c, 't', 'T') && (is_either(d, 'd', 'D') || is_either(
        d,
        'h',
        'H',
    )) {
        2
    } else {
        0
    };
    let row: nat = if b == '<' && is_either(c, 't', 'T') && is_either(d, 'r', 'R') {
        1
    } else {
        0
    };
    let column: nat = if a == '<' && is_either(b, 'c', 'C') && is_either(c, 'o', 'O') && is_either(
        d,
        'l',
        'L',
    ) {
        1
    } else {
        0
    };
    let paragraph_end: nat = if b == '<' && c == '/' && is_either(d, 'p', 'P') {
        1
    } else {
        0
    };
    let break_end: nat = if a == '<' && b == '/' && is_either(c, 'b', 'B') && is_either(
        d,
        'r',
        'R',
    ) {
        1
    } else {
        0
    };
    opening + cell + row + column + paragraph_end + break_end
}

/// The nesting cost of `page`: what each of its characters adds, in its
/// place.
pub open spec fn nesting_cost(page: Seq<char>) -> nat
    decreases page.len(),
{
    if page.len() == 0 {
        0
    } else {
        nesting_cost(page.drop_last()) + window_cost(
            char_at(page, page.len() - 4),
            char_at(page, page.len() - 3),
            char_at(page, page.len() - 2),
            page.last(),
        )
    }
}

/// A bound on the depth of the tree that the parser builds for `page`,
/// counted in nodes below the document.
///
/// Only a `<` directly followed by a letter opens an element, apart from
/// `</p>` and `</br>`. On a path of the tree each element stems from a tag
/// of its own: the parser may copy a formatting element, but a copy never
/// lies below what it was copied from. For one tag the parser nests at most
/// three elements (`tbody`, `tr` and the cell, for a table cell), two for a
/// row or a column. `html` and `body` lie above them all, and a text one
/// level below its element.
pub open spec fn nesting_bound(page: Seq<char>) -> nat {
    nesting_cost(page) + 3
}

/// The class that marks a catalog entry on the page.
pub open spec fn entry_class() -> Seq<char> {
    "product-name"@
}

/// The element, below an entry, whose text is the entry's name.
pub open spec fn entry_tag() -> Seq<char> {
    "a"@
}

/// The texts of the elements named `tag` that lie below an element of class
/// `class` in the page `page`, in document order, as `select` finds them.
pub uninterp spec fn found_texts(page: Seq<char>, class: Seq<char>, tag: Seq<char>) -> Seq<Seq<char>>;

/// Parses `page` with `select::document::Document::from`, walks the nodes that
/// `Document::find` yields for `Class(class).descendant(Name(tag))`, and takes
/// `Node::text` of each. The contract names the outcome and claims nothing
/// else about it.
///
/// Two kinds of page are not admitted. `Document::from` copies the page into
/// a buffer whose length is a `u32` and asserts that it fits, and the parser
/// may write up to three bytes for one byte read: pages above
/// `MAX_PAGE_BYTES` stay out. `Document::from` and `Node::text` call
/// themselves once for each level of the parsed tree, and the parser nests
/// as deep as the page asks: `max_nesting` is the depth that the caller has
/// stack for, at `STACK_BYTES_PER_LEVEL` a level, and pages whose
/// `nesting_bound` is above it stay out. Nothing is done with `max_nesting`
/// but to state this.
#[verifier::external_body]
#[allow(unused_variables)]
fn find_texts(page: &str, class: &str, tag: &str, max_nesting: usize) -> (texts: Vec<String>)
    requires
        page.len() <= MAX_PAGE_BYTES,
        nesting_bound(page@) <= max_nesting,
    ensures
        texts.deep_view() == found_texts(page@, class@, tag@),
{
    let document = Document::from(page);
    let mut texts = Vec::new();
    for node in document.find(Class(class).descendant(Name(tag))) {
        texts.push(node.text());
    }
    texts
}

/// The entries that a list of names stands for: one per name, in order, with
/// an empty description.
pub open spec fn entries_named(names: Seq<Seq<char>>) -> Seq<ItemView> {
    names.map_values(|name: Seq<char>| ItemView { key: name, description: Seq::empty() })
}

/// Why a page yields no snapshot.
#[derive(Clone, Copy, Debug, PartialEq, Eq, Structural)]
pub enum ScrapeError {
    /// The page is longer than `MAX_PAGE_BYTES`.
    PageTooLarge,
    /// The page may nest deeper than the caller has stack for.
    PageTooDeep,
}

/// The diagnostic of `error`.
pub open spec fn scrape_error_text(error: ScrapeError) -> Seq<char> {
    match error {
        ScrapeError::PageTooLarge => "the page is too large to parse"@,
        ScrapeError::PageTooDeep => "the page holds too many tags to parse"@,
    }
}

impl ScrapeError {
    /// The diagnostic of a page that yields no snapshot.
    pub fn message(&self) -> (text: String)
        ensures
            text@ == scrape_error_text(*self),
    {
        match self {
            ScrapeError::PageTooLarge => String::from_str("the page is too large to parse"),
            ScrapeError::PageTooDeep => String::from_str("the page holds too many tags to parse"),
        }
    }
}

/// Why `page` is not handed to the parser, if it is not: its size is looked
/// at first, then its nesting against `max_nesting`.
pub open spec fn page_fault(page: &str, max_nesting: usize) -> Option<ScrapeError> {
    if page.len() > MAX_PAGE_BYTES {
        Some(ScrapeError::PageTooLarge)
    } else if nesting_bound(page@) > max_nesting {
        Some(ScrapeError::PageTooDeep)
    } else {
        None
    }
}

/// The stack that a walk of `max_nesting` levels is given.
pub open spec fn stack_needed(max_nesting: usize) -> int {
    max_nesting * STACK_BYTES_PER_LEVEL
}

/// The size of the stack on which a page of up to `max_nesting` levels can
/// be scraped; `None` where the size is no `usize`.
pub fn stack_bytes_for(max_nesting: usize) -> (bytes: Option<usize>)
    ensures
        match bytes {
            Some(n) => n == stack_needed(max_nesting),
            None => stack_needed(max_nesting) > usize::MAX,
        },
{
    max_nesting.checked_mul(STACK_BYTES_PER_LEVEL)
}

/// The cost of a page does not shrink as the page goes on.
proof fn lemma_nesting_cost_grows(page: Seq<char>, n: int)
    requires
        0 <= n <= page.len(),
    ensures
        nesting_cost(page.take(n)) <= nesting_cost(page),
    decreases page.len() - n,
{
    if n < page.len() {
        lemma_nesting_cost_grows(page, n + 1);
        assert(page.take(n + 1).drop_last() =~= page.take(n));
    } else {
        assert(page.take(n) =~= page);
    }
}

/// Tells whether `c` is one of two letters.
fn either(c: char, lower: char, upper: char) -> (yes: bool)
    ensures
        yes == is_either(c, lower, upper),
{
    c == lower || c == upper
}

/// Computes what `d` adds to the nesting cost after `a`, `b` and `c`.
fn window_charge(a: char, b: char, c: char, d: char) -> (charge: usize)
    ensures
        charge == window_cost(a, b, c, d),
        charge <= 6,
{
    let mut charge: usize = 0;
    if c == '<' && (('a' <= d && d <= 'z') || ('A' <= d && d <= 'Z')) {
        charge += 1;
    }
    if b == '<' && either(c, 't', 'T') && (either(d, 'd', 'D') || either(d, 'h', 'H')) {
        charge += 2;
    }
    if b == '<' && either(c, 't', 'T') && either(d, 'r', 'R') {
        charge += 1;
    }
    if a == '<' && either(b, 'c', 'C') && either(c, 'o', 'O') && either(d, 'l', 'L') {
        charge += 1;
    }
    if b == '<' && c == '/' && either(d, 'p', 'P') {
        charge += 1;
    }
    if a == '<' && b == '/' && either(c, 'b', 'B') && either(d, 'r', 'R') {
        charge += 1;
    }
    charge
}

/// Whether `page` may nest deeper than `max_nesting`.
pub fn nests_too_deep(page: &str, max_nesting: usize) -> (too_deep: bool)
    ensures
        too_deep == (nesting_bound(page@) > max_nesting),
{
    if max_nesting < 3 {
        return true;
    }
    let room = max_nesting - 3;
    let mut cost: usize = 0;
    let mut a: char = ' ';
    let mut b: char = ' ';
    let mut c: char = ' ';
    for d in it: page.chars()
        invariant
            it.seq() == page@,
            room == max_nesting - 3,
            cost == nesting_cost(page@.take(it.index() as int)),
            cost <= room,
            a == char_at(page@, it.index() - 3),
            b == char_at(page@, it.index() - 2),
            c == char_at(page@, it.index() - 1),
    {
        let charge = window_charge(a, b, c, d);
        proof {
            let seen = page@.take(it.index() + 1);
            assert(seen.drop_last() =~= page@.take(it.index() as int));
            assert(char_at(seen, seen.len() - 4) == a);
            assert(char_at(seen, seen.len() - 3) == b);
            assert(char_at(seen, seen.len() - 2) == c);
            assert(seen.last() == d);
            lemma_nesting_cost_grows(page@, it.index() + 1);
        }
        if charge > room - cost {
            return true;
        }
        cost += charge;
        a = b;
        b = c;
        c = d;
    }
    proof {
        assert(page@.take(page@.len() as int) =~= page@);
    }
    false
}

/// Turns the names found on a page into catalog entries.
pub fn items_named(names: Vec<String>) -> (items: Vec<CatalogItem>)
    ensures
        views(items@) == entries_named(names.deep_view()),
{
    let mut items: Vec<CatalogItem> = Vec::new();
    let mut i: usize = 0;
    while i < names.len()
        invariant
            i <= names.len(),
            items.len() == i,
            forall|j: int|
                0 <= j < i ==> (#[trigger] items@[j])@ == (ItemView {
                    key: names@[j]@,
                    description: Seq::empty(),
                }),
        decreases names.len() - i,
    {
        items.push(CatalogItem { key: names[i].clone(), description: String::new() });
        i += 1;
    }
    proof {
        assert(names.deep_view().len() == names.len());
        assert forall|j: int| 0 <= j < names.len() implies #[trigger] names.deep_view()[j]
            == names@[j]@ by {}
        assert(views(items@) =~= entries_named(names.deep_view()));
    }
    items
}

/// Reads the current snapshot off a catalog page: one entry for each `a`
/// element below an element of class `product-name`.
///
/// The parsed page is walked by recursion, so the caller says how deep a
/// page it has stack for: `max_nesting` levels take `stack_bytes_for`
/// bytes. A page that is too large, or that may nest deeper than
/// `max_nesting`, is refused.
pub fn scrape_items(page: &str, max_nesting: usize) -> (items: Result<
    Vec<CatalogItem>,
    ScrapeError,
>)
    ensures
        match items {
            Ok(found) => page_fault(page, max_nesting) is None && views(found@) == entries_named(
                found_texts(page@, entry_class(), entry_tag()),
            ),
            Err(e) => page_fault(page, max_nesting) == Some(e),
        },
{
    if page.len() > MAX_PAGE_BYTES {
        return Err(ScrapeError::PageTooLarge);
    }
    if nests_too_deep(page, max_nesting) {
        return Err(ScrapeError::PageTooDeep);
    }
    let names = find_texts(page, "product-name", "a", max_nesting);
    Ok(items_named(names))
}

} // verus!
