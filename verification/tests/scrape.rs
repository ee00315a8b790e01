use catalog_watch::item::CatalogItem;
use catalog_watch::scrape::{
    items_named, nests_too_deep, scrape_items, stack_bytes_for, ScrapeError, MAX_PAGE_BYTES,
    STACK_BYTES_PER_LEVEL,
};

/// The nesting that the stack of a test's thread, two MiB, has room for.
const LEVELS: usize = 512;

const ENTRY: &str = "<p class=\"product-name\"><a>x</a></p>";

fn named(key: &str) -> CatalogItem {
    CatalogItem { key: key.to_string(), description: String::new() }
}

fn nested(levels: usize) -> String {
    let mut page = "<div>".repeat(levels);
    page.push_str(ENTRY);
    page
}

/// The nesting cost of `page`: three below the least budget that admits it.
fn cost(page: &str) -> usize {
    let mut budget = 3;
    while nests_too_deep(page, budget) {
        budget += 1;
    }
    budget - 3
}

#[test]
fn names_become_items_without_description() {
    let items = items_named(vec!["Vanilla".to_string(), "".to_string(), "Maple".to_string()]);
    assert_eq!(items, vec![named("Vanilla"), named(""), named("Maple")]);
    assert_eq!(items_named(vec![]), vec![]);
}

#[test]
fn links_below_product_names_are_scraped_in_document_order() {
    let page = "<html><body>\
        <h2 class=\"product-name\"><a href=\"/vanilla\">Vanilla</a></h2>\
        <h2 class=\"product-name\"><a href=\"/maple\" data-description=\"autumn spice\">Maple</a></h2>\
        </body></html>";
    assert_eq!(scrape_items(page, LEVELS), Ok(vec![named("Vanilla"), named("Maple")]));
}

#[test]
fn links_elsewhere_are_ignored() {
    let page = "<div><a href=\"/\">Home</a></div>\
        <div class=\"product-name\">No link here</div>\
        <div class=\"product-price\"><a>3.50</a></div>\
        <a class=\"product-name\">Not below</a>";
    assert_eq!(scrape_items(page, LEVELS), Ok(vec![]));
}

#[test]
fn link_may_lie_deeper_and_class_may_be_one_of_several() {
    let page = "<div class=\"tile product-name big\"><p><span><a>Mint <b>Chip</b></a></span></p></div>";
    assert_eq!(scrape_items(page, LEVELS), Ok(vec![named("Mint Chip")]));
}

#[test]
fn page_without_markup_has_no_items() {
    assert_eq!(scrape_items("", LEVELS), Ok(vec![]));
    assert_eq!(scrape_items("product-name a", LEVELS), Ok(vec![]));
    assert_eq!(scrape_items("", 3), Ok(vec![]));
}

#[test]
fn character_references_are_decoded_in_names() {
    let page = "<p class=\"product-name\"><a>Salt &amp; Caramel</a></p>";
    assert_eq!(scrape_items(page, LEVELS), Ok(vec![named("Salt & Caramel")]));
}

#[test]
fn catalog_of_some_hundred_entries_is_scraped() {
    let mut page = String::from("<!DOCTYPE html><html><body><ul>");
    let mut expected = vec![];
    for i in 0..250 {
        page.push_str(&format!(
            "<li class=\"product-name\"><a href=\"/p/{}\">Flavor {}</a> 3.50</li>\n",
            i, i
        ));
        expected.push(named(&format!("Flavor {}", i)));
    }
    page.push_str("</ul></body></html>");
    assert_eq!(cost(&page), 3 + 250 * 2);
    assert_eq!(scrape_items(&page, LEVELS), Ok(expected));
}

#[test]
fn richer_catalog_fits_a_larger_budget() {
    let mut page = String::from("<!DOCTYPE html><html><head><title>Menu</title></head><body><ul>");
    for i in 0..400 {
        page.push_str(&format!(
            "<li><div class=\"product-name\"><a href=\"/p/{}\">Flavor {}</a></div>\
             <span class=\"price\">3.50</span><br></li>\n",
            i, i
        ));
    }
    page.push_str("</ul></body></html>");
    assert_eq!(cost(&page), 5 + 400 * 5);
    assert!(!nests_too_deep(&page, 4096));
    assert!(nests_too_deep(&page, LEVELS));
}

#[test]
fn opening_tags_cost_one_level_each() {
    assert_eq!(cost(""), 0);
    assert_eq!(cost("no tags at all"), 0);
    assert_eq!(cost("<div>"), 1);
    assert_eq!(cost("<a"), 1);
    assert_eq!(cost("<Z>"), 1);
    assert_eq!(cost(&"<div><span>".repeat(50)), 100);
    assert_eq!(cost(ENTRY), 3);
    assert_eq!(cost(&nested(40)), 43);
}

#[test]
fn what_opens_no_element_costs_nothing() {
    assert_eq!(cost("<"), 0);
    assert_eq!(cost("< div>"), 0);
    assert_eq!(cost("<1>"), 0);
    assert_eq!(cost("<<<<"), 0);
    assert_eq!(cost("</div></a></table></td>"), 0);
    assert_eq!(cost("<!-- note --><!DOCTYPE html><?xml?>"), 0);
    assert_eq!(cost("&lt;div&gt; 1 < 2 > 0"), 0);
    assert_eq!(cost("<\u{e9}>\u{ff1c}div>"), 0);
}

#[test]
fn table_parts_cost_the_levels_the_parser_adds() {
    assert_eq!(cost("<td>"), 3);
    assert_eq!(cost("<th>"), 3);
    assert_eq!(cost("<TD>"), 3);
    assert_eq!(cost("<tH"), 3);
    assert_eq!(cost("<tr>"), 2);
    assert_eq!(cost("<TR>"), 2);
    assert_eq!(cost("<col>"), 2);
    assert_eq!(cost("<CoL>"), 2);
    assert_eq!(cost("<table>"), 1);
    assert_eq!(cost("<tbody>"), 1);
    assert_eq!(cost("<caption>"), 1);
    assert_eq!(cost("<table><tr><td>x</td></tr></table>"), 6);
    assert_eq!(cost("<thead>"), 3);
    assert_eq!(cost("<colgroup>"), 2);
    assert_eq!(cost("<track>"), 2);
}

#[test]
fn two_closing_tags_cost_a_level() {
    assert_eq!(cost("</p>"), 1);
    assert_eq!(cost("</P>"), 1);
    assert_eq!(cost("</br>"), 1);
    assert_eq!(cost("</BR"), 1);
    assert_eq!(cost("</pre>"), 1);
    assert_eq!(cost("</b>"), 0);
    assert_eq!(cost("<p>x</p>"), 2);
}

#[test]
fn budget_below_three_admits_nothing() {
    assert!(nests_too_deep("", 0));
    assert!(nests_too_deep("", 2));
    assert!(!nests_too_deep("", 3));
    assert_eq!(scrape_items("", 2), Err(ScrapeError::PageTooDeep));
}

#[test]
fn page_at_the_budget_is_parsed_and_one_level_more_is_not() {
    assert_eq!(scrape_items(&nested(LEVELS - 6), LEVELS), Ok(vec![named("x")]));
    assert_eq!(scrape_items(&nested(LEVELS - 5), LEVELS), Err(ScrapeError::PageTooDeep));
    assert!(!nests_too_deep(&nested(LEVELS - 6), LEVELS));
    assert!(nests_too_deep(&nested(LEVELS - 6), LEVELS - 1));
}

#[test]
fn tables_nested_to_the_budget_are_parsed() {
    let mut page = "<table><td>".repeat(126);
    page.push_str(ENTRY);
    assert_eq!(cost(&page), 126 * 4 + 3);
    assert_eq!(scrape_items(&page, LEVELS), Ok(vec![named("x")]));
}

#[test]
fn deeply_nested_page_is_refused() {
    assert_eq!(scrape_items(&nested(300_000), LEVELS), Err(ScrapeError::PageTooDeep));
    assert_eq!(scrape_items(&nested(300_000), 100_000), Err(ScrapeError::PageTooDeep));
    assert_eq!(scrape_items(&"<a".repeat(1_000_000), LEVELS), Err(ScrapeError::PageTooDeep));
    assert_eq!(ScrapeError::PageTooDeep.message(), "the page holds too many tags to parse");
}

#[test]
fn deeper_page_fits_a_larger_budget() {
    assert_eq!(scrape_items(&nested(1_200), LEVELS), Err(ScrapeError::PageTooDeep));
    assert!(!nests_too_deep(&nested(1_200), 1_206));
    assert!(nests_too_deep(&nested(1_200), 1_205));
}

#[test]
fn stack_grows_with_the_budget() {
    assert_eq!(STACK_BYTES_PER_LEVEL, 4096);
    assert_eq!(stack_bytes_for(0), Some(0));
    assert_eq!(stack_bytes_for(LEVELS), Some(2 * 1024 * 1024));
    assert_eq!(stack_bytes_for(32_768), Some(128 * 1024 * 1024));
    assert_eq!(stack_bytes_for(usize::MAX / 4096), Some(usize::MAX / 4096 * 4096));
    assert_eq!(stack_bytes_for(usize::MAX / 4096 + 1), None);
    assert_eq!(stack_bytes_for(usize::MAX), None);
}

#[test]
fn size_is_looked_at_before_nesting() {
    let page = "<a".repeat(MAX_PAGE_BYTES / 2 + 1);
    assert_eq!(scrape_items(&page, LEVELS), Err(ScrapeError::PageTooLarge));
    assert_eq!(scrape_items(&page, 0), Err(ScrapeError::PageTooLarge));
}

#[test]
fn oversized_page_is_refused() {
    let page = " ".repeat(MAX_PAGE_BYTES + 1);
    assert_eq!(scrape_items(&page, LEVELS), Err(ScrapeError::PageTooLarge));
    assert_eq!(ScrapeError::PageTooLarge.message(), "the page is too large to parse");
}
