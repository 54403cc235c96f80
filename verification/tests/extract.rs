use dlsite_renamer::extract::{
    assemble, extract, extract_with, ExtractError, ExtractedFields, MatchedNode,
};
use dlsite_renamer::work::WorkType;

fn page(title: &str, maker: &str, info: &str) -> String {
    format!(
        "<!DOCTYPE html><html><head><title>catalog</title></head><body>\
         {title}\
         <table id=\"work_maker\"><tr><th>Maker</th><td>{maker}</td></tr></table>\
         {info}\
         </body></html>"
    )
}

fn fields(product_id: &str, publisher_name: &str, title: &str) -> ExtractedFields {
    ExtractedFields {
        product_id: product_id.to_string(),
        publisher_name: publisher_name.to_string(),
        title: title.to_string(),
    }
}

fn texts(items: &[&str]) -> Vec<MatchedNode> {
    items.iter().map(|s| MatchedNode { text: s.to_string(), attribute: None }).collect()
}

fn attrs(items: &[Option<&str>]) -> Vec<MatchedNode> {
    items
        .iter()
        .map(|s| MatchedNode { text: "text".to_string(), attribute: s.map(|s| s.to_string()) })
        .collect()
}

#[test]
fn extract_reads_the_three_fields() {
    let html = page(
        "<h1 id=\"work_name\">Sample Title</h1>",
        "<span class=\"maker_name\"><a href=\"/c\">Some Circle</a></span>",
        "<div class=\"work_right_info\" data-product-id=\"RJ123456\">x</div>",
    );
    assert_eq!(
        extract(WorkType::Rj, &html),
        Ok(fields("RJ123456", "Some Circle", "Sample Title"))
    );
    assert_eq!(
        extract(WorkType::Vj, &html),
        Ok(fields("RJ123456", "Some Circle", "Sample Title"))
    );
}

#[test]
fn extract_uses_the_locator_of_the_work_type() {
    let html = page(
        "<h1 id=\"work_name\">T</h1>",
        "<a href=\"/c\">Direct</a><span class=\"maker_name\"><a>Nested</a></span>",
        "<div class=\"work_right_info\" data-product-id=\"BJ1\"></div>",
    );
    assert_eq!(extract(WorkType::Rj, &html).unwrap().publisher_name, "Nested");
    assert_eq!(extract(WorkType::Vj, &html).unwrap().publisher_name, "Nested");
    assert_eq!(extract(WorkType::Bj, &html).unwrap().publisher_name, "Direct");
}

#[test]
fn extract_joins_the_text_nodes_of_the_title() {
    let html = page(
        "<h1 id=\"work_name\">A <b>bold</b> and <i>more</i>!</h1>",
        "<a>C</a>",
        "<div class=\"work_right_info\" data-product-id=\"RJ1\"></div>",
    );
    assert_eq!(extract(WorkType::Rj, &html).unwrap().title, "A bold and more!");
}

#[test]
fn extract_keeps_the_title_untrimmed_and_trims_the_publisher() {
    let html = page(
        "<h1 id=\"work_name\">  Title \n</h1>",
        "<a>\n   Some Circle\t </a>",
        "<div class=\"work_right_info\" data-product-id=\"RJ1\"></div>",
    );
    assert_eq!(
        extract(WorkType::Rj, &html),
        Ok(fields("RJ1", "Some Circle", "  Title \n"))
    );
}

#[test]
fn extract_reads_the_attribute_not_the_text() {
    let html = page(
        "<h1 id=\"work_name\">T</h1>",
        "<a>C</a>",
        "<div class=\"work_right_info\" data-product-id=\"RJ777\">RJ000</div>",
    );
    assert_eq!(extract(WorkType::Rj, &html).unwrap().product_id, "RJ777");
}

#[test]
fn extract_without_product_id_node() {
    let html = page("<h1 id=\"work_name\">T</h1>", "<a>C</a>", "");
    assert_eq!(extract(WorkType::Rj, &html), Err(ExtractError::ProductIdNotFound));
}

#[test]
fn extract_without_product_id_attribute() {
    let html = page(
        "<h1 id=\"work_name\">T</h1>",
        "<a>C</a>",
        "<div class=\"work_right_info\">RJ1</div>",
    );
    assert_eq!(extract(WorkType::Rj, &html), Err(ExtractError::ProductIdNotFound));
}

#[test]
fn extract_without_title() {
    let html = page(
        "<h1>T</h1>",
        "<a>C</a>",
        "<div class=\"work_right_info\" data-product-id=\"RJ1\"></div>",
    );
    assert_eq!(extract(WorkType::Rj, &html), Err(ExtractError::TitleNotFound));
}

#[test]
fn extract_reports_the_product_id_before_the_title() {
    assert_eq!(extract(WorkType::Rj, ""), Err(ExtractError::ProductIdNotFound));
    assert_eq!(
        extract(WorkType::Bj, "<p>nothing here</p>"),
        Err(ExtractError::ProductIdNotFound)
    );
}

#[test]
fn extract_without_publisher_gives_an_empty_name() {
    let html = page(
        "<h1 id=\"work_name\">T</h1>",
        "no link",
        "<div class=\"work_right_info\" data-product-id=\"RJ1\"></div>",
    );
    assert_eq!(extract(WorkType::Rj, &html), Ok(fields("RJ1", "", "T")));
}

#[test]
fn extract_takes_the_last_of_several_matches() {
    let html = page(
        "<h1 id=\"work_name\">First</h1><h2 id=\"work_name\">Second</h2>",
        "<a>One</a><a>Two</a>",
        "<div class=\"work_right_info\" data-product-id=\"RJ1\"></div>\
         <div class=\"work_right_info\" data-product-id=\"RJ2\"></div>",
    );
    assert_eq!(extract(WorkType::Rj, &html), Ok(fields("RJ2", "Two", "Second")));
}

#[test]
fn extract_wants_the_attribute_on_every_product_id_node() {
    let html = page(
        "<h1 id=\"work_name\">T</h1>",
        "<a>C</a>",
        "<div class=\"work_right_info\"></div>\
         <div class=\"work_right_info\" data-product-id=\"RJ2\"></div>",
    );
    assert_eq!(extract(WorkType::Rj, &html), Err(ExtractError::ProductIdNotFound));
}

#[test]
fn assemble_takes_the_last_of_each() {
    assert_eq!(
        assemble(
            &texts(&["t1", "t2"]),
            &attrs(&[Some("p1"), Some("p2")]),
            &texts(&["c1", " c2 "])
        ),
        Ok(fields("p2", "c2", "t2"))
    );
}

#[test]
fn assemble_errors() {
    assert_eq!(
        assemble(&texts(&["t"]), &attrs(&[]), &texts(&["c"])),
        Err(ExtractError::ProductIdNotFound)
    );
    assert_eq!(
        assemble(&texts(&["t"]), &attrs(&[Some("p"), None]), &texts(&["c"])),
        Err(ExtractError::ProductIdNotFound)
    );
    assert_eq!(
        assemble(&texts(&["t"]), &attrs(&[None, Some("p")]), &texts(&["c"])),
        Err(ExtractError::ProductIdNotFound)
    );
    assert_eq!(
        assemble(&texts(&[]), &attrs(&[Some("p")]), &texts(&["c"])),
        Err(ExtractError::TitleNotFound)
    );
    assert_eq!(
        assemble(&texts(&[]), &attrs(&[]), &texts(&[])),
        Err(ExtractError::ProductIdNotFound)
    );
}

#[test]
fn assemble_without_publisher() {
    assert_eq!(
        assemble(&texts(&["t"]), &attrs(&[Some("p")]), &texts(&[])),
        Ok(fields("p", "", "t"))
    );
    assert_eq!(
        assemble(&texts(&["t"]), &attrs(&[Some("p")]), &texts(&["  "])),
        Ok(fields("p", "", "t"))
    );
}

#[test]
fn extract_with_other_locators() {
    let html = "<html><body><p class=\"t\">Title</p><i data-product-id=\"X1\">x</i>\
                <b> Maker </b></body></html>";
    assert_eq!(extract_with(html, ".t", "i", "b"), Ok(fields("X1", "Maker", "Title")));
    assert_eq!(extract_with(html, ".t", "i", "u"), Ok(fields("X1", "", "Title")));
    assert_eq!(extract_with(html, "u", "i", "b"), Err(ExtractError::TitleNotFound));
    assert_eq!(extract_with(html, ".t", "b", "b"), Err(ExtractError::ProductIdNotFound));
}

#[test]
fn extract_with_a_locator_that_is_no_query() {
    let html = "<html><body><p class=\"t\">Title</p><i data-product-id=\"X1\">x</i></body></html>";
    assert_eq!(extract_with(html, "p[", "i", "b"), Err(ExtractError::LocatorRejected));
    assert_eq!(extract_with(html, ".t", "", "b"), Err(ExtractError::LocatorRejected));
    assert_eq!(extract_with(html, ".t", "i", ">>"), Err(ExtractError::LocatorRejected));
    assert_eq!(extract_with("", "!", "!", "!"), Err(ExtractError::LocatorRejected));
}

#[test]
fn locators_of_the_work_types_are_queries() {
    for work in [WorkType::Rj, WorkType::Vj, WorkType::Bj] {
        assert_ne!(extract(work, ""), Err(ExtractError::LocatorRejected));
    }
}
