use dlsite_renamer::lookup::{fill_template, get_page_url, page_url};
use dlsite_renamer::work::WorkType;

#[test]
fn page_url_of_each_work_type() {
    assert_eq!(
        get_page_url("RJ123456"),
        "https://www.dlsite.com/maniax/work/=/product_id/RJ123456.html"
    );
    assert_eq!(
        get_page_url("VJ000111"),
        "https://www.dlsite.com/pro/work/=/product_id/VJ000111.html"
    );
    assert_eq!(
        get_page_url("BJ42"),
        "https://www.dlsite.com/books/work/=/product_id/BJ42.html"
    );
}

#[test]
fn page_url_holds_the_identifier_in_upper_case() {
    assert_eq!(
        get_page_url("rj123456"),
        "https://www.dlsite.com/maniax/work/=/product_id/RJ123456.html"
    );
    assert_eq!(
        page_url(WorkType::Vj, "vj9"),
        "https://www.dlsite.com/pro/work/=/product_id/VJ9.html"
    );
}

#[test]
fn page_url_of_an_unknown_identifier() {
    assert_eq!(get_page_url("XX999"), "Invalid_Work_Id");
    assert_eq!(get_page_url(""), "Invalid_Work_Id");
    assert_eq!(get_page_url("RJ"), "Invalid_Work_Id");
}

#[test]
fn page_url_under_a_given_work_type() {
    assert_eq!(
        page_url(WorkType::Rj, "RJ1"),
        "https://www.dlsite.com/maniax/work/=/product_id/RJ1.html"
    );
    assert_eq!(
        page_url(WorkType::Bj, "anything"),
        "https://www.dlsite.com/books/work/=/product_id/ANYTHING.html"
    );
}

#[test]
fn fill_template_replaces_every_placeholder() {
    assert_eq!(fill_template("{id}", "X"), "X");
    assert_eq!(fill_template("a{id}b", "X"), "aXb");
    assert_eq!(fill_template("{id}{id}", "X"), "XX");
    assert_eq!(fill_template("{id}-{id}-", "12"), "12-12-");
    assert_eq!(fill_template("none", "X"), "none");
    assert_eq!(fill_template("", "X"), "");
    assert_eq!(fill_template("a{id}b", ""), "ab");
}

#[test]
fn fill_template_leaves_broken_placeholders() {
    assert_eq!(fill_template("{id", "X"), "{id");
    assert_eq!(fill_template("id}", "X"), "id}");
    assert_eq!(fill_template("{ id }", "X"), "{ id }");
    assert_eq!(fill_template("{ID}", "X"), "{ID}");
    assert_eq!(fill_template("{i{id}d}", "X"), "{iXd}");
    assert_eq!(fill_template("{{id}}", "X"), "{X}");
}

#[test]
fn fill_template_does_not_fill_what_it_has_put_in() {
    assert_eq!(fill_template("{id}", "{id}"), "{id}");
    assert_eq!(fill_template("{i{id}", "d}"), "{id}");
}

#[test]
fn fill_template_agrees_with_str_replace() {
    let templates = ["", "{id}", "x{id}y{id}z", "{i{id}d}", "{id", "}{id}{", "ｑ{id}ｑ"];
    let ids = ["", "RJ1", "{id}", "é", "id}"];
    for t in templates {
        for id in ids {
            assert_eq!(fill_template(t, id), t.replace("{id}", id));
        }
    }
}
