use dlsite_renamer::extract::ExtractError;
use dlsite_renamer::pipeline::{
    display_name, resolve_name, status_ok, FetchCause, PipelineError, Response,
};
use dlsite_renamer::work::WorkType;

const PAGE: &str = "<html><body><h1 id=\"work_name\">A/B: Test!</h1>\
    <table id=\"work_maker\"><tr><th>Circle</th><td><span class=\"maker_name\">\
    <a> Some Circle </a></span></td></tr></table>\
    <div class=\"work_right_info\" data-product-id=\"RJ123456\"></div></body></html>";

fn arrived(status: u16, body: &str) -> Response {
    Response::Arrived { status, body: body.to_string() }
}

#[test]
fn display_name_of_a_page() {
    assert_eq!(
        display_name("RJ123456", arrived(200, PAGE)),
        Ok("[RJ123456][Some Circle] A／B： Test！".to_string())
    );
    assert_eq!(
        display_name("rj123456", arrived(200, PAGE)),
        Ok("[RJ123456][Some Circle] A／B： Test！".to_string())
    );
}

#[test]
fn display_name_takes_the_product_id_from_the_page() {
    assert_eq!(
        display_name("VJ9", arrived(200, PAGE)),
        Ok("[RJ123456][Some Circle] A／B： Test！".to_string())
    );
}

#[test]
fn display_name_of_an_unknown_identifier() {
    assert_eq!(display_name("XX999", arrived(200, PAGE)), Err(PipelineError::UnknownFormat));
    assert_eq!(
        display_name("XX999", Response::Failed { cause: "refused".to_string() }),
        Err(PipelineError::UnknownFormat)
    );
}

#[test]
fn display_name_after_a_failed_request() {
    assert_eq!(
        display_name("RJ1", Response::Failed { cause: "connection refused".to_string() }),
        Err(PipelineError::FetchFailed {
            id: "RJ1".to_string(),
            cause: FetchCause::Transport("connection refused".to_string()),
        })
    );
}

#[test]
fn display_name_after_a_status_without_success() {
    for status in [404u16, 500, 301, 199, 300, 0] {
        assert_eq!(
            display_name("rj1", arrived(status, PAGE)),
            Err(PipelineError::FetchFailed {
                id: "rj1".to_string(),
                cause: FetchCause::Status(status),
            })
        );
    }
}

#[test]
fn display_name_of_a_page_without_fields() {
    assert_eq!(
        display_name("RJ1", arrived(200, "<html></html>")),
        Err(PipelineError::Extraction(ExtractError::ProductIdNotFound))
    );
    assert_eq!(
        display_name(
            "RJ1",
            arrived(204, "<div class=\"work_right_info\" data-product-id=\"RJ1\"></div>")
        ),
        Err(PipelineError::Extraction(ExtractError::TitleNotFound))
    );
}

#[test]
fn success_is_a_status_from_200_to_299() {
    assert!(status_ok(200));
    assert!(status_ok(204));
    assert!(status_ok(299));
    assert!(!status_ok(199));
    assert!(!status_ok(300));
    assert!(!status_ok(404));
    assert!(!status_ok(0));
    assert!(!status_ok(u16::MAX));
}

#[test]
fn resolve_name_extracts_and_composes() {
    assert_eq!(
        resolve_name(WorkType::Rj, PAGE),
        Ok("[RJ123456][Some Circle] A／B： Test！".to_string())
    );
    assert_eq!(resolve_name(WorkType::Rj, ""), Err(ExtractError::ProductIdNotFound));
}
