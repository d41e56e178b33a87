use wine_cellar::github_util::{
    format_error_chain, list_all_releases, ErrorReport, GitHubUtilError, JsonError, ListingStep,
    Release, ReleaseListing, ReleasePage, RequestError, Response,
};

fn release(id: u64) -> Release {
    Release {
        url: String::new(),
        id,
        draft: false,
        prerelease: false,
        name: String::new(),
        tag_name: format!("v{}", id),
        assets: Vec::new(),
        created_at: String::new(),
        published_at: String::new(),
        tarball_url: String::new(),
        body: String::new(),
    }
}

fn report(message: &str, source: Option<ErrorReport>) -> ErrorReport {
    ErrorReport {
        message: message.to_string(),
        source: source.map(Box::new),
    }
}

fn next(step: ListingStep) -> ReleaseListing {
    match step {
        ListingStep::Fetch(listing) => listing,
        _ => panic!("the listing has ended"),
    }
}

#[test]
fn error_chain_has_one_line_for_each_cause() {
    let chain = report("a", Some(report("b", Some(report("c", None)))));
    assert_eq!(format_error_chain(&chain), "a\ncaused by: b\ncaused by: c");
    assert_eq!(format_error_chain(&report("alone", None)), "alone");
}

#[test]
fn errors_say_what_went_wrong() {
    let request = GitHubUtilError::from(RequestError {
        report: report("no route", Some(report("timed out", None))),
    });
    assert_eq!(request.message(), "Request error: no route");
    assert_eq!(request.source().expect("a cause").message, "no route");
    assert_eq!(
        format_error_chain(&request.into_report()),
        "Request error: no route\ncaused by: no route\ncaused by: timed out"
    );

    let json = GitHubUtilError::from(JsonError {
        report: report("expected value", None),
    });
    assert_eq!(
        json.message(),
        "Failed to parse JSON: expected value. Response body: "
    );
    assert_eq!(json.source().expect("a cause").message, "expected value");

    let refused = GitHubUtilError::ResponseError("rate limit".to_string());
    assert_eq!(refused.message(), "Response error: rate limit");
    assert!(refused.source().is_none());
    assert_eq!(
        format_error_chain(&refused.into_report()),
        "Response error: rate limit"
    );
}

#[test]
fn listing_collects_every_page() {
    let listing = list_all_releases("owner", "repo");
    assert_eq!(
        listing.url(),
        "https://api.github.com/repos/owner/repo/releases?per_page=100&page=1"
    );
    let listing = next(listing.receive(Ok(ReleasePage::Releases(vec![release(1), release(2)]))));
    assert_eq!(
        listing.url(),
        "https://api.github.com/repos/owner/repo/releases?per_page=100&page=2"
    );
    let listing = next(listing.receive(Ok(ReleasePage::Releases(vec![release(3)]))));
    assert_eq!(listing.page, 3);
    match listing.receive(Ok(ReleasePage::Releases(Vec::new()))) {
        ListingStep::Complete(releases) => {
            let ids: Vec<u64> = releases.iter().map(|r| r.id).collect();
            assert_eq!(ids, vec![1, 2, 3]);
        }
        _ => panic!("the listing has not ended"),
    }
}

#[test]
fn failed_request_ends_the_listing() {
    let listing = next(
        list_all_releases("o", "r").receive(Ok(ReleasePage::Releases(vec![release(1)]))),
    );
    match listing.receive(Err(RequestError {
        report: report("no route", None),
    })) {
        ListingStep::Failed(error) => assert_eq!(error.message(), "Request error: no route"),
        _ => panic!("the listing has not failed"),
    }
}

#[test]
fn refusal_is_answered_with_its_message() {
    let page = ReleasePage::NotReleases {
        source: JsonError {
            report: report("invalid type", None),
        },
        refusal: Some(Response {
            message: "rate limit".to_string(),
        }),
        body: "{\"message\":\"rate limit\"}".to_string(),
    };
    match list_all_releases("o", "r").receive(Ok(page)) {
        ListingStep::Failed(error) => assert_eq!(error.message(), "Response error: rate limit"),
        _ => panic!("the listing has not failed"),
    }
}

#[test]
fn unreadable_page_is_reported_with_its_body() {
    let page = ReleasePage::NotReleases {
        source: JsonError {
            report: report("expected value", None),
        },
        refusal: None,
        body: "<html>".to_string(),
    };
    match list_all_releases("o", "r").receive(Ok(page)) {
        ListingStep::Failed(error) => assert_eq!(
            error.message(),
            "Failed to parse JSON: expected value. Response body: <html>"
        ),
        _ => panic!("the listing has not failed"),
    }
}
