//! Releases published on GitHub: their data, the paged listing of a
//! repository's releases, and the errors that a listing ends in.
use crate::text;
use vstd::prelude::*;
use vstd::string::*;

verus! {

broadcast use vstd::string::group_string_axioms;

/// A published release.
#[derive(Clone, Debug)]
pub struct Release {
    pub url: String,
    pub id: u64,
    pub draft: bool,
    pub prerelease: bool,
    pub name: String,
    pub tag_name: String,
    pub assets: Vec<Asset>,
    pub created_at: String,
    pub published_at: String,
    pub tarball_url: String,
    pub body: String,
}

/// A file attached to a release.
#[derive(Clone, Debug)]
pub struct Asset {
    pub url: String,
    pub id: u64,
    pub name: String,
    pub content_type: String,
    pub state: String,
    pub size: u64,
    pub download_count: u64,
    pub created_at: String,
    pub updated_at: String,
    pub browser_download_url: String,
}

/// The answer that the service gives in place of a list when it refuses a request.
#[derive(Clone, Debug)]
pub struct Response {
    pub message: String,
}

/// An error as a reader sees it: what it says, and the error behind it.
#[derive(Debug)]
pub struct ErrorReport {
    pub message: String,
    pub source: Option<Box<ErrorReport>>,
}

/// A request that could not be made or was not answered with success.
#[derive(Debug)]
pub struct RequestError {
    pub report: ErrorReport,
}

/// A text that is not the JSON that was expected.
#[derive(Debug)]
pub struct JsonError {
    pub report: ErrorReport,
}

/// Why a listing failed.
#[derive(Debug)]
pub enum GitHubUtilError {
    /// The request failed.
    Request(RequestError),
    /// The answer is neither a list of releases nor a refusal.
    Json { source: JsonError, body: String },
    /// The service refused the request, with this message.
    ResponseError(String),
}

/// What the causes of an error add to its text, one line for each.
pub open spec fn causes_text(source: Option<Box<ErrorReport>>) -> Seq<char>
    decreases source,
{
    match source {
        None => Seq::empty(),
        Some(cause) => "\ncaused by: "@ + cause.message@ + causes_text(cause.source),
    }
}

/// The text of an error with all its causes.
pub open spec fn chain_text(err: ErrorReport) -> Seq<char> {
    err.message@ + causes_text(err.source)
}

/// The text of an error, and of each error behind it on a line of its own.
pub fn format_error_chain(err: &ErrorReport) -> (output: String)
    ensures
        output@ == chain_text(*err),
{
    let mut output = err.message.clone();
    let mut current: &Option<Box<ErrorReport>> = &err.source;
    loop
        invariant
            output@ + causes_text(*current) == chain_text(*err),
        decreases *current,
    {
        match current {
            None => {
                return output;
            },
            Some(cause) => {
                output.append("\ncaused by: ");
                output.append(cause.message.as_str());
                current = &cause.source;
            },
        }
    }
}

impl GitHubUtilError {
    /// What the error says.
    pub open spec fn text(self) -> Seq<char> {
        match self {
            GitHubUtilError::Request(err) => "Request error: "@ + err.report.message@,
            GitHubUtilError::Json { source, body } => "Failed to parse JSON: "@
                + source.report.message@ + ". Response body: "@ + body@,
            GitHubUtilError::ResponseError(msg) => "Response error: "@ + msg@,
        }
    }

    /// The error behind this one.
    pub open spec fn cause(self) -> Option<ErrorReport> {
        match self {
            GitHubUtilError::Request(err) => Some(err.report),
            GitHubUtilError::Json { source, body } => Some(source.report),
            GitHubUtilError::ResponseError(msg) => None,
        }
    }

    /// What the error says.
    pub fn message(&self) -> (r: String)
        ensures
            r@ == self.text(),
    {
        match self {
            GitHubUtilError::Request(err) => {
                let mut r = "Request error: ".to_string();
                r.append(err.report.message.as_str());
                r
            },
            GitHubUtilError::Json { source, body } => {
                let mut r = "Failed to parse JSON: ".to_string();
                r.append(source.report.message.as_str());
                r.append(". Response body: ");
                r.append(body.as_str());
                r
            },
            GitHubUtilError::ResponseError(msg) => {
                let mut r = "Response error: ".to_string();
                r.append(msg.as_str());
                r
            },
        }
    }

    /// The error behind this one.
    pub fn source(&self) -> (r: Option<&ErrorReport>)
        ensures
            match r {
                Some(report) => self.cause() == Some(*report),
                None => self.cause() is None,
            },
    {
        match self {
            GitHubUtilError::Request(err) => Some(&err.report),
            GitHubUtilError::Json { source, body: _ } => Some(&source.report),
            GitHubUtilError::ResponseError(_) => None,
        }
    }

    /// This error with the errors behind it, as a chain.
    pub fn into_report(self) -> (r: ErrorReport)
        ensures
            r.message@ == self.text(),
            match self.cause() {
                Some(cause) => r.source == Some(Box::new(cause)),
                None => r.source is None,
            },
    {
        let message = self.message();
        match self {
            GitHubUtilError::Request(err) => ErrorReport {
                message,
                source: Some(Box::new(err.report)),
            },
            GitHubUtilError::Json { source, body: _ } => ErrorReport {
                message,
                source: Some(Box::new(source.report)),
            },
            GitHubUtilError::ResponseError(_) => ErrorReport { message, source: None },
        }
    }
}

impl From<RequestError> for GitHubUtilError {
    fn from(err: RequestError) -> (r: Self) {
        GitHubUtilError::Request(err)
    }
}

impl vstd::std_specs::convert::FromSpecImpl<RequestError> for GitHubUtilError {
    open spec fn obeys_from_spec() -> bool {
        true
    }

    open spec fn from_spec(err: RequestError) -> Self {
        GitHubUtilError::Request(err)
    }
}

impl From<JsonError> for GitHubUtilError {
    fn from(err: JsonError) -> (r: Self)
        ensures
            r matches GitHubUtilError::Json { source, body } && source == err && body@.len() == 0,
    {
        GitHubUtilError::Json { source: err, body: String::new() }
    }
}

impl vstd::std_specs::convert::FromSpecImpl<JsonError> for GitHubUtilError {
    open spec fn obeys_from_spec() -> bool {
        false
    }

    open spec fn from_spec(err: JsonError) -> Self {
        GitHubUtilError::Json { source: err, body: arbitrary() }
    }
}

/// One page of the listing, as it was read.
pub enum ReleasePage {
    /// The page is a list of releases.
    Releases(Vec<Release>),
    /// The page is not a list of releases. `refusal` is the page read as a
    /// refusal, where that is what it is.
    NotReleases { source: JsonError, refusal: Option<Response>, body: String },
}

/// A listing that has collected the releases of all pages before `page`.
pub struct ReleaseListing {
    pub owner: String,
    pub repository: String,
    pub page: i32,
    pub releases: Vec<Release>,
}

/// Where a listing stands after a page.
pub enum ListingStep {
    /// The next page is to be fetched.
    Fetch(ReleaseListing),
    /// All releases have been collected.
    Complete(Vec<Release>),
    /// The listing failed.
    Failed(GitHubUtilError),
}

/// Where a listing stands, in specifications.
pub enum ListingView {
    Fetching { owner: Seq<char>, repository: Seq<char>, page: int, releases: Seq<Release> },
    Complete { releases: Seq<Release> },
    Failed { error: GitHubUtilError },
}

/// The error that a page ends a listing with, if it does: that of a failed request, a
/// refusal, or an unreadable page.
pub open spec fn page_error(answer: Result<ReleasePage, RequestError>) -> Option<GitHubUtilError> {
    match answer {
        Err(err) => Some(GitHubUtilError::Request(err)),
        Ok(ReleasePage::Releases(list)) => None,
        Ok(ReleasePage::NotReleases { source, refusal, body }) => match refusal {
            Some(response) => Some(GitHubUtilError::ResponseError(response.message)),
            None => Some(GitHubUtilError::Json { source, body }),
        },
    }
}

impl ListingView {
    /// The state that the answer for a page leads to. A page without releases ends the
    /// listing.
    pub open spec fn after(self, answer: Result<ReleasePage, RequestError>) -> ListingView {
        match self {
            ListingView::Fetching { owner, repository, page, releases } => match page_error(answer) {
                Some(error) => ListingView::Failed { error },
                None => {
                    let list = answer->Ok_0->Releases_0@;
                    if list.len() == 0 {
                        ListingView::Complete { releases }
                    } else {
                        ListingView::Fetching {
                            owner,
                            repository,
                            page: page + 1,
                            releases: releases + list,
                        }
                    }
                },
            },
            _ => self,
        }
    }
}

/// The address of one page of a repository's releases.
pub open spec fn page_url(owner: Seq<char>, repository: Seq<char>, page: nat) -> Seq<char> {
    "https://api.github.com/repos/"@ + owner + "/"@ + repository
        + "/releases?per_page=100&page="@ + text::decimal(page)
}

impl ListingStep {
    /// The state that the step describes.
    pub open spec fn state(self) -> ListingView {
        match self {
            ListingStep::Fetch(listing) => listing.state(),
            ListingStep::Complete(releases) => ListingView::Complete { releases: releases@ },
            ListingStep::Failed(error) => ListingView::Failed { error },
        }
    }
}

impl ReleaseListing {
    /// The state that the listing is in.
    pub open spec fn state(self) -> ListingView {
        ListingView::Fetching {
            owner: self.owner@,
            repository: self.repository@,
            page: self.page as int,
            releases: self.releases@,
        }
    }

    /// The address of the page that is to be fetched.
    pub fn url(&self) -> (r: String)
        requires
            self.page >= 0,
        ensures
            r@ == page_url(self.owner@, self.repository@, self.page as nat),
    {
        let mut r = "https://api.github.com/repos/".to_string();
        r.append(self.owner.as_str());
        r.append("/");
        r.append(self.repository.as_str());
        r.append("/releases?per_page=100&page=");
        r.append(text::decimal_text(self.page as u64).as_str());
        r
    }

    /// Takes the answer for the page that was fetched.
    pub fn receive(self, answer: Result<ReleasePage, RequestError>) -> (step: ListingStep)
        requires
            answer matches Ok(ReleasePage::Releases(list)) && list@.len() > 0 ==> self.page
                < i32::MAX,
        ensures
            step.state() == self.state().after(answer),
    {
        match answer {
            Err(err) => ListingStep::Failed(GitHubUtilError::from(err)),
            Ok(ReleasePage::Releases(list)) => {
                if list.len() == 0 {
                    ListingStep::Complete(self.releases)
                } else {
                    let mut list = list;
                    let mut releases = self.releases;
                    releases.append(&mut list);
                    ListingStep::Fetch(
                        ReleaseListing {
                            owner: self.owner,
                            repository: self.repository,
                            page: self.page + 1,
                            releases,
                        },
                    )
                }
            },
            Ok(ReleasePage::NotReleases { source, refusal, body }) => match refusal {
                Some(response) => ListingStep::Failed(
                    GitHubUtilError::ResponseError(response.message),
                ),
                None => ListingStep::Failed(GitHubUtilError::Json { source, body }),
            },
        }
    }
}

/// Where a listing of a repository's releases starts.
pub open spec fn listing_start(owner: Seq<char>, repository: Seq<char>) -> ListingView {
    ListingView::Fetching { owner, repository, page: 1, releases: Seq::empty() }
}

/// Starts to list all releases of a repository, at the first page.
pub fn list_all_releases(owner: &str, repository: &str) -> (listing: ReleaseListing)
    ensures
        listing.owner@ == owner@,
        listing.repository@ == repository@,
        listing.page == 1,
        listing.releases@.len() == 0,
        listing.state() == listing_start(owner@, repository@),
{
    ReleaseListing {
        owner: owner.to_string(),
        repository: repository.to_string(),
        page: 1,
        releases: Vec::new(),
    }
}

/// Where a listing stands that took `answers`, one after the other, from `state` on.
/// Answers after its end are not asked for.
pub open spec fn after_pages(
    state: ListingView,
    answers: Seq<Result<ReleasePage, RequestError>>,
) -> ListingView
    decreases answers.len(),
{
    if answers.len() == 0 {
        state
    } else {
        after_pages(state.after(answers[0]), answers.drop_first())
    }
}

/// Is the answer a list with at least one release?
pub open spec fn is_filled_page(answer: Result<ReleasePage, RequestError>) -> bool {
    answer matches Ok(ReleasePage::Releases(list)) && list@.len() > 0
}

/// Is the answer a list without releases?
pub open spec fn is_empty_page(answer: Result<ReleasePage, RequestError>) -> bool {
    answer matches Ok(ReleasePage::Releases(list)) && list@.len() == 0
}

/// The releases of filled pages, in the order of the pages.
pub open spec fn releases_of(answers: Seq<Result<ReleasePage, RequestError>>) -> Seq<Release>
    decreases answers.len(),
{
    if answers.len() == 0 {
        Seq::empty()
    } else {
        answers[0]->Ok_0->Releases_0@ + releases_of(answers.drop_first())
    }
}

/// Different pages have different addresses.
pub proof fn law_pages_have_their_own_addresses(
    owner: Seq<char>,
    repository: Seq<char>,
    a: nat,
    b: nat,
)
    requires
        page_url(owner, repository, a) == page_url(owner, repository, b),
    ensures
        a == b,
{
    let prefix = "https://api.github.com/repos/"@ + owner + "/"@ + repository
        + "/releases?per_page=100&page="@;
    assert(text::decimal(a) =~= page_url(owner, repository, a).skip(prefix.len() as int));
    assert(text::decimal(b) =~= page_url(owner, repository, b).skip(prefix.len() as int));
    text::law_decimal_injective(a, b);
}

proof fn lemma_ended_stays(state: ListingView, answers: Seq<Result<ReleasePage, RequestError>>)
    requires
        !(state is Fetching),
    ensures
        after_pages(state, answers) == state,
    decreases answers.len(),
{
    if answers.len() > 0 {
        lemma_ended_stays(state.after(answers[0]), answers.drop_first());
    }
}

/// A listing returns the releases of every page in order, page after page, and it
/// asks for one page more than there are filled ones, all of the same repository.
pub proof fn law_listing_collects_every_page(
    owner: Seq<char>,
    repository: Seq<char>,
    page: int,
    releases: Seq<Release>,
    filled: Seq<Result<ReleasePage, RequestError>>,
    last: Result<ReleasePage, RequestError>,
)
    requires
        forall|i: int| 0 <= i < filled.len() ==> is_filled_page(#[trigger] filled[i]),
        is_empty_page(last),
    ensures
        after_pages(
            ListingView::Fetching { owner, repository, page, releases },
            filled,
        ) == (ListingView::Fetching {
            owner,
            repository,
            page: page + filled.len(),
            releases: releases + releases_of(filled),
        }),
        after_pages(
            ListingView::Fetching { owner, repository, page, releases },
            filled.push(last),
        ) == (ListingView::Complete { releases: releases + releases_of(filled) }),
    decreases filled.len(),
{
    let start = ListingView::Fetching { owner, repository, page, releases };
    if filled.len() == 0 {
        assert(filled.push(last)[0] == last);
        assert(releases + releases_of(filled) =~= releases);
        lemma_ended_stays(start.after(last), filled.push(last).drop_first());
    } else {
        let list = filled[0]->Ok_0->Releases_0@;
        assert(is_filled_page(filled[0]));
        assert(filled.push(last)[0] == filled[0]);
        assert(filled.push(last).drop_first() =~= filled.drop_first().push(last));
        law_listing_collects_every_page(
            owner,
            repository,
            page + 1,
            releases + list,
            filled.drop_first(),
            last,
        );
        assert((releases + list) + releases_of(filled.drop_first()) =~= releases + releases_of(
            filled,
        ));
    }
}

/// A listing fails with the error of the first page that is not a list of releases,
/// whatever was collected before it and whatever would come after it.
pub proof fn law_listing_fails_at_first_bad_page(
    start: ListingView,
    filled: Seq<Result<ReleasePage, RequestError>>,
    bad: Result<ReleasePage, RequestError>,
    rest: Seq<Result<ReleasePage, RequestError>>,
)
    requires
        start is Fetching,
        forall|i: int| 0 <= i < filled.len() ==> is_filled_page(#[trigger] filled[i]),
        page_error(bad) is Some,
    ensures
        after_pages(start, filled.push(bad) + rest) == (ListingView::Failed {
            error: page_error(bad)->0,
        }),
    decreases filled.len(),
{
    let all = filled.push(bad) + rest;
    if filled.len() == 0 {
        assert(all[0] == bad);
        lemma_ended_stays(start.after(bad), all.drop_first());
    } else {
        assert(is_filled_page(filled[0]));
        assert(all[0] == filled[0]);
        assert(all.drop_first() =~= filled.drop_first().push(bad) + rest);
        law_listing_fails_at_first_bad_page(
            start.after(filled[0]),
            filled.drop_first(),
            bad,
            rest,
        );
    }
}

/// An error without a cause is told as it is; an error with one is told first, and the cause
/// after it on a line of its own, with all that is behind it.
pub proof fn law_chain_tells_every_cause(message: String, cause: ErrorReport)
    ensures
        chain_text(ErrorReport { message, source: None }) == message@,
        chain_text(ErrorReport { message, source: Some(Box::new(cause)) }) == message@
            + "\ncaused by: "@ + chain_text(cause),
{
    assert(message@ + Seq::<char>::empty() =~= message@);
    let whole = ErrorReport { message, source: Some(Box::new(cause)) };
    assert(causes_text(whole.source) == "\ncaused by: "@ + cause.message@ + causes_text(
        cause.source,
    ));
    assert(message@ + ("\ncaused by: "@ + cause.message@ + causes_text(cause.source)) =~= message@
        + "\ncaused by: "@ + (cause.message@ + causes_text(cause.source)));
}

/// An error says what it is and the whole of what is behind it, and names the error behind
/// it, if there is one.
pub proof fn law_errors_say_it_all(
    request: RequestError,
    source: JsonError,
    body: String,
    refusal: String,
)
    ensures
        GitHubUtilError::Request(request).text() == "Request error: "@ + request.report.message@,
        (GitHubUtilError::Json { source, body }).text() == "Failed to parse JSON: "@
            + source.report.message@ + ". Response body: "@ + body@,
        GitHubUtilError::ResponseError(refusal).text() == "Response error: "@ + refusal@,
        GitHubUtilError::Request(request).cause() == Some(request.report),
        (GitHubUtilError::Json { source, body }).cause() == Some(source.report),
        GitHubUtilError::ResponseError(refusal).cause() is None,
{
}

/// A failed request ends a listing with that request's error, a refusal with its message,
/// and a page that cannot be read with its whole body; a list of releases does not end it
/// with an error.
pub proof fn law_error_of_a_page(
    request: RequestError,
    source: JsonError,
    response: Response,
    body: String,
    list: Vec<Release>,
)
    ensures
        page_error(Err(request)) == Some(GitHubUtilError::Request(request)),
        page_error(Ok(ReleasePage::NotReleases { source, refusal: Some(response), body })) == Some(
            GitHubUtilError::ResponseError(response.message),
        ),
        page_error(Ok(ReleasePage::NotReleases { source, refusal: None, body })) == Some(
            GitHubUtilError::Json { source, body },
        ),
        page_error(Ok(ReleasePage::Releases(list))) is None,
{
}

/// A page is asked for at the address of the repository's releases, a hundred at a time, by
/// the whole names of the owner and the repository and the page's number.
pub proof fn law_address_of_a_page(owner: Seq<char>, repository: Seq<char>, page: nat)
    ensures
        page_url(owner, repository, page) == "https://api.github.com/repos/"@ + owner + "/"@
            + repository + "/releases?per_page=100&page="@ + text::decimal(page),
        text::numeral_value(text::decimal(page)) == page,
{
    text::law_decimal_stands_for_its_number(page);
}

/// In specifications a listing has the repository, the page and the releases that it has.
pub proof fn law_listing_is_seen_as_it_is(
    listing: ReleaseListing,
    releases: Vec<Release>,
    error: GitHubUtilError,
)
    ensures
        ListingStep::Fetch(listing).state() == (ListingView::Fetching {
            owner: listing.owner@,
            repository: listing.repository@,
            page: listing.page as int,
            releases: listing.releases@,
        }),
        ListingStep::Complete(releases).state() == (ListingView::Complete {
            releases: releases@,
        }),
        ListingStep::Failed(error).state() == (ListingView::Failed { error }),
{
}

/// A whole listing asks for the pages of the repository that was named, from the first one
/// on, and it gives the releases of all filled pages, those and no others.
pub proof fn law_whole_listing_gives_every_release(
    owner: Seq<char>,
    repository: Seq<char>,
    filled: Seq<Result<ReleasePage, RequestError>>,
    last: Result<ReleasePage, RequestError>,
)
    requires
        forall|i: int| 0 <= i < filled.len() ==> is_filled_page(#[trigger] filled[i]),
        is_empty_page(last),
    ensures
        after_pages(listing_start(owner, repository), filled) matches ListingView::Fetching {
            owner: asked_owner,
            repository: asked_repository,
            page,
            releases,
        } && asked_owner == owner && asked_repository == repository && page == filled.len() + 1
            && releases == releases_of(filled),
        after_pages(listing_start(owner, repository), filled.push(last)) == (
        ListingView::Complete { releases: releases_of(filled) }),
{
    let none = Seq::<Release>::empty();
    law_listing_collects_every_page(owner, repository, 1, none, filled, last);
    assert(none + releases_of(filled) =~= releases_of(filled));
}

/// The error of a request becomes the error of a listing as it is.
pub proof fn law_request_error_is_kept(err: RequestError)
    ensures
        <GitHubUtilError as vstd::std_specs::convert::FromSpec<RequestError>>::from_spec(err)
            == GitHubUtilError::Request(err),
{
}

} // verus!
