//! Routing: from a request to the response that answers it.
//!
//! A request is the four parts of its URI that routing looks at, and a
//! response is a status, the two headers that matter and a body, so that
//! whatever serves HTTP can hand both over as plain values.
use crate::codec::{
    decode_query, decoded_query, encoded_text, lemma_encoded_query_decodes, DecodeError,
};
use crate::command::{
    github_keyword, has_github_argument, location, parsed, search_prefix, Command, CommandView,
};
use crate::text::str_eq;
use vstd::prelude::*;
use vstd::string::*;

verus! {

/// The path that answers with a redirect.
pub const SEARCH_PATH: &'static str = "/search";

/// The path that answers with the search descriptor.
pub const OPENSEARCH_PATH: &'static str = "/opensearch.xml";

/// The status of a page and of the descriptor.
pub const STATUS_OK: u16 = 200;

/// The status of a redirect, "See Other".
pub const STATUS_SEE_OTHER: u16 = 303;

/// The content type of the page.
pub const HTML_TYPE: &'static str = "text/html";

/// The content type of the search descriptor.
pub const OPENSEARCH_TYPE: &'static str = "application/opensearchdescription+xml";

/// The descriptor up to the origin of its search template.
pub const DESCRIPTOR_HEAD: &'static str =
    "<OpenSearchDescription xmlns=\"http://a9.com/-/spec/opensearch/1.1/\" xmlns:moz=\"http://www.mozilla.org/2006/browser/search/\">\n  <ShortName>Hehir</ShortName>\n  <Description>A bunny implementation</Description>\n  <InputEncoding>UTF-8</InputEncoding>\n  <Url type=\"text/html\" template=\"";

/// What stands between scheme and authority in the search template.
pub const ORIGIN_SEPARATOR: &'static str = "://";

/// The descriptor from the path of its search template on.
pub const DESCRIPTOR_TAIL: &'static str = "/search?{searchTerms}\"/>\n</OpenSearchDescription>";

/// The page that says what this service is and how to install it.
pub const HTML: &'static str = r#"
<!DOCTYPE html>
    <head>
        <meta charset="utf-8">
        <link rel="search" type="application/opensearchdescription+xml" title="Hehir" href="/opensearch.xml" />
        <style>
            body {
                background: #181818;
                color: #d8d8d8;
                font-family: system-ui, sans-serif;
                max-width: 70ch;
                padding: 2ch;
                margin: auto;
                line-height: 1.75;
            }

            a {
                color: #9fd5fc;
            }
            code {
                background: #2b2e3b;
                border: 1px solid #474a58;
                border-radius: 3px;
                color: #cacedf;
                padding: 1px 5px;
            }
        </style>
    </head>
    <body>
        <h1>hehir</h1>

        <p>
            /hɛ(ə)ɹ/
        </p>

        <p>
            A <a href="">bunny</a> implementation.
        </p>

        <h2>installation</h2>

        An <a href="https://developer.mozilla.org/en-US/docs/Web/XML/Guides/OpenSearch">OpenSearch</a>
        Description is provided to make it simple to add Hehir as a search engine in your browser.

        <h3>firefox</h3>

        <p>
        While on this page, start typing in the address bar and select <code>Hehir</code> in the
        Unified Search dropdown.
        </p>

        <p>
        Alternatively, you can right click the address bar and select <code>Add "Hehir"</code>.
        </p>
    </body>
</html>
"#;

/// The parts of a request that routing reads.
#[derive(Debug, Clone, PartialEq, Eq)]
pub struct Request {
    /// The path of the request's URI.
    pub path: String,
    /// The raw query of the URI, still encoded, where it has one.
    pub query: Option<String>,
    /// The scheme of the URI, where it has one.
    pub scheme: Option<String>,
    /// The authority of the URI, where it has one.
    pub authority: Option<String>,
}

/// A request as plain text.
pub struct RequestView {
    pub path: Seq<char>,
    pub query: Option<Seq<char>>,
    pub scheme: Option<Seq<char>>,
    pub authority: Option<Seq<char>>,
}

/// The text of an optional string.
pub open spec fn optional_text(s: Option<String>) -> Option<Seq<char>> {
    match s {
        Some(text) => Some(text@),
        None => None,
    }
}

impl View for Request {
    type V = RequestView;

    open spec fn view(&self) -> RequestView {
        RequestView {
            path: self.path@,
            query: optional_text(self.query),
            scheme: optional_text(self.scheme),
            authority: optional_text(self.authority),
        }
    }
}

/// The body of a response: one of three kinds, never two.
#[derive(Debug, Clone, PartialEq, Eq)]
pub enum Body {
    /// An HTML document.
    Html(String),
    /// An XML document.
    Xml(String),
    /// No body.
    Empty,
}

/// A body as plain text.
pub enum BodyView {
    Html(Seq<char>),
    Xml(Seq<char>),
    Empty,
}

impl View for Body {
    type V = BodyView;

    open spec fn view(&self) -> BodyView {
        match self {
            Body::Html(text) => BodyView::Html(text@),
            Body::Xml(text) => BodyView::Xml(text@),
            Body::Empty => BodyView::Empty,
        }
    }
}

/// An HTTP response.
#[derive(Debug, Clone, PartialEq, Eq)]
pub struct Response {
    /// The status code.
    pub status: u16,
    /// The value of the `Content-Type` header, where it is set.
    pub content_type: Option<String>,
    /// The value of the `Location` header, where it is set.
    pub location: Option<String>,
    /// The body.
    pub body: Body,
}

/// A response as plain text.
pub struct ResponseView {
    pub status: u16,
    pub content_type: Option<Seq<char>>,
    pub location: Option<Seq<char>>,
    pub body: BodyView,
}

impl View for Response {
    type V = ResponseView;

    open spec fn view(&self) -> ResponseView {
        ResponseView {
            status: self.status,
            content_type: optional_text(self.content_type),
            location: optional_text(self.location),
            body: self.body@,
        }
    }
}

/// The redirect to `location`: "See Other", the `Location` header and no
/// body.
pub open spec fn redirect_to(location: Seq<char>) -> ResponseView {
    ResponseView {
        status: STATUS_SEE_OTHER,
        content_type: None,
        location: Some(location),
        body: BodyView::Empty,
    }
}

/// The response that carries an HTML document.
pub open spec fn html_document(body: Seq<char>) -> ResponseView {
    ResponseView {
        status: STATUS_OK,
        content_type: Some(HTML_TYPE@),
        location: None,
        body: BodyView::Html(body),
    }
}

/// The response that carries a search descriptor.
pub open spec fn xml_document(body: Seq<char>) -> ResponseView {
    ResponseView {
        status: STATUS_OK,
        content_type: Some(OPENSEARCH_TYPE@),
        location: None,
        body: BodyView::Xml(body),
    }
}

/// The search descriptor for a service reached under the given scheme and
/// authority: its search template is `{scheme}://{authority}/search?` and
/// the placeholder for the search terms.
pub open spec fn descriptor(scheme: Seq<char>, authority: Seq<char>) -> Seq<char> {
    DESCRIPTOR_HEAD@ + scheme + ORIGIN_SEPARATOR@ + authority + DESCRIPTOR_TAIL@
}

/// The raw query of a request; a request without one has the empty query.
pub open spec fn raw_query(request: RequestView) -> Seq<char> {
    match request.query {
        Some(raw) => raw,
        None => Seq::empty(),
    }
}

/// Whether a request can be answered: one for the descriptor has to say
/// under which scheme and authority it came.
pub open spec fn answerable(request: RequestView) -> bool {
    request.path == OPENSEARCH_PATH@ ==> request.scheme is Some && request.authority is Some
}

/// The answer to a request.
///
/// The search path redirects to where the decoded query leads, and fails
/// where the query does not decode. The descriptor path serves the
/// descriptor for the request's own origin. Every other path serves the
/// page. Paths are compared whole.
pub open spec fn routed(request: RequestView) -> Result<ResponseView, DecodeError> {
    if request.path == SEARCH_PATH@ {
        match decoded_query(raw_query(request)) {
            Some(text) => Ok(redirect_to(location(parsed(text)))),
            None => Err(DecodeError::InvalidUtf8),
        }
    } else if request.path == OPENSEARCH_PATH@ {
        Ok(xml_document(descriptor(request.scheme->0, request.authority->0)))
    } else {
        Ok(html_document(HTML@))
    }
}

impl Response {
    /// Builds the redirect to `location`.
    pub fn redirect(location: String) -> (response: Response)
        ensures
            response@ == redirect_to(location@),
    {
        Response {
            status: STATUS_SEE_OTHER,
            content_type: None,
            location: Some(location),
            body: Body::Empty,
        }
    }

    /// Builds the response that carries an HTML document.
    pub fn html(body: &str) -> (response: Response)
        ensures
            response@ == html_document(body@),
    {
        Response {
            status: STATUS_OK,
            content_type: Some(String::from_str(HTML_TYPE)),
            location: None,
            body: Body::Html(String::from_str(body)),
        }
    }

    /// Builds the response that carries a search descriptor.
    pub fn xml(body: String) -> (response: Response)
        ensures
            response@ == xml_document(body@),
    {
        Response {
            status: STATUS_OK,
            content_type: Some(String::from_str(OPENSEARCH_TYPE)),
            location: None,
            body: Body::Xml(body),
        }
    }
}

/// Redirects to where the command text leads.
pub fn hop(cmd: &str) -> (response: Response)
    ensures
        response@ == redirect_to(location(parsed(cmd@))),
{
    Response::redirect(Command::parse(cmd).to_location())
}

/// Writes the search descriptor for the given origin.
pub fn opensearch(scheme: &str, authority: &str) -> (xml: String)
    ensures
        xml@ == descriptor(scheme@, authority@),
{
    String::from_str(DESCRIPTOR_HEAD).concat(scheme).concat(ORIGIN_SEPARATOR).concat(
        authority,
    ).concat(DESCRIPTOR_TAIL)
}

/// Answers a request.
pub fn route(request: &Request) -> (answer: Result<Response, DecodeError>)
    requires
        answerable(request@),
    ensures
        match answer {
            Ok(response) => routed(request@) == Ok::<ResponseView, DecodeError>(response@),
            Err(e) => routed(request@) == Err::<ResponseView, DecodeError>(e),
        },
        answer is Err <==> request@.path == SEARCH_PATH@ && decoded_query(raw_query(request@))
            is None,
{
    if str_eq(request.path.as_str(), SEARCH_PATH) {
        let raw: &str = match &request.query {
            Some(query) => query.as_str(),
            None => {
                proof {
                    reveal_strlit("");
                    assert(""@ =~= Seq::<char>::empty());
                }
                ""
            },
        };
        match decode_query(raw) {
            Ok(text) => Ok(hop(text.as_str())),
            Err(e) => Err(e),
        }
    } else if str_eq(request.path.as_str(), OPENSEARCH_PATH) {
        let scheme = request.scheme.as_ref().unwrap();
        let authority = request.authority.as_ref().unwrap();
        Ok(Response::xml(opensearch(scheme.as_str(), authority.as_str())))
    } else {
        Ok(Response::html(HTML))
    }
}

/// Every path but the two that are routed serves the same page: status
/// 200, content type `text/html` and the one static body.
pub proof fn lemma_other_paths_serve_the_page(request: RequestView)
    requires
        request.path != SEARCH_PATH@,
        request.path != OPENSEARCH_PATH@,
    ensures
        routed(request) == Ok::<ResponseView, DecodeError>(html_document(HTML@)),
        html_document(HTML@).status == 200,
        html_document(HTML@).content_type == Some(HTML_TYPE@),
        html_document(HTML@).body == BodyView::Html(HTML@),
{
}

/// A search request without a query is sent on to the search with an empty
/// query term.
pub proof fn lemma_search_without_query(request: RequestView)
    requires
        request.path == SEARCH_PATH@,
        request.query is None,
    ensures
        routed(request) == Ok::<ResponseView, DecodeError>(redirect_to(search_prefix())),
{
    let empty = Seq::<char>::empty();
    lemma_encoded_query_decodes(empty);
    assert(encoded_text(empty) =~= empty);
    assert(empty != github_keyword());
    assert(!has_github_argument(empty));
    assert(location(CommandView::Google(empty)) =~= search_prefix());
}

/// The descriptor is served with status 200 and its own content type, and
/// its search template begins with the scheme and the authority of the
/// request it answers.
pub proof fn lemma_descriptor_names_the_origin(request: RequestView)
    requires
        request.path == OPENSEARCH_PATH@,
        request.scheme is Some,
        request.authority is Some,
    ensures
        routed(request) matches Ok(response) && {
            &&& response.status == 200
            &&& response.content_type == Some(OPENSEARCH_TYPE@)
            &&& response.body == BodyView::Xml(
                DESCRIPTOR_HEAD@ + request.scheme->0 + ORIGIN_SEPARATOR@ + request.authority->0
                    + DESCRIPTOR_TAIL@,
            )
        },
{
    assert(SEARCH_PATH@ != OPENSEARCH_PATH@) by {
        reveal_strlit("/search");
        reveal_strlit("/opensearch.xml");
        assert(SEARCH_PATH@.len() == 7);
        assert(OPENSEARCH_PATH@.len() == 15);
    }
}

/// Every answer has one of three shapes: a redirect with a location and no
/// body, or a document with its content type and no location.
pub proof fn lemma_answers_are_well_formed(request: RequestView)
    requires
        answerable(request),
    ensures
        routed(request) matches Ok(response) ==> {
            ||| (response.status == 303 && response.location is Some
                && response.content_type is None && response.body is Empty)
            ||| (response.status == 200 && response.location is None
                && response.content_type == Some(HTML_TYPE@) && response.body is Html)
            ||| (response.status == 200 && response.location is None
                && response.content_type == Some(OPENSEARCH_TYPE@) && response.body is Xml)
        },
{
}

} // verus!
