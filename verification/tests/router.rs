use hehir::codec::DecodeError;
use hehir::router::{
    hop, opensearch, route, Body, Request, Response, HTML, HTML_TYPE, OPENSEARCH_PATH,
    OPENSEARCH_TYPE, SEARCH_PATH, STATUS_OK, STATUS_SEE_OTHER,
};

fn get(path: &str, query: Option<&str>) -> Request {
    Request {
        path: path.to_string(),
        query: query.map(|q| q.to_string()),
        scheme: Some("https".to_string()),
        authority: Some("hehir.example".to_string()),
    }
}

fn redirect(location: &str) -> Response {
    Response {
        status: 303,
        content_type: None,
        location: Some(location.to_string()),
        body: Body::Empty,
    }
}

fn page() -> Response {
    Response {
        status: 200,
        content_type: Some("text/html".to_string()),
        location: None,
        body: Body::Html(HTML.to_string()),
    }
}

#[test]
fn constants_have_their_values() {
    assert_eq!(SEARCH_PATH, "/search");
    assert_eq!(OPENSEARCH_PATH, "/opensearch.xml");
    assert_eq!(STATUS_OK, 200);
    assert_eq!(STATUS_SEE_OTHER, 303);
    assert_eq!(HTML_TYPE, "text/html");
    assert_eq!(OPENSEARCH_TYPE, "application/opensearchdescription+xml");
}

#[test]
fn root_and_unknown_paths_serve_the_page() {
    let root = route(&get("/", None)).unwrap();
    let nonsense = route(&get("/nonsense", None)).unwrap();
    assert_eq!(root.status, 200);
    assert_eq!(root.content_type.as_deref(), Some("text/html"));
    assert_eq!(root.location, None);
    assert_eq!(root, nonsense);
    assert_eq!(root, page());
}

#[test]
fn page_links_to_the_descriptor() {
    assert!(HTML.contains("<!DOCTYPE html>"));
    assert!(HTML.contains("href=\"/opensearch.xml\""));
}

#[test]
fn paths_are_matched_whole() {
    for path in [
        "",
        "/search/",
        "/searching",
        "/Search",
        "search",
        "/opensearch",
        "/opensearch.xml/",
        "/OPENSEARCH.XML",
    ] {
        assert_eq!(route(&get(path, Some("gh"))), Ok(page()));
    }
}

#[test]
fn page_needs_no_origin() {
    let request = Request {
        path: "/".to_string(),
        query: None,
        scheme: None,
        authority: None,
    };
    assert_eq!(route(&request), Ok(page()));
}

#[test]
fn search_without_query_is_an_empty_search() {
    let answer = route(&get("/search", None)).unwrap();
    assert_eq!(answer, redirect("https://google.com/search?q="));
    assert_eq!(answer.status, 303);
    assert_eq!(answer.body, Body::Empty);
}

#[test]
fn search_with_empty_query_is_an_empty_search() {
    assert_eq!(
        route(&get("/search", Some(""))),
        Ok(redirect("https://google.com/search?q="))
    );
}

#[test]
fn search_redirects_to_github() {
    assert_eq!(
        route(&get("/search", Some("gh"))),
        Ok(redirect("https://github.com"))
    );
    assert_eq!(
        route(&get("/search", Some("gh+skipkayhil/hehir"))),
        Ok(redirect("https://github.com/skipkayhil/hehir"))
    );
    assert_eq!(
        route(&get("/search", Some("gh%20skipkayhil%2Fhehir"))),
        Ok(redirect("https://github.com/skipkayhil/hehir"))
    );
}

#[test]
fn search_redirects_to_google() {
    assert_eq!(
        route(&get("/search", Some("plus+plus"))),
        Ok(redirect("https://google.com/search?q=plus+plus"))
    );
    assert_eq!(
        route(&get("/search", Some("plus%2Bplus"))),
        Ok(redirect("https://google.com/search?q=plus%2Bplus"))
    );
    assert_eq!(
        route(&get("/search", Some("g+skipkayhil/hehir"))),
        Ok(redirect("https://google.com/search?q=g+skipkayhil%2Fhehir"))
    );
}

#[test]
fn search_needs_no_origin() {
    let request = Request {
        path: "/search".to_string(),
        query: Some("gh".to_string()),
        scheme: None,
        authority: None,
    };
    assert_eq!(route(&request), Ok(redirect("https://github.com")));
}

#[test]
fn search_rejects_malformed_utf8() {
    assert_eq!(
        route(&get("/search", Some("%FF"))),
        Err(DecodeError::InvalidUtf8)
    );
    assert_eq!(
        route(&get("/search", Some("gh+%C3"))),
        Err(DecodeError::InvalidUtf8)
    );
}

#[test]
fn malformed_query_matters_on_the_search_path_only() {
    assert_eq!(route(&get("/", Some("%FF"))), Ok(page()));
    assert!(route(&get("/opensearch.xml", Some("%FF"))).is_ok());
}

#[test]
fn descriptor_names_the_request_origin() {
    let answer = route(&get("/opensearch.xml", None)).unwrap();
    assert_eq!(answer.status, 200);
    assert_eq!(
        answer.content_type.as_deref(),
        Some("application/opensearchdescription+xml")
    );
    assert_eq!(answer.location, None);
    let expected = "<OpenSearchDescription xmlns=\"http://a9.com/-/spec/opensearch/1.1/\" xmlns:moz=\"http://www.mozilla.org/2006/browser/search/\">
  <ShortName>Hehir</ShortName>
  <Description>A bunny implementation</Description>
  <InputEncoding>UTF-8</InputEncoding>
  <Url type=\"text/html\" template=\"https://hehir.example/search?{searchTerms}\"/>
</OpenSearchDescription>";
    assert_eq!(answer.body, Body::Xml(expected.to_string()));
}

#[test]
fn descriptor_follows_scheme_and_authority() {
    let xml = opensearch("http", "localhost:8787");
    assert!(xml.contains("template=\"http://localhost:8787/search?{searchTerms}\""));
    let other = opensearch("https", "example.org");
    assert!(other.contains("template=\"https://example.org/search?{searchTerms}\""));
    assert_ne!(xml, other);
}

#[test]
fn hop_redirects_to_the_location_of_the_command() {
    assert_eq!(hop("gh"), redirect("https://github.com"));
    assert_eq!(hop("gh a/b"), redirect("https://github.com/a/b"));
    assert_eq!(hop("a b"), redirect("https://google.com/search?q=a+b"));
    assert_eq!(hop(""), redirect("https://google.com/search?q="));
}

#[test]
fn builders_set_status_and_headers() {
    assert_eq!(Response::redirect("x".to_string()), redirect("x"));
    assert_eq!(
        Response::html("<p>"),
        Response {
            status: 200,
            content_type: Some("text/html".to_string()),
            location: None,
            body: Body::Html("<p>".to_string()),
        }
    );
    assert_eq!(
        Response::xml("<a/>".to_string()),
        Response {
            status: 200,
            content_type: Some("application/opensearchdescription+xml".to_string()),
            location: None,
            body: Body::Xml("<a/>".to_string()),
        }
    );
}
