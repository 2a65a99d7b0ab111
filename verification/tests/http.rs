use onedrive_slideshow::http::normalize;
use onedrive_slideshow::http::with_query;
use onedrive_slideshow::http::AppendPaths;
use onedrive_slideshow::http::BodyKind;
use onedrive_slideshow::http::Client;
use onedrive_slideshow::http::HttpError;
use onedrive_slideshow::http::Method;
use onedrive_slideshow::http::StatusRule;
use onedrive_slideshow::http::URL_TEXT_LIMIT;
use onedrive_slideshow::transport::FailureKind;
use onedrive_slideshow::transport::Outcome;
use onedrive_slideshow::transport::RetryPolicy;

fn url(text: &str) -> String {
    text.to_string()
}

#[test]
fn append_path_adds_one_segment() {
    let base = url("https://login.microsoftonline.com/consumers/oauth2/v2.0");
    assert_eq!(
        base.append_path("devicecode"),
        Some(url("https://login.microsoftonline.com/consumers/oauth2/v2.0/devicecode"))
    );
    assert_eq!(
        base.append_path("token"),
        Some(url("https://login.microsoftonline.com/consumers/oauth2/v2.0/token"))
    );
    // The base is left as it was.
    assert_eq!(base, "https://login.microsoftonline.com/consumers/oauth2/v2.0");
}

#[test]
fn append_paths_adds_the_segments_in_order() {
    let base = url("https://graph.microsoft.com/v1.0/me/drive");
    assert_eq!(
        base.append_paths(&["root:", "slideshow.txt:", "content"]),
        Some(url("https://graph.microsoft.com/v1.0/me/drive/root:/slideshow.txt:/content"))
    );
    assert_eq!(
        base.append_paths(&["items", "1", "content"]),
        Some(url("https://graph.microsoft.com/v1.0/me/drive/items/1/content"))
    );
    assert_eq!(base.append_paths(&[]), Some(url("https://graph.microsoft.com/v1.0/me/drive")));
}

#[test]
fn appended_segments_are_escaped() {
    let base = url("http://127.0.0.1:1234");
    // A base without path gets its slash.
    assert_eq!(base.append_paths(&[]), Some(url("http://127.0.0.1:1234/")));
    assert_eq!(base.append_path("a b"), Some(url("http://127.0.0.1:1234/a%20b")));
    // A slash inside a segment does not open a new one.
    assert_eq!(base.append_path("2/100%.png"), Some(url("http://127.0.0.1:1234/2%2F100%25.png")));
    assert_eq!(
        url("http://example.net/foo/").append_path("img"),
        Some(url("http://example.net/foo//img"))
    );
    assert_eq!(
        url("http://example.net/foo?q=1#top").append_path("img"),
        Some(url("http://example.net/foo/img?q=1#top"))
    );
    assert_eq!(
        url("https://github.com/servo").append_paths(&["..", "rust-url", ".", "pulls"]),
        Some(url("https://github.com/servo/rust-url/pulls"))
    );
}

#[test]
fn nothing_is_appended_to_what_is_no_base() {
    assert_eq!(url("not a url").append_path("x"), None);
    assert_eq!(url("").append_path("x"), None);
    assert_eq!(url("/relative/path").append_paths(&["x"]), None);
    assert_eq!(url("mailto:me@example.com").append_path("x"), None);
    assert_eq!(url("data:text/plain,hello").append_paths(&["x"]), None);
}

#[test]
fn texts_over_the_limit_are_refused() {
    let base = url("http://example.net");
    // The base has 18 characters, and each segment counts with its slash.
    let room = URL_TEXT_LIMIT - 18 - 1;
    let long = "a".repeat(room + 1);
    let longest = "a".repeat(room);
    assert_eq!(base.append_path(&long), None);
    assert_eq!(base.append_path(&longest), Some(format!("http://example.net/{}", longest)));
    assert_eq!(base.append_paths(&[&longest, ""]), None);
    assert_eq!(
        base.append_paths(&[&longest[1..], ""]),
        Some(format!("http://example.net/{}/", &longest[1..]))
    );
    assert_eq!(format!("http://example.net/{}", long).append_path("x"), None);
    assert_eq!(format!("http://example.net/{}", long).append_paths(&[]), None);
    assert_eq!(with_query("http://example.net", &"a".repeat(URL_TEXT_LIMIT + 1)), None);
    assert_eq!(with_query(&format!("http://example.net/{}", long), "a=b"), None);
    assert_eq!(normalize(&format!("http://example.net/{}", long)), None);
    // A character counts once, however many bytes it takes.
    let wide = "\u{e9}".repeat(room);
    assert_eq!(
        base.append_path(&wide),
        Some(format!("http://example.net/{}", "%C3%A9".repeat(room)))
    );
}

#[test]
fn any_number_of_segments_is_appended() {
    let base = url("http://example.net/top");
    let many = vec!["a"; 65];
    assert_eq!(
        base.append_paths(&many),
        Some(format!("http://example.net/top{}", "/a".repeat(65)))
    );
    let names: Vec<String> = (0..5000).map(|n| format!("s{n}")).collect();
    let segments: Vec<&str> = names.iter().map(|name| name.as_str()).collect();
    let expected: String = names.iter().map(|name| format!("/{name}")).collect();
    assert_eq!(base.append_paths(&segments), Some(format!("http://example.net/top{expected}")));
    // Appending a list is appending its elements in turn.
    let mut step = base.clone();
    for segment in &segments[..100] {
        step = step.append_path(segment).unwrap();
    }
    assert_eq!(Some(step), base.append_paths(&segments[..100]));
}

#[test]
fn with_query_replaces_the_query() {
    assert_eq!(
        with_query(
            "http://127.0.0.1:1234/root:/d1:/children",
            "select=id,image,folder,video&top=1000"
        ),
        Some(url("http://127.0.0.1:1234/root:/d1:/children?select=id,image,folder,video&top=1000"))
    );
    assert_eq!(
        with_query("https://example.com/products?page=1#list", "page=2"),
        Some(url("https://example.com/products?page=2#list"))
    );
    assert_eq!(with_query("https://example.com", "a b"), Some(url("https://example.com/?a%20b")));
    assert_eq!(with_query("products", "page=2"), None);
}

#[test]
fn normalize_gives_the_parsed_form() {
    assert_eq!(normalize("http://127.0.0.1:1234/d1_next"), Some(url("http://127.0.0.1:1234/d1_next")));
    assert_eq!(normalize("HTTP://EXAMPLE.com"), Some(url("http://example.com/")));
    assert_eq!(normalize("https://example.com:443/a/../b"), Some(url("https://example.com/b")));
    assert_eq!(normalize("d1_next"), None);
    assert_eq!(normalize(""), None);
}

#[test]
fn get_asks_for_json_as_bearer() {
    let client = Client::new();
    let request = client.get("token", url("http://127.0.0.1:1234/slideshow.txt"));
    assert_eq!(request.method, Method::Get);
    assert_eq!(request.url, "http://127.0.0.1:1234/slideshow.txt");
    assert_eq!(request.bearer, Some(url("token")));
    assert!(request.form.is_empty());
    assert_eq!(request.rule, StatusRule::NoError);
    assert_eq!(request.body, BodyKind::Json);
}

#[test]
fn post_sends_the_form() {
    let client = Client::new();
    let request = client.post(url("http://h/token"), &[("a", "1"), ("b", "2"), ("a", "3")], None);
    assert_eq!(request.method, Method::Post);
    assert_eq!(request.url, "http://h/token");
    assert_eq!(request.bearer, None);
    assert_eq!(
        request.form,
        vec![(url("a"), url("1")), (url("b"), url("2")), (url("a"), url("3"))]
    );
    assert_eq!(request.rule, StatusRule::NoError);
    assert_eq!(request.body, BodyKind::Json);
    let request = client.post(url("http://h/token"), &[], Some(400));
    assert!(request.form.is_empty());
    assert_eq!(request.rule, StatusRule::NoErrorBut(400));
}

#[test]
fn download_refuses_error_statuses() {
    let client = Client::new();
    let request = client.download("token", url("http://h/items/1/content"));
    assert_eq!(request.method, Method::Get);
    assert_eq!(request.url, "http://h/items/1/content");
    assert_eq!(request.bearer, Some(url("token")));
    assert!(request.form.is_empty());
    assert_eq!(request.rule, StatusRule::NoError);
    assert_eq!(request.body, BodyKind::Bytes);
    for status in [200, 206, 302] {
        assert_eq!(request.settle(Outcome::Response(status)), Ok(()));
    }
    for status in [400, 401, 404, 500, 503] {
        assert_eq!(request.settle(Outcome::Response(status)), Err(HttpError::Status(status)));
    }
    assert_eq!(
        request.settle(Outcome::Failure(FailureKind::Dns)),
        Err(HttpError::RequestFailed(FailureKind::Dns))
    );
}

#[test]
fn error_statuses_are_failures() {
    let client = Client::new();
    let request = client.get("token", url("http://h/"));
    for status in [100, 200, 204, 302, 399, 600] {
        assert_eq!(request.settle(Outcome::Response(status)), Ok(()));
    }
    for status in [400, 401, 404, 499, 500, 503, 599] {
        assert_eq!(request.settle(Outcome::Response(status)), Err(HttpError::Status(status)));
    }
    assert_eq!(
        request.settle(Outcome::Failure(FailureKind::Timeout)),
        Err(HttpError::RequestFailed(FailureKind::Timeout))
    );
    assert_eq!(
        request.settle(Outcome::Failure(FailureKind::Other)),
        Err(HttpError::RequestFailed(FailureKind::Other))
    );
}

#[test]
fn expected_error_is_an_answer() {
    let client = Client::new();
    let request = client.post(url("http://h/token"), &[], Some(400));
    assert_eq!(request.settle(Outcome::Response(400)), Ok(()));
    assert_eq!(request.settle(Outcome::Response(200)), Ok(()));
    assert_eq!(request.settle(Outcome::Response(401)), Err(HttpError::Status(401)));
    assert_eq!(request.settle(Outcome::Response(500)), Err(HttpError::Status(500)));
    // An expected status that is no error changes nothing.
    let request = client.post(url("http://h/token"), &[], Some(200));
    assert_eq!(request.settle(Outcome::Response(200)), Ok(()));
    assert_eq!(request.settle(Outcome::Response(400)), Err(HttpError::Status(400)));
}

#[test]
fn client_retries_under_the_standard_policy() {
    let client = Client::new();
    assert_eq!(client.policy, RetryPolicy::standard());
    assert_eq!(client.transport().policy, RetryPolicy { max_attempts: 5, base_delay: 1000 });
}

#[test]
fn only_status_401_says_that_the_token_was_refused() {
    assert!(HttpError::Status(401).is_unauthorized());
    assert!(!HttpError::Status(400).is_unauthorized());
    assert!(!HttpError::Status(403).is_unauthorized());
    assert!(!HttpError::Status(500).is_unauthorized());
    assert!(!HttpError::Body.is_unauthorized());
    assert!(!HttpError::RequestFailed(FailureKind::Timeout).is_unauthorized());
}
