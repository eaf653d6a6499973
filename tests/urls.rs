use y_sweet::names::new_doc_id;
use y_sweet::urls::client_urls;

#[test]
fn test_auth_doc() {
    let doc_id = new_doc_id();
    let (url, base_url) = client_urls(&None, "localhost", &doc_id).unwrap();
    let expected_url = format!("ws://localhost/d/{doc_id}/ws");
    assert_eq!(url, expected_url);
    assert_eq!(base_url, format!("http://localhost/d/{doc_id}"));
}

#[test]
fn test_auth_doc_with_prefix() {
    let doc_id = new_doc_id();
    let prefix = Some("https://foo.bar/".to_string());
    let (url, base_url) = client_urls(&prefix, "localhost", &doc_id).unwrap();
    let expected_url = format!("wss://foo.bar/d/{doc_id}/ws");
    assert_eq!(url, expected_url);
    assert_eq!(base_url, format!("https://foo.bar/d/{doc_id}"));
}

#[test]
fn client_urls_keep_prefix_paths_for_the_base() {
    let prefix = Some("http://example.com/app".to_string());
    let (url, base_url) = client_urls(&prefix, "ignored", "d1").unwrap();
    assert_eq!(url, "ws://example.com/d/d1/ws");
    assert_eq!(base_url, "http://example.com/app/d/d1");
    assert_eq!(client_urls(&Some("not a url".to_string()), "h", "d1"), None);
}
