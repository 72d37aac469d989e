use watcher::build_request_head;
use watcher::classify_response;
use watcher::decimal_string;
use watcher::encode_report;
use watcher::is_success_status;
use watcher::parse_status_code;
use watcher::resolve_agent_id;
use watcher::split_uri;
use watcher::Diff;
use watcher::Item;
use watcher::Kind;
use watcher::Report;
use watcher::ReportError;

fn report(id: &str, added: Vec<Item>, removed: Vec<Item>, first: bool) -> Report {
    Report { id: id.to_string(), diff: Diff { added, removed }, first }
}

fn file(name: &str) -> Item {
    Item { name: name.to_string(), ty: Kind::File }
}

#[test]
fn encode_matches_the_wire_format() {
    let r = report("agent1", vec![file("a.txt")], vec![], true);
    let s = encode_report(&r);
    assert_eq!(
        s,
        "{\"id\":\"agent1\",\"diff\":{\"added\":[{\"name\":\"a.txt\",\"ty\":\"File\"}],\"removed\":[]},\"first\":true}"
    );
}

#[test]
fn encode_separates_items_with_commas_and_names_folders() {
    let added = vec![file("a"), Item { name: "d".to_string(), ty: Kind::Folder }];
    let removed = vec![file("b")];
    let s = encode_report(&report("x", added, removed, false));
    assert_eq!(
        s,
        "{\"id\":\"x\",\"diff\":{\"added\":[{\"name\":\"a\",\"ty\":\"File\"},{\"name\":\"d\",\"ty\":\"Folder\"}],\"removed\":[{\"name\":\"b\",\"ty\":\"File\"}]},\"first\":false}"
    );
}

#[test]
fn encode_output_is_json_a_parser_accepts() {
    let r = report("id-1", vec![file("a.txt")], vec![file("b.txt")], true);
    let s = encode_report(&r);
    let v: serde_json::Value = serde_json::from_str(&s).unwrap();
    assert_eq!(v["id"].as_str().unwrap(), "id-1");
    assert_eq!(v["first"].as_bool().unwrap(), true);
    assert_eq!(v["diff"]["added"][0]["name"].as_str().unwrap(), "a.txt");
    assert_eq!(v["diff"]["added"][0]["ty"].as_str().unwrap(), "File");
    assert_eq!(v["diff"]["removed"][0]["name"].as_str().unwrap(), "b.txt");
}

#[test]
fn encode_escapes_names_so_they_round_trip() {
    let odd = "we\"ird\\na\nme\tand\rmore\u{1}\u{8}\u{c}end";
    let r = report("id", vec![Item { name: odd.to_string(), ty: Kind::File }], vec![], false);
    let s = encode_report(&r);
    let v: serde_json::Value = serde_json::from_str(&s).unwrap();
    assert_eq!(v["diff"]["added"][0]["name"].as_str().unwrap(), odd);
}

#[test]
fn encode_keeps_non_ascii_names() {
    let name = "héllo wörld";
    let r = report("id", vec![Item { name: name.to_string(), ty: Kind::Folder }], vec![], true);
    let s = encode_report(&r);
    let v: serde_json::Value = serde_json::from_str(&s).unwrap();
    assert_eq!(v["diff"]["added"][0]["name"].as_str().unwrap(), name);
}

#[test]
fn request_head_is_framed_exactly() {
    let head = build_request_head(&"127.0.0.1:10000".to_string(), &"/".to_string(), 27);
    assert_eq!(
        head,
        "POST / HTTP/1.1\r\nHost: 127.0.0.1:10000\r\nContent-Type: application/json\r\nContent-Length: 27\r\nConnection: close\r\n\r\n"
    );
}

#[test]
fn request_head_counts_body_bytes_not_characters() {
    let r = report("é", vec![], vec![], true);
    let body = encode_report(&r);
    assert!(body.len() > body.chars().count());
    let head = build_request_head(&"h".to_string(), &"/".to_string(), body.len());
    assert!(head.contains(&format!("Content-Length: {}\r\n", body.len())));
}

#[test]
fn decimal_rendering_is_exact() {
    assert_eq!(decimal_string(0), "0");
    assert_eq!(decimal_string(7), "7");
    assert_eq!(decimal_string(10), "10");
    assert_eq!(decimal_string(65535), "65535");
    assert_eq!(decimal_string(1000000), "1000000");
}

#[test]
fn status_line_parsing() {
    assert_eq!(parse_status_code(&b"HTTP/1.1 200 OK\r\n".to_vec()), Some(200));
    assert_eq!(parse_status_code(&b"HTTP/1.0 404 Not Found".to_vec()), Some(404));
    assert_eq!(parse_status_code(&b"HTTP/1.1 500 Internal Server Error".to_vec()), Some(500));
    assert_eq!(parse_status_code(&b"garbage".to_vec()), None);
    assert_eq!(parse_status_code(&b"HTTP/1.1 ".to_vec()), None);
    assert_eq!(parse_status_code(&b"HTTP/1.1 2x0 hm".to_vec()), None);
    assert_eq!(parse_status_code(&Vec::new()), None);
}

#[test]
fn success_is_exactly_the_2xx_range() {
    assert!(!is_success_status(199));
    assert!(is_success_status(200));
    assert!(is_success_status(204));
    assert!(is_success_status(299));
    assert!(!is_success_status(300));
    assert!(!is_success_status(500));
}

#[test]
fn outcomes_cover_every_failure_kind() {
    assert_eq!(classify_response(&None), Err(ReportError::Transport));
    assert_eq!(
        classify_response(&Some(b"not an http response".to_vec())),
        Err(ReportError::Transport)
    );
    assert_eq!(
        classify_response(&Some(b"HTTP/1.1 503 Unavailable".to_vec())),
        Err(ReportError::BadStatus(503))
    );
    assert_eq!(classify_response(&Some(b"HTTP/1.1 204 No Content".to_vec())), Ok(204));
}

#[test]
fn failure_messages_name_the_kind() {
    assert_eq!(ReportError::Transport.message(), "HTTP transport error");
    assert_eq!(ReportError::BadStatus(500).message(), "Bad response code: 500");
}

#[test]
fn uri_splitting() {
    let u = split_uri(&"http://127.0.0.1:10000".to_string()).unwrap();
    assert_eq!(u.authority, "127.0.0.1:10000");
    assert_eq!(u.path, "/");
    let u = split_uri(&"http://example.com/api/report".to_string()).unwrap();
    assert_eq!(u.authority, "example.com");
    assert_eq!(u.path, "/api/report");
    assert!(split_uri(&"ftp://example.com".to_string()).is_none());
    assert!(split_uri(&"http://".to_string()).is_none());
    assert!(split_uri(&"http:///nohost".to_string()).is_none());
    assert!(split_uri(&"http".to_string()).is_none());
}

#[test]
fn agent_id_resolution() {
    let given = resolve_agent_id(Some("my-agent".to_string()));
    assert_eq!(given, "my-agent");
    let generated = resolve_agent_id(None);
    assert_eq!(generated.chars().count(), 10);
    assert!(generated.chars().all(|c| c.is_ascii_alphanumeric()));
    let again = resolve_agent_id(None);
    assert_eq!(again.chars().count(), 10);
}
