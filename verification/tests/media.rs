use llmd_coordinator::media::{
    check_addresses, check_target, domain_allowed, inline_pieces, install_media, media_jobs, parse_data_uri,
    permitted_ip, start_media, validate_content_type, HostAddress, MediaBody, MediaConfig,
    MediaDownload, MediaReply, MediaStart,
};
use serde_json::Value;

fn members(text: &str) -> serde_json::Map<String, Value> {
    serde_json::from_str(text).unwrap()
}

fn octets(text: &str) -> [u8; 4] {
    let parts: Vec<u8> = text.split('.').map(|part| part.parse().unwrap()).collect();
    [parts[0], parts[1], parts[2], parts[3]]
}

fn groups(text: &str) -> Vec<u16> {
    let mut out = Vec::new();
    for part in text.split(':').filter(|part| !part.is_empty()) {
        if part.contains('.') {
            let o = octets(part);
            out.push(u16::from(o[0]) * 256 + u16::from(o[1]));
            out.push(u16::from(o[2]) * 256 + u16::from(o[3]));
        } else {
            out.push(u16::from_str_radix(part, 16).unwrap());
        }
    }
    out
}

fn address(text: &str) -> HostAddress {
    if !text.contains(':') {
        return HostAddress::V4(octets(text));
    }
    let (head, tail) = text.split_once("::").unwrap();
    let (head, tail) = (groups(head), groups(tail));
    let mut segments = [0u16; 8];
    segments[..head.len()].copy_from_slice(&head);
    segments[8 - tail.len()..].copy_from_slice(&tail);
    HostAddress::V6(segments)
}

fn config() -> MediaConfig {
    MediaConfig {
        timeout_ms: 1000,
        max_concurrent_downloads: 2,
        max_entries: 2,
        max_bytes: 4,
        allow_private_networks: false,
        allowed_domains: Vec::new(),
    }
}

#[test]
fn validates_data_uri_size_and_type() {
    assert!(parse_data_uri("data:image/png;base64,AQID", 3).is_ok());
    assert!(parse_data_uri("data:text/plain;base64,AQID", 3).is_err());
    assert!(parse_data_uri("data:image/png;base64,AQID", 2).is_err());
}

#[test]
fn each_complaint_about_a_data_uri() {
    let complaint = |value: &str| parse_data_uri(value, 2).unwrap_err().message;
    assert_eq!(complaint("http://x"), "media URL must be http, https, or data");
    assert_eq!(complaint("data:image/png;base64"), "malformed data URI");
    assert_eq!(complaint("data:image/png,AQID"), "image data URI must use base64 encoding");
    assert_eq!(
        complaint("data:text/plain;base64,AQ=="),
        "unsupported image content type \"text/plain\""
    );
    assert_eq!(complaint("data:image/png;base64,A"), "image data URI has invalid base64");
    assert_eq!(complaint("data:image/png;base64,AQID"), "image data exceeds max_download_bytes");
}

#[test]
fn content_types_lose_their_parameters() {
    assert!(validate_content_type(" image/webp ; q=1").is_ok());
    assert!(validate_content_type("image/svg+xml").is_err());
}

#[test]
fn domain_matching_does_not_accept_suffix_confusion() {
    assert!(domain_allowed("img.example.com", &vec!["example.com".to_owned()]));
    assert!(!domain_allowed("badexample.com", &vec!["example.com".to_owned()]));
}

#[test]
fn domains_ignore_case_and_leading_dots() {
    assert!(domain_allowed("IMG.Example.COM", &vec!["..exAmple.com".to_owned()]));
    assert!(domain_allowed("anything", &Vec::new()));
    assert!(!domain_allowed("example.com", &vec!["other.org".to_owned()]));
}

#[test]
fn blocks_non_public_and_ipv4_mapped_addresses() {
    for text in [
        "127.0.0.1",
        "169.254.169.254",
        "100.64.0.1",
        "198.18.0.1",
        "::1",
        "::ffff:127.0.0.1",
        "2001:db8::1",
    ] {
        assert!(!permitted_ip(address(text)), "{text}");
    }
    assert!(permitted_ip(address("93.184.216.34")));
}

#[test]
fn each_reserved_block_is_blocked() {
    for text in [
        "10.0.0.1",
        "172.16.0.1",
        "172.31.255.255",
        "192.168.1.1",
        "255.255.255.255",
        "192.0.2.1",
        "198.51.100.1",
        "203.0.113.1",
        "224.0.0.1",
        "239.1.1.1",
        "0.1.2.3",
        "198.19.255.255",
        "::",
        "ff02::1",
        "fc00::1",
        "fdff::1",
        "fe80::1",
        "febf::1",
        "::ffff:10.0.0.1",
    ] {
        assert!(!permitted_ip(address(text)), "{text}");
    }
    for text in ["172.32.0.1", "100.128.0.1", "198.20.0.1", "240.0.0.1", "2606:2800::1", "::ffff:8.8.8.8"] {
        assert!(permitted_ip(address(text)), "{text}");
    }
}

#[test]
fn private_networks_are_opened_and_nothing_else() {
    let mut config = config();
    assert!(check_addresses(&vec![address("10.0.0.1")], &config).is_err());
    config.allow_private_networks = true;
    assert!(check_addresses(&vec![address("10.0.0.1"), address("8.8.8.8")], &config).is_ok());
    assert!(check_addresses(&vec![address("::ffff:192.168.0.1")], &config).is_ok());
    for text in ["127.0.0.1", "169.254.169.254", "100.64.0.1", "fc00::1", "::1"] {
        let error = check_addresses(&vec![address(text)], &config).unwrap_err();
        assert_eq!(error.message, "media URL resolves to a prohibited address");
    }
    assert!(check_addresses(&Vec::new(), &config).is_err());
}

const CHAT: &str = r#"{"model": "m", "messages": [
    {"role": "system", "content": "text"},
    {"role": "user", "content": [
        {"type": "text", "text": "look"},
        {"type": "image_url", "image_url": {"url": "https://a/1", "detail": "low"}},
        {"type": "image_url", "image_url": "https://a/skipped"},
        {"type": "image_url", "image_url": {"url": "data:image/png;base64,AQ=="}}
    ]}
]}"#;

#[test]
fn media_are_listed_in_order() {
    assert_eq!(
        media_jobs(&members(CHAT), &config()).unwrap(),
        vec!["https://a/1".to_owned(), "data:image/png;base64,AQ==".to_owned()]
    );
    let mut small = config();
    small.max_entries = 1;
    assert_eq!(
        media_jobs(&members(CHAT), &small).unwrap_err().message,
        "too many multimodal entries"
    );
    let wrong = members(
        r#"{"messages": [{"content": [{"type": "image_url", "image_url": {"url": 1}}]}]}"#,
    );
    assert_eq!(
        media_jobs(&wrong, &config()).unwrap_err().message,
        "image_url.url must be a string"
    );
}

#[test]
fn installed_media_read_back() {
    let values = vec!["data:x".to_owned(), "data:y".to_owned()];
    let (body, count) = install_media(&members(CHAT), &values);
    assert_eq!(count, 2);
    assert_eq!(media_jobs(&body, &config()).unwrap(), values);
    assert_eq!(body["model"], "m");
    assert_eq!(body["messages"][1]["content"][0]["text"], "look");
    assert_eq!(body["messages"][1]["content"][1]["image_url"]["detail"], "low");
    assert_eq!(body["messages"][1]["content"][2]["image_url"], "https://a/skipped");
}

#[test]
fn installing_the_same_media_changes_nothing() {
    let body = members(CHAT);
    let urls = media_jobs(&body, &config()).unwrap();
    assert_eq!(install_media(&body, &urls).0, body);
    let text = members(r#"{"prompt": "x"}"#);
    assert_eq!(install_media(&text, &Vec::new()), (text, 0));
}

#[test]
fn inline_media_are_ready() {
    let start = start_media("data:image/gif;base64,AQID", &config()).unwrap();
    assert!(matches!(start, MediaStart::Ready(value) if value == "data:image/gif;base64,AQID"));
    assert!(start_media("data:image/gif;base64,A", &config()).is_err());
    assert_eq!(start_media("no url", &config()).unwrap_err().message, "invalid media URL");
}

fn download(url: &str) -> MediaDownload {
    match start_media(url, &config()).unwrap() {
        MediaStart::Download(download) => download,
        MediaStart::Ready(_) => panic!("remote media are downloaded"),
    }
}

#[test]
fn remote_media_have_a_target() {
    let target = download("HTTPS://Img.Example.com/a b").target(&config()).unwrap();
    assert_eq!(target.host, "img.example.com");
    assert_eq!(target.port, 443);
    assert_eq!(download("http://x:81/").target(&config()).unwrap().port, 81);
    assert_eq!(
        download("ftp://x/").target(&config()).unwrap_err().message,
        "media URL scheme must be http or https"
    );
    let mut strict = config();
    strict.allowed_domains = vec!["example.com".to_owned()];
    assert_eq!(
        download("http://x/").target(&strict).unwrap_err().message,
        "media URL domain is not allowed"
    );
}

#[test]
fn each_complaint_about_a_target() {
    let http = || Some("http".to_owned());
    assert_eq!(
        check_target(http(), None, Some(80), &config()).unwrap_err().message,
        "media URL has no host"
    );
    assert_eq!(
        check_target(http(), Some("x".to_owned()), None, &config()).unwrap_err().message,
        "media URL has no port"
    );
    assert_eq!(
        check_target(None, None, None, &config()).unwrap_err().message,
        "media URL scheme must be http or https"
    );
}

#[test]
fn redirects_are_followed_a_limited_number_of_times() {
    let mut at = download("http://a/x/y");
    for step in 0..5 {
        at = match at.respond(302, Some("../z")).unwrap() {
            MediaReply::Redirect(next) => next,
            MediaReply::Body => panic!("a redirect leads on"),
        };
        assert_eq!(at.redirects, step + 1);
        assert_eq!(at.url, "http://a/z");
    }
    assert_eq!(at.respond(302, Some("/z")).unwrap_err().message, "too many media redirects");
}

#[test]
fn each_complaint_about_an_answer() {
    let at = download("http://a/");
    assert_eq!(
        at.respond(301, None).unwrap_err().message,
        "media redirect has no valid location"
    );
    assert_eq!(at.respond(301, Some("http://")).unwrap_err().message, "invalid media redirect");
    let missing = at.respond(404, None).unwrap_err();
    assert_eq!(missing.message, "media download returned 404 Not Found");
    assert!(!missing.client);
    assert!(matches!(at.respond(200, None), Ok(MediaReply::Body)));
}

#[test]
fn downloaded_images_become_inline() {
    let mut body = MediaBody::accept(Some("image/png; charset=x"), Some(3), &config()).unwrap();
    body.add_chunk(&[1, 2], &config()).unwrap();
    body.add_chunk(&[3], &config()).unwrap();
    let uri = body.data_uri();
    assert_eq!(uri, "data:image/png;base64,AQID");
    assert!(parse_data_uri(&uri, 3).is_ok());
    let error = body.add_chunk(&[4, 5], &config()).unwrap_err();
    assert_eq!(error.message, "image data exceeds max_download_bytes");
    assert_eq!(body.bytes, vec![1, 2, 3]);
}

#[test]
fn pieces_make_the_whole_image() {
    let config = MediaConfig { max_bytes: 3, ..config() };
    let whole = "data:image/png;base64,AQID";
    for pieces in [vec![vec![1, 2, 3]], vec![vec![1], vec![], vec![2, 3]], vec![vec![1], vec![2], vec![3]]] {
        for length in [None, Some(0), Some(3)] {
            let made = inline_pieces(Some("image/png; q=1"), length, &pieces, &config).unwrap();
            assert_eq!(made, whole);
            assert!(parse_data_uri(&made, 3).is_ok());
        }
    }
    for pieces in [vec![vec![1, 2, 3, 4]], vec![vec![1, 2], vec![3], vec![4]]] {
        for length in [None, Some(1)] {
            let error = inline_pieces(Some("image/png"), length, &pieces, &config).unwrap_err();
            assert_eq!(error.message, "image data exceeds max_download_bytes");
            assert!(error.client);
        }
    }
    assert!(inline_pieces(None, None, &vec![vec![1]], &config).unwrap_err().client);
    assert!(inline_pieces(Some("image/gif"), Some(4), &vec![vec![1]], &config).unwrap_err().client);
}

#[test]
fn heads_of_answers_are_checked() {
    assert_eq!(
        MediaBody::accept(None, None, &config()).unwrap_err().message,
        "unsupported image content type \"application/octet-stream\""
    );
    assert_eq!(
        MediaBody::accept(Some("image/png"), Some(5), &config()).unwrap_err().message,
        "image content length exceeds max_download_bytes"
    );
}
