use rustygolem::text::contains_text;
use rustygolem::url_plugin::{
    extract_yt_id, format_reply, is_yt_url, page_kind, parse_command, parse_url, parse_urls,
    PageKind, UrlLookup, UrlPlugin, YtId,
};
use url::Url;

fn texts(urls: Vec<rustygolem::url_plugin::UrlParts>) -> Vec<String> {
    urls.into_iter().map(|u| u.text).collect()
}

fn url_text(s: &str) -> String {
    Url::parse(s).unwrap().as_str().to_string()
}

fn parsed(s: &str) -> rustygolem::url_plugin::UrlParts {
    parse_url(s).unwrap()
}

#[test]
fn test_simple_url() {
    assert_eq!(texts(parse_urls("http://coucou.com")), vec![url_text("http://coucou.com")])
}

#[test]
fn test_url_prefix() {
    assert_eq!(texts(parse_urls("  http://coucou.com")), vec![url_text("http://coucou.com")]);
    assert_eq!(
        texts(parse_urls("some stuff before  http://coucou.com")),
        vec![url_text("http://coucou.com")]
    );
}

#[test]
fn test_url_suffix() {
    assert_eq!(
        texts(parse_urls("http://coucou.com some stuff after")),
        vec![url_text("http://coucou.com")]
    );
}

#[test]
fn test_url_surround() {
    assert_eq!(
        texts(parse_urls("some stuff before http://coucou.com some stuff after")),
        vec![url_text("http://coucou.com")]
    );
}

#[test]
fn test_weird_chars() {
    assert_eq!(texts(parse_urls("http://coucou.com\ttaaaaabs")), vec![url_text("http://coucou.com")]);
}

#[test]
fn test_multiple_urls() {
    assert_eq!(
        texts(parse_urls("hello http://coucou.com some stuff and https://blah.foo.com to finish")),
        vec![url_text("http://coucou.com"), url_text("https://blah.foo.com")]
    );
}

#[test]
fn test_simple_command_no_match() {
    assert_eq!(parse_command("λlol"), None);
}

#[test]
fn test_simple_command() {
    assert_eq!(parse_command("λurl"), Some((None, None)));
}

#[test]
fn test_command_with_idx() {
    assert_eq!(parse_command("λurl 2"), Some((Some(2), None)));
}

#[test]
fn test_command_with_target() {
    assert_eq!(parse_command("λurl > charlie"), Some((None, Some("charlie".to_string()))));
}

#[test]
fn test_command_with_idx_and_target() {
    assert_eq!(parse_command("λurl 3 > charlie"), Some((Some(3), Some("charlie".to_string()))));
}

#[test]
fn test_is_yt_url() {
    assert!(!is_yt_url(&parsed("https://github.com/CoucouInc/rustygolem")));
    assert!(is_yt_url(&parsed("https://youtube.com/c/BosnianApeSociety")));
    assert!(is_yt_url(&parsed("https://www.youtube.com/watch?v=0F5GQAnj0lo")));
    assert!(is_yt_url(&parsed("https://youtu.be/haLBM94SENg?t=256")));
    assert!(is_yt_url(&parsed("https://m.youtube.com/watch?v=haLBM94SENg")));
}

#[test]
fn test_extract_yt_id() {
    assert_eq!(extract_yt_id(&parsed("https://github.com/CoucouInc/rustygolem")), None);
    assert_eq!(extract_yt_id(&parsed("https://www.youtube.com/results?search_query=mj")), None);
    assert_eq!(
        extract_yt_id(&parsed("https://youtu.be/6gwBOTggfRc")),
        Some(YtId::Video("6gwBOTggfRc".to_string()))
    );
    assert_eq!(
        extract_yt_id(&parsed("https://www.youtube.com/watch?v=ZZ3F3zWiEmc")),
        Some(YtId::Video("ZZ3F3zWiEmc".to_string()))
    );
    assert_eq!(
        extract_yt_id(&parsed("https://www.youtube.com/shorts/EU4p-OC4O3o")),
        Some(YtId::Video("EU4p-OC4O3o".to_string()))
    );
    assert_eq!(
        extract_yt_id(&parsed("https://www.youtube.com/c/%E3%81%8B%E3%82%89%E3%82%81%E3%82%8B")),
        Some(YtId::Channel("%E3%81%8B%E3%82%89%E3%82%81%E3%82%8B".to_string()))
    );
    assert_eq!(
        extract_yt_id(&parsed("https://www.youtube.com/c/inanutshell")),
        Some(YtId::Channel("inanutshell".to_string()))
    );
    assert_eq!(
        extract_yt_id(&parsed("https://www.youtube.com/c/inanutshell/videos")),
        Some(YtId::Channel("inanutshell".to_string()))
    );
    assert_eq!(
        extract_yt_id(&parsed("https://www.youtube.com/channel/UCworsKCR-Sx6R6-BnIjS2MA")),
        Some(YtId::Channel("UCworsKCR-Sx6R6-BnIjS2MA".to_string()))
    );
    assert_eq!(
        extract_yt_id(&parsed("https://youtube.com/c/BosnianApeSociety")),
        Some(YtId::Channel("BosnianApeSociety".to_string()))
    );
    assert_eq!(
        extract_yt_id(&parsed(
            "https://www.youtube.com/playlist?list=PLoBxKk9n0UWcv0HTYARFyCb0s9P21cDSd"
        )),
        Some(YtId::Playlist("PLoBxKk9n0UWcv0HTYARFyCb0s9P21cDSd".to_string()))
    );
    assert_eq!(
        extract_yt_id(&parsed("https://www.youtube.com/user/VieDeChouhartem")),
        Some(YtId::Channel("VieDeChouhartem".to_string()))
    );
}

#[test]
fn parse_url_normalises_and_reads_parts() {
    let u = parsed("HTTP://Example.COM/a/b?x=1&y=%20z");
    assert_eq!(u.text, "http://example.com/a/b?x=1&y=%20z");
    assert_eq!(u.host, Some("example.com".to_string()));
    assert_eq!(u.segments, Some(vec!["a".to_string(), "b".to_string()]));
    assert_eq!(
        u.query,
        vec![("x".to_string(), "1".to_string()), ("y".to_string(), " z".to_string())]
    );
    assert!(parse_url("not a url").is_none());
    assert!(parse_url("").is_none());
}

#[test]
fn parse_urls_empty_and_whitespace_only() {
    assert!(parse_urls("").is_empty());
    assert!(parse_urls(" \t\r\n ").is_empty());
    assert!(parse_urls("no links here").is_empty());
}

#[test]
fn parse_command_edge_cases() {
    assert_eq!(parse_command("λurl   "), Some((None, None)));
    assert_eq!(parse_command("λurl2"), None);
    assert_eq!(parse_command("λurl >"), None);
    assert_eq!(parse_command("λurl >charlie"), Some((None, Some("charlie".to_string()))));
    assert_eq!(parse_command("λurl 99999999999999999999999999"), Some((None, None)));
    assert_eq!(parse_command("λurl 1 2"), None);
    assert_eq!(parse_command(" λurl"), None);
    assert_eq!(parse_command(""), None);
}

#[test]
fn history_keeps_ten_most_recent_per_channel() {
    let mut p = UrlPlugin::new(None);
    for i in 0..12 {
        let text = format!("look http://site{}.com", i);
        assert_eq!(p.in_msg("#chan", &text, Some("#chan")), None);
    }
    match p.get_url("#chan", 0) {
        UrlLookup::Page(u) => assert_eq!(u.text, "http://site11.com/"),
        other => panic!("unexpected {:?}", other),
    }
    match p.get_url("#chan", 9) {
        UrlLookup::Page(u) => assert_eq!(u.text, "http://site2.com/"),
        other => panic!("unexpected {:?}", other),
    }
    assert_eq!(p.get_url("#chan", 10), UrlLookup::Missing(10));
    assert_eq!(p.get_url("#other", 0), UrlLookup::Missing(0));
}

#[test]
fn command_reply_names_target_and_lookup() {
    let mut p = UrlPlugin::new(Some("key".to_string()));
    p.in_msg("#chan", "see https://youtu.be/6gwBOTggfRc and http://coucou.com", Some("#chan"));
    let reply = p.in_msg("#chan", "λurl 1 > charlie", Some("#chan")).unwrap();
    assert_eq!(reply.channel, "#chan");
    assert_eq!(reply.target, Some("charlie".to_string()));
    match reply.lookup {
        UrlLookup::Youtube { url, id } => {
            assert_eq!(url.text, "https://youtu.be/6gwBOTggfRc");
            assert_eq!(id, Some(YtId::Video("6gwBOTggfRc".to_string())));
        }
        other => panic!("unexpected {:?}", other),
    }
    assert_eq!(p.in_msg("#chan", "λurl", None), None);
}

#[test]
fn youtube_link_without_key_is_a_page() {
    let mut p = UrlPlugin::new(None);
    p.in_msg("#chan", "https://youtu.be/6gwBOTggfRc", Some("#chan"));
    match p.get_url("#chan", 0) {
        UrlLookup::Page(u) => assert_eq!(u.text, "https://youtu.be/6gwBOTggfRc"),
        other => panic!("unexpected {:?}", other),
    }
}

#[test]
fn reply_formatting() {
    assert_eq!(format_reply(Some("charlie"), "Title [u]"), "charlie: Title [u]");
    assert_eq!(format_reply(None, "Title [u]"), "Title [u]");
    assert_eq!(UrlPlugin::new(None).get_name(), "url");
}

#[test]
fn page_kind_by_content_type() {
    assert_eq!(page_kind(Some("text/html; charset=utf-8")), PageKind::Readable);
    assert_eq!(page_kind(Some("application/xhtml+xml")), PageKind::Readable);
    assert_eq!(page_kind(Some("image/png")), PageKind::Unreadable);
    assert_eq!(page_kind(None), PageKind::Untyped);
    assert!(contains_text("abc", ""));
    assert!(contains_text("λxyz", "yz"));
    assert!(!contains_text("ab", "abc"));
}
