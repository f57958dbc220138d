use equirect::net::html::{extract_attr_value, scrape_html_links};
use equirect::net::propfind::parse_propfind;
use equirect::net::{
    display_name, ensure_trailing_slash, has_video_ext, list_http_dir, parent_url, resolve_url,
    same_url, sort_items, url_decode, HttpReply, HttpRequest, ListStep, RemoteItem,
};

fn chars(s: &str) -> Vec<char> {
    s.chars().collect()
}

fn listed(items: &[RemoteItem]) -> Vec<(String, String, bool)> {
    items.iter().map(|i| (i.name.clone(), i.url.clone(), i.is_dir)).collect()
}

fn row(name: &str, url: &str, is_dir: bool) -> (String, String, bool) {
    (name.to_string(), url.to_string(), is_dir)
}

#[test]
fn parent_url_strips_the_last_segment() {
    assert_eq!(parent_url("http://host/a/b/c.mp4"), "http://host/a/b/");
    assert_eq!(parent_url("http://host/a/b/"), "http://host/a/");
    assert_eq!(parent_url("http://host/a"), "http://host/");
}

#[test]
fn parent_url_of_the_server_root_is_the_root() {
    assert_eq!(parent_url("http://host/"), "http://host/");
    assert_eq!(parent_url("http://host"), "http://host/");
}

#[test]
fn trailing_slash_is_added_once() {
    assert_eq!(ensure_trailing_slash("http://host/a"), "http://host/a/");
    assert_eq!(ensure_trailing_slash("http://host/a/"), "http://host/a/");
    assert_eq!(ensure_trailing_slash(""), "/");
}

#[test]
fn links_are_resolved_against_the_page() {
    let resolve = |b: &str, h: &str| -> String {
        resolve_url(&chars(b), &chars(h)).iter().collect()
    };
    assert_eq!(resolve("http://host/a/", "http://other/x"), "http://other/x");
    assert_eq!(resolve("http://host/a/b", "/x/y.mp4"), "http://host/x/y.mp4");
    assert_eq!(resolve("http://host/a/", "y.mp4"), "http://host/a/y.mp4");
}

#[test]
fn urls_are_the_same_but_for_trailing_slashes() {
    assert!(same_url(&chars("http://host/a/"), &chars("http://host/a")));
    assert!(!same_url(&chars("http://host/a"), &chars("http://host/b")));
}

#[test]
fn percent_escapes_are_decoded() {
    assert_eq!(url_decode("a%20b.mp4"), "a b.mp4");
    assert_eq!(url_decode("100%"), "100%");
    assert_eq!(url_decode("%zz"), "%zz");
    assert_eq!(url_decode("plain"), "plain");
    assert_eq!(url_decode("%7E%41%3d"), "~A=");
    assert_eq!(url_decode("%C3%A9"), "%C3%A9");
    assert_eq!(url_decode("%2"), "%2");
}

#[test]
fn characters_beyond_ascii_stay_as_they_are() {
    assert_eq!(url_decode("Été%20à%E9.mp4"), "Été à%E9.mp4");
    assert_eq!(url_decode("映画"), "映画");
    assert_eq!(url_decode("%4é1"), "%4é1");
    assert_eq!(display_name(&chars("http://h/Café%20noir/")), "Café noir");
}

#[test]
fn video_extensions_in_any_case() {
    assert!(has_video_ext("a.mp4"));
    assert!(has_video_ext("a.MKV"));
    assert!(has_video_ext("a.m4v"));
    assert!(has_video_ext("a.webm"));
    assert!(!has_video_ext("a.txt"));
    assert!(!has_video_ext("a.mp4.part"));
}

#[test]
fn directories_come_first_and_names_are_sorted() {
    let item = |n: &str, d: bool| RemoteItem {
        name: n.to_string(),
        url: format!("u/{n}"),
        is_dir: d,
    };
    let mut items = vec![item("b.mp4", false), item("z", true), item("a.mp4", false), item("c", true)];
    sort_items(&mut items);
    let names: Vec<String> = items.iter().map(|i| i.name.clone()).collect();
    assert_eq!(names, vec!["c", "z", "a.mp4", "b.mp4"]);
}

const MULTISTATUS: &str = "<?xml version=\"1.0\"?>\
<D:multistatus xmlns:D=\"DAV:\">\
<D:response><D:href>/videos/</D:href><D:propstat><D:prop><D:resourcetype><D:collection/></D:resourcetype></D:prop></D:propstat></D:response>\
<D:response><D:href>/videos/b%20c.mp4</D:href><D:propstat><D:prop><D:resourcetype/></D:prop></D:propstat></D:response>\
<D:response><D:href>/videos/sub/</D:href><D:propstat><D:prop><D:resourcetype><D:collection/></D:resourcetype></D:prop></D:propstat></D:response>\
<D:response><D:href>/videos/notes.txt</D:href><D:propstat><D:prop><D:resourcetype/></D:prop></D:propstat></D:response>\
</D:multistatus>";

#[test]
fn propfind_lists_directories_and_videos() {
    let items = parse_propfind(MULTISTATUS, "http://host/videos/");
    assert_eq!(
        listed(&items),
        vec![
            row("sub", "http://host/videos/sub/", true),
            row("b c.mp4", "http://host/videos/b%20c.mp4", false),
        ]
    );
}

#[test]
fn propfind_takes_any_namespace_prefix() {
    let plain = MULTISTATUS.replace("D:", "");
    let lower = MULTISTATUS.replace("D:", "d:");
    let long = MULTISTATUS.replace("D:", "dav0:");
    for xml in [plain, lower, long] {
        let items = parse_propfind(&xml, "http://host/videos/");
        assert_eq!(items.len(), 2);
        assert_eq!(items[0].name, "sub");
        assert_eq!(items[1].name, "b c.mp4");
    }
}

#[test]
fn propfind_of_nothing_is_empty() {
    assert_eq!(parse_propfind("", "http://host/").len(), 0);
    assert_eq!(parse_propfind("<html></html>", "http://host/").len(), 0);
}

#[test]
fn html_page_lists_links_once() {
    let page = "<html><a href=\"sub/\">sub</a><A HREF='v.mp4'>v</A>\
<a href=\"v.mp4\">again</a><a href=\"readme.txt\">x</a><a href=\"../\">up</a></html>";
    let items = scrape_html_links(page, "http://host/videos/");
    let urls: Vec<String> = items.iter().map(|i| i.url.clone()).collect();
    assert!(urls.contains(&"http://host/videos/v.mp4".to_string()));
    assert!(urls.contains(&"http://host/videos/sub/".to_string()));
    assert!(!urls.contains(&"http://host/videos/readme.txt".to_string()));
    assert_eq!(urls.iter().filter(|u| u.as_str() == "http://host/videos/v.mp4").count(), 1);
}

#[test]
fn value_without_a_closing_quote_goes_to_the_end() {
    let taken = |s: &str| {
        let (value, n) = extract_attr_value(&s.chars().collect::<Vec<char>>());
        (value.into_iter().collect::<String>(), n)
    };
    assert_eq!(taken("\"abc"), ("abc".to_string(), 4));
    assert_eq!(taken("'"), ("".to_string(), 1));
    assert_eq!(taken("\"abc\" x"), ("abc".to_string(), 5));
    assert_eq!(taken("abc>"), ("abc".to_string(), 3));
    assert_eq!(taken(""), ("".to_string(), 0));
    let urls = |page: &str| -> Vec<String> {
        scrape_html_links(page, "http://host/").into_iter().map(|i| i.url).collect()
    };
    assert_eq!(urls("<a href='a.mp4'>a</a><a href=\"never ends"), vec!["http://host/a.mp4".to_string()]);
    assert_eq!(urls("<a href=\"b.mp4"), vec!["http://host/b.mp4".to_string()]);
}

#[test]
fn listing_asks_with_propfind_first() {
    let (listing, request) = list_http_dir("http://host/videos");
    assert_eq!(listing.base, "http://host/videos/");
    assert!(matches!(request, HttpRequest::Propfind(u) if u == "http://host/videos/"));
}

#[test]
fn listing_is_found_by_propfind() {
    let (mut listing, _) = list_http_dir("http://host/videos");
    match listing.on_reply(&HttpReply::Body(207, MULTISTATUS.to_string())) {
        ListStep::Found(items) => assert_eq!(items.len(), 2),
        _ => panic!("no listing"),
    }
}

#[test]
fn listing_falls_back_to_the_page() {
    let (mut listing, _) = list_http_dir("http://host/videos/");
    match listing.on_reply(&HttpReply::Failed("405".to_string())) {
        ListStep::Ask(HttpRequest::Get(u)) => assert_eq!(u, "http://host/videos/"),
        _ => panic!("the page is not asked for"),
    }
    match listing.on_reply(&HttpReply::Body(200, "<a href=\"a.mkv\">a</a>".to_string())) {
        ListStep::Found(items) => {
            assert_eq!(items.len(), 1);
            assert_eq!(items[0].url, "http://host/videos/a.mkv");
        }
        _ => panic!("no listing"),
    }
}

#[test]
fn listing_fails_when_the_page_fails() {
    let (mut listing, _) = list_http_dir("http://host/videos/");
    listing.on_reply(&HttpReply::Body(200, "not a multistatus".to_string()));
    match listing.on_reply(&HttpReply::Failed("404".to_string())) {
        ListStep::Failed(e) => assert_eq!(e, "GET http://host/videos/: 404"),
        _ => panic!("no failure"),
    }
}

#[test]
fn listing_fails_when_the_page_is_unreadable() {
    let (mut listing, _) = list_http_dir("http://host/videos/");
    listing.on_reply(&HttpReply::Unreadable("bad".to_string()));
    match listing.on_reply(&HttpReply::Unreadable("bad".to_string())) {
        ListStep::Failed(e) => assert_eq!(e, "GET body: bad"),
        _ => panic!("no failure"),
    }
}
