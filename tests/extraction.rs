use overcast_archive::auth::{auth_outcome, indicates_auth_failure, login_form, AuthError, FAILURE_PHRASE};
use overcast_archive::extract::{episode_from_node, extract_feeds, find_feed_list, parse_export, parse_i64, ParseError};
use overcast_archive::model::{Episode, Feed, Timestamp};
use overcast_archive::xml::{XmlAttribute, XmlNode};

fn export(body: &str) -> String {
    format!(
        "<?xml version=\"1.0\" encoding=\"utf-8\"?>\n<opml version=\"1.0\">\n<head><title>Overcast Podcast Subscriptions</title></head>\n<body>\n<outline text=\"playlists\"><outline text=\"All\" type=\"podcast-playlist\"/></outline>\n<outline text=\"feeds\">\n{}\n</outline>\n</body>\n</opml>",
        body
    )
}

fn midnight_2021() -> Timestamp {
    Timestamp { year: 2021, month: 1, day: 1, hour: 0, minute: 0, second: 0, nanosecond: 0 }
}

#[test]
fn parses_the_example_export() {
    let doc = export(
        "<outline type=\"rss\" title=\"My Show\" overcastId=\"100\" subscribed=\"1\">\
         <outline type=\"podcast-episode\" title=\"Ep1\" overcastId=\"5001\" played=\"1\" pubDate=\"2021-01-01T00:00:00Z\"/>\
         </outline>",
    );
    let feeds = parse_export(&doc).unwrap();
    let expected = vec![Feed {
        id: "100".to_string(),
        title: "My Show".to_string(),
        subscribed: true,
        episodes: vec![Episode {
            id: "5001".to_string(),
            title: "Ep1".to_string(),
            played: true,
            published_at: Some(midnight_2021()),
            updated_at: None,
            html_url: None,
            overcast_url: None,
            mp3_url: None,
            user_deleted: false,
            progress: None,
        }],
        feed_url: None,
        html_url: None,
    }];
    assert_eq!(feeds, expected);
}

#[test]
fn reads_every_attribute_of_feeds_and_episodes() {
    let doc = export(
        "<outline type=\"rss\" overcastId=\"7\" title=\"Show\" xmlUrl=\"https://e.com/feed\" htmlUrl=\"https://e.com\">\
         <outline title=\"E\" overcastId=\"70\" played=\"0\" userDeleted=\"1\" progress=\"1234\" \
          pubDate=\"2020-05-06T07:08:09-04:00\" userUpdatedDate=\"2020-05-07T10:00:00.250+02:00\" \
          url=\"https://e.com/e\" overcastUrl=\"https://overcast.fm/+E\" enclosureUrl=\"https://e.com/e.mp3\"/>\
         </outline>",
    );
    let feeds = parse_export(&doc).unwrap();
    assert_eq!(feeds.len(), 1);
    let f = &feeds[0];
    assert_eq!(f.feed_url.as_deref(), Some("https://e.com/feed"));
    assert_eq!(f.html_url.as_deref(), Some("https://e.com"));
    assert!(!f.subscribed);
    let e = &f.episodes[0];
    assert!(!e.played);
    assert!(e.user_deleted);
    assert_eq!(e.progress, Some(1234));
    assert_eq!(
        e.published_at,
        Some(Timestamp { year: 2020, month: 5, day: 6, hour: 7, minute: 8, second: 9, nanosecond: 0 })
    );
    assert_eq!(
        e.updated_at,
        Some(Timestamp { year: 2020, month: 5, day: 7, hour: 10, minute: 0, second: 0, nanosecond: 250_000_000 })
    );
    assert_eq!(e.html_url.as_deref(), Some("https://e.com/e"));
    assert_eq!(e.overcast_url.as_deref(), Some("https://overcast.fm/+E"));
    assert_eq!(e.mp3_url.as_deref(), Some("https://e.com/e.mp3"));
}

#[test]
fn feed_without_id_is_absent_and_its_children_unread() {
    let doc = export(
        "<outline title=\"No Id\"><outline title=\"Orphan\" overcastId=\"9\"/></outline>\
         <outline title=\"Kept\" overcastId=\"2\"/>",
    );
    let feeds = parse_export(&doc).unwrap();
    assert_eq!(feeds.len(), 1);
    assert_eq!(feeds[0].id, "2");
    assert!(feeds[0].episodes.is_empty());
}

#[test]
fn incomplete_nodes_are_skipped_and_siblings_kept() {
    let doc = export(
        "<outline overcastId=\"1\"/>\
         <outline title=\"\" overcastId=\"2\"/>\
         <outline title=\"A\" overcastId=\"\"/>\
         <outline title=\"B\" overcastId=\"3\">\
           <outline title=\"x\"/>\
           <outline overcastId=\"31\"/>\
           <outline title=\"\" overcastId=\"32\"/>\
           <outline title=\"y\" overcastId=\"33\"/>\
         </outline>\
         <outline title=\"C\" overcastId=\"4\"/>",
    );
    let feeds = parse_export(&doc).unwrap();
    let ids: Vec<&str> = feeds.iter().map(|f| f.id.as_str()).collect();
    assert_eq!(ids, vec!["3", "4"]);
    assert_eq!(feeds[0].episodes.len(), 1);
    assert_eq!(feeds[0].episodes[0].id, "33");
    for f in &feeds {
        assert!(!f.id.is_empty() && !f.title.is_empty());
        for e in &f.episodes {
            assert!(!e.id.is_empty() && !e.title.is_empty());
        }
    }
}

#[test]
fn flags_are_set_only_by_exactly_one() {
    let doc = export(
        "<outline title=\"a\" overcastId=\"1\" subscribed=\"1\">\
           <outline title=\"e1\" overcastId=\"11\" played=\"true\" userDeleted=\"0\"/>\
           <outline title=\"e2\" overcastId=\"12\" played=\"1\" userDeleted=\"1\"/>\
           <outline title=\"e3\" overcastId=\"13\" played=\" 1\"/>\
         </outline>\
         <outline title=\"b\" overcastId=\"2\" subscribed=\"true\"/>\
         <outline title=\"c\" overcastId=\"3\" subscribed=\"0\"/>\
         <outline title=\"d\" overcastId=\"4\"/>",
    );
    let feeds = parse_export(&doc).unwrap();
    let subscribed: Vec<bool> = feeds.iter().map(|f| f.subscribed).collect();
    assert_eq!(subscribed, vec![true, false, false, false]);
    let played: Vec<bool> = feeds[0].episodes.iter().map(|e| e.played).collect();
    assert_eq!(played, vec![false, true, false]);
    let deleted: Vec<bool> = feeds[0].episodes.iter().map(|e| e.user_deleted).collect();
    assert_eq!(deleted, vec![false, true, false]);
}

#[test]
fn bad_or_missing_dates_and_progress_have_no_value() {
    let doc = export(
        "<outline title=\"a\" overcastId=\"1\">\
           <outline title=\"e1\" overcastId=\"11\" pubDate=\"yesterday\" userUpdatedDate=\"2021-01-01\" progress=\"abc\"/>\
           <outline title=\"e2\" overcastId=\"12\" progress=\"99999999999999999999\"/>\
           <outline title=\"e3\" overcastId=\"13\" progress=\"\" pubDate=\"\"/>\
           <outline title=\"e4\" overcastId=\"14\" progress=\"-5\" pubDate=\"2021-01-01T00:00:00+00:00\"/>\
           <outline title=\"e5\" overcastId=\"15\" progress=\"+0\" userUpdatedDate=\"2021-01-01T00:00:00.000Z\"/>\
         </outline>",
    );
    let feeds = parse_export(&doc).unwrap();
    let eps = &feeds[0].episodes;
    assert_eq!(eps[0].published_at, None);
    assert_eq!(eps[0].updated_at, None);
    assert_eq!(eps[0].progress, None);
    assert_eq!(eps[1].progress, None);
    assert_eq!(eps[1].published_at, None);
    assert_eq!(eps[2].progress, None);
    assert_eq!(eps[2].published_at, None);
    assert_eq!(eps[3].progress, Some(-5));
    assert_eq!(eps[3].published_at, Some(midnight_2021()));
    assert_eq!(eps[4].progress, Some(0));
    assert_eq!(eps[4].updated_at, Some(midnight_2021()));
}

#[test]
fn dates_keep_the_written_local_time() {
    let doc = export(
        "<outline title=\"a\" overcastId=\"1\">\
           <outline title=\"e\" overcastId=\"11\" pubDate=\"2021-03-04T23:30:00+05:30\"/>\
         </outline>",
    );
    let feeds = parse_export(&doc).unwrap();
    assert_eq!(
        feeds[0].episodes[0].published_at,
        Some(Timestamp { year: 2021, month: 3, day: 4, hour: 23, minute: 30, second: 0, nanosecond: 0 })
    );
}

#[test]
fn duplicate_feeds_are_both_emitted() {
    let doc = export("<outline title=\"a\" overcastId=\"1\"/><outline title=\"b\" overcastId=\"1\"/>");
    let feeds = parse_export(&doc).unwrap();
    assert_eq!(feeds.len(), 2);
    assert_eq!(feeds[1].title, "b");
}

#[test]
fn empty_feed_list_gives_no_feeds() {
    let feeds = parse_export(&export("")).unwrap();
    assert!(feeds.is_empty());
}

#[test]
fn missing_feed_list_is_an_error() {
    let doc = "<opml><body><outline text=\"playlists\"/><outline title=\"feeds\"/></body></opml>";
    assert_eq!(parse_export(doc), Err(ParseError::MissingFeedList));
}

#[test]
fn malformed_document_is_an_error() {
    match parse_export("<opml><body><outline text=\"feeds\"></body>") {
        Err(ParseError::Malformed(msg)) => assert!(!msg.is_empty()),
        other => panic!("unexpected result: {:?}", other),
    }
    assert!(matches!(parse_export(""), Err(ParseError::Malformed(_))));
}

#[test]
fn feed_list_is_found_at_any_depth() {
    let doc = "<opml><body><group><outline text=\"feeds\"><outline title=\"t\" overcastId=\"5\"/></outline></group></body></opml>";
    let feeds = parse_export(doc).unwrap();
    assert_eq!(feeds.len(), 1);
    assert_eq!(feeds[0].id, "5");
}

#[test]
fn first_feed_list_wins() {
    let doc = "<opml><outline text=\"feeds\"><outline title=\"t\" overcastId=\"5\"/></outline>\
               <outline text=\"feeds\"><outline title=\"u\" overcastId=\"6\"/></outline></opml>";
    let feeds = parse_export(doc).unwrap();
    assert_eq!(feeds.len(), 1);
    assert_eq!(feeds[0].id, "5");
}

#[test]
fn namespaced_attributes_do_not_count() {
    let doc = "<opml xmlns:x=\"urn:x\"><outline text=\"feeds\"><outline x:title=\"t\" overcastId=\"5\"/></outline></opml>";
    assert!(parse_export(doc).unwrap().is_empty());
}

fn attr(name: &str, value: &str) -> XmlAttribute {
    XmlAttribute { namespace: None, name: name.to_string(), value: value.to_string() }
}

fn node(name: &str, attributes: Vec<XmlAttribute>, children: Vec<usize>) -> XmlNode {
    XmlNode { name: name.to_string(), attributes, children }
}

#[test]
fn extracts_from_a_node_sequence() {
    let nodes = vec![
        node("", vec![], vec![1]),
        node("outline", vec![attr("text", "feeds")], vec![2, 9]),
        node("outline", vec![attr("title", "T"), attr("overcastId", "8")], vec![3]),
        node("outline", vec![attr("title", "E"), attr("overcastId", "80"), attr("played", "1")], vec![]),
    ];
    assert_eq!(find_feed_list(&nodes), Some(1));
    let feeds = extract_feeds(&nodes).unwrap();
    assert_eq!(feeds.len(), 1);
    assert_eq!(feeds[0].title, "T");
    assert_eq!(feeds[0].episodes.len(), 1);
    assert!(feeds[0].episodes[0].played);
    assert_eq!(extract_feeds(&nodes[2..].to_vec()), Err(ParseError::MissingFeedList));
    assert_eq!(find_feed_list(&vec![node("outline", vec![attr("text", "Feeds")], vec![])]), None);
}

#[test]
fn episode_from_node_needs_title_and_id() {
    assert!(episode_from_node(&node("outline", vec![attr("title", "E")], vec![])).is_none());
    let e = episode_from_node(&node("outline", vec![attr("overcastId", "1"), attr("title", "E")], vec![])).unwrap();
    assert_eq!(e.id, "1");
    assert_eq!(e.title, "E");
}

#[test]
fn failure_phrase_means_invalid_credentials() {
    let body = "<html><body><div class=\"alert\">Sorry, there was a problem looking up your Overcast account. Please try again.</div></body></html>";
    assert!(indicates_auth_failure(body));
    assert_eq!(auth_outcome(body), Err(AuthError::InvalidCredentials));
    assert_eq!(auth_outcome(FAILURE_PHRASE), Err(AuthError::InvalidCredentials));
}

#[test]
fn other_bodies_mean_success() {
    assert_eq!(auth_outcome("<html>Welcome back</html>"), Ok(()));
    assert_eq!(auth_outcome(""), Ok(()));
    assert_eq!(auth_outcome("Sorry, there was a problem looking up your Overcast"), Ok(()));
    assert!(!indicates_auth_failure("sorry, there was a problem looking up your overcast account"));
}

#[test]
fn login_form_carries_the_credentials() {
    let form = login_form("me@example.com", "pw");
    assert_eq!(
        form,
        vec![
            ("email".to_string(), "me@example.com".to_string()),
            ("password".to_string(), "pw".to_string())
        ]
    );
}

#[test]
fn parse_i64_reads_signed_decimals() {
    assert_eq!(parse_i64("0"), Some(0));
    assert_eq!(parse_i64("007"), Some(7));
    assert_eq!(parse_i64("+15"), Some(15));
    assert_eq!(parse_i64("-15"), Some(-15));
    assert_eq!(parse_i64("9223372036854775807"), Some(i64::MAX));
    assert_eq!(parse_i64("-9223372036854775808"), Some(i64::MIN));
}

#[test]
fn parse_i64_rejects_other_text() {
    for s in ["", "+", "-", "1.5", " 1", "1 ", "--1", "+-1", "1e3", "abc", "\u{661}",
              "9223372036854775808", "-9223372036854775809", "99999999999999999999999999999999999999999"] {
        assert_eq!(parse_i64(s), None, "{:?}", s);
        assert_eq!(parse_i64(s), s.parse::<i64>().ok(), "{:?}", s);
    }
}
