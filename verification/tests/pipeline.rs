use packard::data::{feed_item_of, fetch_parse, fetch_parse_now, parse_feed, run_tasks};
use packard::data::{ChannelData, Entry, FeedError, FeedItem};
use packard::rank::{paginate, sort_by_date_desc};

fn entry(title: Option<&str>, date: Option<&str>) -> Entry {
    Entry {
        title: title.map(|s| s.to_string()),
        description: None,
        link: None,
        pub_date: date.map(|s| s.to_string()),
    }
}

fn item(title: &str, pub_date: i64) -> FeedItem {
    FeedItem {
        title: title.to_string(),
        description: "d".to_string(),
        link: "l".to_string(),
        pub_date,
    }
}

#[test]
fn defaults_fill_missing_fields() {
    let e = Entry {
        title: None,
        description: None,
        link: None,
        pub_date: None,
    };
    let it = feed_item_of(&e, 42);
    assert_eq!(it.title, "No title");
    assert_eq!(it.description, "No description");
    assert_eq!(it.link, "No link");
    assert_eq!(it.pub_date, 42);
}

#[test]
fn present_fields_are_kept() {
    let e = Entry {
        title: Some("A headline".to_string()),
        description: Some("Some text".to_string()),
        link: Some("https://example.org/a".to_string()),
        pub_date: Some("Wed, 01 Jan 2020 00:00:00 GMT".to_string()),
    };
    let it = feed_item_of(&e, 0);
    assert_eq!(it.title, "A headline");
    assert_eq!(it.description, "Some text");
    assert_eq!(it.link, "https://example.org/a");
    assert_eq!(it.pub_date, 1577836800000);
}

#[test]
fn rfc2822_offset_is_converted_to_utc() {
    let e = entry(None, Some("Wed, 01 Jan 2020 00:00:00 +0200"));
    let it = feed_item_of(&e, 0);
    assert_eq!(it.pub_date, 1577836800000 - 7_200_000);
}

#[test]
fn unparseable_date_falls_back_to_now() {
    let e = entry(Some("t"), Some("not a date at all"));
    let it = feed_item_of(&e, 123456789);
    assert_eq!(it.pub_date, 123456789);
    let e2 = entry(Some("t"), None);
    let it2 = feed_item_of(&e2, 99);
    assert_eq!(it2.pub_date, 99);
}

#[test]
fn clock_fallback_is_now_at_parse_time() {
    let mut body = String::from(r#"<rss version="2.0"><channel><title>c</title>"#);
    body.push_str("<item><title>undated</title></item></channel></rss>");
    let before = chrono::Utc::now().timestamp_millis();
    let (_, items) = fetch_parse_now(&body).expect("valid channel");
    let after = chrono::Utc::now().timestamp_millis();
    assert_eq!(items.len(), 1);
    assert!(before <= items[0].pub_date && items[0].pub_date <= after);
}

#[test]
fn parse_feed_keeps_document_order() {
    let channel = ChannelData {
        title: "c".to_string(),
        entries: vec![entry(Some("one"), None), entry(Some("two"), None)],
    };
    let items = parse_feed(&channel, 7);
    assert_eq!(items.len(), 2);
    assert_eq!(items[0].title, "one");
    assert_eq!(items[1].title, "two");
}

#[test]
fn failing_source_is_isolated() {
    let a = vec![item("a1", 30), item("a2", 10)];
    let c = vec![item("c1", 20)];
    let batches = vec![Ok(a), Err(FeedError::Decode), Ok(c)];
    let out = run_tasks(batches, 10, 0);
    let titles: Vec<&str> = out.iter().map(|i| i.title.as_str()).collect();
    assert_eq!(titles, vec!["a1", "c1", "a2"]);
}

#[test]
fn all_sources_failing_yields_empty_page() {
    let batches: Vec<Result<Vec<FeedItem>, FeedError>> =
        vec![Err(FeedError::Transport), Err(FeedError::Decode)];
    let out = run_tasks(batches, 5, 0);
    assert!(out.is_empty());
}

#[test]
fn output_is_strictly_descending_for_distinct_dates() {
    let items = vec![
        item("d", 40),
        item("a", 10),
        item("e", 50),
        item("c", 30),
        item("b", 20),
    ];
    let out = run_tasks(vec![Ok(items)], 10, 0);
    assert_eq!(out.len(), 5);
    for w in out.windows(2) {
        assert!(w[0].pub_date > w[1].pub_date);
    }
    assert_eq!(out[0].title, "e");
    assert_eq!(out[4].title, "a");
}

#[test]
fn equal_dates_keep_input_order() {
    let items = vec![item("first", 5), item("second", 5), item("third", 5)];
    let sorted = sort_by_date_desc(items);
    let titles: Vec<&str> = sorted.iter().map(|i| i.title.as_str()).collect();
    assert_eq!(titles, vec!["first", "second", "third"]);
}

#[test]
fn pagination_window_selects_positions() {
    // ten items already sorted descending: dates 100, 90, ..., 10
    let items: Vec<FeedItem> = (0..10).map(|k| item(&format!("i{}", k), 100 - 10 * k)).collect();
    let page = paginate(items, 3, 2);
    let dates: Vec<i64> = page.iter().map(|i| i.pub_date).collect();
    assert_eq!(dates, vec![80, 70, 60]);
}

#[test]
fn skip_beyond_length_yields_empty() {
    let items: Vec<FeedItem> = (0..10).map(|k| item("t", 100 - 10 * k)).collect();
    let page = paginate(items, 3, 15);
    assert!(page.is_empty());
}

#[test]
fn zero_count_yields_empty() {
    let items: Vec<FeedItem> = (0..10).map(|k| item("t", 100 - 10 * k)).collect();
    let page = paginate(items, 0, 2);
    assert!(page.is_empty());
}

fn five_item_body() -> String {
    let mut s = String::from(r#"<rss version="2.0"><channel><title>five</title>"#);
    let dates = [
        ("n1", "Fri, 01 Mar 2024 00:00:00 GMT"),
        ("n2", "Sat, 02 Mar 2024 00:00:00 GMT"),
        ("n3", "Sun, 03 Mar 2024 00:00:00 GMT"),
        ("n4", "Mon, 04 Mar 2024 00:00:00 GMT"),
        ("n5", "Tue, 05 Mar 2024 00:00:00 GMT"),
    ];
    for (t, d) in dates {
        s.push_str(&format!(
            "<item><title>{}</title><pubDate>{}</pubDate></item>",
            t, d
        ));
    }
    s.push_str("</channel></rss>");
    s
}

#[test]
fn valid_and_empty_sources_merge_to_all_items() {
    let body5 = five_item_body();
    let body0 = r#"<rss version="2.0"><channel><title>empty</title></channel></rss>"#;
    let (t5, items5) = fetch_parse(&body5, 0).expect("five-item channel parses");
    assert_eq!(t5, "five");
    let (t0, items0) = fetch_parse(body0, 0).expect("empty channel parses");
    assert_eq!(t0, "empty");
    assert_eq!(items0.len(), 0);
    let out = run_tasks(vec![Ok(items5), Ok(items0)], 10, 0);
    assert_eq!(out.len(), 5);
    let titles: Vec<&str> = out.iter().map(|i| i.title.as_str()).collect();
    assert_eq!(titles, vec!["n5", "n4", "n3", "n2", "n1"]);
    for w in out.windows(2) {
        assert!(w[0].pub_date > w[1].pub_date);
    }
}

#[test]
fn erroring_source_yields_empty_result() {
    let batches: Vec<Result<Vec<FeedItem>, FeedError>> = vec![Err(FeedError::Transport)];
    let out = run_tasks(batches, 5, 0);
    assert!(out.is_empty());
}

#[test]
fn malformed_body_is_a_decode_failure() {
    let r = fetch_parse("this is not xml", 0);
    assert_eq!(r.unwrap_err(), FeedError::Decode);
    let r2 = fetch_parse("<html><body>nope</body></html>", 0);
    assert_eq!(r2.unwrap_err(), FeedError::Decode);
}

#[test]
fn single_source_page_after_skip() {
    let mut body = String::from(r#"<rss version="2.0"><channel><title>c</title>"#);
    body.push_str(
        "<item><title>jan3</title><pubDate>Wed, 03 Jan 2024 00:00:00 GMT</pubDate></item>",
    );
    body.push_str(
        "<item><title>jan1</title><pubDate>Mon, 01 Jan 2024 00:00:00 GMT</pubDate></item>",
    );
    body.push_str(
        "<item><title>jan2</title><pubDate>Tue, 02 Jan 2024 00:00:00 GMT</pubDate></item>",
    );
    body.push_str("</channel></rss>");
    let (_, items) = fetch_parse(&body, 0).expect("valid channel");
    assert_eq!(items.len(), 3);
    assert_eq!(items[0].pub_date, 1704240000000);
    assert_eq!(items[1].pub_date, 1704067200000);
    assert_eq!(items[2].pub_date, 1704153600000);
    let out = run_tasks(vec![Ok(items)], 2, 1);
    let titles: Vec<&str> = out.iter().map(|i| i.title.as_str()).collect();
    assert_eq!(titles, vec!["jan2", "jan1"]);
}
