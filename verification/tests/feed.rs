use xlsx_update::{get_feed_items, FeedEntry, FeedError, FeedItem};

fn entry(title: Option<&str>, link: Option<&str>) -> FeedEntry {
    FeedEntry { title: title.map(String::from), link: link.map(String::from) }
}

fn entries_of(document: &str) -> Vec<FeedEntry> {
    let channel = rss::Channel::read_from(document.as_bytes()).unwrap();
    channel.items().iter().map(|item| entry(item.title(), item.link())).collect()
}

#[test]
fn test_get_feed_items() {
    let xml_body = r#"
<?xml version="1.0" encoding="UTF-8"?><rss version="2.0" xmlns:content="http://purl.org/rss/1.0/modules/content/">
  <channel>
    <title>Example title</title>
    <link>https://example.com/sheetjs/sheetjs/tags</link>
    <description>📗 SheetJS Community Edition -- Spreadsheet Data Toolkit</description>
    <pubDate>Sat, 08 Jun 2024 11:44:36 +0000</pubDate>
    <item>
      <title>v0.20.2</title>
      <link>https://example.com/sheetjs/sheetjs/releases/tag/v0.20.2</link>
      <description></description>
      <content:encoded><![CDATA[<p dir="auto">see <a href="https://regexide.com" rel="nofollow">https://regexide.com</a> for more details</p>
]]></content:encoded>
      <author>sheetjs</author>
      <guid>3684: https://example.com/sheetjs/sheetjs/releases/tag/v0.20.2</guid>
      <pubDate>Fri, 05 Apr 2024 01:30:28 +0000</pubDate>
    </item>
    <item>
      <title>v0.20.1</title>
      <link>https://example.com/sheetjs/sheetjs/releases/tag/v0.20.1</link>
      <description></description>
      <author>sheetjs</author>
      <guid>2902: https://example.com/sheetjs/sheetjs/releases/tag/v0.20.1</guid>
      <pubDate>Tue, 05 Dec 2023 08:19:42 +0000</pubDate>
    </item>
    <item>
      <title>v0.7.6-a</title>
      <link>https://example.com/sheetjs/sheetjs/releases/tag/v0.7.6-a</link>
      <description></description>
      <author>sheetjs</author>
      <guid>83: https://example.com/sheetjs/sheetjs/releases/tag/v0.7.6-a</guid>
      <pubDate>Thu, 05 Jun 2014 07:25:49 +0000</pubDate>
    </item>
    <item>
      <title>v0.7.6</title>
      <link>https://example.com/sheetjs/sheetjs/releases/tag/v0.7.6</link>
      <description></description>
      <author>sheetjs</author>
      <guid>82: https://example.com/sheetjs/sheetjs/releases/tag/v0.7.6</guid>
      <pubDate>Thu, 05 Jun 2014 07:25:49 +0000</pubDate>
    </item>
  </channel>
</rss>
        "#;

    let items = get_feed_items(entries_of(xml_body)).unwrap();

    assert_eq!(items.len(), 4);
    assert_eq!(items[0].title, "v0.20.2");
    assert_eq!(
        items[0].link,
        "https://example.com/sheetjs/sheetjs/releases/tag/v0.20.2"
    );
    assert_eq!(items[1].title, "v0.20.1");
    assert_eq!(
        items[1].link,
        "https://example.com/sheetjs/sheetjs/releases/tag/v0.20.1"
    );
    assert_eq!(items[2].title, "v0.7.6-a");
    assert_eq!(
        items[2].link,
        "https://example.com/sheetjs/sheetjs/releases/tag/v0.7.6-a"
    );
    assert_eq!(items[3].title, "v0.7.6");
    assert_eq!(
        items[3].link,
        "https://example.com/sheetjs/sheetjs/releases/tag/v0.7.6"
    );
}

#[test]
fn a_channel_without_items_gives_no_feed_items() {
    let xml = "<rss version=\"2.0\"><channel><title>t</title></channel></rss>";
    assert_eq!(get_feed_items(entries_of(xml)), Ok(vec![]));
    assert_eq!(get_feed_items(vec![]), Ok(vec![]));
}

#[test]
fn an_item_without_title_in_the_document_is_reported() {
    let xml = "<rss version=\"2.0\"><channel>\
        <item><title>1.0.0</title><link>https://example.com/1</link></item>\
        <item><link>https://example.com/2</link></item>\
        </channel></rss>";
    assert_eq!(get_feed_items(entries_of(xml)), Err(FeedError::MissingTitle { index: 1 }));
}

#[test]
fn an_item_without_link_in_the_document_is_reported() {
    let xml = "<rss version=\"2.0\"><channel>\
        <item><title>1.0.0</title></item>\
        </channel></rss>";
    assert_eq!(get_feed_items(entries_of(xml)), Err(FeedError::MissingLink { index: 0 }));
}

#[test]
fn complete_entries_become_feed_items_in_order() {
    let items = get_feed_items(vec![
        entry(Some("v2"), Some("https://example.com/2")),
        entry(Some("v1"), Some("https://example.com/1")),
    ]);
    assert_eq!(
        items,
        Ok(vec![
            FeedItem { title: "v2".to_string(), link: "https://example.com/2".to_string() },
            FeedItem { title: "v1".to_string(), link: "https://example.com/1".to_string() },
        ])
    );
}

#[test]
fn the_first_incomplete_entry_is_reported() {
    let entries = vec![
        entry(Some("v3"), Some("https://example.com/3")),
        entry(Some("v2"), None),
        entry(None, Some("https://example.com/1")),
    ];
    assert_eq!(get_feed_items(entries), Err(FeedError::MissingLink { index: 1 }));

    let entries = vec![
        entry(Some("v3"), Some("https://example.com/3")),
        entry(None, None),
        entry(Some("v1"), None),
    ];
    assert_eq!(get_feed_items(entries), Err(FeedError::MissingTitle { index: 1 }));
}
