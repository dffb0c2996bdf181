use serchio_digest::digest::{finish_item, plan_feed_bytes, PlanEntry};
use serchio_digest::freshness::FreshnessPolicy;
use serchio_digest::translate::decode_translation;

const NOW: i64 = 1_600_000_000;

fn rfc2822_at(ts: i64) -> String {
    chrono::DateTime::from_timestamp(ts, 0).unwrap().to_rfc2822()
}

fn feed_xml(title: &str, items: &[(Option<&str>, &str, &str, Option<String>)]) -> Vec<u8> {
    let mut xml = String::new();
    xml.push_str("<rss version=\"2.0\"><channel><title>");
    xml.push_str(title);
    xml.push_str("</title>");
    for (t, d, l, pd) in items {
        xml.push_str("<item>");
        if let Some(t) = t {
            xml.push_str("<title>");
            xml.push_str(t);
            xml.push_str("</title>");
        }
        xml.push_str("<description>");
        xml.push_str(d);
        xml.push_str("</description><link>");
        xml.push_str(l);
        xml.push_str("</link>");
        if let Some(pd) = pd {
            xml.push_str("<pubDate>");
            xml.push_str(pd);
            xml.push_str("</pubDate>");
        }
        xml.push_str("</item>");
    }
    xml.push_str("</channel></rss>");
    xml.into_bytes()
}

#[test]
fn fresh_item_is_planned_and_emitted() {
    let date = rfc2822_at(NOW - 30 * 60);
    let xml = feed_xml(
        "Local news",
        &[(Some("Ciao"), "Mondo", "http://example.com/a", Some(date.clone()))],
    );
    let plan = plan_feed_bytes(&xml, FreshnessPolicy::WithinLastNHours(12), "KEY", NOW).unwrap();
    assert_eq!(plan.header, ">> Parsing 'Local news'...\n");
    assert_eq!(plan.entries.len(), 1);
    match &plan.entries[0] {
        PlanEntry::Emit(p) => {
            assert_eq!(p.cleaned, "Ciao: Mondo");
            assert_eq!(p.pub_date.as_deref(), Some(date.as_str()));
            assert_eq!(p.link.as_deref(), Some("http://example.com/a"));
            assert_eq!(
                p.request_url,
                "https://translate.yandex.net/api/v1.5/tr.json/translate?key=KEY&text=Ciao%3A%20Mondo&lang=it-en&format=plain"
            );
            let reply = decode_translation("{\"code\":200,\"text\":[\"Hello World\"]}").unwrap();
            assert_eq!(reply.code, 200);
            let record = finish_item(p, &reply).unwrap();
            let expected = format!(
                "-----\nCiao: Mondo\n--\n{}\n--\nHello World\n--\nhttp://example.com/a\n-\nhttps://translate.yandex.com/translate?url=http://example.com/a&lang=it-en\n",
                date
            );
            assert_eq!(record, expected);
        }
        _ => panic!("expected an emitted item"),
    }
}

#[test]
fn stale_item_is_skipped_without_translation() {
    let date = rfc2822_at(NOW - 13 * 3600);
    let xml = feed_xml(
        "Local news",
        &[(Some("Ciao"), "Mondo", "http://example.com/a", Some(date))],
    );
    let plan = plan_feed_bytes(&xml, FreshnessPolicy::WithinLastNHours(12), "KEY", NOW).unwrap();
    assert_eq!(plan.entries.len(), 1);
    assert!(matches!(plan.entries[0], PlanEntry::StaleSkip));
}

#[test]
fn html_is_stripped_entities_decoded_anchor_replaced() {
    let xml = feed_xml(
        "Local news",
        &[(
            None,
            "&lt;b&gt;Ciao&lt;/b&gt; &amp;amp; &lt;a href=x&gt;via&lt;/a&gt; #1",
            "http://example.com/a",
            Some(rfc2822_at(NOW - 60)),
        )],
    );
    let plan = plan_feed_bytes(&xml, FreshnessPolicy::WithinLastNHours(12), "KEY", NOW).unwrap();
    match &plan.entries[0] {
        PlanEntry::Emit(p) => {
            assert_eq!(p.cleaned, "[EMPTY TITLE]: Ciao & via #1");
            let sent = serchio_digest::urlenc::extract_text_param(&p.request_url).unwrap();
            assert_eq!(
                String::from_utf8(sent).unwrap(),
                "[EMPTY TITLE]: Ciao & via  1"
            );
        }
        _ => panic!("expected an emitted item"),
    }
}

#[test]
fn malformed_pub_date_excludes_the_item() {
    let xml = feed_xml(
        "Local news",
        &[(Some("Ciao"), "Mondo", "http://example.com/a", Some("not a date".to_string()))],
    );
    let plan = plan_feed_bytes(&xml, FreshnessPolicy::WithinLastNHours(12), "KEY", NOW).unwrap();
    assert_eq!(plan.entries.len(), 1);
    match &plan.entries[0] {
        PlanEntry::BadDateSkip(d) => assert_eq!(d.as_deref(), Some("not a date")),
        _ => panic!("expected a bad-date skip"),
    }
}

#[test]
fn all_items_feed_emits_everything_in_order_without_dates() {
    let xml = feed_xml(
        "Chronicle",
        &[
            (Some("A"), "first", "http://example.com/a", None),
            (Some("B"), "second", "http://example.com/b", None),
        ],
    );
    let plan = plan_feed_bytes(&xml, FreshnessPolicy::AllItems, "KEY", NOW).unwrap();
    assert_eq!(plan.entries.len(), 2);
    let cleaned: Vec<&str> = plan
        .entries
        .iter()
        .map(|e| match e {
            PlanEntry::Emit(p) => {
                assert!(p.pub_date.is_none());
                p.cleaned.as_str()
            }
            _ => panic!("expected an emitted item"),
        })
        .collect();
    assert_eq!(cleaned, vec!["A: first", "B: second"]);
    match &plan.entries[0] {
        PlanEntry::Emit(p) => {
            let reply = decode_translation("{\"code\":200,\"text\":[\"A: one\"]}").unwrap();
            let record = finish_item(p, &reply).unwrap();
            // No publication-date block for a feed taken whole.
            assert_eq!(
                record,
                "-----\nA: first\n--\nA: one\n--\nhttp://example.com/a\n-\nhttps://translate.yandex.com/translate?url=http://example.com/a&lang=it-en\n"
            );
        }
        _ => panic!("expected an emitted item"),
    }
}

#[test]
fn empty_text_reply_yields_empty_text_error() {
    let reply = decode_translation("{\"code\":200,\"text\":[]}").unwrap();
    assert_eq!(reply.code, 200);
    assert!(reply.texts.is_empty());
    let plan = {
        let xml = feed_xml("T", &[(Some("Ciao"), "Mondo", "http://example.com/a", None)]);
        plan_feed_bytes(&xml, FreshnessPolicy::AllItems, "KEY", NOW).unwrap()
    };
    match &plan.entries[0] {
        PlanEntry::Emit(p) => {
            let r = finish_item(p, &reply);
            assert_eq!(r.unwrap_err(), serchio_digest::translate::TranslateError::EmptyText);
        }
        _ => panic!("expected an emitted item"),
    }
}
