use serchio_digest::digest::{render_digest, FeedOutput};
use serchio_digest::entities::decode_entities;
use serchio_digest::feed::catalog;
use serchio_digest::freshness::{assess_item, is_fresh, FreshnessPolicy, ItemVerdict};
use serchio_digest::record::{format_header, format_record};
use serchio_digest::sanitize::sanitized_text;
use serchio_digest::text::strip_anchor;
use serchio_digest::translate::decode_translation;
use serchio_digest::urlenc::{build_deep_link, build_translate_url, extract_text_param, percent_encode};

#[test]
fn strip_anchor_replaces_every_hash() {
    assert_eq!(strip_anchor("a#b#c"), "a b c");
    assert_eq!(strip_anchor("no anchors"), "no anchors");
    assert_eq!(strip_anchor("##"), "  ");
    assert_eq!(strip_anchor("è#ò"), "è ò");
}

#[test]
fn strip_anchor_is_idempotent() {
    let once = strip_anchor("x#y##z");
    let twice = strip_anchor(&once);
    assert_eq!(once, twice);
}

#[test]
fn entities_are_decoded_but_angle_brackets_stay_encoded() {
    assert_eq!(decode_entities("x &amp; y"), "x & y");
    assert_eq!(decode_entities("&lt;b&gt;"), "&lt;b&gt;");
    assert_eq!(decode_entities("&quot;q&quot;"), "\"q\"");
    assert_eq!(decode_entities("&#39;a&apos;"), "'a'");
    assert_eq!(decode_entities("a&nbsp;b"), "a\u{a0}b");
    assert_eq!(decode_entities("&amp;lt;"), "&lt;");
}

#[test]
fn sanitized_text_is_free_of_markup_characters() {
    let title = Some("<h1>Big #news</h1>".to_string());
    let desc = Some("a <i>b</i> &amp; c # d".to_string());
    let s = sanitized_text(&title, &desc);
    assert!(!s.contains('<'));
    assert!(!s.contains('>'));
    assert!(!s.contains('#'));
    assert_eq!(s, "Big  news: a b & c   d");
}

#[test]
fn placeholders_fill_absent_fields() {
    let s = sanitized_text(&None, &None);
    assert_eq!(s, "[EMPTY TITLE]: [EMPTY DESCRIPTION]");
    let t = sanitized_text(&None, &Some("solo".to_string()));
    assert!(t.starts_with("[EMPTY TITLE]: "));
    let u = sanitized_text(&Some("solo".to_string()), &None);
    assert!(u.ends_with("[EMPTY DESCRIPTION]"));
}

#[test]
fn freshness_cutoff_is_strict() {
    let now: i64 = 1_600_000_000;
    let cutoff = now - 12 * 3600;
    assert!(!is_fresh(cutoff, now, 12));
    assert!(is_fresh(cutoff + 1, now, 12));
    assert!(!is_fresh(cutoff - 1, now, 12));
}

#[test]
fn freshness_is_monotone_on_samples() {
    let now: i64 = 1_600_000_000;
    for dt in [0i64, 1, 3600, 43_199, 43_200, 43_201, 100_000] {
        let older = now - dt;
        let newer = older + 10;
        if is_fresh(older, now, 12) {
            assert!(is_fresh(newer, now, 12));
        }
    }
}

#[test]
fn all_items_policy_includes_undated_items() {
    assert_eq!(assess_item(&None, FreshnessPolicy::AllItems, 0), ItemVerdict::Include);
    assert_eq!(
        assess_item(&Some("not a date".to_string()), FreshnessPolicy::AllItems, 0),
        ItemVerdict::Include
    );
    assert_eq!(
        assess_item(&None, FreshnessPolicy::WithinLastNHours(12), 1_600_000_000),
        ItemVerdict::BadTimestamp
    );
}

#[test]
fn assess_item_parses_real_dates() {
    let now: i64 = 1_600_000_000;
    let fresh = chrono::DateTime::from_timestamp(now - 60, 0).unwrap().to_rfc2822();
    let stale = chrono::DateTime::from_timestamp(now - 13 * 3600, 0).unwrap().to_rfc2822();
    let policy = FreshnessPolicy::WithinLastNHours(12);
    assert_eq!(assess_item(&Some(fresh), policy, now), ItemVerdict::Include);
    assert_eq!(assess_item(&Some(stale), policy, now), ItemVerdict::Stale);
    // The cutoff is strict: a date exactly twelve hours old is excluded.
    let boundary = chrono::DateTime::from_timestamp(now - 12 * 3600, 0).unwrap().to_rfc2822();
    assert_eq!(assess_item(&Some(boundary), policy, now), ItemVerdict::Stale);
    let just_inside = chrono::DateTime::from_timestamp(now - 12 * 3600 + 1, 0).unwrap().to_rfc2822();
    assert_eq!(assess_item(&Some(just_inside), policy, now), ItemVerdict::Include);
}

#[test]
fn percent_encoding_matches_known_values() {
    assert_eq!(percent_encode("AZaz09-._~"), "AZaz09-._~");
    assert_eq!(percent_encode("a b&c"), "a%20b%26c");
    assert_eq!(percent_encode("è"), "%C3%A8");
    assert_eq!(percent_encode(""), "");
    assert_eq!(percent_encode("100%"), "100%25");
}

#[test]
fn translate_url_has_the_documented_shape() {
    let url = build_translate_url("SECRET KEY", "testo semplice");
    assert_eq!(
        url,
        "https://translate.yandex.net/api/v1.5/tr.json/translate?key=SECRET%20KEY&text=testo%20semplice&lang=it-en&format=plain"
    );
}

#[test]
fn text_parameter_round_trips_through_the_url() {
    for text in ["Ciao: Mondo", "è più & meno = 100% ~ok~", "", "spazi  doppi"] {
        let url = build_translate_url("k-y_0", text);
        let sent = extract_text_param(&url).unwrap();
        assert_eq!(String::from_utf8(sent).unwrap(), text);
    }
}

#[test]
fn extract_text_param_rejects_urls_without_a_text_parameter() {
    assert!(extract_text_param("https://example.com/?a=1&b=2").is_none());
    assert!(extract_text_param("no ampersand at all").is_none());
}

#[test]
fn deep_link_wraps_the_source_link() {
    assert_eq!(
        build_deep_link("http://example.com/x"),
        "https://translate.yandex.com/translate?url=http://example.com/x&lang=it-en"
    );
}

#[test]
fn record_without_link_uses_the_placeholder() {
    let r = format_record("testo", &None, "text", &None);
    assert_eq!(
        r,
        "-----\ntesto\n--\ntext\n--\n[EMPTY LINK]\n-\nhttps://translate.yandex.com/translate?url=[EMPTY LINK]&lang=it-en\n"
    );
}

#[test]
fn record_with_date_has_the_date_block() {
    let r = format_record(
        "testo",
        &Some("Mon, 30 Mar 2020 05:32:05 +0000".to_string()),
        "text",
        &Some("http://e/x".to_string()),
    );
    assert_eq!(
        r,
        "-----\ntesto\n--\nMon, 30 Mar 2020 05:32:05 +0000\n--\ntext\n--\nhttp://e/x\n-\nhttps://translate.yandex.com/translate?url=http://e/x&lang=it-en\n"
    );
}

#[test]
fn header_line_is_the_announced_spelling() {
    assert_eq!(format_header("La Gazzetta"), ">> Parsing 'La Gazzetta'...\n");
}

#[test]
fn catalog_lists_the_four_feeds_in_order() {
    let c = catalog();
    assert_eq!(c.len(), 4);
    assert_eq!(c[0].url, "http://www.noitv.it/localita/valle-del-serchio/rss/");
    assert_eq!(c[0].policy, FreshnessPolicy::WithinLastNHours(12));
    assert_eq!(c[1].url, "https://www.lagazzettadelserchio.it/rss/articoli/");
    assert_eq!(c[1].policy, FreshnessPolicy::WithinLastNHours(12));
    assert_eq!(c[2].url, "https://www.lagazzettadelserchio.it/rss/brevi/");
    assert_eq!(c[2].policy, FreshnessPolicy::WithinLastNHours(12));
    assert_eq!(c[3].url, "https://www.serchioindiretta.it/cronaca/rss");
    assert_eq!(c[3].policy, FreshnessPolicy::AllItems);
}

#[test]
fn decode_translation_rejects_malformed_replies() {
    assert!(decode_translation("not json").is_err());
    assert!(decode_translation("{\"text\":[\"a\"]}").is_err());
    assert!(decode_translation("{\"code\":\"x\",\"text\":[\"a\"]}").is_err());
    assert!(decode_translation("{\"code\":200}").is_err());
    assert!(decode_translation("{\"code\":200,\"text\":\"a\"}").is_err());
    assert!(decode_translation("{\"code\":200,\"text\":[1]}").is_err());
    assert!(decode_translation("{\"code\":-1,\"text\":[\"a\"]}").is_err());
}

#[test]
fn decode_translation_takes_all_strings_in_order() {
    let r = decode_translation("{\"code\":200,\"text\":[\"one\",\"two\"],\"lang\":\"it-en\"}").unwrap();
    assert_eq!(r.code, 200);
    assert_eq!(r.texts, vec!["one".to_string(), "two".to_string()]);
}

#[test]
fn digest_keeps_feed_blocks_in_catalog_order() {
    let outputs = vec![
        FeedOutput {
            header: "H1\n".to_string(),
            records: vec!["r1a\n".to_string(), "r1b\n".to_string()],
        },
        FeedOutput { header: "H2\n".to_string(), records: vec![] },
        FeedOutput { header: "H3\n".to_string(), records: vec!["r3\n".to_string()] },
    ];
    assert_eq!(render_digest(&outputs), "H1\nr1a\nr1b\nH2\nH3\nr3\n");
}
