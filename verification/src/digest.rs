//! The driver's decisions: which items of a feed are emitted, what each one's
//! translator request looks like, how a decoded reply becomes a record, and
//! in what order the output appears. The surrounding application only fetches
//! bytes and performs the HTTP calls these plans ask for.

use vstd::prelude::*;
use crate::feed::{Feed, FeedItem, ItemFields, item_fields, opt_str_view, parse_feed, rss_of};
use crate::freshness::{FreshnessPolicy, ItemVerdict, policy_bound_ok, verdict_spec};
use crate::record::{format_record, header_spec, format_header, record_spec};
use crate::sanitize::{cleaned_text, cleaned_text_spec, sanitized_text_spec};
use crate::text::strip_anchor;
use crate::translate::{TranslateError, TranslationReply};
use crate::urlenc::{build_translate_url, translate_url_spec};

verus! {

/// Everything needed to emit one included item: its cleaned text, the date
/// line to print (none for a feed taken whole), its link, and the translator
/// request URL.
pub struct ItemPlan {
    pub cleaned: String,
    pub pub_date: Option<String>,
    pub link: Option<String>,
    pub request_url: String,
}

/// What the driver does with one item, in document order.
pub enum PlanEntry {
    /// Translate and emit.
    Emit(ItemPlan),
    /// Outside the freshness window: skipped silently.
    StaleSkip,
    /// The policy needs a timestamp and this one is absent or malformed:
    /// a diagnostic is owed, then the item is skipped.
    BadDateSkip(Option<String>),
}

/// A feed's plan: its header line and one entry per item.
pub struct FeedPlan {
    pub header: String,
    pub entries: Vec<PlanEntry>,
}

/// An `Emit` plan is right for an item's fields: cleaned text, printed date,
/// link and request URL all match what the fields ask for.
pub open spec fn plan_ok(
    p: ItemPlan,
    item: ItemFields,
    policy: FreshnessPolicy,
    key: Seq<char>,
) -> bool {
    &&& p.cleaned@ == cleaned_text_spec(item.0, item.1)
    &&& p.request_url@ == translate_url_spec(key, sanitized_text_spec(item.0, item.1))
    &&& opt_str_view(p.link) == item.2
    &&& opt_str_view(p.pub_date) == (if policy is AllItems {
        None::<Seq<char>>
    } else {
        item.3
    })
}

/// A plan entry is right for an item's fields: it follows the item's verdict
/// under the feed's policy.
pub open spec fn entry_ok(
    e: PlanEntry,
    item: ItemFields,
    policy: FreshnessPolicy,
    key: Seq<char>,
    now: int,
) -> bool {
    match verdict_spec(item.3, policy, now) {
        ItemVerdict::Include => e matches PlanEntry::Emit(p) && plan_ok(p, item, policy, key),
        ItemVerdict::Stale => e matches PlanEntry::StaleSkip,
        ItemVerdict::BadTimestamp => e matches PlanEntry::BadDateSkip(d) && opt_str_view(d)
            == item.3,
    }
}

fn clone_opt_string(o: &Option<String>) -> (r: Option<String>)
    ensures
        opt_str_view(r) == opt_str_view(*o),
{
    match o {
        Some(s) => Some(s.clone()),
        None => None,
    }
}

/// Plan a parsed feed: the header line, and for each item in document order
/// the decision the policy makes and, for included items, the cleaned text
/// and the translator request to issue.
pub fn plan_feed(feed: &Feed, policy: FreshnessPolicy, key: &str, now: i64) -> (r: FeedPlan)
    requires
        policy_bound_ok(policy, now as int),
    ensures
        r.header@ == header_spec(feed.title@),
        r.entries@.len() == feed.items@.len(),
        forall|i: int|
            0 <= i < feed.items@.len() ==> entry_ok(
                #[trigger] r.entries@[i],
                item_fields(feed.items@[i]),
                policy,
                key@,
                now as int,
            ),
{
    let header = format_header(feed.title.as_str());
    let mut entries: Vec<PlanEntry> = Vec::new();
    let n = feed.items.len();
    let mut i: usize = 0;
    while i < n
        invariant
            i <= n,
            n == feed.items@.len(),
            entries@.len() == i,
            policy_bound_ok(policy, now as int),
            forall|j: int|
                0 <= j < i ==> entry_ok(
                    #[trigger] entries@[j],
                    item_fields(feed.items@[j]),
                    policy,
                    key@,
                    now as int,
                ),
        decreases n - i,
    {
        let item = &feed.items[i];
        let verdict = crate::freshness::assess_item(&item.pub_date, policy, now);
        match verdict {
            ItemVerdict::Include => {
                let cleaned = cleaned_text(&item.title, &item.description);
                let sanitized = strip_anchor(cleaned.as_str());
                let request_url = build_translate_url(key, sanitized.as_str());
                let pub_date = match policy {
                    FreshnessPolicy::AllItems => None,
                    FreshnessPolicy::WithinLastNHours(_) => clone_opt_string(&item.pub_date),
                };
                let link = clone_opt_string(&item.link);
                entries.push(PlanEntry::Emit(ItemPlan { cleaned, pub_date, link, request_url }));
            },
            ItemVerdict::Stale => {
                entries.push(PlanEntry::StaleSkip);
            },
            ItemVerdict::BadTimestamp => {
                entries.push(PlanEntry::BadDateSkip(clone_opt_string(&item.pub_date)));
            },
        }
        i += 1;
    }
    FeedPlan { header, entries }
}

/// Parse a fetched document and plan it: `Some` exactly when the bytes parse
/// as an RSS channel, and then the plan is `plan_feed`'s promised plan for
/// the parsed channel's title and items.
pub fn plan_feed_bytes(
    bytes: &Vec<u8>,
    policy: FreshnessPolicy,
    key: &str,
    now: i64,
) -> (r: Option<FeedPlan>)
    requires
        policy_bound_ok(policy, now as int),
    ensures
        r is Some <==> rss_of(bytes@) is Some,
        (match (r, rss_of(bytes@)) {
            (Some(plan), Some(fv)) => {
                &&& plan.header@ == header_spec(fv.0)
                &&& plan.entries@.len() == fv.1.len()
                &&& forall|i: int|
                    0 <= i < fv.1.len() ==> entry_ok(
                        #[trigger] plan.entries@[i],
                        fv.1[i],
                        policy,
                        key@,
                        now as int,
                    )
            },
            (None, None) => true,
            _ => false,
        }),
{
    match parse_feed(bytes) {
        Some(feed) => {
            let plan = plan_feed(&feed, policy, key, now);
            proof {
                let fields = feed.items@.map_values(|it: FeedItem| item_fields(it));
                assert forall|i: int| 0 <= i < fields.len() implies entry_ok(
                    #[trigger] plan.entries@[i],
                    fields[i],
                    policy,
                    key@,
                    now as int,
                ) by {
                    assert(fields[i] == item_fields(feed.items@[i]));
                }
            }
            Some(plan)
        },
        None => None,
    }
}

/// Turn a decoded reply into the record to emit for a planned item: the first
/// translated text is used, and a reply with an empty `text` list yields
/// exactly the empty-text error.
pub fn finish_item(plan: &ItemPlan, reply: &TranslationReply) -> (r: Result<String, TranslateError>)
    ensures
        (match r {
            Ok(s) => reply.texts@.len() > 0 && s@ == record_spec(
                plan.cleaned@,
                opt_str_view(plan.pub_date),
                reply.texts@[0]@,
                opt_str_view(plan.link),
            ),
            Err(e) => reply.texts@.len() == 0 && e == TranslateError::EmptyText,
        }),
{
    if reply.texts.len() == 0 {
        Err(TranslateError::EmptyText)
    } else {
        let first = &reply.texts[0];
        Ok(format_record(plan.cleaned.as_str(), &plan.pub_date, first.as_str(), &plan.link))
    }
}

/// A feed's finished output: its header line and its records, in order.
pub struct FeedOutput {
    pub header: String,
    pub records: Vec<String>,
}

/// The text of one feed's block: the header, then each record.
pub open spec fn concat_strs(rs: Seq<Seq<char>>) -> Seq<char>
    decreases rs.len(),
{
    if rs.len() == 0 {
        Seq::empty()
    } else {
        rs[0] + concat_strs(rs.skip(1))
    }
}

/// The view of a feed's output.
pub open spec fn output_view(o: FeedOutput) -> (Seq<char>, Seq<Seq<char>>) {
    (o.header@, o.records@.map_values(|s: String| s@))
}

/// The whole run's text: each feed's header followed by that feed's records,
/// feeds in catalog order.
pub open spec fn digest_spec(fs: Seq<(Seq<char>, Seq<Seq<char>>)>) -> Seq<char>
    decreases fs.len(),
{
    if fs.len() == 0 {
        Seq::empty()
    } else {
        fs[0].0 + concat_strs(fs[0].1) + digest_spec(fs.skip(1))
    }
}

/// Render a run's outputs as the single text the program writes.
pub fn render_digest(outputs: &Vec<FeedOutput>) -> (r: String)
    ensures
        r@ == digest_spec(outputs@.map_values(|o: FeedOutput| output_view(o))),
{
    let ghost full = outputs@.map_values(|o: FeedOutput| output_view(o));
    let mut r = String::new();
    let n = outputs.len();
    let mut i: usize = 0;
    proof {
        assert(full.skip(0) =~= full);
        assert(r@ + digest_spec(full) =~= digest_spec(full));
    }
    while i < n
        invariant
            i <= n,
            n == outputs@.len(),
            full == outputs@.map_values(|o: FeedOutput| output_view(o)),
            digest_spec(full) == r@ + digest_spec(full.skip(i as int)),
        decreases n - i,
    {
        let ghost sk = full.skip(i as int);
        let out = &outputs[i];
        r.append(out.header.as_str());
        let m = out.records.len();
        let mut j: usize = 0;
        proof {
            assert(sk[0] == full[i as int]);
            assert(digest_spec(sk) == sk[0].0 + concat_strs(sk[0].1) + digest_spec(sk.skip(1)));
            assert(sk[0].1.skip(0) =~= sk[0].1);
            assert(r@ + concat_strs(sk[0].1) + digest_spec(sk.skip(1)) =~= digest_spec(full));
        }
        while j < m
            invariant
                j <= m,
                m == out.records@.len(),
                sk == full.skip(i as int),
                0 <= i < n,
                n == outputs@.len(),
                full == outputs@.map_values(|o: FeedOutput| output_view(o)),
                out == &outputs[i as int],
                sk[0].1 == out.records@.map_values(|s: String| s@),
                digest_spec(full) == r@ + concat_strs(sk[0].1.skip(j as int)) + digest_spec(
                    sk.skip(1),
                ),
            decreases m - j,
        {
            let ghost rs = sk[0].1.skip(j as int);
            r.append(out.records[j].as_str());
            proof {
                assert(rs[0] == sk[0].1[j as int]);
                assert(concat_strs(rs) == rs[0] + concat_strs(rs.skip(1)));
                assert(rs.skip(1) =~= sk[0].1.skip(j + 1));
                assert(r@ + concat_strs(sk[0].1.skip(j + 1)) + digest_spec(sk.skip(1))
                    =~= digest_spec(full));
            }
            j += 1;
        }
        proof {
            assert(sk[0].1.skip(m as int) =~= Seq::<Seq<char>>::empty());
            assert(concat_strs(Seq::<Seq<char>>::empty()) == Seq::<char>::empty());
            assert(sk.skip(1) =~= full.skip(i + 1));
            assert(r@ + digest_spec(full.skip(i + 1)) =~= digest_spec(full));
        }
        i += 1;
    }
    proof {
        assert(full.skip(n as int) =~= Seq::<(Seq<char>, Seq<Seq<char>>)>::empty());
        assert(r@ =~= digest_spec(full));
    }
    r
}

/// Output order: the run's text is the text of the first `i` feeds followed
/// by the text of the rest, so every header and record of an earlier feed
/// stands before everything of a later one.
pub proof fn lemma_digest_order(fs: Seq<(Seq<char>, Seq<Seq<char>>)>, i: int)
    requires
        0 <= i <= fs.len(),
    ensures
        digest_spec(fs) == digest_spec(fs.take(i)) + digest_spec(fs.skip(i)),
    decreases i,
{
    if i == 0 {
        assert(fs.take(0) =~= Seq::<(Seq<char>, Seq<Seq<char>>)>::empty());
        assert(fs.skip(0) =~= fs);
        assert(digest_spec(fs.take(0)) + digest_spec(fs) =~= digest_spec(fs));
    } else {
        lemma_digest_order(fs.skip(1), i - 1);
        assert(fs.skip(1).take(i - 1) =~= fs.take(i).skip(1));
        assert(fs.skip(1).skip(i - 1) =~= fs.skip(i));
        assert(fs.take(i)[0] == fs[0]);
        assert(digest_spec(fs.take(i)) == fs[0].0 + concat_strs(fs[0].1) + digest_spec(
            fs.take(i).skip(1),
        ));
        assert(digest_spec(fs.take(i)) + digest_spec(fs.skip(i)) =~= fs[0].0 + concat_strs(fs[0].1)
            + digest_spec(fs.skip(1)));
    }
}

} // verus!
