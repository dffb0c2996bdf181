//! Per-item freshness: a feed's policy either takes every item or only those
//! published within the last `n` hours. Timestamps are RFC 2822 strings in the
//! feed and plain Unix seconds inside the library; an absent or unparseable
//! timestamp excludes the item, as an instant far in the past would.

use vstd::prelude::*;

verus! {

/// A feed's rule for which items are recent enough to emit.
#[derive(Clone, Copy, PartialEq, Eq, Structural, Debug)]
pub enum FreshnessPolicy {
    WithinLastNHours(u32),
    AllItems,
}

/// What the filter decided for one item.
#[derive(Clone, Copy, PartialEq, Eq, Structural, Debug)]
pub enum ItemVerdict {
    /// The item is emitted.
    Include,
    /// The item's timestamp lies at or before the cutoff.
    Stale,
    /// The policy needs a timestamp and the item has none that parses; a
    /// diagnostic is owed and the item is excluded.
    BadTimestamp,
}

/// What RFC 2822 parsing yields on a given string, as Unix seconds: a
/// function of the string alone, `None` where it does not parse.
pub uninterp spec fn rfc2822_ts_of(s: Seq<char>) -> Option<i64>;

/// Relies on `chrono::DateTime::parse_from_rfc2822` and
/// `chrono::DateTime::timestamp`: parsing is a function of the string alone,
/// and `timestamp` renders the parsed instant as Unix seconds.
#[verifier::external_body]
fn parse_rfc2822_ts(s: &str) -> (r: Option<i64>)
    ensures
        r == rfc2822_ts_of(s@),
{
    match chrono::DateTime::parse_from_rfc2822(s) {
        Ok(d) => Some(d.timestamp()),
        Err(_) => None,
    }
}

/// A timestamp is fresh iff it lies strictly after `now − n` hours.
pub open spec fn fresh_spec(ts: int, now: int, n_hours: int) -> bool {
    ts > now - n_hours * 3600
}

/// The policy's window arithmetic stays inside `i64`.
pub open spec fn policy_bound_ok(policy: FreshnessPolicy, now: int) -> bool {
    match policy {
        FreshnessPolicy::WithinLastNHours(n) => now - n * 3600 >= i64::MIN,
        FreshnessPolicy::AllItems => true,
    }
}

/// The verdict on an item with the given publication-date field.
pub open spec fn verdict_spec(
    pub_date: Option<Seq<char>>,
    policy: FreshnessPolicy,
    now: int,
) -> ItemVerdict {
    match policy {
        FreshnessPolicy::AllItems => ItemVerdict::Include,
        FreshnessPolicy::WithinLastNHours(n) => match pub_date {
            None => ItemVerdict::BadTimestamp,
            Some(d) => match rfc2822_ts_of(d) {
                None => ItemVerdict::BadTimestamp,
                Some(ts) => if fresh_spec(ts as int, now, n as int) {
                    ItemVerdict::Include
                } else {
                    ItemVerdict::Stale
                },
            },
        },
    }
}

/// Is `ts` strictly inside the last `n_hours` before `now`?
pub fn is_fresh(ts: i64, now: i64, n_hours: u32) -> (r: bool)
    requires
        now - n_hours * 3600 >= i64::MIN,
    ensures
        r == fresh_spec(ts as int, now as int, n_hours as int),
{
    let cutoff: i64 = now - (n_hours as i64) * 3600;
    ts > cutoff
}

/// Decide an item's verdict from its publication-date field and the feed's
/// policy.
pub fn assess_item(pub_date: &Option<String>, policy: FreshnessPolicy, now: i64) -> (v: ItemVerdict)
    requires
        policy_bound_ok(policy, now as int),
    ensures
        v == verdict_spec(
            match pub_date {
                Some(d) => Some(d@),
                None => None,
            },
            policy,
            now as int,
        ),
{
    match policy {
        FreshnessPolicy::AllItems => ItemVerdict::Include,
        FreshnessPolicy::WithinLastNHours(n) => match pub_date {
            None => ItemVerdict::BadTimestamp,
            Some(d) => match parse_rfc2822_ts(d.as_str()) {
                None => ItemVerdict::BadTimestamp,
                Some(ts) => if is_fresh(ts, now, n) {
                    ItemVerdict::Include
                } else {
                    ItemVerdict::Stale
                },
            },
        },
    }
}

/// Freshness is monotone: with a fixed `now` and window, any timestamp later
/// than an included one is included too.
pub proof fn lemma_freshness_monotone(t1: int, t2: int, now: int, n_hours: int)
    requires
        t1 > t2,
        fresh_spec(t2, now, n_hours),
    ensures
        fresh_spec(t1, now, n_hours),
{
}

/// The cutoff is strict: a timestamp exactly `n` hours before `now` is not
/// fresh.
pub proof fn lemma_cutoff_strict(now: int, n_hours: int)
    ensures
        !fresh_spec(now - n_hours * 3600, now, n_hours),
{
}

} // verus!
