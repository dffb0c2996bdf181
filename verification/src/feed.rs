//! The feed model: a parsed channel as plain values, and the fixed catalog of
//! feeds with their freshness policies.

use vstd::prelude::*;
use vstd::string::StringExecFns;
use crate::freshness::FreshnessPolicy;

verus! {

/// One feed item; every field may be absent.
pub struct FeedItem {
    pub title: Option<String>,
    pub description: Option<String>,
    pub link: Option<String>,
    pub pub_date: Option<String>,
}

/// A parsed channel: its human title and its items, in document order.
pub struct Feed {
    pub title: String,
    pub items: Vec<FeedItem>,
}

/// The view of an optional string field.
pub open spec fn opt_str_view(o: Option<String>) -> Option<Seq<char>> {
    match o {
        Some(s) => Some(s@),
        None => None,
    }
}

/// One item's fields as views: title, description, link, publication date.
pub type ItemFields = (Option<Seq<char>>, Option<Seq<char>>, Option<Seq<char>>, Option<Seq<char>>);

/// The views of an item's fields.
pub open spec fn item_fields(it: FeedItem) -> ItemFields {
    (
        opt_str_view(it.title),
        opt_str_view(it.description),
        opt_str_view(it.link),
        opt_str_view(it.pub_date),
    )
}

/// What RSS parsing yields on given bytes: the channel title and each item's
/// fields, in document order, a function of the bytes alone; `None` where
/// the bytes are no parseable RSS channel.
pub uninterp spec fn rss_of(bytes: Seq<u8>) -> Option<(Seq<char>, Seq<ItemFields>)>;

/// Relies on `rss::Channel::read_from` and the accessors `Channel::title`,
/// `Channel::items`, `Item::title`, `Item::description`, `Item::link` and
/// `Item::pub_date`: the document is parsed as RSS and the channel is handed
/// over field for field, `None` where the document fails to parse.
#[verifier::external_body]
pub(crate) fn parse_feed(bytes: &Vec<u8>) -> (r: Option<Feed>)
    ensures
        (match r {
            Some(f) => rss_of(bytes@) == Some(
                (f.title@, f.items@.map_values(|it: FeedItem| item_fields(it))),
            ),
            None => rss_of(bytes@) is None,
        }),
{
    match rss::Channel::read_from(bytes.as_slice()) {
        Ok(ch) => {
            let items = ch.items().iter().map(|it| FeedItem {
                title: it.title().map(str::to_owned),
                description: it.description().map(str::to_owned),
                link: it.link().map(str::to_owned),
                pub_date: it.pub_date().map(str::to_owned),
            }).collect();
            Some(Feed { title: ch.title().to_owned(), items })
        },
        Err(_) => None,
    }
}

/// One catalog element: a feed URL and that feed's freshness policy.
pub struct FeedEntry {
    pub url: String,
    pub policy: FreshnessPolicy,
}

/// The fixed catalog, in processing order: three timestamped regional feeds
/// with a twelve-hour window, then one feed that carries no timestamps and is
/// taken whole.
pub fn catalog() -> (r: Vec<FeedEntry>)
    ensures
        r@.len() == 4,
        r@[0].url@ == "http://www.noitv.it/localita/valle-del-serchio/rss/"@,
        r@[0].policy == FreshnessPolicy::WithinLastNHours(12u32),
        r@[1].url@ == "https://www.lagazzettadelserchio.it/rss/articoli/"@,
        r@[1].policy == FreshnessPolicy::WithinLastNHours(12u32),
        r@[2].url@ == "https://www.lagazzettadelserchio.it/rss/brevi/"@,
        r@[2].policy == FreshnessPolicy::WithinLastNHours(12u32),
        r@[3].url@ == "https://www.serchioindiretta.it/cronaca/rss"@,
        r@[3].policy == FreshnessPolicy::AllItems,
{
    let mut r: Vec<FeedEntry> = Vec::new();
    r.push(
        FeedEntry {
            url: "http://www.noitv.it/localita/valle-del-serchio/rss/".to_owned(),
            policy: FreshnessPolicy::WithinLastNHours(12),
        },
    );
    r.push(
        FeedEntry {
            url: "https://www.lagazzettadelserchio.it/rss/articoli/".to_owned(),
            policy: FreshnessPolicy::WithinLastNHours(12),
        },
    );
    r.push(
        FeedEntry {
            url: "https://www.lagazzettadelserchio.it/rss/brevi/".to_owned(),
            policy: FreshnessPolicy::WithinLastNHours(12),
        },
    );
    r.push(
        FeedEntry {
            url: "https://www.serchioindiretta.it/cronaca/rss".to_owned(),
            policy: FreshnessPolicy::AllItems,
        },
    );
    r
}

} // verus!
