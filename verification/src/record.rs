//! The emitted records: one block per item, and one header line per feed.

use vstd::prelude::*;
use vstd::string::StringExecFns;
use crate::feed::opt_str_view;
use crate::urlenc::{build_deep_link, deep_link_spec};

verus! {

/// The header line written before a feed's items.
pub open spec fn header_spec(title: Seq<char>) -> Seq<char> {
    ">> Parsing '"@ + title + "'...\n"@
}

/// One emitted record: the cleaned text, the publication date where the feed
/// carries one, the translated text, the source link or its placeholder, and
/// the deep link through the web translator.
pub open spec fn record_spec(
    cleaned: Seq<char>,
    pub_date: Option<Seq<char>>,
    translated: Seq<char>,
    link: Option<Seq<char>>,
) -> Seq<char> {
    let link_s = match link {
        Some(l) => l,
        None => "[EMPTY LINK]"@,
    };
    "-----\n"@ + cleaned + "\n--\n"@ + (match pub_date {
        Some(d) => d + "\n--\n"@,
        None => Seq::empty(),
    }) + translated + "\n--\n"@ + link_s + "\n-\n"@ + deep_link_spec(link_s) + "\n"@
}

/// Write a feed's header line.
pub fn format_header(title: &str) -> (r: String)
    ensures
        r@ == header_spec(title@),
{
    let mut h = ">> Parsing '".to_owned();
    h.append(title);
    h.append("'...\n");
    proof {
        assert(h@ =~= header_spec(title@));
    }
    h
}

/// Write one item's record.
pub fn format_record(
    cleaned: &str,
    pub_date: &Option<String>,
    translated: &str,
    link: &Option<String>,
) -> (r: String)
    ensures
        r@ == record_spec(
            cleaned@,
            opt_str_view(*pub_date),
            translated@,
            opt_str_view(*link),
        ),
{
    let link_s: &str = match link {
        Some(l) => l.as_str(),
        None => "[EMPTY LINK]",
    };
    let mut r = "-----\n".to_owned();
    r.append(cleaned);
    r.append("\n--\n");
    match pub_date {
        Some(d) => {
            r.append(d.as_str());
            r.append("\n--\n");
        },
        None => {},
    }
    r.append(translated);
    r.append("\n--\n");
    r.append(link_s);
    r.append("\n-\n");
    let deep = build_deep_link(link_s);
    r.append(deep.as_str());
    r.append("\n");
    proof {
        assert(r@ =~= record_spec(
            cleaned@,
            opt_str_view(*pub_date),
            translated@,
            opt_str_view(*link),
        ));
    }
    r
}

} // verus!
