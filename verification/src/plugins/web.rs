//! Web search quicklinks, activated with the `g` keyword: `g rust traits`
//! offers a search on a few engines; activating one opens it.

use crate::direct::{percent_encode, percent_encoded, replace_all, replace_from};
use crate::proto::ResultItem;
use crate::rank::find_from;
use crate::text::{cat, chars_of, starts_with, string_of, trim, trim_chars};
use vstd::prelude::*;

verus! {

/// Minimal percent-encoding for query strings (RFC 3986 unreserved kept).
pub fn url_encode(input: &str) -> (r: String)
    ensures
        r@ == percent_encoded(input@),
{
    percent_encode(input)
}

/// The engines offered: name, and query URL with `{}` for the encoded query.
pub open spec fn engines() -> Seq<(&'static str, &'static str)> {
    seq![
        ("Google", "https://www.google.com/search?q={}"),
        ("DuckDuckGo", "https://duckduckgo.com/?q={}"),
        ("Wikipedia", "https://en.wikipedia.org/w/index.php?search={}"),
    ]
}

/// `item` offers engine number `k` for the (trimmed, non-empty) `query`:
/// titled `Search <engine> for “<query>”`, opening the engine's URL with the
/// encoded query filled in; the first engine ranks highest.
pub open spec fn is_engine_item(item: ResultItem, k: int, query: Seq<char>) -> bool {
    let (name, template) = engines()[k];
    let url = replace_from(template@, "{}"@, percent_encoded(query), 0);
    &&& item.id@ == name@
    &&& item.title@ == "Search "@ + name@ + " for “"@ + query + "”"@
    &&& item.subtitle matches Some(s) && s@ == url
    &&& item.icon matches Some(i) && i@ == "web-browser"@
    &&& item.score == 6000 - k
    &&& item.command_id@ == url
    &&& item.actions@.len() == 0
}

/// The search items for `text`: one per engine, none for a blank query.
pub fn web_results(text: &str) -> (r: Vec<ResultItem>)
    ensures
        trim(text@).len() == 0 ==> r@.len() == 0,
        trim(text@).len() > 0 ==> r@.len() == engines().len() && forall|k: int|
            0 <= k < r@.len() ==> is_engine_item(#[trigger] r@[k], k, trim(text@)),
{
    let q = trim_chars(&chars_of(text));
    if q.len() == 0 {
        return Vec::new();
    }
    let query = string_of(&q);
    let encoded = chars_of(percent_encode(query.as_str()).as_str());
    let placeholder = chars_of("{}");
    proof {
        reveal_strlit("{}");
    }
    let list: &[(&str, &str)] = &[
        ("Google", "https://www.google.com/search?q={}"),
        ("DuckDuckGo", "https://duckduckgo.com/?q={}"),
        ("Wikipedia", "https://en.wikipedia.org/w/index.php?search={}"),
    ];
    assert(list@ =~= engines());
    let mut out: Vec<ResultItem> = Vec::new();
    let mut k: usize = 0;
    while k < list.len()
        invariant
            list@ == engines(),
            query@ == trim(text@),
            encoded@ == percent_encoded(query@),
            placeholder@ == "{}"@,
            placeholder@.len() == 2,
            k <= list@.len(),
            out@.len() == k,
            forall|m: int| 0 <= m < k ==> is_engine_item(#[trigger] out@[m], m, trim(text@)),
        decreases list@.len() - k,
    {
        let (name, template) = list[k];
        let url = string_of(&replace_all(&chars_of(template), &placeholder, &encoded));
        let title = cat(cat(cat(cat("Search ", name).as_str(), " for “").as_str(), query.as_str()).as_str(), "”");
        out.push(
            ResultItem {
                id: name.to_owned(),
                title,
                subtitle: Some(url.clone()),
                icon: Some("web-browser".to_owned()),
                score: 6000 - k as i64,
                command_id: url,
                actions: Vec::new(),
            },
        );
        k = k + 1;
    }
    out
}

proof fn lemma_find_first(t: Seq<char>, pat: Seq<char>, i: int, p: int)
    requires
        0 <= i <= p,
        pat.len() > 0,
        p + pat.len() <= t.len(),
        t.subrange(p, p + pat.len()) == pat,
        forall|k: int| i <= k < p ==> t[k] != pat[0],
    ensures
        find_from(t, pat, i) == Some(p),
    decreases p - i,
{
    if i < p {
        assert(t.subrange(i, i + pat.len())[0] != pat[0]);
        lemma_find_first(t, pat, i + 1, p);
    }
}

/// A query URL made from a template opens the site the template names: it
/// begins with everything before the template's first `{}`.
proof fn lemma_url_starts_with_site(template: Seq<char>, site: Seq<char>, q: Seq<char>)
    requires
        starts_with(template, site + "{}"@),
        forall|k: int| 0 <= k < site.len() ==> site[k] != '{',
    ensures
        starts_with(replace_from(template, "{}"@, percent_encoded(q), 0), site),
{
    reveal_strlit("{}");
    let p = site.len() as int;
    assert(template.subrange(p, p + 2) =~= "{}"@) by {
        assert((site + "{}"@)[p] == template[p]);
        assert((site + "{}"@)[p + 1] == template[p + 1]);
    }
    assert forall|k: int| 0 <= k < p implies template[k] != "{}"@[0] by {
        assert((site + "{}"@)[k] == template[k]);
    }
    lemma_find_first(template, "{}"@, 0, p);
    let rest = replace_from(template, "{}"@, percent_encoded(q), p + 2);
    assert(replace_from(template, "{}"@, percent_encoded(q), 0) == template.subrange(0, p) + percent_encoded(q)
        + rest);
    assert(template.subrange(0, p) =~= site) by {
        assert forall|k: int| 0 <= k < p implies template[k] == site[k] by {
            assert((site + "{}"@)[k] == template[k]);
        }
    }
    let url = replace_from(template, "{}"@, percent_encoded(q), 0);
    assert(url.subrange(0, p) =~= site);
}

/// Each engine's item opens that engine's own site: Google's item a
/// `www.google.com` address, DuckDuckGo's a `duckduckgo.com` one,
/// Wikipedia's an `en.wikipedia.org` one; so no two engine items open the
/// same page.
pub proof fn lemma_engines_open_their_own_sites(items: Seq<ResultItem>, query: Seq<char>)
    requires
        items.len() == engines().len(),
        forall|k: int| 0 <= k < items.len() ==> is_engine_item(#[trigger] items[k], k, query),
    ensures
        forall|k: int|
            0 <= k < items.len() && items[k].id@ == "Google"@ ==> starts_with(
                #[trigger] items[k].command_id@,
                "https://www.google.com/"@,
            ),
        forall|k: int|
            0 <= k < items.len() && items[k].id@ == "DuckDuckGo"@ ==> starts_with(
                #[trigger] items[k].command_id@,
                "https://duckduckgo.com/"@,
            ),
        forall|k: int|
            0 <= k < items.len() && items[k].id@ == "Wikipedia"@ ==> starts_with(
                #[trigger] items[k].command_id@,
                "https://en.wikipedia.org/"@,
            ),
        forall|k1: int, k2: int|
            0 <= k1 < k2 < items.len() ==> (#[trigger] items[k1]).command_id@ != (#[trigger] items[
                k2]).command_id@,
{
    reveal_strlit("Google");
    reveal_strlit("DuckDuckGo");
    reveal_strlit("Wikipedia");
    reveal_strlit("{}");
    reveal_strlit("https://www.google.com/search?q={}");
    reveal_strlit("https://duckduckgo.com/?q={}");
    reveal_strlit("https://en.wikipedia.org/w/index.php?search={}");
    reveal_strlit("https://www.google.com/search?q=");
    reveal_strlit("https://duckduckgo.com/?q=");
    reveal_strlit("https://en.wikipedia.org/w/index.php?search=");
    reveal_strlit("https://www.google.com/");
    reveal_strlit("https://duckduckgo.com/");
    reveal_strlit("https://en.wikipedia.org/");
    let sites = seq![
        "https://www.google.com/search?q="@,
        "https://duckduckgo.com/?q="@,
        "https://en.wikipedia.org/w/index.php?search="@,
    ];
    let hosts = seq!["https://www.google.com/"@, "https://duckduckgo.com/"@, "https://en.wikipedia.org/"@];
    assert forall|k: int| 0 <= k < 3 implies starts_with(
        (#[trigger] items[k]).command_id@,
        sites[k],
    ) && starts_with(items[k].command_id@, hosts[k]) by {
        let t = engines()[k].1@;
        let site = sites[k];
        assert(t.subrange(0, site.len() + 2 as int) =~= site + "{}"@);
        assert forall|j: int| 0 <= j < site.len() implies site[j] != '{' by {}
        lemma_url_starts_with_site(t, site, query);
        let url = items[k].command_id@;
        assert(url.subrange(0, hosts[k].len() as int) =~= hosts[k]) by {
            assert(url.subrange(0, site.len() as int) == site);
            assert forall|j: int| 0 <= j < hosts[k].len() implies url[j] == hosts[k][j] by {
                assert(url.subrange(0, site.len() as int)[j] == site[j]);
            }
        }
    }
    assert forall|k1: int, k2: int| 0 <= k1 < k2 < items.len() implies (#[trigger] items[k1]).command_id@
        != (#[trigger] items[k2]).command_id@ by {
        assert(items[k1].command_id@.subrange(0, hosts[k1].len() as int)[8] == hosts[k1][8]);
        assert(items[k2].command_id@.subrange(0, hosts[k2].len() as int)[8] == hosts[k2][8]);
        assert(hosts[k1][8] != hosts[k2][8]);
    }
    assert("Google"@.len() != "DuckDuckGo"@.len() && "Google"@.len() != "Wikipedia"@.len()
        && "DuckDuckGo"@.len() != "Wikipedia"@.len());
}

} // verus!
