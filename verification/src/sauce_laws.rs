//! What holds of the sorting of links into sources: every link lands in
//! exactly one list, kept sources are named after known sites, exactly
//! the first link of each known site is kept, and every other link skipped.

use vstd::prelude::*;
use crate::json::{JsonValue, json_array, json_get, json_get2, json_str};
use crate::sauce::{
    sources, name_from, sauce_name, sort_urls, join, sauce_links, image_link, pretty_sauces, str_items,
    entry_urls, entries_urls, answer_urls, is_sankaku,
};
use crate::text::{occurs_at, seq_contains, lemma_contains_append, lemma_contains_suffix};

verus! {

/// Every site name of the table is non-empty, and the empty string literal
/// is empty: an empty name means "unknown site".
pub proof fn lemma_site_names_nonempty()
    ensures
        ""@.len() == 0,
        forall|i: int| 0 <= i < sources().len() ==> #[trigger] sources()[i].1.len() > 0,
{
    reveal_strlit("");
    reveal_strlit("Gelbooru");
    reveal_strlit("Danbooru");
    reveal_strlit("yande.re");
    reveal_strlit("Konachan");
    reveal_strlit("DeviantArt");
    reveal_strlit("Twitter");
    reveal_strlit("Pixiv");
    reveal_strlit("anime-pictures.net");
    reveal_strlit("ArtStation");
    reveal_strlit("Tumblr");
    reveal_strlit("Instagram");
    reveal_strlit("Misskey");
    reveal_strlit("Bluesky");
}

/// `name_from(url, i)` is the name of the first site from the `i`-th on
/// whose keyword occurs in `url`, or empty when none does.
proof fn lemma_name_from(url: Seq<char>, i: nat)
    ensures
        (forall|j: int| i <= j < sources().len() ==> !seq_contains(url, #[trigger] sources()[j].0))
            ==> name_from(url, i) == ""@,
        (exists|j: int| i <= j < sources().len() && seq_contains(url, #[trigger] sources()[j].0))
            ==> exists|j: int| #![trigger sources()[j]]
                i <= j < sources().len() && seq_contains(url, sources()[j].0)
                && name_from(url, i) == sources()[j].1
                && forall|k: int| i <= k < j ==> !seq_contains(url, #[trigger] sources()[k].0),
    decreases sources().len() - i,
{
    if i < sources().len() {
        lemma_name_from(url, i + 1);
        if !seq_contains(url, sources()[i as int].0) {
            if exists|j: int| i <= j < sources().len() && seq_contains(url, #[trigger] sources()[j].0) {
                let j = choose|j: int| i <= j < sources().len() && seq_contains(url, #[trigger] sources()[j].0);
                assert(i + 1 <= j);
            }
        }
    }
}

/// The site name of a link is that of the first listed site whose keyword
/// occurs in the link; it is empty exactly when the link is empty or no
/// listed keyword occurs in it.
pub proof fn lemma_sauce_name_first_match(url: Seq<char>)
    ensures
        sauce_name(url).len() == 0 <==> (url.len() == 0 || forall|j: int|
            0 <= j < sources().len() ==> !seq_contains(url, #[trigger] sources()[j].0)),
        sauce_name(url).len() > 0 ==> exists|j: int| #![trigger sources()[j]]
            0 <= j < sources().len() && seq_contains(url, sources()[j].0)
            && sauce_name(url) == sources()[j].1
            && forall|k: int| 0 <= k < j ==> !seq_contains(url, #[trigger] sources()[k].0),
{
    lemma_site_names_nonempty();
    lemma_name_from(url, 0);
}

/// The names that the site table gives, each once.
pub open spec fn is_site_name(x: Seq<char>) -> bool {
    ||| x == "Gelbooru"@
    ||| x == "Danbooru"@
    ||| x == "yande.re"@
    ||| x == "Konachan"@
    ||| x == "DeviantArt"@
    ||| x == "Twitter"@
    ||| x == "Pixiv"@
    ||| x == "anime-pictures.net"@
    ||| x == "ArtStation"@
    ||| x == "Tumblr"@
    ||| x == "Instagram"@
    ||| x == "Misskey"@
    ||| x == "Bluesky"@
}

/// Every name of the site table is one of the site names.
proof fn lemma_table_names()
    ensures
        forall|j: int| 0 <= j < sources().len() ==> is_site_name(#[trigger] sources()[j].1),
{
    assert forall|j: int| 0 <= j < sources().len() implies is_site_name(#[trigger] sources()[j].1) by {
        assert(j == 0 || j == 1 || j == 2 || j == 3 || j == 4 || j == 5 || j == 6 || j == 7
            || j == 8 || j == 9 || j == 10 || j == 11 || j == 12 || j == 13);
    }
}

/// A known site name is one of the site names.
pub proof fn lemma_sauce_name_is_site_name(url: Seq<char>)
    ensures
        sauce_name(url).len() > 0 ==> is_site_name(sauce_name(url)),
{
    lemma_sauce_name_first_match(url);
    lemma_table_names();
}

/// Wherever the character `n[k]` occurs in the site name `m`, it is
/// followed by a character other than `n[k + 1]`.
pub open spec fn pair_absent(m: Seq<char>, n: Seq<char>, k: int) -> bool {
    forall|o: int| 0 <= o < m.len() && #[trigger] m[o] == n[k] ==> o + 1 < m.len() && m[o + 1] != n[k + 1]
}

/// The site names written one after the other.
pub open spec fn concat_all(ns: Seq<Seq<char>>) -> Seq<char>
    decreases ns.len(),
{
    if ns.len() == 0 {
        seq![]
    } else {
        concat_all(ns.drop_last()) + ns.last()
    }
}

/// Each character of `concat_all(ns)` comes from some `ns[i]` at offset `o`,
/// and is followed by `ns[i][o + 1]` when `ns[i]` goes on.
proof fn char_source(ns: Seq<Seq<char>>, p: int) -> (r: (int, int))
    requires
        0 <= p < concat_all(ns).len(),
    ensures
        0 <= r.0 < ns.len(),
        0 <= r.1 < ns[r.0].len(),
        concat_all(ns)[p] == ns[r.0][r.1],
        r.1 + 1 < ns[r.0].len() ==> p + 1 < concat_all(ns).len() && concat_all(ns)[p + 1] == ns[r.0][r.1 + 1],
    decreases ns.len(),
{
    let rest = ns.drop_last();
    let c = concat_all(rest);
    if p < c.len() {
        let r = char_source(rest, p);
        r
    } else {
        ((ns.len() - 1) as int, p - c.len())
    }
}

/// A site name `n` does not occur among other site names written one after
/// the other, given a pair of characters of `n` that no other site name
/// holds (nor ends with the first of them).
proof fn lemma_absent_by_pair(ns: Seq<Seq<char>>, n: Seq<char>, k: int)
    requires
        0 <= k,
        k + 1 < n.len(),
        forall|i: int| 0 <= i < ns.len() ==> pair_absent(#[trigger] ns[i], n, k),
    ensures
        !seq_contains(concat_all(ns), n),
{
    let c = concat_all(ns);
    if seq_contains(c, n) {
        let p = choose|p: int| #[trigger] occurs_at(c, n, p);
        assert(c[p + k] == n[k]);
        assert(c[p + k + 1] == n[k + 1]);
        let r = char_source(ns, p + k);
        assert(pair_absent(ns[r.0], n, k));
        assert(ns[r.0][r.1] == n[k]);
    }
}

/// The offset, in a site name, of a pair of characters that no other site
/// name holds one after the other.
pub open spec fn pair_offset(n: Seq<char>) -> int {
    if n == "yande.re"@ || n == "ArtStation"@ {
        3
    } else if n == "Twitter"@ {
        1
    } else if n == "anime-pictures.net"@ {
        5
    } else {
        0
    }
}

/// No other site name holds the characters `pair_offset(n)` and
/// `pair_offset(n) + 1` of the site name `n` one after the other.
proof fn lemma_pair_unique(n: Seq<char>)
    requires
        is_site_name(n),
    ensures
        0 <= pair_offset(n),
        pair_offset(n) + 1 < n.len(),
        forall|m: Seq<char>| is_site_name(m) && m != n ==> pair_absent(m, n, pair_offset(n)),
{
    reveal_strlit("Gelbooru");
    reveal_strlit("Danbooru");
    reveal_strlit("yande.re");
    reveal_strlit("Konachan");
    reveal_strlit("DeviantArt");
    reveal_strlit("Twitter");
    reveal_strlit("Pixiv");
    reveal_strlit("anime-pictures.net");
    reveal_strlit("ArtStation");
    reveal_strlit("Tumblr");
    reveal_strlit("Instagram");
    reveal_strlit("Misskey");
    reveal_strlit("Bluesky");
}

/// A site name does not occur among other site names written one after
/// the other: only an equal name makes the running list of kept names
/// contain a site name.
pub proof fn lemma_site_name_absent(ns: Seq<Seq<char>>, n: Seq<char>)
    requires
        is_site_name(n),
        forall|i: int| 0 <= i < ns.len() ==> is_site_name(#[trigger] ns[i]) && ns[i] != n,
    ensures
        !seq_contains(concat_all(ns), n),
{
    lemma_pair_unique(n);
    lemma_absent_by_pair(ns, n, pair_offset(n));
}

/// The links of the kept sources, in order.
pub open spec fn kept_urls(kept: Seq<(Seq<char>, Seq<char>)>) -> Seq<Seq<char>> {
    kept.map_values(|p: (Seq<char>, Seq<char>)| p.1)
}

/// Every link lands in exactly one of the two lists: the links of the kept
/// sources together with the skipped links are the sorted links, each as
/// often as it came.
pub proof fn lemma_sorting_keeps_every_link(urls: Seq<Seq<char>>)
    ensures
        kept_urls(sort_urls(urls).0).to_multiset().add(sort_urls(urls).1.to_multiset())
            =~= urls.to_multiset(),
        sort_urls(urls).0.len() + sort_urls(urls).1.len() == urls.len(),
    decreases urls.len(),
{
    broadcast use vstd::seq_lib::group_to_multiset_ensures;
    if urls.len() > 0 {
        let rest = urls.drop_last();
        lemma_sorting_keeps_every_link(rest);
        let prev = sort_urls(rest);
        let url = urls.last();
        assert(rest.push(url) =~= urls);
        let name = sauce_name(url);
        if name.len() == 0 || seq_contains(prev.2, name) {
            assert(prev.1.push(url).to_multiset() =~= prev.1.to_multiset().insert(url));
        } else {
            assert(kept_urls(prev.0.push((name, url))) =~= kept_urls(prev.0).push(url));
        }
    }
}

/// Each kept source carries the site name of its link, which is a known
/// (non-empty) name, and that name occurs in the running list of names.
proof fn lemma_kept_names_seen(urls: Seq<Seq<char>>)
    ensures
        forall|i: int| 0 <= i < sort_urls(urls).0.len() ==> {
            &&& (#[trigger] sort_urls(urls).0[i]).0 == sauce_name(sort_urls(urls).0[i].1)
            &&& sort_urls(urls).0[i].0.len() > 0
            &&& seq_contains(sort_urls(urls).2, sort_urls(urls).0[i].0)
        },
    decreases urls.len(),
{
    if urls.len() > 0 {
        let rest = urls.drop_last();
        lemma_kept_names_seen(rest);
        let prev = sort_urls(rest);
        let url = urls.last();
        let name = sauce_name(url);
        if !(name.len() == 0 || seq_contains(prev.2, name)) {
            let cur = sort_urls(urls);
            assert forall|i: int| 0 <= i < cur.0.len() implies seq_contains(cur.2, (#[trigger] cur.0[i]).0) by {
                if i < prev.0.len() {
                    lemma_contains_append(prev.2, name, prev.0[i].0);
                } else {
                    lemma_contains_suffix(prev.2, name);
                }
            }
        }
    }
}

/// Each kept source is named after the site of its link, a known site.
pub proof fn lemma_kept_sources_known(urls: Seq<Seq<char>>)
    ensures
        forall|i: int| 0 <= i < sort_urls(urls).0.len() ==>
            (#[trigger] sort_urls(urls).0[i]).0 == sauce_name(sort_urls(urls).0[i].1)
            && sort_urls(urls).0[i].0.len() > 0,
{
    lemma_kept_names_seen(urls);
}

/// At most one source per site: the names of the kept sources are pairwise
/// distinct, so any further link to a site already listed is skipped.
pub proof fn lemma_one_source_per_site(urls: Seq<Seq<char>>)
    ensures
        forall|i: int, j: int| 0 <= i < j < sort_urls(urls).0.len() ==>
            (#[trigger] sort_urls(urls).0[i]).0 != (#[trigger] sort_urls(urls).0[j]).0,
    decreases urls.len(),
{
    if urls.len() > 0 {
        let rest = urls.drop_last();
        lemma_one_source_per_site(rest);
        lemma_kept_names_seen(rest);
        let prev = sort_urls(rest);
        let cur = sort_urls(urls);
        let name = sauce_name(urls.last());
        if !(name.len() == 0 || seq_contains(prev.2, name)) {
            assert forall|i: int, j: int| 0 <= i < j < cur.0.len() implies
                (#[trigger] cur.0[i]).0 != (#[trigger] cur.0[j]).0 by {
                if j == prev.0.len() {
                    assert(seq_contains(prev.2, prev.0[i].0));
                }
            }
        }
    }
}

/// The names of the kept sources, in order.
pub open spec fn kept_names(kept: Seq<(Seq<char>, Seq<char>)>) -> Seq<Seq<char>> {
    kept.map_values(|p: (Seq<char>, Seq<char>)| p.0)
}

/// The running list of names is the kept names written one after the other.
proof fn lemma_seen_is_concat(urls: Seq<Seq<char>>)
    ensures
        sort_urls(urls).2 == concat_all(kept_names(sort_urls(urls).0)),
    decreases urls.len(),
{
    if urls.len() > 0 {
        let rest = urls.drop_last();
        lemma_seen_is_concat(rest);
        let prev = sort_urls(rest);
        let name = sauce_name(urls.last());
        if !(name.len() == 0 || seq_contains(prev.2, name)) {
            let ns = kept_names(prev.0.push((name, urls.last())));
            assert(ns.drop_last() =~= kept_names(prev.0));
        }
    }
}

/// Each kept source comes from one of the sorted links.
proof fn lemma_kept_from_links(urls: Seq<Seq<char>>)
    ensures
        forall|i: int| 0 <= i < sort_urls(urls).0.len() ==>
            exists|j: int| 0 <= j < urls.len() && urls[j] == (#[trigger] sort_urls(urls).0[i]).1,
    decreases urls.len(),
{
    if urls.len() > 0 {
        let rest = urls.drop_last();
        lemma_kept_from_links(rest);
        let prev = sort_urls(rest);
        let cur = sort_urls(urls);
        assert forall|i: int| 0 <= i < cur.0.len() implies
            exists|j: int| 0 <= j < urls.len() && urls[j] == (#[trigger] cur.0[i]).1 by {
            if i < prev.0.len() {
                let j = choose|j: int| 0 <= j < rest.len() && rest[j] == (#[trigger] prev.0[i]).1;
                assert(urls[j] == rest[j]);
            } else {
                assert(urls[urls.len() - 1] == cur.0[i].1);
            }
        }
    }
}

/// Sorting more links keeps what sorting their first `a` kept.
proof fn lemma_kept_grows(urls: Seq<Seq<char>>, a: int)
    requires
        0 <= a <= urls.len(),
    ensures
        forall|x: (Seq<char>, Seq<char>)| sort_urls(urls.take(a)).0.contains(x) ==> #[trigger] sort_urls(urls).0.contains(x),
    decreases urls.len(),
{
    if a < urls.len() {
        let rest = urls.drop_last();
        assert(rest.take(a) =~= urls.take(a));
        lemma_kept_grows(rest, a);
        let prev = sort_urls(rest);
        let cur = sort_urls(urls);
        assert forall|x: (Seq<char>, Seq<char>)| prev.0.contains(x) implies #[trigger] cur.0.contains(x) by {
            let i = choose|i: int| 0 <= i < prev.0.len() && prev.0[i] == x;
            assert(cur.0[i] == x);
        }
    } else {
        assert(urls.take(a) =~= urls);
    }
}

/// The first link of each known site is kept: a link whose site is known,
/// and differs from the site of every earlier link, becomes a source.
/// Together with `lemma_one_source_per_site`, exactly the first link of
/// each site is kept.
pub proof fn lemma_first_link_of_site_kept(urls: Seq<Seq<char>>, k: int)
    requires
        0 <= k < urls.len(),
        sauce_name(urls[k]).len() > 0,
        forall|j: int| 0 <= j < k ==> sauce_name(#[trigger] urls[j]) != sauce_name(urls[k]),
    ensures
        sort_urls(urls).0.contains((sauce_name(urls[k]), urls[k])),
{
    let before = urls.take(k);
    let upto = urls.take(k + 1);
    assert(upto.drop_last() =~= before);
    let prev = sort_urls(before);
    let name = sauce_name(urls[k]);
    lemma_seen_is_concat(before);
    lemma_kept_sources_known(before);
    lemma_kept_from_links(before);
    lemma_sauce_name_is_site_name(urls[k]);
    let ns = kept_names(prev.0);
    assert forall|i: int| 0 <= i < ns.len() implies is_site_name(#[trigger] ns[i]) && ns[i] != name by {
        let u = prev.0[i].1;
        let j = choose|j: int| 0 <= j < before.len() && before[j] == (#[trigger] prev.0[i]).1;
        assert(before[j] == urls[j]);
        lemma_sauce_name_is_site_name(u);
    }
    lemma_site_name_absent(ns, name);
    assert(sort_urls(upto).0 == prev.0.push((name, urls[k])));
    assert(sort_urls(upto).0[prev.0.len() as int] == (name, urls[k]));
    lemma_kept_grows(urls, k + 1);
}

/// The `k`-th link is the first link of its site: its site is known and no
/// earlier link belongs to the same site.
pub open spec fn first_of_its_site(urls: Seq<Seq<char>>, k: int) -> bool {
    &&& sauce_name(urls[k]).len() > 0
    &&& forall|j: int| 0 <= j < k ==> sauce_name(#[trigger] urls[j]) != sauce_name(urls[k])
}

/// The links that are first of their sites, each with its site name, in
/// order.
pub open spec fn first_links(urls: Seq<Seq<char>>) -> Seq<(Seq<char>, Seq<char>)>
    decreases urls.len(),
{
    if urls.len() == 0 {
        seq![]
    } else {
        let k = urls.len() - 1;
        first_links(urls.drop_last()) + if first_of_its_site(urls, k) {
            seq![(sauce_name(urls[k]), urls[k])]
        } else {
            seq![]
        }
    }
}

/// The links that are not first of their sites (unknown sites included), in
/// order.
pub open spec fn other_links(urls: Seq<Seq<char>>) -> Seq<Seq<char>>
    decreases urls.len(),
{
    if urls.len() == 0 {
        seq![]
    } else {
        let k = urls.len() - 1;
        other_links(urls.drop_last()) + if first_of_its_site(urls, k) {
            seq![]
        } else {
            seq![urls[k]]
        }
    }
}

/// The name of every link of a known site occurs in the running list of
/// kept names.
proof fn lemma_named_links_seen(urls: Seq<Seq<char>>)
    ensures
        forall|j: int| 0 <= j < urls.len() && sauce_name(#[trigger] urls[j]).len() > 0 ==>
            seq_contains(sort_urls(urls).2, sauce_name(urls[j])),
    decreases urls.len(),
{
    if urls.len() > 0 {
        let rest = urls.drop_last();
        lemma_named_links_seen(rest);
        let prev = sort_urls(rest);
        let cur = sort_urls(urls);
        let name = sauce_name(urls.last());
        assert forall|j: int| 0 <= j < urls.len() && sauce_name(#[trigger] urls[j]).len() > 0 implies
            seq_contains(cur.2, sauce_name(urls[j])) by {
            if name.len() == 0 || seq_contains(prev.2, name) {
                if j < rest.len() {
                    assert(rest[j] == urls[j]);
                }
            } else if j < rest.len() {
                assert(rest[j] == urls[j]);
                lemma_contains_append(prev.2, name, sauce_name(urls[j]));
            } else {
                lemma_contains_suffix(prev.2, name);
            }
        }
    }
}

/// The kept names of sorted links are known site names, each the name of
/// one of the links.
proof fn lemma_kept_names_of_links(urls: Seq<Seq<char>>)
    ensures
        forall|i: int| 0 <= i < kept_names(sort_urls(urls).0).len() ==> {
            &&& is_site_name(#[trigger] kept_names(sort_urls(urls).0)[i])
            &&& exists|j: int| 0 <= j < urls.len() && sauce_name(urls[j]) == kept_names(sort_urls(urls).0)[i]
        },
{
    lemma_kept_sources_known(urls);
    lemma_kept_from_links(urls);
    let kept = sort_urls(urls).0;
    let ns = kept_names(kept);
    assert forall|i: int| 0 <= i < ns.len() implies {
        &&& is_site_name(#[trigger] ns[i])
        &&& exists|j: int| 0 <= j < urls.len() && sauce_name(urls[j]) == ns[i]
    } by {
        let j = choose|j: int| 0 <= j < urls.len() && urls[j] == (#[trigger] kept[i]).1;
        lemma_sauce_name_is_site_name(urls[j]);
        assert(sauce_name(urls[j]) == ns[i]);
    }
}

/// Sorting keeps exactly the first link of each known site, in order, and
/// skips all the other links, in order.
pub proof fn lemma_sorting_is_filter(urls: Seq<Seq<char>>)
    ensures
        sort_urls(urls).0 == first_links(urls),
        sort_urls(urls).1 == other_links(urls),
    decreases urls.len(),
{
    if urls.len() > 0 {
        let rest = urls.drop_last();
        lemma_sorting_is_filter(rest);
        let k = urls.len() - 1;
        let u = urls[k];
        let name = sauce_name(u);
        let prev = sort_urls(rest);
        assert(urls.last() == u);
        if first_of_its_site(urls, k) {
            lemma_seen_is_concat(rest);
            lemma_kept_names_of_links(rest);
            lemma_sauce_name_is_site_name(u);
            let ns = kept_names(prev.0);
            assert forall|i: int| 0 <= i < ns.len() implies is_site_name(#[trigger] ns[i]) && ns[i] != name by {
                let j = choose|j: int| 0 <= j < rest.len() && sauce_name(rest[j]) == ns[i];
                assert(rest[j] == urls[j]);
            }
            lemma_site_name_absent(ns, name);
        } else if name.len() > 0 {
            let j = choose|j: int| 0 <= j < k && sauce_name(#[trigger] urls[j]) == name;
            assert(rest[j] == urls[j]);
            lemma_named_links_seen(rest);
        }
    }
}

/// Each skipped link belongs to no known site, or to a site of which a
/// source is kept.
pub proof fn lemma_skipped_site_is_kept(urls: Seq<Seq<char>>)
    ensures
        forall|i: int| 0 <= i < sort_urls(urls).1.len() ==>
            sauce_name(#[trigger] sort_urls(urls).1[i]).len() == 0
            || exists|m: int| 0 <= m < sort_urls(urls).0.len()
                && sort_urls(urls).0[m].0 == sauce_name(sort_urls(urls).1[i]),
    decreases urls.len(),
{
    if urls.len() > 0 {
        let rest = urls.drop_last();
        lemma_skipped_site_is_kept(rest);
        let prev = sort_urls(rest);
        let cur = sort_urls(urls);
        let u = urls.last();
        let name = sauce_name(u);
        if name.len() == 0 || seq_contains(prev.2, name) {
            if name.len() > 0 {
                lemma_seen_is_concat(rest);
                lemma_kept_names_of_links(rest);
                lemma_sauce_name_is_site_name(u);
                let ns = kept_names(prev.0);
                if forall|m: int| 0 <= m < ns.len() ==> #[trigger] ns[m] != name {
                    lemma_site_name_absent(ns, name);
                }
                let m = choose|m: int| 0 <= m < ns.len() && #[trigger] ns[m] == name;
                assert(prev.0[m].0 == name);
            }
            assert forall|i: int| 0 <= i < cur.1.len() implies
                sauce_name(#[trigger] cur.1[i]).len() == 0
                || exists|m: int| 0 <= m < cur.0.len() && cur.0[m].0 == sauce_name(cur.1[i]) by {
                assert(cur.0 == prev.0);
                if i < prev.1.len() {
                    assert(cur.1[i] == prev.1[i]);
                    if sauce_name(prev.1[i]).len() != 0 {
                        let m = choose|m: int| 0 <= m < prev.0.len() && prev.0[m].0 == sauce_name(prev.1[i]);
                        assert(cur.0[m].0 == sauce_name(cur.1[i]));
                    }
                } else {
                    assert(cur.1[i] == u);
                    if name.len() > 0 {
                        let m = choose|m: int| 0 <= m < prev.0.len() && prev.0[m].0 == name;
                        assert(cur.0[m].0 == sauce_name(cur.1[i]));
                    }
                }
            }
        } else {
            assert forall|i: int| 0 <= i < cur.1.len() implies
                sauce_name(#[trigger] cur.1[i]).len() == 0
                || exists|m: int| 0 <= m < cur.0.len() && cur.0[m].0 == sauce_name(cur.1[i]) by {
                assert(cur.1[i] == prev.1[i]);
                if sauce_name(prev.1[i]).len() != 0 {
                    let m = choose|m: int| 0 <= m < prev.0.len() && prev.0[m].0 == sauce_name(prev.1[i]);
                    assert(cur.0[m] == prev.0[m]);
                }
            }
        }
    }
}

/// The site table: a non-empty link is named after the first of these
/// keywords that it contains, in this order — `gelbooru` Gelbooru,
/// `danbooru` Danbooru, `yande.re` yande.re, `konachan.` Konachan,
/// `deviantart` DeviantArt, `twitter.com` Twitter, `pixiv` Pixiv,
/// `anime-pictures.net` anime-pictures.net, `artstation.com` ArtStation,
/// `tumblr.com` Tumblr, `https:://x.com` Twitter, `instagram.com` Instagram,
/// `misskey` Misskey, `bsky` Bluesky — and has the empty name when it
/// contains none of them; the empty link has the empty name.
pub proof fn lemma_site_table(url: Seq<char>)
    ensures
        url.len() == 0 ==> sauce_name(url) == ""@,
        url.len() > 0 ==> {
            &&& seq_contains(url, "gelbooru"@) ==> (sauce_name(url) == "Gelbooru"@)
            &&& !seq_contains(url, "gelbooru"@) && seq_contains(url, "danbooru"@) ==> (sauce_name(url) == "Danbooru"@)
            &&& !seq_contains(url, "gelbooru"@) && !seq_contains(url, "danbooru"@) && seq_contains(url, "yande.re"@) ==> (sauce_name(url) == "yande.re"@)
            &&& !seq_contains(url, "gelbooru"@) && !seq_contains(url, "danbooru"@) && !seq_contains(url, "yande.re"@) && seq_contains(url, "konachan."@) ==> (sauce_name(url) == "Konachan"@)
            &&& !seq_contains(url, "gelbooru"@) && !seq_contains(url, "danbooru"@) && !seq_contains(url, "yande.re"@) && !seq_contains(url, "konachan."@) && seq_contains(url, "deviantart"@) ==> (sauce_name(url) == "DeviantArt"@)
            &&& !seq_contains(url, "gelbooru"@) && !seq_contains(url, "danbooru"@) && !seq_contains(url, "yande.re"@) && !seq_contains(url, "konachan."@) && !seq_contains(url, "deviantart"@) && seq_contains(url, "twitter.com"@) ==> (sauce_name(url) == "Twitter"@)
            &&& !seq_contains(url, "gelbooru"@) && !seq_contains(url, "danbooru"@) && !seq_contains(url, "yande.re"@) && !seq_contains(url, "konachan."@) && !seq_contains(url, "deviantart"@) && !seq_contains(url, "twitter.com"@) && seq_contains(url, "pixiv"@) ==> (sauce_name(url) == "Pixiv"@)
            &&& !seq_contains(url, "gelbooru"@) && !seq_contains(url, "danbooru"@) && !seq_contains(url, "yande.re"@) && !seq_contains(url, "konachan."@) && !seq_contains(url, "deviantart"@) && !seq_contains(url, "twitter.com"@) && !seq_contains(url, "pixiv"@) && seq_contains(url, "anime-pictures.net"@) ==> (sauce_name(url) == "anime-pictures.net"@)
            &&& !seq_contains(url, "gelbooru"@) && !seq_contains(url, "danbooru"@) && !seq_contains(url, "yande.re"@) && !seq_contains(url, "konachan."@) && !seq_contains(url, "deviantart"@) && !seq_contains(url, "twitter.com"@) && !seq_contains(url, "pixiv"@) && !seq_contains(url, "anime-pictures.net"@) && seq_contains(url, "artstation.com"@) ==> (sauce_name(url) == "ArtStation"@)
            &&& !seq_contains(url, "gelbooru"@) && !seq_contains(url, "danbooru"@) && !seq_contains(url, "yande.re"@) && !seq_contains(url, "konachan."@) && !seq_contains(url, "deviantart"@) && !seq_contains(url, "twitter.com"@) && !seq_contains(url, "pixiv"@) && !seq_contains(url, "anime-pictures.net"@) && !seq_contains(url, "artstation.com"@) && seq_contains(url, "tumblr.com"@) ==> (sauce_name(url) == "Tumblr"@)
            &&& !seq_contains(url, "gelbooru"@) && !seq_contains(url, "danbooru"@) && !seq_contains(url, "yande.re"@) && !seq_contains(url, "konachan."@) && !seq_contains(url, "deviantart"@) && !seq_contains(url, "twitter.com"@) && !seq_contains(url, "pixiv"@) && !seq_contains(url, "anime-pictures.net"@) && !seq_contains(url, "artstation.com"@) && !seq_contains(url, "tumblr.com"@) && seq_contains(url, "https:://x.com"@) ==> (sauce_name(url) == "Twitter"@)
            &&& !seq_contains(url, "gelbooru"@) && !seq_contains(url, "danbooru"@) && !seq_contains(url, "yande.re"@) && !seq_contains(url, "konachan."@) && !seq_contains(url, "deviantart"@) && !seq_contains(url, "twitter.com"@) && !seq_contains(url, "pixiv"@) && !seq_contains(url, "anime-pictures.net"@) && !seq_contains(url, "artstation.com"@) && !seq_contains(url, "tumblr.com"@) && !seq_contains(url, "https:://x.com"@) && seq_contains(url, "instagram.com"@) ==> (sauce_name(url) == "Instagram"@)
            &&& !seq_contains(url, "gelbooru"@) && !seq_contains(url, "danbooru"@) && !seq_contains(url, "yande.re"@) && !seq_contains(url, "konachan."@) && !seq_contains(url, "deviantart"@) && !seq_contains(url, "twitter.com"@) && !seq_contains(url, "pixiv"@) && !seq_contains(url, "anime-pictures.net"@) && !seq_contains(url, "artstation.com"@) && !seq_contains(url, "tumblr.com"@) && !seq_contains(url, "https:://x.com"@) && !seq_contains(url, "instagram.com"@) && seq_contains(url, "misskey"@) ==> (sauce_name(url) == "Misskey"@)
            &&& !seq_contains(url, "gelbooru"@) && !seq_contains(url, "danbooru"@) && !seq_contains(url, "yande.re"@) && !seq_contains(url, "konachan."@) && !seq_contains(url, "deviantart"@) && !seq_contains(url, "twitter.com"@) && !seq_contains(url, "pixiv"@) && !seq_contains(url, "anime-pictures.net"@) && !seq_contains(url, "artstation.com"@) && !seq_contains(url, "tumblr.com"@) && !seq_contains(url, "https:://x.com"@) && !seq_contains(url, "instagram.com"@) && !seq_contains(url, "misskey"@) && seq_contains(url, "bsky"@) ==> (sauce_name(url) == "Bluesky"@)
            &&& !seq_contains(url, "gelbooru"@) && !seq_contains(url, "danbooru"@) && !seq_contains(url, "yande.re"@) && !seq_contains(url, "konachan."@) && !seq_contains(url, "deviantart"@) && !seq_contains(url, "twitter.com"@) && !seq_contains(url, "pixiv"@) && !seq_contains(url, "anime-pictures.net"@) && !seq_contains(url, "artstation.com"@) && !seq_contains(url, "tumblr.com"@) && !seq_contains(url, "https:://x.com"@) && !seq_contains(url, "instagram.com"@) && !seq_contains(url, "misskey"@) && !seq_contains(url, "bsky"@) ==> sauce_name(url) == ""@
        },
{
    reveal_with_fuel(name_from, 15);
}

/// Each source followed by `delim`, written as the Markdown link
/// `[name](url)`, one after the other.
pub open spec fn links_each_followed(sauces: Seq<(Seq<char>, Seq<char>)>, delim: Seq<char>) -> Seq<char>
    decreases sauces.len(),
{
    if sauces.len() == 0 {
        seq![]
    } else {
        "["@ + sauces[0].0 + "]("@ + sauces[0].1 + ")"@ + delim + links_each_followed(sauces.drop_first(), delim)
    }
}

/// `items`, each followed by `delim`, one after the other.
pub open spec fn each_followed(items: Seq<Seq<char>>, delim: Seq<char>) -> Seq<char>
    decreases items.len(),
{
    if items.len() == 0 {
        seq![]
    } else {
        items[0] + delim + each_followed(items.drop_first(), delim)
    }
}

proof fn lemma_each_followed_push(items: Seq<Seq<char>>, x: Seq<char>, delim: Seq<char>)
    ensures
        each_followed(items.push(x), delim) == each_followed(items, delim) + x + delim,
    decreases items.len(),
{
    if items.len() == 0 {
        let t = items.push(x);
        assert(t.drop_first() =~= Seq::<Seq<char>>::empty());
        assert(each_followed(t.drop_first(), delim) =~= Seq::<char>::empty());
        assert(t[0] == x);
        assert(each_followed(t, delim) =~= x + delim);
        assert(each_followed(items, delim) =~= Seq::<char>::empty());
    } else {
        assert(items.push(x).drop_first() =~= items.drop_first().push(x));
        lemma_each_followed_push(items.drop_first(), x, delim);
        assert(items.push(x)[0] == items[0]);
        assert(each_followed(items.push(x), delim) =~= each_followed(items, delim) + x + delim);
    }
}

proof fn lemma_join_then_delim(items: Seq<Seq<char>>, delim: Seq<char>)
    requires
        items.len() >= 1,
    ensures
        join(items, delim) + delim == each_followed(items, delim),
    decreases items.len(),
{
    if items.len() == 1 {
        assert(items.drop_first() =~= Seq::<Seq<char>>::empty());
        assert(each_followed(items.drop_first(), delim) =~= Seq::<char>::empty());
        assert(each_followed(items, delim) =~= items[0] + delim);
    } else {
        let dl = items.drop_last();
        lemma_join_then_delim(dl, delim);
        lemma_each_followed_push(dl, items.last(), delim);
        assert(dl.push(items.last()) =~= items);
        assert(join(items, delim) + delim =~= each_followed(dl, delim) + items.last() + delim);
    }
}

proof fn lemma_links_each_followed(sauces: Seq<(Seq<char>, Seq<char>)>, delim: Seq<char>)
    ensures
        links_each_followed(sauces, delim) == each_followed(sauce_links(sauces), delim),
    decreases sauces.len(),
{
    if sauces.len() > 0 {
        assert(sauce_links(sauces).drop_first() =~= sauce_links(sauces.drop_first()));
        lemma_links_each_followed(sauces.drop_first(), delim);
    }
}

/// The Markdown line: with an image link, every source is written as
/// `[name](url)` followed by the user's `delim`, and `[Image](path)` closes
/// the line; without one, the same line less its final `delim` (and the
/// empty line for no sources).
pub proof fn lemma_markdown_line(sauces: Seq<(Seq<char>, Seq<char>)>, path: Seq<char>, delim: Seq<char>)
    ensures
        path.len() > 0 ==> pretty_sauces(sauces, path, delim)
            == links_each_followed(sauces, delim) + "[Image]("@ + path + ")"@,
        path.len() == 0 && sauces.len() > 0 ==> pretty_sauces(sauces, path, delim) + delim
            == links_each_followed(sauces, delim),
        path.len() == 0 && sauces.len() == 0 ==> pretty_sauces(sauces, path, delim).len() == 0,
{
    let links = sauce_links(sauces);
    lemma_links_each_followed(sauces, delim);
    if path.len() > 0 {
        let img = image_link(path);
        let items = links.push(img);
        lemma_join_then_delim(items, delim);
        lemma_each_followed_push(links, img, delim);
        let a = join(items, delim);
        let b = each_followed(links, delim) + img;
        assert(a + delim == b + delim);
        assert((a + delim).subrange(0, a.len() as int) =~= a);
        assert((b + delim).subrange(0, b.len() as int) =~= b);
        assert(a =~= b);
        assert(b =~= links_each_followed(sauces, delim) + "[Image]("@ + path + ")"@);
    } else if sauces.len() > 0 {
        lemma_join_then_delim(links, delim);
    }
}

/// The number of strings among `items`.
pub open spec fn count_strs(items: Seq<JsonValue>) -> nat
    decreases items.len(),
{
    if items.len() == 0 {
        0
    } else {
        (if items[0] is Str { 1nat } else { 0nat }) + count_strs(items.drop_first())
    }
}

proof fn lemma_count_strs_push(items: Seq<JsonValue>, x: JsonValue)
    ensures
        count_strs(items.push(x)) == count_strs(items) + if x is Str { 1nat } else { 0nat },
    decreases items.len(),
{
    let t = items.push(x);
    if items.len() > 0 {
        assert(t.drop_first() =~= items.drop_first().push(x));
        assert(t[0] == items[0]);
        lemma_count_strs_push(items.drop_first(), x);
    } else {
        assert(t.drop_first() =~= Seq::<JsonValue>::empty());
        assert(count_strs(t.drop_first()) == 0);
        assert(t[0] == x);
    }
}

/// The links drawn from an array hold every string item of it, and only
/// those, one link per string item.
pub proof fn lemma_str_items_complete(items: Seq<JsonValue>)
    ensures
        str_items(items).len() == count_strs(items),
        forall|i: int| 0 <= i < items.len() ==> (#[trigger] items[i] matches JsonValue::Str(s) ==> str_items(items).contains(s@)),
        forall|k: int| #![trigger str_items(items)[k]] 0 <= k < str_items(items).len() ==> exists|i: int|
            0 <= i < items.len() && json_str(Some(#[trigger] items[i])) == Some(str_items(items)[k]),
    decreases items.len(),
{
    if items.len() > 0 {
        let d = items.drop_last();
        lemma_str_items_complete(d);
        lemma_count_strs_push(d, items.last());
        assert(d.push(items.last()) =~= items);
        let prev = str_items(d);
        let cur = str_items(items);
        assert forall|i: int| 0 <= i < items.len() implies (#[trigger] items[i] matches JsonValue::Str(s) ==> cur.contains(s@)) by {
            if let JsonValue::Str(s) = items[i] {
                if i < d.len() {
                    assert(items[i] == d[i]);
                    let k = choose|k: int| 0 <= k < prev.len() && prev[k] == s@;
                    assert(cur[k] == prev[k]);
                } else {
                    assert(cur[prev.len() as int] == s@);
                }
            }
        }
        assert forall|k: int| #![trigger cur[k]] 0 <= k < cur.len() implies exists|i: int|
            0 <= i < items.len() && json_str(Some(#[trigger] items[i])) == Some(cur[k]) by {
            if k < prev.len() {
                let i = choose|i: int| 0 <= i < d.len() && json_str(Some(#[trigger] d[i])) == Some(prev[k]);
                assert(items[i] == d[i]);
                assert(cur[k] == prev[k]);
            } else {
                assert(json_str(Some(items[items.len() - 1])) == Some(cur[k]));
            }
        }
    }
}

/// The links of all entries hold the links of each entry.
proof fn lemma_entries_urls_contain(entries: Seq<JsonValue>, e: int, s: Seq<char>)
    requires
        0 <= e < entries.len(),
        entry_urls(entries[e]).contains(s),
    ensures
        entries_urls(entries).contains(s),
    decreases entries.len(),
{
    let d = entries.drop_last();
    let x = entry_urls(entries.last());
    if e < d.len() {
        assert(entries[e] == d[e]);
        lemma_entries_urls_contain(d, e, s);
        let k = choose|k: int| 0 <= k < entries_urls(d).len() && entries_urls(d)[k] == s;
        assert((entries_urls(d) + x)[k] == s);
    } else {
        let k = choose|k: int| 0 <= k < x.len() && x[k] == s;
        assert((entries_urls(d) + x)[entries_urls(d).len() + k] == s);
    }
}

/// Every link of the answer lands in the kept sources or in the skipped
/// links.
proof fn lemma_answer_link_sorted(results: JsonValue, s: Seq<char>)
    requires
        answer_urls(results).contains(s),
    ensures
        kept_urls(sort_urls(answer_urls(results)).0).contains(s) || sort_urls(answer_urls(results)).1.contains(s),
{
    broadcast use vstd::seq_lib::group_to_multiset_ensures;
    let urls = answer_urls(results);
    lemma_sorting_keeps_every_link(urls);
    let a = kept_urls(sort_urls(urls).0);
    let b = sort_urls(urls).1;
    assert(urls.to_multiset().count(s) > 0);
    assert(a.to_multiset().add(b.to_multiset()).count(s) == a.to_multiset().count(s) + b.to_multiset().count(s));
    if a.to_multiset().count(s) == 0 {
        assert(b.to_multiset().count(s) > 0);
    }
}

/// Every string of an entry's `ext_urls` array, wherever it stands and
/// however long the array, is sorted: it lands among the kept sources or
/// the skipped links.
pub proof fn lemma_every_ext_url_sorted(results: JsonValue, entries: Seq<JsonValue>, e: int, items: Seq<JsonValue>, i: int, s: Seq<char>)
    requires
        json_array(Some(results)) == Some(entries),
        0 <= e < entries.len(),
        json_array(json_get(entries[e], "ext_urls"@)) == Some(items),
        0 <= i < items.len(),
        json_str(Some(items[i])) == Some(s),
    ensures
        kept_urls(sort_urls(answer_urls(results)).0).contains(s) || sort_urls(answer_urls(results)).1.contains(s),
{
    lemma_str_items_complete(items);
    assert(items[i] matches JsonValue::Str(t) && t@ == s);
    let ext = str_items(items);
    let k = choose|k: int| 0 <= k < ext.len() && ext[k] == s;
    let all = entry_urls(entries[e]);
    assert(all[k] == s);
    lemma_entries_urls_contain(entries, e, s);
    lemma_answer_link_sorted(results, s);
}

/// The `source` of an entry that does not come from Sankaku Channel, when it
/// is a string, is sorted: it lands among the kept sources or the skipped
/// links.
pub proof fn lemma_source_sorted(results: JsonValue, entries: Seq<JsonValue>, e: int, s: Seq<char>)
    requires
        json_array(Some(results)) == Some(entries),
        0 <= e < entries.len(),
        !is_sankaku(entries[e]),
        json_str(json_get2(entries[e], "additional_fields"@, "source"@)) == Some(s),
    ensures
        kept_urls(sort_urls(answer_urls(results)).0).contains(s) || sort_urls(answer_urls(results)).1.contains(s),
{
    let all = entry_urls(entries[e]);
    assert(all[all.len() - 1] == s);
    lemma_entries_urls_contain(entries, e, s);
    lemma_answer_link_sorted(results, s);
}

} // verus!
