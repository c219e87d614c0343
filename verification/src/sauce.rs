//! Sources of an image: which site a link belongs to, which links of a
//! SauceNAO answer are kept (one per site, first come first kept), and the
//! Markdown line that lists them.

use vstd::prelude::*;
use vstd::string::*;
use crate::json::{JsonValue, json_get, json_get2, json_array, json_str, parse_json, parsed_json};
use crate::text::{seq_contains, str_contains, str_is_empty};

verus! {

/// A known source of an image: the site's display name and the link.
pub struct Sauce {
    pub name: String,
    pub url: String,
}

/// The sites that are recognised, in the order in which they are tried:
/// a keyword to look for in a link, and the name to show for it.
pub open spec fn sources() -> Seq<(Seq<char>, Seq<char>)> {
    seq![
        ("gelbooru"@, "Gelbooru"@),
        ("danbooru"@, "Danbooru"@),
        ("yande.re"@, "yande.re"@),
        ("konachan."@, "Konachan"@),
        ("deviantart"@, "DeviantArt"@),
        ("twitter.com"@, "Twitter"@),
        ("pixiv"@, "Pixiv"@),
        ("anime-pictures.net"@, "anime-pictures.net"@),
        ("artstation.com"@, "ArtStation"@),
        ("tumblr.com"@, "Tumblr"@),
        ("https:://x.com"@, "Twitter"@),
        ("instagram.com"@, "Instagram"@),
        ("misskey"@, "Misskey"@),
        ("bsky"@, "Bluesky"@),
    ]
}

/// The name of the first site, from the `i`-th on, whose keyword occurs in
/// `url`; the empty name when there is none.
pub open spec fn name_from(url: Seq<char>, i: nat) -> Seq<char>
    decreases sources().len() - i,
{
    if i >= sources().len() {
        ""@
    } else if seq_contains(url, sources()[i as int].0) {
        sources()[i as int].1
    } else {
        name_from(url, i + 1)
    }
}

/// The site name of a link: empty for an empty link or an unknown site.
pub open spec fn sauce_name(url: Seq<char>) -> Seq<char> {
    if url.len() == 0 {
        ""@
    } else {
        name_from(url, 0)
    }
}

/// Returns the display name of the site that `source_url` belongs to, or
/// the empty string when the site is unknown or the link is empty.
pub fn get_sauce_name(source_url: &str) -> (name: &'static str)
    ensures
        name@ == sauce_name(source_url@),
{
    if str_is_empty(source_url) {
        return "";
    }
    proof {
        reveal_with_fuel(name_from, 15);
    }
    if str_contains(source_url, "gelbooru") {
        "Gelbooru"
    } else if str_contains(source_url, "danbooru") {
        "Danbooru"
    } else if str_contains(source_url, "yande.re") {
        "yande.re"
    } else if str_contains(source_url, "konachan.") {
        "Konachan"
    } else if str_contains(source_url, "deviantart") {
        "DeviantArt"
    } else if str_contains(source_url, "twitter.com") {
        "Twitter"
    } else if str_contains(source_url, "pixiv") {
        "Pixiv"
    } else if str_contains(source_url, "anime-pictures.net") {
        "anime-pictures.net"
    } else if str_contains(source_url, "artstation.com") {
        "ArtStation"
    } else if str_contains(source_url, "tumblr.com") {
        "Tumblr"
    } else if str_contains(source_url, "https:://x.com") {
        "Twitter"
    } else if str_contains(source_url, "instagram.com") {
        "Instagram"
    } else if str_contains(source_url, "misskey") {
        "Misskey"
    } else if str_contains(source_url, "bsky") {
        "Bluesky"
    } else {
        ""
    }
}

/// The characters of each string.
pub open spec fn strings_view(v: Seq<String>) -> Seq<Seq<char>> {
    v.map_values(|s: String| s@)
}

/// Each source as (name, link).
pub open spec fn sauces_view(v: Seq<Sauce>) -> Seq<(Seq<char>, Seq<char>)> {
    v.map_values(|s: Sauce| (s.name@, s.url@))
}

/// The strings among `items`, in order; other values are passed over.
pub open spec fn str_items(items: Seq<JsonValue>) -> Seq<Seq<char>>
    decreases items.len(),
{
    if items.len() == 0 {
        seq![]
    } else {
        str_items(items.drop_last()) + match items.last() {
            JsonValue::Str(s) => seq![s@],
            _ => seq![],
        }
    }
}

/// Whether a result comes from Sankaku Channel, whose `source` field is
/// usually garbage: its `site` is a string that contains `"Sankaku "`.
pub open spec fn is_sankaku(entry: JsonValue) -> bool {
    match json_str(json_get(entry, "site"@)) {
        Some(site) => seq_contains(site, "Sankaku "@),
        None => false,
    }
}

/// The links that one SauceNAO result offers, in order: the strings of its
/// `ext_urls` array, then, unless it comes from Sankaku Channel, the string
/// `additional_fields.source`.
pub open spec fn entry_urls(entry: JsonValue) -> Seq<Seq<char>> {
    let ext = match json_array(json_get(entry, "ext_urls"@)) {
        Some(items) => str_items(items),
        None => seq![],
    };
    let source = if is_sankaku(entry) {
        seq![]
    } else {
        match json_str(json_get2(entry, "additional_fields"@, "source"@)) {
            Some(url) => seq![url],
            None => seq![],
        }
    };
    ext + source
}

/// The links of all `entries`, in order.
pub open spec fn entries_urls(entries: Seq<JsonValue>) -> Seq<Seq<char>>
    decreases entries.len(),
{
    if entries.len() == 0 {
        seq![]
    } else {
        entries_urls(entries.drop_last()) + entry_urls(entries.last())
    }
}

/// The links of a SauceNAO answer: none when it is not an array.
pub open spec fn answer_urls(results: JsonValue) -> Seq<Seq<char>> {
    match json_array(Some(results)) {
        Some(entries) => entries_urls(entries),
        None => seq![],
    }
}

/// Sorting `urls` in turn: (sources kept, links skipped, the names of the
/// kept sources written one after the other). A link is skipped when its
/// site is unknown or its name already occurs among the kept names.
pub open spec fn sort_urls(urls: Seq<Seq<char>>) -> (Seq<(Seq<char>, Seq<char>)>, Seq<Seq<char>>, Seq<char>)
    decreases urls.len(),
{
    if urls.len() == 0 {
        (seq![], seq![], seq![])
    } else {
        let prev = sort_urls(urls.drop_last());
        let url = urls.last();
        let name = sauce_name(url);
        if name.len() == 0 || seq_contains(prev.2, name) {
            (prev.0, prev.1.push(url), prev.2)
        } else {
            (prev.0.push((name, url)), prev.1, prev.2 + name)
        }
    }
}

/// Appends the strings among `items` to `out`.
fn push_str_items(items: &Vec<JsonValue>, out: &mut Vec<String>)
    ensures
        strings_view(final(out)@) == strings_view(old(out)@) + str_items(items@),
{
    let n = items.len();
    let ghost start = strings_view(out@);
    let mut i: usize = 0;
    while i < n
        invariant
            n == items@.len(),
            i <= n,
            strings_view(out@) == start + str_items(items@.take(i as int)),
        decreases n - i,
    {
        assert(items@.take(i + 1).drop_last() =~= items@.take(i as int));
        let ghost before = out@;
        assert(items@.take(i + 1).last() == items@[i as int]);
        if let Some(s) = items[i].as_str() {
            let owned = String::from_str(s);
            out.push(owned);
            assert(strings_view(out@) =~= strings_view(before).push(owned@));
        } else {
            assert(str_items(items@.take(i + 1)) =~= str_items(items@.take(i as int)));
        }
        assert(strings_view(out@) =~= start + str_items(items@.take(i + 1)));
        i = i + 1;
    }
    assert(items@.take(n as int) =~= items@);
}

/// Appends the links that one SauceNAO result offers to `out`.
fn push_entry_urls(entry: &JsonValue, out: &mut Vec<String>)
    ensures
        strings_view(final(out)@) == strings_view(old(out)@) + entry_urls(*entry),
{
    let ghost start = strings_view(out@);
    let ghost ext = match json_array(json_get(*entry, "ext_urls"@)) {
        Some(items) => str_items(items),
        None => seq![],
    };
    let ghost source = if is_sankaku(*entry) {
        seq![]
    } else {
        match json_str(json_get2(*entry, "additional_fields"@, "source"@)) {
            Some(url) => seq![url],
            None => seq![],
        }
    };
    if let Some(urls_value) = entry.get("ext_urls") {
        if let Some(items) = urls_value.as_array() {
            push_str_items(items, out);
        } else {
            assert(ext =~= seq![]);
        }
    } else {
        assert(ext =~= seq![]);
    }
    assert(strings_view(out@) =~= start + ext);
    let ghost mid = strings_view(out@);
    let sankaku = match entry.get("site") {
        Some(site_value) => match site_value.as_str() {
            Some(site) => str_contains(site, "Sankaku "),
            None => false,
        },
        None => false,
    };
    assert(sankaku == is_sankaku(*entry));
    if !sankaku {
        let mut found = false;
        if let Some(fields) = entry.get("additional_fields") {
            if let Some(source_value) = fields.get("source") {
                if let Some(url) = source_value.as_str() {
                    let owned = String::from_str(url);
                    out.push(owned);
                    found = true;
                    assert(source =~= seq![owned@]);
                    assert(strings_view(out@) =~= mid.push(owned@));
                }
            }
        }
        if !found {
            assert(source =~= seq![]);
            assert(strings_view(out@) =~= mid);
        }
    } else {
        assert(source =~= seq![]);
    }
    assert(strings_view(out@) =~= mid + source);
    assert(entry_urls(*entry) == ext + source);
}

/// The links of a SauceNAO answer, in the order in which they are sorted.
pub fn answer_links(results: &JsonValue) -> (urls: Vec<String>)
    ensures
        strings_view(urls@) == answer_urls(*results),
{
    let mut out: Vec<String> = Vec::new();
    if let Some(entries) = results.as_array() {
        let n = entries.len();
        let mut i: usize = 0;
        while i < n
            invariant
                n == entries@.len(),
                i <= n,
                strings_view(out@) == entries_urls(entries@.take(i as int)),
            decreases n - i,
        {
            assert(entries@.take(i + 1).drop_last() =~= entries@.take(i as int));
            push_entry_urls(&entries[i], &mut out);
            i = i + 1;
        }
        assert(entries@.take(n as int) =~= entries@);
    }
    out
}

/// Sorts links into known sources (one per site, the first link of a site
/// being kept) and skipped links.
pub fn sort_links(urls: &Vec<String>) -> (r: (Vec<Sauce>, Vec<String>))
    ensures
        sauces_view(r.0@) == sort_urls(strings_view(urls@)).0,
        strings_view(r.1@) == sort_urls(strings_view(urls@)).1,
{
    let ghost all = strings_view(urls@);
    let mut sauces: Vec<Sauce> = Vec::new();
    let mut skipped: Vec<String> = Vec::new();
    let mut seen = String::new();
    let n = urls.len();
    let mut i: usize = 0;
    while i < n
        invariant
            n == urls@.len(),
            all == strings_view(urls@),
            i <= n,
            sauces_view(sauces@) == sort_urls(all.take(i as int)).0,
            strings_view(skipped@) == sort_urls(all.take(i as int)).1,
            seen@ == sort_urls(all.take(i as int)).2,
        decreases n - i,
    {
        assert(all.take(i + 1).drop_last() =~= all.take(i as int));
        let url = urls[i].as_str();
        let name = get_sauce_name(url);
        if str_is_empty(name) || str_contains(seen.as_str(), name) {
            skipped.push(String::from_str(url));
        } else {
            sauces.push(Sauce { name: String::from_str(name), url: String::from_str(url) });
            seen.append(name);
        }
        assert(sauces_view(sauces@) =~= sort_urls(all.take(i + 1)).0);
        assert(strings_view(skipped@) =~= sort_urls(all.take(i + 1)).1);
        i = i + 1;
    }
    assert(all.take(n as int) =~= all);
    (sauces, skipped)
}

/// Returns the known sources of a SauceNAO answer (pixiv, gelbooru...), at
/// most one per site, and the links that were skipped: those of unknown or
/// garbage sites (sankaku, nico...) and further links to a site already
/// listed. `results` is the answer as JSON: an array of results.
pub fn get_sauces(results: &JsonValue) -> (r: (Vec<Sauce>, Vec<String>))
    ensures
        sauces_view(r.0@) == sort_urls(answer_urls(*results)).0,
        strings_view(r.1@) == sort_urls(answer_urls(*results)).1,
{
    let urls = answer_links(results);
    sort_links(&urls)
}

/// Reads SauceNAO's answer as text and returns its known sources and
/// skipped links as `get_sauces` does; `None` when the answer is not JSON.
pub fn get_sauces_from_reply(reply: &str) -> (r: Option<(Vec<Sauce>, Vec<String>)>)
    ensures
        r is None <==> parsed_json(reply@) is Err,
        r matches Some(p) ==> (parsed_json(reply@) matches Ok(j)
            && sauces_view(p.0@) == sort_urls(answer_urls(j)).0
            && strings_view(p.1@) == sort_urls(answer_urls(j)).1),
{
    match parse_json(reply) {
        Ok(j) => Some(get_sauces(&j)),
        Err(_) => None,
    }
}

/// The Markdown link of a source: `[name](url)`.
pub open spec fn sauce_link(name: Seq<char>, url: Seq<char>) -> Seq<char> {
    "["@ + name + "]("@ + url + ")"@
}

/// The Markdown link to the uploaded image: `[Image](path)`.
pub open spec fn image_link(path: Seq<char>) -> Seq<char> {
    "[Image]("@ + path + ")"@
}

/// `items` written one after the other with `delim` between each two.
pub open spec fn join(items: Seq<Seq<char>>, delim: Seq<char>) -> Seq<char>
    decreases items.len(),
{
    if items.len() == 0 {
        seq![]
    } else if items.len() == 1 {
        items[0]
    } else {
        join(items.drop_last(), delim) + delim + items.last()
    }
}

/// The links of `sauces`, in order.
pub open spec fn sauce_links(sauces: Seq<(Seq<char>, Seq<char>)>) -> Seq<Seq<char>> {
    sauces.map_values(|s: (Seq<char>, Seq<char>)| sauce_link(s.0, s.1))
}

/// The Markdown line of `sauces` split by `delim`, followed by the link to
/// the uploaded image when `image_fss_path` is not empty.
pub open spec fn pretty_sauces(sauces: Seq<(Seq<char>, Seq<char>)>, image_fss_path: Seq<char>, delim: Seq<char>) -> Seq<char> {
    if image_fss_path.len() == 0 {
        join(sauce_links(sauces), delim)
    } else {
        join(sauce_links(sauces).push(image_link(image_fss_path)), delim)
    }
}

/// Appends `delim` (unless `first`) and then `item` to `out`.
fn append_item(out: &mut String, first: bool, delim: &str, item: &str)
    ensures
        final(out)@ == if first { old(out)@ + item@ } else { old(out)@ + delim@ + item@ },
{
    if !first {
        out.append(delim);
    }
    out.append(item);
}

/// The Markdown link of one source.
fn link_of(name: &str, url: &str) -> (r: String)
    ensures
        r@ == sauce_link(name@, url@),
{
    let mut s = String::from_str("[");
    s.append(name);
    s.append("](");
    s.append(url);
    s.append(")");
    s
}

/// Returns the Markdown line of the sources split by `delim`:
/// `[sauce1](http..) | [sauce2](http..) | [sauce3](http..)`, followed,
/// after one more `delim`, by `[Image](image_fss_path)` when
/// `image_fss_path` is not empty.
pub fn get_pretty_sauces(sauces: &Vec<Sauce>, image_fss_path: &str, delim: &str) -> (md: String)
    ensures
        md@ == pretty_sauces(sauces_view(sauces@), image_fss_path@, delim@),
{
    let ghost links = sauce_links(sauces_view(sauces@));
    let mut md = String::new();
    let n = sauces.len();
    let mut i: usize = 0;
    while i < n
        invariant
            n == sauces@.len(),
            links == sauce_links(sauces_view(sauces@)),
            i <= n,
            md@ == join(links.take(i as int), delim@),
        decreases n - i,
    {
        assert(links.take(i + 1).drop_last() =~= links.take(i as int));
        let link = link_of(sauces[i].name.as_str(), sauces[i].url.as_str());
        assert(links[i as int] == link@);
        append_item(&mut md, i == 0, delim, link.as_str());
        assert(md@ =~= join(links.take(i + 1), delim@));
        i = i + 1;
    }
    assert(links.take(n as int) =~= links);
    if !str_is_empty(image_fss_path) {
        let mut image = String::from_str("[Image](");
        image.append(image_fss_path);
        image.append(")");
        let ghost all = links.push(image@);
        assert(all.drop_last() =~= links);
        append_item(&mut md, n == 0, delim, image.as_str());
        assert(md@ =~= join(all, delim@));
    }
    md
}

} // verus!
