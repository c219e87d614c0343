use upsauce::json::JsonValue;
use upsauce::sauce::{get_pretty_sauces, get_sauce_name, get_sauces, get_sauces_from_reply, Sauce};

fn s(x: &str) -> JsonValue {
    JsonValue::Str(x.to_string())
}

fn obj(fields: Vec<(&str, JsonValue)>) -> JsonValue {
    JsonValue::Object(fields.into_iter().map(|(k, v)| (k.to_string(), v)).collect())
}

fn entry(ext_urls: Vec<&str>, site: &str, source: Option<&str>) -> JsonValue {
    let additional = match source {
        Some(u) => obj(vec![("source", s(u))]),
        None => JsonValue::Null,
    };
    obj(vec![
        ("ext_urls", JsonValue::Array(ext_urls.into_iter().map(s).collect())),
        ("site", s(site)),
        ("additional_fields", additional),
    ])
}

fn sauce(name: &str, url: &str) -> Sauce {
    Sauce { name: name.to_string(), url: url.to_string() }
}

fn names_urls(v: &[Sauce]) -> Vec<(String, String)> {
    v.iter().map(|x| (x.name.clone(), x.url.clone())).collect()
}

#[test]
fn sauce_name_of_known_sites() {
    assert_eq!(get_sauce_name("https://gelbooru.com/index.php?page=post&s=view&id=3561216"), "Gelbooru");
    assert_eq!(get_sauce_name("https://danbooru.donmai.us/post/show/2631423"), "Danbooru");
    assert_eq!(get_sauce_name("https://www.pixiv.net/member_illust.php?mode=medium&illust_id=61477678"), "Pixiv");
    assert_eq!(get_sauce_name("https://twitter.com/i/web/status/837653407900934145"), "Twitter");
    assert_eq!(get_sauce_name("https://yande.re/post/show/1"), "yande.re");
    assert_eq!(get_sauce_name("https://konachan.com/post/show/1"), "Konachan");
    assert_eq!(get_sauce_name("https://www.deviantart.com/x"), "DeviantArt");
    assert_eq!(get_sauce_name("https://anime-pictures.net/posts/1"), "anime-pictures.net");
    assert_eq!(get_sauce_name("https://www.artstation.com/artwork/1"), "ArtStation");
    assert_eq!(get_sauce_name("https://someone.tumblr.com/post/1"), "Tumblr");
    assert_eq!(get_sauce_name("https://www.instagram.com/p/1"), "Instagram");
    assert_eq!(get_sauce_name("https://misskey.io/notes/1"), "Misskey");
    assert_eq!(get_sauce_name("https://bsky.app/profile/a"), "Bluesky");
}

#[test]
fn sauce_name_of_empty_or_unknown_link() {
    assert_eq!(get_sauce_name(""), "");
    assert_eq!(get_sauce_name("https://chan.sankakucomplex.com/post/show/5874087"), "");
    // The table's x.com keyword is written with two colons, so x.com links are unknown.
    assert_eq!(get_sauce_name("https://x.com/user/status/1"), "");
    assert_eq!(get_sauce_name("https:://x.com/user"), "Twitter");
    // "konachan." needs its dot.
    assert_eq!(get_sauce_name("konachan"), "");
}

#[test]
fn sauce_name_first_listed_site_wins() {
    // Both gelbooru and danbooru occur: gelbooru comes first in the table.
    assert_eq!(get_sauce_name("https://danbooru.example/gelbooru"), "Gelbooru");
    assert_eq!(get_sauce_name("https://pixiv.net/?from=twitter.com"), "Twitter");
}

#[test]
fn get_sauces_keeps_first_link_per_site() {
    let answer = JsonValue::Array(vec![
        entry(vec!["https://www.pixiv.net/a", "https://twitter.com/b"], "Pixiv", None),
        entry(vec!["https://danbooru.donmai.us/c"], "Danbooru", Some("https://www.pixiv.net/d")),
        entry(vec!["https://chan.sankakucomplex.com/e"], "Sankaku Channel", Some("https://twitter.com/f")),
        entry(vec!["https://gelbooru.com/g"], "Gelbooru", Some("https://i.example/h")),
    ]);
    let (sauces, skipped) = get_sauces(&answer);
    assert_eq!(
        names_urls(&sauces),
        vec![
            ("Pixiv".to_string(), "https://www.pixiv.net/a".to_string()),
            ("Twitter".to_string(), "https://twitter.com/b".to_string()),
            ("Danbooru".to_string(), "https://danbooru.donmai.us/c".to_string()),
            ("Gelbooru".to_string(), "https://gelbooru.com/g".to_string()),
        ]
    );
    assert_eq!(
        skipped,
        vec![
            "https://www.pixiv.net/d".to_string(),
            "https://chan.sankakucomplex.com/e".to_string(),
            "https://i.example/h".to_string(),
        ]
    );
}

#[test]
fn get_sauces_every_link_lands_once_and_names_are_distinct() {
    let answer = JsonValue::Array(vec![
        entry(vec!["https://twitter.com/1", "https://twitter.com/2", "https://x.example/3"], "Twitter", Some("https://twitter.com/4")),
        entry(vec!["https://twitter.com/5", "https://pixiv.net/6"], "Pixiv", None),
    ]);
    let (sauces, skipped) = get_sauces(&answer);
    assert_eq!(sauces.len() + skipped.len(), 6);
    let mut names: Vec<String> = sauces.iter().map(|x| x.name.clone()).collect();
    names.sort();
    names.dedup();
    assert_eq!(names.len(), sauces.len());
    for x in &sauces {
        assert_eq!(get_sauce_name(&x.url), x.name);
    }
}

#[test]
fn get_sauces_reads_only_strings_and_arrays() {
    // Not an array: no links at all.
    let (sauces, skipped) = get_sauces(&obj(vec![("ext_urls", JsonValue::Array(vec![s("https://pixiv.net/1")]))]));
    assert!(sauces.is_empty() && skipped.is_empty());
    // Non-string items of ext_urls and a non-string source are passed over.
    let odd = obj(vec![
        ("ext_urls", JsonValue::Array(vec![JsonValue::Number("1".to_string()), s("https://pixiv.net/1"), JsonValue::Null])),
        ("additional_fields", obj(vec![("source", JsonValue::Bool(true))])),
    ]);
    let (sauces, skipped) = get_sauces(&JsonValue::Array(vec![odd, JsonValue::Null]));
    assert_eq!(names_urls(&sauces), vec![("Pixiv".to_string(), "https://pixiv.net/1".to_string())]);
    assert!(skipped.is_empty());
    // A missing site is no Sankaku site: its source is read.
    let no_site = obj(vec![("additional_fields", obj(vec![("source", s("https://twitter.com/9"))]))]);
    let (sauces, _) = get_sauces(&JsonValue::Array(vec![no_site]));
    assert_eq!(names_urls(&sauces), vec![("Twitter".to_string(), "https://twitter.com/9".to_string())]);
}

#[test]
fn pretty_sauces_split_by_delimiter() {
    let sauces = vec![sauce("Pixiv", "https://p/1"), sauce("Twitter", "https://t/2")];
    assert_eq!(get_pretty_sauces(&sauces, "", " | "), "[Pixiv](https://p/1) | [Twitter](https://t/2)");
    assert_eq!(
        get_pretty_sauces(&sauces, "https://put.icu/x.jpeg", " | "),
        "[Pixiv](https://p/1) | [Twitter](https://t/2) | [Image](https://put.icu/x.jpeg)"
    );
    assert_eq!(get_pretty_sauces(&sauces, "", " / "), "[Pixiv](https://p/1) / [Twitter](https://t/2)");
}

#[test]
fn pretty_sauces_edge_cases() {
    assert_eq!(get_pretty_sauces(&vec![], "", " | "), "");
    assert_eq!(get_pretty_sauces(&vec![], "https://f/i.png", " | "), "[Image](https://f/i.png)");
    assert_eq!(get_pretty_sauces(&vec![sauce("Pixiv", "u")], "", " | "), "[Pixiv](u)");
    assert_eq!(get_pretty_sauces(&vec![sauce("A", "u"), sauce("B", "v")], "", ""), "[A](u)[B](v)");
}

#[test]
fn readme_example_markdown_line() {
    let answer = JsonValue::Array(vec![
        entry(
            vec!["https://www.pixiv.net/member_illust.php?mode=medium&illust_id=61477678"],
            "Pixiv",
            None,
        ),
        entry(
            vec![
                "https://danbooru.donmai.us/post/show/2631423",
                "https://gelbooru.com/index.php?page=post&s=view&id=3561216",
                "https://chan.sankakucomplex.com/post/show/5874087",
            ],
            "Danbooru",
            Some("https://twitter.com/i/web/status/837653407900934145"),
        ),
    ]);
    let (sauces, skipped) = get_sauces(&answer);
    assert_eq!(
        get_pretty_sauces(&sauces, "https://put.icu/x2zj493c.jpeg", " | "),
        "[Pixiv](https://www.pixiv.net/member_illust.php?mode=medium&illust_id=61477678) | \
         [Danbooru](https://danbooru.donmai.us/post/show/2631423) | \
         [Gelbooru](https://gelbooru.com/index.php?page=post&s=view&id=3561216) | \
         [Twitter](https://twitter.com/i/web/status/837653407900934145) | \
         [Image](https://put.icu/x2zj493c.jpeg)"
    );
    assert_eq!(skipped, vec!["https://chan.sankakucomplex.com/post/show/5874087".to_string()]);
}

#[test]
fn sauces_from_reply_text() {
    let reply = r#"[{"ext_urls":["https://www.pixiv.net/a","https://www.pixiv.net/b"],"site":"Pixiv","additional_fields":null},
                    {"ext_urls":[],"site":"Sankaku Channel","additional_fields":{"source":"https://twitter.com/c"}},
                    {"ext_urls":["https://danbooru.donmai.us/d"],"site":"Danbooru","additional_fields":{"source":"https://twitter.com/e"}}]"#;
    let (sauces, skipped) = get_sauces_from_reply(reply).unwrap();
    assert_eq!(
        names_urls(&sauces),
        vec![
            ("Pixiv".to_string(), "https://www.pixiv.net/a".to_string()),
            ("Danbooru".to_string(), "https://danbooru.donmai.us/d".to_string()),
            ("Twitter".to_string(), "https://twitter.com/e".to_string()),
        ]
    );
    assert_eq!(skipped, vec!["https://www.pixiv.net/b".to_string()]);
    assert!(get_sauces_from_reply("not json").is_none());
    let (sauces, skipped) = get_sauces_from_reply("{}").unwrap();
    assert!(sauces.is_empty() && skipped.is_empty());
}
