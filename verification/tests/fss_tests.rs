use upsauce::config::{default_delimiter, Config};
use upsauce::fss::{
    catbox_upload_args, catbox_upload_result, image_name_from_path, image_name_from_url, is_image_content_type,
    is_image_link, linx_upload_url, DownloadError, LinxField, LinxReplyError, LinxResponse,
};
use upsauce::json::JsonValue;
use upsauce::linx::{
    delete_args, delete_result, download_args, is_yes_answer, trim_white_space, upload_args, upload_fields,
    upload_from_output,
};

fn obj(fields: Vec<(&str, JsonValue)>) -> JsonValue {
    JsonValue::Object(fields.into_iter().map(|(k, v)| (k.to_string(), v)).collect())
}

fn s(x: &str) -> JsonValue {
    JsonValue::Str(x.to_string())
}

#[test]
fn image_name_is_last_path_segment() {
    assert_eq!(image_name_from_url("https://i.imgur.com/W42kkKS.jpg"), Ok("W42kkKS.jpg".to_string()));
    assert_eq!(image_name_from_url("https://example.com/a/b/c.png?x=1"), Ok("c.png".to_string()));
    assert_eq!(image_name_from_url("https://example.com"), Ok("".to_string()));
    assert_eq!(image_name_from_url("https://example.com/dir/"), Ok("".to_string()));
    assert_eq!(
        image_name_from_url("https://example.com/countries/việt nam"),
        Ok("vi%E1%BB%87t%20nam".to_string())
    );
}

#[test]
fn image_name_errors() {
    assert_eq!(image_name_from_url("not a url"), Err(DownloadError::InvalidUrl));
    assert_eq!(image_name_from_url(""), Err(DownloadError::InvalidUrl));
    assert_eq!(image_name_from_url("data:text/plain,HelloWorld"), Err(DownloadError::NoPathSegments));
}

#[test]
fn image_name_from_path_splits_at_slashes() {
    assert_eq!(image_name_from_path("/a/b.png"), Ok("b.png".to_string()));
    assert_eq!(image_name_from_path("/"), Ok("".to_string()));
    assert_eq!(image_name_from_path("/only"), Ok("only".to_string()));
    assert_eq!(image_name_from_path("text/plain,x"), Err(DownloadError::NoPathSegments));
    assert_eq!(image_name_from_path(""), Err(DownloadError::NoPathSegments));
}

#[test]
fn content_type_and_links() {
    assert!(is_image_content_type("image/jpeg"));
    assert!(!is_image_content_type("text/html; charset=utf-8"));
    assert!(!is_image_content_type(""));
    assert!(is_image_link("https://i.imgur.com/W42kkKS.jpg"));
    assert!(!is_image_link("http://i.imgur.com/W42kkKS.jpg"));
    assert!(!is_image_link("path/to/image.jpg"));
}

#[test]
fn linx_upload_endpoint() {
    assert_eq!(linx_upload_url("https://put.icu"), "https://put.icu/upload/");
}

#[test]
fn linx_response_fields() {
    let ok = obj(vec![
        ("url", s("https://put.icu/x2zj493c.jpeg")),
        ("direct_url", s("https://put.icu/s/x2zj493c.jpeg")),
        ("delete_key", s("Ypzwq5tT81UkLUiwYuEYXQ5oPWOHaw")),
        ("size", JsonValue::Number("10".to_string())),
    ]);
    let l = LinxResponse::from_json(&ok).ok().unwrap();
    assert_eq!(l.url, "https://put.icu/x2zj493c.jpeg");
    assert_eq!(l.direct_url, "https://put.icu/s/x2zj493c.jpeg");
    assert_eq!(l.delete_key, "Ypzwq5tT81UkLUiwYuEYXQ5oPWOHaw");
    assert_eq!(
        upload_fields(&ok),
        Ok((
            "https://put.icu/s/x2zj493c.jpeg".to_string(),
            "https://put.icu/x2zj493c.jpeg".to_string(),
            "Ypzwq5tT81UkLUiwYuEYXQ5oPWOHaw".to_string()
        ))
    );
}

#[test]
fn linx_response_missing_fields() {
    let none = obj(vec![]);
    assert_eq!(LinxResponse::from_json(&none).err(), Some(LinxField::Url));
    assert_eq!(upload_fields(&none), Err("No direct_url from linx-server".to_string()));
    let only_url = obj(vec![("url", s("u"))]);
    assert_eq!(LinxResponse::from_json(&only_url).err(), Some(LinxField::DirectUrl));
    assert_eq!(upload_fields(&only_url), Err("No direct_url from linx-server".to_string()));
    let no_key = obj(vec![("url", s("u")), ("direct_url", s("d")), ("delete_key", JsonValue::Null)]);
    assert_eq!(LinxResponse::from_json(&no_key).err(), Some(LinxField::DeleteKey));
    assert_eq!(upload_fields(&no_key), Err("No delete key from linx-server".to_string()));
    let no_url = obj(vec![("direct_url", s("d"))]);
    assert_eq!(upload_fields(&no_url), Err("No url from linx".to_string()));
    assert_eq!(LinxResponse::from_json(&JsonValue::Array(vec![])).err(), Some(LinxField::Url));
}

#[test]
fn curl_command_lines() {
    assert_eq!(download_args("https://i/x.jpg"), vec!["-O".to_string(), "https://i/x.jpg".to_string()]);
    assert_eq!(
        upload_args("img.jpg", "https://put.icu"),
        vec!["-H", "Accept: application/json", "-T", "img.jpg", "https://put.icu/upload/"]
            .into_iter()
            .map(String::from)
            .collect::<Vec<_>>()
    );
    assert_eq!(
        delete_args("https://put.icu/a.jpg", "KEY"),
        vec!["-H", "Linx-Delete-Key: KEY", "-X", "DELETE", "https://put.icu/a.jpg"]
            .into_iter()
            .map(String::from)
            .collect::<Vec<_>>()
    );
    assert_eq!(
        catbox_upload_args("image.jpg", None),
        vec!["-F", "reqtype=fileupload", "-F", "fileToUpload=@image.jpg", "https://catbox.moe/user/api.php"]
            .into_iter()
            .map(String::from)
            .collect::<Vec<_>>()
    );
}

#[test]
fn catbox_result() {
    assert_eq!(catbox_upload_result("a.jpg", true, "https://files.catbox.moe/x.jpg".to_string()), Ok("https://files.catbox.moe/x.jpg".to_string()));
    assert_eq!(catbox_upload_result("a.jpg", false, "oops".to_string()), Err("Failed upload a.jpg".to_string()));
}

#[test]
fn delete_answers() {
    assert_eq!(delete_result("DELETED"), Ok(()));
    assert_eq!(delete_result("NOT FOUND"), Err("Response: \nNOT FOUND".to_string()));
    assert_eq!(delete_result("DELETED\n"), Err("Response: \nDELETED\n".to_string()));
}

#[test]
fn yes_answers() {
    assert!(is_yes_answer("y"));
    assert!(is_yes_answer("Y\n"));
    assert!(is_yes_answer("  y \r\n"));
    assert!(!is_yes_answer("yes"));
    assert!(!is_yes_answer("n"));
    assert!(!is_yes_answer(""));
}

#[test]
fn config_from_command_line() {
    assert_eq!(default_delimiter(), " | ");
    assert!(Config::from_cli("", " / ", None).is_none());
    let c = Config::from_cli("key", "", Some("https://put.icu".to_string())).unwrap();
    assert_eq!(c.api_key, "key");
    assert_eq!(c.delim, " | ");
    assert_eq!(c.linx_url, Some("https://put.icu".to_string()));
    let c = Config::from_cli("key", " / ", None).unwrap();
    assert_eq!(c.delim, " / ");
    assert_eq!(c.linx_url, None);
}

#[test]
fn catbox_args_ignore_userhash() {
    assert_eq!(catbox_upload_args("a.png", Some("0123abcd")), catbox_upload_args("a.png", None));
}

#[test]
fn linx_reply_text() {
    let reply = r#"{"url":"https://put.icu/x.jpeg","direct_url":"https://put.icu/s/x.jpeg","delete_key":"K","size":3}"#;
    let l = LinxResponse::from_reply(reply).ok().unwrap();
    assert_eq!(l.url, "https://put.icu/x.jpeg");
    assert_eq!(l.direct_url, "https://put.icu/s/x.jpeg");
    assert_eq!(l.delete_key, "K");
    assert_eq!(LinxResponse::from_reply("<html>oops</html>").err(), Some(LinxReplyError::NotJson));
    assert_eq!(
        LinxResponse::from_reply(r#"{"url":"u","direct_url":5}"#).err(),
        Some(LinxReplyError::Missing(LinxField::DirectUrl))
    );
}

#[test]
fn upload_curl_output() {
    assert_eq!(
        upload_from_output(r#"{"url":"u","direct_url":"d","delete_key":"k"}"#),
        Ok(("d".to_string(), "u".to_string(), "k".to_string()))
    );
    assert_eq!(upload_from_output(r#"{"url":"u"}"#), Err("No direct_url from linx-server".to_string()));
    let reason = serde_json::from_str::<serde_json::Value>("nope").unwrap_err().to_string();
    assert_eq!(
        upload_from_output("nope"),
        Err(format!("Bad linx-server response: {reason}. Curl stdout:\nnope"))
    );
}

#[test]
fn trimming_white_space() {
    assert_eq!(trim_white_space("  y \r\n"), "y");
    assert_eq!(trim_white_space("\u{3000}a b\u{00A0}"), "a b");
    assert_eq!(trim_white_space(" \t\n "), "");
    assert_eq!(trim_white_space(""), "");
    assert_eq!(trim_white_space("x"), "x");
    for t in ["  y \r\n", "\u{2028}z\u{205F}", "\u{85}\u{1680}q"] {
        assert_eq!(trim_white_space(t), t.trim());
    }
}
