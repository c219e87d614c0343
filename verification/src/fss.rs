//! The file sharing services: linx-server uploads, catbox.moe uploads and
//! image downloads. What is decided here is what to send and how to read
//! the answer; sending and receiving are left to the caller.

use vstd::prelude::*;
use vstd::string::*;
use crate::json::{JsonValue, json_get, json_str, parse_json, parsed_json};
use crate::text::{chars_of, seq_starts_with, str_starts_with};

verus! {

/// What linx-server answers to an upload.
pub struct LinxResponse {
    pub url: String,
    pub direct_url: String,
    pub delete_key: String,
}

/// A field of the linx-server answer.
#[derive(PartialEq, Eq, Structural, Debug, Clone, Copy)]
pub enum LinxField {
    Url,
    DirectUrl,
    DeleteKey,
}

/// What is wrong with linx-server's answer to an upload.
#[derive(PartialEq, Eq, Structural, Debug, Clone, Copy)]
pub enum LinxReplyError {
    /// The answer is not JSON.
    NotJson,
    /// The answer lacks this string member.
    Missing(LinxField),
}

/// The members `(url, direct_url, delete_key)` of linx-server's answer, or
/// the first of them, in that order, that is missing or not a string.
pub open spec fn linx_answer(json: JsonValue) -> Result<(Seq<char>, Seq<char>, Seq<char>), LinxField> {
    match (json_str(json_get(json, "url"@)),
           json_str(json_get(json, "direct_url"@)),
           json_str(json_get(json, "delete_key"@))) {
        (Some(u), Some(d), Some(k)) => Ok((u, d, k)),
        (None, _, _) => Err(LinxField::Url),
        (Some(_), None, _) => Err(LinxField::DirectUrl),
        (Some(_), Some(_), None) => Err(LinxField::DeleteKey),
    }
}

/// Why no file name could be drawn from an image link.
#[derive(PartialEq, Eq, Structural, Debug, Clone, Copy)]
pub enum DownloadError {
    /// The link is not an absolute URL.
    InvalidUrl,
    /// The URL has no path segments (a cannot-be-a-base URL such as `data:`).
    NoPathSegments,
}

#[verifier::external_type_specification]
#[verifier::external_body]
pub struct ExUrlParseError(url::ParseError);

/// The path of the URL that `url::Url::parse` makes of `input` (`None` when
/// it does not parse).
pub uninterp spec fn parsed_url_path(input: Seq<char>) -> Option<Seq<char>>;

/// Parses `input` with `url::Url::parse` and returns the URL's path as
/// `url::Url::path` gives it (percent-encoded, `/`-separated). The contract
/// claims that the result is a function of `input` alone, named
/// `parsed_url_path`, and that an error comes exactly when the name has no
/// path; what the URL standard makes of a given input is left unsaid.
#[verifier::external_body]
fn parse_url_path(input: &str) -> (r: Result<String, url::ParseError>)
    ensures
        match r {
            Ok(path) => parsed_url_path(input@) == Some(path@),
            Err(_) => parsed_url_path(input@) is None,
        },
{
    match url::Url::parse(input) {
        Ok(parsed) => Ok(parsed.path().to_string()),
        Err(e) => Err(e),
    }
}

/// The index just after the last `/` of `s`, or 0 when it holds none.
pub open spec fn segment_start(s: Seq<char>) -> int
    decreases s.len(),
{
    if s.len() == 0 {
        0
    } else if s.last() == '/' {
        s.len() as int
    } else {
        segment_start(s.drop_last())
    }
}

/// The last of the path segments of a URL path, as `url::Url::path_segments`
/// and `Iterator::last` give it: the path must start with `/`; what follows
/// is split at each `/`, and the last piece (possibly empty) is taken.
pub open spec fn last_path_segment(path: Seq<char>) -> Option<Seq<char>> {
    if path.len() > 0 && path[0] == '/' {
        let rest = path.drop_first();
        Some(rest.skip(segment_start(rest)))
    } else {
        None
    }
}

/// Where the last segment of `s` starts: nothing from there on is a `/`,
/// and the character just before it, if any, is a `/`.
proof fn lemma_segment_start(s: Seq<char>)
    ensures
        0 <= segment_start(s) <= s.len(),
        forall|k: int| segment_start(s) <= k < s.len() ==> s[k] != '/',
        segment_start(s) > 0 ==> s[segment_start(s) - 1] == '/',
    decreases s.len(),
{
    if s.len() > 0 && s.last() != '/' {
        let d = s.drop_last();
        lemma_segment_start(d);
        assert forall|k: int| segment_start(s) <= k < s.len() implies s[k] != '/' by {
            if k < d.len() {
                assert(s[k] == d[k]);
            }
        }
        if segment_start(s) > 0 {
            assert(s[segment_start(s) - 1] == d[segment_start(s) - 1]);
        }
    }
}

/// The image file name drawn from a URL path is the whole text after the
/// path's last `/`, however long: a path that starts with `/` ends with a
/// `/` followed by the name, and the name holds no `/`. A path that does not
/// start with `/` gives no name.
pub proof fn lemma_last_path_segment(path: Seq<char>)
    ensures
        (path.len() > 0 && path[0] == '/') <==> last_path_segment(path) is Some,
        last_path_segment(path) matches Some(name) ==> {
            &&& name.len() < path.len()
            &&& path[path.len() - name.len() - 1] == '/'
            &&& path.subrange(path.len() - name.len(), path.len() as int) == name
            &&& forall|i: int| 0 <= i < name.len() ==> name[i] != '/'
        },
{
    if path.len() > 0 && path[0] == '/' {
        let rest = path.drop_first();
        lemma_segment_start(rest);
        let ss = segment_start(rest);
        let name = rest.skip(ss);
        assert(path.len() - name.len() - 1 == ss);
        if ss > 0 {
            assert(path[ss] == rest[ss - 1]);
        }
        assert(path.subrange(path.len() - name.len(), path.len() as int) =~= name);
        assert forall|i: int| 0 <= i < name.len() implies name[i] != '/' by {
            assert(name[i] == rest[ss + i]);
        }
    }
}

/// The file name under which an image at a URL with path `path` is saved:
/// the last path segment.
pub fn image_name_from_path(path: &str) -> (r: Result<String, DownloadError>)
    ensures
        match last_path_segment(path@) {
            Some(name) => r matches Ok(s) && s@ == name,
            None => r == Err::<String, DownloadError>(DownloadError::NoPathSegments),
        },
{
    let chars = chars_of(path);
    let n = chars.len();
    if n == 0 || chars[0] != '/' {
        return Err(DownloadError::NoPathSegments);
    }
    let rest = path.substring_char(1, n);
    let ghost r = rest@;
    assert(r =~= path@.drop_first());
    let m = n - 1;
    let mut j: usize = m;
    assert(r.take(m as int) =~= r);
    while j > 0 && chars[j] != '/'
        invariant
            m == r.len(),
            n == m + 1,
            chars@ == path@,
            chars@.len() == n,
            r == path@.drop_first(),
            j <= m,
            segment_start(r) == segment_start(r.take(j as int)),
        decreases j,
    {
        assert(r.take(j as int).drop_last() =~= r.take(j - 1));
        assert(r.take(j as int).last() == r[j - 1]);
        j = j - 1;
    }
    if j > 0 {
        assert(r.take(j as int).last() == r[j - 1]);
    }
    let name = rest.substring_char(j, m);
    assert(name@ =~= r.skip(j as int));
    Ok(String::from_str(name))
}

/// The file name under which the image at `image_url` is saved: the last
/// segment of the URL's path.
pub fn image_name_from_url(image_url: &str) -> (r: Result<String, DownloadError>)
    ensures
        match parsed_url_path(image_url@) {
            None => r == Err::<String, DownloadError>(DownloadError::InvalidUrl),
            Some(path) => match last_path_segment(path) {
                Some(name) => r matches Ok(s) && s@ == name,
                None => r == Err::<String, DownloadError>(DownloadError::NoPathSegments),
            },
        },
{
    match parse_url_path(image_url) {
        Ok(path) => image_name_from_path(path.as_str()),
        Err(_) => Err(DownloadError::InvalidUrl),
    }
}

/// Whether an image is given by its link rather than by a local path: the
/// link starts with `https://`.
pub fn is_image_link(path: &str) -> (r: bool)
    ensures
        r == seq_starts_with(path@, "https://"@),
{
    str_starts_with(path, "https://")
}

/// Whether a response's `Content-Type` announces an image.
pub fn is_image_content_type(content_type: &str) -> (r: bool)
    ensures
        r == seq_starts_with(content_type@, "image/"@),
{
    str_starts_with(content_type, "image/")
}

/// The upload endpoint of a linx-server instance.
pub fn linx_upload_url(linx_url: &str) -> (r: String)
    ensures
        r@ == linx_url@ + "/upload/"@,
{
    let mut r = String::from_str(linx_url);
    r.append("/upload/");
    r
}

impl LinxResponse {
    /// Reads the answer of linx-server to an upload: the string members
    /// `url`, `direct_url` and `delete_key`. The first of them, in that
    /// order, that is missing or not a string is the error.
    pub fn from_json(json: &JsonValue) -> (r: Result<LinxResponse, LinxField>)
        ensures
            match linx_answer(*json) {
                Ok(t) => r matches Ok(l) && l.url@ == t.0 && l.direct_url@ == t.1 && l.delete_key@ == t.2,
                Err(f) => r == Err::<LinxResponse, LinxField>(f),
            },
    {
        let url = match json.string_member("url") {
            Some(s) => s,
            None => return Err(LinxField::Url),
        };
        let direct_url = match json.string_member("direct_url") {
            Some(s) => s,
            None => return Err(LinxField::DirectUrl),
        };
        let delete_key = match json.string_member("delete_key") {
            Some(s) => s,
            None => return Err(LinxField::DeleteKey),
        };
        Ok(LinxResponse { url, direct_url, delete_key })
    }

    /// Reads the text of linx-server's answer to an upload: it must be JSON,
    /// read as `from_json` reads it.
    pub fn from_reply(reply: &str) -> (r: Result<LinxResponse, LinxReplyError>)
        ensures
            match parsed_json(reply@) {
                Err(_) => r == Err::<LinxResponse, LinxReplyError>(LinxReplyError::NotJson),
                Ok(j) => match linx_answer(j) {
                    Ok(t) => r matches Ok(l) && l.url@ == t.0 && l.direct_url@ == t.1 && l.delete_key@ == t.2,
                    Err(f) => r == Err::<LinxResponse, LinxReplyError>(LinxReplyError::Missing(f)),
                },
            },
    {
        match parse_json(reply) {
            Ok(j) => match LinxResponse::from_json(&j) {
                Ok(l) => Ok(l),
                Err(f) => Err(LinxReplyError::Missing(f)),
            },
            Err(_) => Err(LinxReplyError::NotJson),
        }
    }
}

/// The `curl` arguments that upload the file at `path` to catbox.moe.
/// The user hash is not sent: the arguments are the same whatever it is.
pub fn catbox_upload_args(path: &str, _userhash: Option<&str>) -> (args: Vec<String>)
    ensures
        args@.len() == 5,
        args@[0]@ == "-F"@,
        args@[1]@ == "reqtype=fileupload"@,
        args@[2]@ == "-F"@,
        args@[3]@ == "fileToUpload=@"@ + path@,
        args@[4]@ == "https://catbox.moe/user/api.php"@,
{
    let mut file_arg = String::from_str("fileToUpload=@");
    file_arg.append(path);
    let mut args: Vec<String> = Vec::new();
    args.push(String::from_str("-F"));
    args.push(String::from_str("reqtype=fileupload"));
    args.push(String::from_str("-F"));
    args.push(file_arg);
    args.push(String::from_str("https://catbox.moe/user/api.php"));
    args
}

/// The outcome of a catbox.moe upload of `path`: the link that catbox.moe
/// printed when `curl` succeeded, else the failure.
pub fn catbox_upload_result(path: &str, succeeded: bool, response: String) -> (r: Result<String, String>)
    ensures
        succeeded ==> r == Ok::<String, String>(response),
        !succeeded ==> (r matches Err(e) && e@ == "Failed upload "@ + path@),
{
    if succeeded {
        Ok(response)
    } else {
        let mut e = String::from_str("Failed upload ");
        e.append(path);
        Err(e)
    }
}

} // verus!
