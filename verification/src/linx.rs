//! linx-server through `curl`: the command lines to run, and how their
//! output is read.

use vstd::prelude::*;
use vstd::string::*;
use crate::json::{JsonValue, json_get, json_str, parse_json, parsed_json};
use crate::fss::linx_upload_url;
use crate::text::{chars_of, str_eq};

verus! {

/// The `curl` arguments that download `image_url` into the current
/// directory.
pub fn download_args(image_url: &str) -> (args: Vec<String>)
    ensures
        args@.len() == 2,
        args@[0]@ == "-O"@,
        args@[1]@ == image_url@,
{
    let mut args: Vec<String> = Vec::new();
    args.push(String::from_str("-O"));
    args.push(String::from_str(image_url));
    args
}

/// The `curl` arguments that upload the file at `path` to the linx-server
/// at `linx_url`, asking for a JSON answer.
pub fn upload_args(path: &str, linx_url: &str) -> (args: Vec<String>)
    ensures
        args@.len() == 5,
        args@[0]@ == "-H"@,
        args@[1]@ == "Accept: application/json"@,
        args@[2]@ == "-T"@,
        args@[3]@ == path@,
        args@[4]@ == linx_url@ + "/upload/"@,
{
    let mut args: Vec<String> = Vec::new();
    args.push(String::from_str("-H"));
    args.push(String::from_str("Accept: application/json"));
    args.push(String::from_str("-T"));
    args.push(String::from_str(path));
    args.push(linx_upload_url(linx_url));
    args
}

/// The members `(direct_url, url, delete_key)` of linx-server's answer to
/// an upload, or the message for the first of them, in that order, that is
/// missing or not a string.
pub open spec fn upload_answer(json: JsonValue) -> Result<(Seq<char>, Seq<char>, Seq<char>), Seq<char>> {
    match (json_str(json_get(json, "direct_url"@)),
           json_str(json_get(json, "url"@)),
           json_str(json_get(json, "delete_key"@))) {
        (Some(d), Some(u), Some(k)) => Ok((d, u, k)),
        (None, _, _) => Err("No direct_url from linx-server"@),
        (Some(_), None, _) => Err("No url from linx"@),
        (Some(_), Some(_), None) => Err("No delete key from linx-server"@),
    }
}

/// The message for output of `curl` that is not JSON, given the parser's
/// message `reason`.
pub open spec fn bad_response_message(reason: Seq<char>, stdout: Seq<char>) -> Seq<char> {
    "Bad linx-server response: "@ + reason + ". Curl stdout:\n"@ + stdout
}

/// Reads the output of the upload `curl`: it must be JSON, read as
/// `upload_fields` reads it; otherwise the error gives serde_json's message
/// and repeats the output.
pub fn upload_from_output(curl_stdout: &str) -> (r: Result<(String, String, String), String>)
    ensures
        match parsed_json(curl_stdout@) {
            Err(reason) => r matches Err(e) && e@ == bad_response_message(reason, curl_stdout@),
            Ok(j) => match upload_answer(j) {
                Ok(t) => r matches Ok(x) && x.0@ == t.0 && x.1@ == t.1 && x.2@ == t.2,
                Err(m) => r matches Err(e) && e@ == m,
            },
        },
{
    match parse_json(curl_stdout) {
        Ok(j) => upload_fields(&j),
        Err(reason) => {
            let mut e = String::from_str("Bad linx-server response: ");
            e.append(reason.as_str());
            e.append(". Curl stdout:\n");
            e.append(curl_stdout);
            assert(e@ == bad_response_message(reason@, curl_stdout@));
            Err(e)
        },
    }
}

/// Reads linx-server's JSON answer to an upload: `(direct_url, url,
/// delete_key)`. The first of them, in that order, that is missing or not a
/// string gives the error.
pub fn upload_fields(json: &JsonValue) -> (r: Result<(String, String, String), String>)
    ensures
        match upload_answer(*json) {
            Ok(t) => r matches Ok(x) && x.0@ == t.0 && x.1@ == t.1 && x.2@ == t.2,
            Err(m) => r matches Err(e) && e@ == m,
        },
{
    let direct_url = match json.string_member("direct_url") {
        Some(s) => s,
        None => return Err(String::from_str("No direct_url from linx-server")),
    };
    let url = match json.string_member("url") {
        Some(s) => s,
        None => return Err(String::from_str("No url from linx")),
    };
    let delete_key = match json.string_member("delete_key") {
        Some(s) => s,
        None => return Err(String::from_str("No delete key from linx-server")),
    };
    Ok((direct_url, url, delete_key))
}

/// The `curl` arguments that ask linx-server to delete the file at `url`
/// with the delete key `key`.
pub fn delete_args(url: &str, key: &str) -> (args: Vec<String>)
    ensures
        args@.len() == 5,
        args@[0]@ == "-H"@,
        args@[1]@ == "Linx-Delete-Key: "@ + key@,
        args@[2]@ == "-X"@,
        args@[3]@ == "DELETE"@,
        args@[4]@ == url@,
{
    let mut header = String::from_str("Linx-Delete-Key: ");
    header.append(key);
    let mut args: Vec<String> = Vec::new();
    args.push(String::from_str("-H"));
    args.push(header);
    args.push(String::from_str("-X"));
    args.push(String::from_str("DELETE"));
    args.push(String::from_str(url));
    args
}

/// Reads linx-server's answer to a delete request: it succeeded exactly
/// when the answer is `DELETED`; otherwise the answer is reported.
pub fn delete_result(response: &str) -> (r: Result<(), String>)
    ensures
        response@ == "DELETED"@ ==> r is Ok,
        response@ != "DELETED"@ ==> (r matches Err(e) && e@ == "Response: \n"@ + response@),
{
    if str_eq(response, "DELETED") {
        Ok(())
    } else {
        let mut e = String::from_str("Response: \n");
        e.append(response);
        Err(e)
    }
}

/// The Unicode `White_Space` property of a character, which
/// `char::is_whitespace` and `str::trim` go by.
pub open spec fn white_space(c: char) -> bool {
    let u = c as u32;
    ||| 0x09 <= u <= 0x0D
    ||| u == 0x20
    ||| u == 0x85
    ||| u == 0xA0
    ||| u == 0x1680
    ||| 0x2000 <= u <= 0x200A
    ||| u == 0x2028
    ||| u == 0x2029
    ||| u == 0x202F
    ||| u == 0x205F
    ||| u == 0x3000
}

/// The number of `White_Space` characters at the start of `s`.
pub open spec fn leading_white_space(s: Seq<char>) -> nat
    decreases s.len(),
{
    if s.len() > 0 && white_space(s[0]) {
        1 + leading_white_space(s.drop_first())
    } else {
        0
    }
}

/// The number of `White_Space` characters at the end of `s`.
pub open spec fn trailing_white_space(s: Seq<char>) -> nat
    decreases s.len(),
{
    if s.len() > 0 && white_space(s.last()) {
        1 + trailing_white_space(s.drop_last())
    } else {
        0
    }
}

/// `s` with its leading and trailing `White_Space` characters removed.
pub open spec fn trim(s: Seq<char>) -> Seq<char> {
    if leading_white_space(s) == s.len() {
        seq![]
    } else {
        s.subrange(leading_white_space(s) as int, s.len() - trailing_white_space(s))
    }
}

/// Whether `c` has the Unicode `White_Space` property.
fn is_white_space(c: char) -> (r: bool)
    ensures
        r == white_space(c),
{
    let u = c as u32;
    (0x09 <= u && u <= 0x0D) || u == 0x20 || u == 0x85 || u == 0xA0 || u == 0x1680
        || (0x2000 <= u && u <= 0x200A) || u == 0x2028 || u == 0x2029 || u == 0x202F
        || u == 0x205F || u == 0x3000
}

/// `s` with its leading and trailing `White_Space` characters removed, as
/// `str::trim` does.
pub fn trim_white_space(s: &str) -> (r: &str)
    ensures
        r@ == trim(s@),
{
    let chars = chars_of(s);
    let n = chars.len();
    let mut i: usize = 0;
    assert(s@.skip(0) =~= s@);
    while i < n && is_white_space(chars[i])
        invariant
            chars@ == s@,
            n == s@.len(),
            i <= n,
            leading_white_space(s@) == i + leading_white_space(s@.skip(i as int)),
        decreases n - i,
    {
        assert(s@.skip(i as int).drop_first() =~= s@.skip(i + 1));
        i = i + 1;
    }
    if i == n {
        assert(s@.skip(n as int).len() == 0);
        return s.substring_char(0, 0);
    }
    assert(!white_space(s@[i as int]));
    assert(leading_white_space(s@.skip(i as int)) == 0) by {
        assert(s@.skip(i as int)[0] == s@[i as int]);
    }
    let mut j: usize = n;
    assert(s@.take(n as int) =~= s@);
    while j > 0 && is_white_space(chars[j - 1])
        invariant
            chars@ == s@,
            n == s@.len(),
            i < j <= n,
            !white_space(s@[i as int]),
            trailing_white_space(s@) == (n - j) + trailing_white_space(s@.take(j as int)),
        decreases j,
    {
        assert(s@.take(j as int).drop_last() =~= s@.take(j - 1));
        assert(s@.take(j as int).last() == s@[j - 1]);
        j = j - 1;
    }
    assert(s@.take(j as int).last() == s@[j - 1]);
    assert(trailing_white_space(s@.take(j as int)) == 0);
    s.substring_char(i, j)
}

/// The lowercase form of a string as `str::to_lowercase` computes it by the
/// Unicode `Lowercase` mapping.
pub uninterp spec fn lowercase(s: Seq<char>) -> Seq<char>;

/// `str::to_lowercase`: the contract claims only that the result is a
/// function of `s`, named `lowercase`; the Unicode case mapping is left
/// unstated.
#[verifier::external_body]
fn to_lowercase_str(s: &str) -> (r: String)
    ensures
        r@ == lowercase(s@),
{
    s.to_lowercase()
}

/// Whether a line typed by the user answers "yes": once trimmed and put in
/// lower case it is `y`.
pub fn is_yes_answer(input: &str) -> (r: bool)
    ensures
        r == (lowercase(trim(input@)) == "y"@),
{
    let lower = to_lowercase_str(trim_white_space(input));
    str_eq(lower.as_str(), "y")
}

} // verus!
