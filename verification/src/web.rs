//! Reading web pages: regular expressions, HTML, JSON and URLs.
//!
//! The parsers are those of the `regex`, `scraper`, `serde_json` and `url`
//! crates. What each returns depends on its arguments alone and has a name
//! here; the rest of the library is stated over these names.

use crate::archive;
use crate::gallery;
use crate::text;
use vstd::prelude::*;
use vstd::utf8::encode_utf8;

verus! {

/// The addresses that count as local: loopback, private and link-local ones.
pub const LOCAL_NETWORK: &'static str = r"^((localhost)|(127\.)|(10\.)|(192\.168\.)|(172\.((1[6-9])|(2[0-9])|(3[0-1]))\.)|(169\.254\.)|(::1)|(0:0:0:0:0:0:0:1)|(fc)|(fd)).*$";

/// `172.16.` up to `172.31.`.
pub open spec fn in_private_172(s: Seq<char>) -> bool {
    &&& text::starts_with(s, "172."@)
    &&& s.len() >= 7
    &&& s[6] == '.'
    &&& {
        ||| s[4] == '1' && '6' <= s[5] && s[5] <= '9'
        ||| s[4] == '2' && '0' <= s[5] && s[5] <= '9'
        ||| s[4] == '3' && '0' <= s[5] && s[5] <= '1'
    }
}

/// One line that begins like a loopback, private or link-local address.
pub open spec fn is_local_address(s: Seq<char>) -> bool {
    &&& !s.contains('\n')
    &&& {
        ||| text::starts_with(s, "localhost"@)
        ||| text::starts_with(s, "127."@)
        ||| text::starts_with(s, "10."@)
        ||| text::starts_with(s, "192.168."@)
        ||| in_private_172(s)
        ||| text::starts_with(s, "169.254."@)
        ||| text::starts_with(s, "::1"@)
        ||| text::starts_with(s, "0:0:0:0:0:0:0:1"@)
        ||| text::starts_with(s, "fc"@)
        ||| text::starts_with(s, "fd"@)
    }
}

/// The address of a gallery, with its number and token.
pub const GALLERY_LINK: &'static str = r"(?:e-hentai|exhentai)\.org/g/(\d+)/([a-f0-9]+)";

/// Lower case hexadecimal digits.
pub open spec fn is_token_char(c: char) -> bool {
    text::is_digit(c) || ('a' <= c && c <= 'f')
}

/// `text` is the address of a page of the gallery `id` with this `token`, on one of
/// the two sites. What follows does not go on with the token.
pub open spec fn is_gallery_address(
    text: Seq<char>,
    exhentai: bool,
    id: Seq<char>,
    token: Seq<char>,
    rest: Seq<char>,
) -> bool {
    &&& text == (if exhentai {
        "https://exhentai.org"@
    } else {
        "https://e-hentai.org"@
    }) + "/g/"@ + id + "/"@ + token + rest
    &&& id.len() > 0
    &&& forall|i: int| 0 <= i < id.len() ==> text::is_digit(#[trigger] id[i])
    &&& token.len() > 0
    &&& forall|i: int| 0 <= i < token.len() ==> is_token_char(#[trigger] token[i])
    &&& rest.len() > 0 ==> !is_token_char(rest[0])
}

/// Whether `pattern` is a regular expression with a match in `text`.
pub uninterp spec fn regex_matches(pattern: Seq<char>, text: Seq<char>) -> bool;

/// The groups of the first match of `pattern` in `text`, the whole match first;
/// `None` where there is no match, or `pattern` is no regular expression.
pub uninterp spec fn regex_groups(pattern: Seq<char>, text: Seq<char>) -> Option<
    Seq<Option<Seq<char>>>,
>;

/// The attribute of each element of the page that the CSS selector picks, in the
/// order in which the parser put the elements into its tree; `None` where `selector` is no CSS selector.
pub uninterp spec fn selected_attributes(
    html: Seq<char>,
    selector: Seq<char>,
    attribute: Seq<char>,
) -> Option<Seq<Option<Seq<char>>>>;

/// The selectors that pages are read with.
pub open spec fn is_page_selector(selector: Seq<char>) -> bool {
    ||| selector == "form"@
    ||| selector == archive::ARCHIVER_SELECTOR@
    ||| selector == gallery::IMAGE_LINKS@
    ||| selector == gallery::IMAGE@
}

/// The parser's buffers hold a page: it makes of no byte more than three, and a text of
/// the page may have as many bytes as half the range of its 32 bit lengths.
pub open spec fn is_readable(html: Seq<char>) -> bool {
    3 * text::byte_len(html) <= 0x8000_0000
}

/// Whether a page is short enough to be read.
pub fn can_read(html: &str) -> (r: bool)
    ensures
        r == is_readable(html@),
{
    text::byte_length(html) <= 715_827_882
}

/// The host of a URL, where it parses and has one.
pub uninterp spec fn host_of_url(url: Seq<char>) -> Option<Seq<char>>;

/// Whether `body` is a JSON document.
pub uninterp spec fn is_json(body: Seq<u8>) -> bool;

/// The string at a JSON pointer, where the document has one there.
pub uninterp spec fn json_string(body: Seq<u8>, pointer: Seq<char>) -> Option<Seq<char>>;

/// The signed integer at a JSON pointer, where the document has one there.
pub uninterp spec fn json_signed(body: Seq<u8>, pointer: Seq<char>) -> Option<i64>;

/// The unsigned integer at a JSON pointer, where the document has one there.
pub uninterp spec fn json_unsigned(body: Seq<u8>, pointer: Seq<char>) -> Option<u64>;

/// The length of the array at a JSON pointer, where the document has one there.
pub uninterp spec fn json_array_length(body: Seq<u8>, pointer: Seq<char>) -> Option<nat>;

pub open spec fn optional_text(o: Option<String>) -> Option<Seq<char>> {
    match o {
        Some(s) => Some(s@),
        None => None,
    }
}

pub open spec fn optional_texts(v: Seq<Option<String>>) -> Seq<Option<Seq<char>>> {
    v.map_values(|o: Option<String>| optional_text(o))
}

pub open spec fn optional_list(o: Option<Vec<Option<String>>>) -> Option<Seq<Option<Seq<char>>>> {
    match o {
        Some(v) => Some(optional_texts(v@)),
        None => None,
    }
}

/// `regex::Regex::is_match` of the compiled pattern, `false` where it does not
/// compile. Of the pattern for local addresses: it is anchored at both ends of
/// the text, a dot matches any character but a line feed, and the alternatives
/// are the prefixes that `is_local_address` lists.
#[verifier::external_body]
pub(crate) fn regex_is_match(pattern: &str, text: &str) -> (res: bool)
    ensures
        res == regex_matches(pattern@, text@),
        pattern@ == LOCAL_NETWORK@ ==> res == is_local_address(text@),
{
    regex::Regex::new(pattern).map(|re| re.is_match(text)).unwrap_or(false)
}

/// `regex::Regex::captures` of the compiled pattern: the text of every group of
/// the leftmost match, group zero being the match itself. Of the pattern for
/// galleries: its repetitions are greedy, so on the address of a gallery the first
/// group is the whole number and the second the whole token.
#[verifier::external_body]
pub(crate) fn regex_captures(pattern: &str, text: &str) -> (res: Option<Vec<Option<String>>>)
    ensures
        optional_list(res) == regex_groups(pattern@, text@),
        forall|exhentai: bool, id: Seq<char>, token: Seq<char>, rest: Seq<char>|
            pattern@ == GALLERY_LINK@ && #[trigger] is_gallery_address(
                text@,
                exhentai,
                id,
                token,
                rest,
            ) ==> captured(optional_list(res), 1) == Some(id) && captured(optional_list(res), 2)
                == Some(token),
{
    let re = regex::Regex::new(pattern).ok()?;
    let captures = re.captures(text)?;
    Some(captures.iter().map(|group| group.map(|m| m.as_str().to_string())).collect())
}

/// `scraper::Html::select` over the parsed page, with the value of `attribute`
/// for each element picked. It is for the selectors of this library, which are not
/// nested: the parser follows the nesting of a selector without a limit. And it is
/// for pages that the parser's buffers hold: on longer ones it panics.
#[verifier::external_body]
pub(crate) fn select_attributes(html: &str, selector: &str, attribute: &str) -> (res: Option<
    Vec<Option<String>>,
>)
    requires
        is_page_selector(selector@),
        is_readable(html@),
    ensures
        optional_list(res) == selected_attributes(html@, selector@, attribute@),
{
    let selector = scraper::Selector::parse(selector).ok()?;
    let page = scraper::Html::parse_document(html);
    let picked = page.select(&selector);
    Some(picked.map(|element| element.value().attr(attribute).map(str::to_string)).collect())
}

/// `url::Url::host_str` of the parsed URL.
#[verifier::external_body]
pub(crate) fn url_host(url: &str) -> (res: Option<String>)
    ensures
        optional_text(res) == host_of_url(url@),
{
    url::Url::parse(url).ok()?.host_str().map(str::to_string)
}

/// `serde_json::from_slice` succeeds on `body`.
#[verifier::external_body]
pub(crate) fn json_is_valid(body: &[u8]) -> (res: bool)
    ensures
        res == is_json(body@),
{
    serde_json::from_slice::<serde_json::Value>(body).is_ok()
}

/// `serde_json::Value::as_str` of the value at `pointer`.
#[verifier::external_body]
pub(crate) fn json_string_at(body: &[u8], pointer: &str) -> (res: Option<String>)
    ensures
        optional_text(res) == json_string(body@, pointer@),
{
    let document: serde_json::Value = serde_json::from_slice(body).ok()?;
    document.pointer(pointer)?.as_str().map(str::to_string)
}

/// `serde_json::Value::as_i64` of the value at `pointer`.
#[verifier::external_body]
pub(crate) fn json_signed_at(body: &[u8], pointer: &str) -> (res: Option<i64>)
    ensures
        res == json_signed(body@, pointer@),
{
    let document: serde_json::Value = serde_json::from_slice(body).ok()?;
    document.pointer(pointer)?.as_i64()
}

/// `serde_json::Value::as_u64` of the value at `pointer`.
#[verifier::external_body]
pub(crate) fn json_unsigned_at(body: &[u8], pointer: &str) -> (res: Option<u64>)
    ensures
        res == json_unsigned(body@, pointer@),
{
    let document: serde_json::Value = serde_json::from_slice(body).ok()?;
    document.pointer(pointer)?.as_u64()
}

/// The length of `serde_json::Value::as_array` of the value at `pointer`.
#[verifier::external_body]
pub(crate) fn json_array_length_at(body: &[u8], pointer: &str) -> (res: Option<usize>)
    ensures
        (match res {
            Some(n) => json_array_length(body@, pointer@) == Some(n as nat),
            None => json_array_length(body@, pointer@) is None,
        }),
{
    let document: serde_json::Value = serde_json::from_slice(body).ok()?;
    document.pointer(pointer)?.as_array().map(Vec::len)
}

/// The text of one group, where the group took part in the match.
pub open spec fn group_of(groups: Seq<Option<Seq<char>>>, i: int) -> Option<Seq<char>> {
    if 0 <= i < groups.len() {
        groups[i]
    } else {
        None
    }
}

pub fn group(groups: &Vec<Option<String>>, i: usize) -> (res: Option<String>)
    ensures
        optional_text(res) == group_of(optional_texts(groups@), i as int),
{
    if i < groups.len() {
        match &groups[i] {
            Some(s) => Some(s.clone()),
            None => None,
        }
    } else {
        None
    }
}

/// One group of the first match, where there is a match and the group took part.
pub open spec fn captured(groups: Option<Seq<Option<Seq<char>>>>, i: int) -> Option<Seq<char>> {
    match groups {
        Some(g) => group_of(g, i),
        None => None,
    }
}

pub fn captured_group(groups: &Option<Vec<Option<String>>>, i: usize) -> (res: Option<String>)
    ensures
        optional_text(res) == captured(optional_list(*groups), i as int),
{
    match groups {
        Some(g) => group(g, i),
        None => None,
    }
}

/// The strings of the array at a JSON pointer, `None` for an element that is none;
/// `None` altogether where the document has no array there.
pub uninterp spec fn json_strings(body: Seq<u8>, pointer: Seq<char>) -> Option<
    Seq<Option<Seq<char>>>,
>;

/// `serde_json::Value::as_str` of each element of the `serde_json::Value::as_array`
/// at `pointer`.
#[verifier::external_body]
pub(crate) fn json_strings_at(body: &[u8], pointer: &str) -> (res: Option<Vec<Option<String>>>)
    ensures
        optional_list(res) == json_strings(body@, pointer@),
{
    let document: serde_json::Value = serde_json::from_slice(body).ok()?;
    let elements = document.pointer(pointer)?.as_array()?;
    Some(elements.iter().map(|element| element.as_str().map(str::to_string)).collect())
}

/// A group of a match is the one at its place, where there is one there; and a page can be
/// read where three times its bytes are at most two to the power of 31.
pub proof fn law_groups_are_picked(
    groups: Seq<Option<Seq<char>>>,
    i: int,
    o: Option<String>,
    html: &str,
    readable: bool,
)
    requires
        call_ensures(can_read, (html,), readable),
    ensures
        0 <= i < groups.len() ==> group_of(groups, i) == groups[i] && captured(Some(groups), i)
            == groups[i],
        i < 0 || i >= groups.len() ==> group_of(groups, i) is None && captured(Some(groups), i)
            is None,
        captured(None, i) is None,
        o matches Some(s) ==> optional_text(o) == Some(s@),
        o is None ==> optional_text(o) is None,
        readable <==> 3 * encode_utf8(html@).len() <= 2_147_483_648,
        readable <==> is_readable(html@),
{
    text::lemma_byte_len(html@);
}

}
