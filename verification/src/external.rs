//! Calls into outside crates and into parts of std that vstd does not
//! specify. Each function here is trusted: its contract is what the outside
//! code's source or documentation shows, and nothing here is proved.
use vstd::prelude::*;
use base64::Engine;
use sha2::Digest;

verus! {

broadcast use vstd::string::group_string_axioms;

/// What `url::Url::parse` makes of a text: its scheme, host, port and path,
/// or the message of its parse error.
pub uninterp spec fn url_parse(raw: Seq<char>) -> Result<
    (Seq<char>, Option<Seq<char>>, Option<u16>, Seq<char>),
    Seq<char>,
>;

/// The parts of a parsed URL that the library reads.
#[derive(Debug)]
pub struct UrlParts {
    pub scheme: String,
    pub host: Option<String>,
    pub port: Option<u16>,
    pub path: String,
}

/// The parts of a parsed URL as plain values.
pub open spec fn url_parts_view(u: UrlParts) -> (Seq<char>, Option<Seq<char>>, Option<u16>, Seq<char>) {
    (
        u.scheme@,
        match u.host {
            Some(h) => Some(h@),
            None => None,
        },
        u.port,
        u.path@,
    )
}

/// `url::Url::parse`, read through `scheme`, `host_str`, `port` and `path`.
/// The contract claims only that the result is a function of the text
/// (`url_parse`).
#[verifier::external_body]
pub(crate) fn parse_url(raw: &str) -> (r: Result<UrlParts, String>)
    ensures
        match url_parse(raw@) {
            Ok(v) => r matches Ok(u) && url_parts_view(u) == v,
            Err(e) => r matches Err(m) && m@ == e,
        },
{
    match url::Url::parse(raw) {
        Ok(u) => Ok(
            UrlParts {
                scheme: u.scheme().to_string(),
                host: u.host_str().map(|h| h.to_string()),
                port: u.port(),
                path: u.path().to_string(),
            },
        ),
        Err(e) => Err(e.to_string()),
    }
}

/// The MD5 digest of the UTF-8 bytes of a text.
pub uninterp spec fn md5_digest(text: Seq<char>) -> Seq<u8>;

/// `md5::compute` on the bytes of a text. The contract claims that the
/// digest is a function of the text (`md5_digest`) and has 16 bytes, as the
/// crate's `Digest([u8; 16])` has.
#[verifier::external_body]
pub(crate) fn md5_of_text(text: &str) -> (r: Vec<u8>)
    ensures
        r@ == md5_digest(text@),
        r@.len() == 16,
{
    md5::compute(text.as_bytes()).0.to_vec()
}

/// What URL-safe base64 without padding decodes a text to, or the message
/// of the decoding error.
pub uninterp spec fn base64_url_decode(text: Seq<char>) -> Result<Seq<u8>, Seq<char>>;

/// `URL_SAFE_NO_PAD.decode` of the `base64` crate. The contract claims only
/// that the result is a function of the text (`base64_url_decode`).
#[verifier::external_body]
pub(crate) fn decode_base64_url(text: &str) -> (r: Result<Vec<u8>, String>)
    ensures
        match base64_url_decode(text@) {
            Ok(b) => r matches Ok(v) && v@ == b,
            Err(e) => r matches Err(m) && m@ == e,
        },
{
    base64::engine::general_purpose::URL_SAFE_NO_PAD.decode(text).map_err(|e| e.to_string())
}

/// `String::from_utf8`: the text that valid UTF-8 bytes encode, and no text
/// for bytes that are not valid UTF-8, as std documents.
#[verifier::external_body]
pub(crate) fn text_from_utf8(bytes: Vec<u8>) -> (r: Option<String>)
    ensures
        match r {
            Some(s) => vstd::utf8::valid_utf8(bytes@) && s@ == vstd::utf8::decode_utf8(bytes@),
            None => !vstd::utf8::valid_utf8(bytes@),
        },
{
    String::from_utf8(bytes).ok()
}

/// The JSON document that bytes hold, written back as compact JSON text, or
/// the message of the parse error.
pub uninterp spec fn json_from_bytes(bytes: Seq<u8>) -> Result<Seq<char>, Seq<char>>;

/// `serde_json::from_slice` into a `serde_json::Value`, written back with
/// `to_string`. The contract claims only that the result is a function of
/// the bytes (`json_from_bytes`).
#[verifier::external_body]
pub(crate) fn parse_json_bytes(bytes: &Vec<u8>) -> (r: Result<String, String>)
    ensures
        match json_from_bytes(bytes@) {
            Ok(t) => r matches Ok(s) && s@ == t,
            Err(e) => r matches Err(m) && m@ == e,
        },
{
    match serde_json::from_slice::<serde_json::Value>(bytes.as_slice()) {
        Ok(v) => Ok(v.to_string()),
        Err(e) => Err(e.to_string()),
    }
}

/// The member `key` of the JSON object that a text holds, as JSON text; none
/// when the text is no JSON object or has no such member.
pub uninterp spec fn json_member(text: Seq<char>, key: Seq<char>) -> Option<Seq<char>>;

/// `serde_json::from_str` into a `serde_json::Value`, then `Value::get` with
/// a key, written back with `to_string`. The contract claims only that the
/// result is a function of the text and the key (`json_member`).
#[verifier::external_body]
pub(crate) fn json_get_member(text: &str, key: &str) -> (r: Option<String>)
    ensures
        match json_member(text@, key@) {
            Some(t) => r matches Some(s) && s@ == t,
            None => r is None,
        },
{
    match serde_json::from_str::<serde_json::Value>(text) {
        Ok(v) => v.get(key).map(|m| m.to_string()),
        Err(_) => None,
    }
}

/// The string that a JSON text holds, when it holds a string.
pub uninterp spec fn json_string(text: Seq<char>) -> Option<Seq<char>>;

/// `serde_json::from_str` into a `serde_json::Value`, then `Value::as_str`.
/// The contract claims only that the result is a function of the text
/// (`json_string`).
#[verifier::external_body]
pub(crate) fn json_as_string(text: &str) -> (r: Option<String>)
    ensures
        match json_string(text@) {
            Some(t) => r matches Some(s) && s@ == t,
            None => r is None,
        },
{
    match serde_json::from_str::<serde_json::Value>(text) {
        Ok(serde_json::Value::String(s)) => Some(s),
        _ => None,
    }
}

/// The decimal text of the integer that a JSON text holds, when it holds an
/// integer.
pub uninterp spec fn json_integer(text: Seq<char>) -> Option<Seq<char>>;

/// `serde_json::from_str` into a `serde_json::Value`, then `as_i64` or
/// `as_u64`, written in decimal. The contract claims only that the result
/// is a function of the text (`json_integer`).
#[verifier::external_body]
pub(crate) fn json_as_integer_text(text: &str) -> (r: Option<String>)
    ensures
        match json_integer(text@) {
            Some(t) => r matches Some(s) && s@ == t,
            None => r is None,
        },
{
    match serde_json::from_str::<serde_json::Value>(text) {
        Ok(serde_json::Value::Number(n)) => match n.as_i64() {
            Some(i) => Some(i.to_string()),
            None => n.as_u64().map(|u| u.to_string()),
        },
        _ => None,
    }
}

/// `chrono::Utc::now().timestamp()`: the current time in seconds since the
/// Unix epoch. It depends on the clock, so nothing is claimed of it.
#[verifier::external_body]
pub(crate) fn now_unix_seconds() -> (r: i64) {
    chrono::Utc::now().timestamp()
}

/// `chrono::Utc::now()` written as `%Y-%m-%dT%H:%M:%S%.6fZ`, the moment
/// Codex records as a login's last refresh. It depends on the clock, so
/// nothing is claimed of it.
#[verifier::external_body]
pub(crate) fn now_refresh_stamp() -> (r: String) {
    chrono::Utc::now().format("%Y-%m-%dT%H:%M:%S%.6fZ").to_string()
}

/// The number of items of the JSON array that a text holds, when it holds one.
pub uninterp spec fn json_array_len(text: Seq<char>) -> Option<usize>;

/// `serde_json::from_str` into a `serde_json::Value`, then `as_array` and
/// its length. The contract claims only that the result is a function of
/// the text (`json_array_len`).
#[verifier::external_body]
pub(crate) fn json_array_length(text: &str) -> (r: Option<usize>)
    ensures
        r == json_array_len(text@),
{
    match serde_json::from_str::<serde_json::Value>(text) {
        Ok(v) => v.as_array().map(|a| a.len()),
        Err(_) => None,
    }
}

/// Item `i` of the JSON array that a text holds, as JSON text.
pub uninterp spec fn json_item(text: Seq<char>, i: usize) -> Option<Seq<char>>;

/// `serde_json::from_str` into a `serde_json::Value`, then `Value::get`
/// with an index, written back with `to_string`. The contract claims only
/// that the result is a function of the text and the index (`json_item`).
#[verifier::external_body]
pub(crate) fn json_get_item(text: &str, i: usize) -> (r: Option<String>)
    ensures
        match json_item(text@, i) {
            Some(t) => r matches Some(s) && s@ == t,
            None => r is None,
        },
{
    match serde_json::from_str::<serde_json::Value>(text) {
        Ok(v) => v.get(i).map(|m| m.to_string()),
        Err(_) => None,
    }
}

/// The boolean that a JSON text holds, when it holds one.
pub uninterp spec fn json_bool(text: Seq<char>) -> Option<bool>;

/// `serde_json::from_str` into a `serde_json::Value`, then `as_bool`. The
/// contract claims only that the result is a function of the text
/// (`json_bool`).
#[verifier::external_body]
pub(crate) fn json_as_bool(text: &str) -> (r: Option<bool>)
    ensures
        r == json_bool(text@),
{
    match serde_json::from_str::<serde_json::Value>(text) {
        Ok(v) => v.as_bool(),
        Err(_) => None,
    }
}

/// The values of the JSON object that a text holds, in the order the object
/// keeps them, each as JSON text; none when the text holds no object.
pub uninterp spec fn json_values(text: Seq<char>) -> Option<Seq<Seq<char>>>;

/// `serde_json::from_str` into a `serde_json::Value`, then `as_object` and
/// its `values`, each written back with `to_string`. The contract claims
/// only that the result is a function of the text (`json_values`).
#[verifier::external_body]
pub(crate) fn json_object_values(text: &str) -> (r: Option<Vec<String>>)
    ensures
        match json_values(text@) {
            Some(vs) => r matches Some(v) && v@.map_values(|s: String| s@) == vs,
            None => r is None,
        },
{
    match serde_json::from_str::<serde_json::Value>(text) {
        Ok(v) => v.as_object().map(|o| o.values().map(|m| m.to_string()).collect()),
        Err(_) => None,
    }
}

/// The JSON document that a text holds, written back as compact JSON text,
/// or the message of the parse error.
pub uninterp spec fn json_from_text(text: Seq<char>) -> Result<Seq<char>, Seq<char>>;

/// `serde_json::from_str` into a `serde_json::Value`, written back with
/// `to_string`, or the error's message. The contract claims only that the
/// result is a function of the text (`json_from_text`).
#[verifier::external_body]
pub(crate) fn parse_json_text(text: &str) -> (r: Result<String, String>)
    ensures
        match json_from_text(text@) {
            Ok(t) => r matches Ok(s) && s@ == t,
            Err(e) => r matches Err(m) && m@ == e,
        },
{
    match serde_json::from_str::<serde_json::Value>(text) {
        Ok(v) => Ok(v.to_string()),
        Err(e) => Err(e.to_string()),
    }
}

/// The hexadecimal digit of a number below 16, in lower case.
pub open spec fn lower_hex_digit(d: int) -> char {
    seq!['0', '1', '2', '3', '4', '5', '6', '7', '8', '9', 'a', 'b', 'c', 'd', 'e', 'f'][d]
}

/// How serde_json writes one character inside a JSON string: a quote and a
/// backslash behind a backslash, the five control characters that have a
/// short escape by it, the other control characters below 0x20 as `\u00`
/// and two lower-case hexadecimal digits, and every other character as it
/// is.
pub open spec fn json_char_escape(c: char) -> Seq<char> {
    let n = c as int;
    if c == '"' {
        seq!['\\', '"']
    } else if c == '\\' {
        seq!['\\', '\\']
    } else if n == 8 {
        seq!['\\', 'b']
    } else if n == 9 {
        seq!['\\', 't']
    } else if n == 10 {
        seq!['\\', 'n']
    } else if n == 12 {
        seq!['\\', 'f']
    } else if n == 13 {
        seq!['\\', 'r']
    } else if n < 32 {
        seq!['\\', 'u', '0', '0', lower_hex_digit(n / 16), lower_hex_digit(n % 16)]
    } else {
        seq![c]
    }
}

/// The characters of a text, each escaped as in a JSON string.
pub open spec fn json_escaped(text: Seq<char>) -> Seq<char>
    decreases text.len(),
{
    if text.len() == 0 {
        Seq::empty()
    } else {
        json_escaped(text.drop_last()) + json_char_escape(text.last())
    }
}

/// The JSON text of a string value: the escaped text between quotes.
pub open spec fn json_quote(text: Seq<char>) -> Seq<char> {
    seq!['"'] + json_escaped(text) + seq!['"']
}

/// `serde_json::Value::String` of a text, written with `to_string`: the
/// text between quotes, escaped as serde_json's `format_escaped_str`
/// escapes it (`json_quote`).
#[verifier::external_body]
pub(crate) fn json_string_value(text: &str) -> (r: String)
    ensures
        r@ == json_quote(text@),
{
    serde_json::Value::String(text.to_string()).to_string()
}

/// The seconds since the Unix epoch of an RFC 3339 time text, when chrono
/// reads it.
pub uninterp spec fn rfc3339_seconds(text: Seq<char>) -> Option<i64>;

/// `chrono::DateTime::parse_from_rfc3339` and `timestamp`. The contract
/// claims only that the result is a function of the text
/// (`rfc3339_seconds`).
#[verifier::external_body]
pub(crate) fn parse_rfc3339_seconds(text: &str) -> (r: Option<i64>)
    ensures
        r == rfc3339_seconds(text@),
{
    chrono::DateTime::parse_from_rfc3339(text).ok().map(|dt| dt.timestamp())
}

/// The SHA-256 digest of the UTF-8 bytes of a text.
pub uninterp spec fn sha256_text(text: Seq<char>) -> Seq<u8>;

/// `sha2::Sha256::digest` of the bytes of a text. The contract claims that
/// the digest is a function of the text (`sha256_text`) and has 32 bytes, as
/// the crate's output array has.
#[verifier::external_body]
pub(crate) fn sha256_of_text(text: &str) -> (r: Vec<u8>)
    ensures
        r@ == sha256_text(text@),
        r@.len() == 32,
{
    sha2::Sha256::digest(text.as_bytes()).to_vec()
}

// ---------------------------------------------------------------------------
// TOML documents, through `toml_edit`. A document is carried as the text
// that `DocumentMut::to_string` writes; each call parses it again. The
// edits claim that their text parses again (toml_edit writes TOML), what
// they write reads back, and every item they do not touch reads as before:
// `doc[key] = ..`, `Table::insert` and `Table::remove` change that key
// alone.
// ---------------------------------------------------------------------------

/// The text of the TOML document a text holds, or the parse error.
pub uninterp spec fn toml_doc(text: Seq<char>) -> Result<Seq<char>, Seq<char>>;

/// Two texts that the readers below read alike, at every key.
pub open spec fn toml_reads_alike(a: Seq<char>, b: Seq<char>) -> bool {
    &&& forall|k: Seq<char>| #[trigger] toml_int(a, k) == toml_int(b, k)
    &&& forall|k: Seq<char>| #[trigger] toml_str(a, k) == toml_str(b, k)
    &&& forall|k: Seq<char>| #[trigger] toml_table(a, k) == toml_table(b, k)
    &&& forall|t: Seq<char>, e: Seq<char>| #[trigger] toml_table_has(a, t, e) == toml_table_has(b, t, e)
    &&& forall|t: Seq<char>, e: Seq<char>| #[trigger] toml_entry_table(a, t, e) == toml_entry_table(b, t, e)
    &&& forall|t: Seq<char>, e: Seq<char>, k: Seq<char>| #[trigger] toml_entry_str(a, t, e, k) == toml_entry_str(b, t, e, k)
}

/// `str::parse::<toml_edit::DocumentMut>` and `to_string`. The contract
/// claims that the result is a function of the text (`toml_doc`), and that
/// the text a document writes parses again, into the same items, as
/// toml_edit, a format-preserving editor, documents.
#[verifier::external_body]
pub(crate) fn parse_toml(text: &str) -> (r: Result<String, String>)
    ensures
        match toml_doc(text@) {
            Ok(d) => r matches Ok(s) && s@ == d,
            Err(e) => r matches Err(m) && m@ == e,
        },
        r matches Ok(s) ==> toml_doc(s@) is Ok,
        r matches Ok(s) ==> toml_reads_alike(s@, text@),
{
    text.parse::<toml_edit::DocumentMut>().map(|d| d.to_string()).map_err(|e| e.to_string())
}

/// `toml_edit::DocumentMut::new().to_string()`: the text of an empty
/// document, which is empty (an empty root table has no header and no
/// decoration), parses, reads back as itself, and holds no key.
#[verifier::external_body]
pub(crate) fn new_toml() -> (r: String)
    ensures
        r@ == Seq::<char>::empty(),
        toml_doc(r@) is Ok,
        toml_doc(r@) == Ok::<Seq<char>, Seq<char>>(r@),
        forall|k: Seq<char>| #[trigger] toml_int(r@, k) is None,
        forall|k: Seq<char>| #[trigger] toml_str(r@, k) is None,
        forall|k: Seq<char>| !#[trigger] toml_table(r@, k),
        forall|t: Seq<char>, e: Seq<char>| !#[trigger] toml_table_has(r@, t, e),
{
    toml_edit::DocumentMut::new().to_string()
}

/// The integer at a top-level key.
pub uninterp spec fn toml_int(doc: Seq<char>, key: Seq<char>) -> Option<i64>;

/// `DocumentMut::get` and `Item::as_integer`.
#[verifier::external_body]
pub(crate) fn toml_get_int(doc: &str, key: &str) -> (r: Option<i64>)
    ensures
        r == toml_int(doc@, key@),
{
    match doc.parse::<toml_edit::DocumentMut>() {
        Ok(d) => d.get(key).and_then(|i| i.as_integer()),
        Err(_) => None,
    }
}

/// The string at a top-level key.
pub uninterp spec fn toml_str(doc: Seq<char>, key: Seq<char>) -> Option<Seq<char>>;

/// `DocumentMut::get` and `Item::as_str`.
#[verifier::external_body]
pub(crate) fn toml_get_str(doc: &str, key: &str) -> (r: Option<String>)
    ensures
        match toml_str(doc@, key@) {
            Some(t) => r matches Some(s) && s@ == t,
            None => r is None,
        },
{
    match doc.parse::<toml_edit::DocumentMut>() {
        Ok(d) => d.get(key).and_then(|i| i.as_str()).map(|v| v.to_string()),
        Err(_) => None,
    }
}

/// The string at `key` of entry `entry` of the top-level table `table`.
pub uninterp spec fn toml_entry_str(doc: Seq<char>, table: Seq<char>, entry: Seq<char>, key: Seq<char>) -> Option<
    Seq<char>,
>;

/// `DocumentMut::get`, twice `Item::get`, and `Item::as_str`.
#[verifier::external_body]
pub(crate) fn toml_get_entry_str(doc: &str, table: &str, entry: &str, key: &str) -> (r: Option<String>)
    ensures
        match toml_entry_str(doc@, table@, entry@, key@) {
            Some(t) => r matches Some(s) && s@ == t,
            None => r is None,
        },
{
    match doc.parse::<toml_edit::DocumentMut>() {
        Ok(d) => d.get(table).and_then(|i| i.get(entry)).and_then(|i| i.get(key)).and_then(|i| i.as_str()).map(
            |v| v.to_string(),
        ),
        Err(_) => None,
    }
}

/// Whether a top-level key is present.
pub uninterp spec fn toml_has(doc: Seq<char>, key: Seq<char>) -> bool;

/// `DocumentMut::get(..).is_some()`; an absent key is no table and has no
/// entries.
#[verifier::external_body]
pub(crate) fn toml_contains(doc: &str, key: &str) -> (r: bool)
    ensures
        r == toml_has(doc@, key@),
        !r ==> !toml_table(doc@, key@),
        !r ==> forall|e: Seq<char>| !#[trigger] toml_table_has(doc@, key@, e),
{
    match doc.parse::<toml_edit::DocumentMut>() {
        Ok(d) => d.get(key).is_some(),
        Err(_) => false,
    }
}

/// Whether a top-level key holds a table.
pub uninterp spec fn toml_table(doc: Seq<char>, key: Seq<char>) -> bool;

/// `DocumentMut::get` and `Item::is_table`; an item that is no table has
/// no entries for `Item::as_table` and `Table::contains_key`.
#[verifier::external_body]
pub(crate) fn toml_key_is_table(doc: &str, key: &str) -> (r: bool)
    ensures
        r == toml_table(doc@, key@),
        !r ==> forall|e: Seq<char>| !#[trigger] toml_table_has(doc@, key@, e),
{
    match doc.parse::<toml_edit::DocumentMut>() {
        Ok(d) => match d.get(key) {
            Some(i) => i.is_table(),
            None => false,
        },
        Err(_) => false,
    }
}

/// Whether the top-level table `table` has the key `entry`.
pub uninterp spec fn toml_table_has(doc: Seq<char>, table: Seq<char>, entry: Seq<char>) -> bool;

/// `Item::as_table` and `Table::contains_key`.
#[verifier::external_body]
pub(crate) fn toml_table_contains(doc: &str, table: &str, entry: &str) -> (r: bool)
    ensures
        r == toml_table_has(doc@, table@, entry@),
{
    match doc.parse::<toml_edit::DocumentMut>() {
        Ok(d) => match d.get(table).and_then(|i| i.as_table()) {
            Some(t) => t.contains_key(entry),
            None => false,
        },
        Err(_) => false,
    }
}

/// Whether entry `entry` of the top-level table `table` is a table.
pub uninterp spec fn toml_entry_table(doc: Seq<char>, table: Seq<char>, entry: Seq<char>) -> bool;

/// `Item::get` and `Item::is_table`.
#[verifier::external_body]
pub(crate) fn toml_entry_is_table(doc: &str, table: &str, entry: &str) -> (r: bool)
    ensures
        r == toml_entry_table(doc@, table@, entry@),
{
    match doc.parse::<toml_edit::DocumentMut>() {
        Ok(d) => match d.get(table).and_then(|i| i.get(entry)) {
            Some(i) => i.is_table(),
            None => false,
        },
        Err(_) => false,
    }
}

/// Whether the top-level table `table` is empty.
pub uninterp spec fn toml_table_empty(doc: Seq<char>, table: Seq<char>) -> bool;

/// `Item::as_table` and `Table::is_empty`; an empty table contains no key.
#[verifier::external_body]
pub(crate) fn toml_table_is_empty(doc: &str, table: &str) -> (r: bool)
    ensures
        r == toml_table_empty(doc@, table@),
        r ==> forall|e: Seq<char>| !#[trigger] toml_table_has(doc@, table@, e),
{
    match doc.parse::<toml_edit::DocumentMut>() {
        Ok(d) => match d.get(table).and_then(|i| i.as_table()) {
            Some(t) => t.is_empty(),
            None => false,
        },
        Err(_) => false,
    }
}

/// The document with an integer at a top-level key.
pub uninterp spec fn toml_with_int(doc: Seq<char>, key: Seq<char>, value: i64) -> Seq<char>;

/// `doc[key] = toml_edit::value(value)`, then `to_string`. The contract
/// also claims what the source and documentation show: the text toml_edit
/// writes parses into the same items (as `parse_toml` says of any text it
/// writes), holds the key's line, reads the integer back at the key, and leaves every other
/// top-level key, and the entries of every other table, as they were.
#[verifier::external_body]
pub(crate) fn toml_set_int(doc: &str, key: &str, value: i64) -> (r: String)
    requires
        toml_doc(doc@) is Ok,
    ensures
        r@ == toml_with_int(doc@, key@, value),
        toml_doc(r@) is Ok,
        toml_doc(r@) matches Ok(d) && toml_reads_alike(d, r@),
        crate::text::trim(r@).len() != 0,
        toml_int(r@, key@) == Some(value),
        toml_str(r@, key@) is None,
        forall|k: Seq<char>| k != key@ ==> #[trigger] toml_int(r@, k) == toml_int(doc@, k),
        forall|k: Seq<char>| k != key@ ==> #[trigger] toml_str(r@, k) == toml_str(doc@, k),
        forall|k: Seq<char>| k != key@ ==> #[trigger] toml_table(r@, k) == toml_table(doc@, k),
        forall|t: Seq<char>, e: Seq<char>| t != key@ ==> #[trigger] toml_table_has(r@, t, e) == toml_table_has(doc@, t, e),
        forall|t: Seq<char>, e: Seq<char>|
            t != key@ ==> #[trigger] toml_entry_table(r@, t, e) == toml_entry_table(doc@, t, e),
        forall|t: Seq<char>, e: Seq<char>, k: Seq<char>|
            t != key@ ==> #[trigger] toml_entry_str(r@, t, e, k) == toml_entry_str(doc@, t, e, k),
{
    match doc.parse::<toml_edit::DocumentMut>() {
        Ok(mut d) => {
            d[key] = toml_edit::value(value);
            d.to_string()
        },
        Err(_) => doc.to_string(),
    }
}

/// The document with a string at a top-level key.
pub uninterp spec fn toml_with_str(doc: Seq<char>, key: Seq<char>, value: Seq<char>) -> Seq<char>;

/// `doc[key] = toml_edit::value(value)`, then `to_string`. The contract
/// also claims what the source and documentation show: the text parses
/// into the same items, holds the key's line, reads the string back at the key, and
/// leaves every other top-level key, and the entries of every other table,
/// as they were.
#[verifier::external_body]
pub(crate) fn toml_set_str(doc: &str, key: &str, value: &str) -> (r: String)
    requires
        toml_doc(doc@) is Ok,
    ensures
        r@ == toml_with_str(doc@, key@, value@),
        toml_doc(r@) is Ok,
        toml_doc(r@) matches Ok(d) && toml_reads_alike(d, r@),
        crate::text::trim(r@).len() != 0,
        toml_str(r@, key@) == Some(value@),
        toml_int(r@, key@) is None,
        forall|k: Seq<char>| k != key@ ==> #[trigger] toml_int(r@, k) == toml_int(doc@, k),
        forall|k: Seq<char>| k != key@ ==> #[trigger] toml_str(r@, k) == toml_str(doc@, k),
        forall|k: Seq<char>| k != key@ ==> #[trigger] toml_table(r@, k) == toml_table(doc@, k),
        forall|t: Seq<char>, e: Seq<char>| t != key@ ==> #[trigger] toml_table_has(r@, t, e) == toml_table_has(doc@, t, e),
        forall|t: Seq<char>, e: Seq<char>|
            t != key@ ==> #[trigger] toml_entry_table(r@, t, e) == toml_entry_table(doc@, t, e),
        forall|t: Seq<char>, e: Seq<char>, k: Seq<char>|
            t != key@ ==> #[trigger] toml_entry_str(r@, t, e, k) == toml_entry_str(doc@, t, e, k),
{
    match doc.parse::<toml_edit::DocumentMut>() {
        Ok(mut d) => {
            d[key] = toml_edit::value(value);
            d.to_string()
        },
        Err(_) => doc.to_string(),
    }
}

/// The document without a top-level key.
pub uninterp spec fn toml_without(doc: Seq<char>, key: Seq<char>) -> Seq<char>;

/// `DocumentMut::remove`, then `to_string`. The contract also claims what
/// the source and documentation show: the text parses into the same items,
/// holds nothing at the key, leaves every other top-level key, and the entries of
/// every other table, as they were, and, when blank, holds no integer or
/// string at all.
#[verifier::external_body]
pub(crate) fn toml_remove(doc: &str, key: &str) -> (r: String)
    requires
        toml_doc(doc@) is Ok,
    ensures
        r@ == toml_without(doc@, key@),
        toml_doc(r@) is Ok,
        toml_doc(r@) matches Ok(d) && toml_reads_alike(d, r@),
        toml_int(r@, key@) is None,
        crate::text::trim(r@).len() == 0 ==> forall|k: Seq<char>| #[trigger] toml_int(r@, k) is None,
        toml_str(r@, key@) is None,
        crate::text::trim(r@).len() == 0 ==> forall|k: Seq<char>| #[trigger] toml_str(r@, k) is None,
        !toml_table(r@, key@),
        forall|e: Seq<char>| !#[trigger] toml_table_has(r@, key@, e),
        forall|k: Seq<char>| k != key@ ==> #[trigger] toml_int(r@, k) == toml_int(doc@, k),
        forall|k: Seq<char>| k != key@ ==> #[trigger] toml_str(r@, k) == toml_str(doc@, k),
        forall|k: Seq<char>| k != key@ ==> #[trigger] toml_table(r@, k) == toml_table(doc@, k),
        forall|t: Seq<char>, e: Seq<char>| t != key@ ==> #[trigger] toml_table_has(r@, t, e) == toml_table_has(doc@, t, e),
        forall|t: Seq<char>, e: Seq<char>|
            t != key@ ==> #[trigger] toml_entry_table(r@, t, e) == toml_entry_table(doc@, t, e),
        forall|t: Seq<char>, e: Seq<char>, k: Seq<char>|
            t != key@ ==> #[trigger] toml_entry_str(r@, t, e, k) == toml_entry_str(doc@, t, e, k),
{
    match doc.parse::<toml_edit::DocumentMut>() {
        Ok(mut d) => {
            let _ = d.remove(key);
            d.to_string()
        },
        Err(_) => doc.to_string(),
    }
}

/// The document with an empty table at a top-level key.
pub uninterp spec fn toml_with_table(doc: Seq<char>, key: Seq<char>) -> Seq<char>;

/// `doc[key] = toml_edit::table()`, then `to_string`; the key then holds an
/// empty table, and every other top-level key, and the entries of every
/// other table, stay as they were.
#[verifier::external_body]
pub(crate) fn toml_set_table(doc: &str, key: &str) -> (r: String)
    requires
        toml_doc(doc@) is Ok,
    ensures
        r@ == toml_with_table(doc@, key@),
        toml_table(r@, key@),
        toml_doc(r@) is Ok,
        forall|e: Seq<char>| !#[trigger] toml_table_has(r@, key@, e),
        forall|k: Seq<char>| k != key@ ==> #[trigger] toml_int(r@, k) == toml_int(doc@, k),
        forall|k: Seq<char>| k != key@ ==> #[trigger] toml_str(r@, k) == toml_str(doc@, k),
        forall|k: Seq<char>| k != key@ ==> #[trigger] toml_table(r@, k) == toml_table(doc@, k),
        forall|t: Seq<char>, e: Seq<char>| t != key@ ==> #[trigger] toml_table_has(r@, t, e) == toml_table_has(doc@, t, e),
        forall|t: Seq<char>, e: Seq<char>|
            t != key@ ==> #[trigger] toml_entry_table(r@, t, e) == toml_entry_table(doc@, t, e),
        forall|t: Seq<char>, e: Seq<char>, k: Seq<char>|
            t != key@ ==> #[trigger] toml_entry_str(r@, t, e, k) == toml_entry_str(doc@, t, e, k),
{
    match doc.parse::<toml_edit::DocumentMut>() {
        Ok(mut d) => {
            d[key] = toml_edit::table();
            d.to_string()
        },
        Err(_) => doc.to_string(),
    }
}

/// The document with an empty table as entry `entry` of table `table`.
pub uninterp spec fn toml_with_entry_table(doc: Seq<char>, table: Seq<char>, entry: Seq<char>) -> Seq<char>;

/// `doc[table][entry] = toml_edit::table()`, then `to_string`, on a
/// document whose `table` is a table (else the indexing panics); both are
/// then tables, the entry an empty one, and every other top-level key and
/// every other entry stay as they were.
#[verifier::external_body]
pub(crate) fn toml_set_entry_table(doc: &str, table: &str, entry: &str) -> (r: String)
    requires
        toml_doc(doc@) is Ok,
        toml_table(doc@, table@),
    ensures
        r@ == toml_with_entry_table(doc@, table@, entry@),
        toml_table(r@, table@),
        toml_entry_table(r@, table@, entry@),
        toml_table_has(r@, table@, entry@),
        toml_doc(r@) is Ok,
        forall|k: Seq<char>| #[trigger] toml_entry_str(r@, table@, entry@, k) is None,
        forall|k: Seq<char>| k != table@ ==> #[trigger] toml_int(r@, k) == toml_int(doc@, k),
        forall|k: Seq<char>| k != table@ ==> #[trigger] toml_str(r@, k) == toml_str(doc@, k),
        forall|k: Seq<char>| k != table@ ==> #[trigger] toml_table(r@, k) == toml_table(doc@, k),
        forall|t: Seq<char>, e: Seq<char>|
            t != table@ || e != entry@ ==> #[trigger] toml_table_has(r@, t, e) == toml_table_has(doc@, t, e),
        forall|t: Seq<char>, e: Seq<char>|
            t != table@ || e != entry@ ==> #[trigger] toml_entry_table(r@, t, e) == toml_entry_table(doc@, t, e),
        forall|t: Seq<char>, e: Seq<char>, k: Seq<char>|
            t != table@ || e != entry@ ==> #[trigger] toml_entry_str(r@, t, e, k) == toml_entry_str(doc@, t, e, k),
{
    match doc.parse::<toml_edit::DocumentMut>() {
        Ok(mut d) => {
            d[table][entry] = toml_edit::table();
            d.to_string()
        },
        Err(_) => doc.to_string(),
    }
}

/// The document with a string at `key` of entry `entry` of table `table`.
pub uninterp spec fn toml_with_entry_str(
    doc: Seq<char>,
    table: Seq<char>,
    entry: Seq<char>,
    key: Seq<char>,
    value: Seq<char>,
) -> Seq<char>;

/// `doc[table][entry][key] = toml_edit::value(value)`, then `to_string`, on
/// a document whose `table` and `entry` are tables (else the indexing
/// panics); they stay tables, the string reads back at the key, and the
/// other keys of the entry, every other entry and every other top-level key
/// stay as they were.
#[verifier::external_body]
pub(crate) fn toml_set_entry_str(doc: &str, table: &str, entry: &str, key: &str, value: &str) -> (r: String)
    requires
        toml_doc(doc@) is Ok,
        toml_table(doc@, table@),
        toml_entry_table(doc@, table@, entry@),
    ensures
        r@ == toml_with_entry_str(doc@, table@, entry@, key@, value@),
        toml_table(r@, table@),
        toml_entry_table(r@, table@, entry@),
        toml_doc(r@) is Ok,
        toml_table_has(r@, table@, entry@),
        toml_entry_str(r@, table@, entry@, key@) == Some(value@),
        forall|k: Seq<char>|
            k != key@ ==> #[trigger] toml_entry_str(r@, table@, entry@, k) == toml_entry_str(doc@, table@, entry@, k),
        forall|k: Seq<char>| k != table@ ==> #[trigger] toml_int(r@, k) == toml_int(doc@, k),
        forall|k: Seq<char>| k != table@ ==> #[trigger] toml_str(r@, k) == toml_str(doc@, k),
        forall|k: Seq<char>| k != table@ ==> #[trigger] toml_table(r@, k) == toml_table(doc@, k),
        forall|t: Seq<char>, e: Seq<char>|
            t != table@ || e != entry@ ==> #[trigger] toml_table_has(r@, t, e) == toml_table_has(doc@, t, e),
        forall|t: Seq<char>, e: Seq<char>|
            t != table@ || e != entry@ ==> #[trigger] toml_entry_table(r@, t, e) == toml_entry_table(doc@, t, e),
        forall|t: Seq<char>, e: Seq<char>, k: Seq<char>|
            t != table@ || e != entry@ ==> #[trigger] toml_entry_str(r@, t, e, k) == toml_entry_str(doc@, t, e, k),
{
    match doc.parse::<toml_edit::DocumentMut>() {
        Ok(mut d) => {
            d[table][entry][key] = toml_edit::value(value);
            d.to_string()
        },
        Err(_) => doc.to_string(),
    }
}

/// The document with a boolean at `key` of entry `entry` of table `table`.
pub uninterp spec fn toml_with_entry_bool(
    doc: Seq<char>,
    table: Seq<char>,
    entry: Seq<char>,
    key: Seq<char>,
    value: bool,
) -> Seq<char>;

/// `doc[table][entry][key] = toml_edit::value(value)`, then `to_string`, on
/// a document whose `table` and `entry` are tables; they stay tables, the
/// text parses into the same items and holds the entry's lines, and the
/// other strings of the entry, every other entry and every other top-level
/// key stay as they were. (No function of the library reads a boolean back,
/// so what the boolean reads as is not named.)
#[verifier::external_body]
pub(crate) fn toml_set_entry_bool(doc: &str, table: &str, entry: &str, key: &str, value: bool) -> (r: String)
    requires
        toml_doc(doc@) is Ok,
        toml_table(doc@, table@),
        toml_entry_table(doc@, table@, entry@),
    ensures
        r@ == toml_with_entry_bool(doc@, table@, entry@, key@, value),
        toml_table(r@, table@),
        toml_entry_table(r@, table@, entry@),
        toml_doc(r@) is Ok,
        toml_doc(r@) matches Ok(d) && toml_reads_alike(d, r@),
        crate::text::trim(r@).len() != 0,
        toml_table_has(r@, table@, entry@),
        forall|k: Seq<char>|
            k != key@ ==> #[trigger] toml_entry_str(r@, table@, entry@, k) == toml_entry_str(doc@, table@, entry@, k),
        forall|k: Seq<char>| k != table@ ==> #[trigger] toml_int(r@, k) == toml_int(doc@, k),
        forall|k: Seq<char>| k != table@ ==> #[trigger] toml_str(r@, k) == toml_str(doc@, k),
        forall|k: Seq<char>| k != table@ ==> #[trigger] toml_table(r@, k) == toml_table(doc@, k),
        forall|t: Seq<char>, e: Seq<char>|
            t != table@ || e != entry@ ==> #[trigger] toml_table_has(r@, t, e) == toml_table_has(doc@, t, e),
        forall|t: Seq<char>, e: Seq<char>|
            t != table@ || e != entry@ ==> #[trigger] toml_entry_table(r@, t, e) == toml_entry_table(doc@, t, e),
        forall|t: Seq<char>, e: Seq<char>, k: Seq<char>|
            t != table@ || e != entry@ ==> #[trigger] toml_entry_str(r@, t, e, k) == toml_entry_str(doc@, t, e, k),
{
    match doc.parse::<toml_edit::DocumentMut>() {
        Ok(mut d) => {
            d[table][entry][key] = toml_edit::value(value);
            d.to_string()
        },
        Err(_) => doc.to_string(),
    }
}

/// The document without entry `entry` of table `table`.
pub uninterp spec fn toml_without_entry(doc: Seq<char>, table: Seq<char>, entry: Seq<char>) -> Seq<char>;

/// `Item::as_table_mut` and `Table::remove`, then `to_string`: the entry is
/// gone, and every other entry and every other top-level key stay as they
/// were. `table` stays a table, unless it was only implied by its entries'
/// headers (`[table.entry]`) and this was its last entry: toml_edit then
/// writes nothing for it, so it holds no entry at all.
#[verifier::external_body]
pub(crate) fn toml_remove_entry(doc: &str, table: &str, entry: &str) -> (r: String)
    requires
        toml_doc(doc@) is Ok,
        toml_table(doc@, table@),
    ensures
        r@ == toml_without_entry(doc@, table@, entry@),
        toml_table(r@, table@) || forall|e: Seq<char>| !#[trigger] toml_table_has(r@, table@, e),
        toml_doc(r@) is Ok,
        !toml_table_has(r@, table@, entry@),
        forall|k: Seq<char>| k != table@ ==> #[trigger] toml_int(r@, k) == toml_int(doc@, k),
        forall|k: Seq<char>| k != table@ ==> #[trigger] toml_str(r@, k) == toml_str(doc@, k),
        forall|k: Seq<char>| k != table@ ==> #[trigger] toml_table(r@, k) == toml_table(doc@, k),
        forall|t: Seq<char>, e: Seq<char>|
            t != table@ || e != entry@ ==> #[trigger] toml_table_has(r@, t, e) == toml_table_has(doc@, t, e),
        forall|t: Seq<char>, e: Seq<char>|
            t != table@ || e != entry@ ==> #[trigger] toml_entry_table(r@, t, e) == toml_entry_table(doc@, t, e),
        forall|t: Seq<char>, e: Seq<char>, k: Seq<char>|
            t != table@ || e != entry@ ==> #[trigger] toml_entry_str(r@, t, e, k) == toml_entry_str(doc@, t, e, k),
{
    match doc.parse::<toml_edit::DocumentMut>() {
        Ok(mut d) => {
            if let Some(t) = d[table].as_table_mut() {
                let _ = t.remove(entry);
            }
            d.to_string()
        },
        Err(_) => doc.to_string(),
    }
}

/// A JSON object text with `key` set to the JSON value `value`, written
/// with `to_string_pretty`, or the error's message.
pub uninterp spec fn json_pretty_with_member(doc: Seq<char>, key: Seq<char>, value: Seq<char>) -> Result<
    Seq<char>,
    Seq<char>,
>;

/// `serde_json::from_str` of both texts, `Map::insert` into the object, and
/// `serde_json::to_string_pretty`. The contract claims only that the result
/// is a function of the three texts (`json_pretty_with_member`).
#[verifier::external_body]
pub(crate) fn json_set_member_pretty(doc: &str, key: &str, value: &str) -> (r: Result<String, String>)
    ensures
        match json_pretty_with_member(doc@, key@, value@) {
            Ok(t) => r matches Ok(s) && s@ == t,
            Err(e) => r matches Err(m) && m@ == e,
        },
{
    let mut object = serde_json::from_str::<serde_json::Value>(doc).map_err(|e| e.to_string())?;
    let member = serde_json::from_str::<serde_json::Value>(value).map_err(|e| e.to_string())?;
    if let Some(map) = object.as_object_mut() {
        map.insert(key.to_string(), member);
    }
    serde_json::to_string_pretty(&object).map_err(|e| e.to_string())
}

} // verus!
