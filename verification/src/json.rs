//! JSON values, carried as text. The outside parser decides what a document
//! holds; the library reads single places of it.
use vstd::prelude::*;
use vstd::string::StringExecFns;
use crate::text::{decimal, hex, join, joined, opt_view, same, text, views};

verus! {

/// A JSON value, held as text.
#[derive(Debug, PartialEq, Eq)]
pub struct Json {
    pub text: String,
}

impl Clone for Json {
    fn clone(&self) -> (r: Self)
        ensures
            r == *self,
    {
        Json { text: self.text.clone() }
    }
}

impl Json {
    /// The value `null`.
    pub fn null() -> (r: Json)
        ensures
            r.text@ == "null"@,
    {
        Json { text: text("null") }
    }
}

/// The message of the JSON library for a document that is not JSON; nothing for
/// one that is.
pub uninterp spec fn json_error(document: Seq<char>) -> Option<Seq<char>>;

/// The string at a place of a document; nothing where the document is not JSON,
/// has no such place, or holds something else there.
pub uninterp spec fn json_string(document: Seq<char>, pointer: Seq<char>) -> Option<Seq<char>>;

/// The unsigned number at a place of a document, where there is one.
pub uninterp spec fn json_number(document: Seq<char>, pointer: Seq<char>) -> Option<u64>;

/// The truth value at a place of a document, where there is one.
pub uninterp spec fn json_bool(document: Seq<char>, pointer: Seq<char>) -> Option<bool>;

/// The length of the array at a place of a document, where there is one.
pub uninterp spec fn json_array_len(document: Seq<char>, pointer: Seq<char>) -> Option<usize>;

/// The compact text of the value at a place of a document, where there is one.
pub uninterp spec fn json_value(document: Seq<char>, pointer: Seq<char>) -> Option<Seq<char>>;

/// The signed number at a place of a document, where there is one.
pub uninterp spec fn json_signed(document: Seq<char>, pointer: Seq<char>) -> Option<i64>;

/// The keys of the object at a place of a document, where there is one.
pub uninterp spec fn json_keys(document: Seq<char>, pointer: Seq<char>) -> Option<Seq<Seq<char>>>;

/// The compact text of an object with a number put under a key; nothing where
/// the document holds no object.
pub uninterp spec fn json_with_number(document: Seq<char>, key: Seq<char>, number: u64) -> Option<
    Seq<char>,
>;

/// The indented text of the value a document holds, where it is JSON.
pub uninterp spec fn pretty_json(document: Seq<char>) -> Option<Seq<char>>;

/// The message of `serde_json::from_str` into a `serde_json::Value`. Claimed:
/// it depends on the document alone.
#[verifier::external_body]
pub(crate) fn parse_error(document: &str) -> (r: Option<String>)
    ensures
        opt_view(r) == json_error(document@),
{
    serde_json::from_str::<serde_json::Value>(document).err().map(|e| e.to_string())
}

/// `serde_json::Value::pointer` and `serde_json::Value::as_str` on the parsed
/// document. Claimed: the result depends on the document and the pointer alone;
/// the message is read back from a document that reports an error, and the
/// revision from one that stands for a checkpoint.
#[verifier::external_body]
pub(crate) fn string_at(document: &str, pointer: &str) -> (r: Option<String>)
    ensures
        opt_view(r) == json_string(document@, pointer@),
        forall|message: Seq<char>|
            document@ == #[trigger] error_json(message) && pointer@ == "/error"@ ==> opt_view(r)
                == Some(message),
        forall|id: u64, revision: Seq<char>|
            document@ == #[trigger] checkpoint_json(id, revision) && pointer@ == "/revision"@
                ==> opt_view(r) == Some(revision),
{
    let value = serde_json::from_str::<serde_json::Value>(document).ok()?;
    value.pointer(pointer)?.as_str().map(|s| s.to_string())
}

/// `serde_json::Value::pointer` and `serde_json::Value::as_u64` on the parsed
/// document. Claimed: the result depends on the document and the pointer alone; a
/// document that is a decimal number holds that number, and the number of a
/// checkpoint is read back from the document that stands for it.
#[verifier::external_body]
pub(crate) fn number_at(document: &str, pointer: &str) -> (r: Option<u64>)
    ensures
        r == json_number(document@, pointer@),
        forall|n: u64|
            document@ == #[trigger] decimal(n as nat) && pointer@ == ""@ ==> r == Some(n),
        forall|id: u64, revision: Seq<char>|
            document@ == #[trigger] checkpoint_json(id, revision) && pointer@ == "/id"@ ==> r
                == Some(id),
{
    let value = serde_json::from_str::<serde_json::Value>(document).ok()?;
    value.pointer(pointer)?.as_u64()
}

/// `serde_json::Value::pointer` and `serde_json::Value::as_bool` on the parsed
/// document. Claimed: the result depends on the document and the pointer alone.
#[verifier::external_body]
pub(crate) fn bool_at(document: &str, pointer: &str) -> (r: Option<bool>)
    ensures
        r == json_bool(document@, pointer@),
{
    let value = serde_json::from_str::<serde_json::Value>(document).ok()?;
    value.pointer(pointer)?.as_bool()
}

/// `serde_json::Value::pointer` and `serde_json::Value::as_array` on the parsed
/// document, of which the length is taken. Claimed: the result depends on the
/// document and the pointer alone.
#[verifier::external_body]
pub(crate) fn array_len_at(document: &str, pointer: &str) -> (r: Option<usize>)
    ensures
        r == json_array_len(document@, pointer@),
{
    let value = serde_json::from_str::<serde_json::Value>(document).ok()?;
    value.pointer(pointer)?.as_array().map(|items| items.len())
}

/// `serde_json::Value::pointer` on the parsed document, then
/// `serde_json::to_string` of what is there. Claimed: the result depends on the
/// document and the pointer alone; a document that reports an error holds its
/// message under `error`, and one that stands for a checkpoint nothing.
#[verifier::external_body]
pub(crate) fn value_at(document: &str, pointer: &str) -> (r: Option<String>)
    ensures
        opt_view(r) == json_value(document@, pointer@),
        forall|message: Seq<char>|
            document@ == #[trigger] error_json(message) && pointer@ == "/error"@ ==> opt_view(r)
                == Some(quoted(message)),
        forall|id: u64, revision: Seq<char>|
            document@ == #[trigger] checkpoint_json(id, revision) && pointer@ == "/error"@ ==> r
                is None,
{
    let value = serde_json::from_str::<serde_json::Value>(document).ok()?;
    serde_json::to_string(value.pointer(pointer)?).ok()
}

/// `serde_json::Value::pointer` and `serde_json::Value::as_i64` on the parsed
/// document. Claimed: the result depends on the document and the pointer alone.
#[verifier::external_body]
pub(crate) fn signed_at(document: &str, pointer: &str) -> (r: Option<i64>)
    ensures
        r == json_signed(document@, pointer@),
{
    let value = serde_json::from_str::<serde_json::Value>(document).ok()?;
    value.pointer(pointer)?.as_i64()
}

/// The texts of optional strings.
pub open spec fn opt_views(r: Option<Vec<String>>) -> Option<Seq<Seq<char>>> {
    match r {
        Some(keys) => Some(views(keys@)),
        None => None,
    }
}

/// `serde_json::Value::pointer` and `serde_json::Value::as_object` on the parsed
/// document, of which the keys are taken. Claimed: the result depends on the
/// document and the pointer alone.
#[verifier::external_body]
pub(crate) fn keys_at(document: &str, pointer: &str) -> (r: Option<Vec<String>>)
    ensures
        opt_views(r) == json_keys(document@, pointer@),
{
    let value = serde_json::from_str::<serde_json::Value>(document).ok()?;
    value.pointer(pointer)?.as_object().map(|o| o.keys().cloned().collect())
}

/// `serde_json::Map::insert` of a number into the parsed document, then
/// `serde_json::to_string`. Claimed: the result depends on the document, the key
/// and the number alone.
#[verifier::external_body]
pub(crate) fn insert_number(document: &str, key: &str, number: u64) -> (r: Option<String>)
    ensures
        opt_view(r) == json_with_number(document@, key@, number),
{
    let mut value = serde_json::from_str::<serde_json::Value>(document).ok()?;
    value.as_object_mut()?.insert(key.to_string(), number.into());
    serde_json::to_string(&value).ok()
}

/// `serde_json::to_string_pretty` of the parsed document. Claimed: the result
/// depends on the document alone.
#[verifier::external_body]
fn print_pretty(document: &str) -> (r: Option<String>)
    ensures
        opt_view(r) == pretty_json(document@),
{
    let value = serde_json::from_str::<serde_json::Value>(document).ok()?;
    serde_json::to_string_pretty(&value).ok()
}

/// A character as it is written inside a JSON string.
pub open spec fn escaped_char(c: char) -> Seq<char> {
    if c == '"' {
        seq!['\\', '"']
    } else if c == '\\' {
        seq!['\\', '\\']
    } else if c == '\u{8}' {
        seq!['\\', 'b']
    } else if c == '\u{c}' {
        seq!['\\', 'f']
    } else if c == '\n' {
        seq!['\\', 'n']
    } else if c == '\r' {
        seq!['\\', 'r']
    } else if c == '\t' {
        seq!['\\', 't']
    } else if (c as u32) < 32 {
        seq!['\\', 'u', '0', '0'] + hex(c as nat, 2)
    } else {
        seq![c]
    }
}

/// A text as it is written inside a JSON string.
pub open spec fn escaped(s: Seq<char>) -> Seq<char>
    decreases s.len(),
{
    if s.len() == 0 {
        Seq::empty()
    } else {
        escaped(s.drop_last()) + escaped_char(s.last())
    }
}

/// A text as a JSON string.
pub open spec fn quoted(s: Seq<char>) -> Seq<char> {
    seq!['"'] + escaped(s) + seq!['"']
}

/// The list of some documents.
pub open spec fn list_json(items: Seq<Seq<char>>) -> Seq<char> {
    "["@ + joined(items, ","@) + "]"@
}

/// The list of some documents.
pub fn write_list(items: &Vec<String>) -> (r: String)
    ensures
        r@ == list_json(views(items@)),
{
    let mut s = text("[");
    s.append(join(items, ",").as_str());
    s.append("]");
    s
}

/// The list of some texts.
pub open spec fn texts_json(texts: Seq<Seq<char>>) -> Seq<char> {
    list_json(texts.map_values(|s: Seq<char>| quoted(s)))
}

/// The list of some texts.
pub fn write_texts(texts: &Vec<String>) -> (r: String)
    ensures
        r@ == texts_json(views(texts@)),
{
    let mut items: Vec<String> = Vec::new();
    let mut i: usize = 0;
    let ghost all = views(texts@).map_values(|s: Seq<char>| quoted(s));
    while i < texts.len()
        invariant
            i <= texts.len(),
            all == views(texts@).map_values(|s: Seq<char>| quoted(s)),
            views(items@) == all.take(i as int),
        decreases texts.len() - i,
    {
        let ghost was = items@;
        items.push(quote(texts[i].as_str()));
        proof {
            assert(views(items@) =~= views(was).push(all[i as int]));
            assert(all.take(i + 1) =~= all.take(i as int).push(all[i as int]));
        }
        i = i + 1;
    }
    proof {
        assert(all.take(i as int) =~= all);
    }
    write_list(&items)
}

/// The document that reports an error.
pub open spec fn error_json(message: Seq<char>) -> Seq<char> {
    "{\"error\":"@ + quoted(message) + "}"@
}

/// The document that stands for a checkpoint.
pub open spec fn checkpoint_json(id: u64, revision: Seq<char>) -> Seq<char> {
    "{\"id\":"@ + decimal(id as nat) + ",\"revision\":"@ + quoted(revision) + "}"@
}

/// `serde_json::to_string` of a string. Claimed: the characters between double
/// quotes, with a backslash before a quote or a backslash, the short escapes of
/// backspace, form feed, line feed, carriage return and tab, and `\u00` with two
/// lower-case digits for the other characters below space.
#[verifier::external_body]
pub(crate) fn quote(s: &str) -> (r: String)
    ensures
        r@ == quoted(s@),
{
    serde_json::to_string(s).unwrap_or_default()
}

impl Json {
    /// The compact form of a document.
    pub fn parse(document: &str) -> (r: Result<Json, String>)
        ensures
            match r {
                Ok(value) => json_error(document@) is None && value.text@ == (
                match json_value(document@, ""@) {
                    Some(compact) => compact,
                    None => "null"@,
                }),
                Err(message) => json_error(document@) == Some(message@),
            },
    {
        match parse_error(document) {
            Some(message) => Err(message),
            None => match value_at(document, "") {
                Some(compact) => Ok(Json { text: compact }),
                None => Ok(Json::null()),
            },
        }
    }

    /// Whether the value is `null`.
    pub fn is_null(&self) -> (r: bool)
        ensures
            r == (self.text@ == "null"@),
    {
        same(self.text.as_str(), "null")
    }

    /// The value in compact form; `null` where the text is not JSON.
    pub open spec fn compact(self) -> Seq<char> {
        match json_value(self.text@, ""@) {
            Some(printed) => printed,
            None => "null"@,
        }
    }

    /// The value in compact form.
    pub fn compact_text(&self) -> (r: String)
        ensures
            r@ == self.compact(),
    {
        match value_at(self.text.as_str(), "") {
            Some(printed) => printed,
            None => text("null"),
        }
    }

    /// The value in indented form; `null` where the text is not JSON.
    pub open spec fn pretty(self) -> Seq<char> {
        match pretty_json(self.text@) {
            Some(printed) => printed,
            None => "null"@,
        }
    }

    /// The value in indented form.
    pub fn pretty_text(&self) -> (r: String)
        ensures
            r@ == self.pretty(),
    {
        match print_pretty(self.text.as_str()) {
            Some(printed) => printed,
            None => text("null"),
        }
    }

    /// The unsigned number at a place of the value, where there is one.
    pub fn number_at(&self, pointer: &str) -> (r: Option<u64>)
        ensures
            r == json_number(self.text@, pointer@),
    {
        number_at(self.text.as_str(), pointer)
    }

    /// The truth value at a place of the value, where there is one.
    pub fn bool_at(&self, pointer: &str) -> (r: Option<bool>)
        ensures
            r == json_bool(self.text@, pointer@),
    {
        bool_at(self.text.as_str(), pointer)
    }

    /// The string at a place of the value, where there is one.
    pub fn str_at(&self, pointer: &str) -> (r: Option<String>)
        ensures
            opt_view(r) == json_string(self.text@, pointer@),
    {
        string_at(self.text.as_str(), pointer)
    }
}

} // verus!
