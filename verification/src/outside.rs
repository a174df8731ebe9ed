//! What the library takes on trust.
//!
//! Each function here makes one call into another crate and hands back plain
//! values. Verus does not read the bodies: the contracts are assumptions,
//! stated as far as the other crate's documentation goes and no further.
//! Where a result is settled by the arguments but too long to write out, it
//! has a name, and the contract says only that the call returns what the
//! name stands for. One function of the standard library is given its
//! contract here as well.

use crate::differ::{comparable, ChangeTag, DiffLine, DiffLineView};
use crate::document::{Json, JsonView};
use crate::numbers::fractions_fit;
use vstd::prelude::*;

verus! {

/// `String::push` appends the character to the end of the string.
pub assume_specification[ String::push ](s: &mut String, c: char)
    ensures
        final(s)@ == old(s)@.push(c),
;

/// The error of `regex` when it rejects a pattern.
#[verifier::external_type_specification]
#[verifier::external_body]
pub struct ExRegexError(regex::Error);

/// The error of `json` when it rejects a text.
#[verifier::external_type_specification]
#[verifier::external_body]
pub struct ExJsonError(json::Error);

/// A value as the `json` crate holds it.
#[verifier::external_type_specification]
#[verifier::external_body]
pub struct ExJsonValue(json::JsonValue);

/// What searching `text` for the regular expression `expression` yields for
/// the group of that number: `None` where `regex` rejects the expression;
/// else `Some(None)` where it matches nowhere or its first match leaves the
/// group out; else the part of `text` that the group covers in the first
/// match.
pub uninterp spec fn group_found(expression: Seq<char>, text: Seq<char>, group: nat) -> Option<
    Option<Seq<char>>,
>;

/// `text` with its HTML character references decoded, as `html_escape` does it.
pub uninterp spec fn entities_decoded(text: Seq<char>) -> Seq<char>;

/// The value that `json` parses `text` into, or `None` where it rejects the
/// text.
pub uninterp spec fn parsed(text: Seq<char>) -> Option<JsonView>;

/// What `value` holds, as a tree.
pub uninterp spec fn tree(value: json::JsonValue) -> JsonView;

/// Calls `regex::Regex::new` on `expression` and `Regex::captures` on `text`,
/// and copies what `Captures::get` covers for `group`. The search depends on
/// the two texts and the number alone; the contract gives its outcome the
/// name `group_found`.
#[verifier::external_body]
pub(crate) fn search_group(expression: &str, text: &str, group: usize) -> (r: Result<
    Option<String>,
    regex::Error,
>)
    ensures
        group_found(expression@, text@, group as nat) == match r {
            Ok(Some(s)) => Some(Some(s@)),
            Ok(None) => Some(None::<Seq<char>>),
            Err(_) => None,
        },
{
    let re = regex::Regex::new(expression)?;
    match re.captures(text) {
        Some(found) => match found.get(group) {
            Some(part) => Ok(Some(part.as_str().to_string())),
            None => Ok(None),
        },
        None => Ok(None),
    }
}

/// Calls `html_escape::decode_html_entities`, which replaces the named and
/// numeric character references that end in `;` and leaves the rest of the
/// text as it is. The result depends on the text alone; the contract gives
/// it the name `entities_decoded`.
#[verifier::external_body]
pub(crate) fn decode_entities(text: &str) -> (r: String)
    ensures
        r@ == entities_decoded(text@),
{
    html_escape::decode_html_entities(text).into_owned()
}

/// Calls `json::parse`. Whether the text is accepted, and the value it is
/// parsed into, depend on the text alone; the contract names the value by
/// the tree that holds the same.
///
/// The parser counts the digits of a fraction in a signed 16-bit exponent,
/// one step down for each digit behind the point that still goes into the
/// mantissa, and does not check that count: where it runs past the least
/// value of the exponent the parser panics, or, built without overflow
/// checks, hands back a number with a wrong exponent. Texts in which that
/// happens are left out; `fractions_fit` follows the parser's count to find
/// them. Digits before a point are counted with a check, and an exponent
/// that is written out is read with saturating arithmetic.
#[verifier::external_body]
pub(crate) fn parse_json(text: &str) -> (r: Result<json::JsonValue, json::Error>)
    requires
        fractions_fit(text@),
    ensures
        parsed(text@) == match r {
            Ok(value) => Some(tree(value)),
            Err(_) => None,
        },
{
    json::parse(text)
}

/// Copies a `json::JsonValue` into a tree, variant by variant: a short and a
/// long string both become a text, a number is kept as the parts that
/// `Number::as_parts` gives, an object's entries keep the order of
/// `Object::iter`.
#[verifier::external_body]
pub(crate) fn tree_of(value: &json::JsonValue) -> (t: Json)
    ensures
        t@ == tree(*value),
{
    match value {
        json::JsonValue::Null => Json::Null,
        json::JsonValue::Boolean(b) => Json::Bool(*b),
        json::JsonValue::Number(n) => Json::Number(n.as_parts()),
        json::JsonValue::Short(s) => Json::Text(s.as_str().to_string()),
        json::JsonValue::String(s) => Json::Text(s.clone()),
        json::JsonValue::Array(items) => Json::Array(items.iter().map(tree_of).collect()),
        json::JsonValue::Object(o) => Json::Object(
            o.iter().map(|(k, v)| (k.to_string(), tree_of(v))).collect(),
        ),
    }
}

/// The changes that `similar` finds between the lines of `old` and those of
/// `new`, in the order in which it hands them out.
pub uninterp spec fn changes_by_line(old: Seq<char>, new: Seq<char>) -> Seq<DiffLineView>;

/// Calls `similar::TextDiff::from_lines` and copies what
/// `TextDiff::iter_all_changes` hands out: of each change its tag, from
/// `Change::tag`, and its text, from `Change::value`. The diff is made
/// without a deadline, so it depends on the two texts alone; the contract
/// gives it the name `changes_by_line` and says nothing of what it holds.
///
/// Where a text has more than a hundred lines, the distinct lines of the two
/// texts are numbered in a `u32` that is counted up without a check. Texts
/// that together have more lines than that number holds are left out.
#[verifier::external_body]
pub(crate) fn line_changes(old: &str, new: &str) -> (r: Vec<DiffLine>)
    requires
        comparable(old@, new@),
    ensures
        r@.map_values(|l: DiffLine| l@) == changes_by_line(old@, new@),
{
    let compared = similar::TextDiff::from_lines(old, new);
    let mut out = Vec::new();
    for change in compared.iter_all_changes() {
        let tag = match change.tag() {
            similar::ChangeTag::Equal => ChangeTag::Equal,
            similar::ChangeTag::Delete => ChangeTag::Deleted,
            similar::ChangeTag::Insert => ChangeTag::Inserted,
        };
        out.push(DiffLine { tag, text: change.value().to_string() });
    }
    out
}

/// Calls `termion::color::Red::fg_str`, which gives the escape sequence that
/// selects colour 1 of the 256-colour palette for the foreground.
#[verifier::external_body]
pub(crate) fn red_foreground() -> (r: &'static str)
    ensures
        r@ == seq!['\u{1b}', '[', '3', '8', ';', '5', ';', '1', 'm'],
{
    termion::color::Red.fg_str()
}

/// Calls `termion::color::Green::fg_str`, which gives the escape sequence
/// that selects colour 2 of the 256-colour palette for the foreground.
#[verifier::external_body]
pub(crate) fn green_foreground() -> (r: &'static str)
    ensures
        r@ == seq!['\u{1b}', '[', '3', '8', ';', '5', ';', '2', 'm'],
{
    termion::color::Green.fg_str()
}

/// Calls `termion::color::Reset::fg_str`, which gives the escape sequence
/// that sets the foreground back to the terminal's default.
#[verifier::external_body]
pub(crate) fn default_foreground() -> (r: &'static str)
    ensures
        r@ == seq!['\u{1b}', '[', '3', '9', 'm'],
{
    termion::color::Reset.fg_str()
}

} // verus!
