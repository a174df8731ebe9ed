//! From a fetched page to the snapshot text.
//!
//! The page carries its product data as JSON, escaped for HTML, in one
//! attribute of one element. The data is searched for, unescaped and parsed
//! by other crates. What the search hands back is held against the page
//! before it is used: it counts only if it is the value of that attribute in
//! the first such element. What is read from the parsed document, and how
//! the records are rendered, sorted and joined, is settled here.

use crate::chars::{
    chars_of, find_from, first_at, matches_at, occurs_at, push_all, replace_all, replaced,
    text_of, texts,
};
use crate::document::{field_of, json_views, text_of_value, Json, JsonView};
use crate::numbers::{fractions_fit, has_fitting_fractions};
use crate::outside::{
    decode_entities, entities_decoded, group_found, parse_json, parsed, search_group, tree_of,
};
use crate::sorting::{mapped_members_agree, sort_lines, sorted_texts, sorting_ignores_order};
use vstd::prelude::*;

verus! {

/// Why a page yields no snapshot.
#[derive(Clone, Copy, Debug, PartialEq, Eq, Structural)]
pub enum ExtractionError {
    /// The page holds no element with the embedded data.
    NoEmbeddedData,
    /// The embedded data is not a structured document, or a number in it has
    /// a fraction that the parser cannot count.
    MalformedData,
    /// A listed product lacks its name, its address or its year: a date of
    /// fewer than four characters holds no year.
    IncompleteRecord,
}

/// One product of the catalogue.
#[derive(Debug, PartialEq, Eq)]
pub struct Device {
    pub name: String,
    pub url: String,
    pub start_price: u16,
    pub year: String,
}

/// A product, as contracts see it.
pub struct DeviceView {
    pub name: Seq<char>,
    pub url: Seq<char>,
    pub start_price: nat,
    pub year: Seq<char>,
}

impl View for Device {
    type V = DeviceView;

    open spec fn view(&self) -> DeviceView {
        DeviceView {
            name: self.name@,
            url: self.url@,
            start_price: self.start_price as nat,
            year: self.year@,
        }
    }
}

/// The views of the devices, in order.
pub open spec fn views(devices: Seq<Device>) -> Seq<DeviceView> {
    devices.map_values(|d: Device| d@)
}

/// How the element that carries the embedded data opens, up to the quote
/// that opens the value of its `data-json` attribute.
pub const DATA_OPENING: &'static str = "<div class=\"d-none\" id=\"ConsumerData\" data-json=\"";

/// How the element that carries the embedded data closes, from the quote that
/// closes the value of its attribute.
pub const DATA_CLOSING: &'static str = "\"></div>";

/// The number of the group that covers the embedded data in `data_pattern`.
pub const DATA_GROUP: usize = 1;

/// The regular expression that finds the embedded data in a page: the opening
/// of the element, the shortest run of any characters, line feeds among
/// them, as the one group, and the closing. Neither the opening nor the closing
/// holds a character that a regular expression reads as anything but itself.
pub open spec fn data_pattern() -> Seq<char> {
    "(?s)"@ + DATA_OPENING@ + "(.*?)"@ + DATA_CLOSING@
}

/// Whether `data` is the value of the attribute of the element that opens
/// at index `i`, and that element is the first in `source`: the opening
/// stands nowhere before `i`, `data` stands behind it, and the closing stands
/// behind `data` and nowhere between the opening and there.
pub open spec fn framed_at(source: Seq<char>, data: Seq<char>, i: int) -> bool {
    &&& first_at(source, DATA_OPENING@, 0, i)
    &&& occurs_at(source, data, i + DATA_OPENING@.len())
    &&& first_at(
        source,
        DATA_CLOSING@,
        i + DATA_OPENING@.len(),
        i + DATA_OPENING@.len() + data.len(),
    )
}

/// Whether `data` is the value of the attribute of the first element in
/// `source`.
pub open spec fn framed(source: Seq<char>, data: Seq<char>) -> bool {
    exists|i: int| framed_at(source, data, i)
}

/// A page frames one value at most.
pub proof fn framed_value_is_one(source: Seq<char>, a: Seq<char>, b: Seq<char>)
    requires
        framed(source, a),
        framed(source, b),
    ensures
        a == b,
{
    let i = choose|i: int| framed_at(source, a, i);
    let j = choose|j: int| framed_at(source, b, j);
    assert(i == j);
    let start = i + DATA_OPENING@.len();
    assert(start + a.len() == start + b.len());
    assert(a =~= source.subrange(start, start + a.len()));
    assert(b =~= source.subrange(start, start + b.len()));
}

/// The embedded data of a page: what the search with `data_pattern` finds,
/// where that is the value of the attribute of the first element in the
/// page.
pub open spec fn embedded(source: Seq<char>) -> Option<Seq<char>> {
    match group_found(data_pattern(), source, DATA_GROUP as nat) {
        Some(Some(data)) => if framed(source, data) {
            Some(data)
        } else {
            None
        },
        _ => None,
    }
}

/// What embedded data yields: it is unescaped and, where the parser can count
/// its fractions, parsed, and the document is read.
pub open spec fn data_results(data: Seq<char>) -> Result<Seq<char>, ExtractionError> {
    let text = entities_decoded(data);
    if !fractions_fit(text) {
        Err(ExtractionError::MalformedData)
    } else {
        match parsed(text) {
            Some(doc) => document_results(doc),
            None => Err(ExtractionError::MalformedData),
        }
    }
}

/// The number of characters of a date that make its year.
pub const YEAR_LENGTH: usize = 4;

/// A label without its non-breaking spaces: each `&nbsp;` becomes one space.
pub open spec fn clean_label(label: Seq<char>) -> Seq<char> {
    replaced(label, "&nbsp;"@, " "@)
}

/// Replaces each `&nbsp;` in a label by a space.
pub fn cleanup_labels(value: String) -> (r: String)
    ensures
        r@ == clean_label(value@),
{
    let label = chars_of(value.as_str());
    let pat = chars_of("&nbsp;");
    let to = chars_of(" ");
    let cleaned = replace_all(label.as_slice(), pat.as_slice(), to.as_slice());
    text_of(cleaned.as_slice())
}

/// The decimal digit for `d`.
pub open spec fn digit(d: nat) -> char {
    if d == 0 {
        '0'
    } else if d == 1 {
        '1'
    } else if d == 2 {
        '2'
    } else if d == 3 {
        '3'
    } else if d == 4 {
        '4'
    } else if d == 5 {
        '5'
    } else if d == 6 {
        '6'
    } else if d == 7 {
        '7'
    } else if d == 8 {
        '8'
    } else {
        '9'
    }
}

/// `n` in decimal digits, without leading zeros.
pub open spec fn decimal(n: nat) -> Seq<char>
    decreases n,
{
    if n < 10 {
        seq![digit(n)]
    } else {
        decimal(n / 10).push(digit(n % 10))
    }
}

fn digit_of(d: u64) -> (c: char)
    requires
        d < 10,
    ensures
        c == digit(d as nat),
{
    if d == 0 {
        '0'
    } else if d == 1 {
        '1'
    } else if d == 2 {
        '2'
    } else if d == 3 {
        '3'
    } else if d == 4 {
        '4'
    } else if d == 5 {
        '5'
    } else if d == 6 {
        '6'
    } else if d == 7 {
        '7'
    } else if d == 8 {
        '8'
    } else {
        '9'
    }
}

/// Writes `n` in decimal digits.
pub fn decimal_of(n: u64) -> (r: Vec<char>)
    ensures
        r@ == decimal(n as nat),
    decreases n,
{
    if n < 10 {
        let mut r: Vec<char> = Vec::new();
        r.push(digit_of(n));
        r
    } else {
        let mut r = decimal_of(n / 10);
        r.push(digit_of(n % 10));
        r
    }
}

/// The line that shows a device: `[year] name - $price - url`.
pub open spec fn line_of(d: DeviceView) -> Seq<char> {
    seq!['['] + d.year + seq![']', ' '] + d.name + seq![' ', '-', ' ', '$'] + decimal(
        d.start_price,
    ) + seq![' ', '-', ' '] + d.url
}

/// Renders the line that shows `d`.
pub fn display_line(d: &Device) -> (r: Vec<char>)
    ensures
        r@ == line_of(d@),
{
    let mut r: Vec<char> = Vec::new();
    r.push('[');
    push_all(&mut r, chars_of(d.year.as_str()).as_slice());
    r.push(']');
    r.push(' ');
    push_all(&mut r, chars_of(d.name.as_str()).as_slice());
    r.push(' ');
    r.push('-');
    r.push(' ');
    r.push('$');
    push_all(&mut r, decimal_of(d.start_price as u64).as_slice());
    r.push(' ');
    r.push('-');
    r.push(' ');
    push_all(&mut r, chars_of(d.url.as_str()).as_slice());
    assert(r@ =~= line_of(d@));
    r
}

/// The lines, each but the last followed by a line feed.
pub open spec fn joined(lines: Seq<Seq<char>>) -> Seq<char>
    decreases lines.len(),
{
    if lines.len() == 0 {
        Seq::empty()
    } else if lines.len() == 1 {
        lines[0]
    } else {
        joined(lines.drop_last()) + seq!['\n'] + lines.last()
    }
}

/// The snapshot made of the given display lines: the lines in ascending
/// order, joined by line feeds, and one line feed at the end.
pub open spec fn snapshot_of_lines(lines: Seq<Seq<char>>) -> Seq<char> {
    joined(sorted_texts(lines)) + seq!['\n']
}

/// The snapshot of the given devices.
pub open spec fn snapshot_text(devices: Seq<DeviceView>) -> Seq<char> {
    snapshot_of_lines(devices.map_values(|d: DeviceView| line_of(d)))
}

/// The snapshot depends on the devices alone, not on the order in which they
/// come: two sequences with the same devices, each as often in the one as in
/// the other, have the same snapshot.
pub proof fn snapshot_ignores_order(a: Seq<DeviceView>, b: Seq<DeviceView>)
    requires
        a.to_multiset() == b.to_multiset(),
    ensures
        snapshot_text(a) == snapshot_text(b),
{
    let line = |d: DeviceView| line_of(d);
    mapped_members_agree(a, b, line);
    sorting_ignores_order(a.map_values(line), b.map_values(line));
}

/// Joins the lines by line feeds.
pub fn join_lines(lines: &Vec<Vec<char>>) -> (r: Vec<char>)
    ensures
        r@ == joined(texts(lines@)),
{
    let mut r: Vec<char> = Vec::new();
    let mut i: usize = 0;
    assert(texts(lines@).take(0) =~= Seq::<Seq<char>>::empty());
    while i < lines.len()
        invariant
            i <= lines.len(),
            r@ == joined(texts(lines@).take(i as int)),
        decreases lines.len() - i,
    {
        let ghost upto = texts(lines@).take(i + 1);
        assert(upto.drop_last() =~= texts(lines@).take(i as int));
        assert(upto.last() == lines@[i as int]@);
        if i > 0 {
            r.push('\n');
        }
        push_all(&mut r, lines[i].as_slice());
        assert(r@ =~= joined(upto));
        i += 1;
    }
    assert(texts(lines@).take(lines.len() as int) =~= texts(lines@));
    r
}

/// Renders the devices as a snapshot: one line each, the lines sorted and
/// joined, a line feed at the end.
pub fn snapshot(devices: &Vec<Device>) -> (r: String)
    ensures
        r@ == snapshot_text(views(devices@)),
{
    let mut lines: Vec<Vec<char>> = Vec::new();
    let mut i: usize = 0;
    let ghost wanted = views(devices@).map_values(|d: DeviceView| line_of(d));
    while i < devices.len()
        invariant
            i <= devices.len(),
            wanted == views(devices@).map_values(|d: DeviceView| line_of(d)),
            texts(lines@) =~= wanted.take(i as int),
        decreases devices.len() - i,
    {
        let line = display_line(&devices[i]);
        proof {
            assert(views(devices@)[i as int] == devices@[i as int]@);
            assert(wanted[i as int] == line@);
            assert(texts(lines@.push(line)) =~= texts(lines@).push(line@));
        }
        lines.push(line);
        i += 1;
    }
    assert(wanted.take(devices.len() as int) =~= wanted);
    let sorted = sort_lines(lines);
    let mut r = join_lines(&sorted);
    r.push('\n');
    text_of(r.as_slice())
}

/// The view of the value that a reference stands for, if there is one.
pub open spec fn referent(value: Option<&Json>) -> Option<JsonView> {
    match value {
        Some(v) => Some(v@),
        None => None,
    }
}

/// The value under `key` in `value`, if there is a value and it is an object
/// that has the key.
pub fn lookup<'a>(value: Option<&'a Json>, key: &str) -> (r: Option<&'a Json>)
    ensures
        referent(r) == field_of(referent(value), key@),
{
    match value {
        Some(v) => v.field(key),
        None => None,
    }
}

/// The text of `value`, if there is a value and it is a text.
pub fn text_at<'a>(value: Option<&'a Json>) -> (r: Option<&'a str>)
    ensures
        match r {
            Some(s) => text_of_value(referent(value)) == Some(s@),
            None => text_of_value(referent(value)) is None,
        },
{
    match value {
        Some(v) => v.as_text(),
        None => None,
    }
}

/// The entries of the catalogue in a document: the members of its `Devices`
/// array. A document without such an array has none.
pub open spec fn catalogue(doc: JsonView) -> Seq<JsonView> {
    match doc.field("Devices"@) {
        Some(v) => v.members(),
        None => Seq::empty(),
    }
}

/// Whether an entry is listed for sale: its product has a `SkuID` that is
/// neither null nor the empty text.
pub open spec fn is_listed(entry: JsonView) -> bool {
    match field_of(entry.field("Product"@), "SkuID"@) {
        None => false,
        Some(JsonView::Null) => false,
        Some(JsonView::Text(s)) => s.len() > 0,
        Some(_) => true,
    }
}

/// The device that an entry describes, or `None` where the details of its
/// product lack the name, the address or a date of at least four characters.
pub open spec fn device_in(entry: JsonView) -> Option<DeviceView> {
    let details = field_of(entry.field("Product"@), "DeviceDetails"@);
    let name = text_of_value(field_of(details, "DeviceName"@));
    let url = text_of_value(field_of(field_of(details, "ShopNowCTA"@), "Url"@));
    let date = text_of_value(field_of(field_of(details, "Sortfilters"@), "year"@));
    if name is Some && url is Some && date is Some && date->0.len() >= YEAR_LENGTH {
        Some(
            DeviceView {
                name: clean_label(name->0),
                url: url->0,
                start_price: 0,
                year: date->0.take(YEAR_LENGTH as int),
            },
        )
    } else {
        None
    }
}

/// The devices of the listed entries, in the order of the entries, or `None`
/// where a listed entry describes no device.
pub open spec fn listed_devices(entries: Seq<JsonView>) -> Option<Seq<DeviceView>>
    decreases entries.len(),
{
    if entries.len() == 0 {
        Some(Seq::empty())
    } else {
        match listed_devices(entries.drop_last()) {
            None => None,
            Some(devices) => if !is_listed(entries.last()) {
                Some(devices)
            } else {
                match device_in(entries.last()) {
                    Some(d) => Some(devices.push(d)),
                    None => None,
                }
            },
        }
    }
}

/// What a parsed document yields: the snapshot of its listed devices, or the
/// error of a listed entry that describes no device.
pub open spec fn document_results(doc: JsonView) -> Result<Seq<char>, ExtractionError> {
    match listed_devices(catalogue(doc)) {
        Some(devices) => Ok(snapshot_text(devices)),
        None => Err(ExtractionError::IncompleteRecord),
    }
}

/// What a page yields: the results of its embedded data, or the error of a
/// page that has none.
pub open spec fn extraction(source: Seq<char>) -> Result<Seq<char>, ExtractionError> {
    match embedded(source) {
        Some(data) => data_results(data),
        None => Err(ExtractionError::NoEmbeddedData),
    }
}

/// A page in which the element's opening stands nowhere has no embedded
/// data: it yields the error, and no snapshot.
pub proof fn page_without_element_is_refused(source: Seq<char>)
    requires
        forall|i: int| !occurs_at(source, DATA_OPENING@, i),
    ensures
        embedded(source) is None,
        extraction(source) == Err::<Seq<char>, ExtractionError>(ExtractionError::NoEmbeddedData),
{
}

/// Tells whether an entry is listed for sale.
pub fn listed(entry: &Json) -> (b: bool)
    ensures
        b == is_listed(entry@),
{
    match lookup(entry.field("Product"), "SkuID") {
        None => false,
        Some(Json::Null) => false,
        Some(Json::Text(s)) => !s.as_str().is_empty(),
        Some(_) => true,
    }
}

/// The first `n` characters of `v`.
pub fn prefix(v: &[char], n: usize) -> (r: Vec<char>)
    requires
        n <= v.len(),
    ensures
        r@ == v@.take(n as int),
{
    let mut r: Vec<char> = Vec::new();
    let mut i: usize = 0;
    while i < n
        invariant
            i <= n <= v.len(),
            r@ == v@.take(i as int),
        decreases n - i,
    {
        r.push(v[i]);
        i += 1;
    }
    r
}

/// Reads the device that an entry describes.
pub fn read_device(entry: &Json) -> (r: Option<Device>)
    ensures
        match r {
            Some(d) => device_in(entry@) == Some(d@),
            None => device_in(entry@) is None,
        },
        r matches Some(d) ==> d.year@.len() == YEAR_LENGTH && d.start_price == 0,
{
    let details = lookup(entry.field("Product"), "DeviceDetails");
    let name = text_at(lookup(details, "DeviceName"));
    let url = text_at(lookup(lookup(details, "ShopNowCTA"), "Url"));
    let date = text_at(lookup(lookup(details, "Sortfilters"), "year"));
    match (name, url, date) {
        (Some(name), Some(url), Some(date)) => {
            let date = chars_of(date);
            if date.len() < YEAR_LENGTH {
                return None;
            }
            let year = prefix(date.as_slice(), YEAR_LENGTH);
            Some(
                Device {
                    name: cleanup_labels(name.to_owned()),
                    url: url.to_owned(),
                    start_price: 0,
                    year: text_of(year.as_slice()),
                },
            )
        },
        _ => None,
    }
}

/// Reads the devices of the listed entries of a catalogue.
pub fn read_devices(entries: &[Json]) -> (r: Option<Vec<Device>>)
    ensures
        match r {
            Some(devices) => listed_devices(json_views(entries@)) == Some(views(devices@)),
            None => listed_devices(json_views(entries@)) is None,
        },
{
    let ghost all = json_views(entries@);
    let mut devices: Vec<Device> = Vec::new();
    let mut i: usize = 0;
    assert(all.take(0) =~= Seq::<JsonView>::empty());
    assert(views(devices@) =~= Seq::<DeviceView>::empty());
    while i < entries.len()
        invariant
            i <= entries.len(),
            all == json_views(entries@),
            listed_devices(all.take(i as int)) == Some(views(devices@)),
        decreases entries.len() - i,
    {
        let ghost upto = all.take(i + 1);
        assert(upto.drop_last() =~= all.take(i as int));
        assert(upto.last() == entries@[i as int]@);
        if listed(&entries[i]) {
            match read_device(&entries[i]) {
                Some(d) => {
                    assert(views(devices@.push(d)) =~= views(devices@).push(d@));
                    devices.push(d);
                },
                None => {
                    proof {
                        unreadable_entry_fails(all, i + 1);
                    }
                    return None;
                },
            }
        }
        i += 1;
    }
    assert(all.take(entries.len() as int) =~= all);
    Some(devices)
}

/// Once the entries up to `n` yield no devices, no longer run of them does.
pub proof fn unreadable_entry_fails(entries: Seq<JsonView>, n: int)
    requires
        0 <= n <= entries.len(),
        listed_devices(entries.take(n)) is None,
    ensures
        listed_devices(entries) is None,
    decreases entries.len() - n,
{
    if n < entries.len() {
        assert(entries.take(n + 1).drop_last() =~= entries.take(n));
        unreadable_entry_fails(entries, n + 1);
    } else {
        assert(entries.take(n) =~= entries);
    }
}

/// Renders the snapshot of a parsed document.
pub fn results_from_document(doc: &Json) -> (r: Result<String, ExtractionError>)
    ensures
        match r {
            Ok(text) => document_results(doc@) == Ok::<Seq<char>, ExtractionError>(text@),
            Err(e) => document_results(doc@) == Err::<Seq<char>, ExtractionError>(e),
        },
{
    let members = match doc.field("Devices") {
        Some(found) => found.as_members(),
        None => None,
    };
    let devices = match members {
        Some(items) => read_devices(items),
        None => {
            let none: Vec<Device> = Vec::new();
            assert(views(none@) =~= Seq::<DeviceView>::empty());
            assert(catalogue(doc@) =~= Seq::<JsonView>::empty());
            Some(none)
        },
    };
    match devices {
        Some(devices) => Ok(snapshot(&devices)),
        None => Err(ExtractionError::IncompleteRecord),
    }
}

/// Writes the regular expression that finds the embedded data.
pub fn data_expression() -> (r: String)
    ensures
        r@ == data_pattern(),
{
    let mut r: Vec<char> = Vec::new();
    push_all(&mut r, chars_of("(?s)").as_slice());
    push_all(&mut r, chars_of(DATA_OPENING).as_slice());
    push_all(&mut r, chars_of("(.*?)").as_slice());
    push_all(&mut r, chars_of(DATA_CLOSING).as_slice());
    assert(r@ =~= data_pattern());
    text_of(r.as_slice())
}

/// Tells whether `data` is the value of the attribute of the first element
/// in `source`.
pub fn is_framed(source: &[char], data: &[char]) -> (b: bool)
    ensures
        b == framed(source@, data@),
{
    let opening = chars_of(DATA_OPENING);
    let closing = chars_of(DATA_CLOSING);
    let i = match find_from(source, opening.as_slice(), 0) {
        Some(i) => i,
        None => {
            return false;
        },
    };
    assert(i + opening@.len() <= source@.len() == source.len());
    let start = i + opening.len();
    let end = match find_from(source, closing.as_slice(), start) {
        Some(end) => end,
        None => {
            assert forall|j: int| !framed_at(source@, data@, j) by {
                if framed_at(source@, data@, j) {
                    assert(j == i);
                }
            }
            return false;
        },
    };
    let b = end - start == data.len() && matches_at(source, data, start);
    proof {
        if b {
            assert(framed_at(source@, data@, i as int));
        } else {
            assert forall|j: int| !framed_at(source@, data@, j) by {
                if framed_at(source@, data@, j) {
                    assert(j == i);
                    assert(start + data@.len() == end);
                }
            }
        }
    }
    b
}

/// Holds what the search found against the page: the data counts where it
/// is the value of the attribute of the first element in the page.
pub fn checked_data(found: Option<String>, source: &str) -> (r: Option<String>)
    ensures
        match r {
            Some(data) => found == Some(data) && framed(source@, data@),
            None => found matches Some(data) ==> !framed(source@, data@),
        },
{
    match found {
        Some(data) => {
            if is_framed(chars_of(source).as_slice(), chars_of(data.as_str()).as_slice()) {
                Some(data)
            } else {
                None
            }
        },
        None => None,
    }
}

/// Finds the embedded data of a page.
pub fn embedded_data(source: &str) -> (r: Option<String>)
    ensures
        match r {
            Some(data) => embedded(source@) == Some(data@),
            None => embedded(source@) is None,
        },
{
    let wanted = data_expression();
    match search_group(wanted.as_str(), source, DATA_GROUP) {
        Ok(found) => checked_data(found, source),
        Err(_) => None,
    }
}

/// Renders the snapshot of embedded data: unescapes it, parses it and reads
/// the document. Data with a fraction that the parser cannot count is
/// refused before it is parsed.
pub fn results_from_data(data: &str) -> (r: Result<String, ExtractionError>)
    ensures
        match r {
            Ok(text) => data_results(data@) == Ok::<Seq<char>, ExtractionError>(text@),
            Err(e) => data_results(data@) == Err::<Seq<char>, ExtractionError>(e),
        },
{
    let decoded = decode_entities(data);
    if !has_fitting_fractions(chars_of(decoded.as_str()).as_slice()) {
        return Err(ExtractionError::MalformedData);
    }
    match parse_json(decoded.as_str()) {
        Ok(value) => {
            let doc = tree_of(&value);
            results_from_document(&doc)
        },
        Err(_) => Err(ExtractionError::MalformedData),
    }
}

/// Renders the snapshot of a fetched page: finds its embedded data as
/// `embedded_data` does, and renders that as `results_from_data` does. A page
/// without embedded data yields an error and no snapshot.
pub fn gen_results_from_source(source: String) -> (r: Result<String, ExtractionError>)
    ensures
        match r {
            Ok(text) => extraction(source@) == Ok::<Seq<char>, ExtractionError>(text@),
            Err(e) => extraction(source@) == Err::<Seq<char>, ExtractionError>(e),
        },
{
    match embedded_data(source.as_str()) {
        Some(data) => results_from_data(data.as_str()),
        None => Err(ExtractionError::NoEmbeddedData),
    }
}

} // verus!
