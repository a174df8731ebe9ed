use catalog_watch::document::Json;
use catalog_watch::chars::{chars_of, text_of};
use catalog_watch::extractor::{
    checked_data, display_line, embedded_data, gen_results_from_source, is_framed, listed,
    data_expression, read_device, read_devices, results_from_data, results_from_document, snapshot,
    Device, ExtractionError, DATA_CLOSING, DATA_OPENING,
};

fn page(payload: &str) -> String {
    format!(
        "<html><body>\n<div class=\"d-none\" id=\"ConsumerData\" data-json=\"{}\"></div>\n</body></html>",
        payload.replace('"', "&quot;")
    )
}

fn entry_json(sku: &str, name: &str, url: &str, year: &str) -> String {
    format!(
        "{{\"Product\":{{\"SkuID\":\"{}\",\"DeviceDetails\":{{\"DeviceName\":\"{}\",\"ShopNowCTA\":{{\"Url\":\"{}\"}},\"Sortfilters\":{{\"year\":\"{}\"}}}}}}}}",
        sku, name, url, year
    )
}

fn catalogue_json(entries: &[String]) -> String {
    format!("{{\"Devices\":[{}]}}", entries.join(","))
}

fn text(s: &str) -> Json {
    Json::Text(String::from(s))
}

fn object(entries: Vec<(&str, Json)>) -> Json {
    Json::Object(entries.into_iter().map(|(k, v)| (String::from(k), v)).collect())
}

fn entry(sku: Json, name: Json, url: Json, year: Json) -> Json {
    object(vec![(
        "Product",
        object(vec![
            ("SkuID", sku),
            (
                "DeviceDetails",
                object(vec![
                    ("DeviceName", name),
                    ("ShopNowCTA", object(vec![("Url", url)])),
                    ("Sortfilters", object(vec![("year", year)])),
                ]),
            ),
        ]),
    )])
}

fn device(name: &str, url: &str, year: &str) -> Device {
    Device { name: String::from(name), url: String::from(url), start_price: 0, year: String::from(year) }
}

#[test]
fn one_record_gives_one_line() {
    let source = page(&catalogue_json(&[entry_json("A1", "Pro 9", "http://x/pro9", "2023X")]));
    assert_eq!(
        gen_results_from_source(source),
        Ok(String::from("[2023] Pro 9 - $0 - http://x/pro9\n"))
    );
}

#[test]
fn page_without_marker_is_an_error() {
    let r = gen_results_from_source(String::from("<html><body>nothing here</body></html>"));
    assert_eq!(r, Err(ExtractionError::NoEmbeddedData));
    assert_eq!(gen_results_from_source(String::new()), Err(ExtractionError::NoEmbeddedData));
}

#[test]
fn marker_with_other_attributes_is_not_found() {
    let source = String::from("<div id=\"ConsumerData\" data-json=\"{}\"></div>");
    assert_eq!(gen_results_from_source(source), Err(ExtractionError::NoEmbeddedData));
}

#[test]
fn payload_that_is_no_document_is_an_error() {
    assert_eq!(
        gen_results_from_source(page("{\"Devices\": [")),
        Err(ExtractionError::MalformedData)
    );
    assert_eq!(gen_results_from_source(page("")), Err(ExtractionError::MalformedData));
}

#[test]
fn payload_may_span_lines() {
    let payload = catalogue_json(&[entry_json("A1", "Go", "http://x/go", "2020-01")])
        .replace(",", ",\n");
    assert_eq!(
        gen_results_from_source(page(&payload)),
        Ok(String::from("[2020] Go - $0 - http://x/go\n"))
    );
}

#[test]
fn first_marker_counts() {
    let first = page(&catalogue_json(&[entry_json("A1", "One", "http://x/1", "2021")]));
    let second = page(&catalogue_json(&[entry_json("A2", "Two", "http://x/2", "2022")]));
    assert_eq!(
        gen_results_from_source(format!("{}{}", first, second)),
        Ok(String::from("[2021] One - $0 - http://x/1\n"))
    );
}

#[test]
fn entities_are_decoded_before_parsing() {
    let payload = catalogue_json(&[entry_json("A1", "Pro &amp;amp; Co", "http://x/?a=1&amp;b=2", "2023")]);
    assert_eq!(
        gen_results_from_source(page(&payload)),
        Ok(String::from("[2023] Pro &amp; Co - $0 - http://x/?a=1&b=2\n"))
    );
    let numeric = catalogue_json(&[entry_json("A1", "Caf&#233;", "http://x/c", "2023")]);
    assert_eq!(
        gen_results_from_source(page(&numeric)),
        Ok(String::from("[2023] Caf\u{e9} - $0 - http://x/c\n"))
    );
}

#[test]
fn escaped_non_breaking_space_in_a_name_becomes_a_space() {
    let payload = catalogue_json(&[entry_json("A1", "Surface&amp;nbsp;Pro", "http://x/p", "2023")]);
    assert_eq!(
        gen_results_from_source(page(&payload)),
        Ok(String::from("[2023] Surface Pro - $0 - http://x/p\n"))
    );
}

#[test]
fn lines_are_sorted() {
    let entries = [
        entry_json("A1", "Pro 9", "http://x/pro9", "2022-10"),
        entry_json("A2", "Laptop 5", "http://x/l5", "2022-10"),
        entry_json("A3", "Go 2", "http://x/go2", "2020-05"),
        entry_json("A4", "Studio", "http://x/s", "2023-09"),
    ];
    let expected = "[2020] Go 2 - $0 - http://x/go2\n\
                    [2022] Laptop 5 - $0 - http://x/l5\n\
                    [2022] Pro 9 - $0 - http://x/pro9\n\
                    [2023] Studio - $0 - http://x/s\n";
    assert_eq!(gen_results_from_source(page(&catalogue_json(&entries))), Ok(String::from(expected)));
}

#[test]
fn order_of_the_records_does_not_matter() {
    let a = entry_json("A1", "Pro 9", "http://x/pro9", "2022-10");
    let b = entry_json("A2", "Laptop 5", "http://x/l5", "2022-10");
    let c = entry_json("A3", "Go 2", "http://x/go2", "2020-05");
    let one = gen_results_from_source(page(&catalogue_json(&[a.clone(), b.clone(), c.clone()])));
    let two = gen_results_from_source(page(&catalogue_json(&[c.clone(), a.clone(), b.clone()])));
    let three = gen_results_from_source(page(&catalogue_json(&[b, c, a])));
    assert!(one.is_ok());
    assert_eq!(one, two);
    assert_eq!(one, three);
}

#[test]
fn entries_without_sku_are_left_out() {
    let entries = [
        entry_json("", "Hidden", "http://x/h", "2019"),
        entry_json("A1", "Shown", "http://x/s", "2021"),
    ];
    assert_eq!(
        gen_results_from_source(page(&catalogue_json(&entries))),
        Ok(String::from("[2021] Shown - $0 - http://x/s\n"))
    );
}

#[test]
fn unlisted_entries_may_lack_fields() {
    let payload = "{\"Devices\":[{\"Product\":{\"SkuID\":\"\"}},{\"Other\":1},7]}";
    assert_eq!(gen_results_from_source(page(payload)), Ok(String::from("\n")));
}

#[test]
fn listed_entry_without_a_field_fails_the_whole() {
    let good = entry_json("A1", "Shown", "http://x/s", "2021");
    let no_url = "{\"Product\":{\"SkuID\":\"A2\",\"DeviceDetails\":{\"DeviceName\":\"N\",\"Sortfilters\":{\"year\":\"2020\"}}}}";
    let payload = catalogue_json(&[good, String::from(no_url)]);
    assert_eq!(gen_results_from_source(page(&payload)), Err(ExtractionError::IncompleteRecord));
}

#[test]
fn document_without_devices_gives_the_empty_snapshot() {
    assert_eq!(gen_results_from_source(page("{}")), Ok(String::from("\n")));
    assert_eq!(gen_results_from_source(page("{\"Devices\":[]}")), Ok(String::from("\n")));
    assert_eq!(gen_results_from_source(page("{\"Devices\":5}")), Ok(String::from("\n")));
    assert_eq!(gen_results_from_source(page("[1,2]")), Ok(String::from("\n")));
}

#[test]
fn listed_tells_the_sku() {
    let with = |sku: Json| entry(sku, text("N"), text("U"), text("2020"));
    assert!(listed(&with(text("A1"))));
    assert!(!listed(&with(text(""))));
    assert!(!listed(&with(Json::Null)));
    assert!(listed(&with(Json::Number((true, 12, 0)))));
    assert!(listed(&with(Json::Bool(false))));
    assert!(!listed(&object(vec![("Product", object(vec![]))])));
    assert!(!listed(&object(vec![])));
    assert!(!listed(&Json::Array(vec![])));
}

#[test]
fn read_device_takes_the_three_fields() {
    let e = entry(text("A1"), text("Pro&nbsp;9"), text("http://x/pro9"), text("2023-11-02"));
    assert_eq!(read_device(&e), Some(device("Pro 9", "http://x/pro9", "2023")));
}

#[test]
fn read_device_wants_texts() {
    assert_eq!(read_device(&entry(text("A1"), Json::Null, text("u"), text("2023"))), None);
    assert_eq!(read_device(&entry(text("A1"), text("n"), Json::Bool(true), text("2023"))), None);
    assert_eq!(
        read_device(&entry(text("A1"), text("n"), text("u"), Json::Number((true, 2023, 0)))),
        None
    );
    assert_eq!(read_device(&object(vec![])), None);
}

#[test]
fn year_is_the_first_four_characters() {
    let with = |year: &str| read_device(&entry(text("A"), text("n"), text("u"), text(year)));
    assert_eq!(with("2023"), Some(device("n", "u", "2023")));
    assert_eq!(with("20231"), Some(device("n", "u", "2023")));
    assert_eq!(with("\u{e9}t\u{e9} 2023"), Some(device("n", "u", "\u{e9}t\u{e9} ")));
    assert_eq!(with("202"), None);
    assert_eq!(with(""), None);
}

#[test]
fn first_entry_of_a_key_counts() {
    let doc = object(vec![
        ("Devices", Json::Array(vec![entry(text("A"), text("one"), text("u"), text("2001"))])),
        ("Devices", Json::Array(vec![])),
    ]);
    assert_eq!(results_from_document(&doc), Ok(String::from("[2001] one - $0 - u\n")));
    assert_eq!(doc.field("Devices").map(|d| d == &Json::Array(vec![])), Some(false));
    assert_eq!(doc.field("devices"), None);
    assert_eq!(text("x").field("Devices"), None);
    assert_eq!(text("x").as_text(), Some("x"));
    assert_eq!(Json::Null.as_text(), None);
}

#[test]
fn read_devices_keeps_the_order_of_the_listed() {
    let entries = vec![
        entry(text("A"), text("b"), text("u1"), text("2001")),
        entry(text(""), Json::Null, Json::Null, Json::Null),
        entry(text("C"), text("a"), text("u2"), text("2002")),
    ];
    assert_eq!(
        read_devices(&entries),
        Some(vec![device("b", "u1", "2001"), device("a", "u2", "2002")])
    );
    let broken = vec![
        entry(text("A"), text("b"), text("u1"), text("2001")),
        entry(text("B"), Json::Null, Json::Null, Json::Null),
    ];
    assert_eq!(read_devices(&broken), None);
    assert_eq!(read_devices(&[]), Some(vec![]));
}

#[test]
fn display_line_has_the_fixed_shape() {
    let d = Device {
        name: String::from("Pro 9"),
        url: String::from("http://x/pro9"),
        start_price: 1299,
        year: String::from("2023"),
    };
    assert_eq!(text_of(&display_line(&d)), "[2023] Pro 9 - $1299 - http://x/pro9");
    assert_eq!(text_of(&display_line(&device("", "", ""))), "[]  - $0 - ");
}

#[test]
fn snapshot_sorts_joins_and_ends_the_lines() {
    let devices = vec![device("b", "u", "2002"), device("a", "u", "2002"), device("z", "u", "2001")];
    assert_eq!(snapshot(&devices), "[2001] z - $0 - u\n[2002] a - $0 - u\n[2002] b - $0 - u\n");
    assert_eq!(snapshot(&vec![]), "\n");
    assert_eq!(snapshot(&vec![device("a", "u", "2002")]), "[2002] a - $0 - u\n");
}

#[test]
fn snapshot_keeps_equal_lines() {
    let devices = vec![device("a", "u", "2002"), device("a", "u", "2002")];
    assert_eq!(snapshot(&devices), "[2002] a - $0 - u\n[2002] a - $0 - u\n");
}

#[test]
fn expression_is_opening_group_and_closing() {
    assert_eq!(
        data_expression(),
        "(?s)<div class=\"d-none\" id=\"ConsumerData\" data-json=\"(.*?)\"></div>"
    );
    assert_eq!(DATA_OPENING, "<div class=\"d-none\" id=\"ConsumerData\" data-json=\"");
    assert_eq!(DATA_CLOSING, "\"></div>");
}

#[test]
fn embedded_data_is_the_value_of_the_attribute() {
    assert_eq!(embedded_data(&page("{}")), Some(String::from("{}")));
    assert_eq!(
        embedded_data(&page("{\"a\":\n1}")),
        Some(String::from("{&quot;a&quot;:\n1}"))
    );
    assert_eq!(embedded_data(&page("")), Some(String::new()));
    assert_eq!(embedded_data("<div class=\"d-none\" id=\"ConsumerData\" data-json=\"x\">"), None);
    assert_eq!(embedded_data(""), None);
}

#[test]
fn embedded_data_ends_at_the_first_closing() {
    let source = format!("{}one{}two{}", DATA_OPENING, DATA_CLOSING, DATA_CLOSING);
    assert_eq!(embedded_data(&source), Some(String::from("one")));
}

#[test]
fn is_framed_wants_the_value_of_the_first_element() {
    let source = chars_of(&format!("ab{}data{}cd", DATA_OPENING, DATA_CLOSING));
    assert!(is_framed(&source, &chars_of("data")));
    assert!(!is_framed(&source, &chars_of("dat")));
    assert!(!is_framed(&source, &chars_of("ata")));
    assert!(!is_framed(&source, &chars_of("")));
    assert!(!is_framed(&chars_of(""), &chars_of("")));
    let bare = chars_of(&format!("{}{}", DATA_OPENING, DATA_CLOSING));
    assert!(is_framed(&bare, &chars_of("")));
    assert!(!is_framed(&bare, &chars_of("x")));
    let at_end = chars_of(&format!("x{}y{}", DATA_OPENING, DATA_CLOSING));
    assert!(is_framed(&at_end, &chars_of("y")));
}

#[test]
fn is_framed_refuses_a_later_element_and_a_later_closing() {
    let two = chars_of(&format!(
        "{}one{}{}two{}",
        DATA_OPENING, DATA_CLOSING, DATA_OPENING, DATA_CLOSING
    ));
    assert!(is_framed(&two, &chars_of("one")));
    assert!(!is_framed(&two, &chars_of("two")));
    let long = format!("one{}{}two", DATA_CLOSING, DATA_OPENING);
    assert!(!is_framed(&two, &chars_of(&long)));
    let open_only = chars_of(&format!("{}one", DATA_OPENING));
    assert!(!is_framed(&open_only, &chars_of("one")));
}

#[test]
fn checked_data_drops_what_does_not_stand_in_the_page() {
    let source = page("{}");
    assert_eq!(checked_data(Some(String::from("{}")), &source), Some(String::from("{}")));
    assert_eq!(checked_data(Some(String::from("[]")), &source), None);
    assert_eq!(checked_data(Some(source.clone()), &source), None);
    assert_eq!(checked_data(None, &source), None);
}

#[test]
fn results_from_data_unescapes_and_parses() {
    let data = catalogue_json(&[entry_json("A1", "Pro 9", "http://x/pro9", "2023X")])
        .replace('"', "&quot;");
    assert_eq!(results_from_data(&data), Ok(String::from("[2023] Pro 9 - $0 - http://x/pro9\n")));
    assert_eq!(results_from_data("{&quot;Devices&quot;"), Err(ExtractionError::MalformedData));
    assert_eq!(results_from_data("{\"Devices\":[]}"), Ok(String::from("\n")));
}

#[test]
fn as_members_gives_the_members_of_an_array() {
    let members = vec![text("a"), Json::Null];
    assert_eq!(Json::Array(vec![text("a"), Json::Null]).as_members(), Some(&members[..]));
    assert_eq!(Json::Array(vec![]).as_members(), Some(&[][..]));
    assert_eq!(text("a").as_members(), None);
    assert_eq!(object(vec![]).as_members(), None);
}

fn fraction(digits: usize) -> String {
    format!("0.{}", "0".repeat(digits))
}

#[test]
fn data_with_the_longest_fraction_is_parsed() {
    assert_eq!(results_from_data(&fraction(32768)), Ok(String::from("\n")));
    let inside = format!("{{\"n\": {}, \"Devices\": []}}", fraction(32768));
    assert_eq!(results_from_data(&inside), Ok(String::from("\n")));
    let negative = format!("[-{}]", fraction(32768));
    assert_eq!(results_from_data(&negative), Ok(String::from("\n")));
}

#[test]
fn data_with_a_fraction_that_cannot_be_counted_is_refused() {
    assert_eq!(results_from_data(&fraction(32769)), Err(ExtractionError::MalformedData));
    let inside = format!("{{\"n\": {}, \"Devices\": []}}", fraction(70000));
    assert_eq!(results_from_data(&inside), Err(ExtractionError::MalformedData));
    assert_eq!(gen_results_from_source(page(&inside)), Err(ExtractionError::MalformedData));
    let late = format!("0.{}123456789", "0".repeat(32760));
    assert_eq!(results_from_data(&late), Err(ExtractionError::MalformedData));
}

#[test]
fn long_fraction_in_a_string_is_parsed() {
    let name = format!("Pro {}", fraction(40000));
    let url = format!("http://x/{}", fraction(32769));
    let payload = catalogue_json(&[entry_json("A1", &name, &url, "2023")]);
    assert_eq!(
        gen_results_from_source(page(&payload)),
        Ok(format!("[2023] {} - $0 - {}\n", name, url))
    );
}

#[test]
fn long_fraction_behind_a_full_mantissa_is_parsed() {
    let one = format!("1.{}", "0".repeat(40000));
    assert_eq!(results_from_data(&one), Ok(String::from("\n")));
    let payload = format!(
        "{{\"Price\": 12.{}, \"Devices\": [{}]}}",
        "3".repeat(50000),
        entry_json("A1", "Pro 9", "http://x/pro9", "2023")
    );
    assert_eq!(
        results_from_data(&payload),
        Ok(String::from("[2023] Pro 9 - $0 - http://x/pro9\n"))
    );
    let late = format!("0.{}123456789", "0".repeat(32759));
    assert_eq!(results_from_data(&late), Ok(String::from("\n")));
}

#[test]
fn long_runs_of_digits_without_a_point_are_parsed() {
    let big = format!(
        "{{\"id\": \"{}\", \"n\": {}, \"Devices\": []}}",
        "9".repeat(40000),
        "9".repeat(40)
    );
    assert_eq!(results_from_data(&big), Ok(String::from("\n")));
}

#[test]
fn number_of_too_many_digits_is_refused_by_the_parser() {
    assert_eq!(results_from_data(&"9".repeat(40000)), Err(ExtractionError::MalformedData));
    let mixed = format!("{}.{}e5", "9".repeat(30000), "0".repeat(32767));
    assert_eq!(results_from_data(&mixed), Ok(String::from("\n")));
}
