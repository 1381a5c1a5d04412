use qrswap::error::EngineError;
use qrswap::payload::parse_payload_list;
use qrswap::payload::substitute_pattern;

fn lines(items: &[&str]) -> Vec<String> {
    items.iter().map(|s| s.to_string()).collect()
}

#[test]
fn parse_plain_records() {
    let records = parse_payload_list(&lines(&["one,https://a.example", "two,https://b.example"]))
        .unwrap();
    assert_eq!(records.len(), 2);
    assert_eq!(records[0].name, "one");
    assert_eq!(records[0].payload, "https://a.example");
    assert_eq!(records[1].name, "two");
    assert_eq!(records[1].payload, "https://b.example");
}

#[test]
fn parse_skips_blank_lines() {
    let records = parse_payload_list(&lines(&["", "one,p1", "", "two,p2", ""])).unwrap();
    assert_eq!(records.len(), 2);
    assert_eq!(records[0].name, "one");
    assert_eq!(records[1].name, "two");
}

#[test]
fn parse_ignores_fields_after_the_second_comma() {
    let records = parse_payload_list(&lines(&["one,payload,extra,more"])).unwrap();
    assert_eq!(records.len(), 1);
    assert_eq!(records[0].name, "one");
    assert_eq!(records[0].payload, "payload");
}

#[test]
fn parse_accepts_empty_payload_field() {
    let records = parse_payload_list(&lines(&["one,", "two,p"])).unwrap();
    assert_eq!(records[0].payload, "");
    assert_eq!(records[1].payload, "p");
}

#[test]
fn parse_single_bare_payload_is_a_shorthand() {
    let records = parse_payload_list(&lines(&["https://only.example"])).unwrap();
    assert_eq!(records.len(), 1);
    assert_eq!(records[0].name, "https://only.example");
    assert_eq!(records[0].payload, "https://only.example");
}

#[test]
fn parse_rejects_record_missing_its_payload() {
    let res = parse_payload_list(&lines(&["one,p1", "broken", "two,p2"]));
    assert_eq!(res.unwrap_err(), EngineError::MalformedPayloadRecord);
}

#[test]
fn parse_empty_list_has_no_records() {
    let records = parse_payload_list(&lines(&[])).unwrap();
    assert_eq!(records.len(), 0);
}

#[test]
fn substitute_replaces_the_placeholder() {
    assert_eq!(substitute_pattern("./#_qrcode.png", "shop"), "./shop_qrcode.png");
}

#[test]
fn substitute_replaces_every_placeholder() {
    assert_eq!(substitute_pattern("#/#.mp4", "v"), "v/v.mp4");
}

#[test]
fn substitute_without_placeholder_keeps_the_pattern() {
    assert_eq!(substitute_pattern("out.mp4", "name"), "out.mp4");
}

#[test]
fn substitute_with_empty_name_drops_the_placeholder() {
    assert_eq!(substitute_pattern("a#b", ""), "ab");
}
