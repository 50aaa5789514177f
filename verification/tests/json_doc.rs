use pqc_telemetry::json_doc::{json_doc_from_pairs, json_doc_from_reader, pairs_need_time, zip_record};

fn pairs(p: &[(&str, &str)]) -> Vec<(String, String)> {
    p.iter().map(|(k, v)| (k.to_string(), v.to_string())).collect()
}

fn strings(s: &[&str]) -> Vec<String> {
    s.iter().map(|x| x.to_string()).collect()
}

#[test]
fn plain_members() {
    let doc = json_doc_from_pairs(&pairs(&[("latitude", "-3.520429"), ("vehicle_id", "car 7")]), "");
    assert_eq!(doc, "{\n    \"latitude\": -3.520429,\n    \"vehicle_id\": \"car 7\"\n}");
}

#[test]
fn unit_members_open_an_object() {
    let doc = json_doc_from_pairs(&pairs(&[("altitude_unit", "m"), ("altitude", "46"), ("rpm", "900")]), "");
    assert_eq!(
        doc,
        "{\n    \"altitude\": {\n        \"unit\": \"m\",\n        \"value\": 46\n    },\n    \"rpm\": 900\n}"
    );
}

#[test]
fn unit_member_at_the_end_stays_open() {
    let doc = json_doc_from_pairs(&pairs(&[("speed_unit", "km/h")]), "");
    assert_eq!(doc, "{\n    \"speed\": {\n        \"unit\": \"km/h\",\n\n}");
}

#[test]
fn epoch_placeholder_is_filled() {
    let p = pairs(&[("epoch", "XXXX"), ("dtc_number", "0")]);
    assert!(pairs_need_time(&p));
    let doc = json_doc_from_pairs(&p, "1700000000");
    assert_eq!(doc, "{\n    \"epoch\": \"1700000000\",\n    \"dtc_number\": 0\n}");
    let q = pairs(&[("epoch", "1700000000")]);
    assert!(!pairs_need_time(&q));
    assert_eq!(json_doc_from_pairs(&q, "5"), "{\n    \"epoch\": 1700000000\n}");
}

#[test]
fn empty_record() {
    assert_eq!(json_doc_from_pairs(&Vec::new(), ""), "{\n\n}");
}

#[test]
fn zip_stops_at_the_shorter_list() {
    let z = zip_record(&strings(&["a", "b", "c"]), &strings(&["1", "2"]));
    assert_eq!(z, pairs(&[("a", "1"), ("b", "2")]));
}

#[test]
fn document_from_a_csv_record() {
    let headers = strings(&["vehicle_id", "speed_unit", "speed", "latitude"]);
    let line = strings(&["V1", "km/h", "42.5", "-58.321307"]);
    let doc = json_doc_from_reader(&line, &headers).unwrap();
    assert_eq!(
        doc,
        "{\n    \"vehicle_id\": \"V1\",\n    \"speed\": {\n        \"unit\": \"km/h\",\n        \"value\": 42.5\n    },\n    \"latitude\": -58.321307\n}"
    );
}

#[test]
fn document_with_current_time() {
    let headers = strings(&["epoch"]);
    let line = strings(&["XXXX"]);
    let doc = json_doc_from_reader(&line, &headers).unwrap();
    let secs: u64 = doc
        .trim_start_matches("{\n    \"epoch\": \"")
        .trim_end_matches("\"\n}")
        .parse()
        .unwrap();
    assert!(secs > 1_600_000_000);
}

#[test]
fn fields_match_split_and_trim() {
    use_fields();
}

fn use_fields() {
    let lines = [
        "",
        ",",
        "a,b,c",
        " vehicle_id , speed_unit,speed ",
        "  ,x,, y ,",
        "\tkm/h\u{3000},\u{a0}42\u{2009}",
        "no commas here",
        "é, ü ,🌍",
        "\u{85}a\u{200b}b\u{1680},\r\n",
    ];
    for line in lines {
        let expected: Vec<String> = line.split(',').map(|f| f.trim().to_string()).collect();
        assert_eq!(pqc_telemetry::fields::split_fields(line), expected, "line {:?}", line);
    }
}

#[test]
fn quoted_text_is_escaped() {
    let doc = json_doc_from_reader(&strings(&["a\"b"]), &strings(&["name"])).unwrap();
    assert_eq!(doc, "{\n    \"name\": \"a\\\"b\"\n}");
    let v: serde_json::Value = serde_json::from_str(&doc).unwrap();
    assert_eq!(v["name"], serde_json::Value::String("a\"b".to_string()));
    let doc = json_doc_from_pairs(&pairs(&[("pa\\th", "x\ty\u{1}"), ("t\"_unit", "\"C")]), "");
    assert_eq!(
        doc,
        "{\n    \"pa\\\\th\": \"x\\u0009y\\u0001\",\n    \"t\\\"\": {\n        \"unit\": \"\\\"C\",\n\n}"
    );
    let v: serde_json::Value =
        serde_json::from_str(&json_doc_from_pairs(&pairs(&[("pa\\th", "x\ty\u{1}")]), "")).unwrap();
    assert_eq!(v["pa\\th"], serde_json::Value::String("x\ty\u{1}".to_string()));
}
