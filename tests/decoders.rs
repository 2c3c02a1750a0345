use options_cli::{
    decoder_entries, parse_csv_keyval_strs, parse_csv_strs, parse_int, parse_str, to_json,
    ConfigValue, Decoder, DecoderTable,
};

fn strs(items: &[&str]) -> ConfigValue {
    ConfigValue::Array(items.iter().map(|s| s.to_string()).collect())
}

fn object_entries(v: Option<ConfigValue>) -> Vec<(String, String)> {
    match v {
        Some(ConfigValue::Object(mut e)) => {
            e.sort();
            e
        }
        other => panic!("not an object: {:?}", other),
    }
}

fn pairs(items: &[(&str, &str)]) -> Vec<(String, String)> {
    items.iter().map(|(k, v)| (k.to_string(), v.to_string())).collect()
}

#[test]
fn registry_rows() {
    assert_eq!(to_json("hhvm.dynamic_invoke_functions"), Decoder::CsvStrs);
    assert_eq!(to_json("hhvm.include_roots"), Decoder::CsvKeyVals);
    assert_eq!(to_json("hhvm.reffiness_invariance"), Decoder::Int);
    for (key, decoder) in decoder_entries() {
        assert_eq!(to_json(key), decoder);
    }
}

#[test]
fn registry_default_is_string() {
    assert_eq!(to_json("eval.disassembler_source_mapping"), Decoder::Str);
    assert_eq!(to_json("eval.reffinessinvariance"), Decoder::Str);
    assert_eq!(to_json(""), Decoder::Str);
}

#[test]
fn string_decoder_is_lossless() {
    for s in ["", "true", "a,b:c", " spaced ", "ünïcode"] {
        assert_eq!(parse_str(s), Some(ConfigValue::Str(s.to_string())));
        assert_eq!(Decoder::Str.decode(s), Some(ConfigValue::Str(s.to_string())));
    }
}

#[test]
fn integer_decoder_values() {
    assert_eq!(parse_int("42"), Some(ConfigValue::Int(42)));
    assert_eq!(parse_int("-7"), Some(ConfigValue::Int(-7)));
    assert_eq!(parse_int("+5"), Some(ConfigValue::Int(5)));
    assert_eq!(parse_int("007"), Some(ConfigValue::Int(7)));
    assert_eq!(parse_int("-0"), Some(ConfigValue::Int(0)));
}

#[test]
fn integer_decoder_failures() {
    assert_eq!(parse_int("4.2"), None);
    assert_eq!(parse_int("abc"), None);
    assert_eq!(parse_int(""), None);
    assert_eq!(parse_int("-"), None);
    assert_eq!(parse_int("+"), None);
    assert_eq!(parse_int(" 1"), None);
    assert_eq!(parse_int("1 "), None);
    assert_eq!(parse_int("1,000"), None);
    assert_eq!(parse_int("--1"), None);
}

#[test]
fn integer_decoder_limits() {
    let max = isize::MAX.to_string();
    let min = isize::MIN.to_string();
    assert_eq!(parse_int(&max), Some(ConfigValue::Int(isize::MAX)));
    assert_eq!(parse_int(&min), Some(ConfigValue::Int(isize::MIN)));
    let above = (isize::MAX as i128 + 1).to_string();
    let below = (isize::MIN as i128 - 1).to_string();
    assert_eq!(parse_int(&above), None);
    assert_eq!(parse_int(&below), None);
    assert_eq!(parse_int("99999999999999999999999999999999999999999999"), None);
    assert_eq!(parse_int("99999999999999999999999999999999999999999999x"), None);
}

#[test]
fn csv_strings_decoder() {
    assert_eq!(parse_csv_strs("a,b,c"), Some(strs(&["a", "b", "c"])));
    assert_eq!(parse_csv_strs(""), Some(strs(&[""])));
    assert_eq!(parse_csv_strs("a"), Some(strs(&["a"])));
    assert_eq!(parse_csv_strs("a,,a,"), Some(strs(&["a", "", "a", ""])));
    assert_eq!(parse_csv_strs(","), Some(strs(&["", ""])));
}

#[test]
fn csv_keyval_decoder() {
    assert_eq!(object_entries(parse_csv_keyval_strs("a:1,b:2")), pairs(&[("a", "1"), ("b", "2")]));
    assert_eq!(object_entries(parse_csv_keyval_strs("a:1,bad,c:3")), pairs(&[("a", "1"), ("c", "3")]));
    assert_eq!(object_entries(parse_csv_keyval_strs("a:")), pairs(&[("a", "")]));
}

#[test]
fn csv_keyval_edge_cases() {
    assert_eq!(object_entries(parse_csv_keyval_strs("")), pairs(&[]));
    assert_eq!(object_entries(parse_csv_keyval_strs("a:1,a:2")), pairs(&[("a", "2")]));
    assert_eq!(object_entries(parse_csv_keyval_strs("a:b:c")), pairs(&[("a", "b:c")]));
    assert_eq!(object_entries(parse_csv_keyval_strs(":x")), pairs(&[("", "x")]));
    assert_eq!(object_entries(parse_csv_keyval_strs("bad,worse")), pairs(&[]));
}

#[test]
fn decode_dispatches_on_the_decoder() {
    assert_eq!(Decoder::Int.decode("12"), Some(ConfigValue::Int(12)));
    assert_eq!(Decoder::Int.decode("x"), None);
    assert_eq!(Decoder::CsvStrs.decode("x,y"), Some(strs(&["x", "y"])));
    assert_eq!(object_entries(Decoder::CsvKeyVals.decode("k:v")), pairs(&[("k", "v")]));
}

#[test]
fn one_decoder_table_serves_many_lookups() {
    let table = DecoderTable::new();
    assert_eq!(table.decoder("hhvm.include_roots"), Decoder::CsvKeyVals);
    assert_eq!(table.decoder("hhvm.reffiness_invariance"), Decoder::Int);
    assert_eq!(table.decoder("hhvm.include_root"), Decoder::Str);
}
