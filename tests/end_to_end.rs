use options_cli::{canonicalize, to_json, ConfigValue, Decoder};
use serde_json::Value;

fn decode_entry(entry: &str) -> (String, Decoder, Option<Value>) {
    let (key, value) = entry.split_once('=').unwrap();
    let canon = canonicalize(key);
    let decoder = to_json(&canon);
    let json = decoder.parse(value);
    (canon, decoder, json)
}

#[test]
fn source_mapping_alias_decodes_as_string() {
    let (canon, decoder, json) = decode_entry("hack.compiler.sourcemapping=true");
    assert_eq!(canon, "eval.disassembler_source_mapping");
    assert_eq!(decoder, Decoder::Str);
    assert_eq!(json, Some(Value::String("true".to_string())));
}

#[test]
fn reffiness_invariance_decodes_as_integer() {
    let (canon, decoder, json) = decode_entry("hhvm.reffiness_invariance=1");
    assert_eq!(canon, "hhvm.reffiness_invariance");
    assert_eq!(decoder, Decoder::Int);
    assert_eq!(json, Some(Value::from(1i64)));
}

#[test]
fn include_roots_decode_as_object() {
    let (canon, decoder, json) = decode_entry("hhvm.include_roots=/a:/x,/b:/y");
    assert_eq!(canon, "hhvm.include_roots");
    assert_eq!(decoder, Decoder::CsvKeyVals);
    let mut m = serde_json::Map::new();
    m.insert("/a".to_string(), Value::String("/x".to_string()));
    m.insert("/b".to_string(), Value::String("/y".to_string()));
    assert_eq!(json, Some(Value::Object(m)));
}

#[test]
fn dynamic_invoke_functions_decode_as_array() {
    let (_, decoder, json) = decode_entry("hhvm.dynamic_invoke_functions=f,g");
    assert_eq!(decoder, Decoder::CsvStrs);
    let items = vec![Value::String("f".to_string()), Value::String("g".to_string())];
    assert_eq!(json, Some(Value::Array(items)));
}

#[test]
fn bad_integer_gives_no_json() {
    let (_, _, json) = decode_entry("eval.reffinessinvariance=yes");
    assert_eq!(json, None);
}

#[test]
fn json_forms_of_values() {
    assert_eq!(ConfigValue::Str("s".to_string()).into_json(), Value::String("s".to_string()));
    assert_eq!(ConfigValue::Int(-3).into_json(), Value::from(-3i64));
    assert_eq!(
        ConfigValue::Array(vec!["p".to_string()]).into_json(),
        Value::Array(vec![Value::String("p".to_string())])
    );
    let mut m = serde_json::Map::new();
    m.insert("k".to_string(), Value::String("v".to_string()));
    assert_eq!(
        ConfigValue::Object(vec![("k".to_string(), "v".to_string())]).into_json(),
        Value::Object(m)
    );
    assert_eq!(Decoder::CsvKeyVals.parse("a:1,a:2").unwrap()["a"], Value::String("2".to_string()));
}
