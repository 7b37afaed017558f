use oryxis::decode::{decode_action, ActionKind, DecodeError};
use oryxis::extract::{
    escape_newlines_in_json_strings, extract_json, find_action_block, fix_json_multiline_strings,
};

const SCENARIO_ONE: &str = "Right away, sir.\n```json\n{\"action\":\"execute\",\"code\":\"\ndef task():\n    return {'status':'success'}\ntask()\n\"}\n```\nEXECUTION_COMPLETE";

#[test]
fn action_block_is_the_first_json_fence() {
    let block = find_action_block(SCENARIO_ONE).unwrap();
    assert!(block.starts_with("{\"action\""));
    assert!(block.ends_with("\"}"));
    assert!(find_action_block("no block here").is_none());
    assert!(find_action_block("```json {\"a\":1}").is_none());
    let two = "```json\n{\"first\":1}\n```\n```json\n{\"second\":2}\n```";
    assert_eq!(find_action_block(two).unwrap(), "{\"first\":1}");
}

#[test]
fn repaired_code_value_parses_and_keeps_lines() {
    let block = find_action_block(SCENARIO_ONE).unwrap();
    let fixed = fix_json_multiline_strings(&block);
    assert_eq!(
        fixed,
        "{\"action\":\"execute\",\"code\":\"\\ndef task():\\n    return {'status':'success'}\\ntask()\\n\"}"
    );
    let v: serde_json::Value = serde_json::from_str(&fixed).unwrap();
    assert_eq!(
        v["code"].as_str().unwrap(),
        "\ndef task():\n    return {'status':'success'}\ntask()\n"
    );
}

#[test]
fn repair_touches_only_the_code_value() {
    let json = "{\"note\":\"a\tb\",\"code\": \"x\r\n\ty\"}";
    let fixed = fix_json_multiline_strings(json);
    assert_eq!(fixed, "{\"note\":\"a\tb\",\"code\": \"x\\n\\ty\"}");
}

#[test]
fn repair_keeps_escaped_quotes_inside_the_value() {
    let json = "{\"code\":\"print(\\\"hi\\\")\nx\",\"action\":\"execute\"}";
    let fixed = fix_json_multiline_strings(json);
    assert_eq!(fixed, "{\"code\":\"print(\\\"hi\\\")\\nx\",\"action\":\"execute\"}");
    let v: serde_json::Value = serde_json::from_str(&fixed).unwrap();
    assert_eq!(v["code"].as_str().unwrap(), "print(\"hi\")\nx");
}

#[test]
fn repair_leaves_a_block_without_boundaries_alone() {
    assert_eq!(fix_json_multiline_strings("{\"action\":\"x\"}"), "{\"action\":\"x\"}");
    assert_eq!(fix_json_multiline_strings("{\"code\": 12}"), "{\"code\": 12}");
    assert_eq!(fix_json_multiline_strings("{\"code\":\"a\nb"), "{\"code\":\"a\nb");
}

#[test]
fn newlines_escaped_inside_strings_only() {
    let input = "{\n\"code\":\"a\nb\tc\rd\"\n}";
    assert_eq!(escape_newlines_in_json_strings(input), "{\n\"code\":\"a\\nb\\tc\\rd\"\n}");
    assert_eq!(escape_newlines_in_json_strings("\"a\\\"\nb\""), "\"a\\\"\\nb\"");
}

#[test]
fn extract_json_from_block_or_braces() {
    let r = extract_json("```json\n{\"action\":\"execute\",\"code\":\"1+1\"}\n```");
    assert_eq!(r, "{\"action\":\"execute\",\"code\":\"1+1\"}");
    let r = extract_json("sure {\"action\":\"fast_execute\",\"code\":\"x\ny\"} done");
    assert_eq!(r, "{\"action\":\"fast_execute\",\"code\":\"x\\ny\"}");
    assert_eq!(extract_json("nothing here"), "NONE");
    assert_eq!(extract_json("{\"action\":\"fly\",\"code\":\"x\"}"), "NONE");
    assert_eq!(extract_json("} backwards {"), "NONE");
}

#[test]
fn decode_execute_trims_blank_lines() {
    let a = decode_action("{\"action\":\"execute\",\"code\":\"\\n  \\ndef f():\\n    return 1\\nf()\\n\\n\"}").unwrap();
    assert_eq!(a.kind, ActionKind::Execute);
    assert_eq!(a.payload, "def f():\n    return 1\nf()");
}

#[test]
fn decode_fast_execute_trims_payload() {
    let a = decode_action("{\"action\":\"fast_execute\",\"code\":\"  CHECKSKILLS \"}").unwrap();
    assert_eq!(a.kind, ActionKind::FastExecute);
    assert_eq!(a.payload, "CHECKSKILLS");
}

#[test]
fn decode_errors() {
    assert!(matches!(decode_action("not json"), Err(DecodeError::NotJson(_))));
    assert!(matches!(decode_action("{\"code\":\"x\"}"), Err(DecodeError::MissingAction)));
    match decode_action("{\"action\":\"fly\",\"code\":\"x\"}") {
        Err(DecodeError::UnknownAction(a)) => assert_eq!(a, "fly"),
        _ => panic!("expected an unknown action"),
    }
    assert!(matches!(decode_action("{\"action\":\"execute\"}"), Err(DecodeError::MissingCode)));
    assert!(matches!(decode_action("{\"action\":\"execute\",\"code\":5}"), Err(DecodeError::MissingCode)));
}
