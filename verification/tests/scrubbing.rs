use postern_daemon::sanitize::scrubber::{
    fields_or, json_string_end, mask_json_string_field, mask_named_fields, match_key_at,
    merge_fields, resolve_mask_fields, skip_to_value, spec_fields, DaemonSanitizer, MaskRule,
};

fn masked(input: &str, field: &str) -> String {
    let out = mask_json_string_field(input.as_bytes().to_vec(), field.as_bytes(), b"***");
    String::from_utf8(out).unwrap()
}

fn rule(field: &str, spec: &str) -> MaskRule {
    MaskRule { field: field.to_string(), spec: spec.to_string() }
}

#[test]
fn string_values_are_masked() {
    assert_eq!(masked(r#"{"pw":"x"}"#, "pw"), r#"{"pw":***}"#);
    assert_eq!(masked("{\"pw\" :\n \"x\", \"a\":1}", "pw"), "{\"pw\" :\n ***, \"a\":1}");
    assert_eq!(masked(r#"{"pw":"a\"b\\","pw":"c"}"#, "pw"), r#"{"pw":***,"pw":***}"#);
}

#[test]
fn everything_else_stays() {
    for s in [
        r#"{"pw":1}"#,
        r#"{"pw":null,"b":"pw"}"#,
        r#"{"pw" "x"}"#,
        r#"{"pw":"open"#,
        r#"{"pw":"open\"#,
        r#"{"pwd":"x"}"#,
        r#"pw:"x""#,
        "",
    ] {
        assert_eq!(masked(s, "pw"), s);
    }
    let junk = vec![0xff, 0x22, 0x70, 0x77, 0x22, 0x00];
    assert_eq!(mask_json_string_field(junk.clone(), b"pw", b"*"), junk);
}

#[test]
fn a_key_inside_a_string_counts_as_well() {
    assert_eq!(masked(r#"{"a":"x","b":{"pw":"y"}}"#, "pw"), r#"{"a":"x","b":{"pw":***}}"#);
}

#[test]
fn fields_are_masked_in_turn() {
    let out = mask_named_fields(
        br#"{"a":"1","b":"2","c":"3"}"#.to_vec(),
        &vec!["a".to_string(), "c".to_string()],
        b"_",
    );
    assert_eq!(out, br#"{"a":_,"b":"2","c":_}"#.to_vec());
}

#[test]
fn parts_of_the_scan() {
    assert_eq!(match_key_at(b"x\"k\"", 1, b"\"k\""), Some(4));
    assert_eq!(match_key_at(b"x\"k\"", 2, b"\"k\""), None);
    assert_eq!(match_key_at(b"x", usize::MAX, b"k"), None);
    assert_eq!(skip_to_value(b" \t: \r\n\"", 0), Some(6));
    assert_eq!(skip_to_value(b"  x", 0), None);
    assert_eq!(skip_to_value(b"", 0), None);
    assert_eq!(skip_to_value(b"\x0b:", 0), None);
    assert_eq!(skip_to_value(b"\x0c:", 0), Some(2));
    assert_eq!(json_string_end(b"\"a\"b", 0), Some(3));
    assert_eq!(json_string_end(b"\"a", 0), None);
    assert_eq!(json_string_end(b"a", 0), None);
    assert_eq!(json_string_end(b"\"\\\"\"", 0), Some(4));
    assert_eq!(json_string_end(b"\"", 9), None);
}

#[test]
fn rules_list_their_fields() {
    assert_eq!(spec_fields(&rule("f", r#"{"fields":["a","b"]}"#)), vec!["a", "b"]);
    assert_eq!(spec_fields(&rule("f", r#"{"fields":["a",1,null]}"#)), vec!["a"]);
    for spec in ["", "not json", "{}", r#"{"fields":"a"}"#, r#"{"fields":[]}"#, r#"{"fields":[1]}"#] {
        assert_eq!(spec_fields(&rule("f", spec)), vec!["f"], "{}", spec);
    }
}

#[test]
fn fields_of_several_rules_come_once() {
    let rules =
        vec![rule("x", r#"{"fields":["a","b","a"]}"#), rule("b", ""), rule("c", ""), rule("c", "")];
    assert_eq!(resolve_mask_fields(&rules), vec!["a", "b", "c"]);
    assert!(resolve_mask_fields(&vec![]).is_empty());
}

#[test]
fn lists_and_merges() {
    assert_eq!(fields_or(None, "f"), vec!["f"]);
    assert_eq!(fields_or(Some(vec![None]), "f"), vec!["f"]);
    assert_eq!(fields_or(Some(vec![None, Some("a".to_string())]), "f"), vec!["a"]);
    let mut fields = vec!["a".to_string()];
    merge_fields(&mut fields, &vec!["b".to_string(), "a".to_string(), "b".to_string()]);
    assert_eq!(fields, vec!["a", "b"]);
}

#[test]
fn the_exit_filter_masks_declared_fields() {
    let filter = DaemonSanitizer::new(b"[x]".to_vec());
    let rules = vec![rule("pw", "")];
    let keep = |payload: Vec<u8>| payload;
    assert_eq!(filter.scrub(br#"{"pw":"1"}"#.to_vec(), &rules, keep), br#"{"pw":[x]}"#.to_vec());
    assert_eq!(filter.scrub(b"{}".to_vec(), &vec![], keep), b"{}".to_vec());
}

#[test]
fn the_scrub_set_goes_first() {
    let filter = DaemonSanitizer::new(b"[x]".to_vec());
    let rules = vec![rule("pw", "")];
    let erase = |payload: Vec<u8>| {
        assert_eq!(payload, br#"{"pw":"1"}"#.to_vec());
        br#"{"pw":"*","a":"b"}"#.to_vec()
    };
    let out = filter.scrub(br#"{"pw":"1"}"#.to_vec(), &rules, erase);
    assert_eq!(out, br#"{"pw":[x],"a":"b"}"#.to_vec());
}

#[test]
fn the_stream_filter_holds_back() {
    let filter = DaemonSanitizer::new(b"[x]".to_vec());
    let mut stream = filter.scrub_stream(&vec![rule("pw", "")]);
    let out = stream.push(b"one".to_vec(), |chunk, carry| {
        assert_eq!(chunk, b"one".to_vec());
        assert!(carry.is_empty());
        (br#"{"pw":"1"}"#.to_vec(), b"tail".to_vec())
    });
    assert_eq!(out, br#"{"pw":[x]}"#.to_vec());
    let out = stream.push(b"two".to_vec(), |chunk, carry| {
        assert_eq!(carry, b"tail".to_vec());
        (chunk, b"end".to_vec())
    });
    assert_eq!(out, b"two".to_vec());
    assert_eq!(stream.finish(), b"end".to_vec());
    assert!(stream.finish().is_empty());
}

#[test]
fn a_joined_list_masks_like_its_parts() {
    let input = br#"{"a":"1","b":"2","c":3}"#.to_vec();
    let one = vec!["a".to_string()];
    let other = vec!["b".to_string(), "c".to_string()];
    let both = vec!["a".to_string(), "b".to_string(), "c".to_string()];
    let joined = mask_named_fields(input.clone(), &both, b"_");
    assert_eq!(mask_named_fields(mask_named_fields(input, &one, b"_"), &other, b"_"), joined);
    assert_eq!(joined, br#"{"a":_,"b":_,"c":3}"#.to_vec());
}
