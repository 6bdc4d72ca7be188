use nu_plugin_kdl::error::ErrorKind;
use nu_plugin_kdl::num::check_float_text;
use nu_plugin_kdl::{FromKdl, ToKdl};
use nu_plugin_kdl::value::{Record, Span, Value};
use nu_plugin_kdl::{KDL, Mode};

fn decode(text: &str) -> Value {
    KDL.from(text, Mode::StrictV2).expect("text should decode")
}

fn record_pairs(v: &Value) -> &Vec<(String, Value)> {
    match v {
        Value::Record { val, .. } => &val.pairs,
        other => panic!("expected a record, got {:?}", other),
    }
}

#[test]
fn flat_document_decodes_to_one_pair_per_node() {
    let v = decode("alpha 1\nbeta \"two\"\ngamma #true\ndelta #null");
    let pairs = record_pairs(&v);
    assert_eq!(pairs.len(), 4);
    assert_eq!(pairs[0].0, "alpha");
    assert_eq!(pairs[1].0, "beta");
    assert_eq!(pairs[2].0, "gamma");
    assert_eq!(pairs[3].0, "delta");
    assert!(matches!(pairs[0].1, Value::Int { val: 1, .. }));
    assert!(matches!(&pairs[1].1, Value::Str { val, .. } if val == "two"));
    assert!(matches!(pairs[2].1, Value::Bool { val: true, .. }));
    assert!(matches!(pairs[3].1, Value::Nothing { .. }));
}

#[test]
fn duplicate_node_names_keep_last_value_in_place() {
    let v = decode("a 1\nb 2\na 3");
    let pairs = record_pairs(&v);
    assert_eq!(pairs.len(), 2);
    assert_eq!(pairs[0].0, "a");
    assert!(matches!(pairs[0].1, Value::Int { val: 3, .. }));
    assert_eq!(pairs[1].0, "b");
}

#[test]
fn single_string_argument_decodes_bare() {
    let v = decode("node \"hello\"");
    let pairs = record_pairs(&v);
    assert!(matches!(&pairs[0].1, Value::Str { val, .. } if val == "hello"));
}

#[test]
fn several_arguments_decode_to_list_in_order() {
    let v = decode("node 1 2 3");
    let pairs = record_pairs(&v);
    match &pairs[0].1 {
        Value::List { vals, .. } => {
            assert_eq!(vals.len(), 3);
            assert!(matches!(vals[0], Value::Int { val: 1, .. }));
            assert!(matches!(vals[1], Value::Int { val: 2, .. }));
            assert!(matches!(vals[2], Value::Int { val: 3, .. }));
        }
        other => panic!("expected a list, got {:?}", other),
    }
}

#[test]
fn empty_node_decodes_to_nothing_and_round_trips() {
    let v = decode("node");
    let pairs = record_pairs(&v);
    assert!(matches!(pairs[0].1, Value::Nothing { .. }));

    // encode that record back and decode once more
    let text = KDL.to(&v).expect("encoding the empty node should work");
    let again = decode(&text);
    let pairs = record_pairs(&again);
    assert_eq!(pairs.len(), 1);
    assert_eq!(pairs[0].0, "node");
    assert!(matches!(pairs[0].1, Value::Nothing { .. }));
}

#[test]
fn children_only_node_decodes_to_child_record_directly() {
    let v = decode("parent {\n    child \"value\"\n}");
    let pairs = record_pairs(&v);
    assert_eq!(pairs[0].0, "parent");
    let inner = record_pairs(&pairs[0].1);
    assert_eq!(inner.len(), 1);
    assert_eq!(inner[0].0, "child");
    assert!(matches!(&inner[0].1, Value::Str { val, .. } if val == "value"));
}

#[test]
fn entries_and_children_node_decodes_to_two_key_record() {
    let v = decode("n 1 {\n    c 2\n}");
    let pairs = record_pairs(&v);
    let wrapper = record_pairs(&pairs[0].1);
    assert_eq!(wrapper.len(), 2);
    assert_eq!(wrapper[0].0, "entries");
    assert!(matches!(wrapper[0].1, Value::Int { val: 1, .. }));
    assert_eq!(wrapper[1].0, "children");
    let inner = record_pairs(&wrapper[1].1);
    assert_eq!(inner[0].0, "c");
    assert!(matches!(inner[0].1, Value::Int { val: 2, .. }));
}

#[test]
fn property_entry_decodes_to_single_key_record() {
    let v = KDL.from("pane size=1", Mode::StrictV1).expect("legacy text should decode");
    let pairs = record_pairs(&v);
    assert_eq!(pairs[0].0, "pane");
    let prop = record_pairs(&pairs[0].1);
    assert_eq!(prop.len(), 1);
    assert_eq!(prop[0].0, "size");
    assert!(matches!(prop[0].1, Value::Int { val: 1, .. }));
}

#[test]
fn round_trip_record_with_string_and_list() {
    let sp = Span { start: 0, end: 0 };
    let record = Value::Record {
        val: Record {
            pairs: vec![
                ("greet".to_string(), Value::Str { val: "hello".to_string(), span: sp }),
                (
                    "nums".to_string(),
                    Value::List {
                        vals: vec![
                            Value::Int { val: 1, span: sp },
                            Value::Int { val: 2, span: sp },
                            Value::Int { val: 3, span: sp },
                        ],
                        span: sp,
                    },
                ),
            ],
        },
        span: sp,
    };
    let text = KDL.to(&record).expect("the record should encode");
    let back = decode(&text);
    let pairs = record_pairs(&back);
    assert_eq!(pairs.len(), 2);
    assert_eq!(pairs[0].0, "greet");
    assert!(matches!(&pairs[0].1, Value::Str { val, .. } if val == "hello"));
    assert_eq!(pairs[1].0, "nums");
    match &pairs[1].1 {
        Value::List { vals, .. } => {
            assert_eq!(vals.len(), 3);
            assert!(matches!(vals[0], Value::Int { val: 1, .. }));
            assert!(matches!(vals[1], Value::Int { val: 2, .. }));
            assert!(matches!(vals[2], Value::Int { val: 3, .. }));
        }
        other => panic!("expected a list, got {:?}", other),
    }
}

#[test]
fn encoding_a_record_succeeds_and_a_bare_value_fails() {
    let sp = Span { start: 0, end: 0 };
    let good = Value::Record {
        val: Record { pairs: vec![("a".to_string(), Value::Int { val: 1, span: sp })] },
        span: sp,
    };
    assert!(KDL.to(&good).is_ok());

    let bad = Value::Int { val: 5, span: sp };
    let err = KDL.to(&bad).expect_err("a bare value must be refused");
    assert_eq!(err.kind, ErrorKind::ExpectedRecord);
    assert_eq!(err.message(), "Expected a record");
}

#[test]
fn legacy_only_text_needs_fallback_or_v1() {
    // bare `true` is a legacy literal; the modern dialect refuses it
    let text = "pane size=1 borderless=true";
    let strict = KDL.from(text, Mode::StrictV2);
    let err = strict.expect_err("the modern dialect must refuse legacy-only text");
    assert_eq!(err.kind, ErrorKind::InvalidV2);
    assert!(err.message().starts_with("invalid KDL v2 format: "));

    let fallback = KDL.from(text, Mode::V1Fallback).expect("fallback must accept legacy text");
    let direct = KDL.from(text, Mode::StrictV1).expect("the legacy dialect must accept it");

    // the node has two property entries, so both decode to a list of
    // single-key records, and both modes agree
    let f = record_pairs(&fallback);
    let d = record_pairs(&direct);
    assert_eq!(f.len(), d.len());
    assert_eq!(f[0].0, "pane");
    for (side, pairs) in [("fallback", f), ("direct", d)] {
        match &pairs[0].1 {
            Value::List { vals, .. } => {
                assert_eq!(vals.len(), 2, "{side}");
                let size = record_pairs(&vals[0]);
                assert_eq!(size[0].0, "size");
                assert!(matches!(size[0].1, Value::Int { val: 1, .. }));
                let borderless = record_pairs(&vals[1]);
                assert_eq!(borderless[0].0, "borderless");
                assert!(matches!(borderless[0].1, Value::Bool { val: true, .. }));
            }
            other => panic!("expected a list of properties, got {:?}", other),
        }
    }
}

#[test]
fn unparseable_text_fails_under_both_dialects() {
    let text = "node \"unterminated";
    let err = KDL.from(text, Mode::V1Fallback).expect_err("garbage must be refused");
    assert_eq!(err.kind, ErrorKind::InvalidBoth);
    assert!(err.message().starts_with("invalid KDL format (tried v2 and v1): "));

    let err = KDL.from(text, Mode::StrictV1).expect_err("garbage must be refused");
    assert_eq!(err.kind, ErrorKind::InvalidV1);
    assert!(err.message().starts_with("invalid KDL v1 format: "));
}

#[test]
fn entry_shape_errors_are_reported() {
    let sp = Span { start: 0, end: 0 };
    // a list element that is an empty record: an entry needs exactly one key
    let two_keys = Value::Record {
        val: Record {
            pairs: vec![(
                "n".to_string(),
                Value::List {
                    vals: vec![Value::Record { val: Record { pairs: vec![] }, span: sp }],
                    span: sp,
                },
            )],
        },
        span: sp,
    };
    let err = KDL.to(&two_keys).expect_err("an empty record entry must be refused");
    assert_eq!(err.kind, ErrorKind::EntryNotOneKey);
    assert_eq!(err.message(), "entry should be either a record with one key");

    // a nested list can never be an entry
    let nested = Value::Record {
        val: Record {
            pairs: vec![(
                "n".to_string(),
                Value::List {
                    vals: vec![Value::List { vals: vec![], span: sp }],
                    span: sp,
                },
            )],
        },
        span: sp,
    };
    let err = KDL.to(&nested).expect_err("a nested list entry must be refused");
    assert_eq!(err.kind, ErrorKind::EntryValueUnsupported);
    assert_eq!(
        err.message(),
        "value not supported, expected string, int, float, bool or null"
    );
}

#[test]
fn float_and_big_integer_scalars_decode_to_float_text() {
    let v = decode("node 1.5");
    let pairs = record_pairs(&v);
    assert!(matches!(&pairs[0].1, Value::Float { text, .. } if text == "1.5"));

    // an integer beyond the 64-bit range falls back to its numeric text
    let v = decode("node 99999999999999999999999999");
    let pairs = record_pairs(&v);
    assert!(
        matches!(&pairs[0].1, Value::Float { text, .. } if text == "99999999999999999999999999")
    );
}

#[test]
fn named_property_round_trips_through_text() {
    let sp = Span { start: 0, end: 0 };
    let record = Value::Record {
        val: Record {
            pairs: vec![(
                "pane".to_string(),
                Value::Record {
                    val: Record {
                        pairs: vec![("size".to_string(), Value::Int { val: 1, span: sp })],
                    },
                    span: sp,
                },
            )],
        },
        span: sp,
    };
    // a plain record as a node value becomes that node's children
    let text = KDL.to(&record).expect("the record should encode");
    let back = decode(&text);
    let pairs = record_pairs(&back);
    assert_eq!(pairs[0].0, "pane");
    let inner = record_pairs(&pairs[0].1);
    assert_eq!(inner[0].0, "size");
    assert!(matches!(inner[0].1, Value::Int { val: 1, .. }));
}

#[test]
fn two_key_record_encodes_entries_and_children() {
    let sp = Span { start: 0, end: 0 };
    // the decoder's wrapper shape: {entries: [...], children: {...}}
    let record = Value::Record {
        val: Record {
            pairs: vec![(
                "n".to_string(),
                Value::Record {
                    val: Record {
                        pairs: vec![
                            (
                                "entries".to_string(),
                                Value::List {
                                    vals: vec![
                                        Value::Int { val: 1, span: sp },
                                        Value::Int { val: 2, span: sp },
                                    ],
                                    span: sp,
                                },
                            ),
                            (
                                "children".to_string(),
                                Value::Record {
                                    val: Record {
                                        pairs: vec![(
                                            "c".to_string(),
                                            Value::Int { val: 3, span: sp },
                                        )],
                                    },
                                    span: sp,
                                },
                            ),
                        ],
                    },
                    span: sp,
                },
            )],
        },
        span: sp,
    };
    let text = KDL.to(&record).expect("the wrapper shape should encode");
    let back = decode(&text);
    let pairs = record_pairs(&back);
    assert_eq!(pairs[0].0, "n");
    let wrapper = record_pairs(&pairs[0].1);
    assert_eq!(wrapper.len(), 2);
    assert_eq!(wrapper[0].0, "entries");
    match &wrapper[0].1 {
        Value::List { vals, .. } => {
            assert_eq!(vals.len(), 2);
            assert!(matches!(vals[0], Value::Int { val: 1, .. }));
            assert!(matches!(vals[1], Value::Int { val: 2, .. }));
        }
        other => panic!("expected a list, got {:?}", other),
    }
    assert_eq!(wrapper[1].0, "children");
    let inner = record_pairs(&wrapper[1].1);
    assert_eq!(inner[0].0, "c");
    assert!(matches!(inner[0].1, Value::Int { val: 3, .. }));
}

#[test]
fn float_literal_text_shapes() {
    assert!(check_float_text("1.5"));
    assert!(check_float_text("-2.5E-3"));
    assert!(check_float_text("1."));
    assert!(check_float_text(".5"));
    assert!(check_float_text("1e5"));
    assert!(check_float_text("+.5e+3"));
    assert!(check_float_text("42"));
    assert!(!check_float_text(""));
    assert!(!check_float_text("."));
    assert!(!check_float_text("1e"));
    assert!(!check_float_text("abc"));
    assert!(!check_float_text("#inf"));
    assert!(!check_float_text("+-1"));
    assert!(!check_float_text("1.2.3"));
    assert!(!check_float_text("1e2e3"));
}

#[test]
fn command_metadata() {
    assert_eq!(FromKdl.name(), "from kdl");
    assert_eq!(FromKdl.description(), "Convert KDL document to Nushell record");
    assert_eq!(ToKdl.name(), "to kdl");
    assert_eq!(ToKdl.description(), "Convert Nushell record to KDL document");
}
