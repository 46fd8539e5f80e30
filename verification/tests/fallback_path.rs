use dataclass_encoder::error::EncodeError;
use dataclass_encoder::fallback::{DataclassFallbackSerializer, FieldEntry};
use dataclass_encoder::output::ValueHandle;

fn field(name: &str, id: u64) -> FieldEntry {
    FieldEntry {
        name: Some(name.as_bytes().to_vec()),
        is_instance_field: Some(true),
        value: Some(ValueHandle { id }),
    }
}

#[test]
fn fallback_empty_field_list_emits_empty_map() {
    let s = DataclassFallbackSerializer::new(Some(Vec::new()), 0, 0, 0, None);
    let out = s.serialize().unwrap();
    assert_eq!(out.size_hint, Some(0));
    assert!(out.entries.is_empty());
}

#[test]
fn fallback_declared_fields_encode_in_order() {
    // Record of a reflective type with declared fields [x: 1, value: true]:
    // encodes to {"x": 1, "value": true}.
    let fields = vec![field("x", 1), field("value", 2)];
    let s = DataclassFallbackSerializer::new(Some(fields), 0, 0, 0, None);
    let out = s.serialize().unwrap();
    assert_eq!(out.size_hint, None);
    assert_eq!(out.entries.len(), 2);
    assert_eq!(out.entries[0].key, b"x".to_vec());
    assert_eq!(out.entries[0].value.value.id, 1);
    assert_eq!(out.entries[1].key, b"value".to_vec());
    assert_eq!(out.entries[1].value.value.id, 2);
}

#[test]
fn fallback_non_instance_descriptor_is_skipped() {
    let fields = vec![
        field("a", 1),
        FieldEntry {
            name: Some(b"b".to_vec()),
            is_instance_field: Some(false),
            value: Some(ValueHandle { id: 2 }),
        },
        field("c", 3),
    ];
    let s = DataclassFallbackSerializer::new(Some(fields), 0, 0, 0, None);
    let out = s.serialize().unwrap();
    assert_eq!(out.entries.len(), 2);
    assert_eq!(out.entries[0].key, b"a".to_vec());
    assert_eq!(out.entries[1].key, b"c".to_vec());
}

#[test]
fn fallback_non_instance_descriptor_is_skipped_before_its_name_is_read() {
    // Classification comes first: a non-instance descriptor with an
    // undecodable name is skipped, not an error.
    let fields = vec![FieldEntry { name: None, is_instance_field: Some(false), value: None }];
    let s = DataclassFallbackSerializer::new(Some(fields), 0, 0, 0, None);
    let out = s.serialize().unwrap();
    assert!(out.entries.is_empty());
}

#[test]
fn fallback_undecodable_name_aborts_whole_encode() {
    let fields = vec![
        field("a", 1),
        FieldEntry { name: None, is_instance_field: Some(true), value: Some(ValueHandle { id: 2 }) },
    ];
    let s = DataclassFallbackSerializer::new(Some(fields), 0, 0, 0, None);
    assert_eq!(s.serialize(), Err(EncodeError::InvalidStr));
}

#[test]
fn fallback_field_list_resolution_failure() {
    let s = DataclassFallbackSerializer::new(None, 0, 0, 0, None);
    assert_eq!(s.serialize(), Err(EncodeError::HostCallFailure));
}

#[test]
fn fallback_classification_failure_aborts() {
    let fields = vec![FieldEntry {
        name: Some(b"a".to_vec()),
        is_instance_field: None,
        value: Some(ValueHandle { id: 1 }),
    }];
    let s = DataclassFallbackSerializer::new(Some(fields), 0, 0, 0, None);
    assert_eq!(s.serialize(), Err(EncodeError::HostCallFailure));
}

#[test]
fn fallback_value_resolution_failure_aborts() {
    let fields = vec![FieldEntry {
        name: Some(b"a".to_vec()),
        is_instance_field: Some(true),
        value: None,
    }];
    let s = DataclassFallbackSerializer::new(Some(fields), 0, 0, 0, None);
    assert_eq!(s.serialize(), Err(EncodeError::HostCallFailure));
}

#[test]
fn fallback_reserved_name_skipped_before_value_resolution() {
    // A reserved-prefix name is dropped before the value would be resolved:
    // a missing value behind it is never an error.
    let fields = vec![FieldEntry {
        name: Some(b"_hidden".to_vec()),
        is_instance_field: Some(true),
        value: None,
    }];
    let s = DataclassFallbackSerializer::new(Some(fields), 0, 0, 0, None);
    let out = s.serialize().unwrap();
    assert_eq!(out.size_hint, None);
    assert!(out.entries.is_empty());
}

#[test]
fn fallback_permuting_fields_permutes_output() {
    let forward = vec![field("a", 1), field("b", 2)];
    let backward = vec![field("b", 2), field("a", 1)];
    let out_f = DataclassFallbackSerializer::new(Some(forward), 0, 0, 0, None).serialize().unwrap();
    let out_b = DataclassFallbackSerializer::new(Some(backward), 0, 0, 0, None).serialize().unwrap();
    assert_eq!(out_f.entries[0].key, b"a".to_vec());
    assert_eq!(out_f.entries[1].key, b"b".to_vec());
    assert_eq!(out_b.entries[0].key, b"b".to_vec());
    assert_eq!(out_b.entries[1].key, b"a".to_vec());
}

#[test]
fn fallback_recursion_depth_rises_by_one_per_level() {
    let fields = vec![field("a", 1), field("b", 2), field("c", 3)];
    let s = DataclassFallbackSerializer::new(Some(fields), 0, 0, 8, None);
    let out = s.serialize().unwrap();
    for e in &out.entries {
        assert_eq!(e.value.ctx.recursion, 9);
    }
    let nested_ctx = out.entries[0].value.ctx;
    let nested = DataclassFallbackSerializer::new(
        Some(vec![field("inner", 4)]),
        nested_ctx.opts,
        nested_ctx.default_calls,
        nested_ctx.recursion,
        nested_ctx.default_hook,
    );
    let nested_out = nested.serialize().unwrap();
    assert_eq!(nested_out.entries[0].value.ctx.recursion, 10);
}

#[test]
fn fallback_context_is_forwarded_unchanged() {
    let fields = vec![field("a", 1)];
    let s = DataclassFallbackSerializer::new(Some(fields), 33, 2, 0, Some(5));
    let out = s.serialize().unwrap();
    let ctx = out.entries[0].value.ctx;
    assert_eq!(ctx.opts, 33);
    assert_eq!(ctx.default_calls, 2);
    assert_eq!(ctx.recursion, 1);
    assert_eq!(ctx.default_hook, Some(5));
}
