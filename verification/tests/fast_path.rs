use dataclass_encoder::error::EncodeError;
use dataclass_encoder::fast::{DataclassFastSerializer, FastEntry, FastKey};
use dataclass_encoder::output::ValueHandle;

fn text(name: &str) -> FastKey {
    FastKey::Text(Some(name.as_bytes().to_vec()))
}

fn entry(key: FastKey, id: u64) -> FastEntry {
    FastEntry { key, value: ValueHandle { id } }
}

#[test]
fn fast_empty_record_emits_empty_map() {
    let s = DataclassFastSerializer::new(Vec::new(), 0, 0, 0, None);
    let out = s.serialize().unwrap();
    assert_eq!(out.size_hint, Some(0));
    assert!(out.entries.is_empty());
}

#[test]
fn fast_skips_reserved_prefix_and_keeps_order() {
    // Record backed by ordered entries {"a": 1, "_b": 2, "c": "x"}:
    // encodes to {"a": 1, "c": "x"}.
    let entries = vec![
        entry(text("a"), 1),
        entry(text("_b"), 2),
        entry(text("c"), 3),
    ];
    let s = DataclassFastSerializer::new(entries, 0, 0, 0, None);
    let out = s.serialize().unwrap();
    assert_eq!(out.size_hint, None);
    assert_eq!(out.entries.len(), 2);
    assert_eq!(out.entries[0].key, b"a".to_vec());
    assert_eq!(out.entries[0].value.value.id, 1);
    assert_eq!(out.entries[1].key, b"c".to_vec());
    assert_eq!(out.entries[1].value.value.id, 3);
}

#[test]
fn fast_non_text_key_fails_with_no_output() {
    let entries = vec![entry(text("a"), 1), entry(FastKey::NonText, 2)];
    let s = DataclassFastSerializer::new(entries, 0, 0, 0, None);
    assert_eq!(s.serialize(), Err(EncodeError::KeyMustBeStr));
}

#[test]
fn fast_non_text_key_first_fails() {
    let entries = vec![entry(FastKey::NonText, 1), entry(text("a"), 2)];
    let s = DataclassFastSerializer::new(entries, 0, 0, 0, None);
    assert_eq!(s.serialize(), Err(EncodeError::KeyMustBeStr));
}

#[test]
fn fast_undecodable_key_fails() {
    let entries = vec![entry(FastKey::Text(None), 1)];
    let s = DataclassFastSerializer::new(entries, 0, 0, 0, None);
    assert_eq!(s.serialize(), Err(EncodeError::InvalidStr));
}

#[test]
fn fast_first_failing_key_decides_the_error() {
    let entries = vec![entry(FastKey::Text(None), 1), entry(FastKey::NonText, 2)];
    let s = DataclassFastSerializer::new(entries, 0, 0, 0, None);
    assert_eq!(s.serialize(), Err(EncodeError::InvalidStr));
}

#[test]
fn fast_permuting_input_permutes_output() {
    let forward = vec![entry(text("a"), 1), entry(text("b"), 2)];
    let backward = vec![entry(text("b"), 2), entry(text("a"), 1)];
    let out_f = DataclassFastSerializer::new(forward, 0, 0, 0, None).serialize().unwrap();
    let out_b = DataclassFastSerializer::new(backward, 0, 0, 0, None).serialize().unwrap();
    assert_eq!(out_f.entries[0].key, b"a".to_vec());
    assert_eq!(out_f.entries[1].key, b"b".to_vec());
    assert_eq!(out_b.entries[0].key, b"b".to_vec());
    assert_eq!(out_b.entries[1].key, b"a".to_vec());
}

#[test]
fn fast_recursion_depth_rises_by_one_per_level() {
    let entries = vec![entry(text("a"), 1), entry(text("b"), 2)];
    let s = DataclassFastSerializer::new(entries, 0, 0, 5, None);
    let out = s.serialize().unwrap();
    for e in &out.entries {
        assert_eq!(e.value.ctx.recursion, 6);
    }
    // A nested structured record is encoded under the delegate's context:
    // one more level, one more unit of depth, whatever the field count.
    let nested_ctx = out.entries[0].value.ctx;
    let nested = DataclassFastSerializer::new(
        vec![entry(text("x"), 7)],
        nested_ctx.opts,
        nested_ctx.default_calls,
        nested_ctx.recursion,
        nested_ctx.default_hook,
    );
    let nested_out = nested.serialize().unwrap();
    assert_eq!(nested_out.entries[0].value.ctx.recursion, 7);
}

#[test]
fn fast_context_is_forwarded_unchanged() {
    let entries = vec![entry(text("a"), 1)];
    let s = DataclassFastSerializer::new(entries, 21, 4, 9, Some(77));
    let out = s.serialize().unwrap();
    let ctx = out.entries[0].value.ctx;
    assert_eq!(ctx.opts, 21);
    assert_eq!(ctx.default_calls, 4);
    assert_eq!(ctx.recursion, 10);
    assert_eq!(ctx.default_hook, Some(77));
}

#[test]
fn fast_empty_key_is_emitted() {
    // An empty key begins with nothing, so the exclusion convention
    // does not apply to it.
    let entries = vec![entry(text(""), 1)];
    let s = DataclassFastSerializer::new(entries, 0, 0, 0, None);
    let out = s.serialize().unwrap();
    assert_eq!(out.entries.len(), 1);
    assert_eq!(out.entries[0].key, Vec::<u8>::new());
}

#[test]
fn fast_all_entries_skipped_gives_empty_map_without_hint() {
    let entries = vec![entry(text("_a"), 1), entry(text("_"), 2)];
    let s = DataclassFastSerializer::new(entries, 0, 0, 0, None);
    let out = s.serialize().unwrap();
    assert_eq!(out.size_hint, None);
    assert!(out.entries.is_empty());
}
