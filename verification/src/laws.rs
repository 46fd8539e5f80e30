use vstd::prelude::*;

use crate::error::EncodeError;
use crate::fallback::{
    fallback_emits, fallback_entry_error, fallback_error, fallback_output_of, fallback_outputs,
    spec_fallback_serialize, DataclassFallbackSerializer, FieldEntry,
};
use crate::fast::{
    fast_emits, fast_error, fast_key_error, fast_output_of, fast_outputs,
    spec_fast_serialize, DataclassFastSerializer, FastEntry, FastKey,
};
use crate::key::is_reserved;
use crate::output::{MapOutputModel, OutputEntryModel, SerializeContext, ValueHandle};

verus! {

/// A record with zero fields encodes, under either path, to the empty map
/// with a size hint of zero — independent of variant.
pub proof fn lemma_empty_record_both_paths(
    fast: DataclassFastSerializer,
    fallback: DataclassFallbackSerializer,
)
    requires
        fast.entries@.len() == 0,
        fallback.fields matches Some(f) && f@.len() == 0,
    ensures
        spec_fast_serialize(fast) == Ok::<MapOutputModel, EncodeError>(
            MapOutputModel { size_hint: Some(0usize), entries: Seq::empty() },
        ),
        spec_fallback_serialize(fallback) == Ok::<MapOutputModel, EncodeError>(
            MapOutputModel { size_hint: Some(0usize), entries: Seq::empty() },
        ),
{
}

proof fn lemma_fast_no_reserved(entries: Seq<FastEntry>, ctx: SerializeContext)
    ensures
        forall|j: int| 0 <= j < fast_outputs(entries, ctx).len() ==> !is_reserved(
            (#[trigger] fast_outputs(entries, ctx)[j]).key,
        ),
    decreases entries.len(),
{
    if entries.len() > 0 {
        lemma_fast_no_reserved(entries.drop_last(), ctx);
        let rest = fast_outputs(entries.drop_last(), ctx);
        let out = fast_outputs(entries, ctx);
        assert forall|j: int| 0 <= j < out.len() implies !is_reserved(out[j].key) by {
            if fast_emits(entries.last()) {
                if j < rest.len() {
                    assert(out[j] == rest[j]);
                } else {
                    assert(out[j] == fast_output_of(entries.last(), ctx));
                }
            } else {
                assert(out[j] == rest[j]);
            }
        }
    }
}

proof fn lemma_fallback_no_reserved(fields: Seq<FieldEntry>, ctx: SerializeContext)
    ensures
        forall|j: int| 0 <= j < fallback_outputs(fields, ctx).len() ==> !is_reserved(
            (#[trigger] fallback_outputs(fields, ctx)[j]).key,
        ),
    decreases fields.len(),
{
    if fields.len() > 0 {
        lemma_fallback_no_reserved(fields.drop_last(), ctx);
        let rest = fallback_outputs(fields.drop_last(), ctx);
        let out = fallback_outputs(fields, ctx);
        assert forall|j: int| 0 <= j < out.len() implies !is_reserved(out[j].key) by {
            if fallback_emits(fields.last()) {
                if j < rest.len() {
                    assert(out[j] == rest[j]);
                } else {
                    assert(out[j] == fallback_output_of(fields.last(), ctx));
                }
            } else {
                assert(out[j] == rest[j]);
            }
        }
    }
}

/// Names under the private-field exclusion convention never appear in the
/// output of either path.
pub proof fn lemma_reserved_keys_never_emitted(
    entries: Seq<FastEntry>,
    fields: Seq<FieldEntry>,
    ctx: SerializeContext,
)
    ensures
        forall|j: int| 0 <= j < fast_outputs(entries, ctx).len() ==> !is_reserved(
            (#[trigger] fast_outputs(entries, ctx)[j]).key,
        ),
        forall|j: int| 0 <= j < fallback_outputs(fields, ctx).len() ==> !is_reserved(
            (#[trigger] fallback_outputs(fields, ctx)[j]).key,
        ),
{
    lemma_fast_no_reserved(entries, ctx);
    lemma_fallback_no_reserved(fields, ctx);
}

/// Every fast-path entry with an accepted key — decodable text without the
/// reserved prefix — contributes its pair to the output.
pub proof fn lemma_fast_accepted_key_emitted(
    entries: Seq<FastEntry>,
    ctx: SerializeContext,
    i: int,
)
    requires
        0 <= i < entries.len(),
        fast_emits(entries[i]),
    ensures
        fast_outputs(entries, ctx).contains(fast_output_of(entries[i], ctx)),
    decreases entries.len(),
{
    let out = fast_outputs(entries, ctx);
    let rest = fast_outputs(entries.drop_last(), ctx);
    if i == entries.len() - 1 {
        assert(out[out.len() - 1] == fast_output_of(entries[i], ctx));
    } else {
        lemma_fast_accepted_key_emitted(entries.drop_last(), ctx, i);
        assert(entries.drop_last()[i] == entries[i]);
        let k = choose|k: int|
            0 <= k < rest.len() && rest[k] == fast_output_of(entries[i], ctx);
        assert(out[k] == fast_output_of(entries[i], ctx));
    }
}

/// Every fallback descriptor that is instance state with an accepted name and
/// a resolved value contributes its pair to the output.
pub proof fn lemma_fallback_accepted_field_emitted(
    fields: Seq<FieldEntry>,
    ctx: SerializeContext,
    i: int,
)
    requires
        0 <= i < fields.len(),
        fallback_emits(fields[i]),
    ensures
        fallback_outputs(fields, ctx).contains(fallback_output_of(fields[i], ctx)),
    decreases fields.len(),
{
    let out = fallback_outputs(fields, ctx);
    let rest = fallback_outputs(fields.drop_last(), ctx);
    if i == fields.len() - 1 {
        assert(out[out.len() - 1] == fallback_output_of(fields[i], ctx));
    } else {
        lemma_fallback_accepted_field_emitted(fields.drop_last(), ctx, i);
        assert(fields.drop_last()[i] == fields[i]);
        let k = choose|k: int|
            0 <= k < rest.len() && rest[k] == fallback_output_of(fields[i], ctx);
        assert(out[k] == fallback_output_of(fields[i], ctx));
    }
}

/// A non-text key anywhere makes the whole fast-path encode fail; where every
/// key before it passes, the error is exactly `KeyMustBeStr`. An encode that
/// fails returns its error alone: no output exists beside it.
pub proof fn lemma_fast_non_text_key_fails(entries: Seq<FastEntry>, i: int)
    requires
        0 <= i < entries.len(),
        entries[i].key == FastKey::NonText,
    ensures
        fast_error(entries) is Some,
        (forall|j: int| 0 <= j < i ==> fast_key_error(#[trigger] entries[j]) is None)
            ==> fast_error(entries) == Some(EncodeError::KeyMustBeStr),
{
    crate::fast::lemma_fast_error_some(entries, i);
    if forall|j: int| 0 <= j < i ==> fast_key_error(#[trigger] entries[j]) is None {
        crate::fast::lemma_fast_error_at(entries, i);
    }
}

/// Order preservation, fast path: the output of one run of entries followed by
/// another is the first run's output followed by the second's. Entries encode
/// in source order; permuting the input permutes the output identically.
pub proof fn lemma_fast_output_order(a: Seq<FastEntry>, b: Seq<FastEntry>, ctx: SerializeContext)
    ensures
        fast_outputs(a + b, ctx) == fast_outputs(a, ctx) + fast_outputs(b, ctx),
    decreases b.len(),
{
    if b.len() == 0 {
        assert(a + b =~= a);
        assert(fast_outputs(a, ctx) + fast_outputs(b, ctx) =~= fast_outputs(a, ctx));
    } else {
        lemma_fast_output_order(a, b.drop_last(), ctx);
        assert((a + b).drop_last() =~= a + b.drop_last());
        assert((a + b).last() == b.last());
        if fast_emits(b.last()) {
            assert(fast_outputs(a, ctx) + fast_outputs(b, ctx) =~= (fast_outputs(a, ctx)
                + fast_outputs(b.drop_last(), ctx)).push(fast_output_of(b.last(), ctx)));
        } else {
            assert(fast_outputs(b, ctx) == fast_outputs(b.drop_last(), ctx));
        }
    }
}

/// Order preservation, fallback path: the output of one run of descriptors
/// followed by another is the first run's output followed by the second's.
pub proof fn lemma_fallback_output_order(
    a: Seq<FieldEntry>,
    b: Seq<FieldEntry>,
    ctx: SerializeContext,
)
    ensures
        fallback_outputs(a + b, ctx) == fallback_outputs(a, ctx) + fallback_outputs(b, ctx),
    decreases b.len(),
{
    if b.len() == 0 {
        assert(a + b =~= a);
        assert(fallback_outputs(a, ctx) + fallback_outputs(b, ctx) =~= fallback_outputs(a, ctx));
    } else {
        lemma_fallback_output_order(a, b.drop_last(), ctx);
        assert((a + b).drop_last() =~= a + b.drop_last());
        assert((a + b).last() == b.last());
        if fallback_emits(b.last()) {
            assert(fallback_outputs(a, ctx) + fallback_outputs(b, ctx) =~= (fallback_outputs(
                a,
                ctx,
            ) + fallback_outputs(b.drop_last(), ctx)).push(fallback_output_of(b.last(), ctx)));
        } else {
            assert(fallback_outputs(b, ctx) == fallback_outputs(b.drop_last(), ctx));
        }
    }
}

proof fn lemma_fast_delegate_ctx(entries: Seq<FastEntry>, ctx: SerializeContext)
    ensures
        forall|j: int| 0 <= j < fast_outputs(entries, ctx).len() ==> (#[trigger] fast_outputs(
            entries,
            ctx,
        )[j]).value.ctx == ctx,
    decreases entries.len(),
{
    if entries.len() > 0 {
        lemma_fast_delegate_ctx(entries.drop_last(), ctx);
        let rest = fast_outputs(entries.drop_last(), ctx);
        let out = fast_outputs(entries, ctx);
        assert forall|j: int| 0 <= j < out.len() implies out[j].value.ctx == ctx by {
            if fast_emits(entries.last()) && j == rest.len() {
                assert(out[j] == fast_output_of(entries.last(), ctx));
            } else {
                assert(out[j] == rest[j]);
            }
        }
    }
}

proof fn lemma_fallback_delegate_ctx(fields: Seq<FieldEntry>, ctx: SerializeContext)
    ensures
        forall|j: int| 0 <= j < fallback_outputs(fields, ctx).len() ==> (
        #[trigger] fallback_outputs(fields, ctx)[j]).value.ctx == ctx,
    decreases fields.len(),
{
    if fields.len() > 0 {
        lemma_fallback_delegate_ctx(fields.drop_last(), ctx);
        let rest = fallback_outputs(fields.drop_last(), ctx);
        let out = fallback_outputs(fields, ctx);
        assert forall|j: int| 0 <= j < out.len() implies out[j].value.ctx == ctx by {
            if fallback_emits(fields.last()) && j == rest.len() {
                assert(out[j] == fallback_output_of(fields.last(), ctx));
            } else {
                assert(out[j] == rest[j]);
            }
        }
    }
}

/// Both paths hand every nested value-encoder delegate the serializer's own
/// context, unchanged: options, default-call count and hook are forwarded as
/// they stand, and the recursion depth is the one the serializer was built
/// with. Since construction stores a depth of exactly one above its input,
/// each structured-record nesting level raises the depth every nested value
/// receives by exactly 1, regardless of field count.
pub proof fn lemma_context_forwarding(
    entries: Seq<FastEntry>,
    fields: Seq<FieldEntry>,
    ctx: SerializeContext,
)
    ensures
        forall|j: int| 0 <= j < fast_outputs(entries, ctx).len() ==> (#[trigger] fast_outputs(
            entries,
            ctx,
        )[j]).value.ctx == ctx,
        forall|j: int| 0 <= j < fallback_outputs(fields, ctx).len() ==> (
        #[trigger] fallback_outputs(fields, ctx)[j]).value.ctx == ctx,
{
    lemma_fast_delegate_ctx(entries, ctx);
    lemma_fallback_delegate_ctx(fields, ctx);
}

proof fn lemma_fallback_error_concat(a: Seq<FieldEntry>, b: Seq<FieldEntry>)
    ensures
        fallback_error(a + b) == if fallback_error(a) is Some {
            fallback_error(a)
        } else {
            fallback_error(b)
        },
    decreases a.len(),
{
    if a.len() == 0 {
        assert(a + b =~= b);
    } else {
        assert((a + b)[0] == a[0]);
        assert((a + b).drop_first() =~= a.drop_first() + b);
        lemma_fallback_error_concat(a.drop_first(), b);
    }
}

/// Fallback field classification is deterministic: a descriptor classified as
/// non-instance is skipped wherever it stands — inserting it anywhere in the
/// descriptor list changes neither the emitted pairs nor the error of the
/// whole encode. It is never emitted, in whole or in part.
pub proof fn lemma_non_instance_descriptor_skipped(
    fields: Seq<FieldEntry>,
    i: int,
    e: FieldEntry,
    ctx: SerializeContext,
)
    requires
        0 <= i <= fields.len(),
        e.is_instance_field == Some(false),
    ensures
        fallback_outputs(fields.insert(i, e), ctx) == fallback_outputs(fields, ctx),
        fallback_error(fields.insert(i, e)) == fallback_error(fields),
{
    let head = fields.take(i);
    let tail = fields.skip(i);
    let single = seq![e];
    assert(fields.insert(i, e) =~= head + (single + tail));
    assert(fields =~= head + tail);
    assert(single.drop_last() =~= Seq::<FieldEntry>::empty());
    assert(fallback_outputs(Seq::<FieldEntry>::empty(), ctx) == Seq::<OutputEntryModel>::empty());
    assert(!fallback_emits(e));
    assert(single.last() == e);
    assert(fallback_outputs(single, ctx) =~= Seq::<OutputEntryModel>::empty());
    assert(single.drop_first() =~= Seq::<FieldEntry>::empty());
    assert(fallback_error(Seq::<FieldEntry>::empty()) is None);
    assert(fallback_entry_error(e) is None);
    assert(single[0] == e);
    assert(fallback_error(single) is None);
    lemma_fallback_output_order(single, tail, ctx);
    assert(fallback_outputs(single + tail, ctx) =~= fallback_outputs(tail, ctx));
    lemma_fallback_output_order(head, single + tail, ctx);
    lemma_fallback_output_order(head, tail, ctx);
    lemma_fallback_error_concat(single, tail);
    lemma_fallback_error_concat(head, single + tail);
    lemma_fallback_error_concat(head, tail);
}

/// The two paths apply one shared rule to a decoded name, differing only in
/// when they apply it: for the same decode result, a fast-path text key and an
/// instance-classified descriptor with a resolved value fail alike (an
/// undecodable name aborts the whole encode with `InvalidStr` on both), skip
/// alike under the reserved prefix, and emit the same pair.
pub proof fn lemma_paths_share_name_rule(
    d: Option<Vec<u8>>,
    v: ValueHandle,
    ctx: SerializeContext,
)
    ensures
        ({
            let fe = FastEntry { key: FastKey::Text(d), value: v };
            let de = FieldEntry { name: d, is_instance_field: Some(true), value: Some(v) };
            &&& fast_key_error(fe) == fallback_entry_error(de)
            &&& fast_emits(fe) == fallback_emits(de)
            &&& fast_emits(fe) ==> fast_output_of(fe, ctx) == fallback_output_of(de, ctx)
        }),
{
}

} // verus!
