use vstd::prelude::*;

use crate::error::EncodeError;
use crate::key::{is_reserved, validate_text_key, KeyOutcome};
use crate::output::{
    entries_view, MapOutput, MapOutputModel, OutputEntry, OutputEntryModel, SerializeContext,
    ValueDelegate, ValueHandle,
};

verus! {

/// One field descriptor of a reflective record, together with the results of
/// the host calls the fallback path makes for it under the global exclusivity
/// lock. The host resolves each piece under a narrow lock scope and hands the
/// plain values over; a `None` in `is_instance_field` or `value` records an
/// unexpectedly failed host call. The fallback path itself decides, in the
/// fixed order classification, decode, prefix, value, what each piece means.
#[derive(Clone, PartialEq, Eq, Debug)]
pub struct FieldEntry {
    /// The host's decode of the attribute name (`None`: not valid text).
    pub name: Option<Vec<u8>>,
    /// The descriptor's classification: `Some(true)` for true instance state,
    /// `Some(false)` for a derived or class-level attribute, `None` where the
    /// classifying host call failed. The exact classification rule is the
    /// host's; this library only honours its verdict.
    pub is_instance_field: Option<bool>,
    /// The field's value, resolved by a dynamic attribute-access host call
    /// (`None`: that call failed).
    pub value: Option<ValueHandle>,
}

/// What one descriptor decides about the whole encode, in the order the
/// fallback path asks: a failed classification aborts with `HostCallFailure`;
/// a non-instance descriptor is skipped before anything else is looked at; an
/// undecodable name aborts with `InvalidStr`; a reserved-prefix name is
/// skipped before its value is ever resolved; a failed value resolution aborts
/// with `HostCallFailure`.
pub open spec fn fallback_entry_error(e: FieldEntry) -> Option<EncodeError> {
    match e.is_instance_field {
        Option::None => Some(EncodeError::HostCallFailure),
        Option::Some(false) => None,
        Option::Some(true) => match e.name {
            Option::None => Some(EncodeError::InvalidStr),
            Option::Some(b) => if is_reserved(b@) {
                None
            } else if e.value is None {
                Some(EncodeError::HostCallFailure)
            } else {
                None
            },
        },
    }
}

/// Whether one descriptor reaches the output: classified as true instance
/// state, with a decodable name that does not carry the reserved prefix, and
/// a resolved value.
pub open spec fn fallback_emits(e: FieldEntry) -> bool {
    &&& e.is_instance_field == Some(true)
    &&& e.name matches Some(b) && !is_reserved(b@)
    &&& e.value is Some
}

/// The decoded attribute name of a descriptor (empty where it has none; only
/// descriptors with `fallback_emits` ever reach the output).
pub open spec fn field_name_bytes(e: FieldEntry) -> Seq<u8> {
    match e.name {
        Option::None => Seq::empty(),
        Option::Some(b) => b@,
    }
}

/// The resolved value of a descriptor (a placeholder handle where resolution
/// failed; only descriptors with `fallback_emits` ever reach the output).
pub open spec fn field_value_handle(e: FieldEntry) -> ValueHandle {
    match e.value {
        Option::None => ValueHandle { id: 0 },
        Option::Some(v) => v,
    }
}

/// The first error the fallback path meets walking the descriptors in
/// declaration order, if any.
pub open spec fn fallback_error(fields: Seq<FieldEntry>) -> Option<EncodeError>
    decreases fields.len(),
{
    if fields.len() == 0 {
        None
    } else if fallback_entry_error(fields[0]) is Some {
        fallback_entry_error(fields[0])
    } else {
        fallback_error(fields.drop_first())
    }
}

/// The output pair one emitted descriptor produces under context `ctx`.
pub open spec fn fallback_output_of(e: FieldEntry, ctx: SerializeContext) -> OutputEntryModel {
    OutputEntryModel {
        key: field_name_bytes(e),
        value: ValueDelegate { value: field_value_handle(e), ctx },
    }
}

/// The pairs the fallback path emits, in declaration order: every descriptor
/// classified as instance state whose name is decodable text without the
/// reserved prefix and whose value resolved, the value wrapped in a delegate
/// carrying `ctx`.
pub open spec fn fallback_outputs(fields: Seq<FieldEntry>, ctx: SerializeContext) -> Seq<
    OutputEntryModel,
>
    decreases fields.len(),
{
    if fields.len() == 0 {
        Seq::empty()
    } else {
        let rest = fallback_outputs(fields.drop_last(), ctx);
        if fallback_emits(fields.last()) {
            rest.push(fallback_output_of(fields.last(), ctx))
        } else {
            rest
        }
    }
}

/// Appending one descriptor either appends exactly its output pair, or leaves
/// the emitted pairs untouched.
pub proof fn lemma_fallback_outputs_push(
    fields: Seq<FieldEntry>,
    e: FieldEntry,
    ctx: SerializeContext,
)
    ensures
        fallback_outputs(fields.push(e), ctx) == if fallback_emits(e) {
            fallback_outputs(fields, ctx).push(fallback_output_of(e, ctx))
        } else {
            fallback_outputs(fields, ctx)
        },
{
    assert(fields.push(e).drop_last() =~= fields);
    assert(fields.push(e).last() == e);
}

/// Descriptors that all pass give the fallback path no error.
pub proof fn lemma_fallback_error_none(fields: Seq<FieldEntry>)
    requires
        forall|j: int| 0 <= j < fields.len() ==> fallback_entry_error(#[trigger] fields[j]) is None,
    ensures
        fallback_error(fields) is None,
    decreases fields.len(),
{
    if fields.len() > 0 {
        assert(fallback_entry_error(fields[0]) is None);
        assert forall|j: int|
            0 <= j < fields.drop_first().len() implies fallback_entry_error(
            #[trigger] fields.drop_first()[j],
        ) is None by {
            assert(fields.drop_first()[j] == fields[j + 1]);
        }
        lemma_fallback_error_none(fields.drop_first());
    }
}

/// The first failing descriptor decides the error of the whole fallback path.
pub proof fn lemma_fallback_error_at(fields: Seq<FieldEntry>, i: int)
    requires
        0 <= i < fields.len(),
        forall|j: int| 0 <= j < i ==> fallback_entry_error(#[trigger] fields[j]) is None,
        fallback_entry_error(fields[i]) is Some,
    ensures
        fallback_error(fields) == fallback_entry_error(fields[i]),
    decreases i,
{
    if i > 0 {
        assert(fallback_entry_error(fields[0]) is None);
        assert forall|j: int|
            0 <= j < i - 1 implies fallback_entry_error(
            #[trigger] fields.drop_first()[j],
        ) is None by {
            assert(fields.drop_first()[j] == fields[j + 1]);
        }
        assert(fields.drop_first()[i - 1] == fields[i]);
        lemma_fallback_error_at(fields.drop_first(), i - 1);
    }
}

/// Serializer for a record without direct storage access, whose fields were
/// discovered through the type's reflection metadata. `fields` holds the
/// result of resolving the type's field-descriptor list under a short scoped
/// acquisition of the global exclusivity lock (`None`: that resolution
/// failed); once obtained, the list is stable read-only metadata. Like its
/// fast-path sibling, the serializer is transient: built immediately before
/// use and consumed by exactly one `serialize` call.
pub struct DataclassFallbackSerializer {
    pub fields: Option<Vec<FieldEntry>>,
    pub ctx: SerializeContext,
}

/// The map the fallback path owes: `HostCallFailure` where the descriptor list
/// itself could not be resolved; else its first error where some descriptor
/// fails; else every emitted pair in declaration order, under a size hint of
/// zero for an empty descriptor list and no hint otherwise.
pub open spec fn spec_fallback_serialize(s: DataclassFallbackSerializer) -> Result<
    MapOutputModel,
    EncodeError,
> {
    match s.fields {
        Option::None => Err(EncodeError::HostCallFailure),
        Option::Some(f) => match fallback_error(f@) {
            Some(e) => Err(e),
            None => Ok(
                MapOutputModel {
                    size_hint: if f@.len() == 0 {
                        Some(0usize)
                    } else {
                        None
                    },
                    entries: fallback_outputs(f@, s.ctx),
                },
            ),
        },
    }
}

impl DataclassFallbackSerializer {
    /// Builds a fallback serializer over a record's resolved field-descriptor
    /// list. The stored context carries a recursion depth of exactly one above
    /// `recursion`: that post-increment depth, not the incoming one, is what every
    /// nested value encoder receives. Everything else is forwarded unchanged.
    pub fn new(
        fields: Option<Vec<FieldEntry>>,
        opts: u32,
        default_calls: u8,
        recursion: u8,
        default_hook: Option<u64>,
    ) -> (r: Self)
        requires
            recursion < u8::MAX,
        ensures
            r.fields == fields,
            r.ctx.opts == opts,
            r.ctx.default_calls == default_calls,
            r.ctx.recursion == recursion + 1,
            r.ctx.default_hook == default_hook,
    {
        DataclassFallbackSerializer {
            fields,
            ctx: SerializeContext { opts, default_calls, recursion: recursion + 1, default_hook },
        }
    }

    /// Encodes the record as one map: exactly the pairs of
    /// `spec_fallback_serialize`, in declaration order, or its first error
    /// with no output at all.
    #[verifier::loop_isolation(false)]
    pub fn serialize(&self) -> (r: Result<MapOutput, EncodeError>)
        ensures
            match r {
                Ok(out) => spec_fallback_serialize(*self) == Ok::<
                    MapOutputModel,
                    EncodeError,
                >(out@),
                Err(e) => spec_fallback_serialize(*self) == Err::<MapOutputModel, EncodeError>(e),
            },
    {
        let fields = match &self.fields {
            Option::None => {
                return Err(EncodeError::HostCallFailure);
            },
            Option::Some(f) => f,
        };
        let len = fields.len();
        if len == 0 {
            let out = MapOutput { size_hint: Some(0), entries: Vec::new() };
            proof {
                assert(entries_view(out.entries@) =~= fallback_outputs(fields@, self.ctx));
            }
            return Ok(out);
        }
        let mut emitted: Vec<OutputEntry> = Vec::new();
        let mut i: usize = 0;
        while i < len
            invariant
                i <= len,
                forall|j: int| 0 <= j < i ==> fallback_entry_error(#[trigger] fields@[j]) is None,
                entries_view(emitted@) == fallback_outputs(fields@.take(i as int), self.ctx),
            decreases len - i,
        {
            let e = &fields[i];
            let ghost pre = fields@.take(i as int);
            match &e.is_instance_field {
                Option::None => {
                    proof {
                        lemma_fallback_error_at(fields@, i as int);
                    }
                    return Err(EncodeError::HostCallFailure);
                },
                Option::Some(false) => {},
                Option::Some(true) => {
                    match validate_text_key(&e.name) {
                        KeyOutcome::Fail(err) => {
                            proof {
                                lemma_fallback_error_at(fields@, i as int);
                            }
                            return Err(err);
                        },
                        KeyOutcome::Skip => {},
                        KeyOutcome::Emit(k) => {
                            match &e.value {
                                Option::None => {
                                    proof {
                                        lemma_fallback_error_at(fields@, i as int);
                                    }
                                    return Err(EncodeError::HostCallFailure);
                                },
                                Option::Some(v) => {
                                    emitted.push(
                                        OutputEntry {
                                            key: k,
                                            value: ValueDelegate { value: *v, ctx: self.ctx },
                                        },
                                    );
                                },
                            }
                        },
                    }
                },
            }
            proof {
                assert(fields@.take(i as int + 1) =~= pre.push(fields@[i as int]));
                lemma_fallback_outputs_push(pre, fields@[i as int], self.ctx);
                assert(entries_view(emitted@) =~= fallback_outputs(
                    fields@.take(i as int + 1),
                    self.ctx,
                ));
            }
            i = i + 1;
        }
        proof {
            assert(fields@.take(len as int) =~= fields@);
            lemma_fallback_error_none(fields@);
        }
        Ok(MapOutput { size_hint: None, entries: emitted })
    }
}

} // verus!
