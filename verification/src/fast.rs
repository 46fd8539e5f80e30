use vstd::prelude::*;

use crate::error::EncodeError;
use crate::key::{is_reserved, validate_text_key, KeyOutcome};
use crate::output::{
    entries_view, MapOutput, MapOutputModel, OutputEntry, OutputEntryModel, SerializeContext,
    ValueDelegate, ValueHandle,
};

verus! {

/// A fast-path key exactly as the host's ordered key/value store hands it
/// over: either not a text object at all, or a text object together with the
/// host's decode of it (`None` where the text could not be decoded).
#[derive(Clone, PartialEq, Eq, Debug)]
pub enum FastKey {
    NonText,
    Text(Option<Vec<u8>>),
}

/// One (key, value) pair of a record's intrinsic ordered key/value view, in
/// source insertion order.
#[derive(Clone, PartialEq, Eq, Debug)]
pub struct FastEntry {
    pub key: FastKey,
    pub value: ValueHandle,
}

/// What one fast-path key decides about the whole encode: a non-text key
/// aborts it with `KeyMustBeStr`, an undecodable text key aborts it with
/// `InvalidStr`, any other key lets it go on.
pub open spec fn fast_key_error(e: FastEntry) -> Option<EncodeError> {
    match e.key {
        FastKey::NonText => Some(EncodeError::KeyMustBeStr),
        FastKey::Text(d) => match d {
            Option::None => Some(EncodeError::InvalidStr),
            Option::Some(_) => None,
        },
    }
}

/// Whether one entry reaches the output: its key is decodable text that does
/// not carry the reserved prefix.
pub open spec fn fast_emits(e: FastEntry) -> bool {
    match e.key {
        FastKey::NonText => false,
        FastKey::Text(d) => match d {
            Option::None => false,
            Option::Some(b) => !is_reserved(b@),
        },
    }
}

/// The decoded key of an entry (empty where the entry has none; only entries
/// with `fast_emits` ever reach the output).
pub open spec fn fast_key_bytes(e: FastEntry) -> Seq<u8> {
    match e.key {
        FastKey::NonText => Seq::empty(),
        FastKey::Text(d) => match d {
            Option::None => Seq::empty(),
            Option::Some(b) => b@,
        },
    }
}

/// The first error the fast path meets walking the entries in source order,
/// if any.
pub open spec fn fast_error(entries: Seq<FastEntry>) -> Option<EncodeError>
    decreases entries.len(),
{
    if entries.len() == 0 {
        None
    } else if fast_key_error(entries[0]) is Some {
        fast_key_error(entries[0])
    } else {
        fast_error(entries.drop_first())
    }
}

/// The output pair one emitted entry produces under context `ctx`.
pub open spec fn fast_output_of(e: FastEntry, ctx: SerializeContext) -> OutputEntryModel {
    OutputEntryModel { key: fast_key_bytes(e), value: ValueDelegate { value: e.value, ctx } }
}

/// The pairs the fast path emits, in source order: every entry whose key is
/// decodable text without the reserved prefix, its value wrapped in a delegate
/// carrying `ctx`.
pub open spec fn fast_outputs(entries: Seq<FastEntry>, ctx: SerializeContext) -> Seq<
    OutputEntryModel,
>
    decreases entries.len(),
{
    if entries.len() == 0 {
        Seq::empty()
    } else {
        let rest = fast_outputs(entries.drop_last(), ctx);
        if fast_emits(entries.last()) {
            rest.push(fast_output_of(entries.last(), ctx))
        } else {
            rest
        }
    }
}

/// Appending one entry either appends exactly its output pair, or leaves the
/// emitted pairs untouched.
pub proof fn lemma_fast_outputs_push(entries: Seq<FastEntry>, e: FastEntry, ctx: SerializeContext)
    ensures
        fast_outputs(entries.push(e), ctx) == if fast_emits(e) {
            fast_outputs(entries, ctx).push(fast_output_of(e, ctx))
        } else {
            fast_outputs(entries, ctx)
        },
{
    assert(entries.push(e).drop_last() =~= entries);
    assert(entries.push(e).last() == e);
}

/// Entries whose keys all pass give the fast path no error.
pub proof fn lemma_fast_error_none(entries: Seq<FastEntry>)
    requires
        forall|j: int| 0 <= j < entries.len() ==> fast_key_error(#[trigger] entries[j]) is None,
    ensures
        fast_error(entries) is None,
    decreases entries.len(),
{
    if entries.len() > 0 {
        assert(fast_key_error(entries[0]) is None);
        assert forall|j: int|
            0 <= j < entries.drop_first().len() implies fast_key_error(
            #[trigger] entries.drop_first()[j],
        ) is None by {
            assert(entries.drop_first()[j] == entries[j + 1]);
        }
        lemma_fast_error_none(entries.drop_first());
    }
}

/// The first failing key decides the error of the whole fast path.
pub proof fn lemma_fast_error_at(entries: Seq<FastEntry>, i: int)
    requires
        0 <= i < entries.len(),
        forall|j: int| 0 <= j < i ==> fast_key_error(#[trigger] entries[j]) is None,
        fast_key_error(entries[i]) is Some,
    ensures
        fast_error(entries) == fast_key_error(entries[i]),
    decreases i,
{
    if i > 0 {
        assert(fast_key_error(entries[0]) is None);
        assert forall|j: int|
            0 <= j < i - 1 implies fast_key_error(#[trigger] entries.drop_first()[j]) is None by {
            assert(entries.drop_first()[j] == entries[j + 1]);
        }
        assert(entries.drop_first()[i - 1] == entries[i]);
        lemma_fast_error_at(entries.drop_first(), i - 1);
    }
}

/// A failing key anywhere makes the whole fast path fail.
pub proof fn lemma_fast_error_some(entries: Seq<FastEntry>, i: int)
    requires
        0 <= i < entries.len(),
        fast_key_error(entries[i]) is Some,
    ensures
        fast_error(entries) is Some,
    decreases i,
{
    if fast_key_error(entries[0]) is None {
        assert(i > 0);
        assert(entries.drop_first()[i - 1] == entries[i]);
        lemma_fast_error_some(entries.drop_first(), i - 1);
    }
}

/// Serializer for a record whose fields are reachable through the host's
/// intrinsic ordered key/value store. It is transient: constructed immediately
/// before use over the entries the host handed over, consumed by exactly one
/// `serialize` call. It performs no locking of its own; the top-level caller
/// holds whatever exclusivity the whole encode requires.
pub struct DataclassFastSerializer {
    pub entries: Vec<FastEntry>,
    pub ctx: SerializeContext,
}

/// The map the fast path owes: its first error where some key fails, else
/// every accepted pair in source order, under a size hint of zero for a record
/// with no fields and no hint otherwise.
pub open spec fn spec_fast_serialize(s: DataclassFastSerializer) -> Result<
    MapOutputModel,
    EncodeError,
> {
    match fast_error(s.entries@) {
        Some(e) => Err(e),
        None => Ok(
            MapOutputModel {
                size_hint: if s.entries@.len() == 0 {
                    Some(0usize)
                } else {
                    None
                },
                entries: fast_outputs(s.entries@, s.ctx),
            },
        ),
    }
}

impl DataclassFastSerializer {
    /// Builds a fast-path serializer over a record's ordered entries. The
    /// stored context carries a recursion depth of exactly one above
    /// `recursion`: that post-increment depth, not the incoming one, is what every
    /// nested value encoder receives. Everything else is forwarded unchanged.
    pub fn new(
        entries: Vec<FastEntry>,
        opts: u32,
        default_calls: u8,
        recursion: u8,
        default_hook: Option<u64>,
    ) -> (r: Self)
        requires
            recursion < u8::MAX,
        ensures
            r.entries == entries,
            r.ctx.opts == opts,
            r.ctx.default_calls == default_calls,
            r.ctx.recursion == recursion + 1,
            r.ctx.default_hook == default_hook,
    {
        DataclassFastSerializer {
            entries,
            ctx: SerializeContext { opts, default_calls, recursion: recursion + 1, default_hook },
        }
    }

    /// Encodes the record as one map: exactly the pairs of
    /// `spec_fast_serialize`, in source order, or its first error with no
    /// output at all.
    #[verifier::loop_isolation(false)]
    pub fn serialize(&self) -> (r: Result<MapOutput, EncodeError>)
        ensures
            match r {
                Ok(out) => spec_fast_serialize(*self) == Ok::<MapOutputModel, EncodeError>(out@),
                Err(e) => spec_fast_serialize(*self) == Err::<MapOutputModel, EncodeError>(e),
            },
    {
        let len = self.entries.len();
        if len == 0 {
            let out = MapOutput { size_hint: Some(0), entries: Vec::new() };
            proof {
                assert(entries_view(out.entries@) =~= fast_outputs(self.entries@, self.ctx));
            }
            return Ok(out);
        }
        let mut emitted: Vec<OutputEntry> = Vec::new();
        let mut i: usize = 0;
        while i < len
            invariant
                i <= len,
                forall|j: int| 0 <= j < i ==> fast_key_error(#[trigger] self.entries@[j]) is None,
                entries_view(emitted@) == fast_outputs(self.entries@.take(i as int), self.ctx),
            decreases len - i,
        {
            let e = &self.entries[i];
            let ghost pre = self.entries@.take(i as int);
            match &e.key {
                FastKey::NonText => {
                    proof {
                        lemma_fast_error_at(self.entries@, i as int);
                    }
                    return Err(EncodeError::KeyMustBeStr);
                },
                FastKey::Text(d) => {
                    match validate_text_key(d) {
                        KeyOutcome::Fail(err) => {
                            proof {
                                lemma_fast_error_at(self.entries@, i as int);
                            }
                            return Err(err);
                        },
                        KeyOutcome::Skip => {},
                        KeyOutcome::Emit(k) => {
                            emitted.push(
                                OutputEntry {
                                    key: k,
                                    value: ValueDelegate { value: e.value, ctx: self.ctx },
                                },
                            );
                        },
                    }
                },
            }
            proof {
                assert(self.entries@.take(i as int + 1) =~= pre.push(self.entries@[i as int]));
                lemma_fast_outputs_push(pre, self.entries@[i as int], self.ctx);
                assert(entries_view(emitted@) =~= fast_outputs(
                    self.entries@.take(i as int + 1),
                    self.ctx,
                ));
            }
            i = i + 1;
        }
        proof {
            assert(self.entries@.take(len as int) =~= self.entries@);
            lemma_fast_error_none(self.entries@);
        }
        Ok(MapOutput { size_hint: None, entries: emitted })
    }
}

} // verus!
