use vstd::prelude::*;

verus! {

/// Opaque handle standing for a host-owned field value. The encoders never
/// look inside a value: they only hand it on to the external generic value
/// encoder, so a handle is all this library needs of it.
#[derive(Clone, Copy, PartialEq, Eq, Structural, Debug)]
pub struct ValueHandle {
    pub id: u64,
}

/// The serialization context an encoder forwards to every nested value
/// encoder: the encoding-options bitset (opaque here, forwarded only), the
/// count of default-hook invocations so far, the recursion depth, and the
/// optional default-hook capability (an opaque token the host resolves).
/// The global exclusivity lock also travels with the context in the host;
/// it never reaches this library, which works on plain values only.
#[derive(Clone, Copy, PartialEq, Eq, Debug)]
pub struct SerializeContext {
    pub opts: u32,
    pub default_calls: u8,
    pub recursion: u8,
    pub default_hook: Option<u64>,
}

/// A nested value-encoder delegate: one field value together with the context
/// it is to be encoded under. The external value encoder consumes these.
#[derive(Clone, Copy, PartialEq, Eq, Debug)]
pub struct ValueDelegate {
    pub value: ValueHandle,
    pub ctx: SerializeContext,
}

/// One emitted key/value pair of the output map.
#[derive(Clone, PartialEq, Eq, Debug)]
pub struct OutputEntry {
    pub key: Vec<u8>,
    pub value: ValueDelegate,
}

/// Mathematical model of one emitted pair.
pub struct OutputEntryModel {
    pub key: Seq<u8>,
    pub value: ValueDelegate,
}

impl View for OutputEntry {
    type V = OutputEntryModel;

    open spec fn view(&self) -> OutputEntryModel {
        OutputEntryModel { key: self.key@, value: self.value }
    }
}

/// The whole output of one encode call. It stands for the event stream the
/// output serializer consumes: begin-map with `size_hint`, then for each entry
/// emit-key and emit-value in order, then end-map.
#[derive(Clone, PartialEq, Eq, Debug)]
pub struct MapOutput {
    pub size_hint: Option<usize>,
    pub entries: Vec<OutputEntry>,
}

/// Mathematical model of a whole output map.
pub struct MapOutputModel {
    pub size_hint: Option<usize>,
    pub entries: Seq<OutputEntryModel>,
}

/// The model of a sequence of emitted pairs: each entry viewed.
pub open spec fn entries_view(s: Seq<OutputEntry>) -> Seq<OutputEntryModel> {
    s.map_values(|e: OutputEntry| e@)
}

impl View for MapOutput {
    type V = MapOutputModel;

    open spec fn view(&self) -> MapOutputModel {
        MapOutputModel { size_hint: self.size_hint, entries: entries_view(self.entries@) }
    }
}

} // verus!
