//! Data model of the protocol: identities, capabilities, control
//! operations, JSON-like metadata values, and data-plane frames.

use vstd::prelude::*;

verus! {

broadcast use vstd::std_specs::vec::axiom_vec_index_decreases;

/// Stable identifier plus a descriptive label for a peer. The identifier
/// is expected to parse as a UUID; a non-conforming value is tolerated
/// (the client falls back to a generated identifier).
#[derive(Debug)]
pub struct DeviceIdentity {
    pub device_id: String,
    pub display_name: String,
}

impl DeviceIdentity {
    /// A copy sharing the same identifier and label.
    pub fn duplicate(&self) -> (r: DeviceIdentity)
        ensures
            r.device_id@ == self.device_id@,
            r.display_name@ == self.display_name@,
    {
        DeviceIdentity {
            device_id: self.device_id.clone(),
            display_name: self.display_name.clone(),
        }
    }
}

/// Declared feature capabilities offered by a party, exchanged during the
/// handshake and intersected to decide what the session permits.
#[derive(Clone, Copy, Debug, PartialEq, Eq, Structural)]
pub struct CapabilitySet {
    pub video: bool,
    pub audio: bool,
    pub telemetry: bool,
    pub command: bool,
}

impl CapabilitySet {
    pub open spec fn spec_is_empty(self) -> bool {
        !self.video && !self.audio && !self.telemetry && !self.command
    }

    /// True when no capability at all is offered.
    pub fn is_empty(&self) -> (r: bool)
        ensures
            r == self.spec_is_empty(),
    {
        !self.video && !self.audio && !self.telemetry && !self.command
    }

    pub open spec fn spec_intersect(self, other: CapabilitySet) -> CapabilitySet {
        CapabilitySet {
            video: self.video && other.video,
            audio: self.audio && other.audio,
            telemetry: self.telemetry && other.telemetry,
            command: self.command && other.command,
        }
    }

    /// The capabilities both parties offer.
    pub fn intersect(&self, other: &CapabilitySet) -> (r: CapabilitySet)
        ensures
            r == self.spec_intersect(*other),
    {
        CapabilitySet {
            video: self.video && other.video,
            audio: self.audio && other.audio,
            telemetry: self.telemetry && other.telemetry,
            command: self.command && other.command,
        }
    }
}

/// Layout of the samples carried on the data plane's channels.
#[derive(Clone, Copy, Debug, PartialEq, Eq, Structural)]
pub enum ChannelFormat {
    Interleaved,
    Planar,
    Compressed,
}

/// Closed set of control-plane verbs interpreted by the peer.
#[derive(Clone, Copy, Debug, PartialEq, Eq, Structural)]
pub enum ControlOp {
    Query,
    Command,
    Notify,
    Ack,
}

/// A scalar JSON-like value. Text is carried as UTF-8 bytes; a
/// fractional number rides as the bit pattern of its 64-bit float, which
/// the shell converts at the edge.
#[derive(Debug, PartialEq)]
pub enum JsonScalar {
    Null,
    Bool(bool),
    Int(i64),
    Float(u64),
    Text(Vec<u8>),
}

/// Mathematical model of a scalar value.
#[verifier::ext_equal]
pub ghost enum ScalarV {
    Null,
    Bool(bool),
    Int(i64),
    Float(u64),
    Text(Seq<u8>),
}

impl View for JsonScalar {
    type V = ScalarV;

    open spec fn view(&self) -> ScalarV {
        match self {
            JsonScalar::Null => ScalarV::Null,
            JsonScalar::Bool(b) => ScalarV::Bool(*b),
            JsonScalar::Int(x) => ScalarV::Int(*x),
            JsonScalar::Float(x) => ScalarV::Float(*x),
            JsonScalar::Text(t) => ScalarV::Text(t@),
        }
    }
}

/// A JSON-like value: a scalar, an array of values, or an object of
/// key-value entries, nested to any depth. Entries keep their order; the
/// library neither sorts nor deduplicates them.
#[derive(Debug, PartialEq)]
pub enum JsonValue {
    Scalar(JsonScalar),
    Array(Vec<JsonValue>),
    Object(Vec<JsonEntry>),
}

/// One key-value binding of a JSON-like object. The key is UTF-8 bytes.
#[derive(Debug, PartialEq)]
pub struct JsonEntry {
    pub key: Vec<u8>,
    pub value: JsonValue,
}

/// Mathematical model of a JSON-like value.
#[verifier::ext_equal]
pub ghost enum ValueV {
    Scalar(ScalarV),
    Array(Seq<ValueV>),
    Object(Seq<EntryV>),
}

/// Mathematical model of one object entry.
#[verifier::ext_equal]
pub ghost struct EntryV {
    pub key: Seq<u8>,
    pub value: ValueV,
}

impl JsonValue {
    /// The model of a value, built by structural recursion.
    pub open spec fn value_view(self) -> ValueV
        decreases self, 0nat,
    {
        match self {
            JsonValue::Scalar(s) => ValueV::Scalar(s@),
            JsonValue::Array(a) => ValueV::Array(JsonValue::values_view_from(a, 0)),
            JsonValue::Object(es) => ValueV::Object(JsonValue::entries_view_from(es, 0)),
        }
    }

    /// The models of the values of `a` from index `k` on.
    pub open spec fn values_view_from(a: Vec<JsonValue>, k: int) -> Seq<ValueV>
        decreases a, a.len() - k,
    {
        if 0 <= k < a.len() {
            seq![a[k].value_view()] + JsonValue::values_view_from(a, k + 1)
        } else {
            Seq::empty()
        }
    }

    /// The models of the entries of `es` from index `k` on.
    pub open spec fn entries_view_from(es: Vec<JsonEntry>, k: int) -> Seq<EntryV>
        decreases es, es.len() - k,
    {
        if 0 <= k < es.len() {
            seq![EntryV { key: es[k].key@, value: es[k].value.value_view() }]
                + JsonValue::entries_view_from(es, k + 1)
        } else {
            Seq::empty()
        }
    }
}

impl View for JsonValue {
    type V = ValueV;

    open spec fn view(&self) -> ValueV {
        self.value_view()
    }
}

impl View for JsonEntry {
    type V = EntryV;

    open spec fn view(&self) -> EntryV {
        EntryV { key: self.key@, value: self.value@ }
    }
}

/// The element-wise models of an array's values are the mapped views.
pub proof fn lemma_values_view_from(a: Vec<JsonValue>, k: int)
    requires
        0 <= k <= a.len(),
    ensures
        JsonValue::values_view_from(a, k) == a@.skip(k).map_values(|x: JsonValue| x@),
    decreases a.len() - k,
{
    let f = |x: JsonValue| x@;
    if k == a.len() {
        assert(JsonValue::values_view_from(a, k) =~= a@.skip(k).map_values(f));
    } else {
        lemma_values_view_from(a, k + 1);
        assert(a@.skip(k).map_values(f) =~= seq![f(a@[k])] + a@.skip(k + 1).map_values(f));
        assert(JsonValue::values_view_from(a, k) =~= a@.skip(k).map_values(f));
    }
}

/// The element-wise models of an object's entries are the mapped views.
pub proof fn lemma_entries_view_from(es: Vec<JsonEntry>, k: int)
    requires
        0 <= k <= es.len(),
    ensures
        JsonValue::entries_view_from(es, k) == es@.skip(k).map_values(|e: JsonEntry| e@),
    decreases es.len() - k,
{
    let f = |e: JsonEntry| e@;
    if k == es.len() {
        assert(JsonValue::entries_view_from(es, k) =~= es@.skip(k).map_values(f));
    } else {
        lemma_entries_view_from(es, k + 1);
        assert(es@.skip(k).map_values(f) =~= seq![f(es@[k])] + es@.skip(k + 1).map_values(f));
        assert(JsonValue::entries_view_from(es, k) =~= es@.skip(k).map_values(f));
    }
}

/// A named group of member channels carried in a frame.
#[derive(Debug, PartialEq)]
pub struct ChannelGroup {
    pub name: Vec<u8>,
    pub members: Vec<u16>,
}

#[verifier::ext_equal]
pub ghost struct GroupV {
    pub name: Seq<u8>,
    pub members: Seq<u16>,
}

impl View for ChannelGroup {
    type V = GroupV;

    open spec fn view(&self) -> GroupV {
        GroupV { name: self.name@, members: self.members@ }
    }
}

/// One metadata binding of a frame: a key (UTF-8 bytes) and a value.
#[derive(Debug, PartialEq)]
pub struct MetadataEntry {
    pub key: Vec<u8>,
    pub value: JsonValue,
}

#[verifier::ext_equal]
pub ghost struct MetaV {
    pub key: Seq<u8>,
    pub value: ValueV,
}

impl View for MetadataEntry {
    type V = MetaV;

    open spec fn view(&self) -> MetaV {
        MetaV { key: self.key@, value: self.value@ }
    }
}

/// A data-plane frame: channel-tagged, prioritized, optionally grouped
/// and annotated. Transient: built, serialized, sent, discarded.
#[derive(Debug, PartialEq)]
pub struct Frame {
    pub channel_format: ChannelFormat,
    pub channels: Vec<u16>,
    pub priority: u8,
    pub groups: Option<Vec<ChannelGroup>>,
    pub metadata: Option<Vec<MetadataEntry>>,
}

#[verifier::ext_equal]
pub ghost struct FrameV {
    pub channel_format: ChannelFormat,
    pub channels: Seq<u16>,
    pub priority: u8,
    pub groups: Option<Seq<GroupV>>,
    pub metadata: Option<Seq<MetaV>>,
}

impl View for Frame {
    type V = FrameV;

    open spec fn view(&self) -> FrameV {
        FrameV {
            channel_format: self.channel_format,
            channels: self.channels@,
            priority: self.priority,
            groups: match self.groups {
                Option::None => Option::None,
                Option::Some(gs) => Option::Some(gs@.map_values(|g: ChannelGroup| g@)),
            },
            metadata: match self.metadata {
                Option::None => Option::None,
                Option::Some(ms) => Option::Some(ms@.map_values(|m: MetadataEntry| m@)),
            },
        }
    }
}

} // verus!
