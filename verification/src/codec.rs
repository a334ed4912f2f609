//! Wire format of data-plane frames: little-endian, length-prefixed, with
//! a byte tag in front of every variant. Encoding and decoding are defined
//! as spec functions; the executable codec is proved against them, and a
//! round-trip law shows that decoding an encoded frame gives the frame
//! back.

use vstd::prelude::*;

use crate::errors::StreamError;
use crate::messages::ChannelFormat;
use crate::messages::ChannelGroup;
use crate::messages::Frame;
use crate::messages::FrameV;
use crate::messages::GroupV;
use crate::messages::JsonScalar;
use crate::messages::JsonValue;
use crate::messages::MetaV;
use crate::messages::MetadataEntry;
use crate::messages::ScalarV;
use crate::messages::ValueV;
use crate::messages::EntryV;
use crate::messages::JsonEntry;

verus! {

broadcast use vstd::std_specs::vec::axiom_vec_index_decreases;

/// Largest count or length a 16-bit prefix can carry.
pub const LEN_LIMIT: usize = 0xFFFF;

// ---------------------------------------------------------------------
// Spec encoders
// ---------------------------------------------------------------------

pub open spec fn enc_u16(x: u16) -> Seq<u8> {
    seq![(x & 0xff) as u8, ((x >> 8) & 0xff) as u8]
}

pub open spec fn enc_u64(x: u64) -> Seq<u8> {
    seq![
        (x & 0xff) as u8,
        ((x >> 8) & 0xff) as u8,
        ((x >> 16) & 0xff) as u8,
        ((x >> 24) & 0xff) as u8,
        ((x >> 32) & 0xff) as u8,
        ((x >> 40) & 0xff) as u8,
        ((x >> 48) & 0xff) as u8,
        ((x >> 56) & 0xff) as u8,
    ]
}

pub open spec fn enc_u16_seq(s: Seq<u16>) -> Seq<u8>
    decreases s.len(),
{
    if s.len() == 0 {
        Seq::empty()
    } else {
        enc_u16(s[0]) + enc_u16_seq(s.skip(1))
    }
}

/// A counted list of 16-bit values: count first, then the values.
pub open spec fn enc_channels(s: Seq<u16>) -> Seq<u8> {
    enc_u16(s.len() as u16) + enc_u16_seq(s)
}

/// A byte string: length first, then the bytes.
pub open spec fn enc_bytes(s: Seq<u8>) -> Seq<u8> {
    enc_u16(s.len() as u16) + s
}

/// Two's-complement image of a signed 64-bit value.
pub open spec fn i64_to_u64(x: i64) -> u64 {
    if x >= 0 {
        x as u64
    } else {
        (x + 0x1_0000_0000_0000_0000) as u64
    }
}

/// Inverse of `i64_to_u64`.
pub open spec fn u64_to_i64(v: u64) -> i64 {
    if v < 0x8000_0000_0000_0000 {
        v as i64
    } else {
        (v - 0x1_0000_0000_0000_0000) as i64
    }
}

pub open spec fn enc_scalar(s: ScalarV) -> Seq<u8> {
    match s {
        ScalarV::Null => seq![0u8],
        ScalarV::Bool(b) => seq![1u8, if b { 1u8 } else { 0u8 }],
        ScalarV::Int(x) => seq![2u8] + enc_u64(i64_to_u64(x)),
        ScalarV::Text(t) => seq![3u8] + enc_bytes(t),
        ScalarV::Float(x) => seq![4u8] + enc_u64(x),
    }
}

pub open spec fn enc_value(v: ValueV) -> Seq<u8>
    decreases v, 0nat,
{
    match v {
        ValueV::Scalar(s) => seq![0u8] + enc_scalar(s),
        ValueV::Array(a) => seq![1u8] + enc_u16(a.len() as u16) + enc_value_seq(a),
        ValueV::Object(es) => seq![2u8] + enc_u16(es.len() as u16) + enc_entry_seq(es),
    }
}

pub open spec fn enc_value_seq(a: Seq<ValueV>) -> Seq<u8>
    decreases a, a.len(),
{
    if a.len() == 0 {
        Seq::empty()
    } else {
        enc_value(a[0]) + enc_value_seq(a.drop_first())
    }
}

pub open spec fn enc_entry(e: EntryV) -> Seq<u8>
    decreases e, 0nat,
{
    enc_bytes(e.key) + enc_value(e.value)
}

pub open spec fn enc_entry_seq(es: Seq<EntryV>) -> Seq<u8>
    decreases es, es.len(),
{
    if es.len() == 0 {
        Seq::empty()
    } else {
        enc_entry(es[0]) + enc_entry_seq(es.drop_first())
    }
}

pub open spec fn enc_group(g: GroupV) -> Seq<u8> {
    enc_bytes(g.name) + enc_channels(g.members)
}

pub open spec fn enc_group_seq(s: Seq<GroupV>) -> Seq<u8>
    decreases s.len(),
{
    if s.len() == 0 {
        Seq::empty()
    } else {
        enc_group(s[0]) + enc_group_seq(s.skip(1))
    }
}

pub open spec fn enc_meta(m: MetaV) -> Seq<u8> {
    enc_bytes(m.key) + enc_value(m.value)
}

pub open spec fn enc_meta_seq(s: Seq<MetaV>) -> Seq<u8>
    decreases s.len(),
{
    if s.len() == 0 {
        Seq::empty()
    } else {
        enc_meta(s[0]) + enc_meta_seq(s.skip(1))
    }
}

pub open spec fn format_tag(f: ChannelFormat) -> u8 {
    match f {
        ChannelFormat::Interleaved => 0,
        ChannelFormat::Planar => 1,
        ChannelFormat::Compressed => 2,
    }
}

pub open spec fn format_from_tag(t: u8) -> Option<ChannelFormat> {
    if t == 0 {
        Option::Some(ChannelFormat::Interleaved)
    } else if t == 1 {
        Option::Some(ChannelFormat::Planar)
    } else if t == 2 {
        Option::Some(ChannelFormat::Compressed)
    } else {
        Option::None
    }
}

pub open spec fn enc_groups_opt(g: Option<Seq<GroupV>>) -> Seq<u8> {
    match g {
        Option::None => seq![0u8],
        Option::Some(gs) => seq![1u8] + enc_u16(gs.len() as u16) + enc_group_seq(gs),
    }
}

pub open spec fn enc_metas_opt(m: Option<Seq<MetaV>>) -> Seq<u8> {
    match m {
        Option::None => seq![0u8],
        Option::Some(ms) => seq![1u8] + enc_u16(ms.len() as u16) + enc_meta_seq(ms),
    }
}

/// The whole frame: format tag, priority, channels, then the optional
/// groups and metadata sections.
pub open spec fn enc_frame(f: FrameV) -> Seq<u8> {
    seq![format_tag(f.channel_format), f.priority] + enc_channels(f.channels)
        + enc_groups_opt(f.groups) + enc_metas_opt(f.metadata)
}

// ---------------------------------------------------------------------
// Validity: what the 16-bit length prefixes can carry
// ---------------------------------------------------------------------

pub open spec fn scalar_valid(s: ScalarV) -> bool {
    match s {
        ScalarV::Text(t) => t.len() <= LEN_LIMIT,
        _ => true,
    }
}

pub open spec fn value_valid(v: ValueV) -> bool
    decreases v, 0nat,
{
    match v {
        ValueV::Scalar(s) => scalar_valid(s),
        ValueV::Array(a) => a.len() <= LEN_LIMIT && values_valid(a),
        ValueV::Object(es) => es.len() <= LEN_LIMIT && entries_valid(es),
    }
}

pub open spec fn values_valid(a: Seq<ValueV>) -> bool
    decreases a, a.len(),
{
    if a.len() == 0 {
        true
    } else {
        value_valid(a[0]) && values_valid(a.drop_first())
    }
}

pub open spec fn entry_valid(e: EntryV) -> bool
    decreases e, 0nat,
{
    e.key.len() <= LEN_LIMIT && value_valid(e.value)
}

pub open spec fn entries_valid(es: Seq<EntryV>) -> bool
    decreases es, es.len(),
{
    if es.len() == 0 {
        true
    } else {
        entry_valid(es[0]) && entries_valid(es.drop_first())
    }
}

pub open spec fn group_valid(g: GroupV) -> bool {
    g.name.len() <= LEN_LIMIT && g.members.len() <= LEN_LIMIT
}

pub open spec fn meta_valid(m: MetaV) -> bool {
    m.key.len() <= LEN_LIMIT && value_valid(m.value)
}

/// What the 16-bit length prefixes can carry. Group names and metadata
/// keys are sequences of entries in order: the codec neither sorts nor
/// deduplicates them, and a datagram with repeated keys decodes to
/// exactly the repeated entries it carries.
pub open spec fn frame_valid(f: FrameV) -> bool {
    &&& f.channels.len() <= LEN_LIMIT
    &&& match f.groups {
        Option::None => true,
        Option::Some(gs) => gs.len() <= LEN_LIMIT && forall|i: int|
            0 <= i < gs.len() ==> group_valid(#[trigger] gs[i]),
    }
    &&& match f.metadata {
        Option::None => true,
        Option::Some(ms) => ms.len() <= LEN_LIMIT && forall|i: int|
            0 <= i < ms.len() ==> meta_valid(#[trigger] ms[i]),
    }
}

// ---------------------------------------------------------------------
// Spec decoders: position-based, each returns the value and the next
// position, or nothing where the bytes do not parse.
// ---------------------------------------------------------------------

pub open spec fn dec_u8_at(b: Seq<u8>, i: int) -> Option<(u8, int)> {
    if 0 <= i && i + 1 <= b.len() {
        Option::Some((b[i], i + 1))
    } else {
        Option::None
    }
}

pub open spec fn dec_u16_at(b: Seq<u8>, i: int) -> Option<(u16, int)> {
    if 0 <= i && i + 2 <= b.len() {
        Option::Some(((b[i] as u16) | ((b[i + 1] as u16) << 8), i + 2))
    } else {
        Option::None
    }
}

pub open spec fn dec_u64_at(b: Seq<u8>, i: int) -> Option<(u64, int)> {
    if 0 <= i && i + 8 <= b.len() {
        Option::Some(
            (
                (b[i] as u64) | ((b[i + 1] as u64) << 8) | ((b[i + 2] as u64) << 16)
                    | ((b[i + 3] as u64) << 24) | ((b[i + 4] as u64) << 32)
                    | ((b[i + 5] as u64) << 40) | ((b[i + 6] as u64) << 48)
                    | ((b[i + 7] as u64) << 56),
                i + 8,
            ),
        )
    } else {
        Option::None
    }
}

pub open spec fn dec_u16s_at(b: Seq<u8>, i: int, n: nat) -> Option<(Seq<u16>, int)>
    decreases n,
{
    if n == 0 {
        Option::Some((Seq::empty(), i))
    } else {
        match dec_u16_at(b, i) {
            Option::None => Option::None,
            Option::Some((x, j)) => match dec_u16s_at(b, j, (n - 1) as nat) {
                Option::None => Option::None,
                Option::Some((xs, k)) => Option::Some((seq![x] + xs, k)),
            },
        }
    }
}

pub open spec fn dec_channels_at(b: Seq<u8>, i: int) -> Option<(Seq<u16>, int)> {
    match dec_u16_at(b, i) {
        Option::None => Option::None,
        Option::Some((n, j)) => dec_u16s_at(b, j, n as nat),
    }
}

pub open spec fn dec_bytes_at(b: Seq<u8>, i: int) -> Option<(Seq<u8>, int)> {
    match dec_u16_at(b, i) {
        Option::None => Option::None,
        Option::Some((n, j)) => if j + n <= b.len() {
            Option::Some((b.subrange(j, j + n), j + n))
        } else {
            Option::None
        },
    }
}

pub open spec fn dec_scalar_at(b: Seq<u8>, i: int) -> Option<(ScalarV, int)> {
    match dec_u8_at(b, i) {
        Option::None => Option::None,
        Option::Some((tag, j)) => if tag == 0 {
            Option::Some((ScalarV::Null, j))
        } else if tag == 1 {
            match dec_u8_at(b, j) {
                Option::None => Option::None,
                Option::Some((v, k)) => if v == 0 {
                    Option::Some((ScalarV::Bool(false), k))
                } else if v == 1 {
                    Option::Some((ScalarV::Bool(true), k))
                } else {
                    Option::None
                },
            }
        } else if tag == 2 {
            match dec_u64_at(b, j) {
                Option::None => Option::None,
                Option::Some((v, k)) => Option::Some((ScalarV::Int(u64_to_i64(v)), k)),
            }
        } else if tag == 3 {
            match dec_bytes_at(b, j) {
                Option::None => Option::None,
                Option::Some((t, k)) => Option::Some((ScalarV::Text(t), k)),
            }
        } else if tag == 4 {
            match dec_u64_at(b, j) {
                Option::None => Option::None,
                Option::Some((v, k)) => Option::Some((ScalarV::Float(v), k)),
            }
        } else {
            Option::None
        },
    }
}

pub open spec fn dec_value_at(b: Seq<u8>, i: int, fuel: nat) -> Option<(ValueV, int)>
    decreases fuel, 1nat, 0nat,
{
    match dec_u8_at(b, i) {
        Option::None => Option::None,
        Option::Some((tag, j)) => if tag == 0 {
            match dec_scalar_at(b, j) {
                Option::None => Option::None,
                Option::Some((s, k)) => Option::Some((ValueV::Scalar(s), k)),
            }
        } else if tag == 1 {
            match dec_u16_at(b, j) {
                Option::None => Option::None,
                Option::Some((n, k)) => match dec_values_at(b, k, n as nat, fuel) {
                    Option::None => Option::None,
                    Option::Some((a, m)) => Option::Some((ValueV::Array(a), m)),
                },
            }
        } else if tag == 2 {
            match dec_u16_at(b, j) {
                Option::None => Option::None,
                Option::Some((n, k)) => match dec_entries_at(b, k, n as nat, fuel) {
                    Option::None => Option::None,
                    Option::Some((es, m)) => Option::Some((ValueV::Object(es), m)),
                },
            }
        } else {
            Option::None
        },
    }
}

pub open spec fn dec_values_at(b: Seq<u8>, i: int, n: nat, fuel: nat) -> Option<
    (Seq<ValueV>, int),
>
    decreases fuel, 0nat, n,
{
    if n == 0 {
        Option::Some((Seq::empty(), i))
    } else if fuel == 0 {
        Option::None
    } else {
        match dec_value_at(b, i, (fuel - 1) as nat) {
            Option::None => Option::None,
            Option::Some((x, j)) => match dec_values_at(b, j, (n - 1) as nat, fuel) {
                Option::None => Option::None,
                Option::Some((xs, k)) => Option::Some((seq![x] + xs, k)),
            },
        }
    }
}

pub open spec fn dec_entries_at(b: Seq<u8>, i: int, n: nat, fuel: nat) -> Option<
    (Seq<EntryV>, int),
>
    decreases fuel, 0nat, n,
{
    if n == 0 {
        Option::Some((Seq::empty(), i))
    } else if fuel == 0 {
        Option::None
    } else {
        match dec_bytes_at(b, i) {
            Option::None => Option::None,
            Option::Some((key, j)) => match dec_value_at(b, j, (fuel - 1) as nat) {
                Option::None => Option::None,
                Option::Some((value, k)) => match dec_entries_at(b, k, (n - 1) as nat, fuel) {
                    Option::None => Option::None,
                    Option::Some((es, m)) => Option::Some(
                        (seq![EntryV { key, value }] + es, m),
                    ),
                },
            },
        }
    }
}

pub open spec fn dec_group_at(b: Seq<u8>, i: int) -> Option<(GroupV, int)> {
    match dec_bytes_at(b, i) {
        Option::None => Option::None,
        Option::Some((name, j)) => match dec_channels_at(b, j) {
            Option::None => Option::None,
            Option::Some((members, k)) => Option::Some((GroupV { name, members }, k)),
        },
    }
}

pub open spec fn dec_groups_at(b: Seq<u8>, i: int, n: nat) -> Option<(Seq<GroupV>, int)>
    decreases n,
{
    if n == 0 {
        Option::Some((Seq::empty(), i))
    } else {
        match dec_group_at(b, i) {
            Option::None => Option::None,
            Option::Some((x, j)) => match dec_groups_at(b, j, (n - 1) as nat) {
                Option::None => Option::None,
                Option::Some((xs, k)) => Option::Some((seq![x] + xs, k)),
            },
        }
    }
}

pub open spec fn dec_meta_at(b: Seq<u8>, i: int) -> Option<(MetaV, int)> {
    match dec_bytes_at(b, i) {
        Option::None => Option::None,
        Option::Some((key, j)) => match dec_value_at(b, j, b.len() as nat) {
            Option::None => Option::None,
            Option::Some((value, k)) => Option::Some((MetaV { key, value }, k)),
        },
    }
}

pub open spec fn dec_metas_at(b: Seq<u8>, i: int, n: nat) -> Option<(Seq<MetaV>, int)>
    decreases n,
{
    if n == 0 {
        Option::Some((Seq::empty(), i))
    } else {
        match dec_meta_at(b, i) {
            Option::None => Option::None,
            Option::Some((x, j)) => match dec_metas_at(b, j, (n - 1) as nat) {
                Option::None => Option::None,
                Option::Some((xs, k)) => Option::Some((seq![x] + xs, k)),
            },
        }
    }
}

pub open spec fn dec_groups_opt_at(b: Seq<u8>, i: int) -> Option<(Option<Seq<GroupV>>, int)> {
    match dec_u8_at(b, i) {
        Option::None => Option::None,
        Option::Some((flag, j)) => if flag == 0 {
            Option::Some((Option::None, j))
        } else if flag == 1 {
            match dec_u16_at(b, j) {
                Option::None => Option::None,
                Option::Some((n, k)) => match dec_groups_at(b, k, n as nat) {
                    Option::None => Option::None,
                    Option::Some((gs, m)) => Option::Some((Option::Some(gs), m)),
                },
            }
        } else {
            Option::None
        },
    }
}

pub open spec fn dec_metas_opt_at(b: Seq<u8>, i: int) -> Option<(Option<Seq<MetaV>>, int)> {
    match dec_u8_at(b, i) {
        Option::None => Option::None,
        Option::Some((flag, j)) => if flag == 0 {
            Option::Some((Option::None, j))
        } else if flag == 1 {
            match dec_u16_at(b, j) {
                Option::None => Option::None,
                Option::Some((n, k)) => match dec_metas_at(b, k, n as nat) {
                    Option::None => Option::None,
                    Option::Some((ms, m)) => Option::Some((Option::Some(ms), m)),
                },
            }
        } else {
            Option::None
        },
    }
}

pub open spec fn dec_frame_at(b: Seq<u8>, i: int) -> Option<(FrameV, int)> {
    match dec_u8_at(b, i) {
        Option::None => Option::None,
        Option::Some((ftag, j)) => match format_from_tag(ftag) {
            Option::None => Option::None,
            Option::Some(fmt) => match dec_u8_at(b, j) {
                Option::None => Option::None,
                Option::Some((prio, k)) => match dec_channels_at(b, k) {
                    Option::None => Option::None,
                    Option::Some((chans, m)) => match dec_groups_opt_at(b, m) {
                        Option::None => Option::None,
                        Option::Some((groups, p)) => match dec_metas_opt_at(b, p) {
                            Option::None => Option::None,
                            Option::Some((metas, q)) => Option::Some(
                                (
                                    FrameV {
                                        channel_format: fmt,
                                        channels: chans,
                                        priority: prio,
                                        groups,
                                        metadata: metas,
                                    },
                                    q,
                                ),
                            ),
                        },
                    },
                },
            },
        },
    }
}

/// Decoding a whole datagram: the frame must consume every byte.
pub open spec fn decode_frame_spec(b: Seq<u8>) -> Option<FrameV> {
    match dec_frame_at(b, 0) {
        Option::None => Option::None,
        Option::Some((f, j)) => if j == b.len() {
            Option::Some(f)
        } else {
            Option::None
        },
    }
}

// ---------------------------------------------------------------------
// Round trip: decoding finds an encoded value where it was written
// ---------------------------------------------------------------------

/// `part` stands written in `b` at position `i`.
pub open spec fn holds_at(b: Seq<u8>, i: int, part: Seq<u8>) -> bool {
    0 <= i && i + part.len() <= b.len() && b.subrange(i, i + part.len() as int) == part
}

proof fn lemma_holds_split(b: Seq<u8>, i: int, p1: Seq<u8>, p2: Seq<u8>)
    requires
        holds_at(b, i, p1 + p2),
    ensures
        holds_at(b, i, p1),
        holds_at(b, i + p1.len(), p2),
{
    let whole = p1 + p2;
    let l1 = p1.len() as int;
    let l2 = p2.len() as int;
    assert(b.subrange(i, i + l1) =~= p1) by {
        assert forall|k: int| 0 <= k < l1 implies b.subrange(i, i + l1)[k] == p1[k] by {
            assert(b.subrange(i, i + l1 + l2)[k] == b[i + k]);
            assert(whole[k] == p1[k]);
        }
    }
    assert(b.subrange(i + l1, i + l1 + l2) =~= p2) by {
        assert forall|k: int| 0 <= k < l2 implies b.subrange(i + l1, i + l1 + l2)[k] == p2[k] by {
            assert(b.subrange(i, i + l1 + l2)[l1 + k] == b[i + l1 + k]);
            assert(whole[l1 + k] == p2[k]);
        }
    }
}

proof fn lemma_dec_u8(b: Seq<u8>, i: int, x: u8)
    requires
        holds_at(b, i, seq![x]),
    ensures
        dec_u8_at(b, i) == Option::Some((x, i + 1)),
{
    assert(b.subrange(i, i + 1)[0] == b[i]);
}

proof fn lemma_dec_u16(b: Seq<u8>, i: int, x: u16)
    requires
        holds_at(b, i, enc_u16(x)),
    ensures
        dec_u16_at(b, i) == Option::Some((x, i + 2)),
{
    assert(b.subrange(i, i + 2)[0] == b[i]);
    assert(b.subrange(i, i + 2)[1] == b[i + 1]);
    assert((((x & 0xff) as u8) as u16) | (((((x >> 8) & 0xff) as u8) as u16) << 8) == x)
        by (bit_vector);
}

proof fn lemma_dec_u64(b: Seq<u8>, i: int, x: u64)
    requires
        holds_at(b, i, enc_u64(x)),
    ensures
        dec_u64_at(b, i) == Option::Some((x, i + 8)),
{
    assert forall|k: int| 0 <= k < 8 implies #[trigger] b.subrange(i, i + 8)[k] == b[i + k] by {}
    assert((((x & 0xff) as u8) as u64) | (((((x >> 8) & 0xff) as u8) as u64) << 8)
        | (((((x >> 16) & 0xff) as u8) as u64) << 16) | (((((x >> 24) & 0xff) as u8) as u64) << 24)
        | (((((x >> 32) & 0xff) as u8) as u64) << 32) | (((((x >> 40) & 0xff) as u8) as u64) << 40)
        | (((((x >> 48) & 0xff) as u8) as u64) << 48) | (((((x >> 56) & 0xff) as u8) as u64) << 56)
        == x) by (bit_vector);
}

proof fn lemma_i64_round(x: i64)
    ensures
        u64_to_i64(i64_to_u64(x)) == x,
{
}

proof fn lemma_dec_u16s(b: Seq<u8>, i: int, s: Seq<u16>)
    requires
        holds_at(b, i, enc_u16_seq(s)),
    ensures
        dec_u16s_at(b, i, s.len()) == Option::Some((s, i + enc_u16_seq(s).len())),
    decreases s.len(),
{
    if s.len() == 0 {
        assert(s =~= Seq::<u16>::empty());
    } else {
        let head = enc_u16(s[0]);
        let tail = enc_u16_seq(s.skip(1));
        lemma_holds_split(b, i, head, tail);
        lemma_dec_u16(b, i, s[0]);
        lemma_dec_u16s(b, i + 2, s.skip(1));
        assert(seq![s[0]] + s.skip(1) =~= s);
    }
}

proof fn lemma_dec_channels(b: Seq<u8>, i: int, s: Seq<u16>)
    requires
        s.len() <= LEN_LIMIT,
        holds_at(b, i, enc_channels(s)),
    ensures
        dec_channels_at(b, i) == Option::Some((s, i + enc_channels(s).len())),
{
    lemma_holds_split(b, i, enc_u16(s.len() as u16), enc_u16_seq(s));
    lemma_dec_u16(b, i, s.len() as u16);
    assert((s.len() as u16) as nat == s.len());
    lemma_dec_u16s(b, i + 2, s);
}

proof fn lemma_dec_bytes(b: Seq<u8>, i: int, s: Seq<u8>)
    requires
        s.len() <= LEN_LIMIT,
        holds_at(b, i, enc_bytes(s)),
    ensures
        dec_bytes_at(b, i) == Option::Some((s, i + 2 + s.len())),
{
    lemma_holds_split(b, i, enc_u16(s.len() as u16), s);
    lemma_dec_u16(b, i, s.len() as u16);
    assert((s.len() as u16) as nat == s.len());
}

proof fn lemma_dec_scalar(b: Seq<u8>, i: int, s: ScalarV)
    requires
        scalar_valid(s),
        holds_at(b, i, enc_scalar(s)),
    ensures
        dec_scalar_at(b, i) == Option::Some((s, i + enc_scalar(s).len())),
{
    match s {
        ScalarV::Null => {
            lemma_dec_u8(b, i, 0);
        },
        ScalarV::Bool(v) => {
            let byte: u8 = if v {
                1
            } else {
                0
            };
            assert(enc_scalar(s) =~= seq![1u8] + seq![byte]);
            lemma_holds_split(b, i, seq![1u8], seq![byte]);
            lemma_dec_u8(b, i, 1);
            lemma_dec_u8(b, i + 1, byte);
        },
        ScalarV::Int(x) => {
            lemma_holds_split(b, i, seq![2u8], enc_u64(i64_to_u64(x)));
            lemma_dec_u8(b, i, 2);
            lemma_dec_u64(b, i + 1, i64_to_u64(x));
            lemma_i64_round(x);
        },
        ScalarV::Text(t) => {
            lemma_holds_split(b, i, seq![3u8], enc_bytes(t));
            lemma_dec_u8(b, i, 3);
            lemma_dec_bytes(b, i + 1, t);
        },
        ScalarV::Float(x) => {
            lemma_holds_split(b, i, seq![4u8], enc_u64(x));
            lemma_dec_u8(b, i, 4);
            lemma_dec_u64(b, i + 1, x);
        },
    }
}

proof fn lemma_enc_value_len(v: ValueV)
    ensures
        enc_value(v).len() >= 1,
{
}

proof fn lemma_dec_value(b: Seq<u8>, i: int, v: ValueV, fuel: nat)
    requires
        value_valid(v),
        holds_at(b, i, enc_value(v)),
        fuel >= enc_value(v).len(),
    ensures
        dec_value_at(b, i, fuel) == Option::Some((v, i + enc_value(v).len())),
    decreases v, 0nat,
{
    match v {
        ValueV::Scalar(s) => {
            lemma_holds_split(b, i, seq![0u8], enc_scalar(s));
            lemma_dec_u8(b, i, 0);
            lemma_dec_scalar(b, i + 1, s);
        },
        ValueV::Array(a) => {
            lemma_holds_split(b, i, seq![1u8] + enc_u16(a.len() as u16), enc_value_seq(a));
            lemma_holds_split(b, i, seq![1u8], enc_u16(a.len() as u16));
            lemma_dec_u8(b, i, 1);
            lemma_dec_u16(b, i + 1, a.len() as u16);
            assert((a.len() as u16) as nat == a.len());
            lemma_dec_values(b, i + 3, a, fuel);
        },
        ValueV::Object(es) => {
            lemma_holds_split(b, i, seq![2u8] + enc_u16(es.len() as u16), enc_entry_seq(es));
            lemma_holds_split(b, i, seq![2u8], enc_u16(es.len() as u16));
            lemma_dec_u8(b, i, 2);
            lemma_dec_u16(b, i + 1, es.len() as u16);
            assert((es.len() as u16) as nat == es.len());
            lemma_dec_entries(b, i + 3, es, fuel);
        },
    }
}

proof fn lemma_dec_values(b: Seq<u8>, i: int, a: Seq<ValueV>, fuel: nat)
    requires
        values_valid(a),
        holds_at(b, i, enc_value_seq(a)),
        fuel >= enc_value_seq(a).len() + 1,
    ensures
        dec_values_at(b, i, a.len(), fuel) == Option::Some((a, i + enc_value_seq(a).len())),
    decreases a, a.len(),
{
    if a.len() == 0 {
        assert(a =~= Seq::<ValueV>::empty());
    } else {
        let head = enc_value(a[0]);
        let tail = enc_value_seq(a.drop_first());
        lemma_holds_split(b, i, head, tail);
        lemma_enc_value_len(a[0]);
        lemma_dec_value(b, i, a[0], (fuel - 1) as nat);
        lemma_dec_values(b, i + head.len(), a.drop_first(), fuel);
        assert(seq![a[0]] + a.drop_first() =~= a);
    }
}

proof fn lemma_dec_entries(b: Seq<u8>, i: int, es: Seq<EntryV>, fuel: nat)
    requires
        entries_valid(es),
        holds_at(b, i, enc_entry_seq(es)),
        fuel >= enc_entry_seq(es).len() + 1,
    ensures
        dec_entries_at(b, i, es.len(), fuel) == Option::Some((es, i + enc_entry_seq(es).len())),
    decreases es, es.len(),
{
    if es.len() == 0 {
        assert(es =~= Seq::<EntryV>::empty());
    } else {
        let head = enc_entry(es[0]);
        let tail = enc_entry_seq(es.drop_first());
        assert(entry_valid(es[0]));
        assert(es[0].key.len() <= LEN_LIMIT);
        assert(value_valid(es[0].value));
        lemma_holds_split(b, i, head, tail);
        lemma_holds_split(b, i, enc_bytes(es[0].key), enc_value(es[0].value));
        lemma_dec_bytes(b, i, es[0].key);
        lemma_dec_value(
            b,
            i + enc_bytes(es[0].key).len(),
            es[0].value,
            (fuel - 1) as nat,
        );
        lemma_dec_entries(b, i + head.len(), es.drop_first(), fuel);
        assert(seq![es[0]] + es.drop_first() =~= es);
    }
}

proof fn lemma_dec_group(b: Seq<u8>, i: int, g: GroupV)
    requires
        group_valid(g),
        holds_at(b, i, enc_group(g)),
    ensures
        dec_group_at(b, i) == Option::Some((g, i + enc_group(g).len())),
{
    lemma_holds_split(b, i, enc_bytes(g.name), enc_channels(g.members));
    lemma_dec_bytes(b, i, g.name);
    lemma_dec_channels(b, i + enc_bytes(g.name).len(), g.members);
}

proof fn lemma_dec_groups(b: Seq<u8>, i: int, s: Seq<GroupV>)
    requires
        forall|k: int| 0 <= k < s.len() ==> group_valid(#[trigger] s[k]),
        holds_at(b, i, enc_group_seq(s)),
    ensures
        dec_groups_at(b, i, s.len()) == Option::Some((s, i + enc_group_seq(s).len())),
    decreases s.len(),
{
    if s.len() == 0 {
        assert(s =~= Seq::<GroupV>::empty());
    } else {
        let head = enc_group(s[0]);
        let tail = enc_group_seq(s.skip(1));
        lemma_holds_split(b, i, head, tail);
        lemma_dec_group(b, i, s[0]);
        lemma_dec_groups(b, i + head.len(), s.skip(1));
        assert(seq![s[0]] + s.skip(1) =~= s);
    }
}

proof fn lemma_dec_meta(b: Seq<u8>, i: int, m: MetaV)
    requires
        meta_valid(m),
        holds_at(b, i, enc_meta(m)),
    ensures
        dec_meta_at(b, i) == Option::Some((m, i + enc_meta(m).len())),
{
    lemma_holds_split(b, i, enc_bytes(m.key), enc_value(m.value));
    lemma_dec_bytes(b, i, m.key);
    assert(enc_value(m.value).len() <= b.len());
    lemma_dec_value(b, i + enc_bytes(m.key).len(), m.value, b.len() as nat);
}

proof fn lemma_dec_metas(b: Seq<u8>, i: int, s: Seq<MetaV>)
    requires
        forall|k: int| 0 <= k < s.len() ==> meta_valid(#[trigger] s[k]),
        holds_at(b, i, enc_meta_seq(s)),
    ensures
        dec_metas_at(b, i, s.len()) == Option::Some((s, i + enc_meta_seq(s).len())),
    decreases s.len(),
{
    if s.len() == 0 {
        assert(s =~= Seq::<MetaV>::empty());
    } else {
        let head = enc_meta(s[0]);
        let tail = enc_meta_seq(s.skip(1));
        lemma_holds_split(b, i, head, tail);
        lemma_dec_meta(b, i, s[0]);
        lemma_dec_metas(b, i + head.len(), s.skip(1));
        assert(seq![s[0]] + s.skip(1) =~= s);
    }
}

proof fn lemma_dec_groups_opt(b: Seq<u8>, i: int, g: Option<Seq<GroupV>>)
    requires
        match g {
            Option::None => true,
            Option::Some(gs) => gs.len() <= LEN_LIMIT && forall|k: int|
                0 <= k < gs.len() ==> group_valid(#[trigger] gs[k]),
        },
        holds_at(b, i, enc_groups_opt(g)),
    ensures
        dec_groups_opt_at(b, i) == Option::Some((g, i + enc_groups_opt(g).len())),
{
    match g {
        Option::None => {
            lemma_dec_u8(b, i, 0);
        },
        Option::Some(gs) => {
            lemma_holds_split(b, i, seq![1u8] + enc_u16(gs.len() as u16), enc_group_seq(gs));
            lemma_holds_split(b, i, seq![1u8], enc_u16(gs.len() as u16));
            lemma_dec_u8(b, i, 1);
            lemma_dec_u16(b, i + 1, gs.len() as u16);
            assert((gs.len() as u16) as nat == gs.len());
            lemma_dec_groups(b, i + 3, gs);
        },
    }
}

proof fn lemma_dec_metas_opt(b: Seq<u8>, i: int, m: Option<Seq<MetaV>>)
    requires
        match m {
            Option::None => true,
            Option::Some(ms) => ms.len() <= LEN_LIMIT && forall|k: int|
                0 <= k < ms.len() ==> meta_valid(#[trigger] ms[k]),
        },
        holds_at(b, i, enc_metas_opt(m)),
    ensures
        dec_metas_opt_at(b, i) == Option::Some((m, i + enc_metas_opt(m).len())),
{
    match m {
        Option::None => {
            lemma_dec_u8(b, i, 0);
        },
        Option::Some(ms) => {
            lemma_holds_split(b, i, seq![1u8] + enc_u16(ms.len() as u16), enc_meta_seq(ms));
            lemma_holds_split(b, i, seq![1u8], enc_u16(ms.len() as u16));
            lemma_dec_u8(b, i, 1);
            lemma_dec_u16(b, i + 1, ms.len() as u16);
            assert((ms.len() as u16) as nat == ms.len());
            lemma_dec_metas(b, i + 3, ms);
        },
    }
}

proof fn lemma_dec_frame(b: Seq<u8>, i: int, f: FrameV)
    requires
        frame_valid(f),
        holds_at(b, i, enc_frame(f)),
    ensures
        dec_frame_at(b, i) == Option::Some((f, i + enc_frame(f).len())),
{
    let head = seq![format_tag(f.channel_format), f.priority];
    let chans = enc_channels(f.channels);
    let groups = enc_groups_opt(f.groups);
    let metas = enc_metas_opt(f.metadata);
    lemma_holds_split(b, i, head + chans + groups, metas);
    lemma_holds_split(b, i, head + chans, groups);
    lemma_holds_split(b, i, head, chans);
    assert(head =~= seq![format_tag(f.channel_format)] + seq![f.priority]);
    lemma_holds_split(b, i, seq![format_tag(f.channel_format)], seq![f.priority]);
    lemma_dec_u8(b, i, format_tag(f.channel_format));
    lemma_dec_u8(b, i + 1, f.priority);
    lemma_dec_channels(b, i + 2, f.channels);
    lemma_dec_groups_opt(b, i + 2 + chans.len(), f.groups);
    lemma_dec_metas_opt(b, i + 2 + chans.len() + groups.len(), f.metadata);
}

/// Round trip: a frame that fits the wire format's limits decodes, from
/// its own encoding, to exactly itself.
pub proof fn lemma_frame_round_trip(f: FrameV)
    requires
        frame_valid(f),
    ensures
        decode_frame_spec(enc_frame(f)) == Option::Some(f),
{
    let b = enc_frame(f);
    assert(b.subrange(0, b.len() as int) =~= b);
    lemma_dec_frame(b, 0, f);
}

// ---------------------------------------------------------------------
// Executable encoder
// ---------------------------------------------------------------------

proof fn lemma_enc_u16_seq_snoc(s: Seq<u16>, x: u16)
    ensures
        enc_u16_seq(s.push(x)) == enc_u16_seq(s) + enc_u16(x),
    decreases s.len(),
{
    assert(s.push(x).len() > 0);
    assert(enc_u16_seq(s.push(x)) == enc_u16(s.push(x)[0]) + enc_u16_seq(s.push(x).skip(1)));
    if s.len() == 0 {
        assert(s.push(x)[0] == x);
        assert(s.push(x).skip(1) =~= Seq::<u16>::empty());
        assert(enc_u16_seq(s.push(x).skip(1)) == Seq::<u8>::empty());
        assert(enc_u16_seq(s) == Seq::<u8>::empty());
        assert(enc_u16(x) + Seq::<u8>::empty() =~= Seq::<u8>::empty() + enc_u16(x));
    } else {
        assert(s.push(x)[0] == s[0]);
        assert(s.push(x).skip(1) =~= s.skip(1).push(x));
        lemma_enc_u16_seq_snoc(s.skip(1), x);
        assert(enc_u16_seq(s.push(x)) == enc_u16(s[0]) + (enc_u16_seq(s.skip(1)) + enc_u16(x)));
        assert(enc_u16(s[0]) + (enc_u16_seq(s.skip(1)) + enc_u16(x)) =~= (enc_u16(s[0]) + enc_u16_seq(s.skip(1))) + enc_u16(x));
        assert(enc_u16_seq(s) == enc_u16(s[0]) + enc_u16_seq(s.skip(1)));
    }
}

proof fn lemma_enc_group_seq_snoc(s: Seq<GroupV>, x: GroupV)
    ensures
        enc_group_seq(s.push(x)) == enc_group_seq(s) + enc_group(x),
    decreases s.len(),
{
    assert(s.push(x).len() > 0);
    assert(enc_group_seq(s.push(x)) == enc_group(s.push(x)[0]) + enc_group_seq(s.push(x).skip(1)));
    if s.len() == 0 {
        assert(s.push(x)[0] == x);
        assert(s.push(x).skip(1) =~= Seq::<GroupV>::empty());
        assert(enc_group_seq(s.push(x).skip(1)) == Seq::<u8>::empty());
        assert(enc_group_seq(s) == Seq::<u8>::empty());
        assert(enc_group(x) + Seq::<u8>::empty() =~= Seq::<u8>::empty() + enc_group(x));
    } else {
        assert(s.push(x)[0] == s[0]);
        assert(s.push(x).skip(1) =~= s.skip(1).push(x));
        lemma_enc_group_seq_snoc(s.skip(1), x);
        assert(enc_group_seq(s.push(x)) == enc_group(s[0]) + (enc_group_seq(s.skip(1)) + enc_group(x)));
        assert(enc_group(s[0]) + (enc_group_seq(s.skip(1)) + enc_group(x)) =~= (enc_group(s[0]) + enc_group_seq(s.skip(1))) + enc_group(x));
        assert(enc_group_seq(s) == enc_group(s[0]) + enc_group_seq(s.skip(1)));
    }
}

proof fn lemma_enc_meta_seq_snoc(s: Seq<MetaV>, x: MetaV)
    ensures
        enc_meta_seq(s.push(x)) == enc_meta_seq(s) + enc_meta(x),
    decreases s.len(),
{
    assert(s.push(x).len() > 0);
    assert(enc_meta_seq(s.push(x)) == enc_meta(s.push(x)[0]) + enc_meta_seq(s.push(x).skip(1)));
    if s.len() == 0 {
        assert(s.push(x)[0] == x);
        assert(s.push(x).skip(1) =~= Seq::<MetaV>::empty());
        assert(enc_meta_seq(s.push(x).skip(1)) == Seq::<u8>::empty());
        assert(enc_meta_seq(s) == Seq::<u8>::empty());
        assert(enc_meta(x) + Seq::<u8>::empty() =~= Seq::<u8>::empty() + enc_meta(x));
    } else {
        assert(s.push(x)[0] == s[0]);
        assert(s.push(x).skip(1) =~= s.skip(1).push(x));
        lemma_enc_meta_seq_snoc(s.skip(1), x);
        assert(enc_meta_seq(s.push(x)) == enc_meta(s[0]) + (enc_meta_seq(s.skip(1)) + enc_meta(x)));
        assert(enc_meta(s[0]) + (enc_meta_seq(s.skip(1)) + enc_meta(x)) =~= (enc_meta(s[0]) + enc_meta_seq(s.skip(1))) + enc_meta(x));
        assert(enc_meta_seq(s) == enc_meta(s[0]) + enc_meta_seq(s.skip(1)));
    }
}

fn push_u16(out: &mut Vec<u8>, x: u16)
    ensures
        final(out)@ == old(out)@ + enc_u16(x),
{
    out.push((x & 0xff) as u8);
    out.push(((x >> 8) & 0xff) as u8);
    assert(final(out)@ =~= old(out)@ + enc_u16(x));
}

pub(crate) fn push_u64(out: &mut Vec<u8>, x: u64)
    ensures
        final(out)@ == old(out)@ + enc_u64(x),
{
    out.push((x & 0xff) as u8);
    out.push(((x >> 8) & 0xff) as u8);
    out.push(((x >> 16) & 0xff) as u8);
    out.push(((x >> 24) & 0xff) as u8);
    out.push(((x >> 32) & 0xff) as u8);
    out.push(((x >> 40) & 0xff) as u8);
    out.push(((x >> 48) & 0xff) as u8);
    out.push(((x >> 56) & 0xff) as u8);
    assert(final(out)@ =~= old(out)@ + enc_u64(x));
}

pub(crate) fn push_raw(out: &mut Vec<u8>, src: &Vec<u8>)
    ensures
        final(out)@ == old(out)@ + src@,
{
    let mut k: usize = 0;
    while k < src.len()
        invariant
            k <= src@.len(),
            out@ == old(out)@ + src@.subrange(0, k as int),
        decreases src@.len() - k,
    {
        out.push(src[k]);
        proof {
            assert(old(out)@ + src@.subrange(0, k + 1 as int) =~= (old(out)@ + src@.subrange(
                0,
                k as int,
            )).push(src@[k as int]));
        }
        k = k + 1;
    }
    assert(src@.subrange(0, src@.len() as int) =~= src@);
}

fn push_len_bytes(out: &mut Vec<u8>, src: &Vec<u8>)
    requires
        src@.len() <= LEN_LIMIT,
    ensures
        final(out)@ == old(out)@ + enc_bytes(src@),
{
    push_u16(out, src.len() as u16);
    push_raw(out, src);
    assert(final(out)@ =~= old(out)@ + enc_bytes(src@));
}

fn push_channels(out: &mut Vec<u8>, v: &Vec<u16>)
    requires
        v@.len() <= LEN_LIMIT,
    ensures
        final(out)@ == old(out)@ + enc_channels(v@),
{
    push_u16(out, v.len() as u16);
    let ghost base = out@;
    let mut k: usize = 0;
    while k < v.len()
        invariant
            k <= v@.len(),
            out@ == base + enc_u16_seq(v@.subrange(0, k as int)),
        decreases v@.len() - k,
    {
        push_u16(out, v[k]);
        proof {
            lemma_enc_u16_seq_snoc(v@.subrange(0, k as int), v@[k as int]);
            assert(v@.subrange(0, k as int).push(v@[k as int]) =~= v@.subrange(0, k + 1 as int));
        }
        k = k + 1;
    }
    assert(v@.subrange(0, v@.len() as int) =~= v@);
    assert(final(out)@ =~= old(out)@ + enc_channels(v@));
}

fn push_scalar(out: &mut Vec<u8>, s: &JsonScalar)
    requires
        scalar_valid(s@),
    ensures
        final(out)@ == old(out)@ + enc_scalar(s@),
{
    match s {
        JsonScalar::Null => {
            out.push(0);
            assert(final(out)@ =~= old(out)@ + enc_scalar(s@));
        },
        JsonScalar::Bool(v) => {
            out.push(1);
            if *v {
                out.push(1);
            } else {
                out.push(0);
            }
            assert(final(out)@ =~= old(out)@ + enc_scalar(s@));
        },
        JsonScalar::Int(x) => {
            out.push(2);
            let u: u64 = if *x >= 0 {
                *x as u64
            } else {
                ((*x as i128) + 0x1_0000_0000_0000_0000i128) as u64
            };
            assert(u == i64_to_u64(x@));
            push_u64(out, u);
            assert(final(out)@ =~= old(out)@ + enc_scalar(s@));
        },
        JsonScalar::Text(t) => {
            out.push(3);
            push_len_bytes(out, t);
            assert(final(out)@ =~= old(out)@ + enc_scalar(s@));
        },
        JsonScalar::Float(x) => {
            out.push(4);
            push_u64(out, *x);
            assert(final(out)@ =~= old(out)@ + enc_scalar(s@));
        },
    }
}

pub(crate) fn push_value(out: &mut Vec<u8>, v: &JsonValue)
    requires
        value_valid(v@),
    ensures
        final(out)@ == old(out)@ + enc_value(v@),
    decreases *v, 0nat,
{
    match v {
        JsonValue::Scalar(s) => {
            out.push(0);
            push_scalar(out, s);
            assert(final(out)@ =~= old(out)@ + enc_value(v@));
        },
        JsonValue::Array(a) => {
            proof {
                crate::messages::lemma_values_view_from(*a, 0);
                assert(a@.skip(0) =~= a@);
            }
            out.push(1);
            push_u16(out, a.len() as u16);
            push_values_from(out, a, 0);
            assert(final(out)@ =~= old(out)@ + enc_value(v@));
        },
        JsonValue::Object(es) => {
            proof {
                crate::messages::lemma_entries_view_from(*es, 0);
                assert(es@.skip(0) =~= es@);
            }
            out.push(2);
            push_u16(out, es.len() as u16);
            push_entries_from(out, es, 0);
            assert(final(out)@ =~= old(out)@ + enc_value(v@));
        },
    }
}

fn push_values_from(out: &mut Vec<u8>, a: &Vec<JsonValue>, k: usize)
    requires
        k <= a.len(),
        values_valid(JsonValue::values_view_from(*a, k as int)),
    ensures
        final(out)@ == old(out)@ + enc_value_seq(JsonValue::values_view_from(*a, k as int)),
    decreases *a, a@.len() - k,
{
    let ghost s = JsonValue::values_view_from(*a, k as int);
    if k < a.len() {
        proof {
            assert(s[0] == a[k as int]@);
            assert(s.drop_first() =~= JsonValue::values_view_from(*a, k as int + 1));
        }
        push_value(out, &a[k]);
        push_values_from(out, a, k + 1);
        assert(final(out)@ =~= old(out)@ + enc_value_seq(s));
    } else {
        assert(final(out)@ =~= old(out)@ + enc_value_seq(s));
    }
}

fn push_entries_from(out: &mut Vec<u8>, es: &Vec<JsonEntry>, k: usize)
    requires
        k <= es.len(),
        entries_valid(JsonValue::entries_view_from(*es, k as int)),
    ensures
        final(out)@ == old(out)@ + enc_entry_seq(JsonValue::entries_view_from(*es, k as int)),
    decreases *es, es@.len() - k,
{
    let ghost s = JsonValue::entries_view_from(*es, k as int);
    if k < es.len() {
        proof {
            assert(s[0] == es[k as int]@);
            assert(s.drop_first() =~= JsonValue::entries_view_from(*es, k as int + 1));
            assert(entry_valid(s[0]));
            assert(es[k as int].key@.len() <= LEN_LIMIT);
            assert(value_valid(es[k as int].value@));
        }
        push_len_bytes(out, &es[k].key);
        push_value(out, &es[k].value);
        push_entries_from(out, es, k + 1);
        proof {
            assert(enc_entry(s[0]) == enc_bytes(es[k as int].key@) + enc_value(
                es[k as int].value@,
            ));
            assert(enc_entry_seq(s) == enc_entry(s[0]) + enc_entry_seq(s.drop_first()));
        }
        assert(final(out)@ =~= old(out)@ + enc_entry_seq(s));
    } else {
        assert(final(out)@ =~= old(out)@ + enc_entry_seq(s));
    }
}

fn push_group(out: &mut Vec<u8>, g: &ChannelGroup)
    requires
        group_valid(g@),
    ensures
        final(out)@ == old(out)@ + enc_group(g@),
{
    push_len_bytes(out, &g.name);
    push_channels(out, &g.members);
    assert(final(out)@ =~= old(out)@ + enc_group(g@));
}

fn push_meta(out: &mut Vec<u8>, m: &MetadataEntry)
    requires
        meta_valid(m@),
    ensures
        final(out)@ == old(out)@ + enc_meta(m@),
{
    push_len_bytes(out, &m.key);
    push_value(out, &m.value);
    assert(final(out)@ =~= old(out)@ + enc_meta(m@));
}

fn check_scalar(s: &JsonScalar) -> (r: bool)
    ensures
        r == scalar_valid(s@),
{
    match s {
        JsonScalar::Text(t) => t.len() <= LEN_LIMIT,
        _ => true,
    }
}

pub(crate) fn check_value(v: &JsonValue) -> (r: bool)
    ensures
        r == value_valid(v@),
    decreases *v, 0nat,
{
    match v {
        JsonValue::Scalar(s) => check_scalar(s),
        JsonValue::Array(a) => {
            proof {
                crate::messages::lemma_values_view_from(*a, 0);
                assert(a@.skip(0) =~= a@);
            }
            if a.len() > LEN_LIMIT {
                return false;
            }
            check_values_from(a, 0)
        },
        JsonValue::Object(es) => {
            proof {
                crate::messages::lemma_entries_view_from(*es, 0);
                assert(es@.skip(0) =~= es@);
            }
            if es.len() > LEN_LIMIT {
                return false;
            }
            check_entries_from(es, 0)
        },
    }
}

fn check_values_from(a: &Vec<JsonValue>, k: usize) -> (r: bool)
    requires
        k <= a.len(),
    ensures
        r == values_valid(JsonValue::values_view_from(*a, k as int)),
    decreases *a, a@.len() - k,
{
    let ghost s = JsonValue::values_view_from(*a, k as int);
    if k < a.len() {
        proof {
            assert(s[0] == a[k as int]@);
            assert(s.drop_first() =~= JsonValue::values_view_from(*a, k as int + 1));
        }
        if !check_value(&a[k]) {
            false
        } else {
            check_values_from(a, k + 1)
        }
    } else {
        assert(s =~= Seq::<ValueV>::empty());
        true
    }
}

fn check_entries_from(es: &Vec<JsonEntry>, k: usize) -> (r: bool)
    requires
        k <= es.len(),
    ensures
        r == entries_valid(JsonValue::entries_view_from(*es, k as int)),
    decreases *es, es@.len() - k,
{
    let ghost s = JsonValue::entries_view_from(*es, k as int);
    if k < es.len() {
        proof {
            assert(s[0] == es[k as int]@);
            assert(s.drop_first() =~= JsonValue::entries_view_from(*es, k as int + 1));
        }
        if es[k].key.len() > LEN_LIMIT {
            assert(!entry_valid(s[0]));
            false
        } else if !check_value(&es[k].value) {
            assert(!entry_valid(s[0]));
            false
        } else {
            assert(entry_valid(s[0]));
            check_entries_from(es, k + 1)
        }
    } else {
        assert(s =~= Seq::<EntryV>::empty());
        true
    }
}

fn check_frame(f: &Frame) -> (r: bool)
    ensures
        r == frame_valid(f@),
{
    if f.channels.len() > LEN_LIMIT {
        return false;
    }
    match &f.groups {
        Option::None => {},
        Option::Some(gs) => {
            let ghost gv = gs@.map_values(|g: ChannelGroup| g@);
            if gs.len() > LEN_LIMIT {
                return false;
            }
            let mut k: usize = 0;
            while k < gs.len()
                invariant
                    k <= gs@.len(),
                    gv == gs@.map_values(|g: ChannelGroup| g@),
                    f@.groups == Option::Some(gv),
                    forall|i: int| 0 <= i < k ==> group_valid(#[trigger] gv[i]),
                decreases gs@.len() - k,
            {
                if gs[k].name.len() > LEN_LIMIT || gs[k].members.len() > LEN_LIMIT {
                    assert(!group_valid(gv[k as int]));
                    return false;
                }
                k = k + 1;
            }
        },
    }
    match &f.metadata {
        Option::None => {},
        Option::Some(ms) => {
            let ghost mv = ms@.map_values(|m: MetadataEntry| m@);
            if ms.len() > LEN_LIMIT {
                return false;
            }
            let mut k: usize = 0;
            while k < ms.len()
                invariant
                    k <= ms@.len(),
                    mv == ms@.map_values(|m: MetadataEntry| m@),
                    f@.metadata == Option::Some(mv),
                    forall|i: int| 0 <= i < k ==> meta_valid(#[trigger] mv[i]),
                decreases ms@.len() - k,
            {
                if ms[k].key.len() > LEN_LIMIT || !check_value(&ms[k].value) {
                    assert(!meta_valid(mv[k as int]));
                    return false;
                }
                k = k + 1;
            }
        },
    }
    true
}

fn format_tag_ex(f: ChannelFormat) -> (r: u8)
    ensures
        r == format_tag(f),
{
    match f {
        ChannelFormat::Interleaved => 0,
        ChannelFormat::Planar => 1,
        ChannelFormat::Compressed => 2,
    }
}

/// Serialize a frame for a single datagram. A frame whose lists or texts
/// exceed the 16-bit length prefixes is refused.
pub fn encode_frame(f: &Frame) -> (r: Result<Vec<u8>, StreamError>)
    ensures
        frame_valid(f@) ==> (r matches Result::Ok(v) && v@ == enc_frame(f@)),
        !frame_valid(f@) ==> (r matches Result::Err(e) && e is FrameTooLarge),
{
    if !check_frame(f) {
        return Result::Err(StreamError::FrameTooLarge);
    }
    let mut out: Vec<u8> = Vec::new();
    out.push(format_tag_ex(f.channel_format));
    out.push(f.priority);
    push_channels(&mut out, &f.channels);
    let ghost after_chans = out@;
    match &f.groups {
        Option::None => {
            out.push(0);
        },
        Option::Some(gs) => {
            out.push(1);
            push_u16(&mut out, gs.len() as u16);
            let ghost base = out@;
            let ghost gv = gs@.map_values(|g: ChannelGroup| g@);
            let mut k: usize = 0;
            while k < gs.len()
                invariant
                    k <= gs@.len(),
                    gv == gs@.map_values(|g: ChannelGroup| g@),
                    frame_valid(f@),
                    f@.groups == Option::Some(gv),
                    out@ == base + enc_group_seq(gv.subrange(0, k as int)),
                decreases gs@.len() - k,
            {
                assert(group_valid(gv[k as int]));
                push_group(&mut out, &gs[k]);
                proof {
                    lemma_enc_group_seq_snoc(gv.subrange(0, k as int), gv[k as int]);
                    assert(gv.subrange(0, k as int).push(gv[k as int]) =~= gv.subrange(
                        0,
                        k + 1 as int,
                    ));
                }
                k = k + 1;
            }
            assert(gv.subrange(0, gv.len() as int) =~= gv);
        },
    }
    assert(out@ =~= after_chans + enc_groups_opt(f@.groups));
    let ghost after_groups = out@;
    match &f.metadata {
        Option::None => {
            out.push(0);
        },
        Option::Some(ms) => {
            out.push(1);
            push_u16(&mut out, ms.len() as u16);
            let ghost base = out@;
            let ghost mv = ms@.map_values(|m: MetadataEntry| m@);
            let mut k: usize = 0;
            while k < ms.len()
                invariant
                    k <= ms@.len(),
                    mv == ms@.map_values(|m: MetadataEntry| m@),
                    frame_valid(f@),
                    f@.metadata == Option::Some(mv),
                    out@ == base + enc_meta_seq(mv.subrange(0, k as int)),
                decreases ms@.len() - k,
            {
                assert(meta_valid(mv[k as int]));
                push_meta(&mut out, &ms[k]);
                proof {
                    lemma_enc_meta_seq_snoc(mv.subrange(0, k as int), mv[k as int]);
                    assert(mv.subrange(0, k as int).push(mv[k as int]) =~= mv.subrange(
                        0,
                        k + 1 as int,
                    ));
                }
                k = k + 1;
            }
            assert(mv.subrange(0, mv.len() as int) =~= mv);
        },
    }
    assert(out@ =~= after_groups + enc_metas_opt(f@.metadata));
    assert(out@ =~= enc_frame(f@));
    Result::Ok(out)
}

// ---------------------------------------------------------------------
// Executable decoder
// ---------------------------------------------------------------------

fn dec_u8_ex(b: &Vec<u8>, i: usize) -> (r: Option<(u8, usize)>)
    requires
        i <= b@.len(),
    ensures
        match r {
            Option::None => dec_u8_at(b@, i as int) is None,
            Option::Some((x, j)) => dec_u8_at(b@, i as int) == Option::Some((x, j as int)) && j
                <= b@.len(),
        },
{
    if b.len() - i >= 1 {
        Option::Some((b[i], i + 1))
    } else {
        Option::None
    }
}

fn dec_u16_ex(b: &Vec<u8>, i: usize) -> (r: Option<(u16, usize)>)
    requires
        i <= b@.len(),
    ensures
        match r {
            Option::None => dec_u16_at(b@, i as int) is None,
            Option::Some((x, j)) => dec_u16_at(b@, i as int) == Option::Some((x, j as int)) && j
                <= b@.len(),
        },
{
    if b.len() - i >= 2 {
        let x: u16 = (b[i] as u16) | ((b[i + 1] as u16) << 8);
        Option::Some((x, i + 2))
    } else {
        Option::None
    }
}

fn dec_u64_ex(b: &Vec<u8>, i: usize) -> (r: Option<(u64, usize)>)
    requires
        i <= b@.len(),
    ensures
        match r {
            Option::None => dec_u64_at(b@, i as int) is None,
            Option::Some((x, j)) => dec_u64_at(b@, i as int) == Option::Some((x, j as int)) && j
                <= b@.len(),
        },
{
    if b.len() - i >= 8 {
        let x: u64 = (b[i] as u64) | ((b[i + 1] as u64) << 8) | ((b[i + 2] as u64) << 16) | ((b[i
            + 3] as u64) << 24) | ((b[i + 4] as u64) << 32) | ((b[i + 5] as u64) << 40) | ((b[i
            + 6] as u64) << 48) | ((b[i + 7] as u64) << 56);
        Option::Some((x, i + 8))
    } else {
        Option::None
    }
}

fn dec_u16s_ex(b: &Vec<u8>, i: usize, n: u16) -> (r: Option<(Vec<u16>, usize)>)
    requires
        i <= b@.len(),
    ensures
        match r {
            Option::None => dec_u16s_at(b@, i as int, n as nat) is None,
            Option::Some((v, j)) => dec_u16s_at(b@, i as int, n as nat) == Option::Some(
                (v@, j as int),
            ) && j <= b@.len(),
        },
    decreases n,
{
    if n == 0 {
        Option::Some((Vec::new(), i))
    } else {
        match dec_u16_ex(b, i) {
            Option::None => Option::None,
            Option::Some((x, j)) => match dec_u16s_ex(b, j, n - 1) {
                Option::None => Option::None,
                Option::Some((v, k)) => {
                    let ghost prev = v@;
                    let mut v = v;
                    v.insert(0, x);
                    proof {
                        assert(v@ =~= seq![x] + prev);
                    }
                    Option::Some((v, k))
                },
            },
        }
    }
}

fn dec_channels_ex(b: &Vec<u8>, i: usize) -> (r: Option<(Vec<u16>, usize)>)
    requires
        i <= b@.len(),
    ensures
        match r {
            Option::None => dec_channels_at(b@, i as int) is None,
            Option::Some((v, j)) => dec_channels_at(b@, i as int) == Option::Some((v@, j as int))
                && j <= b@.len(),
        },
{
    match dec_u16_ex(b, i) {
        Option::None => Option::None,
        Option::Some((n, j)) => dec_u16s_ex(b, j, n),
    }
}

fn dec_bytes_ex(b: &Vec<u8>, i: usize) -> (r: Option<(Vec<u8>, usize)>)
    requires
        i <= b@.len(),
    ensures
        match r {
            Option::None => dec_bytes_at(b@, i as int) is None,
            Option::Some((v, j)) => dec_bytes_at(b@, i as int) == Option::Some((v@, j as int)) && j
                <= b@.len(),
        },
{
    match dec_u16_ex(b, i) {
        Option::None => Option::None,
        Option::Some((n16, j)) => {
            let n = n16 as usize;
            if b.len() - j >= n {
                let mut t: Vec<u8> = Vec::new();
                let mut k: usize = 0;
                while k < n
                    invariant
                        j + n <= b@.len(),
                        b@.len() <= usize::MAX,
                        k <= n,
                        t@ == b@.subrange(j as int, j as int + k as int),
                    decreases n - k,
                {
                    t.push(b[j + k]);
                    proof {
                        assert(t@ =~= b@.subrange(j as int, j as int + k as int + 1));
                    }
                    k = k + 1;
                }
                Option::Some((t, j + n))
            } else {
                Option::None
            }
        },
    }
}

fn dec_scalar_ex(b: &Vec<u8>, i: usize) -> (r: Option<(JsonScalar, usize)>)
    requires
        i <= b@.len(),
    ensures
        match r {
            Option::None => dec_scalar_at(b@, i as int) is None,
            Option::Some((s, j)) => dec_scalar_at(b@, i as int) == Option::Some((s@, j as int))
                && j <= b@.len(),
        },
{
    match dec_u8_ex(b, i) {
        Option::None => Option::None,
        Option::Some((tag, j)) => {
            if tag == 0 {
                Option::Some((JsonScalar::Null, j))
            } else if tag == 1 {
                match dec_u8_ex(b, j) {
                    Option::None => Option::None,
                    Option::Some((v, k)) => {
                        if v == 0 {
                            Option::Some((JsonScalar::Bool(false), k))
                        } else if v == 1 {
                            Option::Some((JsonScalar::Bool(true), k))
                        } else {
                            Option::None
                        }
                    },
                }
            } else if tag == 2 {
                match dec_u64_ex(b, j) {
                    Option::None => Option::None,
                    Option::Some((v, k)) => {
                        let x: i64 = if v < 0x8000_0000_0000_0000 {
                            v as i64
                        } else {
                            ((v as i128) - 0x1_0000_0000_0000_0000i128) as i64
                        };
                        assert(x == u64_to_i64(v));
                        Option::Some((JsonScalar::Int(x), k))
                    },
                }
            } else if tag == 3 {
                match dec_bytes_ex(b, j) {
                    Option::None => Option::None,
                    Option::Some((t, k)) => Option::Some((JsonScalar::Text(t), k)),
                }
            } else if tag == 4 {
                match dec_u64_ex(b, j) {
                    Option::None => Option::None,
                    Option::Some((v, k)) => Option::Some((JsonScalar::Float(v), k)),
                }
            } else {
                Option::None
            }
        },
    }
}

fn dec_value_ex(b: &Vec<u8>, i: usize, fuel: usize) -> (r: Option<(JsonValue, usize)>)
    requires
        i <= b@.len(),
    ensures
        match r {
            Option::None => dec_value_at(b@, i as int, fuel as nat) is None,
            Option::Some((v, j)) => dec_value_at(b@, i as int, fuel as nat) == Option::Some(
                (v@, j as int),
            ) && j <= b@.len(),
        },
    decreases fuel, 1nat, 0nat,
{
    match dec_u8_ex(b, i) {
        Option::None => Option::None,
        Option::Some((tag, j)) => {
            if tag == 0 {
                match dec_scalar_ex(b, j) {
                    Option::None => Option::None,
                    Option::Some((s, k)) => Option::Some((JsonValue::Scalar(s), k)),
                }
            } else if tag == 1 {
                match dec_u16_ex(b, j) {
                    Option::None => Option::None,
                    Option::Some((n, k)) => match dec_values_ex(b, k, n, fuel) {
                        Option::None => Option::None,
                        Option::Some((a, m)) => {
                            proof {
                                crate::messages::lemma_values_view_from(a, 0);
                                assert(a@.skip(0) =~= a@);
                                assert((JsonValue::Array(a))@ == ValueV::Array(
                                    a@.map_values(|x: JsonValue| x@),
                                ));
                            }
                            Option::Some((JsonValue::Array(a), m))
                        },
                    },
                }
            } else if tag == 2 {
                match dec_u16_ex(b, j) {
                    Option::None => Option::None,
                    Option::Some((n, k)) => match dec_entries_ex(b, k, n, fuel) {
                        Option::None => Option::None,
                        Option::Some((es, m)) => {
                            proof {
                                crate::messages::lemma_entries_view_from(es, 0);
                                assert(es@.skip(0) =~= es@);
                                assert((JsonValue::Object(es))@ == ValueV::Object(
                                    es@.map_values(|e: JsonEntry| e@),
                                ));
                            }
                            Option::Some((JsonValue::Object(es), m))
                        },
                    },
                }
            } else {
                Option::None
            }
        },
    }
}

fn dec_values_ex(b: &Vec<u8>, i: usize, n: u16, fuel: usize) -> (r: Option<
    (Vec<JsonValue>, usize),
>)
    requires
        i <= b@.len(),
    ensures
        match r {
            Option::None => dec_values_at(b@, i as int, n as nat, fuel as nat) is None,
            Option::Some((v, j)) => dec_values_at(b@, i as int, n as nat, fuel as nat)
                == Option::Some((v@.map_values(|x: JsonValue| x@), j as int)) && j <= b@.len(),
        },
    decreases fuel, 0nat, n,
{
    if n == 0 {
        let v: Vec<JsonValue> = Vec::new();
        proof {
            assert(v@.map_values(|x: JsonValue| x@) =~= Seq::<ValueV>::empty());
        }
        Option::Some((v, i))
    } else if fuel == 0 {
        Option::None
    } else {
        match dec_value_ex(b, i, fuel - 1) {
            Option::None => Option::None,
            Option::Some((x, j)) => match dec_values_ex(b, j, n - 1, fuel) {
                Option::None => Option::None,
                Option::Some((v, k)) => {
                    let ghost prevm = v@.map_values(|y: JsonValue| y@);
                    let ghost prev = v@;
                    let mut v = v;
                    let ghost xv = x@;
                    v.insert(0, x);
                    proof {
                        assert(v@ =~= seq![x] + prev);
                        assert(v@.map_values(|y: JsonValue| y@) =~= seq![xv] + prevm);
                    }
                    Option::Some((v, k))
                },
            },
        }
    }
}

fn dec_entries_ex(b: &Vec<u8>, i: usize, n: u16, fuel: usize) -> (r: Option<
    (Vec<JsonEntry>, usize),
>)
    requires
        i <= b@.len(),
    ensures
        match r {
            Option::None => dec_entries_at(b@, i as int, n as nat, fuel as nat) is None,
            Option::Some((v, j)) => dec_entries_at(b@, i as int, n as nat, fuel as nat)
                == Option::Some((v@.map_values(|e: JsonEntry| e@), j as int)) && j <= b@.len(),
        },
    decreases fuel, 0nat, n,
{
    if n == 0 {
        let v: Vec<JsonEntry> = Vec::new();
        proof {
            assert(v@.map_values(|e: JsonEntry| e@) =~= Seq::<EntryV>::empty());
        }
        Option::Some((v, i))
    } else if fuel == 0 {
        Option::None
    } else {
        match dec_bytes_ex(b, i) {
            Option::None => Option::None,
            Option::Some((key, j)) => match dec_value_ex(b, j, fuel - 1) {
                Option::None => Option::None,
                Option::Some((value, k)) => match dec_entries_ex(b, k, n - 1, fuel) {
                    Option::None => Option::None,
                    Option::Some((v, m)) => {
                        let ghost prevm = v@.map_values(|e: JsonEntry| e@);
                        let ghost prev = v@;
                        let mut v = v;
                        let ghost xv = EntryV { key: key@, value: value@ };
                        let x = JsonEntry { key, value };
                        v.insert(0, x);
                        proof {
                            assert(v@ =~= seq![x] + prev);
                            assert(v@.map_values(|e: JsonEntry| e@) =~= seq![xv] + prevm);
                        }
                        Option::Some((v, m))
                    },
                },
            },
        }
    }
}

fn dec_group_ex(b: &Vec<u8>, i: usize) -> (r: Option<(ChannelGroup, usize)>)
    requires
        i <= b@.len(),
    ensures
        match r {
            Option::None => dec_group_at(b@, i as int) is None,
            Option::Some((g, j)) => dec_group_at(b@, i as int) == Option::Some((g@, j as int)) && j
                <= b@.len(),
        },
{
    match dec_bytes_ex(b, i) {
        Option::None => Option::None,
        Option::Some((name, j)) => match dec_channels_ex(b, j) {
            Option::None => Option::None,
            Option::Some((members, k)) => Option::Some((ChannelGroup { name, members }, k)),
        },
    }
}

fn dec_groups_ex(b: &Vec<u8>, i: usize, n: u16) -> (r: Option<(Vec<ChannelGroup>, usize)>)
    requires
        i <= b@.len(),
    ensures
        match r {
            Option::None => dec_groups_at(b@, i as int, n as nat) is None,
            Option::Some((v, j)) => dec_groups_at(b@, i as int, n as nat) == Option::Some(
                (v@.map_values(|g: ChannelGroup| g@), j as int),
            ) && j <= b@.len(),
        },
    decreases n,
{
    if n == 0 {
        let v: Vec<ChannelGroup> = Vec::new();
        proof {
            assert(v@.map_values(|g: ChannelGroup| g@) =~= Seq::<GroupV>::empty());
        }
        Option::Some((v, i))
    } else {
        match dec_group_ex(b, i) {
            Option::None => Option::None,
            Option::Some((x, j)) => match dec_groups_ex(b, j, n - 1) {
                Option::None => Option::None,
                Option::Some((v, k)) => {
                    let ghost prevm = v@.map_values(|g: ChannelGroup| g@);
                    let ghost prev = v@;
                    let mut v = v;
                    let ghost xv = x@;
                    v.insert(0, x);
                    proof {
                        assert(v@ =~= seq![x] + prev);
                        assert(v@.map_values(|g: ChannelGroup| g@) =~= seq![xv] + prevm);
                    }
                    Option::Some((v, k))
                },
            },
        }
    }
}

fn dec_meta_ex(b: &Vec<u8>, i: usize) -> (r: Option<(MetadataEntry, usize)>)
    requires
        i <= b@.len(),
    ensures
        match r {
            Option::None => dec_meta_at(b@, i as int) is None,
            Option::Some((m, j)) => dec_meta_at(b@, i as int) == Option::Some((m@, j as int)) && j
                <= b@.len(),
        },
{
    match dec_bytes_ex(b, i) {
        Option::None => Option::None,
        Option::Some((key, j)) => match dec_value_ex(b, j, b.len()) {
            Option::None => Option::None,
            Option::Some((value, k)) => Option::Some((MetadataEntry { key, value }, k)),
        },
    }
}

fn dec_metas_ex(b: &Vec<u8>, i: usize, n: u16) -> (r: Option<(Vec<MetadataEntry>, usize)>)
    requires
        i <= b@.len(),
    ensures
        match r {
            Option::None => dec_metas_at(b@, i as int, n as nat) is None,
            Option::Some((v, j)) => dec_metas_at(b@, i as int, n as nat) == Option::Some(
                (v@.map_values(|m: MetadataEntry| m@), j as int),
            ) && j <= b@.len(),
        },
    decreases n,
{
    if n == 0 {
        let v: Vec<MetadataEntry> = Vec::new();
        proof {
            assert(v@.map_values(|m: MetadataEntry| m@) =~= Seq::<MetaV>::empty());
        }
        Option::Some((v, i))
    } else {
        match dec_meta_ex(b, i) {
            Option::None => Option::None,
            Option::Some((x, j)) => match dec_metas_ex(b, j, n - 1) {
                Option::None => Option::None,
                Option::Some((v, k)) => {
                    let ghost prevm = v@.map_values(|m: MetadataEntry| m@);
                    let ghost prev = v@;
                    let mut v = v;
                    let ghost xv = x@;
                    v.insert(0, x);
                    proof {
                        assert(v@ =~= seq![x] + prev);
                        assert(v@.map_values(|m: MetadataEntry| m@) =~= seq![xv] + prevm);
                    }
                    Option::Some((v, k))
                },
            },
        }
    }
}

fn format_from_tag_ex(t: u8) -> (r: Option<ChannelFormat>)
    ensures
        r == format_from_tag(t),
{
    if t == 0 {
        Option::Some(ChannelFormat::Interleaved)
    } else if t == 1 {
        Option::Some(ChannelFormat::Planar)
    } else if t == 2 {
        Option::Some(ChannelFormat::Compressed)
    } else {
        Option::None
    }
}

fn dec_frame_ex(b: &Vec<u8>, i: usize) -> (r: Option<(Frame, usize)>)
    requires
        i <= b@.len(),
    ensures
        match r {
            Option::None => dec_frame_at(b@, i as int) is None,
            Option::Some((f, j)) => dec_frame_at(b@, i as int) == Option::Some((f@, j as int)) && j
                <= b@.len(),
        },
{
    match dec_u8_ex(b, i) {
        Option::None => Option::None,
        Option::Some((ftag, j)) => match format_from_tag_ex(ftag) {
            Option::None => Option::None,
            Option::Some(fmt) => match dec_u8_ex(b, j) {
                Option::None => Option::None,
                Option::Some((prio, k)) => match dec_channels_ex(b, k) {
                    Option::None => Option::None,
                    Option::Some((chans, m)) => match dec_groups_opt_ex(b, m) {
                        Option::None => Option::None,
                        Option::Some((groups, p)) => match dec_metas_opt_ex(b, p) {
                            Option::None => Option::None,
                            Option::Some((metadata, q)) => {
                                let f = Frame {
                                    channel_format: fmt,
                                    channels: chans,
                                    priority: prio,
                                    groups,
                                    metadata,
                                };
                                proof {
                                    assert(dec_frame_at(b@, i as int) =~~= Option::Some(
                                        (f@, q as int),
                                    ));
                                }
                                Option::Some((f, q))
                            },
                        },
                    },
                },
            },
        },
    }
}

fn dec_groups_opt_ex(b: &Vec<u8>, i: usize) -> (r: Option<(Option<Vec<ChannelGroup>>, usize)>)
    requires
        i <= b@.len(),
    ensures
        match r {
            Option::None => dec_groups_opt_at(b@, i as int) is None,
            Option::Some((g, j)) => dec_groups_opt_at(b@, i as int) == Option::Some(
                (
                    match g {
                        Option::None => Option::None,
                        Option::Some(gs) => Option::Some(gs@.map_values(|x: ChannelGroup| x@)),
                    },
                    j as int,
                ),
            ) && j <= b@.len(),
        },
{
    match dec_u8_ex(b, i) {
        Option::None => Option::None,
        Option::Some((flag, j)) => {
            if flag == 0 {
                Option::Some((Option::None, j))
            } else if flag == 1 {
                match dec_u16_ex(b, j) {
                    Option::None => Option::None,
                    Option::Some((n, k)) => match dec_groups_ex(b, k, n) {
                        Option::None => Option::None,
                        Option::Some((gs, m)) => Option::Some((Option::Some(gs), m)),
                    },
                }
            } else {
                Option::None
            }
        },
    }
}

fn dec_metas_opt_ex(b: &Vec<u8>, i: usize) -> (r: Option<(Option<Vec<MetadataEntry>>, usize)>)
    requires
        i <= b@.len(),
    ensures
        match r {
            Option::None => dec_metas_opt_at(b@, i as int) is None,
            Option::Some((m, j)) => dec_metas_opt_at(b@, i as int) == Option::Some(
                (
                    match m {
                        Option::None => Option::None,
                        Option::Some(ms) => Option::Some(ms@.map_values(|x: MetadataEntry| x@)),
                    },
                    j as int,
                ),
            ) && j <= b@.len(),
        },
{
    match dec_u8_ex(b, i) {
        Option::None => Option::None,
        Option::Some((flag, j)) => {
            if flag == 0 {
                Option::Some((Option::None, j))
            } else if flag == 1 {
                match dec_u16_ex(b, j) {
                    Option::None => Option::None,
                    Option::Some((n, k)) => match dec_metas_ex(b, k, n) {
                        Option::None => Option::None,
                        Option::Some((ms, m)) => Option::Some((Option::Some(ms), m)),
                    },
                }
            } else {
                Option::None
            }
        },
    }
}

/// Parse a whole datagram back into a frame. Returns nothing where the
/// bytes do not parse, or where trailing bytes follow the frame.
pub fn decode_frame(b: &Vec<u8>) -> (r: Option<Frame>)
    ensures
        match decode_frame_spec(b@) {
            Option::None => r is None,
            Option::Some(fv) => r matches Option::Some(f) && f@ == fv,
        },
{
    match dec_frame_ex(b, 0) {
        Option::None => Option::None,
        Option::Some((f, j)) => {
            if j == b.len() {
                Option::Some(f)
            } else {
                Option::None
            }
        },
    }
}

} // verus!
