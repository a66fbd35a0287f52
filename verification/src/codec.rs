//! The byte serialization of `State`.
//!
//! A record is a tag byte followed by the variant's payload: `Start` is the
//! single tag byte, `GotNumber(n)` is its tag byte followed by the four
//! little-endian bytes of `n`.  The leading tag keeps the format
//! self-describing, so new variants can be added under fresh tags without
//! disturbing records already on disk.

use vstd::prelude::*;

use crate::state::State;

verus! {

/// Tag byte of an encoded `Start`.
pub const TAG_START: u8 = 0;

/// Tag byte of an encoded `GotNumber`.
pub const TAG_NUMBER: u8 = 1;

/// The four little-endian bytes of `u`.
pub open spec fn spec_le_bytes(u: u32) -> Seq<u8> {
    seq![
        (u & 0xff) as u8,
        ((u >> 8) & 0xff) as u8,
        ((u >> 16) & 0xff) as u8,
        ((u >> 24) & 0xff) as u8,
    ]
}

/// The `u32` read back from four little-endian bytes.
pub open spec fn spec_u32_of_le(b: Seq<u8>) -> u32
    recommends
        b.len() == 4,
{
    ((b[0] as u32) | ((b[1] as u32) << 8) | ((b[2] as u32) << 16) | ((b[3] as u32) << 24)) as u32
}

/// The encoded form of a state.
pub open spec fn spec_encode(s: State) -> Seq<u8> {
    match s {
        State::Start => seq![TAG_START],
        State::GotNumber(n) => seq![TAG_NUMBER] + spec_le_bytes(n as u32),
    }
}

/// The state a byte record holds, if it is well formed.
pub open spec fn spec_decode(b: Seq<u8>) -> Option<State> {
    if b.len() == 1 && b[0] == TAG_START {
        Some(State::Start)
    } else if b.len() == 5 && b[0] == TAG_NUMBER {
        Some(State::GotNumber(spec_u32_of_le(b.skip(1)) as i32))
    } else {
        None
    }
}

/// Serialize a state.
pub fn encode_state(s: &State) -> (r: Vec<u8>)
    ensures
        r@ == spec_encode(*s),
{
    let mut v: Vec<u8> = Vec::new();
    match s {
        State::Start => {
            v.push(TAG_START);
            proof {
                assert(v@ =~= spec_encode(*s));
            }
        },
        State::GotNumber(n) => {
            let u = *n as u32;
            v.push(TAG_NUMBER);
            v.push((u & 0xff) as u8);
            v.push(((u >> 8) & 0xff) as u8);
            v.push(((u >> 16) & 0xff) as u8);
            v.push(((u >> 24) & 0xff) as u8);
            proof {
                assert(v@ =~= spec_encode(*s));
            }
        },
    }
    v
}

/// Deserialize a record; `None` on any byte string the encoder never emits.
pub fn decode_state(bytes: &[u8]) -> (r: Option<State>)
    ensures
        r == spec_decode(bytes@),
{
    if bytes.len() == 1 && bytes[0] == TAG_START {
        Some(State::Start)
    } else if bytes.len() == 5 && bytes[0] == TAG_NUMBER {
        let u: u32 = (bytes[1] as u32) | ((bytes[2] as u32) << 8) | ((bytes[3] as u32) << 16) | (
        (bytes[4] as u32) << 24);
        proof {
            assert(bytes@.skip(1) =~= seq![bytes@[1], bytes@[2], bytes@[3], bytes@[4]]);
        }
        Some(State::GotNumber(u as i32))
    } else {
        None
    }
}

/// Every state decodes back from its own encoding: the serialization
/// round-trip law of the store's record format.
pub proof fn lemma_codec_round_trip(s: State)
    ensures
        spec_decode(spec_encode(s)) == Some(s),
{
    match s {
        State::Start => {},
        State::GotNumber(n) => {
            let u = n as u32;
            let b = spec_encode(s);
            assert(b.skip(1) =~= spec_le_bytes(u));
            assert(spec_u32_of_le(spec_le_bytes(u)) == u) by (bit_vector);
            assert(u as i32 == n) by (bit_vector)
                requires
                    u == n as u32,
            ;
        },
    }
}

} // verus!
