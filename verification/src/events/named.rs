//! Events that only name a sequence or an animation: `CALL_SEQUENCE` (22),
//! `STOP_SEQUENCE` (23), `STOP_ANIMATION` (25), `RESET_ANIMATION` (26) and
//! `INVALIDATE_ANIMATION` (27).
//!
//! Their records are a zero-padded name of 32 bytes and four bytes of
//! index that the engine fills in: `-1` for sequences, zero for animations
//! (for `STOP_ANIMATION`, two `i16` indices that are both zero, or both `-1`
//! in Pirate's Moon).
use vstd::prelude::*;
use crate::error::Error;
use crate::record::{
    conforms_all, decode, decode_record, encode, encode_record, fields_view, get_bytes, get_u32,
    lemma_decode_encode, lemma_encode_size, size, w32, wbytes, FieldV, Fld, Kind,
};
use crate::text::{lemma_unpad_pad, pad, pad_exec, unpad, unpad_exec};

use crate::record::{lemma_decode_conforms};
verus! {

/// A `CALL_SEQUENCE` event.
#[derive(Debug)]
pub struct CallSequence<N> {
    pub name: N,
}

/// A `STOP_SEQUENCE` event.
#[derive(Debug)]
pub struct StopSequence<N> {
    pub name: N,
}

/// A `STOP_ANIMATION` event.
#[derive(Debug)]
pub struct StopAnimation<N> {
    pub name: N,
}

impl DeepView for StopAnimation<Vec<u8>> {
    type V = StopAnimation<Seq<u8>>;

    open spec fn deep_view(&self) -> StopAnimation<Seq<u8>> {
        StopAnimation { name: self.name@ }
    }
}

/// A `RESET_ANIMATION` event.
#[derive(Debug)]
pub struct ResetAnimation<N> {
    pub name: N,
}

/// An `INVALIDATE_ANIMATION` event.
#[derive(Debug)]
pub struct InvalidateAnimation<N> {
    pub name: N,
}

impl DeepView for CallSequence<Vec<u8>> {
    type V = CallSequence<Seq<u8>>;

    open spec fn deep_view(&self) -> CallSequence<Seq<u8>> {
        CallSequence { name: self.name@ }
    }
}

impl DeepView for StopSequence<Vec<u8>> {
    type V = StopSequence<Seq<u8>>;

    open spec fn deep_view(&self) -> StopSequence<Seq<u8>> {
        StopSequence { name: self.name@ }
    }
}

impl DeepView for ResetAnimation<Vec<u8>> {
    type V = ResetAnimation<Seq<u8>>;

    open spec fn deep_view(&self) -> ResetAnimation<Seq<u8>> {
        ResetAnimation { name: self.name@ }
    }
}

impl DeepView for InvalidateAnimation<Vec<u8>> {
    type V = InvalidateAnimation<Seq<u8>>;

    open spec fn deep_view(&self) -> InvalidateAnimation<Seq<u8>> {
        InvalidateAnimation { name: self.name@ }
    }
}

/// Size of the record.
pub const SIZE: u32 = 36;

/// The index stored with a sequence name (`-1`).
pub const SEQUENCE_INDEX: u32 = 0xFFFF_FFFF;

/// The index stored with an animation name.
pub const ANIMATION_INDEX: u32 = 0;

/// The indices stored with the name of a `STOP_ANIMATION` in Pirate's Moon:
/// two `i16` that are both `-1`.
pub const STOP_ANIMATION_PM_INDEX: u32 = 0xFFFF_FFFF;

/// Fields: name, index.
pub open spec fn layout() -> Seq<Kind> {
    seq![Kind::Bytes(32), Kind::U32]
}

fn layout_exec() -> (r: Vec<Kind>)
    ensures
        r@ == layout(),
        size(layout()) == SIZE,
{
    let r = vec![Kind::Bytes(32), Kind::U32];
    proof {
        assert(r@ =~= layout());
        reveal_with_fuel(size, 3);
    }
    r
}

/// The name that a record holds with the index `index`, if it holds one.
pub open spec fn parse(s: Seq<u8>, index: u32) -> Option<Seq<u8>> {
    if s.len() == SIZE {
        let f = decode(layout(), s);
        if w32(f, 1) == index {
            unpad(wbytes(f, 0))
        } else {
            None
        }
    } else {
        None
    }
}

/// The record of a name with the index `index`, if the name can be
/// written: ASCII, without zero bytes, and at most 32 bytes long.
pub open spec fn serialize(name: Seq<u8>, index: u32) -> Option<Seq<u8>> {
    match pad(name, 32) {
        Some(b) => Some(encode(seq![FieldV::Bytes(b), FieldV::U32(index)])),
        None => None,
    }
}

/// Reads a record of a name with the index `index`.
pub fn read(data: &[u8], index: u32) -> (r: Result<Vec<u8>, Error>)
    ensures
        match parse(data@, index) {
            Some(n) => r matches Ok(x) && x@ == n,
            None => r == Err::<Vec<u8>, Error>(Error::Invalid),
        },
{
    if data.len() != 36 {
        return Err(Error::Invalid);
    }
    let l = layout_exec();
    let f = decode_record(data, l.as_slice());
    if get_u32(&f, 1) != index {
        return Err(Error::Invalid);
    }
    let b = get_bytes(&f, 0);
    match unpad_exec(b) {
        Some(n) => Ok(n),
        None => Err(Error::Invalid),
    }
}

/// Writes a record of a name with the index `index`.
pub fn write(name: &Vec<u8>, index: u32, out: &mut Vec<u8>) -> (r: Result<(), Error>)
    ensures
        match serialize(name@, index) {
            Some(b) => r is Ok && final(out)@ == old(out)@ + b,
            None => r == Err::<(), Error>(Error::Invalid) && final(out)@ == old(out)@,
        },
{
    let b = match pad_exec(name, 32) {
        Some(b) => b,
        None => return Err(Error::Invalid),
    };
    let ghost bv = b@;
    let fs = vec![Fld::Bytes(b), Fld::U32(index)];
    proof {
        assert(fields_view(fs@) =~= seq![FieldV::Bytes(bv), FieldV::U32(index)]);
    }
    encode_record(&fs, out);
    Ok(())
}

/// Writing a name that was read, then reading it again, gives the same name.
pub proof fn lemma_reread(s: Seq<u8>, index: u32)
    requires
        parse(s, index) is Some,
    ensures
        serialize(parse(s, index).unwrap(), index) matches Some(b) && parse(b, index) == parse(
            s,
            index,
        ),
{
    let f = decode(layout(), s);
    reveal_with_fuel(size, 3);
    crate::text::lemma_pad_unpad(wbytes(f, 0));
    crate::record::lemma_decode_conforms(layout(), s);
    assert(conforms_all(f, layout()));
    assert(wbytes(f, 0).len() == 32);
    let name = parse(s, index).unwrap();
    let pb = pad(name, 32).unwrap();
    let g = seq![FieldV::Bytes(pb), FieldV::U32(index)];
    assert(conforms_all(g, layout()));
    lemma_decode_encode(g, layout());
    lemma_encode_size(g, layout());
    reveal_with_fuel(size, 3);
    lemma_unpad_pad(name, 32);
}

/// A record that is written has the record's size.
pub proof fn lemma_written_size(name: Seq<u8>, index: u32)
    requires
        serialize(name, index) is Some,
    ensures
        serialize(name, index).unwrap().len() == SIZE,
{
    let g = seq![FieldV::Bytes(pad(name, 32).unwrap()), FieldV::U32(index)];
    assert(conforms_all(g, layout()));
    lemma_encode_size(g, layout());
    reveal_with_fuel(size, 3);
}

/// Writing the name of a record gives the record back.
pub proof fn lemma_exact(s: Seq<u8>, index: u32)
    requires
        parse(s, index) is Some,
    ensures
        serialize(parse(s, index).unwrap(), index) == Some(s),
{
    let f = decode(layout(), s);
    reveal_with_fuel(size, 3);
    lemma_decode_conforms(layout(), s);
    crate::record::lemma_encode_decode(layout(), s);
    crate::record::lemma_conforming_fields(f, layout());
    crate::text::lemma_pad_unpad(wbytes(f, 0));
    assert(seq![FieldV::Bytes(pad(parse(s, index).unwrap(), 32).unwrap()), FieldV::U32(index)] =~= f);
}

/// The name read from a record is the name in its first 32 bytes, and the
/// number after them, little-endian, is the index.
pub proof fn lemma_read_bytes(s: Seq<u8>, index: u32)
    requires
        parse(s, index) is Some,
    ensures
        unpad(s.subrange(0, 32)) == parse(s, index),
        crate::record::le32_at(s, 32) == index,
{
    reveal_with_fuel(size, 3);
    assert(layout().take(0) =~= Seq::<Kind>::empty());
    assert(layout().take(1) =~= seq![Kind::Bytes(32)]);
    crate::record::lemma_decode_field(layout(), s, 0);
    crate::record::lemma_numbers_at(layout(), s, 1);
}

/// The record written for a name holds the name in its first 32 bytes and
/// the index after them, little-endian.
pub proof fn lemma_written_bytes(name: Seq<u8>, index: u32)
    requires
        serialize(name, index) is Some,
    ensures
        unpad(serialize(name, index).unwrap().subrange(0, 32)) == Some(name),
        crate::record::le32_at(serialize(name, index).unwrap(), 32) == index,
{
    let b = pad(name, 32).unwrap();
    let g = seq![FieldV::Bytes(b), FieldV::U32(index)];
    assert(b.len() == 32);
    assert(crate::record::conforms_all(g, layout())) by {
        assert forall|k: int| 0 <= k < g.len() implies #[trigger] crate::record::conforms(
            g[k],
            layout()[k],
        ) by {}
    }
    reveal_with_fuel(size, 3);
    assert(layout().take(0) =~= Seq::<Kind>::empty());
    assert(layout().take(1) =~= seq![Kind::Bytes(32)]);
    crate::text::lemma_unpad_pad(name, 32);
    crate::record::lemma_encode_size(g, layout());
    crate::record::lemma_decode_encode(g, layout());
    crate::record::lemma_decode_field(layout(), encode(g), 0);
    crate::record::lemma_numbers_written(g, layout(), 1);
}

} // verus!
