//! `LOOP` (30): repeats part of a sequence a number of times, or for a run
//! time.
use vstd::prelude::*;
use crate::anim_def::{AnimDef, AnimDefV};
use crate::error::Error;
use crate::record::{
    conforms_all, decode, decode_record, encode, encode_record, fields_view, get_u16, get_u32,
    lemma_decode_encode, lemma_encode_size, size, w16, w32, FieldV, Fld, Kind,
};

use crate::record::{lemma_conforming_fields, lemma_encode_decode, lemma_decode_conforms};
verus! {

/// A `LOOP` event.
#[derive(Clone, Copy, Debug, PartialEq, Eq, Structural)]
pub enum Loop {
    Count(i16),
    /// An `f32` run time.
    RunTime(u32),
}

impl DeepView for Loop {
    type V = Loop;

    open spec fn deep_view(&self) -> Loop {
        *self
    }
}

/// Size of the record.
pub const SIZE: u32 = 8;

/// Flag: the loop counts.
pub const COUNT: u32 = 1;

/// Flag: the loop runs for a time.
pub const RUN_TIME: u32 = 2;

/// Fields: flags, then four bytes of value, seen as two halves: the count
/// (an `i16`) and two zero bytes, or together the run time.
pub open spec fn layout() -> Seq<Kind> {
    seq![Kind::U32, Kind::U16, Kind::U16]
}

fn layout_exec() -> (r: Vec<Kind>)
    ensures
        r@ == layout(),
        size(layout()) == SIZE,
{
    let r = vec![Kind::U32, Kind::U16, Kind::U16];
    proof {
        assert(r@ =~= layout());
        reveal_with_fuel(size, 4);
    }
    r
}

/// The `i16` of two bytes.
pub open spec fn signed(x: u16) -> i16 {
    if x < 0x8000 {
        x as i16
    } else {
        (x - 0x10000) as i16
    }
}

/// The two bytes of an `i16`.
pub open spec fn unsigned(x: i16) -> u16 {
    if x >= 0 {
        x as u16
    } else {
        (x + 0x10000) as u16
    }
}

/// The event that a record holds, if it holds one: exactly one of the two
/// flags; for a count, zero high bytes.
pub open spec fn parse(ad: AnimDefV, s: Seq<u8>) -> Option<Loop> {
    if s.len() == SIZE {
        let f = decode(layout(), s);
        if w32(f, 0) == COUNT && w16(f, 2) == 0 {
            Some(Loop::Count(signed(w16(f, 1))))
        } else if w32(f, 0) == RUN_TIME {
            Some(Loop::RunTime((w16(f, 1) + w16(f, 2) * 0x10000) as u32))
        } else {
            None
        }
    } else {
        None
    }
}

/// The fields of the record of an event.
pub open spec fn to_fields(v: Loop) -> Seq<FieldV> {
    match v {
        Loop::Count(c) => seq![FieldV::U32(COUNT), FieldV::U16(unsigned(c)), FieldV::U16(0)],
        Loop::RunTime(t) => seq![
            FieldV::U32(RUN_TIME),
            FieldV::U16((t % 0x10000) as u16),
            FieldV::U16((t / 0x10000) as u16),
        ],
    }
}

/// The record of an event.
pub open spec fn serialize(ad: AnimDefV, v: Loop) -> Option<Seq<u8>> {
    Some(encode(to_fields(v)))
}

/// Reads a `LOOP` record.
pub fn read(data: &[u8], ad: &AnimDef) -> (r: Result<Loop, Error>)
    ensures
        match parse(ad@, data@) {
            Some(v) => r == Ok::<Loop, Error>(v),
            None => r == Err::<Loop, Error>(Error::Invalid),
        },
{
    if data.len() != 8 {
        return Err(Error::Invalid);
    }
    let l = layout_exec();
    let f = decode_record(data, l.as_slice());
    let flags = get_u32(&f, 0);
    let lo = get_u16(&f, 1);
    let hi = get_u16(&f, 2);
    if flags == COUNT && hi == 0 {
        let c: i16 = if lo < 0x8000 {
            lo as i16
        } else {
            (lo as i32 - 0x10000) as i16
        };
        Ok(Loop::Count(c))
    } else if flags == RUN_TIME {
        Ok(Loop::RunTime(lo as u32 + hi as u32 * 0x10000))
    } else {
        Err(Error::Invalid)
    }
}

/// Writes a `LOOP` record.
pub fn write(v: &Loop, ad: &AnimDef, out: &mut Vec<u8>) -> (r: Result<(), Error>)
    ensures
        match serialize(ad@, v.deep_view()) {
            Some(b) => r is Ok && final(out)@ == old(out)@ + b,
            None => r == Err::<(), Error>(Error::Invalid) && final(out)@ == old(out)@,
        },
{
    let fs = match v {
        Loop::Count(c) => {
            let u: u16 = if *c >= 0 {
                *c as u16
            } else {
                (*c as i32 + 0x10000) as u16
            };
            vec![Fld::U32(COUNT), Fld::U16(u), Fld::U16(0)]
        },
        Loop::RunTime(t) => vec![
            Fld::U32(RUN_TIME),
            Fld::U16((*t % 0x10000) as u16),
            Fld::U16((*t / 0x10000) as u16),
        ],
    };
    proof {
        assert(fields_view(fs@) =~= to_fields(*v));
    }
    encode_record(&fs, out);
    Ok(())
}

/// Writing an event that was read, then reading it again, gives the same
/// event.
pub proof fn lemma_reread(ad: AnimDefV, s: Seq<u8>)
    requires
        parse(ad, s) is Some,
    ensures
        serialize(ad, parse(ad, s).unwrap()) matches Some(b) && parse(ad, b) == parse(ad, s),
{
    let g = to_fields(parse(ad, s).unwrap());
    assert(conforms_all(g, layout()));
    lemma_decode_encode(g, layout());
    lemma_encode_size(g, layout());
    reveal_with_fuel(size, 4);
}

/// A record that is written has the record's size.
pub proof fn lemma_written_size(ad: AnimDefV, v: Loop)
    requires
        serialize(ad, v) is Some,
    ensures
        serialize(ad, v).unwrap().len() == SIZE,
{
    let g = to_fields(v);
    assert(conforms_all(g, layout()));
    lemma_encode_size(g, layout());
    reveal_with_fuel(size, 4);
}

/// The record is written back exactly as read: always.
pub open spec fn exact_record(ad: AnimDefV, s: Seq<u8>) -> bool {
    true
}

/// Writing the event of a record gives the record back, where the record is
/// written back exactly.
pub proof fn lemma_exact(ad: AnimDefV, s: Seq<u8>)
    requires
        parse(ad, s) is Some,
        exact_record(ad, s),
    ensures
        serialize(ad, parse(ad, s).unwrap()) == Some(s),
{
    let f = decode(layout(), s);
    reveal_with_fuel(size, 4);
    lemma_decode_conforms(layout(), s);
    lemma_encode_decode(layout(), s);
    lemma_conforming_fields(f, layout());

    assert(to_fields(parse(ad, s).unwrap()) =~= f);
}

/// The offset of each field of the record.
proof fn lemma_offsets()
    ensures
        size(layout().take(0)) == 0,
        size(layout().take(1)) == 4,
        size(layout().take(2)) == 6,
{
    reveal_with_fuel(size, 4);
    assert(layout().take(0) =~= Seq::<Kind>::empty());
    assert(layout().take(1) =~= seq![Kind::U32]);
    assert(layout().take(2) =~= seq![Kind::U32, Kind::U16]);
}

/// An event read from a record holds the record's numbers, little-endian:
/// a count where the number at offset 0 is `COUNT`, the two-byte number at
/// offset 4 as a signed number (with zero after it); a run time where that
/// number is `RUN_TIME`, the number at offset 4.
pub proof fn lemma_read_bytes(ad: AnimDefV, s: Seq<u8>)
    requires
        parse(ad, s) is Some,
    ensures
        match parse(ad, s).unwrap() {
            Loop::Count(c) => crate::record::le32_at(s, 0) == COUNT && unsigned(c)
                == crate::record::le16_at(s, 4) && crate::record::le16_at(s, 6) == 0,
            Loop::RunTime(t) => crate::record::le32_at(s, 0) == RUN_TIME && t
                == crate::record::le16_at(s, 4) + crate::record::le16_at(s, 6) * 0x10000,
        },
{
    lemma_offsets();
    crate::record::lemma_numbers_at(layout(), s, 0);
    crate::record::lemma_numbers_at(layout(), s, 1);
    crate::record::lemma_numbers_at(layout(), s, 2);
    assert(forall|x: u16| #[trigger] unsigned(signed(x)) == x);
}

} // verus!
