//! `ANIM_VERBOSE` (39): turns verbose output of the animation on or off.
use vstd::prelude::*;
use crate::anim_def::{AnimDef, AnimDefV};
use crate::error::Error;
use crate::model::{bool32_exec, bool_int, bool_of};
use crate::record::{
    conforms, conforms_all, decode, decode_record, encode, encode_record, fields_view, get_u32,
    lemma_decode_encode, lemma_encode_size, size, w32, FieldV, Fld, Kind,
};

use crate::record::{lemma_conforming_fields, lemma_encode_decode, lemma_decode_conforms};
verus! {

/// An `ANIM_VERBOSE` event.
#[derive(Clone, Copy, Debug, PartialEq, Eq, Structural)]
pub struct AnimVerbose {
    pub on: bool,
}

impl DeepView for AnimVerbose {
    type V = AnimVerbose;

    open spec fn deep_view(&self) -> AnimVerbose {
        *self
    }
}

/// Size of the record.
pub const SIZE: u32 = 4;

/// Fields: whether verbose output is on.
pub open spec fn layout() -> Seq<Kind> {
    seq![Kind::U32]
}

/// The event that a record holds, if it holds one: a stored boolean.
pub open spec fn parse(ad: AnimDefV, s: Seq<u8>) -> Option<AnimVerbose> {
    if s.len() == SIZE {
        match bool_of(w32(decode(layout(), s), 0) as int) {
            Some(on) => Some(AnimVerbose { on }),
            None => None,
        }
    } else {
        None
    }
}

/// The record of an event.
pub open spec fn serialize(ad: AnimDefV, v: AnimVerbose) -> Option<Seq<u8>> {
    Some(encode(seq![FieldV::U32(bool_int(v.on) as u32)]))
}

/// Reads an `ANIM_VERBOSE` record.
pub fn read(data: &[u8], ad: &AnimDef) -> (r: Result<AnimVerbose, Error>)
    ensures
        match parse(ad@, data@) {
            Some(v) => r == Ok::<AnimVerbose, Error>(v),
            None => r == Err::<AnimVerbose, Error>(Error::Invalid),
        },
{
    if data.len() != 4 {
        return Err(Error::Invalid);
    }
    let l = vec![Kind::U32];
    proof {
        assert(l@ =~= layout());
        reveal_with_fuel(size, 2);
    }
    let f = decode_record(data, l.as_slice());
    assert(conforms(fields_view(f@)[0], layout()[0]));
    match bool32_exec(get_u32(&f, 0)) {
        Some(on) => Ok(AnimVerbose { on }),
        None => Err(Error::Invalid),
    }
}

/// Writes an `ANIM_VERBOSE` record.
pub fn write(v: &AnimVerbose, ad: &AnimDef, out: &mut Vec<u8>) -> (r: Result<(), Error>)
    ensures
        match serialize(ad@, v.deep_view()) {
            Some(b) => r is Ok && final(out)@ == old(out)@ + b,
            None => r == Err::<(), Error>(Error::Invalid) && final(out)@ == old(out)@,
        },
{
    let x: u32 = if v.on {
        1
    } else {
        0
    };
    let fs = vec![Fld::U32(x)];
    proof {
        assert(fields_view(fs@) =~= seq![FieldV::U32(bool_int(v.on) as u32)]);
    }
    encode_record(&fs, out);
    Ok(())
}

/// Writing an event that was read, then reading it again, gives the same
/// event.
pub proof fn lemma_reread(ad: AnimDefV, s: Seq<u8>)
    requires
        parse(ad, s) is Some,
    ensures
        serialize(ad, parse(ad, s).unwrap()) matches Some(b) && parse(ad, b) == parse(ad, s),
{
    let g = seq![FieldV::U32(bool_int(parse(ad, s).unwrap().on) as u32)];
    assert(conforms_all(g, layout()));
    lemma_decode_encode(g, layout());
    lemma_encode_size(g, layout());
    reveal_with_fuel(size, 2);
}

/// A record that is written has the record's size.
pub proof fn lemma_written_size(ad: AnimDefV, v: AnimVerbose)
    requires
        serialize(ad, v) is Some,
    ensures
        serialize(ad, v).unwrap().len() == SIZE,
{
    let g = seq![FieldV::U32(bool_int(v.on) as u32)];
    assert(conforms_all(g, layout()));
    lemma_encode_size(g, layout());
    reveal_with_fuel(size, 2);
}

/// The record is written back exactly as read: always.
pub open spec fn exact_record(ad: AnimDefV, s: Seq<u8>) -> bool {
    true
}

/// Writing the event of a record gives the record back, where the record is
/// written back exactly.
pub proof fn lemma_exact(ad: AnimDefV, s: Seq<u8>)
    requires
        parse(ad, s) is Some,
        exact_record(ad, s),
    ensures
        serialize(ad, parse(ad, s).unwrap()) == Some(s),
{
    let f = decode(layout(), s);
    reveal_with_fuel(size, 2);
    lemma_decode_conforms(layout(), s);
    lemma_encode_decode(layout(), s);
    lemma_conforming_fields(f, layout());

    assert(seq![FieldV::U32(bool_int(parse(ad, s).unwrap().on) as u32)] =~= f);
}

/// Whether verbose output is on in an event read from a record is given by
/// the record's four bytes, read as a little-endian number: on where they
/// hold `1`, off where they hold `0` (a record holding any other number is
/// not read).
pub proof fn lemma_on_read(ad: AnimDefV, s: Seq<u8>)
    requires
        parse(ad, s) is Some,
    ensures
        vstd::bytes::spec_u32_from_le_bytes(s.subrange(0, 4)) == (if parse(ad, s).unwrap().on {
            1u32
        } else {
            0u32
        }),
{
    reveal_with_fuel(size, 2);
    assert(layout().take(0) =~= Seq::<Kind>::empty());
    crate::record::lemma_decode_u32(layout(), s, 0);
}

/// The record written for an event holds whether verbose output is on,
/// little-endian: `1` for on, `0` for off.
pub proof fn lemma_on_written(ad: AnimDefV, v: AnimVerbose)
    ensures
        serialize(ad, v).unwrap() == vstd::bytes::spec_u32_to_le_bytes(
            if v.on {
                1u32
            } else {
                0u32
            },
        ),
{
    let g = seq![FieldV::U32(bool_int(v.on) as u32)];
    assert(conforms_all(g, layout())) by {
        assert(conforms(g[0], layout()[0]));
    }
    reveal_with_fuel(size, 2);
    assert(layout().take(0) =~= Seq::<Kind>::empty());
    crate::record::lemma_encode_u32(g, layout(), 0);
    lemma_encode_size(g, layout());
    assert(encode(g).subrange(0, 4) =~= encode(g));
}

} // verus!
