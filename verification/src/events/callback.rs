//! `CALLBACK` (35): calls back into the game with a value; only animations
//! that declare callbacks may hold it.
use vstd::prelude::*;
use crate::anim_def::{AnimDef, AnimDefV};
use crate::error::Error;
use crate::record::{
    conforms_all, decode, decode_record, encode, encode_record, fields_view, get_u32,
    lemma_decode_encode, lemma_encode_size, size, w32, FieldV, Fld, Kind,
};

use crate::record::{lemma_conforming_fields, lemma_encode_decode, lemma_decode_conforms};
verus! {

/// A `CALLBACK` event.
#[derive(Debug)]
pub struct Callback {
    pub value: u32,
}

impl DeepView for Callback {
    type V = Callback;

    open spec fn deep_view(&self) -> Callback {
        Callback { value: self.value }
    }
}

/// Size of the record.
pub const SIZE: u32 = 4;

/// Fields: the value.
pub open spec fn layout() -> Seq<Kind> {
    seq![Kind::U32]
}

fn layout_exec() -> (r: Vec<Kind>)
    ensures
        r@ == layout(),
        size(layout()) == SIZE,
{
    let r = vec![Kind::U32];
    proof {
        assert(r@ =~= layout());
        reveal_with_fuel(size, 2);
    }
    r
}

/// The event that a record holds, if it holds one.
pub open spec fn parse(ad: AnimDefV, s: Seq<u8>) -> Option<Callback> {
    if s.len() == SIZE && ad.has_callbacks {
        Some(Callback { value: w32(decode(layout(), s), 0) })
    } else {
        None
    }
}

/// The record of an event.
pub open spec fn serialize(ad: AnimDefV, v: Callback) -> Option<Seq<u8>> {
    Some(encode(seq![FieldV::U32(v.value)]))
}

/// Reads a `CALLBACK` record.
pub fn read(data: &[u8], ad: &AnimDef) -> (r: Result<Callback, Error>)
    ensures
        match parse(ad@, data@) {
            Some(v) => r == Ok::<Callback, Error>(v),
            None => r == Err::<Callback, Error>(Error::Invalid),
        },
{
    if data.len() != 4 || !ad.has_callbacks {
        return Err(Error::Invalid);
    }
    let l = layout_exec();
    let f = decode_record(data, l.as_slice());
    Ok(Callback { value: get_u32(&f, 0) })
}

/// Writes a `CALLBACK` record.
pub fn write(v: &Callback, ad: &AnimDef, out: &mut Vec<u8>) -> (r: Result<(), Error>)
    ensures
        match serialize(ad@, v.deep_view()) {
            Some(b) => r is Ok && final(out)@ == old(out)@ + b,
            None => r == Err::<(), Error>(Error::Invalid) && final(out)@ == old(out)@,
        },
{
    let fs = vec![Fld::U32(v.value)];
    proof {
        assert(fields_view(fs@) =~= seq![FieldV::U32(v.value)]);
    }
    encode_record(&fs, out);
    Ok(())
}

/// Writing an event that was read, then reading it again, gives the same
/// event.
pub proof fn lemma_reread(ad: AnimDefV, s: Seq<u8>)
    requires
        parse(ad, s) is Some,
    ensures
        serialize(ad, parse(ad, s).unwrap()) matches Some(b) && parse(ad, b) == parse(ad, s),
{
    let g = seq![FieldV::U32(parse(ad, s).unwrap().value)];
    assert(conforms_all(g, layout()));
    lemma_decode_encode(g, layout());
    lemma_encode_size(g, layout());
    reveal_with_fuel(size, 2);
}

/// A record that is written has the record's size.
pub proof fn lemma_written_size(ad: AnimDefV, v: Callback)
    requires
        serialize(ad, v) is Some,
    ensures
        serialize(ad, v).unwrap().len() == SIZE,
{
    let g = seq![FieldV::U32(v.value)];
    assert(conforms_all(g, layout()));
    lemma_encode_size(g, layout());
    reveal_with_fuel(size, 2);
}

/// The record is written back exactly as read: always.
pub open spec fn exact_record(ad: AnimDefV, s: Seq<u8>) -> bool {
    true
}

/// Writing the event of a record gives the record back, where the record is
/// written back exactly.
pub proof fn lemma_exact(ad: AnimDefV, s: Seq<u8>)
    requires
        parse(ad, s) is Some,
        exact_record(ad, s),
    ensures
        serialize(ad, parse(ad, s).unwrap()) == Some(s),
{
    let f = decode(layout(), s);
    reveal_with_fuel(size, 2);
    lemma_decode_conforms(layout(), s);
    lemma_encode_decode(layout(), s);
    lemma_conforming_fields(f, layout());

    assert(seq![FieldV::U32(parse(ad, s).unwrap().value)] =~= f);
}

/// The value of an event read from a record is the record's number,
/// little-endian.
pub proof fn lemma_read_bytes(ad: AnimDefV, s: Seq<u8>)
    requires
        parse(ad, s) is Some,
    ensures
        parse(ad, s).unwrap().value == crate::record::le32_at(s, 0),
{
    reveal_with_fuel(size, 2);
    assert(layout().take(0) =~= Seq::<Kind>::empty());
    crate::record::lemma_numbers_at(layout(), s, 0);
}

/// The record written for an event is its value, little-endian.
pub proof fn lemma_written_bytes(ad: AnimDefV, v: Callback)
    ensures
        serialize(ad, v).unwrap() == vstd::bytes::spec_u32_to_le_bytes(v.value),
{
    let g = seq![FieldV::U32(v.value)];
    assert(conforms_all(g, layout())) by {
        assert(crate::record::conforms(g[0], layout()[0]));
    }
    reveal_with_fuel(size, 2);
    assert(layout().take(0) =~= Seq::<Kind>::empty());
    crate::record::lemma_encode_u32(g, layout(), 0);
    lemma_encode_size(g, layout());
    assert(encode(g).subrange(0, 4) =~= encode(g));
}

} // verus!
