//! Fixed-layout little-endian records.
//!
//! Every event payload is a C struct: a fixed sequence of fields, each an
//! unsigned integer of one, two or four bytes, or a run of raw bytes. A
//! layout lists the kinds of the fields; `decode` cuts a byte sequence into
//! fields and `encode` joins fields into bytes. The two are proved inverse,
//! once, here, so that the event modules reason about fields only.
use vstd::prelude::*;
use vstd::bytes::*;

verus! {

broadcast use vstd::seq_lib::group_seq_properties;

/// The kind of one field of a record.
#[derive(Clone, Copy, PartialEq, Eq, Debug)]
pub enum Kind {
    U8,
    U16,
    U32,
    Bytes(usize),
}

/// The value of one field, as Verus sees it.
pub enum FieldV {
    U8(u8),
    U16(u16),
    U32(u32),
    Bytes(Seq<u8>),
}

/// The value of one field.
#[derive(Debug)]
pub enum Fld {
    U8(u8),
    U16(u16),
    U32(u32),
    Bytes(Vec<u8>),
}

impl View for Fld {
    type V = FieldV;

    open spec fn view(&self) -> FieldV {
        match self {
            Fld::U8(x) => FieldV::U8(*x),
            Fld::U16(x) => FieldV::U16(*x),
            Fld::U32(x) => FieldV::U32(*x),
            Fld::Bytes(b) => FieldV::Bytes(b@),
        }
    }
}

/// The fields of a vector of field values.
pub open spec fn fields_view(fs: Seq<Fld>) -> Seq<FieldV> {
    fs.map_values(|f: Fld| f@)
}

/// Number of bytes of a field of kind `k`.
pub open spec fn width(k: Kind) -> nat {
    match k {
        Kind::U8 => 1,
        Kind::U16 => 2,
        Kind::U32 => 4,
        Kind::Bytes(n) => n as nat,
    }
}

/// The field `f` has the kind `k`.
pub open spec fn conforms(f: FieldV, k: Kind) -> bool {
    match (f, k) {
        (FieldV::U8(_), Kind::U8) => true,
        (FieldV::U16(_), Kind::U16) => true,
        (FieldV::U32(_), Kind::U32) => true,
        (FieldV::Bytes(b), Kind::Bytes(n)) => b.len() == n,
        _ => false,
    }
}

/// The fields `fs` have the kinds of `layout`, one by one.
pub open spec fn conforms_all(fs: Seq<FieldV>, layout: Seq<Kind>) -> bool {
    &&& fs.len() == layout.len()
    &&& forall|k: int| 0 <= k < fs.len() ==> conforms(#[trigger] fs[k], layout[k])
}

/// The field of kind `k` with the value that the accessors give for field
/// `i` of `fs`.
pub open spec fn field_of(k: Kind, fs: Seq<FieldV>, i: int) -> FieldV {
    match k {
        Kind::U8 => FieldV::U8(w8(fs, i)),
        Kind::U16 => FieldV::U16(w16(fs, i)),
        Kind::U32 => FieldV::U32(w32(fs, i)),
        Kind::Bytes(_) => FieldV::Bytes(wbytes(fs, i)),
    }
}

/// Fields of a layout are what the accessors give.
pub proof fn lemma_conforming_fields(fs: Seq<FieldV>, layout: Seq<Kind>)
    requires
        conforms_all(fs, layout),
    ensures
        forall|k: int| 0 <= k < fs.len() ==> #[trigger] fs[k] == field_of(layout[k], fs, k),
{
    assert forall|k: int| 0 <= k < fs.len() implies #[trigger] fs[k] == field_of(
        layout[k],
        fs,
        k,
    ) by {
        assert(conforms(fs[k], layout[k]));
    }
}

/// Number of bytes of a record of the given layout.
pub open spec fn size(layout: Seq<Kind>) -> nat
    decreases layout.len(),
{
    if layout.len() == 0 {
        0
    } else {
        size(layout.drop_last()) + width(layout.last())
    }
}

/// The size of two layouts one after the other is the sum of their sizes.
pub proof fn lemma_size_append(a: Seq<Kind>, b: Seq<Kind>)
    ensures
        size(a + b) == size(a) + size(b),
    decreases b.len(),
{
    if b.len() > 0 {
        lemma_size_append(a, b.drop_last());
        assert((a + b).drop_last() =~= a + b.drop_last());
    } else {
        assert(a + b =~= a);
    }
}

/// A layout of `n` four-byte fields has `4 * n` bytes.
pub proof fn lemma_u32_size(n: nat)
    ensures
        size(Seq::new(n, |i: int| Kind::U32)) == 4 * n,
    decreases n,
{
    if n > 0 {
        lemma_u32_size((n - 1) as nat);
        assert(Seq::new(n, |i: int| Kind::U32).drop_last() =~= Seq::new(
            (n - 1) as nat,
            |i: int| Kind::U32,
        ));
    }
}

/// In a layout of `n` four-byte fields, field `i` is one of them and starts
/// at byte `4 * i`.
pub proof fn lemma_u32_offset(n: nat, i: int)
    requires
        0 <= i < n,
    ensures
        Seq::new(n, |k: int| Kind::U32)[i] == Kind::U32,
        size(Seq::new(n, |k: int| Kind::U32).take(i)) == 4 * i,
{
    assert(Seq::new(n, |k: int| Kind::U32).take(i) =~= Seq::new(i as nat, |k: int| Kind::U32));
    lemma_u32_size(i as nat);
}

/// In a layout of a field of `m` bytes followed by `n` four-byte fields,
/// field `i` (from 1) is four-byte and starts at byte `m + 4 * (i - 1)`.
pub proof fn lemma_named_u32_offset(m: usize, n: nat, i: int)
    requires
        1 <= i <= n,
    ensures
        (seq![Kind::Bytes(m)] + Seq::new(n, |k: int| Kind::U32))[i] == Kind::U32,
        size((seq![Kind::Bytes(m)] + Seq::new(n, |k: int| Kind::U32)).take(i)) == m + 4 * (i - 1),
{
    let l = seq![Kind::Bytes(m)] + Seq::new(n, |k: int| Kind::U32);
    assert(l.take(i) =~= seq![Kind::Bytes(m)] + Seq::new((i - 1) as nat, |k: int| Kind::U32));
    lemma_size_append(seq![Kind::Bytes(m)], Seq::new((i - 1) as nat, |k: int| Kind::U32));
    lemma_u32_size((i - 1) as nat);
    assert(size(seq![Kind::Bytes(m)]) == m) by {
        reveal_with_fuel(size, 2);
    }
}

/// Little-endian decoding of one field from exactly `width(k)` bytes.
pub open spec fn decode_one(k: Kind, s: Seq<u8>) -> FieldV {
    match k {
        Kind::U8 => FieldV::U8(s[0]),
        Kind::U16 => FieldV::U16(spec_u16_from_le_bytes(s)),
        Kind::U32 => FieldV::U32(spec_u32_from_le_bytes(s)),
        Kind::Bytes(_) => FieldV::Bytes(s),
    }
}

/// Little-endian encoding of one field.
pub open spec fn encode_one(f: FieldV) -> Seq<u8> {
    match f {
        FieldV::U8(x) => seq![x],
        FieldV::U16(x) => spec_u16_to_le_bytes(x),
        FieldV::U32(x) => spec_u32_to_le_bytes(x),
        FieldV::Bytes(b) => b,
    }
}

/// The fields of the first `size(layout)` bytes of `s`.
pub open spec fn decode(layout: Seq<Kind>, s: Seq<u8>) -> Seq<FieldV>
    decreases layout.len(),
{
    if layout.len() == 0 {
        Seq::empty()
    } else {
        let n = size(layout.drop_last());
        decode(layout.drop_last(), s.take(n as int)).push(
            decode_one(layout.last(), s.subrange(n as int, (n + width(layout.last())) as int)),
        )
    }
}

/// The bytes of a sequence of fields, one after the other.
pub open spec fn encode(fs: Seq<FieldV>) -> Seq<u8>
    decreases fs.len(),
{
    if fs.len() == 0 {
        Seq::empty()
    } else {
        encode(fs.drop_last()) + encode_one(fs.last())
    }
}

/// `encode` of one field gives `width` bytes, and `decode_one` undoes it.
pub proof fn lemma_one_roundtrip(f: FieldV, k: Kind)
    requires
        conforms(f, k),
    ensures
        encode_one(f).len() == width(k),
        decode_one(k, encode_one(f)) == f,
{
    lemma_auto_spec_u16_to_from_le_bytes();
    lemma_auto_spec_u32_to_from_le_bytes();
    match f {
        FieldV::U8(x) => {},
        FieldV::U16(x) => {
            assert(spec_u16_to_le_bytes(x).len() == 2);
            assert(spec_u16_from_le_bytes(spec_u16_to_le_bytes(x)) == x);
        },
        FieldV::U32(x) => {
            assert(spec_u32_to_le_bytes(x).len() == 4);
            assert(spec_u32_from_le_bytes(spec_u32_to_le_bytes(x)) == x);
        },
        FieldV::Bytes(b) => {},
    }
}

/// `decode_one` followed by `encode_one` gives the bytes back.
pub proof fn lemma_one_bytes_roundtrip(k: Kind, s: Seq<u8>)
    requires
        s.len() == width(k),
    ensures
        encode_one(decode_one(k, s)) == s,
        conforms(decode_one(k, s), k),
{
    lemma_auto_spec_u16_to_from_le_bytes();
    lemma_auto_spec_u32_to_from_le_bytes();
    if k == Kind::U8 {
        assert(seq![s[0]] =~= s);
    }
}

/// Decoding gives one field per kind, each of its kind.
pub proof fn lemma_decode_conforms(layout: Seq<Kind>, s: Seq<u8>)
    requires
        s.len() >= size(layout),
    ensures
        conforms_all(decode(layout, s), layout),
    decreases layout.len(),
{
    if layout.len() > 0 {
        let n = size(layout.drop_last());
        lemma_decode_conforms(layout.drop_last(), s.take(n as int));
        let last = s.subrange(n as int, (n + width(layout.last())) as int);
        lemma_one_bytes_roundtrip(layout.last(), last);
        let d = decode(layout, s);
        assert forall|k: int| 0 <= k < d.len() implies #[trigger] conforms(d[k], layout[k]) by {
            if k < d.len() - 1 {
                assert(layout.drop_last()[k] == layout[k]);
            }
        }
    }
}

/// The encoding of fields of a layout has the size of the layout.
pub proof fn lemma_encode_size(fs: Seq<FieldV>, layout: Seq<Kind>)
    requires
        conforms_all(fs, layout),
    ensures
        encode(fs).len() == size(layout),
    decreases fs.len(),
{
    if fs.len() > 0 {
        assert(conforms_all(fs.drop_last(), layout.drop_last())) by {
            assert forall|k: int| 0 <= k < fs.drop_last().len() implies #[trigger] conforms(
                fs.drop_last()[k],
                layout.drop_last()[k],
            ) by {
                assert(conforms(fs[k], layout[k]));
            }
        }
        lemma_encode_size(fs.drop_last(), layout.drop_last());
        lemma_one_roundtrip(fs.last(), layout.last());
    }
}

/// Decoding undoes encoding.
pub proof fn lemma_decode_encode(fs: Seq<FieldV>, layout: Seq<Kind>)
    requires
        conforms_all(fs, layout),
    ensures
        decode(layout, encode(fs)) == fs,
    decreases fs.len(),
{
    if fs.len() > 0 {
        let init = fs.drop_last();
        let linit = layout.drop_last();
        assert(conforms_all(init, linit)) by {
            assert forall|k: int| 0 <= k < init.len() implies #[trigger] conforms(
                init[k],
                linit[k],
            ) by {
                assert(conforms(fs[k], layout[k]));
            }
        }
        lemma_decode_encode(init, linit);
        lemma_encode_size(init, linit);
        lemma_one_roundtrip(fs.last(), layout.last());
        let e = encode(fs);
        let n = size(linit);
        assert(e.take(n as int) =~= encode(init));
        assert(e.subrange(n as int, (n + width(layout.last())) as int) =~= encode_one(fs.last()));
        assert(decode(layout, e) =~= fs);
    }
}

/// The four bytes of `s` at offset `off`, read as a little-endian number.
pub open spec fn le32_at(s: Seq<u8>, off: int) -> u32 {
    spec_u32_from_le_bytes(s.subrange(off, off + 4))
}

/// The two bytes of `s` at offset `off`, read as a little-endian number.
pub open spec fn le16_at(s: Seq<u8>, off: int) -> u16 {
    spec_u16_from_le_bytes(s.subrange(off, off + 2))
}

/// Each four-byte field of a record holds the number at its offset, and so
/// does each two-byte field: the decoded fields of `s` and the encoded
/// record `b` of conforming fields `fs`.
pub proof fn lemma_numbers_at(layout: Seq<Kind>, s: Seq<u8>, i: int)
    requires
        s.len() >= size(layout),
        0 <= i < layout.len(),
    ensures
        layout[i] == Kind::U32 ==> w32(decode(layout, s), i) == le32_at(s, size(layout.take(i)) as int),
        layout[i] == Kind::U16 ==> w16(decode(layout, s), i) == le16_at(s, size(layout.take(i)) as int),
{
    lemma_decode_field(layout, s, i);
}

/// The encoded record of conforming fields holds each four- or two-byte
/// field's value at its offset.
pub proof fn lemma_numbers_written(fs: Seq<FieldV>, layout: Seq<Kind>, i: int)
    requires
        conforms_all(fs, layout),
        0 <= i < layout.len(),
    ensures
        encode(fs).len() == size(layout),
        layout[i] == Kind::U32 ==> le32_at(encode(fs), size(layout.take(i)) as int) == w32(fs, i),
        layout[i] == Kind::U16 ==> le16_at(encode(fs), size(layout.take(i)) as int) == w16(fs, i),
{
    lemma_encode_size(fs, layout);
    lemma_decode_encode(fs, layout);
    lemma_numbers_at(layout, encode(fs), i);
}

/// Field `i` of a decoded record is decoded from its own bytes: those that
/// follow the bytes of the fields before it.
pub proof fn lemma_decode_field(layout: Seq<Kind>, s: Seq<u8>, i: int)
    requires
        s.len() >= size(layout),
        0 <= i < layout.len(),
    ensures
        size(layout.take(i)) + width(layout[i]) <= s.len(),
        decode(layout, s)[i] == decode_one(
            layout[i],
            s.subrange(size(layout.take(i)) as int, (size(layout.take(i)) + width(layout[i])) as int),
        ),
    decreases layout.len(),
{
    lemma_size_prefix(layout, i);
    let n = size(layout.drop_last());
    let l = layout.drop_last();
    let t = s.take(n as int);
    lemma_decode_conforms(l, t);
    let last = decode_one(layout.last(), s.subrange(n as int, (n + width(layout.last())) as int));
    assert(decode(layout, s) == decode(l, t).push(last));
    if i == layout.len() - 1 {
        assert(layout.take(i) =~= layout.drop_last());
    } else {
        lemma_decode_field(l, t, i);
        lemma_size_prefix(l, i);
        assert(l.take(i) =~= layout.take(i));
        assert(l[i] == layout[i]);
        let off = size(layout.take(i)) as int;
        let w = width(layout[i]) as int;
        assert(t.subrange(off, off + w) =~= s.subrange(off, off + w));
    }
}

/// A four-byte field of a decoded record holds its four bytes read as a
/// little-endian number.
pub proof fn lemma_decode_u32(layout: Seq<Kind>, s: Seq<u8>, i: int)
    requires
        s.len() >= size(layout),
        0 <= i < layout.len(),
        layout[i] == Kind::U32,
    ensures
        size(layout.take(i)) + 4 <= s.len(),
        w32(decode(layout, s), i) == spec_u32_from_le_bytes(
            s.subrange(size(layout.take(i)) as int, size(layout.take(i)) + 4int),
        ),
{
    lemma_decode_field(layout, s, i);
}

/// A two-byte field of a decoded record holds its two bytes read as a
/// little-endian number.
pub proof fn lemma_decode_u16(layout: Seq<Kind>, s: Seq<u8>, i: int)
    requires
        s.len() >= size(layout),
        0 <= i < layout.len(),
        layout[i] == Kind::U16,
    ensures
        size(layout.take(i)) + 2 <= s.len(),
        w16(decode(layout, s), i) == spec_u16_from_le_bytes(
            s.subrange(size(layout.take(i)) as int, size(layout.take(i)) + 2int),
        ),
{
    lemma_decode_field(layout, s, i);
}

/// The bytes of a four-byte field in an encoded record are its value in
/// little-endian order.
pub proof fn lemma_encode_u32(fs: Seq<FieldV>, layout: Seq<Kind>, i: int)
    requires
        conforms_all(fs, layout),
        0 <= i < layout.len(),
        layout[i] == Kind::U32,
    ensures
        size(layout.take(i)) + 4 <= encode(fs).len(),
        encode(fs).subrange(size(layout.take(i)) as int, size(layout.take(i)) + 4int)
            == spec_u32_to_le_bytes(w32(fs, i)),
{
    let e = encode(fs);
    lemma_encode_size(fs, layout);
    lemma_decode_encode(fs, layout);
    lemma_decode_u32(layout, e, i);
    lemma_auto_spec_u32_to_from_le_bytes();
    let off = size(layout.take(i)) as int;
    assert(e.subrange(off, off + 4).len() == 4);
}

/// The bytes of a two-byte field in an encoded record are its value in
/// little-endian order.
pub proof fn lemma_encode_u16(fs: Seq<FieldV>, layout: Seq<Kind>, i: int)
    requires
        conforms_all(fs, layout),
        0 <= i < layout.len(),
        layout[i] == Kind::U16,
    ensures
        size(layout.take(i)) + 2 <= encode(fs).len(),
        encode(fs).subrange(size(layout.take(i)) as int, size(layout.take(i)) + 2int)
            == spec_u16_to_le_bytes(w16(fs, i)),
{
    let e = encode(fs);
    lemma_encode_size(fs, layout);
    lemma_decode_encode(fs, layout);
    lemma_decode_u16(layout, e, i);
    lemma_auto_spec_u16_to_from_le_bytes();
    let off = size(layout.take(i)) as int;
    assert(e.subrange(off, off + 2).len() == 2);
}

/// Encoding undoes decoding.
pub proof fn lemma_encode_decode(layout: Seq<Kind>, s: Seq<u8>)
    requires
        s.len() == size(layout),
    ensures
        encode(decode(layout, s)) == s,
    decreases layout.len(),
{
    if layout.len() > 0 {
        let n = size(layout.drop_last());
        let w = width(layout.last());
        lemma_encode_decode(layout.drop_last(), s.take(n as int));
        lemma_one_bytes_roundtrip(layout.last(), s.subrange(n as int, (n + w) as int));
        let d = decode(layout, s);
        assert(d.drop_last() =~= decode(layout.drop_last(), s.take(n as int)));
        assert(s =~= s.take(n as int) + s.subrange(n as int, (n + w) as int));
    }
}

/// One field value of four bytes (`0` for a field of another kind).
pub open spec fn w32(fs: Seq<FieldV>, k: int) -> u32 {
    match fs[k] {
        FieldV::U32(x) => x,
        _ => 0,
    }
}

/// One field value of two bytes (`0` for a field of another kind).
pub open spec fn w16(fs: Seq<FieldV>, k: int) -> u16 {
    match fs[k] {
        FieldV::U16(x) => x,
        _ => 0,
    }
}

/// One field value of one byte (`0` for a field of another kind).
pub open spec fn w8(fs: Seq<FieldV>, k: int) -> u8 {
    match fs[k] {
        FieldV::U8(x) => x,
        _ => 0,
    }
}

/// One field of raw bytes (empty for a field of another kind).
pub open spec fn wbytes(fs: Seq<FieldV>, k: int) -> Seq<u8> {
    match fs[k] {
        FieldV::Bytes(b) => b,
        _ => Seq::empty(),
    }
}

fn decode_field(k: Kind, s: &[u8], pos: usize) -> (r: Fld)
    requires
        pos + width(k) <= s@.len(),
    ensures
        r@ == decode_one(k, s@.subrange(pos as int, pos + width(k))),
{
    let len = s.len();
    match k {
        Kind::U8 => Fld::U8(s[pos]),
        Kind::U16 => {
            let sub = vstd::slice::slice_subrange(s, pos, pos + 2);
            Fld::U16(u16_from_le_bytes(sub))
        },
        Kind::U32 => {
            let sub = vstd::slice::slice_subrange(s, pos, pos + 4);
            Fld::U32(u32_from_le_bytes(sub))
        },
        Kind::Bytes(n) => {
            let sub = vstd::slice::slice_subrange(s, pos, pos + n);
            Fld::Bytes(vstd::slice::slice_to_vec(sub))
        },
    }
}

/// Cuts the first `size(layout)` bytes of `s` into the fields of `layout`.
pub fn decode_record(s: &[u8], layout: &[Kind]) -> (r: Vec<Fld>)
    requires
        s@.len() >= size(layout@),
    ensures
        fields_view(r@) == decode(layout@, s@),
        conforms_all(decode(layout@, s@), layout@),
        r@.len() == layout@.len(),
{
    let mut r: Vec<Fld> = Vec::new();
    let mut pos: usize = 0;
    let mut i: usize = 0;
    let slen = s.len();
    proof {
        if layout@.len() > 0 {
            lemma_size_prefix(layout@, 0);
        }
        assert(layout@.take(0) =~= Seq::<Kind>::empty());
        assert(fields_view(r@) =~= Seq::<FieldV>::empty());
    }
    while i < layout.len()
        invariant
            0 <= i <= layout@.len(),
            pos == size(layout@.take(i as int)),
            s@.len() >= size(layout@),
            slen == s@.len(),
            size(layout@.take(i as int)) + width(layout@[i as int]) <= size(layout@) || i
                == layout@.len(),
            fields_view(r@) == decode(layout@.take(i as int), s@.take(pos as int)),
            r@.len() == i,
        decreases layout@.len() - i,
    {
        proof {
            lemma_size_prefix(layout@, i as int);
        }
        let k = layout[i];
        let f = decode_field(k, s, pos);
        let ghost old_r = r@;
        r.push(f);
        let ghost l1 = layout@.take(i + 1);
        proof {
            assert(l1.drop_last() =~= layout@.take(i as int));
            assert(l1.last() == k);
            let p1 = pos + width(k);
            assert(s@.take(p1 as int).take(pos as int) =~= s@.take(pos as int));
            assert(s@.take(p1 as int).subrange(pos as int, p1 as int) =~= s@.subrange(
                pos as int,
                p1 as int,
            ));
            assert(fields_view(r@) =~= fields_view(old_r).push(f@));
        }
        pos = pos + width_exec(k);
        i = i + 1;
        proof {
            if i < layout@.len() {
                lemma_size_prefix(layout@, i as int);
            }
        }
    }
    proof {
        assert(layout@.take(i as int) =~= layout@);
        lemma_decode_prefix_bytes(layout@, s@);
        lemma_decode_conforms(layout@, s@);
    }
    r
}

/// `width`, at run time.
pub fn width_exec(k: Kind) -> (r: usize)
    ensures
        r == width(k),
{
    match k {
        Kind::U8 => 1,
        Kind::U16 => 2,
        Kind::U32 => 4,
        Kind::Bytes(n) => n,
    }
}

/// The size of a prefix of a layout, and of the field that follows it, are
/// within the size of the whole layout.
pub proof fn lemma_size_prefix(layout: Seq<Kind>, i: int)
    requires
        0 <= i < layout.len(),
    ensures
        size(layout.take(i)) + width(layout[i]) <= size(layout),
        size(layout.take(i + 1)) == size(layout.take(i)) + width(layout[i]),
    decreases layout.len(),
{
    assert(layout.take(i + 1).drop_last() =~= layout.take(i));
    if i + 1 < layout.len() {
        lemma_size_prefix(layout.drop_last(), i);
        assert(layout.drop_last().take(i) =~= layout.take(i));
        assert(layout.drop_last().take(i + 1) =~= layout.take(i + 1));
        assert(layout.drop_last()[i] == layout[i]);
    } else {
        assert(layout.take(i + 1) =~= layout);
    }
}

/// Decoding reads only the first `size(layout)` bytes.
pub proof fn lemma_decode_prefix_bytes(layout: Seq<Kind>, s: Seq<u8>)
    requires
        s.len() >= size(layout),
    ensures
        decode(layout, s.take(size(layout) as int)) == decode(layout, s),
    decreases layout.len(),
{
    if layout.len() > 0 {
        let n = size(layout.drop_last());
        let t = s.take(size(layout) as int);
        assert(t.take(n as int) =~= s.take(n as int));
        assert(t.subrange(n as int, (n + width(layout.last())) as int) =~= s.subrange(
            n as int,
            (n + width(layout.last())) as int,
        ));
    }
}

fn encode_field(f: &Fld, out: &mut Vec<u8>)
    ensures
        final(out)@ == old(out)@ + encode_one(f@),
{
    match f {
        Fld::U8(x) => {
            out.push(*x);
            proof {
                assert(final(out)@ =~= old(out)@ + seq![*x]);
            }
        },
        Fld::U16(x) => {
            let b = u16_to_le_bytes(*x);
            let ghost o = out@;
            out.push(b[0]);
            out.push(b[1]);
            proof {
                assert(out@ =~= o + b@);
            }
        },
        Fld::U32(x) => {
            let b = u32_to_le_bytes(*x);
            let ghost o = out@;
            out.push(b[0]);
            out.push(b[1]);
            out.push(b[2]);
            out.push(b[3]);
            proof {
                assert(out@ =~= o + b@);
            }
        },
        Fld::Bytes(b) => {
            append_bytes(out, b);
        },
    }
}

/// Appends bytes to `out`.
pub fn append_bytes(out: &mut Vec<u8>, b: &Vec<u8>)
    ensures
        final(out)@ == old(out)@ + b@,
{
    let ghost o = out@;
    let mut i: usize = 0;
    while i < b.len()
        invariant
            0 <= i <= b@.len(),
            out@ == o + b@.take(i as int),
        decreases b@.len() - i,
    {
        out.push(b[i]);
        i = i + 1;
        proof {
            assert(out@ =~= o + b@.take(i as int));
        }
    }
    proof {
        assert(b@.take(i as int) =~= b@);
    }
}

/// Appends the encoding of the fields to `out`.
pub fn encode_record(fs: &Vec<Fld>, out: &mut Vec<u8>)
    ensures
        final(out)@ == old(out)@ + encode(fields_view(fs@)),
{
    let ghost o = out@;
    let mut i: usize = 0;
    proof {
        assert(fields_view(fs@.take(0)) =~= Seq::<FieldV>::empty());
        assert(out@ =~= o + encode(fields_view(fs@.take(0))));
    }
    while i < fs.len()
        invariant
            0 <= i <= fs@.len(),
            out@ == o + encode(fields_view(fs@.take(i as int))),
        decreases fs@.len() - i,
    {
        encode_field(&fs[i], out);
        proof {
            let v1 = fields_view(fs@.take(i + 1));
            assert(v1.drop_last() =~= fields_view(fs@.take(i as int)));
            assert(v1.last() == fs@[i as int]@);
        }
        i = i + 1;
    }
    proof {
        assert(fs@.take(i as int) =~= fs@);
    }
}

/// The four-byte field `k` of decoded fields.
pub fn get_u32(fs: &Vec<Fld>, k: usize) -> (r: u32)
    requires
        k < fs@.len(),
        fields_view(fs@)[k as int] is U32,
    ensures
        r == w32(fields_view(fs@), k as int),
{
    match &fs[k] {
        Fld::U32(x) => *x,
        _ => 0,
    }
}

/// The two-byte field `k` of decoded fields.
pub fn get_u16(fs: &Vec<Fld>, k: usize) -> (r: u16)
    requires
        k < fs@.len(),
        fields_view(fs@)[k as int] is U16,
    ensures
        r == w16(fields_view(fs@), k as int),
{
    match &fs[k] {
        Fld::U16(x) => *x,
        _ => 0,
    }
}

/// The one-byte field `k` of decoded fields.
pub fn get_u8(fs: &Vec<Fld>, k: usize) -> (r: u8)
    requires
        k < fs@.len(),
        fields_view(fs@)[k as int] is U8,
    ensures
        r == w8(fields_view(fs@), k as int),
{
    match &fs[k] {
        Fld::U8(x) => *x,
        _ => 0,
    }
}

/// The byte field `k` of decoded fields.
pub fn get_bytes(fs: &Vec<Fld>, k: usize) -> (r: &Vec<u8>)
    requires
        k < fs@.len(),
        fields_view(fs@)[k as int] is Bytes,
    ensures
        r@ == wbytes(fields_view(fs@), k as int),
{
    match &fs[k] {
        Fld::Bytes(b) => b,
        _ => vstd::pervasive::unreached(),
    }
}

} // verus!
