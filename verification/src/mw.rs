//! The event stream of a MechWarrior 3 animation sequence: a run of events,
//! each a 12-byte header followed by the record of its type.
//!
//! The header holds the event type, where the event's start time is
//! counted from, two bytes of padding, the size of header and record
//! together, and the start time. An event that starts at the beginning of
//! the animation has no start.
use vstd::prelude::*;
use crate::anim_def::{distinct_names, AnimDef, AnimDefV};
use crate::error::Error;
use crate::events::{
    data_size, event_type, exact_data, lemma_exact_data, lemma_reread_data, lemma_written_size_data,
    parse_data, read_event, serialize_data, size_event, type_of, write_event, EventData,
    EventDataV,
};
use crate::float;
use crate::record::{
    append_bytes, conforms_all, decode, decode_record, encode, encode_record, fields_view, get_u16,
    get_u32, get_u8, lemma_decode_encode, lemma_decode_prefix_bytes, lemma_encode_size, size, w16,
    w32, w8, FieldV, Fld, Kind,
};
use vstd::slice::slice_subrange;

verus! {

broadcast use vstd::seq_lib::group_seq_properties;

/// What an event's start time is counted from.
#[derive(Clone, Copy, Debug, PartialEq, Eq, Structural)]
pub enum StartOffset {
    Animation,
    Sequence,
    Event,
}

/// When an event starts: an offset and a time (`f32` bits) after it.
#[derive(Clone, Copy, Debug, PartialEq, Eq, Structural)]
pub struct EventStart {
    pub offset: StartOffset,
    pub time: u32,
}

/// An event of a sequence.
#[derive(Debug)]
pub struct Event {
    pub start: Option<EventStart>,
    pub data: EventData,
}

/// An event of a sequence, as Verus sees it.
pub struct EventV {
    pub start: Option<EventStart>,
    pub data: EventDataV,
}

impl DeepView for Event {
    type V = EventV;

    open spec fn deep_view(&self) -> EventV {
        EventV { start: self.start, data: self.data.deep_view() }
    }
}

/// Size of an event header.
pub const HEADER_SIZE: u32 = 12;

/// Fields of the header: type, start offset, padding, size, start time.
pub open spec fn header_layout() -> Seq<Kind> {
    seq![Kind::U8, Kind::U8, Kind::U16, Kind::U32, Kind::U32]
}

fn header_layout_exec() -> (r: Vec<Kind>)
    ensures
        r@ == header_layout(),
        size(header_layout()) == HEADER_SIZE,
{
    let r = vec![Kind::U8, Kind::U8, Kind::U16, Kind::U32, Kind::U32];
    proof {
        assert(r@ =~= header_layout());
        reveal_with_fuel(size, 6);
    }
    r
}

/// The start offset that a byte stands for.
pub open spec fn offset_of(b: u8) -> Option<StartOffset> {
    if b == 1 {
        Some(StartOffset::Animation)
    } else if b == 2 {
        Some(StartOffset::Sequence)
    } else if b == 3 {
        Some(StartOffset::Event)
    } else {
        None
    }
}

/// The byte of a start offset.
pub open spec fn offset_byte(o: StartOffset) -> u8 {
    match o {
        StartOffset::Animation => 1,
        StartOffset::Sequence => 2,
        StartOffset::Event => 3,
    }
}

/// A start that a header can give: none, or one that is not at time zero
/// of the animation (that one is written, and read, as no start).
pub open spec fn start_ok(start: Option<EventStart>) -> bool {
    match start {
        None => true,
        Some(st) => !(st.offset == StartOffset::Animation && float::is_zero(st.time)),
    }
}

/// The type, start and record size that the header at the front of `s`
/// gives, if it is valid.
pub open spec fn parse_header(s: Seq<u8>) -> Option<(u8, Option<EventStart>, u32)> {
    if s.len() < HEADER_SIZE {
        None
    } else {
        let f = decode(header_layout(), s);
        match offset_of(w8(f, 1)) {
            None => None,
            Some(o) => if w16(f, 2) != 0 || w32(f, 3) < HEADER_SIZE {
                None
            } else {
                let t = w32(f, 4);
                let start = if o == StartOffset::Animation && float::is_zero(t) {
                    None
                } else {
                    Some(EventStart { offset: o, time: t })
                };
                Some((w8(f, 0), start, (w32(f, 3) - HEADER_SIZE) as u32))
            },
        }
    }
}

/// The fields of a header.
pub open spec fn header_fields(ty: u8, start: Option<EventStart>, total: u32) -> Seq<FieldV> {
    let o: u8 = match start {
        None => 1,
        Some(st) => offset_byte(st.offset),
    };
    let t: u32 = match start {
        None => 0,
        Some(st) => st.time,
    };
    seq![FieldV::U8(ty), FieldV::U8(o), FieldV::U16(0), FieldV::U32(total), FieldV::U32(t)]
}

/// The events that a stream holds, if it is valid: headers and records
/// one after the other up to its last byte.
pub open spec fn parse_events(ad: AnimDefV, s: Seq<u8>) -> Option<Seq<EventV>>
    decreases s.len(),
{
    if s.len() == 0 {
        Some(Seq::empty())
    } else {
        match parse_header(s) {
            None => None,
            Some(h) => {
                let end = HEADER_SIZE + h.2;
                if end > s.len() {
                    None
                } else {
                    match parse_data(ad, h.0, s.subrange(HEADER_SIZE as int, end)) {
                        None => None,
                        Some(d) => match parse_events(ad, s.subrange(end, s.len() as int)) {
                            None => None,
                            Some(rest) => Some(seq![EventV { start: h.1, data: d }] + rest),
                        },
                    }
                }
            },
        }
    }
}

/// The stream of a run of events, or why it cannot be written: a record
/// too large for its header (`Overflow`) or an event that cannot be
/// written (`Invalid`).
pub open spec fn serialize_events(ad: AnimDefV, evs: Seq<EventV>) -> Result<
    Seq<u8>,
    Error,
>
    decreases evs.len(),
{
    if evs.len() == 0 {
        Ok(Seq::empty())
    } else {
        let e = evs[0];
        if data_size(e.data) + HEADER_SIZE > u32::MAX {
            Err(Error::Overflow)
        } else {
            match serialize_data(ad, e.data) {
                None => Err(Error::Invalid),
                Some(b) => match serialize_events(ad, evs.drop_first()) {
                    Err(x) => Err(x),
                    Ok(rest) => Ok(
                        encode(
                            header_fields(
                                type_of(e.data),
                                e.start,
                                (data_size(e.data) + HEADER_SIZE) as u32,
                            ),
                        ) + b + rest,
                    ),
                },
            }
        }
    }
}

/// Size of the stream of a run of events: a header and a record each.
pub open spec fn total_size(evs: Seq<EventV>) -> int
    decreases evs.len(),
{
    if evs.len() == 0 {
        0
    } else {
        total_size(evs.drop_last()) + HEADER_SIZE + data_size(evs.last().data)
    }
}

fn read_header(data: &[u8]) -> (r: Result<(u8, Option<EventStart>, u32), Error>)
    requires
        data@.len() >= HEADER_SIZE,
    ensures
        match parse_header(data@) {
            Some(h) => r == Ok::<(u8, Option<EventStart>, u32), Error>(h),
            None => r == Err::<(u8, Option<EventStart>, u32), Error>(Error::Invalid),
        },
{
    let l = header_layout_exec();
    let f = decode_record(data, l.as_slice());
    let ty = get_u8(&f, 0);
    let ob = get_u8(&f, 1);
    let pad = get_u16(&f, 2);
    let total = get_u32(&f, 3);
    let t = get_u32(&f, 4);
    let o = if ob == 1 {
        StartOffset::Animation
    } else if ob == 2 {
        StartOffset::Sequence
    } else if ob == 3 {
        StartOffset::Event
    } else {
        return Err(Error::Invalid);
    };
    if pad != 0 || total < HEADER_SIZE {
        return Err(Error::Invalid);
    }
    let start = if o == StartOffset::Animation && float::f32_is_zero(t) {
        None
    } else {
        Some(EventStart { offset: o, time: t })
    };
    Ok((ty, start, total - HEADER_SIZE))
}

/// `parse_events` takes one event off the front of a stream.
proof fn lemma_parse_step(ad: AnimDefV, s: Seq<u8>, pos: int)
    requires
        0 <= pos < s.len(),
    ensures
        parse_events(ad, s.subrange(pos, s.len() as int)) == (match parse_header(
            s.subrange(pos, s.len() as int),
        ) {
            None => None,
            Some(h) => {
                let end = pos + HEADER_SIZE + h.2;
                if end > s.len() {
                    None
                } else {
                    match parse_data(ad, h.0, s.subrange(pos + HEADER_SIZE, end)) {
                        None => None,
                        Some(d) => match parse_events(ad, s.subrange(end, s.len() as int)) {
                            None => None,
                            Some(rest) => Some(seq![EventV { start: h.1, data: d }] + rest),
                        },
                    }
                }
            },
        }),
{
    let t = s.subrange(pos, s.len() as int);
    if let Some(h) = parse_header(t) {
        let end = HEADER_SIZE + h.2;
        if end <= t.len() {
            assert(t.subrange(HEADER_SIZE as int, end) =~= s.subrange(
                pos + HEADER_SIZE,
                pos + end,
            ));
            assert(t.subrange(end, t.len() as int) =~= s.subrange(pos + end, s.len() as int));
        }
    }
}

/// Reads the events of a stream.
pub fn read_events(data: &[u8], ad: &AnimDef) -> (r: Result<Vec<Event>, Error>)
    ensures
        match parse_events(ad@, data@) {
            Some(evs) => r matches Ok(x) && x.deep_view() == evs,
            None => r == Err::<Vec<Event>, Error>(Error::Invalid),
        },
{
    let mut events: Vec<Event> = Vec::new();
    let mut pos: usize = 0;
    let len = data.len();
    proof {
        assert(data@.subrange(0, len as int) =~= data@);
        assert(events.deep_view() + parse_events(ad@, data@).unwrap_or(Seq::empty()) =~= parse_events(
            ad@,
            data@,
        ).unwrap_or(Seq::empty()));
    }
    while pos < len
        invariant
            len == data@.len(),
            pos <= len,
            parse_events(ad@, data@) == (match parse_events(
                ad@,
                data@.subrange(pos as int, len as int),
            ) {
                Some(rest) => Some(events.deep_view() + rest),
                None => None,
            }),
        decreases len - pos,
    {
        proof {
            lemma_parse_step(ad@, data@, pos as int);
        }
        if len - pos < 12 {
            return Err(Error::Invalid);
        }
        let rest = slice_subrange(data, pos, len);
        let (ty, start, n) = read_header(rest)?;
        if n as usize > len - pos - 12 {
            return Err(Error::Invalid);
        }
        let end = pos + 12 + n as usize;
        let body = slice_subrange(data, pos + 12, end);
        let d = read_event(ty, body, ad)?;
        let ghost before = events.deep_view();
        events.push(Event { start, data: d });
        proof {
            assert(events.deep_view() =~= before + seq![EventV { start, data: d.deep_view() }]);
            let tail = parse_events(ad@, data@.subrange(end as int, len as int));
            if let Some(t) = tail {
                assert(before + (seq![EventV { start, data: d.deep_view() }] + t) =~= events.deep_view()
                    + t);
            }
        }
        pos = end;
    }
    proof {
        assert(data@.subrange(pos as int, len as int) =~= Seq::<u8>::empty());
        assert(events.deep_view() + Seq::<EventV>::empty() =~= events.deep_view());
    }
    Ok(events)
}

/// `serialize_events` writes the first event of a run, then the rest.
proof fn lemma_serialize_step(ad: AnimDefV, evs: Seq<EventV>, i: int)
    requires
        0 <= i < evs.len(),
    ensures
        serialize_events(ad, evs.subrange(i, evs.len() as int)) == ({
            let e = evs[i];
            if data_size(e.data) + HEADER_SIZE > u32::MAX {
                Err(Error::Overflow)
            } else {
                match serialize_data(ad, e.data) {
                    None => Err(Error::Invalid),
                    Some(b) => match serialize_events(ad, evs.subrange(i + 1, evs.len() as int)) {
                        Err(x) => Err(x),
                        Ok(rest) => Ok(
                            encode(
                                header_fields(
                                    type_of(e.data),
                                    e.start,
                                    (data_size(e.data) + HEADER_SIZE) as u32,
                                ),
                            ) + b + rest,
                        ),
                    },
                }
            }
        }),
{
    let t = evs.subrange(i, evs.len() as int);
    assert(t.drop_first() =~= evs.subrange(i + 1, evs.len() as int));
    assert(t[0] == evs[i]);
}

fn header_fields_exec(ty: u8, start: Option<EventStart>, total: u32) -> (r: Vec<Fld>)
    ensures
        fields_view(r@) == header_fields(ty, start, total),
{
    let (o, t): (u8, u32) = match start {
        None => (1, 0),
        Some(st) => (
            match st.offset {
                StartOffset::Animation => 1,
                StartOffset::Sequence => 2,
                StartOffset::Event => 3,
            },
            st.time,
        ),
    };
    let r = vec![Fld::U8(ty), Fld::U8(o), Fld::U16(0), Fld::U32(total), Fld::U32(t)];
    proof {
        assert(fields_view(r@) =~= header_fields(ty, start, total));
    }
    r
}

/// The bytes that writing a run of events puts out, whether or not it
/// succeeds: each event's header and record in turn. Writing stops at the
/// first event that cannot be written: before its header where its record
/// is too large for the header, after its header where the record itself
/// cannot be written.
pub open spec fn written_events(ad: AnimDefV, evs: Seq<EventV>) -> Seq<u8>
    decreases evs.len(),
{
    if evs.len() == 0 {
        Seq::empty()
    } else {
        let e = evs[0];
        if data_size(e.data) + HEADER_SIZE > u32::MAX {
            Seq::empty()
        } else {
            let h = encode(
                header_fields(type_of(e.data), e.start, (data_size(e.data) + HEADER_SIZE) as u32),
            );
            match serialize_data(ad, e.data) {
                None => h,
                Some(b) => h + b + written_events(ad, evs.drop_first()),
            }
        }
    }
}

/// `written_events` writes the first event of a run, then the rest.
proof fn lemma_written_step(ad: AnimDefV, evs: Seq<EventV>, i: int)
    requires
        0 <= i < evs.len(),
    ensures
        written_events(ad, evs.subrange(i, evs.len() as int)) == ({
            let e = evs[i];
            if data_size(e.data) + HEADER_SIZE > u32::MAX {
                Seq::empty()
            } else {
                let h = encode(
                    header_fields(
                        type_of(e.data),
                        e.start,
                        (data_size(e.data) + HEADER_SIZE) as u32,
                    ),
                );
                match serialize_data(ad, e.data) {
                    None => h,
                    Some(b) => h + b + written_events(ad, evs.subrange(i + 1, evs.len() as int)),
                }
            }
        }),
{
    let t = evs.subrange(i, evs.len() as int);
    assert(t.drop_first() =~= evs.subrange(i + 1, evs.len() as int));
    assert(t[0] == evs[i]);
}

/// A run of events that is written whole puts out its stream.
pub proof fn lemma_written_whole(ad: AnimDefV, evs: Seq<EventV>)
    ensures
        serialize_events(ad, evs) matches Ok(b) ==> written_events(ad, evs) == b,
    decreases evs.len(),
{
    if evs.len() > 0 {
        lemma_written_whole(ad, evs.drop_first());
    }
}

/// Writes the events of a stream, one after the other: each event's header,
/// then its record. Where an event cannot be written, the events before it
/// stay written (and its header too, where only its record fails), and the
/// error is returned.
pub fn write_events(ad: &AnimDef, events: &Vec<Event>, out: &mut Vec<u8>) -> (r: Result<
    (),
    Error,
>)
    ensures
        final(out)@ == old(out)@ + written_events(ad@, events.deep_view()),
        match serialize_events(ad@, events.deep_view()) {
            Ok(b) => r is Ok && final(out)@ == old(out)@ + b,
            Err(e) => r == Err::<(), Error>(e),
        },
{
    let ghost evs = events.deep_view();
    let ghost o = out@;
    let ghost mut w: Seq<u8> = Seq::empty();
    let mut i: usize = 0;
    proof {
        assert(evs.subrange(0, evs.len() as int) =~= evs);
        assert(w + written_events(ad@, evs) =~= written_events(ad@, evs));
        match serialize_events(ad@, evs) {
            Ok(b) => assert(w + b =~= b),
            Err(_) => {},
        }
        lemma_written_whole(ad@, evs);
    }
    while i < events.len()
        invariant
            evs == events.deep_view(),
            0 <= i <= events.len(),
            o == old(out)@,
            out@ == o + w,
            written_events(ad@, evs) == w + written_events(
                ad@,
                evs.subrange(i as int, evs.len() as int),
            ),
            serialize_events(ad@, evs) == (match serialize_events(
                ad@,
                evs.subrange(i as int, evs.len() as int),
            ) {
                Ok(rest) => Ok(w + rest),
                Err(e) => Err(e),
            }),
        decreases events.len() - i,
    {
        proof {
            lemma_serialize_step(ad@, evs, i as int);
            lemma_written_step(ad@, evs, i as int);
        }
        let e = &events[i];
        assert(e.deep_view() == evs[i as int]);
        let sz = match size_event(&e.data) {
            Some(x) => x,
            None => {
                proof {
                    assert(written_events(ad@, evs.subrange(i as int, evs.len() as int))
                        =~= Seq::<u8>::empty());
                    assert(w + Seq::<u8>::empty() =~= w);
                }
                return Err(Error::Overflow);
            },
        };
        if sz > 0xFFFF_FFFF - 12 {
            proof {
                assert(written_events(ad@, evs.subrange(i as int, evs.len() as int))
                    =~= Seq::<u8>::empty());
                assert(w + Seq::<u8>::empty() =~= w);
            }
            return Err(Error::Overflow);
        }
        let ty = event_type(&e.data);
        let hf = header_fields_exec(ty, e.start, sz + 12);
        let ghost h = encode(header_fields(ty, e.start, (sz + 12) as u32));
        encode_record(&hf, out);
        proof {
            assert(out@ =~= o + (w + h));
        }
        let res = write_event(&e.data, ad, out);
        match res {
            Ok(()) => {},
            Err(x) => {
                proof {
                    assert(written_events(ad@, evs.subrange(i as int, evs.len() as int)) == h);
                    assert(out@ =~= o + (w + h));
                }
                return Err(x);
            },
        }
        proof {
            let b = serialize_data(ad@, evs[i as int].data).unwrap();
            let w2 = w + h + b;
            match serialize_events(ad@, evs.subrange(i + 1, evs.len() as int)) {
                Ok(rest) => assert(w + (h + b + rest) =~= w2 + rest),
                Err(_) => {},
            }
            assert(w + (h + b + written_events(ad@, evs.subrange(i + 1, evs.len() as int)))
                =~= w2 + written_events(ad@, evs.subrange(i + 1, evs.len() as int)));
            w = w2;
        }
        i = i + 1;
    }
    proof {
        assert(evs.subrange(i as int, evs.len() as int) =~= Seq::<EventV>::empty());
        assert(w + Seq::<u8>::empty() =~= w);
    }
    Ok(())
}

/// The size of a stream splits into the first event and the rest.
proof fn lemma_total_first(evs: Seq<EventV>)
    requires
        evs.len() > 0,
    ensures
        total_size(evs) == HEADER_SIZE + data_size(evs[0].data) + total_size(evs.drop_first()),
    decreases evs.len(),
{
    if evs.len() > 1 {
        lemma_total_first(evs.drop_last());
        assert(evs.drop_last().drop_first() =~= evs.drop_first().drop_last());
    } else {
        assert(evs.drop_first() =~= Seq::<EventV>::empty());
        assert(evs.drop_last() =~= Seq::<EventV>::empty());
    }
}

/// The size of a prefix of a run of events is at most that of the run.
proof fn lemma_total_prefix(evs: Seq<EventV>, i: int)
    requires
        0 <= i <= evs.len(),
    ensures
        total_size(evs.take(i)) <= total_size(evs),
    decreases evs.len() - i,
{
    if i < evs.len() {
        lemma_total_prefix(evs, i + 1);
        assert(evs.take(i + 1).drop_last() =~= evs.take(i));
    } else {
        assert(evs.take(i) =~= evs);
    }
}

/// The size of the stream of a run of events, if it fits in a `u32`.
pub fn size_events(events: &Vec<Event>) -> (r: Option<u32>)
    ensures
        r == (if total_size(events.deep_view()) <= u32::MAX {
            Some(total_size(events.deep_view()) as u32)
        } else {
            None
        }),
{
    let ghost evs = events.deep_view();
    let mut total: u32 = 0;
    let mut i: usize = 0;
    proof {
        assert(evs.take(0) =~= Seq::<EventV>::empty());
    }
    while i < events.len()
        invariant
            evs == events.deep_view(),
            0 <= i <= events.len(),
            total == total_size(evs.take(i as int)),
        decreases events.len() - i,
    {
        let e = &events[i];
        assert(e.deep_view() == evs[i as int]);
        assert(evs.take(i + 1).drop_last() =~= evs.take(i as int));
        proof {
            lemma_total_prefix(evs, i + 1);
        }
        let with_header = match total.checked_add(12) {
            Some(x) => x,
            None => return None,
        };
        let ds = match size_event(&e.data) {
            Some(x) => x,
            None => return None,
        };
        total = match with_header.checked_add(ds) {
            Some(x) => x,
            None => return None,
        };
        i = i + 1;
    }
    proof {
        assert(evs.take(i as int) =~= evs);
    }
    Some(total)
}

/// A header that was written reads back as the type, start and record size
/// it was written with, whatever follows it.
proof fn lemma_header_reread(ty: u8, start: Option<EventStart>, total: u32, x: Seq<u8>)
    requires
        start_ok(start),
        total >= HEADER_SIZE,
    ensures
        encode(header_fields(ty, start, total)).len() == HEADER_SIZE,
        parse_header(encode(header_fields(ty, start, total)) + x) == Some(
            (ty, start, (total - HEADER_SIZE) as u32),
        ),
{
    let f = header_fields(ty, start, total);
    let h = encode(f);
    reveal_with_fuel(size, 6);
    assert(conforms_all(f, header_layout()));
    lemma_encode_size(f, header_layout());
    lemma_decode_encode(f, header_layout());
    let y = h + x;
    lemma_decode_prefix_bytes(header_layout(), y);
    assert(y.take(12) =~= h);
}

/// Writing the events that were read from a stream, then reading them
/// again, gives the same events; the stream written has the size of the
/// stream read, which is the size that `size_events` gives.
pub proof fn lemma_events_reread(ad: AnimDefV, s: Seq<u8>)
    requires
        parse_events(ad, s) is Some,
    ensures
        serialize_events(ad, parse_events(ad, s).unwrap()) matches Ok(b) && parse_events(ad, b)
            == parse_events(ad, s) && b.len() == total_size(parse_events(ad, s).unwrap())
            && b.len() == s.len(),
    decreases s.len(),
{
    let evs = parse_events(ad, s).unwrap();
    if s.len() == 0 {
        assert(evs =~= Seq::<EventV>::empty());
    } else {
        let h = parse_header(s).unwrap();
        let end = HEADER_SIZE + h.2;
        let body = s.subrange(HEADER_SIZE as int, end);
        let tail = s.subrange(end, s.len() as int);
        let d = parse_data(ad, h.0, body).unwrap();
        lemma_events_reread(ad, tail);
        lemma_reread_data(ad, h.0, body);
        let rest = parse_events(ad, tail).unwrap();
        let e = EventV { start: h.1, data: d };
        assert(evs[0] == e);
        assert(evs.drop_first() =~= rest);
        let b = serialize_data(ad, d).unwrap();
        let rb = serialize_events(ad, rest).unwrap();
        let total = (data_size(d) + HEADER_SIZE) as u32;
        let hd = encode(header_fields(h.0, h.1, total));
        assert(start_ok(h.1));
        lemma_header_reread(h.0, h.1, total, b + rb);
        let all = hd + b + rb;
        assert(all =~= hd + (b + rb));
        assert(all.subrange(HEADER_SIZE as int, HEADER_SIZE + data_size(d)) =~= b);
        assert(all.subrange(HEADER_SIZE + data_size(d), all.len() as int) =~= rb);
        lemma_total_first(evs);
    }
}

/// A header that is written has twelve bytes.
proof fn lemma_header_len(ty: u8, start: Option<EventStart>, total: u32)
    ensures
        encode(header_fields(ty, start, total)).len() == HEADER_SIZE,
{
    let f = header_fields(ty, start, total);
    reveal_with_fuel(size, 6);
    assert(conforms_all(f, header_layout()));
    lemma_encode_size(f, header_layout());
}

/// Every stream of events that is written has the size that `size_events`
/// gives for the events: each header announces the size of the record
/// written after it.
pub proof fn lemma_written_size(ad: AnimDefV, evs: Seq<EventV>)
    ensures
        serialize_events(ad, evs) matches Ok(b) ==> b.len() == total_size(evs),
    decreases evs.len(),
{
    if evs.len() > 0 {
        let e = evs[0];
        lemma_written_size(ad, evs.drop_first());
        lemma_total_first(evs);
        if serialize_data(ad, e.data) is Some {
            lemma_written_size_data(ad, e.data);
        }
        lemma_header_len(type_of(e.data), e.start, (data_size(e.data) + HEADER_SIZE) as u32);
    }
}

/// Each event of a written stream stands where the events before it end:
/// first its header, which gives the event's type, a zero padding, the
/// size of header and record together, and its start (an offset of the
/// animation and a time of zero where it has none); then its record.
pub proof fn lemma_written_event(ad: AnimDefV, evs: Seq<EventV>, i: int)
    requires
        serialize_events(ad, evs) is Ok,
        0 <= i < evs.len(),
    ensures
        serialize_events(ad, evs) matches Ok(b) && ({
            let off = total_size(evs.take(i));
            let e = evs[i];
            let end = off + HEADER_SIZE + data_size(e.data);
            &&& serialize_data(ad, e.data) is Some
            &&& 0 <= off
            &&& end <= b.len()
            &&& b.subrange(off, off + HEADER_SIZE) == encode(
                header_fields(type_of(e.data), e.start, (data_size(e.data) + HEADER_SIZE) as u32),
            )
            &&& b.subrange(off + HEADER_SIZE, end) == serialize_data(ad, e.data).unwrap()
        }),
    decreases i,
{
    let b = match serialize_events(ad, evs) {
        Ok(b) => b,
        Err(_) => Seq::empty(),
    };
    let e0 = evs[0];
    let h = encode(
        header_fields(type_of(e0.data), e0.start, (data_size(e0.data) + HEADER_SIZE) as u32),
    );
    let d = serialize_data(ad, e0.data).unwrap();
    let rest = match serialize_events(ad, evs.drop_first()) {
        Ok(r) => r,
        Err(_) => Seq::empty(),
    };
    lemma_header_len(type_of(e0.data), e0.start, (data_size(e0.data) + HEADER_SIZE) as u32);
    lemma_written_size_data(ad, e0.data);
    lemma_written_size(ad, evs.drop_first());
    assert(b == h + d + rest);
    if i == 0 {
        assert(evs.take(0) =~= Seq::<EventV>::empty());
        assert(b.subrange(0, HEADER_SIZE as int) =~= h);
        assert(b.subrange(HEADER_SIZE as int, HEADER_SIZE + d.len()) =~= d);
    } else {
        lemma_written_event(ad, evs.drop_first(), i - 1);
        lemma_total_first(evs.take(i));
        assert(evs.take(i).drop_first() =~= evs.drop_first().take(i - 1));
        let off2 = total_size(evs.drop_first().take(i - 1));
        let e = evs[i];
        let k = h.len() + d.len();
        let end2 = off2 + HEADER_SIZE + data_size(e.data);
        assert(evs.drop_first()[i - 1] == e);
        assert(total_size(evs.take(i)) == off2 + k);
        assert(b.subrange(off2 + k, off2 + k + HEADER_SIZE) =~= rest.subrange(
            off2,
            off2 + HEADER_SIZE,
        ));
        assert(b.subrange(off2 + k + HEADER_SIZE, end2 + k) =~= rest.subrange(
            off2 + HEADER_SIZE,
            end2,
        ));
    }
}

/// The header at the front of `s` is written back exactly as read: a header
/// that gives no start has a start time of `0.0`, not `-0.0`.
pub open spec fn header_exact(s: Seq<u8>) -> bool {
    let f = decode(header_layout(), s);
    !(w8(f, 1) == 1 && w32(f, 4) == float::NEG_ZERO)
}

/// A stream is written back exactly as read: each header is, and each
/// record meets the conditions of its type (see `exact_data`).
pub open spec fn exact_events(ad: AnimDefV, s: Seq<u8>) -> bool
    decreases s.len(),
{
    if s.len() == 0 {
        true
    } else {
        match parse_header(s) {
            None => false,
            Some(h) => {
                let end = HEADER_SIZE + h.2;
                if end > s.len() {
                    false
                } else {
                    &&& header_exact(s)
                    &&& exact_data(ad, h.0, s.subrange(HEADER_SIZE as int, end))
                    &&& exact_events(ad, s.subrange(end, s.len() as int))
                }
            },
        }
    }
}

/// A header that was read is written back as it was.
proof fn lemma_header_exact(s: Seq<u8>, total: u32)
    requires
        parse_header(s) is Some,
        header_exact(s),
        total == parse_header(s).unwrap().2 + HEADER_SIZE,
    ensures
        encode(header_fields(parse_header(s).unwrap().0, parse_header(s).unwrap().1, total))
            == s.take(12),
{
    let f = decode(header_layout(), s);
    let h = s.take(12);
    reveal_with_fuel(size, 6);
    lemma_decode_prefix_bytes(header_layout(), s);
    crate::record::lemma_decode_conforms(header_layout(), h);
    crate::record::lemma_encode_decode(header_layout(), h);
    crate::record::lemma_conforming_fields(f, header_layout());
    let p = parse_header(s).unwrap();
    assert(header_fields(p.0, p.1, total) =~= f);
}

/// Writing the events of a stream gives the stream back, where the names
/// of the definition are distinct and the stream is written back exactly:
/// the conversion of a stream and back is exact.
pub proof fn lemma_events_exact(ad: AnimDefV, s: Seq<u8>)
    requires
        parse_events(ad, s) is Some,
        distinct_names(ad),
        exact_events(ad, s),
    ensures
        serialize_events(ad, parse_events(ad, s).unwrap()) == Ok::<Seq<u8>, Error>(s),
    decreases s.len(),
{
    let evs = parse_events(ad, s).unwrap();
    if s.len() == 0 {
        assert(evs =~= Seq::<EventV>::empty());
    } else {
        let h = parse_header(s).unwrap();
        let end = HEADER_SIZE + h.2;
        let body = s.subrange(HEADER_SIZE as int, end);
        let tail = s.subrange(end, s.len() as int);
        let d = parse_data(ad, h.0, body).unwrap();
        lemma_events_exact(ad, tail);
        lemma_reread_data(ad, h.0, body);
        lemma_exact_data(ad, h.0, body);
        let rest = parse_events(ad, tail).unwrap();
        assert(evs[0] == EventV { start: h.1, data: d });
        assert(evs.drop_first() =~= rest);
        let total = (data_size(d) + HEADER_SIZE) as u32;
        lemma_header_exact(s, total);
        assert(s.take(12) + body + tail =~= s);
    }
}

/// The offset of each field of a header.
proof fn lemma_header_offsets()
    ensures
        size(header_layout()) == HEADER_SIZE,
        size(header_layout().take(0)) == 0,
        size(header_layout().take(1)) == 1,
        size(header_layout().take(2)) == 2,
        size(header_layout().take(3)) == 4,
        size(header_layout().take(4)) == 8,
{
    reveal_with_fuel(size, 6);
    assert(header_layout().take(0) =~= Seq::<Kind>::empty());
    assert(header_layout().take(1) =~= seq![Kind::U8]);
    assert(header_layout().take(2) =~= seq![Kind::U8, Kind::U8]);
    assert(header_layout().take(3) =~= seq![Kind::U8, Kind::U8, Kind::U16]);
    assert(header_layout().take(4) =~= seq![Kind::U8, Kind::U8, Kind::U16, Kind::U32]);
}

/// A header read from the front of a stream holds its bytes: the event
/// type is the first byte; the second is `1`, `2` or `3` for a start at the
/// animation, sequence or event; the two bytes after it are zero; the size
/// of the record is the number at offset 4 (little-endian) less the 12
/// bytes of the header; and the start time is the number at offset 8. A
/// header gives no start exactly where it starts at the animation at time
/// zero.
pub proof fn lemma_header_read_bytes(s: Seq<u8>)
    requires
        parse_header(s) is Some,
    ensures
        ({
            let h = parse_header(s).unwrap();
            let t = crate::record::le32_at(s, 8);
            &&& h.0 == s[0]
            &&& crate::record::le16_at(s, 2) == 0
            &&& h.2 + HEADER_SIZE == crate::record::le32_at(s, 4)
            &&& match h.1 {
                None => s[1] == 1 && float::is_zero(t),
                Some(st) => st.time == t && match st.offset {
                    StartOffset::Animation => s[1] == 1 && !float::is_zero(t),
                    StartOffset::Sequence => s[1] == 2,
                    StartOffset::Event => s[1] == 3,
                },
            }
        }),
{
    lemma_header_offsets();
    crate::record::lemma_decode_field(header_layout(), s, 0);
    crate::record::lemma_decode_field(header_layout(), s, 1);
    crate::record::lemma_numbers_at(header_layout(), s, 2);
    crate::record::lemma_numbers_at(header_layout(), s, 3);
    crate::record::lemma_numbers_at(header_layout(), s, 4);
}

/// A header written for an event holds: the event type in its first byte;
/// `1`, `2` or `3` in the second for a start at the animation, sequence or
/// event (`1` where it has no start); zero in the two bytes after it; the
/// size of header and record at offset 4 and the start time at offset 8
/// (zero where it has no start), little-endian.
pub proof fn lemma_header_written_bytes(ty: u8, start: Option<EventStart>, total: u32)
    ensures
        ({
            let b = encode(header_fields(ty, start, total));
            &&& b.len() == HEADER_SIZE
            &&& b[0] == ty
            &&& crate::record::le16_at(b, 2) == 0
            &&& crate::record::le32_at(b, 4) == total
            &&& match start {
                None => b[1] == 1 && crate::record::le32_at(b, 8) == 0,
                Some(st) => crate::record::le32_at(b, 8) == st.time && match st.offset {
                    StartOffset::Animation => b[1] == 1,
                    StartOffset::Sequence => b[1] == 2,
                    StartOffset::Event => b[1] == 3,
                },
            }
        }),
{
    let g = header_fields(ty, start, total);
    lemma_header_offsets();
    assert(conforms_all(g, header_layout())) by {
        assert forall|k: int| 0 <= k < g.len() implies #[trigger] crate::record::conforms(
            g[k],
            header_layout()[k],
        ) by {}
    }
    crate::record::lemma_encode_size(g, header_layout());
    crate::record::lemma_decode_encode(g, header_layout());
    crate::record::lemma_decode_field(header_layout(), encode(g), 0);
    crate::record::lemma_decode_field(header_layout(), encode(g), 1);
    crate::record::lemma_numbers_written(g, header_layout(), 2);
    crate::record::lemma_numbers_written(g, header_layout(), 3);
    crate::record::lemma_numbers_written(g, header_layout(), 4);
}

} // verus!
