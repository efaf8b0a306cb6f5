# anim-events

Reading and writing the events of the animation definitions of MechWarrior 3
(and, record by record, of Pirate's Moon and Recoil), proved with Verus.

Every record reader is a function on bytes whose contract names the value a
record holds (a `parse` spec function), and every writer's contract names
the bytes it appends (a `serialize` spec function). For each record a
lemma shows that writing what was read and reading it again gives the same
value; for a whole stream of events, `mw::lemma_events_reread` shows the
same, with a stream of the same length, and `mw::lemma_written_size` shows
that every stream written has the size that `size_events` announces.

The other direction holds too, byte for byte. Each record module states
when a record is written back exactly as it was read (`exact_record`: no
`-0.0` where the format stores a zero, and the few other spellings that a
reader accepts but a writer does not produce), and `lemma_exact` proves
that writing the value of such a record gives the record back, where the
lists of names that the record refers to hold no name twice (for records
that may name the input node, `anim_def::distinct_nodes`: nor a node of
that name). For a stream, `mw::lemma_events_exact` proves the same of every
stream whose headers and records meet those conditions, where no list of
the definition holds a name twice (`anim_def::distinct_names`). The records of Pirate's Moon and
Recoil have the same lemmas (`lemma_exact_pm`, `lemma_exact_rc`), and
`mw::lemma_written_event` shows where each event of a written stream stands
and what its header holds. For the puffer state, `lemma_written_reads_back`
goes from the value: every event that a record can hold as it is
(`readable`) is written, and reads back as itself; `lemma_common_read_back`
states the same of the common part alone.

A stream is written event by event: `mw::write_events` puts out each
header and then its record, and where an event cannot be written, the
events before it stay written (and its header too, where only its record
fails); `mw::written_events` names those bytes.

`f32` values are kept as their bits: the library never computes with them.

## Layout

- `src/record.rs`: little-endian fields and records, with their encode and
  decode lemmas.
- `src/text.rs`, `src/float.rs`, `src/flags.rs`, `src/model.rs`: padded
  names, the few facts about `f32` bits the format needs, flag bits, and
  the shared value types.
- `src/anim_def.rs`: the lists of an animation definition that records
  refer to by index, and the lookups in both directions.
- `src/events/`: one module for each kind of event record; `mod.rs` ties
  them to the event types and sizes.
- `src/mw.rs`: the stream of events: headers, start offsets, and the
  events one after the other.
- `src/si_script.rs`: the frames of a motion script.
- `tests/`: tests on concrete records.
- `app/`: reading and writing through `std::io`, and the checks that need
  `f32` arithmetic.
