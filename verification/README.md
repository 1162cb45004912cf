# cdis_assemble

Writers for C-DIS, the compressed bit-level encoding of Distributed Interactive
Simulation (DIS) PDUs, and the reader of the Receiver PDU body, verified with
Verus.

Every record implements `SerializeCdis`: `serialize(buf, cursor)` writes the
record's bits, `encoding()`, into the bit buffer from `cursor` on, changes no
other bit, and returns the position after them.

Layout of `src/`:

- `bits.rs`: bit strings as a mathematical model (`int_bits`, `bits_value`,
  `splice`) and their lemmas.
- `writing.rs`: the bit buffer (bitvec's `BitArray`), `write_integer_bits`,
  `SerializeCdis`, and the PDU and body writers.
- `types.rs`: variable-size integers (UVINT/SVINT), floats, the timestamp.
- `records/`: the shared records (header, entity ids and types, variable
  parameters, data, ...).
- `parsing.rs`, `receiver/parser.rs`: reading bits back, and the proof that a
  written Receiver body reads back unchanged.
- one directory per PDU body: `acknowledge`, `designator`,
  `electromagnetic_emission`, `receiver`, `remove_entity`, `signal`,
  `transmitter`.
