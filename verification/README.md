# oodle_rs

A verified reader for Kraken, Mermaid and Leviathan compressed streams.

`src/` is the library, checked by Verus:

- `header`: the block and quantum headers, each with a specification of the
  bytes it reads;
- `decoder`: the stream decoder, a state machine whose steps (`step`, `run`)
  are specified over the compressed bytes and the output; it copies stored
  blocks, checks quantum CRCs and hands each coded quantum out as a
  `QuantumJob`;
- `decode::newlz`: the chunk layout of Kraken quanta;
- `util::crc`: the 24-bit quantum checksum;
- `decompress`: the argument checks that start decompression;
- `model`: compressors, levels and compression options.

`app/` runs the Oodle core around it: compression, and the quantum decoders
that the decoder's jobs go to.
