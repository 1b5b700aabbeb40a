# asn1rs

ASN.1 building blocks, specified and proved with Verus.

- `src/parser.rs`: splitting ASN.1 text into tokens (separators and runs of text with their
  locations).
- `src/model/`: the ASN.1 model read from tokens (`parse.rs`, its grammar stated over token
  values), its Rust counterpart (`rust.rs`), and the protobuf and SQL models made of that
  (`protobuf.rs`, `sql.rs`).
- `src/gen/`: writing `.proto` and `.sql` files of those models, and pieces of the Rust code
  generators.
- `src/io/`: bit buffers of the UNALIGNED packed encoding rules (`buffer.rs`, `per/`), octet
  buffers and distinguished encoding (`buf.rs`, `der/`), and the protobuf wire format
  (`protobuf.rs`). The encoders' round trips are proved as lemmas next to them.
- `src/protocol/`: reading and writing identifiers, lengths, booleans and integers by the
  distinguished encoding rules.
- `src/converter.rs`: reading modules and converting them into `.proto` files.
- `app/`: the command line program: arguments, files and printing.
