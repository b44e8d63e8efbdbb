# base64check

Checks that Base64 encoding followed by decoding (with the `data_encoding`
crate's padded `BASE64`) gives back the input, comparing both after trailing
zero bytes are trimmed.

- `src/trim.rs`: trimming trailing zeros, and byte comparison.
- `src/codec.rs`: the calls into `data_encoding` and their contracts.
- `src/messages.rs`: the error messages.
- `src/roundtrip.rs`: the round-trip checks.
- `app/main.rs`: a program that checks random inputs on many tasks.
