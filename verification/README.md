# synthpass

Deterministic post-processing for identity-document extraction, verified with Verus.

- `src/fusion.rs` — line-1 integrity checks for ICAO 9303 MRZ records: the issuing country
  against the ICAO country table (`mrz::country_name`), issuing country against nationality,
  and the collapsed-filler name corruption. Laws about the verdict are proved at the end.
- `src/repair.rs` — repair of drifted model output (code fences, surrounding prose, trailing
  commas) as a pure function on characters, the decision whether repair is needed, and the
  routing of raw output to the extraction schema. Laws about the repair are proved there.
- `src/grammar.rs` — the GBNF grammar that constrains Tier-2 decoding to the extraction schema.
- `src/json.rs` — the single question asked of `serde_json`: what kind of value a text holds.
- `src/text.rs` — Unicode whitespace, trimming and searching over character sequences.
- `app/lib.rs` — serde and zeroize shapes of the library's types, the process-wide repair
  counter, and the final deserialization into the `Extraction` schema.
