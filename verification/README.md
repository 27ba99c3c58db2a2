# banglakit

A font-aware converter from legacy ANSI Bengali (Bijoy / SutonnyMJ family)
to Unicode Bengali, with its logic proved in Verus.

## Layout

- `src/` — the verified library.
  - `transliterate`, `mapping`, `normalize`: the substitution pipeline
    (pre-normalization, leftmost-longest n-gram substitution, vowel-sign
    reordering, reph reordering, ya-phala, NFC).
  - `classifier`, `english`, `fonts`, `encoding`, `policy`: the run
    classifier's stages and integer features, the font allowlists and the
    per-run conversion policy.
  - `xml`, `ooxml`, `styles`, `theme`, `docx`, `pptx`, `archive`: OOXML
    event handling, the DOCX style cascade, the DOCX and PPTX run walkers
    and the package rewrite.
  - `visitor`, `bindings`: the run visitor interface and the option parsing
    shared with the browser bindings.
- `tests/` — behaviour on concrete inputs.
- `app/` — the command-line front end, file I/O, the browser bindings and
  the classifier's floating-point probability model, which stay outside the
  proofs.

The contracts speak of the outside crates (quick-xml, zip, toml,
aho-corasick, unicode-normalization) through a small set of trusted
wrappers, each documented with what it claims.
