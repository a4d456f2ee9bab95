# vnkey

Vietnamese typing with the Telex and VNI conventions, as a verified library and a
small Windows program around it.

- `src/` is the library, verified with Verus.
  - `tone.rs`: the tone table of the Vietnamese vowels and the rule that picks the
    vowel of a syllable that carries the tone.
  - `telex.rs`, `vni.rs`: how a run of keys composes one syllable in each convention.
  - `state.rs`: composition of a whole text, one key at a time; every run of ASCII
    letters and digits is one syllable, every other character is copied through.
  - `keyboard.rs`: the decisions of the keyboard hook: how each key changes the word
    being typed and whether the key passes, is swallowed, or replaces the shown word.
  - `text.rs`: character classes and string operations of the standard library.
- `app/main.rs` is the Windows program: the low-level keyboard hook, the tray icon,
  and sending input. On other systems it only prints a notice.
- `tests/` runs the library on concrete words.
