# ludumdare59

The rules of *Runic Ascendancy*, a word-spelling battle game written in runes,
as a library verified with Verus.

Words are spelled in the 25 runes of the game's futhark (`futhark`), by
reading an English pronunciation dictionary and mapping its IPA to runes
(`dictionary`). A battle is a sequence of guessed rows graded the way Wordle
grades guesses (`battle`): while *acting* the player casts spells from the
book by spelling them, while *binding* a defeated opponent the player guesses
its binding word and the keyboard rules out letters the guesses prove missing
(`battle_states`, `battle_flow`, `keyboard`); a reacting round spells a
word against the clock (`reacting`). Grading is played back letter by
letter (`row_grading`) and recorded in a ledger (`ledger`); spells land one
after another (`effects`); opponents run an attack cycle (`combat`); after a
binding the player picks spells to learn or forget (`spell_selection`,
`spellbook`); a tutorial walks through one fight (`tutorial`).

Layout:

- `src/` — the library; every function carries a contract that Verus proves.
  Calls into `rand` stand behind a few trusted wrappers in `src/random.rs`,
  and one call into std in `src/text.rs`.
- `tests/` — tests of the library on concrete values.
- `app/` — a small command-line program around the library: it reads the
  dictionary and the spell book (JSON, through serde), and holds the
  floating-point timing and audio arithmetic that the library leaves out.
  With `--bind <word>` it fights a binding on the terminal through the
  library's battle functions.
