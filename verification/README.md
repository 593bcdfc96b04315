# Riff

Voice dictation for the desktop. A shortcut starts, pauses and resumes; the sentences appear on an
island while you speak; `Enter` inserts the whole text at the cursor, `Esc` throws it away.

- `src/` is the library, written in Verus: the decisions, with contracts that are proved. It keeps
  the state, takes in what happened, and says what is to be done.
- `app/` is the program around it: windows, microphone, network, clipboard, and the arithmetic on
  floating-point samples.
- `tests/` runs the library.

What is believed without proof is small, and each item says so where it stands: `hound` writes WAV
files (`src/wav.rs`), `serde_json` reads documents (`src/json.rs`), `reqwest` puts a status in words
and the standard library puts a text in lower case (`src/groq.rs`).
