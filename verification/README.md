# gtfo_codefilter

Filters the four-letter terminal codes of the game GTFO by a pattern in which
`-` stands for any letter.

- `src/` is the library, verified with Verus:
  - `text`: the lines of a text (as `str::lines` cuts them), white space and
    byte order marks;
  - `load`: `load_words_from_str`, the code list from text;
  - `pattern`: `match_pattern`, the codes that fit a pattern, and its laws;
  - `prompt`: what a line typed at the command-line prompt asks for;
  - `hotkey`: the summon hotkeys the window offers;
  - `window`: `CodeFilterApp`, the state of the filter window and its
    decisions, frame by frame.
- `app/` is the program: the egui window, the global hotkey service, and the
  prompt (`--cli`). It reads the code list from
  `data/gtfo-possible-codes.csv` and the icon from `data/exec-brute-force.png`.
