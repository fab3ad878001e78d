# binbreak

A terminal game: a binary number is shown, and the player picks its value
among a few suggestions before the timer runs out.

- `src/` is the game's logic, verified with Verus: the modes (`bits`), the
  puzzle generator and timer (`puzzle`), the rounds, score, streak, lives and
  high scores (`game`), the high-score file format (`high_scores`), the start
  menu (`start_menu`), the program's states between menu, game and exit and
  what each key or frame asks of the terminal loop (`app_model`), key
  meanings (`keys`) and the text the game shows (`text`). Random numbers
  come from the `rand` crate (`random`); what a puzzle deals from the drawn
  numbers is `BinaryNumbersPuzzle::deal_from`.
- `app/` is the terminal program around it: drawing with `ratatui`, reading
  keys with `crossterm`, the title animation, and reading and writing the
  high-score file, which lives next to the executable.
- `tests/` runs the library on concrete games.

Times inside the library are whole milliseconds.
