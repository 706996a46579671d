# Text Adventure Game

A game engine for text adventures described in ini files, with its logic verified by
Verus.

A game is a single `.ini` file: a root section with the title, greeting, credits and
start room, optional `[Theme]` and `[Language]` sections, and sections for rooms,
characters, dialogues, responses, items and actions (`[Room:Basement]`,
`[Dialogue:hello|rude]`, ...). Values may span several lines between `"""` marks.

## Layout

- `src/` — the verified library.
  - `config/` reads a document: the multi-line preprocessor, the section records, one
    parser per kind of entity, the turning of names into indices, and `parse`, whose
    contract gives the world (or the first error) for every document.
    `consistency` proves that every parsed world lines up: each room and dialogue has its
    variants at the indices its references use.
  - `names`, `text`, `error` — validated names and colors, text helpers, error messages.
  - `world`, `state`, `database`, `proxy` — the world, the game state with its laws
    (actions, requirements, dialogue variants, rooms), and views of entities.
  - `ui`, `player` — the screens each step of play shows and where each choice leads.
- `tests/` — scenarios on concrete documents and values.
- `app/` — the program: command line, log file, the terminal interface and the loop of
  play, driving the library.
