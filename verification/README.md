# binah_bot

BinahBot is a Discord bot for two games by Project Moon: it looks up the
encyclopedia of Lobotomy Corporation, keeps decks of Library of Ruina that
players save and share, and answers dice questions. This crate holds its logic
as a library verified with Verus, and a thin program around it.

## Layout

`src/` is the verified library. Each module states its behaviour in `requires`
/ `ensures` contracts over spec functions, and the properties that span several
functions as public proof functions (`lemma_*`).

- `text`, `numbers`, `lists`: characters and strings, decimal and hexadecimal
  numbers, what std's integer and float parsers accept, bullet lists.
- `filters`, `analyzer`: the text analyzer behind the search (normalization,
  tokens, padded trigrams, tallies) and the ranked query over an inverted index.
- `dice`: the chance that one die beats another (`calculate`).
- `discord`, `binahbot`, `utils`, `router`, `signature`: the Discord model, the
  bot's locales and colours, option lookup, routing of interactions, deletion
  rights (the delete button and the encyclopedia's page buttons), and the
  verification of request signatures.
- `deck`, `deck_commands`, `deck_store`: decks, their names and validation, the
  deck commands' requests and answers, and the items decks are stored as.
- `rollcalc`: the roll command.
- `lobocorp`, `game_objects`, `lc`, `lobocorp_index`, `reparser`: the
  encyclopedia's game objects, locales, buttons and texts, and the tables it is
  generated from.
- `xml`, `abnormalities`, `equipment`: reading the game's XML documents
  (abnormalities, their breaching entities, weapons and suits).
- `lor_command`, `lor_autocomplete`, `spoiler`: options of the card commands,
  the spoiler limits of channels and which cards they withhold.
- `lor_embeds`: die types, rarities and the embed of a key page. The embeds of
  decks (`deck_commands`) and of abnormalities and weapons (`lc`) are decided
  the same way: as plans whose headers are keys of the translations.

Where the library calls an outside crate (Unicode normalization and case,
xxHash, hex decoding, Ed25519 signatures, language tags), the call stands in a
small trusted wrapper whose doc comment says what its contract claims.

`app/` is the program around the library: it reads a request, checks its
headers, decodes the JSON wire format with serde into the library's types, and
prints the response. Floating-point formatting lives there too. The bot's
translations are not part of this repository, so `app/` renders a message as its
key and arguments.

`tests/` holds the tests, run against the compiled library.
