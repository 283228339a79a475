# sorcery_engine

Verified parts of the rules core of a Sorcery game engine, written in
Verus: the data, checks, orders and decision rules around the game state.
The game-state engine itself (effect frames, sessions, rollouts) is not part
of this crate. Every function in `src/` carries a `requires`/`ensures`
contract that Verus proves.

## Layout

- `src/` — the library:
  - `json`, `canonical`: the JSON document model, canonical JSON text, and
    SHA-256 identities of canonical text;
  - `board`, `action`, `action_order`: realm cells, typed action descriptors,
    their labels, and their canonical order;
  - `ability`, `compiled_ability`, `modifiers`, `trigger_order`: authored
    ability programs, their lowering to effect programs, temporary modifiers,
    and trigger ordering;
  - `facts`: validation of card definitions;
  - `deck`, `manifest_deck`: deck validation, canonical decks, deck
    identities, and pricing;
  - `eligibility`, `batch`, `gauntlet`, `game_record`, `checkpoint`: ranking
    gates, batch planning, seat-swapped gauntlet bookkeeping, per-game
    artifacts and replay checks, and session checkpoints;
  - `novelty`, `novelty_dispatch`, `counterfactual`: the deterministic action
    selector and the decision rules of the novelty and counterfactual searches;
  - `cli`: the command-line grammar and request checks.
- `tests/` — executable tests of the library.
- `app/` — input and output around the library: JSON decoding with `serde`,
  standard input, files, and the command line.

Public proof functions named `lemma_…` state the library's laws: for example
that a deck's identity ignores how its rows are laid out, that the canonical
action order is antisymmetric, and that it sorts well-formed descriptors as
their canonical JSON texts sort.

That last law (`lemma_stated_descriptors_order_as_text`) holds on these
conditions, and the native order does differ from the text order outside
them:

- neither descriptor is a Genesis token or spell resolution or a ranged step
  resolution, whose texts begin with `"choice"` and so sort before every
  kind-first text;
- two descriptors that play the same card instance are of the same kind;
- identities, cells and paths are well formed (paths nonempty);
- of two summons, a mana cost whose decimal rendering is a proper prefix of
  the other's is followed by a payment mode or sacrifices, not by the closing
  brace (costs 5 and 50 alone sort one way natively and the other way as
  text; 10 and 20 sort alike);
- of two Genesis spell orders, at the first differing entry the two numbers
  order alike as numbers and as text, and a shorter rendering that is a
  proper prefix of the other is not the last entry (so it is closed by a
  comma, not the closing bracket).
