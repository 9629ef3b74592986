# voidchess engine

The rules of chess as a verified library: positions, moves, move generation, check and
checkmate, draws by repetition, by the fifty move rule and by insufficient material, the text
notation games are read from, and FEN.

Layout:

- `src/base`: colors, directions, positions, moves (packed into one number), the list of moves
  and a shared linked list, errors, and the text helpers the notation needs.
- `src/figure`: figures and their symbols; `functions` holds the move generation
  (`reachable`), check detection (`check_search`), castling, checkmate, the moves a player may
  make (`allowed`), the move counts the static evaluation uses, and the proofs that all of these
  look the same from the other side of the board (`symmetry`, `move_symmetry`,
  `checkmate_symmetry`, `defence_symmetry`).
- `src/game`: the board, game states and their transitions, the notation, the board states kept
  for draws, games, the state of a match, and (`side_symmetry`) the laws on a game state seen
  from the other side: check, the number of moves and checkmate stay the same; `playable`
  shows that every generated move can be made and keeps the castling rights and the
  en-passant field backed by the board.
- `src/engine`: draw reasons, game results, the pruner of the search, the move order it tries,
  and whether a pawn is covered, which the static evaluation asks.
- `app`: the browser side: floating point evaluations, the min-max search over them, and the
  wasm-bindgen functions.

Each public function states its result in `ensures` over mathematical models (`Seq`, `int`,
the `model()` of a game state or game); the laws the library keeps (a move keeps a state well
formed, seeing a position from the other side twice gives it back, codes read back what they
write, every generated move starts on a figure of the side to move, ...) are proof functions
next to the code they are about.
