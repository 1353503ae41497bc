# parcheesi_xml

Decoding of the XML messages that a Parcheesi player receives from the game
administrator, verified with Verus.

- `src/xml.rs`: the event stream of a message, read with `quick_xml`
  behind a few trusted functions.
- `src/text.rs`: words of a message: comparison, decimal numbers, color
  names, dropping the markup words.
- `src/board.rs`: colors, pawns, locations, the board, dice and moves.
- `src/deserialize.rs`: which request a message makes, and the moves,
  board, dice and color it sends.
- `src/laws.rs`, `src/board_laws.rs`: properties of the decoding as a whole.
