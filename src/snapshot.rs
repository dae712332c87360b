use vstd::prelude::*;

verus! {

/// An arbitrary JSON value, carried through unread.
#[verifier::external_type_specification]
#[verifier::external_body]
pub struct ExValue(serde_json::Value);

/// A JSON object, carried through unread.
#[verifier::external_type_specification]
#[verifier::external_body]
#[verifier::reject_recursive_types(K)]
#[verifier::reject_recursive_types(V)]
pub struct ExMap<K, V>(serde_json::Map<K, V>);

/// Game state of one turn.
pub struct GameState {
    /// The game being played.
    pub game: Game,
    /// Turn number; 0 for a new game.
    pub turn: u32,
    /// The board on this turn.
    pub board: Board,
    /// The snake this server plays.
    pub you: BattleSnake,
}

/// The game being played.
pub struct Game {
    /// Unique identifier of the game.
    pub id: String,
    /// The rule set in force, as sent.
    pub rule_set: serde_json::Map<String, serde_json::Value>,
    /// Name of the map that populated the board.
    pub map: String,
    /// Milliseconds a snake has to answer a request.
    pub timeout: u32,
    /// Where the game comes from (tournament, league, arena, challenge, custom).
    pub source: String,
}

/// The board on one turn.
pub struct Board {
    /// Number of rows (the y axis).
    pub height: u32,
    /// Number of columns (the x axis).
    pub width: u32,
    /// Food locations.
    pub food: Vec<Coord>,
    /// Hazard locations.
    pub hazards: Vec<Coord>,
    /// Every snake still on the board.
    pub snakes: Vec<BattleSnake>,
}

/// One snake on the board.
pub struct BattleSnake {
    /// Unique identifier of the snake within the game.
    pub id: String,
    /// Name given by its author.
    pub name: String,
    /// Health, from 0 to 100.
    pub health: u32,
    /// Occupied coordinates, from head to tail.
    pub body: Vec<Coord>,
    /// Previous response time, in milliseconds.
    pub latency: String,
    /// Coordinate of the head; the first entry of `body`.
    pub head: Coord,
    /// Length from head to tail; the length of `body`.
    pub length: u32,
    /// Message shouted on the previous turn.
    pub shout: String,
    /// Squad the snake belongs to.
    pub squad: String,
    /// How the snake is displayed.
    pub customizations: Customizations,
}

/// How a snake is displayed.
pub struct Customizations {
    pub color: String,
    pub head: String,
    pub tail: String,
}

/// A board coordinate: `x` is the column, `y` the row.
#[derive(Clone, Copy, Debug, PartialEq, Eq, Structural)]
pub struct Coord {
    pub x: u32,
    pub y: u32,
}

} // verus!
