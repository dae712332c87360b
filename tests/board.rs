use battlesnake::config::index;
use battlesnake::graph::{Graph, GraphError};
use battlesnake::node::{Node, NodeType};
use battlesnake::snapshot::{BattleSnake, Board, Coord, Customizations, Game, GameState};

fn c(x: u32, y: u32) -> Coord {
    Coord { x, y }
}

fn snake(id: &str, body: Vec<Coord>, head: Coord) -> BattleSnake {
    let length = body.len() as u32;
    BattleSnake {
        id: id.to_string(),
        name: id.to_string(),
        health: 100,
        body,
        latency: "0".to_string(),
        head,
        length,
        shout: String::new(),
        squad: String::new(),
        customizations: Customizations {
            color: "#000000".to_string(),
            head: "default".to_string(),
            tail: "default".to_string(),
        },
    }
}

fn state(
    width: u32,
    height: u32,
    food: Vec<Coord>,
    hazards: Vec<Coord>,
    snakes: Vec<BattleSnake>,
) -> GameState {
    let you = snakes
        .first()
        .map(|s| snake(&s.id, s.body.clone(), s.head))
        .unwrap_or_else(|| snake("you", vec![c(0, 0)], c(0, 0)));
    GameState {
        game: Game {
            id: "game".to_string(),
            rule_set: serde_json::Map::new(),
            map: "standard".to_string(),
            timeout: 500,
            source: "custom".to_string(),
        },
        turn: 0,
        board: Board { height, width, food, hazards, snakes },
        you,
    }
}

fn kind(g: &Graph, x: u32, y: u32) -> NodeType {
    g.get(x, y).unwrap().node_type
}

#[test]
fn three_by_three_scenario() {
    let s = state(3, 3, vec![c(1, 1)], vec![], vec![snake("s1", vec![c(0, 0), c(0, 1)], c(0, 0))]);
    let g = Graph::new(&s).unwrap();
    assert_eq!(kind(&g, 0, 0), NodeType::SnakeHead(0));
    assert_eq!(kind(&g, 0, 1), NodeType::SnakeBody(0));
    assert_eq!(s.board.snakes[0].id, "s1");
    assert_eq!(kind(&g, 1, 1), NodeType::Food);
    let mut empty = 0;
    for y in 0..3 {
        for x in 0..3 {
            if kind(&g, x, y) == NodeType::Empty {
                empty += 1;
            }
        }
    }
    assert_eq!(empty, 6);
}

#[test]
fn later_snake_wins_shared_body() {
    let a = snake("a", vec![c(2, 1), c(2, 2)], c(2, 1));
    let b = snake("b", vec![c(3, 2), c(2, 2)], c(3, 2));
    let s = state(5, 5, vec![], vec![], vec![a, b]);
    let g = Graph::new(&s).unwrap();
    assert_eq!(kind(&g, 2, 2), NodeType::SnakeBody(1));
    assert_eq!(s.board.snakes[1].id, "b");
    assert_eq!(kind(&g, 2, 1), NodeType::SnakeHead(0));
}

#[test]
fn dimensions_match_board() {
    let s = state(4, 2, vec![], vec![], vec![]);
    let g = Graph::new(&s).unwrap();
    assert_eq!(g.width(), 4);
    assert_eq!(g.height(), 2);
    for y in 0..2 {
        for x in 0..4 {
            let n = g.get(x, y).unwrap();
            assert_eq!(n, Node { x, y, node_type: NodeType::Empty });
        }
    }
}

#[test]
fn lookup_one_past_the_edge_fails() {
    let s = state(4, 2, vec![], vec![], vec![]);
    let g = Graph::new(&s).unwrap();
    assert_eq!(g.get(4, 0), Err(GraphError::OutOfBounds));
    assert_eq!(g.get(0, 2), Err(GraphError::OutOfBounds));
    assert_eq!(g.get(4, 2), Err(GraphError::OutOfBounds));
    assert!(g.get(3, 1).is_ok());
}

#[test]
fn zero_width_board_has_no_cells() {
    let g = Graph::new(&state(0, 3, vec![], vec![], vec![])).unwrap();
    assert_eq!(g.width(), 0);
    assert_eq!(g.height(), 3);
    assert_eq!(g.get(0, 0), Err(GraphError::OutOfBounds));
}

#[test]
fn zero_height_board_has_no_cells() {
    let g = Graph::new(&state(3, 0, vec![], vec![], vec![])).unwrap();
    assert_eq!(g.height(), 0);
    assert_eq!(g.get(0, 0), Err(GraphError::OutOfBounds));
}

#[test]
fn zero_dimension_board_with_food_is_rejected() {
    let r = Graph::new(&state(0, 0, vec![c(0, 0)], vec![], vec![]));
    assert_eq!(r.err(), Some(GraphError::OutOfBounds));
}

#[test]
fn food_off_the_board_is_rejected() {
    let r = Graph::new(&state(3, 3, vec![c(3, 0)], vec![], vec![]));
    assert_eq!(r.err(), Some(GraphError::OutOfBounds));
}

#[test]
fn hazard_off_the_board_is_rejected() {
    let r = Graph::new(&state(3, 3, vec![], vec![c(0, 3)], vec![]));
    assert_eq!(r.err(), Some(GraphError::OutOfBounds));
}

#[test]
fn snake_body_off_the_board_is_rejected() {
    let s = state(3, 3, vec![], vec![], vec![snake("s1", vec![c(0, 0), c(5, 0)], c(0, 0))]);
    assert_eq!(Graph::new(&s).err(), Some(GraphError::OutOfBounds));
}

#[test]
fn snake_head_off_the_board_is_rejected() {
    let s = state(3, 3, vec![], vec![], vec![snake("s1", vec![c(0, 0)], c(0, 7))]);
    assert_eq!(Graph::new(&s).err(), Some(GraphError::OutOfBounds));
}

#[test]
fn hazard_replaces_food() {
    let s = state(3, 3, vec![c(1, 2), c(2, 2)], vec![c(1, 2)], vec![]);
    let g = Graph::new(&s).unwrap();
    assert_eq!(kind(&g, 1, 2), NodeType::Hazard);
    assert_eq!(kind(&g, 2, 2), NodeType::Food);
}

#[test]
fn snake_replaces_food_and_hazard() {
    let s = state(
        4,
        4,
        vec![c(1, 1)],
        vec![c(1, 2)],
        vec![snake("s1", vec![c(1, 1), c(1, 2), c(1, 3)], c(1, 1))],
    );
    let g = Graph::new(&s).unwrap();
    assert_eq!(kind(&g, 1, 1), NodeType::SnakeHead(0));
    assert_eq!(kind(&g, 1, 2), NodeType::SnakeBody(0));
    assert_eq!(kind(&g, 1, 3), NodeType::SnakeBody(0));
}

#[test]
fn head_of_later_snake_replaces_earlier_body() {
    let a = snake("a", vec![c(0, 0), c(1, 0)], c(0, 0));
    let b = snake("b", vec![c(1, 0), c(2, 0)], c(1, 0));
    let g = Graph::new(&state(3, 1, vec![], vec![], vec![a, b])).unwrap();
    assert_eq!(kind(&g, 0, 0), NodeType::SnakeHead(0));
    assert_eq!(kind(&g, 1, 0), NodeType::SnakeHead(1));
    assert_eq!(kind(&g, 2, 0), NodeType::SnakeBody(1));
}

#[test]
fn unlisted_coordinates_are_empty() {
    let s = state(2, 2, vec![c(0, 0)], vec![c(1, 0)], vec![snake("s1", vec![c(0, 1)], c(0, 1))]);
    let g = Graph::new(&s).unwrap();
    assert_eq!(kind(&g, 1, 1), NodeType::Empty);
    assert_eq!(g.get(1, 1).unwrap(), Node { x: 1, y: 1, node_type: NodeType::Empty });
}

#[test]
fn nodes_carry_their_coordinates() {
    let s = state(3, 2, vec![c(2, 1)], vec![], vec![]);
    let g = Graph::new(&s).unwrap();
    assert_eq!(g.get(2, 1).unwrap(), Node { x: 2, y: 1, node_type: NodeType::Food });
    assert_eq!(g.get(1, 0).unwrap(), Node { x: 1, y: 0, node_type: NodeType::Empty });
}

#[test]
fn node_new_keeps_fields() {
    let n = Node::new(7, 9, NodeType::SnakeBody(3));
    assert_eq!(n.x, 7);
    assert_eq!(n.y, 9);
    assert_eq!(n.node_type, NodeType::SnakeBody(3));
}

#[test]
fn index_announces_configuration() {
    let r = index();
    assert_eq!(r.api_version, "1");
    assert_eq!(r.author, "author");
    assert_eq!(r.color, "#ffffff");
    assert_eq!(r.head, "default");
    assert_eq!(r.tail, "default");
    assert_eq!(r.version, "0.0.1");
}
