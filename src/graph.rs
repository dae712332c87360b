use vstd::prelude::*;
use crate::node::{Node, NodeType};
use crate::snapshot::{BattleSnake, Board, Coord, GameState};
use crate::table::{table_nodes, NodeTable};

verus! {

/// Why a board could not be built or read.
///
/// Dimensions and coordinates are `u32` and table indices are as wide as
/// `usize`, so no dimension or coordinate exceeds what the table can index.
#[derive(Clone, Copy, Debug, PartialEq, Eq, Structural)]
pub enum GraphError {
    /// A coordinate lies outside `[0, width) x [0, height)`.
    OutOfBounds,
}

/// Whether `c` lies on a board of `width` columns and `height` rows.
pub open spec fn on_board(width: nat, height: nat, c: Coord) -> bool {
    c.x < width && c.y < height
}

/// Whether `c` is among the first `n` entries of `s`.
pub open spec fn listed(s: Seq<Coord>, n: int, c: Coord) -> bool {
    exists|j: int| 0 <= j < n && #[trigger] s[j] == c
}

/// Whether the head and every body segment of `s` lie on the board.
pub open spec fn snake_on_board(width: nat, height: nat, s: BattleSnake) -> bool {
    &&& on_board(width, height, s.head)
    &&& forall|j: int| 0 <= j < s.body@.len() ==> on_board(width, height, #[trigger] s.body@[j])
}

/// Whether every coordinate that the board lists lies on it.
pub open spec fn all_on_board(b: Board) -> bool {
    &&& forall|i: int|
        0 <= i < b.food@.len() ==> on_board(b.width as nat, b.height as nat, #[trigger] b.food@[i])
    &&& forall|i: int|
        0 <= i < b.hazards@.len() ==> on_board(
            b.width as nat,
            b.height as nat,
            #[trigger] b.hazards@[i],
        )
    &&& forall|k: int|
        0 <= k < b.snakes@.len() ==> snake_on_board(
            b.width as nat,
            b.height as nat,
            #[trigger] b.snakes@[k],
        )
}

/// What `c` holds when no snake is on it: a hazard, else food, else nothing.
pub open spec fn ground_type(b: Board, c: Coord) -> NodeType {
    if b.hazards@.contains(c) {
        NodeType::Hazard
    } else if b.food@.contains(c) {
        NodeType::Food
    } else {
        NodeType::Empty
    }
}

/// What the last of the first `n` snakes that occupies `c` makes of it:
/// its head if that snake's head is there, else its body.
pub open spec fn snake_claim(snakes: Seq<BattleSnake>, n: nat, c: Coord) -> Option<NodeType>
    decreases n,
{
    if n == 0 {
        None
    } else {
        let k = (n - 1) as nat;
        if snakes[k as int].head == c {
            Some(NodeType::SnakeHead(k as usize))
        } else if snakes[k as int].body@.contains(c) {
            Some(NodeType::SnakeBody(k as usize))
        } else {
            snake_claim(snakes, k, c)
        }
    }
}

/// What `c` holds once the first `n` snakes of the board are placed.
pub open spec fn type_after_snakes(b: Board, n: nat, c: Coord) -> NodeType {
    match snake_claim(b.snakes@, n, c) {
        Some(t) => t,
        None => ground_type(b, c),
    }
}

/// What `c` holds on the board built from `b`: the last write wins, in the order
/// food, hazards, then each snake's body followed by its head.
pub open spec fn expected_type(b: Board, c: Coord) -> NodeType {
    type_after_snakes(b, b.snakes@.len(), c)
}

/// Whether `t` has `h` rows of `w` nodes, and the node at each coordinate carries
/// that coordinate and the type that `f` gives it.
pub open spec fn laid_out(
    t: Seq<Seq<Node>>,
    w: nat,
    h: nat,
    f: spec_fn(Coord) -> NodeType,
) -> bool {
    &&& t.len() == h
    &&& forall|y: int| 0 <= y < h ==> #[trigger] t[y].len() == w
    &&& forall|x: u32, y: u32|
        x < w && y < h ==> #[trigger] t[y as int][x as int] == (Node {
            x,
            y,
            node_type: f((Coord { x, y })),
        })
}

/// What `c` holds once the first `i` food entries are written.
spec fn food_stage(b: Board, i: int, c: Coord) -> NodeType {
    if listed(b.food@, i, c) {
        NodeType::Food
    } else {
        NodeType::Empty
    }
}

/// What `c` holds once all food and the first `i` hazard entries are written.
spec fn hazard_stage(b: Board, i: int, c: Coord) -> NodeType {
    if listed(b.hazards@, i, c) {
        NodeType::Hazard
    } else {
        food_stage(b, b.food@.len() as int, c)
    }
}

/// What `c` holds once the first `k` snakes and the first `j` body segments of
/// snake `k` are written.
spec fn body_stage(b: Board, k: int, j: int, c: Coord) -> NodeType {
    if listed(b.snakes@[k].body@, j, c) {
        NodeType::SnakeBody(k as usize)
    } else {
        type_after_snakes(b, k as nat, c)
    }
}

proof fn lemma_write_keeps_layout(
    t: Seq<Seq<Node>>,
    w: nat,
    h: nat,
    f: spec_fn(Coord) -> NodeType,
    g: spec_fn(Coord) -> NodeType,
    c: Coord,
)
    requires
        laid_out(t, w, h, f),
        on_board(w, h, c),
        forall|d: Coord| d != c ==> #[trigger] g(d) == f(d),
    ensures
        laid_out(
            t.update(c.y as int, t[c.y as int].update(c.x as int, (Node { x: c.x, y: c.y, node_type: g(c) }))),
            w,
            h,
            g,
        ),
{
    let t2 = t.update(
        c.y as int,
        t[c.y as int].update(c.x as int, (Node { x: c.x, y: c.y, node_type: g(c) })),
    );
    assert forall|x: u32, y: u32| x < w && y < h implies #[trigger] t2[y as int][x as int] == (Node {
        x,
        y,
        node_type: g((Coord { x, y })),
    }) by {
        if x != c.x || y != c.y {
            assert((Coord { x, y }) != c);
            assert(t[y as int][x as int] == (Node { x, y, node_type: f((Coord { x, y })) }));
        }
    }
    assert forall|y: int| 0 <= y < h implies #[trigger] t2[y].len() == w by {
        assert(t[y].len() == w);
    }
}

/// A table of `height` rows of `width` empty nodes, each carrying its coordinate.
fn empty_table(width: usize, height: usize) -> (t: NodeTable)
    requires
        width <= u32::MAX,
        height <= u32::MAX,
    ensures
        laid_out(table_nodes(t), width as nat, height as nat, |c: Coord| NodeType::Empty),
{
    let mut rows: Vec<Vec<Node>> = Vec::new();
    let mut y: usize = 0;
    while y < height
        invariant
            y <= height,
            width <= u32::MAX,
            height <= u32::MAX,
            rows@.len() == y,
            forall|yy: int| 0 <= yy < y ==> #[trigger] rows@[yy]@.len() == width,
            forall|yy: int, xx: int|
                0 <= yy < y && 0 <= xx < width ==> #[trigger] rows@[yy]@[xx] == (Node {
                    x: xx as u32,
                    y: yy as u32,
                    node_type: NodeType::Empty,
                }),
        decreases height - y,
    {
        let mut row: Vec<Node> = Vec::new();
        let mut x: usize = 0;
        while x < width
            invariant
                x <= width,
                width <= u32::MAX,
                y < height <= u32::MAX,
                row@.len() == x,
                forall|xx: int|
                    0 <= xx < x ==> #[trigger] row@[xx] == (Node {
                        x: xx as u32,
                        y: y as u32,
                        node_type: NodeType::Empty,
                    }),
            decreases width - x,
        {
            row.push(Node::new(x as u32, y as u32, NodeType::Empty));
            x += 1;
        }
        rows.push(row);
        y += 1;
    }
    let ghost rows_v = rows@;
    let t = NodeTable::from_rows(rows);
    proof {
        let tv = table_nodes(t);
        assert forall|yy: int| 0 <= yy < height implies #[trigger] tv[yy].len() == width by {
            assert(tv[yy] == rows_v[yy]@);
        }
        assert forall|x: u32, y: u32| x < width && y < height implies #[trigger] tv[y as int][x as int]
            == (Node { x, y, node_type: NodeType::Empty }) by {
            assert(tv[y as int] == rows_v[y as int]@);
            assert(rows_v[y as int]@[x as int] == (Node {
                x: (x as int) as u32,
                y: (y as int) as u32,
                node_type: NodeType::Empty,
            }));
        }
    }
    t
}

/// Writes a node of type `node_type` at `c`, or fails where `c` is off the board.
fn place(
    nodes: &mut NodeTable,
    width: usize,
    height: usize,
    c: &Coord,
    node_type: NodeType,
) -> (r: Result<(), GraphError>)
    requires
        table_nodes(*old(nodes)).len() == height,
        forall|y: int| 0 <= y < height ==> #[trigger] table_nodes(*old(nodes))[y].len() == width,
    ensures
        r is Ok <==> on_board(width as nat, height as nat, *c),
        r is Ok ==> table_nodes(*final(nodes)) == table_nodes(*old(nodes)).update(
            c.y as int,
            table_nodes(*old(nodes))[c.y as int].update(
                c.x as int,
                (Node { x: c.x, y: c.y, node_type }),
            ),
        ),
        r is Err ==> r == Err::<(), GraphError>(GraphError::OutOfBounds),
{
    if (c.x as usize) < width && (c.y as usize) < height {
        let node = nodes.get_node_mut(c.x as usize, c.y as usize);
        *node = Node::new(c.x, c.y, node_type);
        Ok(())
    } else {
        Err(GraphError::OutOfBounds)
    }
}


/// The board of one turn as a dense row-major table of nodes, `nodes[y][x]`.
pub struct Graph {
    width: usize,
    height: usize,
    nodes: NodeTable,
}

impl Graph {
    /// Number of columns.
    pub closed spec fn spec_width(&self) -> nat {
        self.width as nat
    }

    /// Number of rows.
    pub closed spec fn spec_height(&self) -> nat {
        self.height as nat
    }

    /// The node stored at column `x` of row `y`.
    pub closed spec fn node_at(&self, x: u32, y: u32) -> Node {
        table_nodes(self.nodes)[y as int][x as int]
    }

    /// Whether `(x, y)` is a coordinate of this board.
    pub open spec fn contains(&self, x: u32, y: u32) -> bool {
        x < self.spec_width() && y < self.spec_height()
    }

    #[verifier::type_invariant]
    spec fn wf(&self) -> bool {
        &&& self.width <= u32::MAX
        &&& self.height <= u32::MAX
        &&& table_nodes(self.nodes).len() == self.height
        &&& forall|y: int|
            0 <= y < self.height ==> #[trigger] table_nodes(self.nodes)[y].len() == self.width
    }

    /// Builds the board of `game_state`: every coordinate starts empty, then food,
    /// hazards and each snake's body and head are written in turn, a later write
    /// replacing an earlier one at the same coordinate.
    pub fn new(game_state: &GameState) -> (r: Result<Graph, GraphError>)
        ensures
            r is Ok <==> all_on_board(game_state.board),
            r is Err ==> r == Err::<Graph, GraphError>(GraphError::OutOfBounds),
            r matches Ok(g) ==> {
                &&& g.spec_width() == game_state.board.width
                &&& g.spec_height() == game_state.board.height
                &&& forall|x: u32, y: u32|
                    g.contains(x, y) ==> #[trigger] g.node_at(x, y) == (Node {
                        x,
                        y,
                        node_type: expected_type(game_state.board, (Coord { x, y })),
                    })
            },
    {
        let board = &game_state.board;
        let n_height = board.height as usize;
        let n_width = board.width as usize;
        let ghost w = n_width as nat;
        let ghost h = n_height as nat;
        let mut nodes = empty_table(n_width, n_height);

        let mut i: usize = 0;
        while i < board.food.len()
            invariant
                board == &game_state.board,
                n_width == board.width,
                n_height == board.height,
                w == n_width,
                h == n_height,
                i <= board.food@.len(),
                laid_out(table_nodes(nodes), w, h, |c: Coord| food_stage(*board, i as int, c)),
                forall|j: int| 0 <= j < i ==> on_board(w, h, #[trigger] board.food@[j]),
            decreases board.food@.len() - i,
        {
            let ghost t0 = table_nodes(nodes);
            let placed = place(&mut nodes, n_width, n_height, &board.food[i], NodeType::Food);
            if placed.is_err() {
                return Err(GraphError::OutOfBounds);
            }
            proof {
                let c = board.food@[i as int];
                assert(listed(board.food@, i + 1, c));
                assert forall|d: Coord| d != c implies #[trigger] food_stage(*board, i + 1, d)
                    == food_stage(*board, i as int, d) by {
                    if listed(board.food@, i + 1, d) {
                        assert(listed(board.food@, i as int, d));
                    }
                }
                lemma_write_keeps_layout(
                    t0,
                    w,
                    h,
                    |c: Coord| food_stage(*board, i as int, c),
                    |c: Coord| food_stage(*board, i + 1, c),
                    c,
                );
            }
            i += 1;
        }

        let mut i: usize = 0;
        while i < board.hazards.len()
            invariant
                board == &game_state.board,
                n_width == board.width,
                n_height == board.height,
                w == n_width,
                h == n_height,
                i <= board.hazards@.len(),
                laid_out(table_nodes(nodes), w, h, |c: Coord| hazard_stage(*board, i as int, c)),
                forall|j: int| 0 <= j < board.food@.len() ==> on_board(w, h, #[trigger] board.food@[j]),
                forall|j: int| 0 <= j < i ==> on_board(w, h, #[trigger] board.hazards@[j]),
            decreases board.hazards@.len() - i,
        {
            let ghost t0 = table_nodes(nodes);
            let placed = place(&mut nodes, n_width, n_height, &board.hazards[i], NodeType::Hazard);
            if placed.is_err() {
                return Err(GraphError::OutOfBounds);
            }
            proof {
                let c = board.hazards@[i as int];
                assert(listed(board.hazards@, i + 1, c));
                assert forall|d: Coord| d != c implies #[trigger] hazard_stage(*board, i + 1, d)
                    == hazard_stage(*board, i as int, d) by {
                    if listed(board.hazards@, i + 1, d) {
                        assert(listed(board.hazards@, i as int, d));
                    }
                }
                lemma_write_keeps_layout(
                    t0,
                    w,
                    h,
                    |c: Coord| hazard_stage(*board, i as int, c),
                    |c: Coord| hazard_stage(*board, i + 1, c),
                    c,
                );
            }
            i += 1;
        }

        let mut k: usize = 0;
        while k < board.snakes.len()
            invariant
                board == &game_state.board,
                n_width == board.width,
                n_height == board.height,
                w == n_width,
                h == n_height,
                k <= board.snakes@.len(),
                laid_out(table_nodes(nodes), w, h, |c: Coord| type_after_snakes(*board, k as nat, c)),
                forall|j: int| 0 <= j < board.food@.len() ==> on_board(w, h, #[trigger] board.food@[j]),
                forall|j: int| 0 <= j < board.hazards@.len() ==> on_board(w, h, #[trigger] board.hazards@[j]),
                forall|kk: int| 0 <= kk < k ==> snake_on_board(w, h, #[trigger] board.snakes@[kk]),
            decreases board.snakes@.len() - k,
        {
            let snake = &board.snakes[k];
            let mut j: usize = 0;
            while j < snake.body.len()
                invariant
                    board == &game_state.board,
                    snake == board.snakes@[k as int],
                    k < board.snakes@.len(),
                    n_width == board.width,
                    n_height == board.height,
                    w == n_width,
                    h == n_height,
                    j <= snake.body@.len(),
                    laid_out(table_nodes(nodes), w, h, |c: Coord| body_stage(*board, k as int, j as int, c)),
                    forall|jj: int| 0 <= jj < j ==> on_board(w, h, #[trigger] snake.body@[jj]),
                decreases snake.body@.len() - j,
            {
                let ghost t0 = table_nodes(nodes);
                let placed = place(&mut nodes, n_width, n_height, &snake.body[j], NodeType::SnakeBody(k));
                if placed.is_err() {
                    proof {
                        assert(!snake_on_board(w, h, board.snakes@[k as int]));
                    }
                    return Err(GraphError::OutOfBounds);
                }
                proof {
                    let c = snake.body@[j as int];
                    let body = snake.body@;
                    assert(listed(body, j + 1, c));
                    assert forall|d: Coord| d != c implies #[trigger] body_stage(*board, k as int, j + 1, d)
                        == body_stage(*board, k as int, j as int, d) by {
                        if listed(body, j + 1, d) {
                            assert(listed(body, j as int, d));
                        }
                    }
                    lemma_write_keeps_layout(
                        t0,
                        w,
                        h,
                        |c: Coord| body_stage(*board, k as int, j as int, c),
                        |c: Coord| body_stage(*board, k as int, j + 1, c),
                        c,
                    );
                }
                j += 1;
            }
            let ghost t0 = table_nodes(nodes);
            let placed = place(&mut nodes, n_width, n_height, &snake.head, NodeType::SnakeHead(k));
            if placed.is_err() {
                return Err(GraphError::OutOfBounds);
            }
            proof {
                let c = snake.head;
                assert forall|d: Coord| d != c implies #[trigger] type_after_snakes(*board, (k + 1) as nat, d)
                    == body_stage(*board, k as int, snake.body@.len() as int, d) by {
                    assert(listed(snake.body@, snake.body@.len() as int, d) == snake.body@.contains(d));
                }
                lemma_write_keeps_layout(
                    t0,
                    w,
                    h,
                    |c: Coord| body_stage(*board, k as int, snake.body@.len() as int, c),
                    |c: Coord| type_after_snakes(*board, (k + 1) as nat, c),
                    c,
                );
            }
            k += 1;
        }

        proof {
            assert forall|c: Coord| #[trigger] hazard_stage(*board, board.hazards@.len() as int, c)
                == ground_type(*board, c) by {
                assert(listed(board.hazards@, board.hazards@.len() as int, c) == board.hazards@.contains(c));
                assert(listed(board.food@, board.food@.len() as int, c) == board.food@.contains(c));
            }
        }
        let g = Graph { width: n_width, height: n_height, nodes };
        proof {
            assert forall|x: u32, y: u32| g.contains(x, y) implies #[trigger] g.node_at(x, y) == (Node {
                x,
                y,
                node_type: expected_type(game_state.board, (Coord { x, y })),
            }) by {
                assert(table_nodes(g.nodes)[y as int][x as int] == (Node {
                    x,
                    y,
                    node_type: type_after_snakes(*board, board.snakes@.len(), (Coord { x, y })),
                }));
            }
        }
        Ok(g)
    }

    /// Number of columns.
    pub fn width(&self) -> (r: usize)
        ensures
            r == self.spec_width(),
    {
        self.width
    }

    /// Number of rows.
    pub fn height(&self) -> (r: usize)
        ensures
            r == self.spec_height(),
    {
        self.height
    }

    /// The node at column `x` of row `y`; an error where that is off the board.
    pub fn get(&self, x: u32, y: u32) -> (r: Result<Node, GraphError>)
        ensures
            self.contains(x, y) ==> r == Ok::<Node, GraphError>(self.node_at(x, y)),
            !self.contains(x, y) ==> r == Err::<Node, GraphError>(GraphError::OutOfBounds),
    {
        proof {
            use_type_invariant(self);
        }
        if (x as usize) < self.width && (y as usize) < self.height {
            Ok(*self.nodes.get_node(x as usize, y as usize))
        } else {
            Err(GraphError::OutOfBounds)
        }
    }
}


/// Whether snake `s` has neither its head nor a body segment on `c`.
pub open spec fn stays_off(s: BattleSnake, c: Coord) -> bool {
    s.head != c && !s.body@.contains(c)
}

/// Snakes `m` to `n - 1`, none of which has its head on `c` or lists it in its
/// body, leave `c` as the first `m` snakes left it.
proof fn lemma_claim_unchanged(snakes: Seq<BattleSnake>, m: nat, n: nat, c: Coord)
    requires
        m <= n <= snakes.len(),
        forall|k: int|
            m <= k < n ==> #[trigger] stays_off(snakes[k], c),
    ensures
        snake_claim(snakes, n, c) == snake_claim(snakes, m, c),
    decreases n,
{
    if n > m {
        assert(stays_off(snakes[n - 1], c));
        lemma_claim_unchanged(snakes, m, (n - 1) as nat, c);
    }
}

/// A coordinate that no food, hazard or snake lists is empty.
pub proof fn lemma_unlisted_is_empty(b: Board, c: Coord)
    requires
        !b.food@.contains(c),
        !b.hazards@.contains(c),
        forall|k: int|
            0 <= k < b.snakes@.len() ==> #[trigger] stays_off(b.snakes@[k], c),
    ensures
        expected_type(b, c) == NodeType::Empty,
{
    lemma_claim_unchanged(b.snakes@, 0, b.snakes@.len(), c);
}

/// A coordinate listed as food, and by no hazard or snake, holds food.
pub proof fn lemma_food_only(b: Board, c: Coord)
    requires
        b.food@.contains(c),
        !b.hazards@.contains(c),
        forall|k: int|
            0 <= k < b.snakes@.len() ==> #[trigger] stays_off(b.snakes@[k], c),
    ensures
        expected_type(b, c) == NodeType::Food,
{
    lemma_claim_unchanged(b.snakes@, 0, b.snakes@.len(), c);
}

/// The head of snake `k` holds that snake's head, also where its body lists the
/// same coordinate, as long as no later snake occupies it.
pub proof fn lemma_head_is_owned(b: Board, k: int, c: Coord)
    requires
        0 <= k < b.snakes@.len(),
        b.snakes@[k].head == c,
        forall|k2: int|
            k < k2 < b.snakes@.len() ==> #[trigger] stays_off(b.snakes@[k2], c),
    ensures
        expected_type(b, c) == NodeType::SnakeHead(k as usize),
{
    lemma_claim_unchanged(b.snakes@, (k + 1) as nat, b.snakes@.len(), c);
}

/// Where the bodies of snakes `i` and `j`, `i` before `j`, both list `c`, the
/// cell belongs to snake `j`: the later write wins, as long as no snake after
/// `j` occupies it.
pub proof fn lemma_later_snake_owns(b: Board, i: int, j: int, c: Coord)
    requires
        0 <= i < j < b.snakes@.len(),
        b.snakes@[i].body@.contains(c),
        b.snakes@[j].body@.contains(c),
        forall|k2: int|
            j < k2 < b.snakes@.len() ==> #[trigger] stays_off(b.snakes@[k2], c),
    ensures
        expected_type(b, c).owner() == Some(j as usize),
{
    lemma_claim_unchanged(b.snakes@, (j + 1) as nat, b.snakes@.len(), c);
}

/// The coordinates that lookups answer on a board with the snapshot's
/// dimensions are exactly those of `[0, width) x [0, height)`.
pub proof fn lemma_dimensions_cover_board(b: Board, g: Graph)
    requires
        g.spec_width() == b.width,
        g.spec_height() == b.height,
    ensures
        forall|x: u32, y: u32| #[trigger] g.contains(x, y) <==> (x < b.width && y < b.height),
{
}

/// A board with no columns or no rows has no coordinate.
pub proof fn lemma_zero_dimension_has_no_cells(g: Graph)
    requires
        g.spec_width() == 0 || g.spec_height() == 0,
    ensures
        forall|x: u32, y: u32| !#[trigger] g.contains(x, y),
{
}

/// A snapshot with no columns or no rows that lists any food, hazard or snake
/// lists a coordinate off the board, so it cannot be built.
pub proof fn lemma_zero_dimension_rejects_entries(b: Board)
    requires
        b.width == 0 || b.height == 0,
        b.food@.len() > 0 || b.hazards@.len() > 0 || b.snakes@.len() > 0,
    ensures
        !all_on_board(b),
{
    if b.food@.len() > 0 {
        assert(!on_board(b.width as nat, b.height as nat, b.food@[0]));
    } else if b.hazards@.len() > 0 {
        assert(!on_board(b.width as nat, b.height as nat, b.hazards@[0]));
    } else {
        assert(!snake_on_board(b.width as nat, b.height as nat, b.snakes@[0]));
    }
}

} // verus!
