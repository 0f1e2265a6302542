//! The grid model: positions, directions, snakes and the shared game state.
//!
//! A snake stores its head and a bounded, newest-first history of direction
//! changes; the cells its body occupies are recomputed on demand as the trace
//! of where the head used to be.

use std::collections::VecDeque;
use vstd::prelude::*;

verus! {

/// A cell of the grid.  Coordinates wrap around at the grid edges: stepping
/// off one side re-enters on the opposite side, so movement never fails.
#[derive(Copy, Clone, Debug, PartialEq, Eq, Structural)]
pub struct Pos {
    pub x: u8,
    pub y: u8,
}

/// A direction of movement, the closed set of variants a datagram may name.
#[derive(Copy, Clone, Debug, PartialEq, Eq, Structural)]
pub enum Dir {
    Up,
    Down,
    Left,
    Right,
}

/// A snake's colour, one byte per channel (red, green, blue, alpha).
/// Purely cosmetic: it travels with the snake but never affects movement.
#[derive(Copy, Clone, Debug, PartialEq, Eq, Structural)]
pub struct Color {
    pub r: u8,
    pub g: u8,
    pub b: u8,
    pub a: u8,
}

/// The coordinate one step below `v`, wrapping 255 back to 0.
pub open spec fn wrap_inc(v: u8) -> u8 {
    if v == 255 {
        0
    } else {
        (v + 1) as u8
    }
}

/// The coordinate one step above `v`, wrapping 0 back to 255.
pub open spec fn wrap_dec(v: u8) -> u8 {
    if v == 0 {
        255
    } else {
        (v - 1) as u8
    }
}

/// Where a single step in direction `d` takes the position `p`.
/// `Up` shrinks `y`, `Down` grows it; `Left` shrinks `x`, `Right` grows it.
pub open spec fn spec_go(p: Pos, d: Dir) -> Pos {
    match d {
        Dir::Up => (Pos { x: p.x, y: wrap_dec(p.y) }),
        Dir::Down => (Pos { x: p.x, y: wrap_inc(p.y) }),
        Dir::Left => (Pos { x: wrap_dec(p.x), y: p.y }),
        Dir::Right => (Pos { x: wrap_inc(p.x), y: p.y }),
    }
}

/// The opposite direction: `Up` and `Down` swap, `Left` and `Right` swap.
pub open spec fn spec_inverse(d: Dir) -> Dir {
    match d {
        Dir::Up => Dir::Down,
        Dir::Down => Dir::Up,
        Dir::Left => Dir::Right,
        Dir::Right => Dir::Left,
    }
}

impl Pos {
    pub fn up(&self) -> (r: Pos)
        ensures
            r == spec_go(*self, Dir::Up),
    {
        Pos { x: self.x, y: if self.y == 0 { 255 } else { self.y - 1 } }
    }

    pub fn down(&self) -> (r: Pos)
        ensures
            r == spec_go(*self, Dir::Down),
    {
        Pos { x: self.x, y: if self.y == 255 { 0 } else { self.y + 1 } }
    }

    pub fn left(&self) -> (r: Pos)
        ensures
            r == spec_go(*self, Dir::Left),
    {
        Pos { x: if self.x == 0 { 255 } else { self.x - 1 }, y: self.y }
    }

    pub fn right(&self) -> (r: Pos)
        ensures
            r == spec_go(*self, Dir::Right),
    {
        Pos { x: if self.x == 255 { 0 } else { self.x + 1 }, y: self.y }
    }

    /// The position one step from `self` in direction `dir`.
    pub fn go(&self, dir: &Dir) -> (r: Pos)
        ensures
            r == spec_go(*self, *dir),
    {
        match dir {
            Dir::Up => self.up(),
            Dir::Down => self.down(),
            Dir::Left => self.left(),
            Dir::Right => self.right(),
        }
    }
}

impl Dir {
    /// The opposite direction.
    pub fn inverse(&self) -> (r: Dir)
        ensures
            r == spec_inverse(*self),
    {
        match self {
            Dir::Up => Dir::Down,
            Dir::Down => Dir::Up,
            Dir::Left => Dir::Right,
            Dir::Right => Dir::Left,
        }
    }
}

/// `inverse` is an involution: applying it twice gives the direction back.
pub proof fn lemma_inverse_involutive(d: Dir)
    ensures
        spec_inverse(spec_inverse(d)) == d,
{
}

/// A step in direction `d` followed by a step in `inverse(d)` returns to the
/// starting position, whatever that position is (wrap-around included).
pub proof fn lemma_go_inverse(p: Pos, d: Dir)
    ensures
        spec_go(spec_go(p, d), spec_inverse(d)) == p,
{
}

/// The mathematical value of a [`Snake`]: its head, its move history
/// (newest first) and its colour.
#[verifier::ext_equal]
pub ghost struct SnakeModel {
    pub head: Pos,
    pub moves: Seq<Dir>,
    pub color: Color,
}

/// One snake.  `moves` holds the directions of the most recent steps, newest
/// first; its length never changes after construction, so the snake's body
/// length (`moves.len() + 1`) is fixed.
pub struct Snake {
    pub head: Pos,
    pub moves: VecDeque<Dir>,
    pub color: Color,
}

impl View for Snake {
    type V = SnakeModel;

    open spec fn view(&self) -> SnakeModel {
        SnakeModel { head: self.head, moves: self.moves@, color: self.color }
    }
}

/// What one call of [`Snake::go`] does to a snake's value: the head takes a
/// step in direction `d`, `d` is pushed onto the front of the history and the
/// oldest entry falls off the back, keeping the history length unchanged.
pub open spec fn spec_snake_go(s: SnakeModel, d: Dir) -> SnakeModel {
    SnakeModel {
        head: spec_go(s.head, d),
        moves: (seq![d] + s.moves).take(s.moves.len() as int),
        color: s.color,
    }
}

/// The cells a snake's body occupies, derived from its head and history:
/// the first cell is the head, and each later cell is reached by undoing one
/// recorded move (applying its inverse), newest move first.  The body is the
/// trace of where the head used to be, not an independent set of cells.
pub open spec fn body_trace(head: Pos, moves: Seq<Dir>) -> Seq<Pos>
    decreases moves.len(),
{
    if moves.len() == 0 {
        seq![head]
    } else {
        seq![head] + body_trace(spec_go(head, spec_inverse(moves[0])), moves.drop_first())
    }
}

/// A body trace always has one more cell than there are recorded moves.
pub proof fn lemma_body_trace_len(head: Pos, moves: Seq<Dir>)
    ensures
        body_trace(head, moves).len() == moves.len() + 1,
    decreases moves.len(),
{
    if moves.len() > 0 {
        lemma_body_trace_len(spec_go(head, spec_inverse(moves[0])), moves.drop_first());
    }
}

/// Appending a move `d` to the back of the history appends one cell to the
/// body: the cell one `inverse(d)` step beyond the previous last cell.
pub proof fn lemma_body_trace_snoc(head: Pos, moves: Seq<Dir>, d: Dir)
    ensures
        body_trace(head, moves.push(d)) == body_trace(head, moves).push(
            spec_go(body_trace(head, moves).last(), spec_inverse(d)),
        ),
    decreases moves.len(),
{
    lemma_body_trace_len(head, moves);
    if moves.len() == 0 {
        let h1 = spec_go(head, spec_inverse(d));
        assert(moves.push(d)[0] == d);
        assert(moves.push(d).drop_first() =~= Seq::<Dir>::empty());
        assert(body_trace(h1, moves.push(d).drop_first()) =~= seq![h1]);
        assert(body_trace(head, moves.push(d)) =~= body_trace(head, moves).push(
            spec_go(body_trace(head, moves).last(), spec_inverse(d)),
        ));
    } else {
        let h1 = spec_go(head, spec_inverse(moves[0]));
        assert(moves.push(d)[0] == moves[0]);
        assert(moves.push(d).drop_first() =~= moves.drop_first().push(d));
        lemma_body_trace_snoc(h1, moves.drop_first(), d);
        lemma_body_trace_len(h1, moves.drop_first());
        assert(body_trace(head, moves.push(d)) == seq![head] + body_trace(
            h1,
            moves.drop_first().push(d),
        ));
        assert(body_trace(head, moves) == seq![head] + body_trace(h1, moves.drop_first()));
        assert(body_trace(head, moves).last() == body_trace(h1, moves.drop_first()).last());
        assert(body_trace(head, moves.push(d)) =~= body_trace(head, moves).push(
            spec_go(body_trace(head, moves).last(), spec_inverse(d)),
        ));
    }
}

/// The body is a pure function of head and move history: two snakes that
/// agree on both occupy exactly the same cells, however they were built.
pub proof fn lemma_body_trace_pure(a: SnakeModel, b: SnakeModel)
    requires
        a.head == b.head,
        a.moves == b.moves,
    ensures
        body_trace(a.head, a.moves) == body_trace(b.head, b.moves),
{
}

/// A snake's value after a whole sequence of `go` calls, oldest call first.
pub open spec fn apply_moves(s: SnakeModel, ds: Seq<Dir>) -> SnakeModel
    decreases ds.len(),
{
    if ds.len() == 0 {
        s
    } else {
        apply_moves(spec_snake_go(s, ds[0]), ds.drop_first())
    }
}

/// Moving never changes a snake's length: after any sequence of `go` calls
/// the history length is unchanged and the body still has one cell more.
pub proof fn lemma_length_invariant(s: SnakeModel, ds: Seq<Dir>)
    ensures
        apply_moves(s, ds).moves.len() == s.moves.len(),
        body_trace(apply_moves(s, ds).head, apply_moves(s, ds).moves).len() == s.moves.len() + 1,
    decreases ds.len(),
{
    if ds.len() == 0 {
        lemma_body_trace_len(s.head, s.moves);
    } else {
        lemma_length_invariant(spec_snake_go(s, ds[0]), ds.drop_first());
    }
}

/// `go(d)` then `go(inverse(d))` brings the head back to where it started,
/// but the history window has shifted: the two newest entries are now
/// `inverse(d)` and `d`, and the two oldest recorded moves have been evicted.
/// The body shape after the pair of calls need not equal what it was.
pub proof fn lemma_go_then_inverse(s: SnakeModel, d: Dir)
    ensures
        spec_snake_go(spec_snake_go(s, d), spec_inverse(d)).head == s.head,
        spec_snake_go(spec_snake_go(s, d), spec_inverse(d)).moves.len() == s.moves.len(),
        s.moves.len() >= 2 ==> spec_snake_go(spec_snake_go(s, d), spec_inverse(d)).moves
            =~= seq![spec_inverse(d), d] + s.moves.take(s.moves.len() - 2),
        spec_snake_go(spec_snake_go(s, d), spec_inverse(d)).color == s.color,
{
    lemma_go_inverse(s.head, d);
}

impl Snake {
    /// Take one step in direction `dir`: the head moves, `dir` becomes the
    /// newest recorded move and the oldest one is evicted (ring-buffer
    /// semantics), so the history length — and the body length — is constant.
    pub fn go(&mut self, dir: Dir)
        ensures
            final(self)@ == spec_snake_go(old(self)@, dir),
            final(self).moves@.len() == old(self).moves@.len(),
    {
        self.head = self.head.go(&dir);
        self.moves.push_front(dir);
        self.moves.pop_back();
        proof {
            assert(self@ =~= spec_snake_go(old(self)@, dir));
        }
    }

    /// The cells this snake's body occupies, head first, recomputed from
    /// scratch on every call.  Always `moves.len() + 1` cells long.
    pub fn to_body_positions(&self) -> (r: Vec<Pos>)
        ensures
            r@ == body_trace(self.head, self.moves@),
            r@.len() == self.moves@.len() + 1,
    {
        let mut body_positions: Vec<Pos> = Vec::new();
        body_positions.push(self.head);
        let mut curr_pos = self.head;
        proof {
            assert(self.moves@.take(0) =~= Seq::<Dir>::empty());
        }
        let n = self.moves.len();
        for i in 0..n
            invariant
                n == self.moves@.len(),
                body_positions@ == body_trace(self.head, self.moves@.take(i as int)),
                body_positions@.len() == i + 1,
                curr_pos == body_positions@.last(),
        {
            let mov = self.moves[i];
            curr_pos = curr_pos.go(&mov.inverse());
            body_positions.push(curr_pos);
            proof {
                lemma_body_trace_snoc(self.head, self.moves@.take(i as int), self.moves@[i as int]);
                assert(self.moves@.take(i as int).push(self.moves@[i as int]) =~= self.moves@.take(
                    i + 1,
                ));
            }
        }
        proof {
            assert(self.moves@.take(n as int) =~= self.moves@);
            lemma_body_trace_len(self.head, self.moves@);
        }
        body_positions
    }
}

/// The shared game state: every snake in play, in server order.  On the
/// networked client a freshly decoded snapshot replaces the whole value; in
/// single-player play the one owned snake is mutated in place.
pub struct GameState {
    pub snakes: Vec<Snake>,
}

impl View for GameState {
    type V = Seq<SnakeModel>;

    open spec fn view(&self) -> Seq<SnakeModel> {
        self.snakes@.map_values(|s: Snake| s@)
    }
}

/// The initial shared state: one snake at (20, 20) with an empty move
/// history (body length 1) and a magenta colour.
pub open spec fn spec_initial_state() -> Seq<SnakeModel> {
    seq![
        (SnakeModel {
            head: (Pos { x: 20, y: 20 }),
            moves: Seq::<Dir>::empty(),
            color: (Color { r: 255, g: 0, b: 255, a: 255 }),
        }),
    ]
}

impl GameState {
    /// The initial state, as [`spec_initial_state`] says.
    pub fn new() -> (g: GameState)
        ensures
            g@ == spec_initial_state(),
    {
        let moves: VecDeque<Dir> = VecDeque::new();
        let mut snakes: Vec<Snake> = Vec::new();
        snakes.push(
            Snake {
                head: Pos { x: 20, y: 20 },
                moves,
                color: Color { r: 255, g: 0, b: 255, a: 255 },
            },
        );
        let g = GameState { snakes };
        proof {
            assert(g@ =~= seq![
                (SnakeModel {
                    head: (Pos { x: 20, y: 20 }),
                    moves: Seq::<Dir>::empty(),
                    color: (Color { r: 255, g: 0, b: 255, a: 255 }),
                }),
            ]);
        }
        g
    }

    /// What one rendered frame shows: the body cells of every snake, in
    /// order.  The drawing itself is the external collaborator's; this is
    /// the computed half of rendering, and it mutates nothing.
    pub fn frame_positions(&self) -> (r: Vec<Vec<Pos>>)
        ensures
            r@.len() == self@.len(),
            forall|i: int|
                0 <= i < r@.len() ==> r@[i]@ == body_trace(self@[i].head, self@[i].moves),
    {
        let mut r: Vec<Vec<Pos>> = Vec::new();
        let n = self.snakes.len();
        for i in 0..n
            invariant
                n == self.snakes@.len(),
                r@.len() == i,
                forall|j: int|
                    0 <= j < i ==> r@[j]@ == body_trace(self@[j].head, self@[j].moves),
        {
            r.push(self.snakes[i].to_body_positions());
        }
        r
    }
}

} // verus!

