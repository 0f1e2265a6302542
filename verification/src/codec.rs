//! The wire format for game-state snapshots.
//!
//! A snapshot is a single textual datagram payload.  It opens with `{` —
//! the byte the client inspects to tell snapshots from everything else —
//! and closes with `}`.  Between the braces each snake is written as
//!
//! `(` xxx yyy moves `:` rrr ggg bbb aaa `)`
//!
//! where every number is exactly three decimal digits (zero-padded) and
//! `moves` is one letter per recorded move, newest first: `U`, `D`, `L`
//! or `R`.  The format is rigid on purpose: every value has exactly one
//! encoding, decoding is total over arbitrary bytes, and
//! [`lemma_round_trip`] proves that decoding an encoding gives back
//! exactly the encoded state.

use crate::game::Color;
use crate::game::Dir;
use crate::game::GameState;
use crate::game::Pos;
use crate::game::Snake;
use crate::game::SnakeModel;
use std::collections::VecDeque;
use vstd::arithmetic::div_mod::lemma_div_denominator;
use vstd::arithmetic::div_mod::lemma_fundamental_div_mod;
use vstd::arithmetic::div_mod::lemma_mod_bound;
use vstd::prelude::*;

verus! {

/// The three zero-padded decimal digit bytes of `n`.
pub open spec fn enc_u8(n: u8) -> Seq<u8> {
    seq![
        (48 + (n as int) / 100) as u8,
        (48 + ((n as int) / 10) % 10) as u8,
        (48 + (n as int) % 10) as u8,
    ]
}

/// The letter a direction is written as: `U`, `D`, `L` or `R`.
pub open spec fn dir_byte(d: Dir) -> u8 {
    match d {
        Dir::Up => 85,
        Dir::Down => 68,
        Dir::Left => 76,
        Dir::Right => 82,
    }
}

/// A move history, one letter per move, newest first.
pub open spec fn enc_dirs(m: Seq<Dir>) -> Seq<u8> {
    m.map_values(|d: Dir| dir_byte(d))
}

/// One snake: `(`, head x, head y, moves, `:`, the four colour channels, `)`.
pub open spec fn enc_snake(s: SnakeModel) -> Seq<u8> {
    seq![40u8] + enc_u8(s.head.x) + enc_u8(s.head.y) + enc_dirs(s.moves) + seq![58u8] + enc_u8(
        s.color.r,
    ) + enc_u8(s.color.g) + enc_u8(s.color.b) + enc_u8(s.color.a) + seq![41u8]
}

/// All snakes, in order, one encoding after the other.
pub open spec fn enc_snakes(g: Seq<SnakeModel>) -> Seq<u8>
    decreases g.len(),
{
    if g.len() == 0 {
        Seq::<u8>::empty()
    } else {
        enc_snake(g[0]) + enc_snakes(g.drop_first())
    }
}

/// A whole snapshot: `{`, the snakes, `}`.
pub open spec fn spec_encode(g: Seq<SnakeModel>) -> Seq<u8> {
    seq![123u8] + enc_snakes(g) + seq![125u8]
}

/// An ASCII decimal digit.
pub open spec fn is_digit(b: u8) -> bool {
    48 <= b <= 57
}

/// Reads three digit bytes at `i` as one number, if they are there, they are
/// digits and their value fits in a byte.  Returns the value and the index
/// just past it.
pub open spec fn parse_u8(s: Seq<u8>, i: int) -> Option<(u8, int)> {
    if 0 <= i && i + 3 <= s.len() && is_digit(s[i]) && is_digit(s[i + 1]) && is_digit(s[i + 2]) {
        let v = (s[i] - 48) * 100 + (s[i + 1] - 48) * 10 + (s[i + 2] - 48);
        if v <= 255 {
            Some(((v as u8), i + 3))
        } else {
            None
        }
    } else {
        None
    }
}

/// The direction a letter stands for, if any.
pub open spec fn byte_dir(b: u8) -> Option<Dir> {
    if b == 85 {
        Some(Dir::Up)
    } else if b == 68 {
        Some(Dir::Down)
    } else if b == 76 {
        Some(Dir::Left)
    } else if b == 82 {
        Some(Dir::Right)
    } else {
        None
    }
}

/// Reads direction letters from `i` up to the closing `:`, which is
/// consumed.  Fails on any other byte and at the end of input.
pub open spec fn parse_dirs(s: Seq<u8>, i: int) -> Option<(Seq<Dir>, int)>
    decreases s.len() - i,
{
    if 0 <= i && i < s.len() {
        if s[i] == 58 {
            Some((Seq::<Dir>::empty(), i + 1))
        } else {
            match byte_dir(s[i]) {
                Some(d) => match parse_dirs(s, i + 1) {
                    Some(q) => Some((seq![d] + q.0, q.1)),
                    None => None,
                },
                None => None,
            }
        }
    } else {
        None
    }
}

/// Reads one snake encoding starting at `i`: `(`, two numbers, the moves,
/// four colour channels, `)`.
pub open spec fn parse_snake(s: Seq<u8>, i: int) -> Option<(SnakeModel, int)> {
    if 0 <= i && i < s.len() && s[i] == 40 {
        match parse_u8(s, i + 1) {
            Some(px) => match parse_u8(s, px.1) {
                Some(py) => match parse_dirs(s, py.1) {
                    Some(pm) => match parse_u8(s, pm.1) {
                        Some(pr) => match parse_u8(s, pr.1) {
                            Some(pg) => match parse_u8(s, pg.1) {
                                Some(pb) => match parse_u8(s, pb.1) {
                                    Some(pa) => if pa.1 < s.len() && s[pa.1] == 41 {
                                        Some(
                                            (
                                                SnakeModel {
                                                    head: (Pos { x: px.0, y: py.0 }),
                                                    moves: pm.0,
                                                    color: (Color {
                                                        r: pr.0,
                                                        g: pg.0,
                                                        b: pb.0,
                                                        a: pa.0,
                                                    }),
                                                },
                                                pa.1 + 1,
                                            ),
                                        )
                                    } else {
                                        None
                                    },
                                    None => None,
                                },
                                None => None,
                            },
                            None => None,
                        },
                        None => None,
                    },
                    None => None,
                },
                None => None,
            },
            None => None,
        }
    } else {
        None
    }
}

/// Reads snake encodings from `i` up to the closing `}`, which is consumed.
pub open spec fn parse_snakes(s: Seq<u8>, i: int) -> Option<(Seq<SnakeModel>, int)>
    decreases s.len() - i,
{
    if 0 <= i && i < s.len() {
        if s[i] == 125 {
            Some((Seq::<SnakeModel>::empty(), i + 1))
        } else {
            match parse_snake(s, i) {
                Some(p) => if i < p.1 <= s.len() {
                    match parse_snakes(s, p.1) {
                        Some(q) => Some((seq![p.0] + q.0, q.1)),
                        None => None,
                    }
                } else {
                    None
                },
                None => None,
            }
        }
    } else {
        None
    }
}

/// What an arbitrary payload means as a snapshot: it must begin with `{`
/// and consist of exactly one snapshot encoding, nothing after it.
/// Everything else decodes to `None`.
pub open spec fn spec_decode(s: Seq<u8>) -> Option<Seq<SnakeModel>> {
    if s.len() > 0 && s[0] == 123 {
        match parse_snakes(s, 1) {
            Some(q) => if q.1 == s.len() {
                Some(q.0)
            } else {
                None
            },
            None => None,
        }
    } else {
        None
    }
}

/// The three digits of `n` are digits and stand for `n` again.
proof fn lemma_digits_value(n: u8)
    ensures
        0 <= (n as int) / 100 <= 2,
        0 <= ((n as int) / 10) % 10 <= 9,
        0 <= (n as int) % 10 <= 9,
        ((n as int) / 100) * 100 + (((n as int) / 10) % 10) * 10 + (n as int) % 10 == n as int,
{
    let x = n as int;
    lemma_fundamental_div_mod(x, 10);
    lemma_mod_bound(x, 10);
    lemma_fundamental_div_mod(x / 10, 10);
    lemma_mod_bound(x / 10, 10);
    lemma_div_denominator(x, 10, 10);
    lemma_fundamental_div_mod(x, 100);
    lemma_mod_bound(x, 100);
}

/// Three encoded digit bytes at `i` parse back to the encoded number.
proof fn lemma_parse_u8_at(s: Seq<u8>, i: int, n: u8)
    requires
        0 <= i,
        i + 3 <= s.len(),
        s[i] == enc_u8(n)[0],
        s[i + 1] == enc_u8(n)[1],
        s[i + 2] == enc_u8(n)[2],
    ensures
        parse_u8(s, i) == Some((n, i + 3)),
{
    lemma_digits_value(n);
}

/// An encoded move history at `i`, followed by `:`, parses back to the
/// encoded moves, consuming the `:`.
proof fn lemma_parse_dirs_at(s: Seq<u8>, i: int, m: Seq<Dir>)
    requires
        0 <= i,
        i + m.len() + 1 <= s.len(),
        forall|k: int| 0 <= k < m.len() ==> s[i + k] == dir_byte(m[k]),
        s[i + m.len()] == 58,
    ensures
        parse_dirs(s, i) == Some((m, i + m.len() + 1)),
    decreases m.len(),
{
    if m.len() == 0 {
        assert(m =~= Seq::<Dir>::empty());
    } else {
        assert(s[i] == dir_byte(m[0]));
        assert(forall|k: int|
            0 <= k < m.drop_first().len() ==> s[i + 1 + k] == dir_byte(m.drop_first()[k])) by {
            assert forall|k: int|
                0 <= k < m.drop_first().len() implies s[i + 1 + k] == dir_byte(
                m.drop_first()[k],
            ) by {
                let kk = k + 1;
                assert(s[i + kk] == dir_byte(m[kk]));
                assert(i + 1 + k == i + kk);
            }
        }
        lemma_parse_dirs_at(s, i + 1, m.drop_first());
        assert(seq![m[0]] + m.drop_first() =~= m);
    }
}

/// How long one snake's encoding is: the fixed framing plus one byte per move.
pub open spec fn enc_snake_len(sm: SnakeModel) -> int {
    21 + sm.moves.len() as int
}

proof fn lemma_enc_snake_len(sm: SnakeModel)
    ensures
        enc_snake(sm).len() == enc_snake_len(sm),
{
}

/// One encoded snake at `i` parses back to the encoded snake.
proof fn lemma_parse_snake_at(s: Seq<u8>, i: int, sm: SnakeModel)
    requires
        0 <= i,
        i + enc_snake_len(sm) <= s.len(),
        forall|k: int| 0 <= k < enc_snake_len(sm) ==> s[i + k] == enc_snake(sm)[k],
    ensures
        parse_snake(s, i) == Some((sm, i + enc_snake_len(sm))),
{
    let e = enc_snake(sm);
    let ml = sm.moves.len() as int;
    lemma_enc_snake_len(sm);
    assert(s[i + 0] == e[0]);
    assert(e[0] == 40);
    assert(s[i + 1] == e[1] && s[i + 2] == e[2] && s[i + 3] == e[3]);
    assert(e[1] == enc_u8(sm.head.x)[0] && e[2] == enc_u8(sm.head.x)[1] && e[3] == enc_u8(
        sm.head.x,
    )[2]);
    lemma_parse_u8_at(s, i + 1, sm.head.x);
    assert(s[i + 4] == e[4] && s[i + 5] == e[5] && s[i + 6] == e[6]);
    assert(e[4] == enc_u8(sm.head.y)[0] && e[5] == enc_u8(sm.head.y)[1] && e[6] == enc_u8(
        sm.head.y,
    )[2]);
    lemma_parse_u8_at(s, i + 4, sm.head.y);
    assert(forall|k: int| 0 <= k < ml ==> s[i + 7 + k] == dir_byte(sm.moves[k])) by {
        assert forall|k: int| 0 <= k < ml implies s[i + 7 + k] == dir_byte(sm.moves[k]) by {
            let kk = 7 + k;
            assert(s[i + kk] == e[kk]);
            assert(e[kk] == enc_dirs(sm.moves)[k]);
            assert(i + 7 + k == i + kk);
        }
    }
    assert(s[i + 7 + ml] == e[7 + ml]);
    assert(e[7 + ml] == 58);
    lemma_parse_dirs_at(s, i + 7, sm.moves);
    let c0 = i + 8 + ml;
    assert(s[c0] == e[8 + ml] && s[c0 + 1] == e[9 + ml] && s[c0 + 2] == e[10 + ml]);
    assert(e[8 + ml] == enc_u8(sm.color.r)[0] && e[9 + ml] == enc_u8(sm.color.r)[1] && e[10 + ml]
        == enc_u8(sm.color.r)[2]);
    lemma_parse_u8_at(s, c0, sm.color.r);
    assert(s[c0 + 3] == e[11 + ml] && s[c0 + 4] == e[12 + ml] && s[c0 + 5] == e[13 + ml]);
    assert(e[11 + ml] == enc_u8(sm.color.g)[0] && e[12 + ml] == enc_u8(sm.color.g)[1] && e[13 + ml]
        == enc_u8(sm.color.g)[2]);
    lemma_parse_u8_at(s, c0 + 3, sm.color.g);
    assert(s[c0 + 6] == e[14 + ml] && s[c0 + 7] == e[15 + ml] && s[c0 + 8] == e[16 + ml]);
    assert(e[14 + ml] == enc_u8(sm.color.b)[0] && e[15 + ml] == enc_u8(sm.color.b)[1] && e[16 + ml]
        == enc_u8(sm.color.b)[2]);
    lemma_parse_u8_at(s, c0 + 6, sm.color.b);
    assert(s[c0 + 9] == e[17 + ml] && s[c0 + 10] == e[18 + ml] && s[c0 + 11] == e[19 + ml]);
    assert(e[17 + ml] == enc_u8(sm.color.a)[0] && e[18 + ml] == enc_u8(sm.color.a)[1] && e[19 + ml]
        == enc_u8(sm.color.a)[2]);
    lemma_parse_u8_at(s, c0 + 9, sm.color.a);
    assert(s[c0 + 12] == e[20 + ml]);
    assert(e[20 + ml] == 41);
}

/// A run of encoded snakes at `i`, followed by `}`, parses back to the
/// encoded sequence, consuming the `}`.
proof fn lemma_parse_snakes_at(s: Seq<u8>, i: int, g: Seq<SnakeModel>)
    requires
        0 <= i,
        i + enc_snakes(g).len() + 1 <= s.len(),
        forall|k: int| 0 <= k < enc_snakes(g).len() ==> s[i + k] == enc_snakes(g)[k],
        s[i + enc_snakes(g).len()] == 125,
    ensures
        parse_snakes(s, i) == Some((g, i + enc_snakes(g).len() + 1)),
    decreases g.len(),
{
    if g.len() == 0 {
        assert(g =~= Seq::<SnakeModel>::empty());
    } else {
        let e = enc_snakes(g);
        let e0 = enc_snake(g[0]);
        let l0 = enc_snake_len(g[0]);
        lemma_enc_snake_len(g[0]);
        assert(e == e0 + enc_snakes(g.drop_first()));
        assert(forall|k: int| 0 <= k < l0 ==> s[i + k] == e0[k]) by {
            assert forall|k: int| 0 <= k < l0 implies s[i + k] == e0[k] by {
                assert(s[i + k] == e[k]);
                assert(e[k] == e0[k]);
            }
        }
        lemma_parse_snake_at(s, i, g[0]);
        assert(s[i] == e0[0] && e0[0] == 40);
        let j = i + l0;
        let e1 = enc_snakes(g.drop_first());
        assert(forall|k: int| 0 <= k < e1.len() ==> s[j + k] == e1[k]) by {
            assert forall|k: int| 0 <= k < e1.len() implies s[j + k] == e1[k] by {
                let kk = l0 + k;
                assert(s[i + kk] == e[kk]);
                assert(e[kk] == e1[k]);
                assert(j + k == i + kk);
            }
        }
        assert(s[j + e1.len()] == 125) by {
            let kk = l0 + e1.len();
            assert(i + kk == i + e.len());
        }
        lemma_parse_snakes_at(s, j, g.drop_first());
        assert(seq![g[0]] + g.drop_first() =~= g);
    }
}

/// Decoding is a left inverse of encoding: any game state's snapshot decodes
/// back to exactly that state.
pub proof fn lemma_round_trip(g: Seq<SnakeModel>)
    ensures
        spec_decode(spec_encode(g)) == Some(g),
{
    let s = spec_encode(g);
    let e = enc_snakes(g);
    assert(s.len() == e.len() + 2);
    assert(s[0] == 123);
    assert(forall|k: int| 0 <= k < e.len() ==> s[1 + k] == e[k]) by {
        assert forall|k: int| 0 <= k < e.len() implies s[1 + k] == e[k] by {
            assert(s[1 + k] == (seq![123u8] + e)[1 + k]);
        }
    }
    assert(s[1 + e.len() as int] == 125);
    lemma_parse_snakes_at(s, 1, g);
}

/// Appending one more snake to a state appends its encoding to the run.
proof fn lemma_enc_snakes_snoc(g: Seq<SnakeModel>, sm: SnakeModel)
    ensures
        enc_snakes(g.push(sm)) == enc_snakes(g) + enc_snake(sm),
    decreases g.len(),
{
    if g.len() == 0 {
        assert(g.push(sm).drop_first() =~= Seq::<SnakeModel>::empty());
        assert(g.push(sm)[0] == sm);
        assert(enc_snakes(Seq::<SnakeModel>::empty()) =~= Seq::<u8>::empty());
        assert(enc_snakes(g.push(sm)) =~= enc_snakes(g) + enc_snake(sm));
    } else {
        assert(g.push(sm)[0] == g[0]);
        assert(g.push(sm).drop_first() =~= g.drop_first().push(sm));
        lemma_enc_snakes_snoc(g.drop_first(), sm);
        assert(enc_snakes(g.push(sm)) =~= enc_snakes(g) + enc_snake(sm));
    }
}

/// Appends the three digit bytes of `n`.
fn push_digits(out: &mut Vec<u8>, n: u8)
    ensures
        final(out)@ == old(out)@ + enc_u8(n),
{
    proof {
        lemma_digits_value(n);
    }
    out.push(48 + n / 100);
    out.push(48 + (n / 10) % 10);
    out.push(48 + n % 10);
    proof {
        assert(out@ =~= old(out)@ + enc_u8(n));
    }
}

/// The letter for one direction.
fn dir_to_byte(d: &Dir) -> (b: u8)
    ensures
        b == dir_byte(*d),
{
    match d {
        Dir::Up => 85,
        Dir::Down => 68,
        Dir::Left => 76,
        Dir::Right => 82,
    }
}

/// Appends the encoding of one snake.
fn push_snake(out: &mut Vec<u8>, s: &Snake)
    ensures
        final(out)@ == old(out)@ + enc_snake(s@),
{
    let ghost pre = out@;
    out.push(40);
    push_digits(out, s.head.x);
    push_digits(out, s.head.y);
    let n = s.moves.len();
    for i in 0..n
        invariant
            n == s.moves@.len(),
            out@ == pre + seq![40u8] + enc_u8(s.head.x) + enc_u8(s.head.y) + enc_dirs(
                s.moves@.take(i as int),
            ),
    {
        let b = dir_to_byte(&s.moves[i]);
        out.push(b);
        proof {
            assert(s.moves@.take(i as int).push(s.moves@[i as int]) =~= s.moves@.take(i + 1));
            assert(enc_dirs(s.moves@.take(i + 1)) =~= enc_dirs(s.moves@.take(i as int)).push(
                dir_byte(s.moves@[i as int]),
            ));
            assert(out@ =~= pre + seq![40u8] + enc_u8(s.head.x) + enc_u8(s.head.y) + enc_dirs(
                s.moves@.take(i + 1),
            ));
        }
    }
    out.push(58);
    push_digits(out, s.color.r);
    push_digits(out, s.color.g);
    push_digits(out, s.color.b);
    push_digits(out, s.color.a);
    out.push(41);
    proof {
        assert(s.moves@.take(n as int) =~= s.moves@);
        assert(out@ =~= pre + enc_snake(s@));
    }
}

/// Encodes a whole game state as one snapshot payload.
pub fn encode(gs: &GameState) -> (r: Vec<u8>)
    ensures
        r@ == spec_encode(gs@),
{
    let mut out: Vec<u8> = Vec::new();
    out.push(123);
    let n = gs.snakes.len();
    for i in 0..n
        invariant
            n == gs.snakes@.len(),
            out@ == seq![123u8] + enc_snakes(gs@.take(i as int)),
    {
        push_snake(&mut out, &gs.snakes[i]);
        proof {
            lemma_enc_snakes_snoc(gs@.take(i as int), gs@[i as int]);
            assert(gs@.take(i as int).push(gs@[i as int]) =~= gs@.take(i + 1));
            assert(out@ =~= seq![123u8] + enc_snakes(gs@.take(i + 1)));
        }
    }
    out.push(125);
    proof {
        assert(gs@.take(n as int) =~= gs@);
        assert(out@ =~= spec_encode(gs@));
    }
    out
}

/// Wherever reading moves succeeds, the index moved forward and stayed
/// within the payload.
proof fn lemma_parse_dirs_bounds(s: Seq<u8>, i: int)
    ensures
        parse_dirs(s, i) matches Some(q) ==> i < q.1 <= s.len(),
    decreases s.len() - i,
{
    if 0 <= i && i < s.len() && s[i] != 58 && byte_dir(s[i]) is Some {
        lemma_parse_dirs_bounds(s, i + 1);
    }
}

/// Wherever reading one snake succeeds, the index moved forward and stayed
/// within the payload.
proof fn lemma_parse_snake_bounds(s: Seq<u8>, i: int)
    ensures
        parse_snake(s, i) matches Some(p) ==> i < p.1 <= s.len(),
{
    if 0 <= i && i < s.len() && s[i] == 40 {
        match parse_u8(s, i + 1) {
            Some(px) => match parse_u8(s, px.1) {
                Some(py) => lemma_parse_dirs_bounds(s, py.1),
                None => (),
            },
            None => (),
        }
    }
}

/// Reads three digit bytes as one number, as [`parse_u8`] says.
fn parse_u8_exec(s: &Vec<u8>, i: usize) -> (r: Option<(u8, usize)>)
    requires
        i <= s@.len(),
    ensures
        r matches Some(p) ==> parse_u8(s@, i as int) == Some((p.0, p.1 as int)),
        r is None ==> parse_u8(s@, i as int) is None,
{
    if s.len() - i >= 3 {
        let d0 = s[i];
        let d1 = s[i + 1];
        let d2 = s[i + 2];
        if 48 <= d0 && d0 <= 57 && 48 <= d1 && d1 <= 57 && 48 <= d2 && d2 <= 57 {
            let v: u16 = (d0 - 48) as u16 * 100 + (d1 - 48) as u16 * 10 + (d2 - 48) as u16;
            if v <= 255 {
                Some((v as u8, i + 3))
            } else {
                None
            }
        } else {
            None
        }
    } else {
        None
    }
}

/// Reads one direction letter, as [`byte_dir`] says.
fn byte_to_dir(b: u8) -> (r: Option<Dir>)
    ensures
        r == byte_dir(b),
{
    if b == 85 {
        Some(Dir::Up)
    } else if b == 68 {
        Some(Dir::Down)
    } else if b == 76 {
        Some(Dir::Left)
    } else if b == 82 {
        Some(Dir::Right)
    } else {
        None
    }
}

/// Reads direction letters up to the closing `:`, as [`parse_dirs`] says.
fn parse_dirs_exec(s: &Vec<u8>, i: usize) -> (r: Option<(VecDeque<Dir>, usize)>)
    requires
        i <= s@.len(),
    ensures
        r matches Some(p) ==> (parse_dirs(s@, i as int) matches Some(q) && p.0@ == q.0 && p.1
            as int == q.1),
        r is None ==> parse_dirs(s@, i as int) is None,
{
    let mut acc: VecDeque<Dir> = VecDeque::new();
    let mut cur = i;
    loop
        invariant
            i <= cur <= s@.len(),
            parse_dirs(s@, cur as int) is Some ==> (parse_dirs(s@, i as int) matches Some(p)
                && parse_dirs(s@, cur as int) matches Some(q) && p.0 == acc@ + q.0 && p.1 == q.1),
            parse_dirs(s@, cur as int) is None ==> parse_dirs(s@, i as int) is None,
        decreases s@.len() - cur,
    {
        if cur == s.len() {
            return None;
        }
        let b = s[cur];
        if b == 58 {
            proof {
                assert(parse_dirs(s@, cur as int) == Some((Seq::<Dir>::empty(), cur + 1)));
                assert(acc@ + Seq::<Dir>::empty() =~= acc@);
            }
            return Some((acc, cur + 1));
        }
        match byte_to_dir(b) {
            Some(d) => {
                let ghost acc0 = acc@;
                let ghost cur0 = cur as int;
                acc.push_back(d);
                cur = cur + 1;
                proof {
                    match parse_dirs(s@, cur as int) {
                        Some(q) => {
                            assert(parse_dirs(s@, cur0) == Some((seq![d] + q.0, q.1)));
                            assert(acc0 + (seq![d] + q.0) =~= acc@ + q.0);
                        },
                        None => {
                            assert(parse_dirs(s@, cur0) is None);
                        },
                    }
                }
            },
            None => {
                return None;
            },
        }
    }
}

/// Reads one snake encoding, as [`parse_snake`] says.
fn parse_snake_exec(s: &Vec<u8>, i: usize) -> (r: Option<(Snake, usize)>)
    requires
        i <= s@.len(),
    ensures
        r matches Some(p) ==> (parse_snake(s@, i as int) matches Some(q) && p.0@ == q.0 && p.1
            as int == q.1),
        r is None ==> parse_snake(s@, i as int) is None,
{
    if i == s.len() {
        return None;
    }
    if s[i] != 40 {
        return None;
    }
    let px = match parse_u8_exec(s, i + 1) {
        Some(p) => p,
        None => {
            return None;
        },
    };
    let py = match parse_u8_exec(s, px.1) {
        Some(p) => p,
        None => {
            return None;
        },
    };
    let pm = match parse_dirs_exec(s, py.1) {
        Some(p) => p,
        None => {
            return None;
        },
    };
    proof {
        lemma_parse_dirs_bounds(s@, py.1 as int);
    }
    let pr = match parse_u8_exec(s, pm.1) {
        Some(p) => p,
        None => {
            return None;
        },
    };
    let pg = match parse_u8_exec(s, pr.1) {
        Some(p) => p,
        None => {
            return None;
        },
    };
    let pb = match parse_u8_exec(s, pg.1) {
        Some(p) => p,
        None => {
            return None;
        },
    };
    let pa = match parse_u8_exec(s, pb.1) {
        Some(p) => p,
        None => {
            return None;
        },
    };
    if pa.1 < s.len() && s[pa.1] == 41 {
        let snake = Snake {
            head: Pos { x: px.0, y: py.0 },
            moves: pm.0,
            color: Color { r: pr.0, g: pg.0, b: pb.0, a: pa.0 },
        };
        Some((snake, pa.1 + 1))
    } else {
        None
    }
}

/// Decodes a snapshot payload, as [`spec_decode`] says: `Some` exactly on
/// payloads that are a complete snapshot encoding, `None` on everything else.
pub fn decode(bytes: &Vec<u8>) -> (r: Option<GameState>)
    ensures
        r matches Some(g) ==> spec_decode(bytes@) == Some(g@),
        r is None ==> spec_decode(bytes@) is None,
{
    if bytes.len() == 0 {
        return None;
    }
    if bytes[0] != 123 {
        return None;
    }
    let mut acc: Vec<Snake> = Vec::new();
    let mut cur: usize = 1;
    proof {
        assert(acc@.map_values(|s: Snake| s@) =~= Seq::<SnakeModel>::empty());
    }
    loop
        invariant
            bytes@.len() > 0,
            bytes@[0] == 123,
            1 <= cur <= bytes@.len(),
            parse_snakes(bytes@, cur as int) is Some ==> (parse_snakes(bytes@, 1) matches Some(p)
                && parse_snakes(bytes@, cur as int) matches Some(q) && p.0 == acc@.map_values(
                |s: Snake| s@,
            ) + q.0 && p.1 == q.1),
            parse_snakes(bytes@, cur as int) is None ==> parse_snakes(bytes@, 1) is None,
        decreases bytes@.len() - cur,
    {
        if cur == bytes.len() {
            return None;
        }
        let b = bytes[cur];
        if b == 125 {
            proof {
                assert(parse_snakes(bytes@, cur as int) == Some(
                    (Seq::<SnakeModel>::empty(), cur + 1),
                ));
                assert(acc@.map_values(|s: Snake| s@) + Seq::<SnakeModel>::empty()
                    =~= acc@.map_values(|s: Snake| s@));
            }
            if cur + 1 == bytes.len() {
                let g = GameState { snakes: acc };
                return Some(g);
            } else {
                return None;
            }
        }
        let ghost acc0 = acc@;
        let ghost cur0 = cur as int;
        match parse_snake_exec(bytes, cur) {
            Some(p) => {
                proof {
                    lemma_parse_snake_bounds(bytes@, cur0);
                }
                let sn = p.0;
                acc.push(sn);
                cur = p.1;
                proof {
                    assert(acc@.map_values(|s: Snake| s@) =~= acc0.map_values(|s: Snake| s@).push(
                        sn@,
                    ));
                    match parse_snakes(bytes@, cur as int) {
                        Some(q) => {
                            assert(parse_snakes(bytes@, cur0) == Some((seq![sn@] + q.0, q.1)));
                            assert(acc0.map_values(|s: Snake| s@) + (seq![sn@] + q.0)
                                =~= acc@.map_values(|s: Snake| s@) + q.0);
                        },
                        None => {
                            assert(parse_snakes(bytes@, cur0) is None);
                        },
                    }
                }
            },
            None => {
                return None;
            },
        }
    }
}

} // verus!
