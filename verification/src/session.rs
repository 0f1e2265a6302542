//! The client session: what each update tick decides.
//!
//! The socket work itself lives outside; the session is handed the outcome
//! of one non-blocking receive attempt and the elapsed time, and decides —
//! with a proof — what replaces the game state, what is discarded, and when
//! a keepalive is due.  A freshly decoded snapshot replaces the whole game
//! state; everything that is not a decodable snapshot leaves it untouched.

use crate::codec::spec_decode;
use crate::game::Dir;
use crate::game::GameState;
use crate::game::Pos;
use crate::game::Snake;
use crate::game::SnakeModel;
use crate::game::spec_snake_go;
use std::collections::VecDeque;
use vstd::prelude::*;

verus! {

/// A keepalive `ping` is sent at most once per this many simulated
/// milliseconds.
pub const KEEPALIVE_INTERVAL_MS: u64 = 1000;

/// The outcome of one non-blocking receive attempt, as the socket code
/// reports it: a payload, nothing available right now, or a hard failure.
pub enum RecvOutcome {
    Data(Vec<u8>),
    WouldBlock,
    HardError,
}

/// What one update tick did with the receive outcome.  Only `Replaced`
/// changes the game state; every other effect leaves it untouched.
#[derive(Copy, Clone, Debug, PartialEq, Eq, Structural)]
pub enum RecvEffect {
    /// The payload was a decodable snapshot and replaced the game state.
    Replaced,
    /// The payload began with `{` but was not a valid snapshot; it was
    /// discarded and the previous state kept (a recoverable condition,
    /// not a crash).
    DiscardedMalformed,
    /// The payload did not begin with `{`; silently discarded.
    Ignored,
    /// Nothing was available this tick (would-block); not an error.
    NoData,
    /// Some other receive failure; logged by the caller, state kept.
    TransientError,
}

/// What a datagram does to the game state: a decodable snapshot wins,
/// anything else leaves the state as it was.
pub open spec fn spec_datagram_game(g: Seq<SnakeModel>, p: Seq<u8>) -> Seq<SnakeModel> {
    match spec_decode(p) {
        Some(m) => m,
        None => g,
    }
}

/// How a datagram is classified, from its first byte and decodability.
pub open spec fn spec_datagram_effect(p: Seq<u8>) -> RecvEffect {
    if p.len() > 0 && p[0] == 123 {
        if spec_decode(p) is Some {
            RecvEffect::Replaced
        } else {
            RecvEffect::DiscardedMalformed
        }
    } else {
        RecvEffect::Ignored
    }
}

/// [`spec_datagram_effect`] lifted to the three receive outcomes.
pub open spec fn spec_recv_effect(recv: RecvOutcome) -> RecvEffect {
    match recv {
        RecvOutcome::Data(p) => spec_datagram_effect(p@),
        RecvOutcome::WouldBlock => RecvEffect::NoData,
        RecvOutcome::HardError => RecvEffect::TransientError,
    }
}

/// [`spec_datagram_game`] lifted to the three receive outcomes: only a
/// received payload can change the state.
pub open spec fn spec_recv_game(g: Seq<SnakeModel>, recv: RecvOutcome) -> Seq<SnakeModel> {
    match recv {
        RecvOutcome::Data(p) => spec_datagram_game(g, p@),
        RecvOutcome::WouldBlock => g,
        RecvOutcome::HardError => g,
    }
}

/// One step of the keepalive accumulator: once the accumulated time reaches
/// the interval, a ping fires and the accumulator resets to zero (a
/// drift-free reset, not a subtraction).
pub open spec fn spec_keepalive_step(acc: int, dt: int) -> (bool, int) {
    if acc + dt >= KEEPALIVE_INTERVAL_MS {
        (true, 0)
    } else {
        (false, acc + dt)
    }
}

/// The client session: the game state it owns and the keepalive
/// accumulator, in simulated milliseconds.
pub struct Session {
    pub game: GameState,
    pub ping_acc_ms: u64,
}

impl Session {
    /// The accumulator never reaches the interval between ticks: it is
    /// reset the moment it would.
    pub open spec fn wf(&self) -> bool {
        self.ping_acc_ms < KEEPALIVE_INTERVAL_MS
    }

    /// A fresh session: the initial game state and an empty accumulator.
    pub fn new() -> (s: Session)
        ensures
            s.wf(),
            s.ping_acc_ms == 0,
            s.game@ == crate::game::spec_initial_state(),
    {
        Session { game: GameState::new(), ping_acc_ms: 0 }
    }

    /// Applies one inbound datagram: a decodable snapshot (first byte `{`)
    /// replaces the whole game state; a malformed `{`-payload is discarded
    /// as recoverable; anything else is silently ignored.
    pub fn handle_datagram(&mut self, payload: &Vec<u8>) -> (r: RecvEffect)
        ensures
            r == spec_datagram_effect(payload@),
            final(self).game@ == spec_datagram_game(old(self).game@, payload@),
            final(self).ping_acc_ms == old(self).ping_acc_ms,
    {
        if payload.len() == 0 {
            return RecvEffect::Ignored;
        }
        if payload[0] != 123 {
            return RecvEffect::Ignored;
        }
        match crate::codec::decode(payload) {
            Some(g) => {
                self.game = g;
                RecvEffect::Replaced
            },
            None => RecvEffect::DiscardedMalformed,
        }
    }

    /// One step of the keepalive accumulator, as [`spec_keepalive_step`]
    /// says: returns whether a `ping` is due now.
    pub fn keepalive_tick(&mut self, dt_ms: u64) -> (ping: bool)
        requires
            old(self).wf(),
            dt_ms <= u64::MAX - KEEPALIVE_INTERVAL_MS,
        ensures
            final(self).wf(),
            final(self).game == old(self).game,
            (ping, final(self).ping_acc_ms as int) == spec_keepalive_step(
                old(self).ping_acc_ms as int,
                dt_ms as int,
            ),
    {
        let sum = self.ping_acc_ms + dt_ms;
        if sum >= KEEPALIVE_INTERVAL_MS {
            self.ping_acc_ms = 0;
            true
        } else {
            self.ping_acc_ms = sum;
            false
        }
    }

    /// One update tick: apply the receive outcome to the game state, then
    /// advance the keepalive accumulator.  Returns what happened to the
    /// state and whether a `ping` is due.
    pub fn update_tick(&mut self, recv: &RecvOutcome, dt_ms: u64) -> (r: (RecvEffect, bool))
        requires
            old(self).wf(),
            dt_ms <= u64::MAX - KEEPALIVE_INTERVAL_MS,
        ensures
            final(self).wf(),
            r.0 == spec_recv_effect(*recv),
            final(self).game@ == spec_recv_game(old(self).game@, *recv),
            (r.1, final(self).ping_acc_ms as int) == spec_keepalive_step(
                old(self).ping_acc_ms as int,
                dt_ms as int,
            ),
    {
        let effect = match recv {
            RecvOutcome::Data(payload) => self.handle_datagram(payload),
            RecvOutcome::WouldBlock => RecvEffect::NoData,
            RecvOutcome::HardError => RecvEffect::TransientError,
        };
        let ping = self.keepalive_tick(dt_ms);
        (effect, ping)
    }
}

/// The sum of a sequence of tick durations.
pub open spec fn seq_sum(dts: Seq<int>) -> int
    decreases dts.len(),
{
    if dts.len() == 0 {
        0
    } else {
        dts[0] + seq_sum(dts.drop_first())
    }
}

/// Pings fired and final accumulator after a run of update ticks.
pub open spec fn run_ticks(acc: int, dts: Seq<int>) -> (int, int)
    decreases dts.len(),
{
    if dts.len() == 0 {
        (0, acc)
    } else {
        let st = spec_keepalive_step(acc, dts[0]);
        let rest = run_ticks(st.1, dts.drop_first());
        ((if st.0 {
            1int
        } else {
            0int
        }) + rest.0, rest.1)
    }
}

proof fn lemma_seq_sum_nonneg(dts: Seq<int>)
    requires
        forall|k: int| 0 <= k < dts.len() ==> dts[k] >= 0,
    ensures
        seq_sum(dts) >= 0,
    decreases dts.len(),
{
    if dts.len() > 0 {
        lemma_seq_sum_nonneg(dts.drop_first());
    }
}

/// The keepalive cadence: starting from accumulator `acc`, a run of
/// non-negative tick durations that together with `acc` stay under the
/// interval fires no ping at all, and one that reaches it exactly fires
/// exactly one ping (and leaves the accumulator empty).
pub proof fn lemma_keepalive_cadence(acc: int, dts: Seq<int>)
    requires
        0 <= acc < KEEPALIVE_INTERVAL_MS,
        forall|k: int| 0 <= k < dts.len() ==> dts[k] >= 0,
    ensures
        acc + seq_sum(dts) < KEEPALIVE_INTERVAL_MS ==> run_ticks(acc, dts) == (
        0int,
        acc + seq_sum(dts),
        ),
        acc + seq_sum(dts) == KEEPALIVE_INTERVAL_MS ==> run_ticks(acc, dts) == ((1int, 0int)),
    decreases dts.len(),
{
    if dts.len() > 0 {
        let d0 = dts[0];
        assert(forall|k: int|
            0 <= k < dts.drop_first().len() ==> dts.drop_first()[k] >= 0) by {
            assert forall|k: int|
                0 <= k < dts.drop_first().len() implies dts.drop_first()[k] >= 0 by {
                assert(dts.drop_first()[k] == dts[k + 1]);
            }
        }
        lemma_seq_sum_nonneg(dts.drop_first());
        assert(seq_sum(dts) == d0 + seq_sum(dts.drop_first()));
        if acc + d0 >= KEEPALIVE_INTERVAL_MS {
            lemma_keepalive_cadence(0, dts.drop_first());
            if acc + seq_sum(dts) == KEEPALIVE_INTERVAL_MS {
                assert(acc + d0 == KEEPALIVE_INTERVAL_MS);
                assert(seq_sum(dts.drop_first()) == 0);
                assert(run_ticks(0, dts.drop_first()) == (0int, 0int));
                assert(run_ticks(acc, dts) == ((1int, 0int)));
            }
        } else {
            lemma_keepalive_cadence(acc + d0, dts.drop_first());
            assert(run_ticks(acc, dts).0 == run_ticks(acc + d0, dts.drop_first()).0);
            assert(run_ticks(acc, dts).1 == run_ticks(acc + d0, dts.drop_first()).1);
        }
    }
}

/// The `ping` keepalive payload.
pub fn ping_payload() -> (r: Vec<u8>)
    ensures
        r@ == seq![112u8, 105u8, 110u8, 103u8],
{
    let mut r: Vec<u8> = Vec::new();
    r.push(112);
    r.push(105);
    r.push(110);
    r.push(103);
    proof {
        assert(r@ =~= seq![112u8, 105u8, 110u8, 103u8]);
    }
    r
}

/// The `start` session-join payload, sent once when the client comes up.
pub fn handshake_payload() -> (r: Vec<u8>)
    ensures
        r@ == seq![115u8, 116u8, 97u8, 114u8, 116u8],
{
    let mut r: Vec<u8> = Vec::new();
    r.push(115);
    r.push(116);
    r.push(97);
    r.push(114);
    r.push(116);
    proof {
        assert(r@ =~= seq![115u8, 116u8, 97u8, 114u8, 116u8]);
    }
    r
}

/// The directional-intent payload for one direction: the direction's name
/// as it is spelled on the wire (`Up`, `Down`, `Left`, `Right`).
pub open spec fn spec_intent(d: Dir) -> Seq<u8> {
    match d {
        Dir::Up => seq![85u8, 112u8],
        Dir::Down => seq![68u8, 111u8, 119u8, 110u8],
        Dir::Left => seq![76u8, 101u8, 102u8, 116u8],
        Dir::Right => seq![82u8, 105u8, 103u8, 104u8, 116u8],
    }
}

/// The intent message sent once per keypress edge in networked play.
pub fn intent_payload(d: &Dir) -> (r: Vec<u8>)
    ensures
        r@ == spec_intent(*d),
{
    let mut r: Vec<u8> = Vec::new();
    match d {
        Dir::Up => {
            r.push(85);
            r.push(112);
        },
        Dir::Down => {
            r.push(68);
            r.push(111);
            r.push(119);
            r.push(110);
        },
        Dir::Left => {
            r.push(76);
            r.push(101);
            r.push(102);
            r.push(116);
        },
        Dir::Right => {
            r.push(82);
            r.push(105);
            r.push(103);
            r.push(104);
            r.push(116);
        },
    }
    proof {
        assert(r@ =~= spec_intent(*d));
    }
    r
}

/// The single-player scene: one snake, steered directly by the keyboard
/// with no server in between.
pub struct MainScene {
    pub snake: Snake,
}

impl MainScene {
    /// The single-player starting snake: head at (20, 20), a history
    /// pre-filled with four `Left` moves so the snake appears at full
    /// length at once, and a magenta colour.
    pub fn new() -> (s: MainScene)
        ensures
            s.snake@ == (SnakeModel {
                head: (Pos { x: 20, y: 20 }),
                moves: seq![Dir::Left, Dir::Left, Dir::Left, Dir::Left],
                color: (crate::game::Color { r: 255, g: 0, b: 255, a: 255 }),
            }),
    {
        let mut moves: VecDeque<Dir> = VecDeque::new();
        moves.push_front(Dir::Left);
        moves.push_front(Dir::Left);
        moves.push_front(Dir::Left);
        moves.push_front(Dir::Left);
        proof {
            assert(moves@ =~= seq![Dir::Left, Dir::Left, Dir::Left, Dir::Left]);
        }
        MainScene {
            snake: Snake {
                head: Pos { x: 20, y: 20 },
                moves,
                color: crate::game::Color { r: 255, g: 0, b: 255, a: 255 },
            },
        }
    }

    /// A keypress that names a direction steers the snake one step; any
    /// other key does nothing.
    pub fn key_press(&mut self, key: Option<Dir>)
        ensures
            key matches Some(d) ==> final(self).snake@ == spec_snake_go(old(self).snake@, d),
            key is None ==> final(self).snake == old(self).snake,
    {
        match key {
            Some(d) => self.snake.go(d),
            None => (),
        }
    }
}

} // verus!
