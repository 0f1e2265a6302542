use culebra::game::{Dir, Pos};
use culebra::session::{
    handshake_payload, intent_payload, ping_payload, RecvEffect, RecvOutcome, Session,
};

#[test]
fn ticks_summing_to_one_second_fire_exactly_one_ping() {
    let mut session = Session::new();
    let mut pings = 0;
    for dt in [250u64, 250, 250, 250] {
        if session.keepalive_tick(dt) {
            pings += 1;
        }
    }
    assert_eq!(pings, 1);
    assert_eq!(session.ping_acc_ms, 0);
}

#[test]
fn ticks_summing_just_short_of_a_second_fire_no_ping() {
    let mut session = Session::new();
    let mut pings = 0;
    for dt in [333u64, 333, 333] {
        if session.keepalive_tick(dt) {
            pings += 1;
        }
    }
    assert_eq!(pings, 0);
    assert_eq!(session.ping_acc_ms, 999);
}

#[test]
fn the_accumulator_resets_instead_of_rolling_over() {
    let mut session = Session::new();
    assert!(!session.keepalive_tick(600));
    assert!(session.keepalive_tick(600));
    assert_eq!(session.ping_acc_ms, 0);
    assert!(!session.keepalive_tick(600));
}

#[test]
fn malformed_input_leaves_the_state_unchanged() {
    let mut session = Session::new();
    let effect = session.handle_datagram(&b"not json".to_vec());
    assert_eq!(effect, RecvEffect::Ignored);
    assert_eq!(session.game.snakes.len(), 1);
    assert_eq!(session.game.snakes[0].head, Pos { x: 20, y: 20 });
}

#[test]
fn a_malformed_snapshot_is_discarded_as_recoverable() {
    let mut session = Session::new();
    let effect = session.handle_datagram(&b"{not json".to_vec());
    assert_eq!(effect, RecvEffect::DiscardedMalformed);
    assert_eq!(session.game.snakes.len(), 1);
    assert_eq!(session.game.snakes[0].head, Pos { x: 20, y: 20 });
}

#[test]
fn a_snapshot_replaces_the_whole_state() {
    let mut session = Session::new();
    let effect = session.handle_datagram(&b"{(100200U:001002003004)(005006:009008007006)}".to_vec());
    assert_eq!(effect, RecvEffect::Replaced);
    assert_eq!(session.game.snakes.len(), 2);
    assert_eq!(session.game.snakes[0].head, Pos { x: 100, y: 200 });
    assert_eq!(session.game.snakes[1].head, Pos { x: 5, y: 6 });
}

#[test]
fn update_tick_reports_each_outcome() {
    let mut session = Session::new();
    let (effect, ping) = session.update_tick(&RecvOutcome::WouldBlock, 10);
    assert_eq!(effect, RecvEffect::NoData);
    assert!(!ping);
    let (effect, ping) = session.update_tick(&RecvOutcome::HardError, 10);
    assert_eq!(effect, RecvEffect::TransientError);
    assert!(!ping);
    let data = RecvOutcome::Data(b"{(001001:001001001001)}".to_vec());
    let (effect, ping) = session.update_tick(&data, 980);
    assert_eq!(effect, RecvEffect::Replaced);
    assert!(ping);
    assert_eq!(session.game.snakes[0].head, Pos { x: 1, y: 1 });
}

#[test]
fn wire_tokens_are_the_documented_literals() {
    assert_eq!(ping_payload(), b"ping".to_vec());
    assert_eq!(handshake_payload(), b"start".to_vec());
    assert_eq!(intent_payload(&Dir::Up), b"Up".to_vec());
    assert_eq!(intent_payload(&Dir::Down), b"Down".to_vec());
    assert_eq!(intent_payload(&Dir::Left), b"Left".to_vec());
    assert_eq!(intent_payload(&Dir::Right), b"Right".to_vec());
}
