use culebra::codec::{decode, encode};
use culebra::game::{Color, Dir, GameState, Pos, Snake};
use std::collections::VecDeque;

fn snake_with(head: Pos, moves: &[Dir], color: Color) -> Snake {
    let mut dq: VecDeque<Dir> = VecDeque::new();
    for d in moves {
        dq.push_back(*d);
    }
    Snake { head, moves: dq, color }
}

#[test]
fn initial_state_has_a_fixed_encoding() {
    let encoded = encode(&GameState::new());
    assert_eq!(encoded, b"{(020020:255000255255)}".to_vec());
}

#[test]
fn moves_are_letters_between_head_and_colour() {
    let gs = GameState {
        snakes: vec![snake_with(
            Pos { x: 1, y: 200 },
            &[Dir::Up, Dir::Down, Dir::Left, Dir::Right],
            Color { r: 1, g: 2, b: 3, a: 4 },
        )],
    };
    assert_eq!(encode(&gs), b"{(001200UDLR:001002003004)}".to_vec());
}

#[test]
fn round_trip_preserves_every_snake() {
    let gs = GameState {
        snakes: vec![
            snake_with(
                Pos { x: 20, y: 20 },
                &[Dir::Left, Dir::Left, Dir::Up],
                Color { r: 255, g: 0, b: 255, a: 255 },
            ),
            snake_with(Pos { x: 0, y: 255 }, &[], Color { r: 9, g: 8, b: 7, a: 6 }),
        ],
    };
    let decoded = decode(&encode(&gs)).expect("an encoding must decode");
    assert_eq!(decoded.snakes.len(), gs.snakes.len());
    for (d, o) in decoded.snakes.iter().zip(gs.snakes.iter()) {
        assert_eq!(d.head, o.head);
        assert_eq!(d.moves, o.moves);
        assert_eq!(d.color, o.color);
    }
}

#[test]
fn decodes_an_empty_state() {
    let decoded = decode(&b"{}".to_vec()).expect("the empty snapshot decodes");
    assert!(decoded.snakes.is_empty());
}

#[test]
fn decodes_a_snapshot_written_by_hand() {
    let decoded = decode(&b"{(100200UD:001002003004)}".to_vec()).expect("valid");
    assert_eq!(decoded.snakes.len(), 1);
    assert_eq!(decoded.snakes[0].head, Pos { x: 100, y: 200 });
    let moves: Vec<Dir> = decoded.snakes[0].moves.iter().copied().collect();
    assert_eq!(moves, vec![Dir::Up, Dir::Down]);
    assert_eq!(decoded.snakes[0].color, Color { r: 1, g: 2, b: 3, a: 4 });
}

#[test]
fn rejects_payloads_that_are_no_snapshot() {
    assert!(decode(&b"not json".to_vec()).is_none());
    assert!(decode(&b"".to_vec()).is_none());
    assert!(decode(&b"ping".to_vec()).is_none());
    assert!(decode(&b"{".to_vec()).is_none());
    assert!(decode(&b"}".to_vec()).is_none());
}

#[test]
fn rejects_malformed_snapshots() {
    // an unknown move letter
    assert!(decode(&b"{(020020X:255000255255)}".to_vec()).is_none());
    // a number that does not fit in a byte
    assert!(decode(&b"{(999020:255000255255)}".to_vec()).is_none());
    // a truncated snake
    assert!(decode(&b"{(020020:255000255".to_vec()).is_none());
    // trailing bytes after the closing brace
    assert!(decode(&b"{}x".to_vec()).is_none());
    // a second opening brace instead of a snake
    assert!(decode(&b"{{}}".to_vec()).is_none());
}
