use culebra::game::{Color, Dir, GameState, Pos, Snake};
use culebra::session::MainScene;
use std::collections::VecDeque;

fn magenta() -> Color {
    Color { r: 255, g: 0, b: 255, a: 255 }
}

fn snake_with(head: Pos, moves: &[Dir], color: Color) -> Snake {
    let mut dq: VecDeque<Dir> = VecDeque::new();
    for d in moves {
        dq.push_back(*d);
    }
    Snake { head, moves: dq, color }
}

#[test]
fn steps_in_each_direction() {
    let p = Pos { x: 10, y: 10 };
    assert_eq!(p.up(), Pos { x: 10, y: 9 });
    assert_eq!(p.down(), Pos { x: 10, y: 11 });
    assert_eq!(p.left(), Pos { x: 9, y: 10 });
    assert_eq!(p.right(), Pos { x: 11, y: 10 });
    assert_eq!(p.go(&Dir::Up), p.up());
    assert_eq!(p.go(&Dir::Down), p.down());
    assert_eq!(p.go(&Dir::Left), p.left());
    assert_eq!(p.go(&Dir::Right), p.right());
}

#[test]
fn steps_wrap_at_the_edges() {
    let origin = Pos { x: 0, y: 0 };
    assert_eq!(origin.go(&Dir::Up), Pos { x: 0, y: 255 });
    assert_eq!(origin.go(&Dir::Left), Pos { x: 255, y: 0 });
    let far = Pos { x: 255, y: 255 };
    assert_eq!(far.go(&Dir::Down), Pos { x: 255, y: 0 });
    assert_eq!(far.go(&Dir::Right), Pos { x: 0, y: 255 });
}

#[test]
fn inverse_is_an_involution() {
    for d in [Dir::Up, Dir::Down, Dir::Left, Dir::Right] {
        assert_eq!(d.inverse().inverse(), d);
    }
    assert_eq!(Dir::Up.inverse(), Dir::Down);
    assert_eq!(Dir::Left.inverse(), Dir::Right);
}

#[test]
fn body_is_the_trace_of_the_head() {
    let s = snake_with(Pos { x: 3, y: 3 }, &[Dir::Up, Dir::Left], magenta());
    let body = s.to_body_positions();
    assert_eq!(
        body,
        vec![Pos { x: 3, y: 3 }, Pos { x: 3, y: 4 }, Pos { x: 4, y: 4 }]
    );
}

#[test]
fn body_length_never_changes() {
    let mut s = snake_with(
        Pos { x: 20, y: 20 },
        &[Dir::Left, Dir::Left, Dir::Left, Dir::Left],
        magenta(),
    );
    let dirs = [
        Dir::Up,
        Dir::Up,
        Dir::Right,
        Dir::Down,
        Dir::Left,
        Dir::Down,
        Dir::Down,
        Dir::Right,
    ];
    assert_eq!(s.to_body_positions().len(), 5);
    for d in dirs {
        s.go(d);
        assert_eq!(s.moves.len(), 4);
        assert_eq!(s.to_body_positions().len(), 5);
    }
}

#[test]
fn go_then_inverse_restores_head_but_shifts_history() {
    let mut s = snake_with(Pos { x: 7, y: 7 }, &[Dir::Left, Dir::Left], magenta());
    let before_head = s.head;
    let before_body = s.to_body_positions();
    s.go(Dir::Up);
    s.go(Dir::Down);
    assert_eq!(s.head, before_head);
    let after: Vec<Dir> = s.moves.iter().copied().collect();
    assert_eq!(after, vec![Dir::Down, Dir::Up]);
    assert_ne!(s.to_body_positions(), before_body);
}

#[test]
fn body_depends_only_on_head_and_moves() {
    let a = snake_with(Pos { x: 5, y: 5 }, &[Dir::Up, Dir::Left], magenta());
    let mut b = snake_with(
        Pos { x: 5, y: 6 },
        &[Dir::Left, Dir::Right],
        Color { r: 1, g: 2, b: 3, a: 4 },
    );
    b.go(Dir::Up);
    assert_eq!(b.head, a.head);
    assert!(b.moves.iter().eq(a.moves.iter()));
    assert_eq!(a.to_body_positions(), b.to_body_positions());
}

#[test]
fn initial_game_state() {
    let gs = GameState::new();
    assert_eq!(gs.snakes.len(), 1);
    assert_eq!(gs.snakes[0].head, Pos { x: 20, y: 20 });
    assert!(gs.snakes[0].moves.is_empty());
    assert_eq!(gs.snakes[0].color, magenta());
    assert_eq!(gs.snakes[0].to_body_positions(), vec![Pos { x: 20, y: 20 }]);
}

#[test]
fn key_up_moves_head_up() {
    let mut scene = MainScene::new();
    assert_eq!(scene.snake.head, Pos { x: 20, y: 20 });
    scene.key_press(Some(Dir::Up));
    assert_eq!(scene.snake.head, Pos { x: 20, y: 19 });
}

#[test]
fn key_left_moves_head_left() {
    let mut scene = MainScene::new();
    scene.key_press(Some(Dir::Left));
    assert_eq!(scene.snake.head, Pos { x: 19, y: 20 });
}

#[test]
fn other_keys_do_nothing() {
    let mut scene = MainScene::new();
    let head = scene.snake.head;
    let body = scene.snake.to_body_positions();
    scene.key_press(None);
    assert_eq!(scene.snake.head, head);
    assert_eq!(scene.snake.to_body_positions(), body);
}

#[test]
fn a_frame_shows_every_snake_body() {
    let gs = GameState {
        snakes: vec![
            snake_with(Pos { x: 3, y: 3 }, &[Dir::Up, Dir::Left], magenta()),
            snake_with(Pos { x: 9, y: 9 }, &[], magenta()),
        ],
    };
    let frame = gs.frame_positions();
    assert_eq!(frame.len(), 2);
    assert_eq!(frame[0], gs.snakes[0].to_body_positions());
    assert_eq!(frame[1], vec![Pos { x: 9, y: 9 }]);
}
