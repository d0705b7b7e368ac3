use letter_snake::{ArrowKey, Color, DrawCmd, InputEvent, LetterMover, HEIGHT, WIDTH};

fn right() -> InputEvent {
    InputEvent::RawDirectional(ArrowKey::Right)
}

fn left() -> InputEvent {
    InputEvent::RawDirectional(ArrowKey::Left)
}

fn up() -> InputEvent {
    InputEvent::RawDirectional(ArrowKey::Up)
}

fn down() -> InputEvent {
    InputEvent::RawDirectional(ArrowKey::Down)
}

#[test]
fn fresh_state() {
    let s = LetterMover::new();
    assert_eq!(s.column(), WIDTH / 2);
    assert_eq!(s.row(), HEIGHT / 2);
    assert_eq!(s.dx(), 0);
    assert_eq!(s.dy(), 0);
    assert_eq!(s.length(), 1);
    assert_eq!(s.score(), 0);
    assert_eq!(s.glyphs(), vec!['*'; WIDTH]);
    assert_eq!(s.letter_columns(), vec![WIDTH / 2]);
    assert_eq!(s.example, [2, 5, 8, 16, 15, 9]);
    assert_eq!(s.bad, [1, 3, 7, 19, 13, 11]);
}

#[test]
fn stationary_snake_never_moves() {
    let mut s = LetterMover::new();
    for _ in 0..25 {
        s.tick();
        assert_eq!(s.column(), WIDTH / 2);
        assert_eq!(s.row(), HEIGHT / 2);
    }
}

#[test]
fn constant_velocity_moves_linearly() {
    let mut s = LetterMover::new();
    s.key(right());
    s.key(down());
    assert_eq!(s.dx(), 1);
    assert_eq!(s.dy(), 1);
    for n in 1..=3 {
        s.tick();
        assert_eq!(s.column(), WIDTH / 2 + n);
        assert_eq!(s.row(), HEIGHT / 2 + n);
    }
}

#[test]
fn column_wraps_at_board_width() {
    let mut s = LetterMover::new();
    s.key(right());
    for _ in 0..WIDTH {
        s.tick();
    }
    assert_eq!(s.column(), WIDTH / 2);
    assert_eq!(s.row(), HEIGHT / 2);
}

#[test]
fn eating_food_grows_and_scores() {
    // Drive the head onto the food cell (15, 15): three diagonal steps to
    // (43, 15), then straight left-to-right wrap-around until column 15.
    let mut s = LetterMover::new();
    s.key(right());
    s.key(down());
    for _ in 0..3 {
        s.tick();
    }
    assert_eq!(s.column(), 43);
    assert_eq!(s.row(), 15);
    s.key(up());
    assert_eq!(s.dy(), 0);
    for _ in 0..51 {
        s.tick();
    }
    assert_eq!(s.column(), 14);
    assert_eq!(s.score(), 0);
    assert_eq!(s.length(), 1);
    s.tick();
    assert_eq!(s.column(), 15);
    assert_eq!(s.row(), 15);
    assert_eq!(s.score(), 1);
    assert_eq!(s.length(), 2);
}

#[test]
fn hazard_resets_all_but_score() {
    // Drive the head onto the hazard cell (11, 11): one diagonal step up-left
    // to (39, 11), then straight left until column 11.
    let mut s = LetterMover::new();
    s.key(left());
    s.key(up());
    s.tick();
    assert_eq!(s.column(), 39);
    assert_eq!(s.row(), 11);
    s.key(down());
    assert_eq!(s.dy(), 0);
    for _ in 0..28 {
        s.tick();
    }
    let fresh = LetterMover::new();
    assert_eq!(s.column(), fresh.column());
    assert_eq!(s.row(), fresh.row());
    assert_eq!(s.dx(), fresh.dx());
    assert_eq!(s.dy(), fresh.dy());
    assert_eq!(s.length(), fresh.length());
    assert_eq!(s.glyphs(), fresh.glyphs());
    assert_eq!(s.score(), fresh.score());
}

#[test]
fn length_stays_within_bounds() {
    let mut s = LetterMover::new();
    s.key(right());
    s.key(down());
    for _ in 0..200 {
        s.tick();
        assert!(s.length() >= 1);
        assert!(s.length() <= WIDTH);
    }
}

#[test]
fn opposite_presses_restore_dx() {
    let mut s = LetterMover::new();
    s.key(right());
    s.key(right());
    let prior = s.dx();
    s.key(right());
    s.key(left());
    assert_eq!(s.dx(), prior);
    s.key(left());
    s.key(right());
    assert_eq!(s.dx(), prior);
}

#[test]
fn direction_deltas_wrap() {
    let mut s = LetterMover::new();
    s.key(left());
    assert_eq!(s.dx(), WIDTH - 1);
    s.key(right());
    assert_eq!(s.dx(), 0);
    s.key(up());
    assert_eq!(s.dy(), HEIGHT - 1);
    s.key(down());
    assert_eq!(s.dy(), 0);
}

#[test]
fn other_keys_are_ignored() {
    let mut s = LetterMover::new();
    s.key(InputEvent::RawDirectional(ArrowKey::Other));
    s.key(InputEvent::UnicodeChar('a'));
    s.key(InputEvent::UnicodeChar('\u{7}'));
    assert_eq!(s.dx(), 0);
    assert_eq!(s.dy(), 0);
    assert_eq!(s.column(), WIDTH / 2);
    assert_eq!(s.row(), HEIGHT / 2);
    assert_eq!(s.score(), 0);
}

#[test]
fn first_frame_commands() {
    let mut s = LetterMover::new();
    let cmds = s.tick();
    // Six food cells, six hazard cells, one score digit, one erase of the old
    // body cell, one draw of the body at its (unchanged) position.
    assert_eq!(cmds.len(), 15);
    for (j, y) in [2, 5, 8, 16, 15, 9].into_iter().enumerate() {
        assert_eq!(
            cmds[j],
            DrawCmd {
                glyph: '@',
                col: y,
                row: y,
                foreground: Color::Cyan,
                background: Color::Black,
            }
        );
    }
    for (j, y) in [1, 3, 7, 19, 13, 11].into_iter().enumerate() {
        assert_eq!(
            cmds[6 + j],
            DrawCmd {
                glyph: 'W',
                col: y,
                row: y,
                foreground: Color::Red,
                background: Color::Black,
            }
        );
    }
    assert_eq!(
        cmds[12],
        DrawCmd {
            glyph: '0',
            col: 0,
            row: 0,
            foreground: Color::Yellow,
            background: Color::Black,
        }
    );
    assert_eq!(
        cmds[13],
        DrawCmd {
            glyph: ' ',
            col: WIDTH / 2,
            row: HEIGHT / 2,
            foreground: Color::Black,
            background: Color::Black,
        }
    );
    assert_eq!(
        cmds[14],
        DrawCmd {
            glyph: '*',
            col: WIDTH / 2,
            row: HEIGHT / 2,
            foreground: Color::Cyan,
            background: Color::Black,
        }
    );
}

#[test]
fn reset_frame_erases_new_body() {
    // Drive onto the hazard cell (11, 11) and look at the colliding frame:
    // it must end with the erasure of the body at its new position.
    let mut s = LetterMover::new();
    s.key(left());
    s.key(up());
    s.tick();
    s.key(down());
    for _ in 0..27 {
        s.tick();
    }
    assert_eq!(s.column(), 12);
    let cmds = s.tick();
    assert_eq!(s.column(), WIDTH / 2);
    let last = cmds[cmds.len() - 1];
    assert_eq!(
        last,
        DrawCmd {
            glyph: ' ',
            col: 11,
            row: 11,
            foreground: Color::Black,
            background: Color::Black,
        }
    );
}
