use letter_snake::{render_number, Color, DrawCmd};

fn cmd(glyph: char, col: usize) -> DrawCmd {
    DrawCmd { glyph, col, row: 0, foreground: Color::Yellow, background: Color::Black }
}

#[test]
fn score_1234_renders_digit_per_column() {
    let cmds = render_number(1234, 0, 0, Color::Yellow, Color::Black);
    assert_eq!(cmds.len(), 4);
    assert_eq!(cmds[0], cmd('1', 0));
    assert_eq!(cmds[1], cmd('2', 1));
    assert_eq!(cmds[2], cmd('3', 2));
    assert_eq!(cmds[3], cmd('4', 3));
}

#[test]
fn zero_renders_as_single_digit() {
    let cmds = render_number(0, 0, 0, Color::Yellow, Color::Black);
    assert_eq!(cmds.len(), 1);
    assert_eq!(cmds[0], cmd('0', 0));
}

#[test]
fn rendering_starts_at_the_origin_cell() {
    let cmds = render_number(907, 5, 3, Color::Cyan, Color::Black);
    assert_eq!(cmds.len(), 3);
    for (k, glyph) in ['9', '0', '7'].into_iter().enumerate() {
        assert_eq!(
            cmds[k],
            DrawCmd {
                glyph,
                col: 5 + k,
                row: 3,
                foreground: Color::Cyan,
                background: Color::Black,
            }
        );
    }
}
