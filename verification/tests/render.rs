use caseline::cmd::Cmd;
use caseline::render::{format_value, render};
use caseline::session::State;

fn state_with(text: &str, caret: usize, anchor_row: usize) -> State {
    State {
        text: text.chars().collect(),
        caret,
        anchor_row,
        committed: false,
    }
}

fn cmd_eq(a: &Cmd, b: &Cmd) -> bool {
    match (a, b) {
        (Cmd::MoveTo { col: c1, row: r1 }, Cmd::MoveTo { col: c2, row: r2 }) => {
            c1 == c2 && r1 == r2
        }
        (Cmd::ClearLine, Cmd::ClearLine) => true,
        (Cmd::DimOn, Cmd::DimOn) => true,
        (Cmd::DimOff, Cmd::DimOff) => true,
        (Cmd::Text(t1), Cmd::Text(t2)) => t1 == t2,
        (Cmd::Newline, Cmd::Newline) => true,
        _ => false,
    }
}

fn cmds_eq(a: &[Cmd], b: &[Cmd]) -> bool {
    a.len() == b.len() && a.iter().zip(b.iter()).all(|(x, y)| cmd_eq(x, y))
}

fn line_string(lines: &[caseline::render::Line], i: usize) -> String {
    lines[i].content.iter().collect()
}

#[test]
fn mirrors_are_fresh_case_transforms() {
    let s = state_with("AbC", 3, 1);
    let lines = format_value(&s);
    assert_eq!(lines.len(), 3);
    assert_eq!(line_string(&lines, 0), "AbC");
    assert_eq!(line_string(&lines, 1), "AbC".to_uppercase());
    assert_eq!(line_string(&lines, 2), "AbC".to_lowercase());
    assert!(!lines[0].dim);
    assert!(lines[1].dim);
    assert!(lines[2].dim);
}

#[test]
fn mirrors_differ_from_input() {
    let s = state_with("Hi", 2, 1);
    let lines = format_value(&s);
    assert_eq!(line_string(&lines, 0), "Hi");
    assert_eq!(line_string(&lines, 1), "HI");
    assert_eq!(line_string(&lines, 2), "hi");
}

#[test]
fn mirrors_handle_unicode_case() {
    let s = state_with("Straße", 6, 1);
    let lines = format_value(&s);
    assert_eq!(line_string(&lines, 1), "STRASSE");
    assert_eq!(line_string(&lines, 2), "straße");
}

#[test]
fn empty_text_shows_placeholder() {
    let s = State::new();
    let lines = format_value(&s);
    assert_eq!(lines.len(), 1);
    assert!(lines[0].dim);
    assert_eq!(line_string(&lines, 0), "Start typing...");
}

#[test]
fn render_paints_three_rows_and_parks_cursor() {
    let mut s = state_with("Hi", 2, 5);
    let cmds = render(&mut s, 24);
    assert_eq!(s.anchor_row, 5);
    let expected = vec![
        Cmd::MoveTo { col: 1, row: 5 },
        Cmd::ClearLine,
        Cmd::MoveTo { col: 1, row: 6 },
        Cmd::ClearLine,
        Cmd::MoveTo { col: 1, row: 7 },
        Cmd::ClearLine,
        Cmd::MoveTo { col: 1, row: 5 },
        Cmd::Text("Hi".chars().collect()),
        Cmd::MoveTo { col: 1, row: 6 },
        Cmd::DimOn,
        Cmd::Text("HI".chars().collect()),
        Cmd::DimOff,
        Cmd::MoveTo { col: 1, row: 7 },
        Cmd::DimOn,
        Cmd::Text("hi".chars().collect()),
        Cmd::DimOff,
        Cmd::MoveTo { col: 3, row: 5 },
    ];
    assert!(cmds_eq(&cmds, &expected));
}

#[test]
fn render_empty_paints_placeholder_row() {
    let mut s = State::new();
    s.anchor_row = 1;
    let cmds = render(&mut s, 24);
    assert_eq!(s.anchor_row, 1);
    let expected = vec![
        Cmd::MoveTo { col: 1, row: 1 },
        Cmd::ClearLine,
        Cmd::MoveTo { col: 1, row: 2 },
        Cmd::ClearLine,
        Cmd::MoveTo { col: 1, row: 3 },
        Cmd::ClearLine,
        Cmd::MoveTo { col: 1, row: 1 },
        Cmd::DimOn,
        Cmd::Text("Start typing...".chars().collect()),
        Cmd::DimOff,
        Cmd::MoveTo { col: 1, row: 1 },
    ];
    assert!(cmds_eq(&cmds, &expected));
}

#[test]
fn render_twice_repeats_the_same_commands() {
    let mut s = state_with("same", 4, 10);
    let first = render(&mut s, 24);
    let anchor_between = s.anchor_row;
    let second = render(&mut s, 24);
    assert_eq!(s.anchor_row, anchor_between);
    assert!(cmds_eq(&first, &second));
}

#[test]
fn render_at_bottom_scrolls_once_then_stays() {
    let mut s = state_with("low", 3, 23);
    let first = render(&mut s, 24);
    // rows 23, 24 fit; the third row would fall past the last row, so the
    // render breaks a line once and pulls the anchor up to 22
    assert_eq!(s.anchor_row, 22);
    assert_eq!(
        first.iter().filter(|c| matches!(c, Cmd::Newline)).count(),
        1
    );
    let second = render(&mut s, 24);
    assert_eq!(s.anchor_row, 22);
    assert!(second.iter().all(|c| !matches!(c, Cmd::Newline)));
    let third = render(&mut s, 24);
    assert!(cmds_eq(&second, &third));
}

#[test]
fn render_below_edge_pins_block_to_bottom() {
    let mut s = state_with("x", 1, 25);
    let cmds = render(&mut s, 24);
    // every content row overflows: three line breaks, anchor 25 -> 22
    assert_eq!(s.anchor_row, 22);
    assert_eq!(
        cmds.iter().filter(|c| matches!(c, Cmd::Newline)).count(),
        3
    );
}
