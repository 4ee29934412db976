//! The renderer: projects a session onto a three-row block of display
//! commands.
//!
//! A render clears the block's three rows, paints the content rows — the
//! text over its two dimmed case mirrors, or one dimmed placeholder while
//! the text is empty — and parks the cursor on the caret. A row that would
//! fall past the terminal's last row first emits a line break, which scrolls
//! the screen up one row, and pulls the anchor one row up; this pins the
//! block to the bottom of the screen instead of writing out of bounds.

use vstd::prelude::*;

verus! {

use crate::casing::{lower_of, to_lower_chars, to_upper_chars, upper_of};
use crate::cmd::{cmds_view, lemma_cmds_view_push, Cmd, CmdView};
use crate::session::{SessionView, State};

/// The abstract value of one display row.
#[verifier::ext_equal]
pub struct LineView {
    /// Painted in the dim foreground color.
    pub dim: bool,
    /// The characters of the row.
    pub content: Seq<char>,
}

/// One display row of the block.
#[derive(Debug)]
pub struct Line {
    /// Painted in the dim foreground color.
    pub dim: bool,
    /// The characters of the row.
    pub content: Vec<char>,
}

impl View for Line {
    type V = LineView;

    open spec fn view(&self) -> LineView {
        LineView { dim: self.dim, content: self.content@ }
    }
}

/// The abstract value of a row list.
pub open spec fn lines_view(lines: Seq<Line>) -> Seq<LineView> {
    lines.map_values(|l: Line| l@)
}

/// The placeholder row shown while the text is empty.
pub open spec fn placeholder_text() -> Seq<char> {
    "Start typing..."@
}

/// The rows a text projects to: the text itself over its two dimmed case
/// mirrors, recomputed fresh on every call — or a single dimmed placeholder
/// while the text is empty.
pub open spec fn display_lines(text: Seq<char>) -> Seq<LineView> {
    if text.len() == 0 {
        seq![LineView { dim: true, content: placeholder_text() }]
    } else {
        seq![
            LineView { dim: false, content: text },
            LineView { dim: true, content: upper_of(text) },
            LineView { dim: true, content: lower_of(text) },
        ]
    }
}

/// A copy of a character vector.
fn copy_chars(src: &Vec<char>) -> (r: Vec<char>)
    ensures
        r@ == src@,
{
    let mut r: Vec<char> = Vec::new();
    let mut i: usize = 0;
    while i < src.len()
        invariant
            i <= src@.len(),
            r@ == src@.subrange(0, i as int),
        decreases src@.len() - i,
    {
        r.push(src[i]);
        i = i + 1;
        assert(r@ =~= src@.subrange(0, i as int));
    }
    assert(r@ =~= src@);
    r
}

/// The placeholder row's characters.
fn placeholder_chars() -> (v: Vec<char>)
    ensures
        v@ == placeholder_text(),
{
    let mut v: Vec<char> = Vec::new();
    v.push('S');
    v.push('t');
    v.push('a');
    v.push('r');
    v.push('t');
    v.push(' ');
    v.push('t');
    v.push('y');
    v.push('p');
    v.push('i');
    v.push('n');
    v.push('g');
    v.push('.');
    v.push('.');
    v.push('.');
    proof {
        reveal_strlit("Start typing...");
        assert(v@ =~= placeholder_text());
    }
    v
}

/// Build the display rows for a session: exactly `display_lines` of its
/// text, with both case mirrors recomputed on this call.
pub fn format_value(state: &State) -> (lines: Vec<Line>)
    ensures
        lines_view(lines@) == display_lines(state@.text),
{
    let mut lines: Vec<Line> = Vec::new();
    if state.text.len() == 0 {
        lines.push(Line { dim: true, content: placeholder_chars() });
        assert(lines_view(lines@) =~= display_lines(state@.text));
    } else {
        lines.push(Line { dim: false, content: copy_chars(&state.text) });
        lines.push(Line { dim: true, content: to_upper_chars(&state.text) });
        lines.push(Line { dim: true, content: to_lower_chars(&state.text) });
        assert(lines_view(lines@) =~= display_lines(state@.text));
    }
    lines
}

/// The three clear commands that open every render: the block's rows are
/// wiped so that no artifact of an earlier, longer render survives.
pub open spec fn clear_cmds(anchor: int) -> Seq<CmdView> {
    seq![
        CmdView::MoveTo { col: 1, row: anchor },
        CmdView::ClearLine,
        CmdView::MoveTo { col: 1, row: anchor + 1 },
        CmdView::ClearLine,
        CmdView::MoveTo { col: 1, row: anchor + 2 },
        CmdView::ClearLine,
    ]
}

/// The commands that paint one row at terminal row `row`.
pub open spec fn line_cmds(line: LineView, row: int) -> Seq<CmdView> {
    if line.dim {
        seq![
            CmdView::MoveTo { col: 1, row },
            CmdView::DimOn,
            CmdView::Text(line.content),
            CmdView::DimOff,
        ]
    } else {
        seq![CmdView::MoveTo { col: 1, row }, CmdView::Text(line.content)]
    }
}

/// Paint rows `i..` of `lines` with the current anchor: a row whose target
/// `anchor + i` lies past the terminal's last row first emits a line break
/// and pulls the anchor one row up, before its target is computed. Returns
/// the commands of the pass and the anchor after it.
pub open spec fn draw_from(
    lines: Seq<LineView>,
    i: int,
    anchor: int,
    term_rows: int,
) -> (Seq<CmdView>, int)
    decreases lines.len() - i,
{
    if i < 0 || i >= lines.len() {
        (Seq::empty(), anchor)
    } else {
        let stepped = if anchor + i > term_rows {
            anchor - 1
        } else {
            anchor
        };
        let prefix = if anchor + i > term_rows {
            seq![CmdView::Newline]
        } else {
            Seq::<CmdView>::empty()
        };
        let rest = draw_from(lines, i + 1, stepped, term_rows);
        (prefix + line_cmds(lines[i], stepped + i) + rest.0, rest.1)
    }
}

/// All commands of one render of session `s` on a terminal of `term_rows`
/// rows: clear the block, paint the rows, park the cursor on the caret in
/// the block's first row.
pub open spec fn render_cmds(s: SessionView, term_rows: int) -> Seq<CmdView> {
    let pass = draw_from(display_lines(s.text), 0, s.anchor_row, term_rows);
    clear_cmds(s.anchor_row) + pass.0 + seq![
        CmdView::MoveTo { col: s.caret + 1, row: pass.1 },
    ]
}

/// The anchor row after one render of `s`.
pub open spec fn anchor_after(s: SessionView, term_rows: int) -> int {
    draw_from(display_lines(s.text), 0, s.anchor_row, term_rows).1
}

/// Render the session: emit exactly `render_cmds` of the entering session,
/// and move the anchor to `anchor_after` — the one bounded piece of state a
/// render may touch. Text, caret and the committed flag stay as they were.
pub fn render(state: &mut State, term_rows: usize) -> (cmds: Vec<Cmd>)
    requires
        old(state)@.wf(),
        1 <= old(state)@.anchor_row,
        old(state)@.anchor_row + 2 <= usize::MAX,
        old(state)@.caret < usize::MAX,
        3 <= term_rows,
    ensures
        cmds_view(cmds@) == render_cmds(old(state)@, term_rows as int),
        final(state)@ == (SessionView {
            anchor_row: anchor_after(old(state)@, term_rows as int),
            ..old(state)@
        }),
        1 <= final(state)@.anchor_row <= old(state)@.anchor_row,
        final(state)@.wf(),
{
    let ghost s0 = state@;
    let ghost rows = term_rows as int;
    let mut cmds: Vec<Cmd> = Vec::new();
    cmds.push(Cmd::MoveTo { col: 1, row: state.anchor_row });
    cmds.push(Cmd::ClearLine);
    cmds.push(Cmd::MoveTo { col: 1, row: state.anchor_row + 1 });
    cmds.push(Cmd::ClearLine);
    cmds.push(Cmd::MoveTo { col: 1, row: state.anchor_row + 2 });
    cmds.push(Cmd::ClearLine);
    assert(cmds_view(cmds@) =~= clear_cmds(s0.anchor_row));

    let mut lines = format_value(state);
    let ghost lines0 = lines_view(lines@);
    let ghost n = lines0.len();
    let mut i: usize = 0;
    while lines.len() > 0
        invariant
            state@.wf(),
            state@.text == s0.text,
            state@.caret == s0.caret,
            state@.committed == s0.committed,
            1 <= state@.anchor_row <= s0.anchor_row,
            s0.anchor_row + 2 <= usize::MAX,
            3 <= rows,
            rows == term_rows as int,
            lines0 == display_lines(s0.text),
            n == lines0.len(),
            1 <= n <= 3,
            i + lines@.len() == n,
            lines_view(lines@) == lines0.subrange(i as int, n as int),
            cmds_view(cmds@) + draw_from(lines0, i as int, state@.anchor_row, rows).0
                == clear_cmds(s0.anchor_row) + draw_from(lines0, 0, s0.anchor_row, rows).0,
            draw_from(lines0, i as int, state@.anchor_row, rows).1
                == draw_from(lines0, 0, s0.anchor_row, rows).1,
        decreases lines@.len(),
    {
        let ghost a_pre = state@.anchor_row;
        let ghost cmds_pre = cmds_view(cmds@);
        let ghost pass = draw_from(lines0, i as int, a_pre, rows);
        let ghost lines_pre = lines@;
        let line = lines.remove(0);
        proof {
            assert(line@ == lines_view(lines_pre)[0]);
            assert(line@ == lines0[i as int]);
            assert forall|j: int| 0 <= j < lines@.len() implies #[trigger] lines_view(lines@)[j]
                == lines0.subrange(i as int + 1, n as int)[j] by {
                assert(lines@[j] == lines_pre[j + 1]);
                assert(lines_view(lines@)[j] == lines@[j]@);
                assert(lines_view(lines_pre)[j + 1] == lines_pre[j + 1]@);
                assert(lines_view(lines_pre)[j + 1] == lines0.subrange(i as int, n as int)[j + 1]);
            }
            assert(lines_view(lines@) =~= lines0.subrange(i as int + 1, n as int));
        }
        if state.anchor_row + i > term_rows {
            proof {
                lemma_cmds_view_push(cmds@, Cmd::Newline);
            }
            cmds.push(Cmd::Newline);
            state.anchor_row = state.anchor_row - 1;
        }
        let ghost stepped = state@.anchor_row;
        let ghost prefix: Seq<CmdView> = if a_pre + i > rows {
            seq![CmdView::Newline]
        } else {
            Seq::<CmdView>::empty()
        };
        assert(cmds_view(cmds@) =~= cmds_pre + prefix);
        let target_row = state.anchor_row + i;
        proof {
            lemma_cmds_view_push(cmds@, Cmd::MoveTo { col: 1, row: target_row });
        }
        cmds.push(Cmd::MoveTo { col: 1, row: target_row });
        if line.dim {
            proof {
                lemma_cmds_view_push(cmds@, Cmd::DimOn);
            }
            cmds.push(Cmd::DimOn);
            proof {
                lemma_cmds_view_push(cmds@, Cmd::Text(line.content));
            }
            cmds.push(Cmd::Text(line.content));
            proof {
                lemma_cmds_view_push(cmds@, Cmd::DimOff);
            }
            cmds.push(Cmd::DimOff);
        } else {
            proof {
                lemma_cmds_view_push(cmds@, Cmd::Text(line.content));
            }
            cmds.push(Cmd::Text(line.content));
        }
        proof {
            assert(cmds_view(cmds@) =~= cmds_pre + prefix + line_cmds(
                lines0[i as int],
                stepped + i,
            ));
            assert(pass.0 == prefix + line_cmds(lines0[i as int], stepped + i) + draw_from(
                lines0,
                i as int + 1,
                stepped,
                rows,
            ).0);
            assert(cmds_view(cmds@) + draw_from(lines0, i as int + 1, stepped, rows).0
                =~= cmds_pre + pass.0);
        }
        i = i + 1;
    }
    assert(i == n);
    assert(draw_from(lines0, n as int, state@.anchor_row, rows).0 == Seq::<CmdView>::empty());
    assert(cmds_view(cmds@) =~= clear_cmds(s0.anchor_row) + draw_from(
        lines0,
        0,
        s0.anchor_row,
        rows,
    ).0);
    let park = Cmd::MoveTo { col: state.caret + 1, row: state.anchor_row };
    proof {
        lemma_cmds_view_push(cmds@, park);
    }
    cmds.push(park);
    assert(cmds_view(cmds@) =~= render_cmds(s0, rows));
    cmds
}

/// No command of the list scrolls the screen.
pub open spec fn no_scroll(cmds: Seq<CmdView>) -> bool {
    forall|j: int| 0 <= j < cmds.len() ==> !(#[trigger] cmds[j] is Newline)
}

/// A pass whose rows all fit on the screen emits no line break and leaves
/// the anchor where it was.
pub proof fn lemma_draw_from_steady(lines: Seq<LineView>, i: int, anchor: int, term_rows: int)
    requires
        0 <= i,
        anchor + lines.len() <= term_rows + 1,
    ensures
        draw_from(lines, i, anchor, term_rows).1 == anchor,
        no_scroll(draw_from(lines, i, anchor, term_rows).0),
    decreases lines.len() - i,
{
    if i >= lines.len() {
    } else {
        lemma_draw_from_steady(lines, i + 1, anchor, term_rows);
        let head = line_cmds(lines[i], anchor + i);
        let rest = draw_from(lines, i + 1, anchor, term_rows).0;
        let whole = draw_from(lines, i, anchor, term_rows).0;
        assert(whole =~= head + rest);
        assert forall|j: int| 0 <= j < whole.len() implies !(#[trigger] whole[j] is Newline) by {
            if j < head.len() {
                assert(whole[j] == head[j]);
            } else {
                assert(whole[j] == rest[j - head.len()]);
            }
        }
    }
}

/// A pass that starts at most one row past the screen's edge ends with the
/// whole block fitting: the anchor after it is in a steady position.
proof fn lemma_draw_from_reaches(lines: Seq<LineView>, i: int, anchor: int, term_rows: int)
    requires
        0 <= i <= lines.len(),
        anchor + i <= term_rows + 1,
    ensures
        draw_from(lines, i, anchor, term_rows).1 + lines.len() <= term_rows + 1,
    decreases lines.len() - i,
{
    if i >= lines.len() {
    } else {
        let stepped = if anchor + i > term_rows {
            anchor - 1
        } else {
            anchor
        };
        lemma_draw_from_reaches(lines, i + 1, stepped, term_rows);
    }
}

/// A pass over at most three rows on a screen of at least three rows never
/// pulls the anchor above row 1.
proof fn lemma_draw_from_anchor(lines: Seq<LineView>, i: int, anchor: int, term_rows: int)
    requires
        0 <= i,
        lines.len() <= 3,
        1 <= anchor,
        3 <= term_rows,
    ensures
        1 <= draw_from(lines, i, anchor, term_rows).1 <= anchor,
    decreases lines.len() - i,
{
    if i >= lines.len() {
    } else {
        let stepped = if anchor + i > term_rows {
            anchor - 1
        } else {
            anchor
        };
        lemma_draw_from_anchor(lines, i + 1, stepped, term_rows);
    }
}

/// Law: rendering is idempotent. For a session whose block fits on the
/// screen — the steady position every render ends in — a render emits no
/// scroll and leaves the session untouched, so rendering the same session
/// twice in a row issues the very same commands both times: the same three
/// rows of content and the same final cursor move.
pub proof fn lemma_render_idempotent(s: SessionView, term_rows: int)
    requires
        s.wf(),
        1 <= s.anchor_row,
        s.anchor_row + display_lines(s.text).len() <= term_rows + 1,
    ensures
        anchor_after(s, term_rows) == s.anchor_row,
        no_scroll(render_cmds(s, term_rows)),
        render_cmds(
            SessionView { anchor_row: anchor_after(s, term_rows), ..s },
            term_rows,
        ) == render_cmds(s, term_rows),
{
    let lines = display_lines(s.text);
    lemma_draw_from_steady(lines, 0, s.anchor_row, term_rows);
    let pass = draw_from(lines, 0, s.anchor_row, term_rows).0;
    let whole = render_cmds(s, term_rows);
    let head = clear_cmds(s.anchor_row);
    let tail = seq![CmdView::MoveTo { col: s.caret + 1, row: s.anchor_row }];
    assert(whole =~= head + pass + tail);
    assert forall|j: int| 0 <= j < whole.len() implies !(#[trigger] whole[j] is Newline) by {
        if j < head.len() {
            assert(whole[j] == head[j]);
        } else if j < head.len() + pass.len() {
            assert(whole[j] == pass[j - head.len()]);
        } else {
            assert(whole[j] == tail[j - head.len() - pass.len()]);
        }
    }
    assert(SessionView { anchor_row: anchor_after(s, term_rows), ..s } =~= s);
}

/// Every render from the screen, or from at most one row past its edge,
/// ends in the steady position: the block fits, the anchor stays at least
/// 1, and by `lemma_render_idempotent` every later render of the unchanged
/// session repeats the same commands.
pub proof fn lemma_render_reaches_steady(s: SessionView, term_rows: int)
    requires
        s.wf(),
        1 <= s.anchor_row <= term_rows + 1,
        3 <= term_rows,
    ensures
        1 <= anchor_after(s, term_rows) <= s.anchor_row,
        anchor_after(s, term_rows) + display_lines(s.text).len() <= term_rows + 1,
{
    let lines = display_lines(s.text);
    lemma_draw_from_reaches(lines, 0, s.anchor_row, term_rows);
    lemma_draw_from_anchor(lines, 0, s.anchor_row, term_rows);
}

} // verus!
