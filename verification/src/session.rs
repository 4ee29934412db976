//! Session state and its transitions.
//!
//! A session holds the text of the current entry, the caret inside it, and
//! the terminal row where the entry's three-row block starts. Every key event
//! maps to exactly one total transition; clamping takes the place of failure,
//! so no transition has an error case.

use vstd::prelude::*;

verus! {

use crate::cmd::{Cmd, CmdView, cmds_view};
use crate::cmd::lemma_cmds_view_push;

/// One abstract key event, as the terminal layer reports it.
#[derive(Clone, Copy, PartialEq, Eq, Structural, Debug)]
pub enum KeyEvent {
    /// A printable character.
    Char(char),
    /// The backspace key.
    Backspace,
    /// The left arrow key.
    Left,
    /// The right arrow key.
    Right,
    /// The enter key.
    Enter,
    /// The interrupt signal, e.g. Ctrl-C.
    Interrupt,
    /// Any event the editor does not recognize.
    Other,
}

/// The abstract value of a session.
#[verifier::ext_equal]
pub struct SessionView {
    /// The characters of the current entry.
    pub text: Seq<char>,
    /// The caret's position: an index into `text`, allowed to equal its
    /// length directly after an insertion at the end.
    pub caret: int,
    /// The 1-based terminal row where the entry's block starts.
    pub anchor_row: int,
    /// True once the editor loop should stop.
    pub committed: bool,
}

impl SessionView {
    /// Session validity: the caret never leaves the text.
    pub open spec fn wf(self) -> bool {
        0 <= self.caret <= self.text.len()
    }

    /// The highest caret position that navigation may reach: the index of
    /// the last character, or 0 when the text is empty.
    pub open spec fn caret_limit(self) -> int {
        if self.text.len() == 0 {
            0
        } else {
            self.text.len() - 1
        }
    }

    /// Insert `c` at the caret and advance the caret past it.
    pub open spec fn insert(self, c: char) -> SessionView {
        SessionView {
            text: self.text.insert(self.caret, c),
            caret: self.caret + 1,
            ..self
        }
    }

    /// Remove the character before the caret and retreat the caret; a no-op
    /// when the text is empty or the caret is at 0.
    pub open spec fn delete_before_caret(self) -> SessionView {
        if self.text.len() > 0 && self.caret > 0 {
            SessionView {
                text: self.text.remove(self.caret - 1),
                caret: self.caret - 1,
                ..self
            }
        } else {
            self
        }
    }

    /// The caret after moving it by `delta`, clamped into
    /// `[0, caret_limit]`.
    pub open spec fn clamped_caret(self, delta: int) -> int {
        let target = self.caret + delta;
        if target <= 0 {
            0
        } else if target >= self.caret_limit() {
            self.caret_limit()
        } else {
            target
        }
    }

    /// Move the caret by `delta`, clamped so that it stays on the typed
    /// text: it cannot pass the last character.
    pub open spec fn move_caret(self, delta: int) -> SessionView {
        SessionView { caret: self.clamped_caret(delta), ..self }
    }

    /// Enter: on empty text, stop the loop; on non-empty text, leave the
    /// block behind and start a fresh entry below it. The fresh anchor
    /// advances 2 rows when the block ends exactly on the terminal's last
    /// row, else 3 rows.
    pub open spec fn commit_or_exit(self, term_rows: int) -> SessionView {
        if self.text.len() == 0 {
            SessionView { committed: true, ..self }
        } else {
            SessionView {
                text: Seq::empty(),
                caret: 0,
                anchor_row: if self.anchor_row + 2 == term_rows {
                    self.anchor_row + 2
                } else {
                    self.anchor_row + 3
                },
                committed: false,
            }
        }
    }

    /// Interrupt: stop the loop; on non-empty text, first move the anchor
    /// 2 rows down, so the cursor comes to rest below the mirror rows.
    pub open spec fn abort(self) -> SessionView {
        SessionView {
            anchor_row: if self.text.len() == 0 {
                self.anchor_row
            } else {
                self.anchor_row + 2
            },
            committed: true,
            ..self
        }
    }

    /// The transition for one key event.
    pub open spec fn step(self, key: KeyEvent, term_rows: int) -> SessionView {
        match key {
            KeyEvent::Char(c) => self.insert(c),
            KeyEvent::Backspace => self.delete_before_caret(),
            KeyEvent::Left => self.move_caret(-1),
            KeyEvent::Right => self.move_caret(1),
            KeyEvent::Enter => self.commit_or_exit(term_rows),
            KeyEvent::Interrupt => self.abort(),
            KeyEvent::Other => self,
        }
    }

    /// The display commands a key event itself emits, before any repaint:
    /// enter on non-empty text breaks the line below the block, and an
    /// interrupt on non-empty text parks the cursor there.
    pub open spec fn step_cmds(self, key: KeyEvent) -> Seq<CmdView> {
        match key {
            KeyEvent::Enter => {
                if self.text.len() == 0 {
                    Seq::empty()
                } else {
                    seq![
                        CmdView::MoveTo { col: 1, row: self.anchor_row + 2 },
                        CmdView::Newline,
                    ]
                }
            },
            KeyEvent::Interrupt => {
                if self.text.len() == 0 {
                    Seq::empty()
                } else {
                    seq![CmdView::MoveTo { col: 1, row: self.anchor_row + 2 }]
                }
            },
            _ => Seq::empty(),
        }
    }
}

/// The session of the editor loop.
#[derive(Debug)]
pub struct State {
    /// The characters of the current entry.
    pub text: Vec<char>,
    /// The caret's position: an index into `text`.
    pub caret: usize,
    /// The 1-based terminal row where the entry's block starts. The driver
    /// sets it to the detected cursor row before the first render.
    pub anchor_row: usize,
    /// True once the editor loop should stop.
    pub committed: bool,
}

impl View for State {
    type V = SessionView;

    open spec fn view(&self) -> SessionView {
        SessionView {
            text: self.text@,
            caret: self.caret as int,
            anchor_row: self.anchor_row as int,
            committed: self.committed,
        }
    }
}

impl State {
    /// A fresh session: empty text, caret at 0, anchor still unset.
    pub fn new() -> (s: State)
        ensures
            s@ == (SessionView {
                text: Seq::empty(),
                caret: 0,
                anchor_row: 0,
                committed: false,
            }),
            s@.wf(),
    {
        State { text: Vec::new(), caret: 0, anchor_row: 0, committed: false }
    }

    /// Insert `c` at the caret; the caret advances past it. Always succeeds.
    pub fn insert(&mut self, c: char)
        requires
            old(self)@.wf(),
            old(self)@.text.len() < usize::MAX,
        ensures
            final(self)@ == old(self)@.insert(c),
            final(self)@.wf(),
    {
        self.text.insert(self.caret, c);
        self.caret = self.caret + 1;
    }

    /// Remove the character before the caret and retreat the caret; a no-op
    /// when the text is empty or the caret is at 0 — never an error.
    pub fn delete_before_caret(&mut self)
        requires
            old(self)@.wf(),
        ensures
            final(self)@ == old(self)@.delete_before_caret(),
            final(self)@.wf(),
    {
        if self.text.len() > 0 && self.caret > 0 {
            self.text.remove(self.caret - 1);
            self.caret = self.caret - 1;
        }
    }

    /// Move the caret by `delta`, clamped into `[0, caret_limit]`: the caret
    /// stays on the typed text and cannot pass its last character.
    pub fn move_caret(&mut self, delta: isize)
        requires
            old(self)@.wf(),
        ensures
            final(self)@ == old(self)@.move_caret(delta as int),
            final(self)@.wf(),
            0 <= final(self)@.caret <= old(self)@.caret_limit(),
    {
        let limit: usize = if self.text.len() == 0 {
            0
        } else {
            self.text.len() - 1
        };
        let target: i128 = self.caret as i128 + delta as i128;
        if target <= 0 {
            self.caret = 0;
        } else if target >= limit as i128 {
            self.caret = limit;
        } else {
            self.caret = target as usize;
        }
    }

    /// Enter: on empty text, stop the loop; on non-empty text, keep the
    /// block and start a fresh entry 3 rows below it, or 2 rows below when
    /// the block ends exactly on the terminal's last row.
    pub fn commit_or_exit(&mut self, term_rows: usize)
        requires
            old(self)@.wf(),
            old(self)@.anchor_row + 3 <= usize::MAX,
        ensures
            final(self)@ == old(self)@.commit_or_exit(term_rows as int),
            final(self)@.wf(),
    {
        if self.text.len() == 0 {
            self.committed = true;
        } else {
            self.text = Vec::new();
            self.caret = 0;
            if self.anchor_row + 2 == term_rows {
                self.anchor_row = self.anchor_row + 2;
            } else {
                self.anchor_row = self.anchor_row + 3;
            }
            self.committed = false;
        }
    }

    /// Interrupt: stop the loop; on non-empty text, first move the anchor
    /// 2 rows down, below the mirror rows.
    pub fn abort(&mut self)
        requires
            old(self)@.wf(),
            old(self)@.anchor_row + 2 <= usize::MAX,
        ensures
            final(self)@ == old(self)@.abort(),
            final(self)@.wf(),
    {
        if self.text.len() > 0 {
            self.anchor_row = self.anchor_row + 2;
        }
        self.committed = true;
    }

    /// Apply one key event: the session takes its transition, and the
    /// returned commands are the event's own output (a cursor park or a
    /// line break below the block), to execute before any repaint.
    pub fn apply_key(&mut self, key: KeyEvent, term_rows: usize) -> (cmds: Vec<Cmd>)
        requires
            old(self)@.wf(),
            old(self)@.text.len() < usize::MAX,
            old(self)@.anchor_row + 3 <= usize::MAX,
        ensures
            final(self)@ == old(self)@.step(key, term_rows as int),
            final(self)@.wf(),
            cmds_view(cmds@) == old(self)@.step_cmds(key),
    {
        let mut cmds: Vec<Cmd> = Vec::new();
        match key {
            KeyEvent::Char(c) => self.insert(c),
            KeyEvent::Backspace => self.delete_before_caret(),
            KeyEvent::Left => self.move_caret(-1),
            KeyEvent::Right => self.move_caret(1),
            KeyEvent::Enter => {
                if self.text.len() > 0 {
                    let park = Cmd::MoveTo { col: 1, row: self.anchor_row + 2 };
                    proof {
                        lemma_cmds_view_push(cmds@, park);
                    }
                    cmds.push(park);
                    proof {
                        lemma_cmds_view_push(cmds@, Cmd::Newline);
                    }
                    cmds.push(Cmd::Newline);
                }
                self.commit_or_exit(term_rows);
            },
            KeyEvent::Interrupt => {
                if self.text.len() > 0 {
                    let park = Cmd::MoveTo { col: 1, row: self.anchor_row + 2 };
                    proof {
                        lemma_cmds_view_push(cmds@, park);
                    }
                    cmds.push(park);
                }
                self.abort();
            },
            KeyEvent::Other => {},
        }
        cmds
    }
}

/// Law: the caret invariant. Every transition keeps the caret inside
/// `[0, text.len()]`, so any run of steps from a valid session — in
/// particular from the fresh empty one — keeps it there after every step.
pub proof fn lemma_step_preserves_wf(s: SessionView, key: KeyEvent, term_rows: int)
    requires
        s.wf(),
    ensures
        s.step(key, term_rows).wf(),
{
}

/// Law: wherever the caret stands in a valid session, moving it by any
/// offset lands inside `[0, caret_limit]`: on the typed text, or at 0 when
/// the text is empty.
pub proof fn lemma_move_caret_in_range(s: SessionView, delta: int)
    requires
        s.wf(),
    ensures
        s.move_caret(delta).wf(),
        0 <= s.move_caret(delta).caret <= s.caret_limit(),
{
}

/// Law: the insert/delete round trip. Inserting a character and then
/// deleting before the caret restores the text, the caret, and the whole
/// session to their values before the insertion.
pub proof fn lemma_insert_then_delete(s: SessionView, c: char)
    requires
        s.wf(),
    ensures
        s.insert(c).delete_before_caret() == s,
{
    assert(s.insert(c).text.remove(s.caret) =~= s.text);
    assert(s.insert(c).delete_before_caret() =~= s);
}

} // verus!
