//! The edit controller: a cursor and an editing mode on top of a
//! [`crate::text_buffer::Page`].  Decoded input characters are folded one
//! at a time into the page, and the cursor is clamped so that it never
//! addresses a line or column outside the current text.

use vstd::prelude::*;

use crate::text::sep_free;
use crate::text_buffer::{split_lines, splice_at, Page};

verus! {

/// The editing mode: `Insert` routes printable text into the page,
/// `Command` suppresses insertion.
#[derive(Clone, Copy, Debug, PartialEq, Eq, Hash, Structural)]
pub enum Mode {
    Insert,
    Command,
}

/// The controller's mathematical state: the document lines, the cursor
/// position, and the mode.
pub ghost struct EditState {
    pub lines: Seq<Seq<char>>,
    pub line: int,
    pub col: int,
    pub mode: Mode,
}

/// A state whose document is well formed and whose cursor lies inside it.
pub open spec fn st_wf(st: EditState) -> bool {
    &&& st.lines.len() >= 1
    &&& sep_free(st.lines, '\n')
    &&& 0 <= st.line < st.lines.len()
    &&& 0 <= st.col <= st.lines[st.line].len()
}

/// Clamping the cursor into bounds: first the line, then the column
/// against the (possibly new) line's length.
pub open spec fn clamp_state(st: EditState) -> EditState {
    let l2 = if st.line >= st.lines.len() {
        st.lines.len() - 1
    } else {
        st.line
    };
    let c2 = if st.col > st.lines[l2].len() {
        st.lines[l2].len() as int
    } else {
        st.col
    };
    EditState { lines: st.lines, line: l2, col: c2, mode: st.mode }
}

/// Erasing the character before the cursor.  At column zero the current
/// line is joined onto the end of the line above; at the very origin
/// nothing happens.
pub open spec fn erase_step(st: EditState) -> EditState {
    if st.col > 0 {
        EditState {
            lines: st.lines.update(st.line, st.lines[st.line].remove(st.col - 1)),
            line: st.line,
            col: st.col - 1,
            mode: st.mode,
        }
    } else if st.line > 0 {
        let prev = st.lines[st.line - 1];
        let cur = st.lines[st.line];
        EditState {
            lines: st.lines.remove(st.line).update(st.line - 1, prev + cur),
            line: st.line - 1,
            col: prev.len() as int,
            mode: st.mode,
        }
    } else {
        st
    }
}

/// Splitting the current line at the cursor; the cursor moves to the
/// start of the new line.
pub open spec fn newline_step(st: EditState) -> EditState {
    EditState {
        lines: splice_at(st.lines, st.line, st.col, split_lines(seq!['\n'])),
        line: st.line + 1,
        col: 0,
        mode: st.mode,
    }
}

/// Inserting one printable character at the cursor; the cursor advances
/// one column.
pub open spec fn insert_step(st: EditState, c: char) -> EditState {
    EditState {
        lines: splice_at(st.lines, st.line, st.col, split_lines(seq![c])),
        line: st.line,
        col: st.col + 1,
        mode: st.mode,
    }
}

/// One decoded input character applied to the controller.  Outside of
/// `Insert` mode nothing happens, so a mode switch stops the rest of an
/// input batch from being inserted.
pub open spec fn step(st: EditState, c: char) -> EditState {
    if st.mode != Mode::Insert {
        st
    } else if c == '\u{8}' {
        erase_step(st)
    } else if c == '\u{1b}' {
        EditState { lines: st.lines, line: st.line, col: st.col, mode: Mode::Command }
    } else if c == '\r' || c == '\n' {
        newline_step(st)
    } else {
        insert_step(st, c)
    }
}

/// A whole input batch applied character by character, left to right.
pub open spec fn run(st: EditState, cs: Seq<char>) -> EditState
    decreases cs.len(),
{
    if cs.len() == 0 {
        st
    } else {
        run(step(st, cs[0]), cs.drop_first())
    }
}

/// Appending one character to a batch is one more step after the batch.
pub proof fn lemma_run_snoc(st: EditState, cs: Seq<char>, c: char)
    ensures
        run(st, cs.push(c)) == step(run(st, cs), c),
    decreases cs.len(),
{
    if cs.len() == 0 {
        assert(cs.push(c)[0] == c);
        assert(cs.push(c).drop_first() =~= Seq::<char>::empty());
        assert(run(st, cs.push(c)) == run(step(st, c), Seq::<char>::empty()));
        assert(run(step(st, c), Seq::<char>::empty()) == step(st, c));
        assert(run(st, cs) == st);
    } else {
        assert(cs.push(c)[0] == cs[0]);
        assert(cs.push(c).drop_first() =~= cs.drop_first().push(c));
        assert(run(st, cs.push(c)) == run(step(st, cs[0]), cs.drop_first().push(c)));
        lemma_run_snoc(step(st, cs[0]), cs.drop_first(), c);
        assert(run(st, cs) == run(step(st, cs[0]), cs.drop_first()));
    }
}

/// Clamping yields a state whose cursor is in bounds.
pub proof fn lemma_clamp_wf(st: EditState)
    requires
        st.lines.len() >= 1,
        sep_free(st.lines, '\n'),
        st.line >= 0,
        st.col >= 0,
    ensures
        st_wf(clamp_state(st)),
        clamp_state(st).lines == st.lines,
        clamp_state(st).mode == st.mode,
{
}

/// A single step keeps the state well formed.
pub proof fn lemma_step_wf(st: EditState, c: char)
    requires
        st_wf(st),
    ensures
        st_wf(step(st, c)),
{
    if st.mode != Mode::Insert {
    } else if c == '\u{8}' {
        if st.col > 0 {
            let l = st.lines[st.line];
            let nl = l.remove(st.col - 1);
            assert(!nl.contains('\n')) by {
                crate::text::lemma_sep_free_subrange(l, 0, st.col - 1, '\n');
                crate::text::lemma_sep_free_subrange(l, st.col, l.len() as int, '\n');
                crate::text::lemma_sep_free_concat(
                    l.subrange(0, st.col - 1),
                    l.subrange(st.col, l.len() as int),
                    '\n',
                );
            }
            let st2 = step(st, c);
            assert forall|i: int| 0 <= i < st2.lines.len() implies !st2.lines[i].contains(
                '\n',
            ) by {
                if i != st.line {
                    assert(st2.lines[i] == st.lines[i]);
                }
            }
        } else if st.line > 0 {
            let prev = st.lines[st.line - 1];
            let cur = st.lines[st.line];
            assert(!(prev + cur).contains('\n')) by {
                crate::text::lemma_sep_free_concat(prev, cur, '\n');
            }
            let st2 = step(st, c);
            let removed = st.lines.remove(st.line);
            st.lines.remove_ensures(st.line);
            assert forall|i: int| 0 <= i < st2.lines.len() implies !st2.lines[i].contains(
                '\n',
            ) by {
                if i == st.line - 1 {
                    assert(st2.lines[i] == prev + cur);
                } else if i < st.line {
                    assert(removed[i] == st.lines[i]);
                    assert(st2.lines[i] == st.lines[i]);
                } else {
                    assert(removed[i] == st.lines[i + 1]);
                    assert(st2.lines[i] == st.lines[i + 1]);
                }
            }
            assert(st2.col == prev.len() && st2.lines[st2.line] == prev + cur);
            assert(st2.col <= st2.lines[st2.line].len());
        }
    } else if c == '\u{1b}' {
    } else if c == '\r' || c == '\n' {
        crate::text::lemma_split_on_len(seq!['\n'], '\n');
        crate::text::lemma_split_on_sep_free(seq!['\n'], '\n');
        crate::text_buffer::lemma_split_then_join(st.lines, st.line, st.col);
        crate::text_buffer::lemma_splice_sep_free(
            st.lines,
            st.line,
            st.col,
            split_lines(seq!['\n']),
        );
        let st2 = step(st, c);
        assert(st2.line < st2.lines.len());
        assert(st2.col == 0);
    } else {
        crate::text::lemma_split_on_len(seq![c], '\n');
        crate::text::lemma_split_on_sep_free(seq![c], '\n');
        crate::text_buffer::lemma_insert_char_then_get(st.lines, st.line, st.col, c);
        crate::text_buffer::lemma_splice_sep_free(st.lines, st.line, st.col, split_lines(seq![c]));
        let st2 = step(st, c);
        assert(st2.lines[st2.line] == st.lines[st.line].insert(st.col, c));
        st.lines[st.line].insert_ensures(st.col, c);
        assert(st2.col <= st2.lines[st2.line].len());
    }
}

/// A whole batch keeps the state well formed.
pub proof fn lemma_run_wf(st: EditState, cs: Seq<char>)
    requires
        st_wf(st),
    ensures
        st_wf(run(st, cs)),
    decreases cs.len(),
{
    if cs.len() > 0 {
        lemma_step_wf(st, cs[0]);
        lemma_run_wf(step(st, cs[0]), cs.drop_first());
    }
}

/// Law: in `Insert` mode with the cursor inside the text, splitting the
/// line with a newline and immediately erasing the line break restores
/// the document, the cursor, and the mode exactly.
pub proof fn lemma_newline_then_erase(st: EditState)
    requires
        st_wf(st),
        st.mode == Mode::Insert,
    ensures
        step(step(st, '\n'), '\u{8}') == st,
{
    crate::text::lemma_split_on_len(seq!['\n'], '\n');
    crate::text::lemma_split_on_sep_free(seq!['\n'], '\n');
    crate::text_buffer::lemma_split_then_join(st.lines, st.line, st.col);
    let st2 = step(st, '\n');
    assert(st2 == newline_step(st));
    let sp = st2.lines;
    assert(st2.col == 0 && st2.line == st.line + 1 && st2.line > 0);
    let st3 = step(st2, '\u{8}');
    assert(st3 == erase_step(st2));
    assert(st3.lines == sp.remove(st.line + 1).update(st.line, sp[st.line] + sp[st.line + 1]));
    assert(st3.lines == st.lines);
    assert(st3.line == st.line);
    assert(st3.col == sp[st.line].len());
    assert(sp[st.line] == st.lines[st.line].take(st.col));
    assert(st3.col == st.col);
}

/// One decoded input character applied to the later controller
/// iteration, whose text input ignores erase and escape characters:
/// those arrive as separate commands.
pub open spec fn edit_step(st: EditState, c: char) -> EditState {
    if st.mode != Mode::Insert {
        st
    } else if c == '\u{8}' || c == '\u{1b}' {
        st
    } else if c == '\r' || c == '\n' {
        newline_step(st)
    } else {
        insert_step(st, c)
    }
}

/// A whole input batch under [`edit_step`], left to right.
pub open spec fn edit_run(st: EditState, cs: Seq<char>) -> EditState
    decreases cs.len(),
{
    if cs.len() == 0 {
        st
    } else {
        edit_run(edit_step(st, cs[0]), cs.drop_first())
    }
}

/// Appending one character to a batch is one more [`edit_step`].
pub proof fn lemma_edit_run_snoc(st: EditState, cs: Seq<char>, c: char)
    ensures
        edit_run(st, cs.push(c)) == edit_step(edit_run(st, cs), c),
    decreases cs.len(),
{
    if cs.len() == 0 {
        assert(cs.push(c)[0] == c);
        assert(cs.push(c).drop_first() =~= Seq::<char>::empty());
        assert(edit_run(st, cs.push(c)) == edit_run(edit_step(st, c), Seq::<char>::empty()));
        assert(edit_run(edit_step(st, c), Seq::<char>::empty()) == edit_step(st, c));
        assert(edit_run(st, cs) == st);
    } else {
        assert(cs.push(c)[0] == cs[0]);
        assert(cs.push(c).drop_first() =~= cs.drop_first().push(c));
        assert(edit_run(st, cs.push(c)) == edit_run(edit_step(st, cs[0]), cs.drop_first().push(c)));
        lemma_edit_run_snoc(edit_step(st, cs[0]), cs.drop_first(), c);
        assert(edit_run(st, cs) == edit_run(edit_step(st, cs[0]), cs.drop_first()));
    }
}

/// A single [`edit_step`] keeps the state well formed.
pub proof fn lemma_edit_step_wf(st: EditState, c: char)
    requires
        st_wf(st),
    ensures
        st_wf(edit_step(st, c)),
{
    if c != '\u{8}' && c != '\u{1b}' {
        assert(edit_step(st, c) == step(st, c));
        lemma_step_wf(st, c);
    }
}

/// Joining line `li` onto the end of the line above it — removing it and
/// appending its text — merges exactly those two lines.
pub proof fn lemma_erase_join(ls: Seq<Seq<char>>, li: int)
    requires
        sep_free(ls, '\n'),
        0 < li < ls.len(),
    ensures
        splice_at(
            ls.remove(li),
            li - 1,
            ls.remove(li)[li - 1].len() as int,
            split_lines(ls[li]),
        ) =~~= ls.remove(li).update(li - 1, ls[li - 1] + ls[li]),
{
    let cur = ls[li];
    assert(!cur.contains('\n'));
    crate::text::lemma_split_on_sep_free_single(cur, '\n');
    let mid = ls.remove(li);
    ls.remove_ensures(li);
    assert(mid[li - 1] == ls[li - 1]);
    let prev = ls[li - 1];
    let fr = split_lines(cur);
    assert(fr == seq![cur]);
    let target = splice_at(mid, li - 1, prev.len() as int, fr);
    let g0 = fr.update(0, prev.take(prev.len() as int) + fr[0]);
    let glued = g0.update(0, g0.last() + prev.skip(prev.len() as int));
    assert(prev.take(prev.len() as int) =~= prev);
    assert(prev.skip(prev.len() as int) =~= Seq::<char>::empty());
    assert(glued.len() == 1);
    assert(glued[0] =~= prev + cur);
    assert(target == mid.take(li - 1) + glued + mid.skip(li));
    assert forall|j: int| 0 <= j < target.len() implies target[j] == mid.update(
        li - 1,
        prev + cur,
    )[j] by {
        if j < li - 1 {
            assert(target[j] == mid.take(li - 1)[j]);
        } else if j == li - 1 {
            assert(target[j] == glued[0]);
        } else {
            assert(target[j] == mid.skip(li)[j - li]);
        }
    }
    assert(target.len() == mid.len());
}

/// The edit controller: a page, a cursor (`line`, `cindex`) addressing a
/// character position in it, and the editing mode.  The cursor may be
/// transiently out of bounds after outside events; every text operation
/// clamps it first.
pub struct Buffer {
    pub page: Page,
    pub line: usize,
    pub cindex: usize,
    pub mode: Mode,
}

impl Buffer {
    /// The controller's mathematical state.
    pub open spec fn model(&self) -> EditState {
        EditState {
            lines: self.page@,
            line: self.line as int,
            col: self.cindex as int,
            mode: self.mode,
        }
    }

    /// Forces the cursor into the bounds of the text: the line is clamped
    /// to the last line, then the column to that line's length.
    pub fn validate_cursor(&mut self)
        requires
            old(self).page.wf(),
        ensures
            final(self).model() == clamp_state(old(self).model()),
            final(self).page == old(self).page,
            st_wf(final(self).model()),
    {
        if self.page.len() <= self.line {
            self.line = self.page.len() - 1;
        }
        let c = match self.page.get_line(self.line) {
            Some(l) => l.unicode_len(),
            None => 0,
        };
        if c < self.cindex {
            self.cindex = c;
        }
        proof {
            lemma_clamp_wf(old(self).model());
        }
    }

    /// The cursor as the renderer sees it: the column clamped to the
    /// current line's length, paired with the line index.
    pub fn get_real_cursor(&self) -> (r: (usize, usize))
        ensures
            r.1 == self.line,
            r.0 as int == ({
                let len = if self.line < self.page@.len() {
                    self.page@[self.line as int].len() as int
                } else {
                    0
                };
                if self.cindex > len {
                    len
                } else {
                    self.cindex as int
                }
            }),
    {
        let len = match self.page.get_line(self.line) {
            Some(l) => l.unicode_len(),
            None => 0,
        };
        let x = if self.cindex > len {
            len
        } else {
            self.cindex
        };
        (x, self.line)
    }

    /// Moves the cursor one column left after clamping it; reports whether
    /// it moved.
    pub fn move_cursor_left(&mut self) -> (moved: bool)
        requires
            old(self).page.wf(),
        ensures
            final(self).page == old(self).page,
            ({
                let st = clamp_state(old(self).model());
                if st.col > 0 {
                    moved && final(self).model() == (EditState {
                        lines: st.lines,
                        line: st.line,
                        col: st.col - 1,
                        mode: st.mode,
                    })
                } else {
                    !moved && final(self).model() == st
                }
            }),
    {
        self.validate_cursor();
        if self.cindex != 0 {
            self.cindex = self.cindex - 1;
            return true;
        }
        false
    }

    /// Moves the cursor one column right after clamping it, up to the end
    /// of the line; reports whether it moved.
    pub fn move_cursor_right(&mut self) -> (moved: bool)
        requires
            old(self).page.wf(),
        ensures
            final(self).page == old(self).page,
            ({
                let st = clamp_state(old(self).model());
                if st.col < st.lines[st.line].len() {
                    moved && final(self).model() == (EditState {
                        lines: st.lines,
                        line: st.line,
                        col: st.col + 1,
                        mode: st.mode,
                    })
                } else {
                    !moved && final(self).model() == st
                }
            }),
    {
        self.validate_cursor();
        let len = match self.page.get_line(self.line) {
            Some(l) => l.unicode_len(),
            None => 0,
        };
        if self.cindex != len {
            self.cindex = self.cindex + 1;
            return true;
        }
        false
    }

    /// Moves the cursor one line down without touching the column, so a
    /// column beyond a shorter line is kept until the next clamp; reports
    /// whether it moved.
    pub fn move_cursor_down(&mut self) -> (moved: bool)
        requires
            old(self).page.wf(),
        ensures
            final(self).page == old(self).page,
            final(self).cindex == old(self).cindex,
            final(self).mode == old(self).mode,
            old(self).line < old(self).spec_page_len() - 1 ==> moved && final(self).line == old(
                self,
            ).line + 1,
            old(self).line >= old(self).spec_page_len() - 1 ==> !moved && final(self).line == old(
                self,
            ).line,
    {
        if self.line < self.page.len() - 1 {
            self.line = self.line + 1;
            return true;
        }
        false
    }

    /// Moves the cursor one line up without touching the column; reports
    /// whether it moved.
    pub fn move_cursor_up(&mut self) -> (moved: bool)
        ensures
            final(self).page == old(self).page,
            final(self).cindex == old(self).cindex,
            final(self).mode == old(self).mode,
            old(self).line != 0 ==> moved && final(self).line == old(self).line - 1,
            old(self).line == 0 ==> !moved && final(self).line == old(self).line,
    {
        if self.line != 0 {
            self.line = self.line - 1;
            return true;
        }
        false
    }

    /// The number of lines of the underlying page.
    pub open spec fn spec_page_len(&self) -> int {
        self.page@.len() as int
    }

    /// Processes a run of decoded input characters: the cursor is clamped
    /// once, and each character is then applied as [`step`] describes —
    /// erase, mode switch, line split, or insertion.  A failure can touch
    /// at most the one character it concerns, and the page and cursor are
    /// well formed afterwards whatever the input was.
    pub fn text_in(&mut self, text: &str)
        requires
            old(self).page.wf(),
        ensures
            final(self).model() == run(clamp_state(old(self).model()), text@),
            final(self).page.wf(),
            st_wf(final(self).model()),
    {
        self.validate_cursor();
        let ghost st0 = self.model();
        let n = text.unicode_len();
        let mut i: usize = 0;
        while i < n
            invariant
                i <= n,
                n == text@.len(),
                st_wf(self.model()),
                self.model() == run(st0, text@.take(i as int)),
            decreases n - i,
        {
            let c = text.get_char(i);
            let ghost pre = self.model();
            if self.mode == Mode::Insert {
                if c == '\u{8}' {
                    if self.cindex != 0 {
                        self.cindex = self.cindex - 1;
                        let _ = self.page.remove_char(self.line, self.cindex);
                        proof {
                            assert(self.model() == erase_step(pre));
                        }
                    } else if self.line != 0 {
                        let removed = self.page.remove_line(self.line);
                        self.line = self.line - 1;
                        let prev_len = match self.page.get_line(self.line) {
                            Some(l) => l.unicode_len(),
                            None => 0,
                        };
                        self.cindex = prev_len;
                        self.page.push_str(self.line, removed.as_str());
                        proof {
                            let ls = pre.lines;
                            let li = pre.line;
                            assert(!removed@.contains('\n'));
                            crate::text::lemma_split_on_sep_free_single(removed@, '\n');
                            let mid = ls.remove(li);
                            ls.remove_ensures(li);
                            assert(mid[li - 1] == ls[li - 1]);
                            let fr = split_lines(removed@);
                            assert(fr == seq![removed@]);
                            let target = splice_at(mid, li - 1, mid[li - 1].len() as int, fr);
                            assert(self.page@ == target);
                            let prev = ls[li - 1];
                            assert(target =~~= mid.update(li - 1, prev + removed@)) by {
                                let g0 = fr.update(0, prev.take(prev.len() as int) + fr[0]);
                                let glued = g0.update(0, g0.last() + prev.skip(prev.len() as int));
                                assert(prev.take(prev.len() as int) =~= prev);
                                assert(prev.skip(prev.len() as int) =~= Seq::<char>::empty());
                                assert(glued.len() == 1);
                                assert(glued[0] =~= prev + removed@);
                                assert(target == mid.take(li - 1) + glued + mid.skip(li));
                                assert forall|j: int|
                                    0 <= j < target.len() implies target[j] == mid.update(
                                    li - 1,
                                    prev + removed@,
                                )[j] by {
                                    if j < li - 1 {
                                        assert(target[j] == mid.take(li - 1)[j]);
                                    } else if j == li - 1 {
                                        assert(target[j] == glued[0]);
                                    } else {
                                        assert(target[j] == mid.skip(li)[j - li]);
                                    }
                                }
                            }
                            assert(self.model() == erase_step(pre));
                        }
                    }
                    proof {
                        assert(self.model() == erase_step(pre));
                        assert(self.model() == step(pre, c));
                    }
                } else if c == '\u{1b}' {
                    self.mode = Mode::Command;
                    proof {
                        assert(self.model() == step(pre, c));
                    }
                } else if c == '\r' || c == '\n' {
                    let pl = self.page.len();
                    let _ = self.page.insert_char(self.line, self.cindex, '\n');
                    proof {
                        assert(self.line < pl);
                    }
                    self.line = self.line + 1;
                    self.cindex = 0;
                    proof {
                        assert(self.model() == newline_step(pre));
                        assert(self.model() == step(pre, c));
                    }
                } else {
                    let _ = self.page.insert_char(self.line, self.cindex, c);
                    proof {
                        crate::text::lemma_split_on_len(seq![c], '\n');
                        crate::text::lemma_split_on_sep_free(seq![c], '\n');
                        crate::text_buffer::lemma_splice_sep_free(
                            pre.lines,
                            pre.line,
                            pre.col,
                            split_lines(seq![c]),
                        );
                        crate::text_buffer::lemma_insert_char_then_get(
                            pre.lines,
                            pre.line,
                            pre.col,
                            c,
                        );
                        pre.lines[pre.line].insert_ensures(pre.col, c);
                    }
                    let ll = match self.page.get_line(self.line) {
                        Some(l) => l.unicode_len(),
                        None => 0,
                    };
                    proof {
                        assert(self.cindex < ll);
                    }
                    self.cindex = self.cindex + 1;
                    proof {
                        assert(self.model() == insert_step(pre, c));
                        assert(self.model() == step(pre, c));
                    }
                }
            } else {
                proof {
                    assert(self.model() == step(pre, c));
                }
            }
            proof {
                lemma_step_wf(pre, c);
                assert(text@.take(i as int).push(c) =~= text@.take(i as int + 1));
                lemma_run_snoc(st0, text@.take(i as int), c);
                assert(self.model() == run(st0, text@.take(i as int + 1)));
            }
            i = i + 1;
        }
        proof {
            assert(text@.take(n as int) =~= text@);
        }
    }
}

impl Default for Buffer {
    /// A fresh controller: one empty line, cursor at the origin, command
    /// mode.
    fn default() -> (b: Buffer)
        ensures
            b.page@ =~= seq![Seq::<char>::empty()],
            b.line == 0,
            b.cindex == 0,
            b.mode == Mode::Command,
            b.page.wf(),
    {
        Buffer { page: Page::new(), line: 0, cindex: 0, mode: Mode::Command }
    }
}

/// The polling-interface wrapper around the controller: the earlier shape
/// of the editor stage, holding page, cursor, and mode through a
/// [`Buffer`].
pub struct TextStage {
    inner: Buffer,
}

impl TextStage {
    /// The controller's mathematical state.
    pub closed spec fn model(&self) -> EditState {
        self.inner.model()
    }

    /// Whether the underlying page is well formed.
    pub closed spec fn wf(&self) -> bool {
        self.inner.page.wf()
    }

    /// A fresh stage: one empty line, cursor at the origin, insert mode.
    pub fn new() -> (s: TextStage)
        ensures
            s.model().lines =~= seq![Seq::<char>::empty()],
            s.model().line == 0,
            s.model().col == 0,
            s.model().mode == Mode::Insert,
            s.wf(),
    {
        TextStage { inner: Buffer { page: Page::new(), line: 0, cindex: 0, mode: Mode::Insert } }
    }

    /// Forces the cursor into the bounds of the text.
    pub fn validate_cursor(&mut self)
        requires
            old(self).wf(),
        ensures
            final(self).model() == clamp_state(old(self).model()),
            final(self).wf(),
            st_wf(final(self).model()),
    {
        self.inner.validate_cursor();
    }

    /// Processes a run of decoded input characters as [`run`] describes:
    /// the cursor is clamped once, then each character erases, switches
    /// mode, splits the line, or is inserted.
    pub fn input_text(&mut self, text: &str)
        requires
            old(self).wf(),
        ensures
            final(self).model() == run(clamp_state(old(self).model()), text@),
            final(self).wf(),
            st_wf(final(self).model()),
    {
        self.inner.text_in(text);
    }
}

/// The later controller iteration: erase and mode switches arrive as
/// explicit commands ([`TextEdit::backspace`], [`TextEdit::insert_mode`],
/// [`TextEdit::command_mode`]) rather than as control characters in the
/// text, which [`TextEdit::input_text`] ignores.
pub struct TextEdit {
    pub page: Page,
    pub cursor_x: usize,
    pub cursor_y: usize,
    pub mode: Mode,
}

impl TextEdit {
    /// The controller's mathematical state.
    pub open spec fn model(&self) -> EditState {
        EditState {
            lines: self.page@,
            line: self.cursor_y as int,
            col: self.cursor_x as int,
            mode: self.mode,
        }
    }

    /// A fresh editor: one empty line, cursor at the origin, insert mode.
    pub fn new() -> (e: TextEdit)
        ensures
            e.page@ =~= seq![Seq::<char>::empty()],
            e.cursor_x == 0,
            e.cursor_y == 0,
            e.mode == Mode::Insert,
            e.page.wf(),
    {
        TextEdit { page: Page::new(), cursor_x: 0, cursor_y: 0, mode: Mode::Insert }
    }

    /// Forces the cursor into the bounds of the text.
    pub fn validate_cursor(&mut self)
        requires
            old(self).page.wf(),
        ensures
            final(self).model() == clamp_state(old(self).model()),
            final(self).page == old(self).page,
            st_wf(final(self).model()),
    {
        if self.page.len() <= self.cursor_y {
            self.cursor_y = self.page.len() - 1;
        }
        let c = match self.page.get_line(self.cursor_y) {
            Some(l) => l.unicode_len(),
            None => 0,
        };
        if c < self.cursor_x {
            self.cursor_x = c;
        }
        proof {
            lemma_clamp_wf(old(self).model());
        }
    }

    /// Moves the cursor one column left after clamping it; reports
    /// whether it moved.
    pub fn move_cursor_left(&mut self) -> (moved: bool)
        requires
            old(self).page.wf(),
        ensures
            final(self).page == old(self).page,
            ({
                let st = clamp_state(old(self).model());
                if st.col > 0 {
                    moved && final(self).model() == (EditState {
                        lines: st.lines,
                        line: st.line,
                        col: st.col - 1,
                        mode: st.mode,
                    })
                } else {
                    !moved && final(self).model() == st
                }
            }),
    {
        self.validate_cursor();
        if self.cursor_x != 0 {
            self.cursor_x = self.cursor_x - 1;
            return true;
        }
        false
    }

    /// Leaves command mode for insert mode; always reports success.
    pub fn insert_mode(&mut self) -> (r: bool)
        ensures
            final(self).mode == Mode::Insert,
            final(self).page == old(self).page,
            final(self).cursor_x == old(self).cursor_x,
            final(self).cursor_y == old(self).cursor_y,
            r,
    {
        if self.mode == Mode::Command {
            self.mode = Mode::Insert;
        }
        true
    }

    /// Enters command mode; always reports success.
    pub fn command_mode(&mut self) -> (r: bool)
        ensures
            final(self).mode == Mode::Command,
            final(self).page == old(self).page,
            final(self).cursor_x == old(self).cursor_x,
            final(self).cursor_y == old(self).cursor_y,
            r,
    {
        self.mode = Mode::Command;
        true
    }

    /// In insert mode, erases the character before the cursor, joining
    /// the current line onto the line above when the cursor is at column
    /// zero.  In command mode, merely moves the cursor left.
    pub fn backspace(&mut self) -> (r: bool)
        requires
            old(self).page.wf(),
            old(self).mode == Mode::Insert ==> st_wf(old(self).model()),
        ensures
            final(self).page.wf(),
            old(self).mode == Mode::Insert ==> final(self).model() == erase_step(
                old(self).model(),
            ) && r,
            old(self).mode == Mode::Command ==> ({
                let st = clamp_state(old(self).model());
                final(self).page == old(self).page && if st.col > 0 {
                    r && final(self).model() == (EditState {
                        lines: st.lines,
                        line: st.line,
                        col: st.col - 1,
                        mode: st.mode,
                    })
                } else {
                    !r && final(self).model() == st
                }
            }),
    {
        if self.mode == Mode::Command {
            return self.move_cursor_left();
        }
        let ghost pre = self.model();
        if self.cursor_x != 0 {
            self.cursor_x = self.cursor_x - 1;
            let _ = self.page.remove_char(self.cursor_y, self.cursor_x);
            proof {
                assert(self.model() == erase_step(pre));
            }
        } else if self.cursor_y != 0 {
            let removed = self.page.remove_line(self.cursor_y);
            self.cursor_y = self.cursor_y - 1;
            let prev_len = match self.page.get_line(self.cursor_y) {
                Some(l) => l.unicode_len(),
                None => 0,
            };
            self.cursor_x = prev_len;
            self.page.push_str(self.cursor_y, removed.as_str());
            proof {
                lemma_erase_join(pre.lines, pre.line);
                assert(self.model() == erase_step(pre));
            }
        }
        proof {
            lemma_step_wf(pre, '\u{8}');
            assert(erase_step(pre) == step(pre, '\u{8}'));
        }
        true
    }

    /// Processes a run of decoded input characters as [`edit_run`]
    /// describes: the cursor is clamped once, then newlines split the
    /// line, erase and escape characters are ignored, and anything else
    /// is inserted at the cursor.
    pub fn input_text(&mut self, text: &str)
        requires
            old(self).page.wf(),
        ensures
            final(self).model() == edit_run(clamp_state(old(self).model()), text@),
            final(self).page.wf(),
            st_wf(final(self).model()),
    {
        self.validate_cursor();
        let ghost st0 = self.model();
        let n = text.unicode_len();
        let mut i: usize = 0;
        while i < n
            invariant
                i <= n,
                n == text@.len(),
                st_wf(self.model()),
                self.model() == edit_run(st0, text@.take(i as int)),
            decreases n - i,
        {
            let c = text.get_char(i);
            let ghost pre = self.model();
            if self.mode == Mode::Insert {
                if c == '\u{8}' || c == '\u{1b}' {
                } else if c == '\r' || c == '\n' {
                    let pl = self.page.len();
                    let _ = self.page.insert_char(self.cursor_y, self.cursor_x, '\n');
                    proof {
                        assert(self.cursor_y < pl);
                    }
                    self.cursor_y = self.cursor_y + 1;
                    self.cursor_x = 0;
                    proof {
                        assert(self.model() == edit_step(pre, c));
                    }
                } else {
                    let _ = self.page.insert_char(self.cursor_y, self.cursor_x, c);
                    proof {
                        crate::text::lemma_split_on_len(seq![c], '\n');
                        crate::text::lemma_split_on_sep_free(seq![c], '\n');
                        crate::text_buffer::lemma_splice_sep_free(
                            pre.lines,
                            pre.line,
                            pre.col,
                            split_lines(seq![c]),
                        );
                        crate::text_buffer::lemma_insert_char_then_get(
                            pre.lines,
                            pre.line,
                            pre.col,
                            c,
                        );
                        pre.lines[pre.line].insert_ensures(pre.col, c);
                    }
                    let ll = match self.page.get_line(self.cursor_y) {
                        Some(l) => l.unicode_len(),
                        None => 0,
                    };
                    proof {
                        assert(self.cursor_x < ll);
                    }
                    self.cursor_x = self.cursor_x + 1;
                    proof {
                        assert(self.model() == edit_step(pre, c));
                    }
                }
            } else {
                proof {
                    assert(self.model() == edit_step(pre, c));
                }
            }
            proof {
                lemma_edit_step_wf(pre, c);
                assert(text@.take(i as int).push(c) =~= text@.take(i as int + 1));
                lemma_edit_run_snoc(st0, text@.take(i as int), c);
            }
            i = i + 1;
        }
        proof {
            assert(text@.take(n as int) =~= text@);
        }
    }

    /// The flattened document, for the renderer.
    pub fn display_text(&self) -> (r: String)
        requires
            self.page.wf(),
        ensures
            r@ == crate::text_buffer::join_lines(self.page@),
    {
        self.page.as_string()
    }

    /// The cursor as the renderer sees it: the column clamped to the
    /// current line, the line, and the look that the mode calls for.
    pub fn cursor_for_display(&self) -> (r: (usize, usize, crate::stage::CursorLook))
        ensures
            r.1 == self.cursor_y,
            r.0 as int == ({
                let len = if self.cursor_y < self.page@.len() {
                    self.page@[self.cursor_y as int].len() as int
                } else {
                    0
                };
                if self.cursor_x > len {
                    len
                } else {
                    self.cursor_x as int
                }
            }),
            self.mode == Mode::Insert ==> r.2 == crate::stage::CursorLook::VerticalBar,
            self.mode == Mode::Command ==> r.2 == crate::stage::CursorLook::Block,
    {
        let len = match self.page.get_line(self.cursor_y) {
            Some(l) => l.unicode_len(),
            None => 0,
        };
        let x = if self.cursor_x > len {
            len
        } else {
            self.cursor_x
        };
        let look = if self.mode == Mode::Insert {
            crate::stage::CursorLook::VerticalBar
        } else {
            crate::stage::CursorLook::Block
        };
        (x, self.cursor_y, look)
    }
}

impl crate::stage::TextStage for TextEdit {
    /// A well-formed page is presentable.
    open spec fn text_ready(&self) -> bool {
        self.page.wf()
    }

    /// The flattened document, for the renderer.
    fn get_display_text(&self) -> String {
        self.display_text()
    }

    /// The clamped cursor and its look.
    fn get_cursor(&self) -> (usize, usize, crate::stage::CursorLook) {
        self.cursor_for_display()
    }
}

impl Default for TextEdit {
    /// A fresh editor: one empty line, cursor at the origin, insert mode.
    fn default() -> (e: TextEdit)
        ensures
            e.page@ =~= seq![Seq::<char>::empty()],
            e.cursor_x == 0,
            e.cursor_y == 0,
            e.mode == Mode::Insert,
            e.page.wf(),
    {
        TextEdit::new()
    }
}

} // verus!
