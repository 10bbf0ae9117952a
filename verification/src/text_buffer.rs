//! The text store: an ordered sequence of lines addressed by
//! (line, character-column) coordinates.  Columns count Unicode scalar
//! values, never bytes.  A page always holds at least one line, and no
//! line ever contains an embedded newline.

use vstd::prelude::*;

use crate::text::{
    join_with, lemma_join_split_identity, lemma_split_join_inverse, lemma_split_on_len,
    lemma_split_on_sep_free, push_char, sep_free, split_by, split_on,
};

verus! {

/// Splits a flat text into its lines.
pub open spec fn split_lines(s: Seq<char>) -> Seq<Seq<char>> {
    split_on(s, '\n')
}

/// Joins lines into a flat text with one newline between consecutive lines.
pub open spec fn join_lines(ls: Seq<Seq<char>>) -> Seq<char> {
    join_with(ls, '\n')
}

/// The effect of inserting text fragments `frags` (the lines of some split
/// input) into line `i` at column `col`: the head of the line up to `col`
/// is glued to the first fragment, the tail from `col` on is glued to the
/// last fragment, and the fragments become consecutive lines in place of
/// line `i`.
pub open spec fn splice_at(ls: Seq<Seq<char>>, i: int, col: int, frags: Seq<Seq<char>>) -> Seq<
    Seq<char>,
>
    recommends
        0 <= i < ls.len(),
        frags.len() >= 1,
        0 <= col <= ls[i].len(),
{
    let left = ls[i].take(col);
    let right = ls[i].skip(col);
    let block = frags.update(0, left + frags[0]);
    let glued = block.update(block.len() - 1, block.last() + right);
    ls.take(i) + glued + ls.skip(i + 1)
}

/// The character sequences of a sequence of owned strings.
pub open spec fn deep_of(ts: Seq<String>) -> Seq<Seq<char>> {
    Seq::new(ts.len(), |i: int| ts[i]@)
}

/// Inserting a string lifts to inserting its character sequence.
proof fn lemma_deep_of_insert(ts: Seq<String>, pos: int, x: String)
    requires
        0 <= pos <= ts.len(),
    ensures
        deep_of(ts.insert(pos, x)) =~~= deep_of(ts).insert(pos, x@),
{
    ts.insert_ensures(pos, x);
    deep_of(ts).insert_ensures(pos, x@);
    let lhs = deep_of(ts.insert(pos, x));
    let rhs = deep_of(ts).insert(pos, x@);
    assert forall|i: int| 0 <= i < lhs.len() implies lhs[i] == rhs[i] by {
        if i < pos {
            assert(ts.insert(pos, x)[i] == ts[i]);
            assert(deep_of(ts).insert(pos, x@)[i] == deep_of(ts)[i]);
        } else if i == pos {
            assert(ts.insert(pos, x)[i] == x);
        } else {
            assert(ts.insert(pos, x)[i] == ts[i - 1]);
            assert(deep_of(ts).insert(pos, x@)[i] == deep_of(ts)[i - 1]);
        }
    }
}

/// Updating a string lifts to updating its character sequence.
proof fn lemma_deep_of_update(ts: Seq<String>, pos: int, x: String)
    requires
        0 <= pos < ts.len(),
    ensures
        deep_of(ts.update(pos, x)) =~~= deep_of(ts).update(pos, x@),
{
    let lhs = deep_of(ts.update(pos, x));
    let rhs = deep_of(ts).update(pos, x@);
    assert forall|i: int| 0 <= i < lhs.len() implies lhs[i] == rhs[i] by {
        if i != pos {
            assert(ts.update(pos, x)[i] == ts[i]);
        }
    }
}

/// The first column of a removal span over a line of length `len`.
pub open spec fn span_lo(len: int, start: int) -> int {
    if start > len {
        len
    } else {
        start
    }
}

/// One past the last column of a removal span over a line of length `len`;
/// an inverted span removes nothing.
pub open spec fn span_hi(len: int, start: int, end: int) -> int {
    if start > end {
        span_lo(len, start)
    } else if end + 1 > len {
        len
    } else {
        end + 1
    }
}

/// An out-of-bounds line or column address.
#[derive(Debug, Clone)]
pub enum InsertCharError {
    LineLookupOutOfBounds { index: usize, length: usize },
    CharIndexingOutOfBounds { index: usize, length: usize },
}

/// The text store.  The flat document it represents is its lines joined by
/// newlines; an empty document is a single empty line.
#[derive(Debug, Clone, PartialEq, Eq)]
pub struct Page {
    text: Vec<String>,
}

impl View for Page {
    type V = Seq<Seq<char>>;

    closed spec fn view(&self) -> Seq<Seq<char>> {
        self.text.deep_view()
    }
}

impl Page {
    /// The structural invariant: at least one line, and no embedded newline.
    pub open spec fn wf(&self) -> bool {
        &&& self@.len() >= 1
        &&& sep_free(self@, '\n')
    }

    /// A page holding one empty line.
    pub fn new() -> (p: Page)
        ensures
            p@ =~= seq![Seq::<char>::empty()],
            p.wf(),
    {
        let mut text: Vec<String> = Vec::new();
        text.push(String::new());
        let p = Page { text };
        proof {
            assert(p@ =~~= seq![Seq::<char>::empty()]);
        }
        p
    }

    /// A page holding the lines of `s`, split on `'\n'`.
    pub fn from(s: &str) -> (p: Page)
        ensures
            p@ == split_lines(s@),
            p.wf(),
    {
        let text = split_by(s, '\n');
        let p = Page { text };
        proof {
            lemma_split_on_len(s@, '\n');
            lemma_split_on_sep_free(s@, '\n');
        }
        p
    }

    /// The number of lines; at least 1 on a well-formed page.
    pub fn len(&self) -> (n: usize)
        ensures
            n == self@.len(),
    {
        self.text.len()
    }

    /// The line at `line`, or `None` if the index is out of range.
    pub fn get_line(&self, line: usize) -> (r: Option<&str>)
        ensures
            match r {
                Some(s) => line < self@.len() && s@ == self@[line as int],
                None => line >= self@.len(),
            },
    {
        if line < self.text.len() {
            Some(self.text[line].as_str())
        } else {
            None
        }
    }

    /// The character count of line `line`.
    fn line_len(&self, line: usize) -> (n: usize)
        requires
            line < self@.len(),
        ensures
            n == self@[line as int].len(),
    {
        self.text[line].as_str().unicode_len()
    }

    /// Inserts the lines of `text` (split on `'\n'`) as new lines starting
    /// at index `line`; inserting at `line == len()` appends.
    pub fn insert_line(&mut self, line: usize, text: &str)
        requires
            old(self).wf(),
            line <= old(self)@.len(),
        ensures
            final(self)@ == old(self)@.take(line as int) + split_lines(text@) + old(self)@.skip(
                line as int,
            ),
            final(self).wf(),
    {
        let parts = split_by(text, '\n');
        let m = parts.len();
        proof {
            lemma_split_on_len(text@, '\n');
            lemma_split_on_sep_free(text@, '\n');
        }
        let mut k: usize = 0;
        while k < m
            invariant
                k <= m,
                m == parts.deep_view().len(),
                parts.deep_view() == split_lines(text@),
                line + k <= self.text@.len(),
                line <= old(self)@.len(),
                self@ =~~= old(self)@.take(line as int) + parts.deep_view().take(k as int)
                    + old(self)@.skip(line as int),
            decreases m - k,
        {
            let piece = parts[k].clone();
            let cur = self.text.len();
            proof {
                assert(piece@ == parts.deep_view()[k as int]);
                assert(line + k <= cur);
            }
            let ghost pos = line as int + k as int;
            let ghost prev_text = self.text@;
            let ghost prev_deep = self@;
            self.text.insert(line + k, piece);
            proof {
                let dv = parts.deep_view();
                let rhs = old(self)@.take(line as int) + dv.take(k as int + 1) + old(self)@.skip(
                    line as int,
                );
                prev_text.insert_ensures(pos, piece);
                assert(self.text@ == prev_text.insert(pos, piece));
                assert(self.text@.len() == prev_text.len() + 1);
                assert(self@.len() == self.text@.len());
                assert(prev_deep.len() == old(self)@.len() + k);
                assert(old(self)@.take(line as int).len() == line as int);
                assert(dv.take(k as int + 1).len() == k as int + 1);
                assert(old(self)@.skip(line as int).len() == old(self)@.len() - line);
                assert(self@.len() == rhs.len());
                assert forall|i: int| 0 <= i < self@.len() implies self@[i] == rhs[i] by {
                    assert(self@[i] == self.text@[i]@);
                    if i < pos {
                        assert(self.text@[i] == prev_text[i]);
                        assert(self@[i] == prev_deep[i]);
                    } else if i == pos {
                        assert(self.text@[i] == piece);
                        assert(rhs[i] == dv.take(k as int + 1)[k as int]);
                    } else {
                        assert(self.text@[i] == prev_text[i - 1]);
                        assert(self@[i] == prev_deep[i - 1]);
                        assert(rhs[i] == old(self)@.skip(line as int)[i - line - k - 1]);
                        assert(prev_deep[i - 1] == old(self)@.skip(line as int)[i - 1 - line - k]);
                    }
                }
                assert(self@ =~~= rhs);
            }
            k = k + 1;
        }
        proof {
            assert(parts.deep_view().take(m as int) =~= parts.deep_view());
            assert(final(self)@ =~~= old(self)@.take(line as int) + split_lines(text@)
                + old(self)@.skip(line as int));
            assert(final(self).wf()) by {
                let ls = final(self)@;
                assert forall|i: int| 0 <= i < ls.len() implies !ls[i].contains('\n') by {
                    if i < line {
                        assert(ls[i] == old(self)@[i]);
                    } else if i < line + m {
                        assert(ls[i] == split_lines(text@)[i - line]);
                    } else {
                        assert(ls[i] == old(self)@[i - m]);
                    }
                }
            }
        }
    }

    /// Appends the lines of `text` (split on `'\n'`) at the end.
    pub fn push_line(&mut self, text: &str)
        requires
            old(self).wf(),
        ensures
            final(self)@ == old(self)@ + split_lines(text@),
            final(self).wf(),
    {
        let n = self.text.len();
        self.insert_line(n, text);
        proof {
            assert(old(self)@.take(n as int) =~= old(self)@);
            assert(old(self)@.skip(n as int) =~= Seq::<Seq<char>>::empty());
            assert(final(self)@ =~~= old(self)@ + split_lines(text@));
        }
    }

    /// Removes and returns the line at `line`.  Removing the only line of
    /// a page leaves one empty line in its place, so that a page never
    /// becomes empty.
    pub fn remove_line(&mut self, line: usize) -> (r: String)
        requires
            old(self).wf(),
            line < old(self)@.len(),
        ensures
            r@ == old(self)@[line as int],
            final(self)@ == if old(self)@.len() == 1 {
                seq![Seq::<char>::empty()]
            } else {
                old(self)@.remove(line as int)
            },
            final(self).wf(),
    {
        let r = self.text.remove(line);
        if self.text.len() == 0 {
            self.text.push(String::new());
            proof {
                assert(final(self)@ =~~= seq![Seq::<char>::empty()]);
            }
        } else {
            proof {
                assert(final(self)@ =~~= old(self)@.remove(line as int));
                assert forall|i: int| 0 <= i < final(self)@.len() implies !(final(self)@[i]).contains('\n') by {
                    if i < line {
                        assert(final(self)@[i] == old(self)@[i]);
                    } else {
                        assert(final(self)@[i] == old(self)@[i + 1]);
                    }
                }
            }
        }
        r
    }

    /// Removes and returns the final line, whatever index is passed.  As
    /// with [`Page::remove_line`], the only line of a page is replaced by
    /// an empty one rather than leaving the page empty.
    pub fn pop_line(&mut self, _line: usize) -> (r: Option<String>)
        requires
            old(self).wf(),
        ensures
            r is Some && r->0@ == old(self)@.last(),
            final(self)@ == if old(self)@.len() == 1 {
                seq![Seq::<char>::empty()]
            } else {
                old(self)@.drop_last()
            },
            final(self).wf(),
    {
        let n = self.text.len();
        let r = self.remove_line(n - 1);
        proof {
            if old(self)@.len() > 1 {
                assert(old(self)@.remove(n - 1) =~= old(self)@.drop_last());
            }
        }
        Some(r)
    }

    /// Inserts `c` at character column `index` of line `line`.  Inserting
    /// `'\n'` splits the line at `index` into two lines.  An out-of-range
    /// line or column is rejected and leaves the page unchanged; inserting
    /// at exactly the end of a line appends.
    pub fn insert_char(&mut self, line: usize, index: usize, c: char) -> (r: Result<
        (),
        InsertCharError,
    >)
        requires
            old(self).wf(),
        ensures
            final(self).wf(),
            line >= old(self)@.len() ==> r == Err::<(), InsertCharError>(
                (InsertCharError::LineLookupOutOfBounds {
                    index: line,
                    length: old(self)@.len() as usize,
                }),
            ) && final(self)@ == old(self)@,
            line < old(self)@.len() && index > old(self)@[line as int].len() ==> r == Err::<
                (),
                InsertCharError,
            >(
                (InsertCharError::CharIndexingOutOfBounds {
                    index: index,
                    length: old(self)@[line as int].len() as usize,
                }),
            ) && final(self)@ == old(self)@,
            line < old(self)@.len() && index <= old(self)@[line as int].len() ==> r == Ok::<
                (),
                InsertCharError,
            >(()) && final(self)@ == splice_at(
                old(self)@,
                line as int,
                index as int,
                split_lines(seq![c]),
            ),
    {
        let count = self.text.len();
        if line >= count {
            return Err(InsertCharError::LineLookupOutOfBounds { index: line, length: count });
        }
        let n = self.line_len(line);
        if index > n {
            return Err(InsertCharError::CharIndexingOutOfBounds { index, length: n });
        }
        let ghost ls0 = self@;
        let ghost lv = self@[line as int];
        let ghost pre_text = self.text@;
        if c == '\n' {
            let (left, right) = {
                let s = self.text[line].as_str();
                (s.substring_char(0, index).to_owned(), s.substring_char(index, n).to_owned())
            };
            proof {
                assert(left@ == lv.take(index as int));
                assert(right@ == lv.skip(index as int));
            }
            let ghost text1 = self.text@.update(line as int, left);
            self.text.set(line, left);
            let cur = self.text.len();
            proof {
                assert(line + 1 <= cur);
            }
            self.text.insert(line + 1, right);
            proof {
                let frags = split_lines(seq![c]);
                assert(seq![c].last() == '\n');
                assert(seq![c].drop_last() =~= Seq::<char>::empty());
                assert(split_on(Seq::<char>::empty(), '\n') == seq![Seq::<char>::empty()]);
                assert(frags == seq![Seq::<char>::empty()].push(Seq::<char>::empty()));
                assert(frags =~~= seq![Seq::<char>::empty(), Seq::<char>::empty()]);
                let target = splice_at(ls0, line as int, index as int, frags);
                let glued = frags.update(0, lv.take(index as int) + frags[0]).update(
                    1,
                    frags[1] + lv.skip(index as int),
                );
                assert(glued.update(1, frags[1] + lv.skip(index as int)).len() == 2);
                text1.insert_ensures(line as int + 1, right);
                assert(self.text@ == text1.insert(line as int + 1, right));
                assert(self@.len() == target.len());
                assert forall|i: int| 0 <= i < self@.len() implies self@[i] == target[i] by {
                    assert(self@[i] == self.text@[i]@);
                    if i < line {
                        assert(self.text@[i] == text1[i]);
                        assert(self@[i] == ls0[i]);
                        assert(target[i] == ls0.take(line as int)[i]);
                    } else if i == line {
                        assert(self.text@[i] == text1[i]);
                        assert(text1[i] == left);
                        assert(target[i] == lv.take(index as int) + Seq::<char>::empty());
                        assert(lv.take(index as int) + Seq::<char>::empty() =~= lv.take(
                            index as int,
                        ));
                    } else if i == line + 1 {
                        assert(self.text@[i] == right);
                        assert(target[i] == Seq::<char>::empty() + lv.skip(index as int));
                        assert(Seq::<char>::empty() + lv.skip(index as int) =~= lv.skip(
                            index as int,
                        ));
                    } else {
                        assert(self.text@[i] == text1[i - 1]);
                        assert(text1[i - 1] == pre_text[i - 1]);
                        assert(pre_text[i - 1]@ == ls0[i - 1]);
                        assert(target[i] == ls0.skip(line as int + 1)[i - line - 2]);
                    }
                }
                assert(self@ =~~= target);
                assert(final(self).wf()) by {
                    assert(!lv.contains('\n'));
                    crate::text::lemma_sep_free_subrange(lv, 0, index as int, '\n');
                    crate::text::lemma_sep_free_subrange(lv, index as int, lv.len() as int, '\n');
                    assert(lv.take(index as int) == lv.subrange(0, index as int));
                    assert(lv.skip(index as int) == lv.subrange(index as int, lv.len() as int));
                    assert forall|i: int| 0 <= i < final(self)@.len() implies !(final(self)@[i]).contains('\n') by {
                        if i < line {
                            assert(final(self)@[i] == ls0[i]);
                        } else if i == line {
                            assert(final(self)@[i] == lv.take(index as int));
                        } else if i == line + 1 {
                            assert(final(self)@[i] == lv.skip(index as int));
                        } else {
                            assert(final(self)@[i] == ls0[i - 1]);
                        }
                    }
                }
            }
        } else {
            let ns = {
                let s = self.text[line].as_str();
                let mut t = s.substring_char(0, index).to_owned();
                push_char(&mut t, c);
                t.append(s.substring_char(index, n));
                t
            };
            proof {
                assert(ns@ =~= lv.take(index as int) + seq![c] + lv.skip(index as int));
            }
            self.text.set(line, ns);
            proof {
                let frags = split_lines(seq![c]);
                assert(seq![c].drop_last() =~= Seq::<char>::empty());
                assert(seq![c].last() == c);
                assert(split_on(Seq::<char>::empty(), '\n') == seq![Seq::<char>::empty()]);
                assert(frags == seq![Seq::<char>::empty()].update(
                    0,
                    Seq::<char>::empty().push(c),
                ));
                assert(Seq::<char>::empty().push(c) =~= seq![c]);
                assert(frags =~~= seq![seq![c]]);
                let target = splice_at(ls0, line as int, index as int, frags);
                assert forall|i: int| 0 <= i < self@.len() implies self@[i] == target[i] by {
                    assert(self@[i] == self.text@[i]@);
                    if i < line {
                        assert(self@[i] == ls0[i]);
                        assert(target[i] == ls0.take(line as int)[i]);
                    } else if i == line {
                        assert(self.text@[i] == ns);
                        assert(target[i] == lv.take(index as int) + seq![c] + lv.skip(
                            index as int,
                        ));
                    } else {
                        assert(self@[i] == ls0[i]);
                        assert(target[i] == ls0.skip(line as int + 1)[i - line - 1]);
                    }
                }
                assert(self@.len() == target.len());
                assert(self@ =~~= target);
                assert(final(self).wf()) by {
                    assert(!lv.contains('\n'));
                    crate::text::lemma_sep_free_subrange(lv, 0, index as int, '\n');
                    crate::text::lemma_sep_free_subrange(lv, index as int, lv.len() as int, '\n');
                    assert forall|i: int| 0 <= i < final(self)@.len() implies !(final(self)@[i]).contains('\n') by {
                        if i == line {
                            assert(final(self)@[i] == ns@);
                            assert forall|j: int| 0 <= j < ns@.len() implies ns@[j] != '\n' by {
                                let lt = lv.take(index as int);
                                let rt = lv.skip(index as int);
                                assert(lt == lv.subrange(0, index as int));
                                assert(rt == lv.subrange(index as int, lv.len() as int));
                                if j < lt.len() {
                                    assert(ns@[j] == lt[j]);
                                } else if j == lt.len() {
                                    assert(ns@[j] == c);
                                } else {
                                    assert(ns@[j] == rt[j - lt.len() - 1]);
                                }
                            }
                        } else {
                            assert(final(self)@[i] == ls0[i]);
                        }
                    }
                }
            }
        }
        Ok(())
    }

    /// Appends `c` at the end of line `line`; an out-of-range line leaves
    /// the page unchanged.  Appending `'\n'` opens a new empty line below.
    pub fn push_char(&mut self, line: usize, c: char)
        requires
            old(self).wf(),
        ensures
            final(self).wf(),
            line >= old(self)@.len() ==> final(self)@ == old(self)@,
            line < old(self)@.len() ==> final(self)@ == splice_at(
                old(self)@,
                line as int,
                old(self)@[line as int].len() as int,
                split_lines(seq![c]),
            ),
    {
        if line >= self.text.len() {
            return ;
        }
        let n = self.line_len(line);
        let _ = self.insert_char(line, n, c);
    }

    /// Removes and returns the character at column `index` of line `line`;
    /// `None` (and no change) if either index is out of range.  Lines are
    /// never joined by this operation.
    pub fn remove_char(&mut self, line: usize, index: usize) -> (r: Option<char>)
        requires
            old(self).wf(),
        ensures
            final(self).wf(),
            line < old(self)@.len() && index < old(self)@[line as int].len() ==> r == Some(
                old(self)@[line as int][index as int],
            ) && final(self)@ == old(self)@.update(
                line as int,
                old(self)@[line as int].remove(index as int),
            ),
            !(line < old(self)@.len() && index < old(self)@[line as int].len()) ==> r is None
                && final(self)@ == old(self)@,
    {
        if line >= self.text.len() {
            return None;
        }
        let n = self.line_len(line);
        if index >= n {
            return None;
        }
        let ghost ls0 = self@;
        let ghost lv = self@[line as int];
        let (c, ns) = {
            let s = self.text[line].as_str();
            let c = s.get_char(index);
            let mut t = s.substring_char(0, index).to_owned();
            t.append(s.substring_char(index + 1, n));
            (c, t)
        };
        self.text.set(line, ns);
        proof {
            assert(ns@ == lv.take(index as int) + lv.skip(index as int + 1));
            assert(lv.remove(index as int) =~= ns@);
            assert(final(self)@ =~~= ls0.update(line as int, lv.remove(index as int)));
            assert(final(self).wf()) by {
                assert(!lv.contains('\n'));
                crate::text::lemma_sep_free_subrange(lv, 0, index as int, '\n');
                crate::text::lemma_sep_free_subrange(lv, index as int + 1, lv.len() as int, '\n');
                crate::text::lemma_sep_free_concat(
                    lv.subrange(0, index as int),
                    lv.subrange(index as int + 1, lv.len() as int),
                    '\n',
                );
                assert(ns@ == lv.subrange(0, index as int) + lv.subrange(
                    index as int + 1,
                    lv.len() as int,
                ));
                assert forall|i: int| 0 <= i < final(self)@.len() implies !(final(self)@[i]).contains('\n') by {
                    if i != line {
                        assert(final(self)@[i] == ls0[i]);
                    }
                }
            }
        }
        Some(c)
    }

    /// The character at column `index` of line `line`, if both are in range.
    pub fn get_char(&self, line: usize, index: usize) -> (r: Option<char>)
        ensures
            line < self@.len() && index < self@[line as int].len() ==> r == Some(
                self@[line as int][index as int],
            ),
            !(line < self@.len() && index < self@[line as int].len()) ==> r is None,
    {
        if line >= self.text.len() {
            return None;
        }
        let n = self.line_len(line);
        if index >= n {
            return None;
        }
        Some(self.text[line].as_str().get_char(index))
    }

    /// Removes and returns the final character of line `line`; `None` (and
    /// no change) if the line is out of range or empty.
    pub fn pop_char(&mut self, line: usize) -> (r: Option<char>)
        requires
            old(self).wf(),
        ensures
            final(self).wf(),
            line < old(self)@.len() && old(self)@[line as int].len() > 0 ==> r == Some(
                old(self)@[line as int].last(),
            ) && final(self)@ == old(self)@.update(
                line as int,
                old(self)@[line as int].drop_last(),
            ),
            !(line < old(self)@.len() && old(self)@[line as int].len() > 0) ==> r is None
                && final(self)@ == old(self)@,
    {
        if line >= self.text.len() {
            return None;
        }
        let n = self.line_len(line);
        if n == 0 {
            return None;
        }
        let r = self.remove_char(line, n - 1);
        proof {
            assert(old(self)@[line as int].remove(n - 1) =~= old(self)@[line as int].drop_last());
        }
        r
    }

    /// Inserts the text `s` at character column `index` of line `line`,
    /// splitting `s` on embedded newlines into successor lines; the tail
    /// of the target line is reattached after the last inserted fragment.
    /// An out-of-range line or column leaves the page unchanged.
    pub fn insert_str(&mut self, line: usize, index: usize, s: &str)
        requires
            old(self).wf(),
        ensures
            final(self).wf(),
            line >= old(self)@.len() ==> final(self)@ == old(self)@,
            line < old(self)@.len() && index > old(self)@[line as int].len() ==> final(self)@
                == old(self)@,
            line < old(self)@.len() && index <= old(self)@[line as int].len() ==> final(self)@
                == splice_at(old(self)@, line as int, index as int, split_lines(s@)),
    {
        if line >= self.text.len() {
            return ;
        }
        let n = self.line_len(line);
        if index > n {
            return ;
        }
        let ghost ls0 = self@;
        let ghost lv = self@[line as int];
        let (left, right) = {
            let s0 = self.text[line].as_str();
            (s0.substring_char(0, index).to_owned(), s0.substring_char(index, n).to_owned())
        };
        proof {
            assert(left@ == lv.take(index as int));
            assert(right@ == lv.skip(index as int));
        }
        let parts = split_by(s, '\n');
        let m = parts.len();
        proof {
            lemma_split_on_len(s@, '\n');
            lemma_split_on_sep_free(s@, '\n');
        }
        let ghost frags = split_lines(s@);
        let ghost glued = frags.update(0, lv.take(index as int) + frags[0]).update(
            frags.len() - 1,
            frags.update(0, lv.take(index as int) + frags[0]).last() + lv.skip(index as int),
        );
        let ghost target = splice_at(ls0, line as int, index as int, frags);
        proof {
            assert(target == ls0.take(line as int) + glued + ls0.skip(line as int + 1));
            assert(glued.len() == m);
            assert(sep_free(glued, '\n')) by {
                assert(!lv.contains('\n'));
                crate::text::lemma_sep_free_subrange(lv, 0, index as int, '\n');
                crate::text::lemma_sep_free_subrange(lv, index as int, lv.len() as int, '\n');
                assert(lv.take(index as int) == lv.subrange(0, index as int));
                assert(lv.skip(index as int) == lv.subrange(index as int, lv.len() as int));
                assert forall|j: int| 0 <= j < glued.len() implies !glued[j].contains('\n') by {
                    if j == 0 && m == 1 {
                        crate::text::lemma_sep_free_concat(
                            lv.take(index as int),
                            frags[0],
                            '\n',
                        );
                        crate::text::lemma_sep_free_concat(
                            lv.take(index as int) + frags[0],
                            lv.skip(index as int),
                            '\n',
                        );
                        assert(glued[0] == lv.take(index as int) + frags[0] + lv.skip(
                            index as int,
                        ));
                    } else if j == 0 {
                        crate::text::lemma_sep_free_concat(lv.take(index as int), frags[0], '\n');
                    } else if j == m - 1 {
                        crate::text::lemma_sep_free_concat(
                            frags[j],
                            lv.skip(index as int),
                            '\n',
                        );
                    } else {
                        assert(glued[j] == frags[j]);
                    }
                }
            }
            assert(sep_free(target, '\n')) by {
                assert forall|i: int| 0 <= i < target.len() implies !target[i].contains('\n') by {
                    if i < line {
                        assert(target[i] == ls0[i]);
                    } else if i < line + m {
                        assert(target[i] == glued[i - line]);
                    } else {
                        assert(target[i] == ls0[i - m + 1]);
                    }
                }
            }
        }
        if m == 1 {
            let mut first = left;
            first.append(parts[0].as_str());
            first.append(right.as_str());
            proof {
                assert(parts[0]@ == frags[0]);
                assert(first@ == lv.take(index as int) + frags[0] + lv.skip(index as int));
                assert(first@ == glued[0]);
            }
            let ghost pre = self.text@;
            self.text.set(line, first);
            proof {
                lemma_deep_of_update(pre, line as int, first);
                assert(self@ =~~= deep_of(self.text@));
                assert(ls0 =~~= deep_of(pre));
                assert(self@ =~~= ls0.update(line as int, first@));
                assert(glued =~~= seq![glued[0]]);
                assert(self@ =~~= target);
            }
        } else {
            let mut first = left;
            first.append(parts[0].as_str());
            proof {
                assert(parts[0]@ == frags[0]);
                assert(first@ == glued[0]);
            }
            let ghost pre = self.text@;
            self.text.set(line, first);
            proof {
                lemma_deep_of_update(pre, line as int, first);
                assert(self@ =~~= deep_of(self.text@));
                assert(ls0 =~~= deep_of(pre));
                assert(self@ =~~= ls0.update(line as int, glued[0]));
                assert(glued.take(1) =~= seq![glued[0]]);
                assert(self@ =~~= ls0.take(line as int) + glued.take(1) + ls0.skip(
                    line as int + 1,
                ));
            }
            let mut k: usize = 1;
            while k < m - 1
                invariant
                    1 <= k <= m - 1,
                    m == parts.deep_view().len(),
                    m == frags.len(),
                    m == glued.len(),
                    parts.deep_view() == frags,
                    line < ls0.len(),
                    forall|j: int| 1 <= j < m - 1 ==> glued[j] == frags[j],
                    self@ =~~= ls0.take(line as int) + glued.take(k as int) + ls0.skip(
                        line as int + 1,
                    ),
                decreases m - k,
            {
                let piece = parts[k].clone();
                let cur = self.text.len();
                proof {
                    assert(self@.len() == self.text@.len());
                    assert(line + k <= cur);
                }
                let ghost pre = self.text@;
                let ghost pre_deep = self@;
                self.text.insert(line + k, piece);
                proof {
                    lemma_deep_of_insert(pre, line as int + k as int, piece);
                    assert(self@ =~~= deep_of(self.text@));
                    assert(pre_deep =~~= deep_of(pre));
                    assert(self@ =~~= pre_deep.insert(line as int + k as int, piece@));
                    pre_deep.insert_ensures(line as int + k as int, piece@);
                    let rhs = ls0.take(line as int) + glued.take(k as int + 1) + ls0.skip(
                        line as int + 1,
                    );
                    assert(piece@ == frags[k as int]);
                    assert(glued[k as int] == frags[k as int]);
                    assert forall|i: int| 0 <= i < self@.len() implies self@[i] == rhs[i] by {
                        if i < line + k {
                            assert(self@[i] == pre_deep[i]);
                        } else if i == line + k {
                            assert(self@[i] == piece@);
                            assert(rhs[i] == glued.take(k as int + 1)[k as int]);
                        } else {
                            assert(self@[i] == pre_deep[i - 1]);
                            assert(rhs[i] == ls0.skip(line as int + 1)[i - line - k - 1]);
                            assert(pre_deep[i - 1] == ls0.skip(line as int + 1)[i - 1 - line - k]);
                        }
                    }
                    assert(self@.len() == rhs.len());
                    assert(self@ =~~= rhs);
                }
                k = k + 1;
            }
            let mut lastl = parts[m - 1].clone();
            lastl.append(right.as_str());
            proof {
                assert(parts[m - 1]@ == frags[m - 1]);
                assert(lastl@ == frags[m - 1] + lv.skip(index as int));
                assert(lastl@ == glued[m - 1]);
            }
            let cur = self.text.len();
            proof {
                assert(self@.len() == self.text@.len());
                assert(line + (m - 1) <= cur);
            }
            let ghost pre = self.text@;
            let ghost pre_deep = self@;
            self.text.insert(line + (m - 1), lastl);
            proof {
                lemma_deep_of_insert(pre, line as int + m - 1, lastl);
                assert(self@ =~~= deep_of(self.text@));
                assert(pre_deep =~~= deep_of(pre));
                assert(self@ =~~= pre_deep.insert(line as int + m - 1, lastl@));
                pre_deep.insert_ensures(line as int + m - 1, lastl@);
                assert forall|i: int| 0 <= i < self@.len() implies self@[i] == target[i] by {
                    if i < line + m - 1 {
                        assert(self@[i] == pre_deep[i]);
                        if i < line {
                            assert(target[i] == ls0[i]);
                        } else {
                            assert(pre_deep[i] == glued.take(m - 1)[i - line]);
                            assert(target[i] == glued[i - line]);
                        }
                    } else if i == line + m - 1 {
                        assert(self@[i] == lastl@);
                        assert(target[i] == glued[m - 1]);
                    } else {
                        assert(self@[i] == pre_deep[i - 1]);
                        assert(pre_deep[i - 1] == ls0.skip(line as int + 1)[i - 1 - line - (m
                            - 1)]);
                        assert(target[i] == ls0.skip(line as int + 1)[i - line - m]);
                    }
                }
                assert(self@.len() == target.len());
                assert(self@ =~~= target);
            }
        }
    }

    /// Appends the text `s` at the end of line `line`, splitting `s` on
    /// embedded newlines into successor lines.  An out-of-range line
    /// leaves the page unchanged.
    pub fn push_str(&mut self, line: usize, s: &str)
        requires
            old(self).wf(),
        ensures
            final(self).wf(),
            line >= old(self)@.len() ==> final(self)@ == old(self)@,
            line < old(self)@.len() ==> final(self)@ == splice_at(
                old(self)@,
                line as int,
                old(self)@[line as int].len() as int,
                split_lines(s@),
            ),
    {
        if line >= self.text.len() {
            return ;
        }
        let n = self.line_len(line);
        self.insert_str(line, n, s);
    }

    /// The characters of line `line` from column `start` through column
    /// `end`, inclusive; `None` if the line or either column is out of
    /// range, or the columns are inverted.
    pub fn get_str(&self, line: usize, start: usize, end: usize) -> (r: Option<&str>)
        ensures
            line < self@.len() && start <= end && end < self@[line as int].len() ==> r is Some
                && r->0@ == self@[line as int].subrange(start as int, end as int + 1),
            !(line < self@.len() && start <= end && end < self@[line as int].len()) ==> r is None,
    {
        if line >= self.text.len() {
            return None;
        }
        let n = self.line_len(line);
        if start > end || end >= n {
            return None;
        }
        Some(self.text[line].as_str().substring_char(start, end + 1))
    }

    /// Removes the characters of line `line` whose columns lie between
    /// `start` and `end`, inclusive, and returns them; columns beyond the
    /// end of the line remove nothing.  `None` only for an out-of-range
    /// line.
    pub fn remove_str(&mut self, line: usize, start: usize, end: usize) -> (r: Option<String>)
        requires
            old(self).wf(),
        ensures
            final(self).wf(),
            line >= old(self)@.len() ==> r is None && final(self)@ == old(self)@,
            line < old(self)@.len() ==> r is Some && r->0@ == old(self)@[line as int].subrange(
                span_lo(old(self)@[line as int].len() as int, start as int),
                span_hi(old(self)@[line as int].len() as int, start as int, end as int),
            ) && final(self)@ == old(self)@.update(
                line as int,
                old(self)@[line as int].subrange(
                    0,
                    span_lo(old(self)@[line as int].len() as int, start as int),
                ) + old(self)@[line as int].subrange(
                    span_hi(old(self)@[line as int].len() as int, start as int, end as int),
                    old(self)@[line as int].len() as int,
                ),
            ),
    {
        if line >= self.text.len() {
            return None;
        }
        let n = self.line_len(line);
        let lo = if start > n {
            n
        } else {
            start
        };
        let hi = if start > end {
            lo
        } else if end >= n {
            n
        } else {
            end + 1
        };
        let ghost ls0 = self@;
        let ghost lv = self@[line as int];
        let (out, kept) = {
            let s0 = self.text[line].as_str();
            let out = s0.substring_char(lo, hi).to_owned();
            let mut kept = s0.substring_char(0, lo).to_owned();
            kept.append(s0.substring_char(hi, n));
            (out, kept)
        };
        let ghost pre = self.text@;
        self.text.set(line, kept);
        proof {
            lemma_deep_of_update(pre, line as int, kept);
            assert(self@ =~~= deep_of(self.text@));
            assert(ls0 =~~= deep_of(pre));
            assert(self@ =~~= ls0.update(line as int, kept@));
            assert(final(self).wf()) by {
                assert(!lv.contains('\n'));
                crate::text::lemma_sep_free_subrange(lv, 0, lo as int, '\n');
                crate::text::lemma_sep_free_subrange(lv, hi as int, lv.len() as int, '\n');
                crate::text::lemma_sep_free_concat(
                    lv.subrange(0, lo as int),
                    lv.subrange(hi as int, lv.len() as int),
                    '\n',
                );
                assert forall|i: int| 0 <= i < final(self)@.len() implies !(final(
                    self)@[i]).contains('\n') by {
                    if i != line {
                        assert(final(self)@[i] == ls0[i]);
                    }
                }
            }
        }
        Some(out)
    }

    /// The whole document: all lines joined by `'\n'`, in order.
    pub fn as_string(&self) -> (r: String)
        requires
            self.wf(),
        ensures
            r@ == join_lines(self@),
    {
        let n = self.text.len();
        let mut r = self.text[0].clone();
        let mut i: usize = 1;
        proof {
            assert(self@.take(1) =~= seq![self@[0]]);
            assert(join_with(self@.take(1), '\n') == self@[0]);
        }
        while i < n
            invariant
                1 <= i <= n,
                n == self@.len(),
                self.wf(),
                r@ == join_with(self@.take(i as int), '\n'),
            decreases n - i,
        {
            push_char(&mut r, '\n');
            r.append(self.text[i].as_str());
            proof {
                let t = self@.take(i as int);
                let t2 = self@.take(i as int + 1);
                assert(t2.drop_last() =~= t);
                assert(t2.last() == self@[i as int]);
                assert(join_with(t2, '\n') == join_with(t, '\n').push('\n') + self@[i as int]);
                assert(r@ =~= join_with(t2, '\n'));
            }
            i = i + 1;
        }
        proof {
            assert(self@.take(n as int) =~= self@);
        }
        r
    }
}

/// A splice of newline-free fragments into a newline-free page keeps
/// every line free of newlines, and grows the page by the number of
/// fragments less one.
pub proof fn lemma_splice_sep_free(ls: Seq<Seq<char>>, i: int, col: int, frags: Seq<Seq<char>>)
    requires
        0 <= i < ls.len(),
        0 <= col <= ls[i].len(),
        frags.len() >= 1,
        sep_free(ls, '\n'),
        sep_free(frags, '\n'),
    ensures
        splice_at(ls, i, col, frags).len() == ls.len() + frags.len() - 1,
        sep_free(splice_at(ls, i, col, frags), '\n'),
{
    let lv = ls[i];
    let m = frags.len() as int;
    let glued = frags.update(0, lv.take(col) + frags[0]).update(
        m - 1,
        frags.update(0, lv.take(col) + frags[0]).last() + lv.skip(col),
    );
    let target = splice_at(ls, i, col, frags);
    assert(target == ls.take(i) + glued + ls.skip(i + 1));
    assert(glued.len() == m);
    assert(!lv.contains('\n'));
    crate::text::lemma_sep_free_subrange(lv, 0, col, '\n');
    crate::text::lemma_sep_free_subrange(lv, col, lv.len() as int, '\n');
    assert(lv.take(col) == lv.subrange(0, col));
    assert(lv.skip(col) == lv.subrange(col, lv.len() as int));
    assert(sep_free(glued, '\n')) by {
        assert forall|j: int| 0 <= j < glued.len() implies !glued[j].contains('\n') by {
            if j == 0 && m == 1 {
                crate::text::lemma_sep_free_concat(lv.take(col), frags[0], '\n');
                crate::text::lemma_sep_free_concat(lv.take(col) + frags[0], lv.skip(col), '\n');
                assert(glued[0] == lv.take(col) + frags[0] + lv.skip(col));
            } else if j == 0 {
                crate::text::lemma_sep_free_concat(lv.take(col), frags[0], '\n');
            } else if j == m - 1 {
                crate::text::lemma_sep_free_concat(frags[j], lv.skip(col), '\n');
            } else {
                assert(glued[j] == frags[j]);
            }
        }
    }
    assert forall|k: int| 0 <= k < target.len() implies !target[k].contains('\n') by {
        if k < i {
            assert(target[k] == ls[k]);
        } else if k < i + m {
            assert(target[k] == glued[k - i]);
        } else {
            assert(target[k] == ls[k - m + 1]);
        }
    }
}

/// Law: flattening the lines obtained by splitting a text restores the
/// text exactly.  With [`Page::from`] and [`Page::as_string`] this says
/// that a page built from a string renders back as that same string.
pub proof fn lemma_page_round_trip(s: Seq<char>)
    ensures
        join_lines(split_lines(s)) == s,
{
    lemma_join_split_identity(s, '\n');
}

/// Law: a well-formed page's flat text splits back into exactly its lines.
pub proof fn lemma_page_lines_recovered(ls: Seq<Seq<char>>)
    requires
        ls.len() >= 1,
        sep_free(ls, '\n'),
    ensures
        split_lines(join_lines(ls)) == ls,
{
    lemma_split_join_inverse(ls, '\n');
}

/// Law: inserting a character other than a newline at column `col` of
/// line `line` places exactly that character at (line, col): the line
/// becomes the old line with `c` inserted, and reading the column back
/// yields `c`, whatever its encoding width.
pub proof fn lemma_insert_char_then_get(ls: Seq<Seq<char>>, line: int, col: int, c: char)
    requires
        0 <= line < ls.len(),
        0 <= col <= ls[line].len(),
        c != '\n',
    ensures
        splice_at(ls, line, col, split_lines(seq![c]))[line] == ls[line].insert(col, c),
        splice_at(ls, line, col, split_lines(seq![c]))[line][col] == c,
{
    let frags = split_lines(seq![c]);
    assert(seq![c].drop_last() =~= Seq::<char>::empty());
    assert(seq![c].last() == c);
    assert(split_on(Seq::<char>::empty(), '\n') == seq![Seq::<char>::empty()]);
    assert(frags == seq![Seq::<char>::empty()].update(0, Seq::<char>::empty().push(c)));
    assert(Seq::<char>::empty().push(c) =~= seq![c]);
    assert(frags =~~= seq![seq![c]]);
    let l = ls[line];
    let spliced = splice_at(ls, line, col, frags);
    assert(spliced[line] == l.take(col) + seq![c] + l.skip(col));
    assert((l.take(col) + seq![c] + l.skip(col))[col] == c);
    assert(l.insert(col, c) =~= l.take(col) + seq![c] + l.skip(col));
}

/// Law: inserting a newline at column `col` of line `line` splits that
/// line in two, and joining the two halves back (as erasing the line
/// break does) restores the line and with it the whole page.
pub proof fn lemma_split_then_join(ls: Seq<Seq<char>>, line: int, col: int)
    requires
        0 <= line < ls.len(),
        0 <= col <= ls[line].len(),
    ensures
        ({
            let sp = splice_at(ls, line, col, split_lines(seq!['\n']));
            &&& sp.len() == ls.len() + 1
            &&& sp[line] == ls[line].take(col)
            &&& sp[line + 1] == ls[line].skip(col)
            &&& sp[line] + sp[line + 1] == ls[line]
            &&& sp.remove(line + 1).update(line, sp[line] + sp[line + 1]) =~~= ls
        }),
{
    let frags = split_lines(seq!['\n']);
    assert(seq!['\n'].last() == '\n');
    assert(seq!['\n'].drop_last() =~= Seq::<char>::empty());
    assert(split_on(Seq::<char>::empty(), '\n') == seq![Seq::<char>::empty()]);
    assert(frags == seq![Seq::<char>::empty()].push(Seq::<char>::empty()));
    assert(frags =~~= seq![Seq::<char>::empty(), Seq::<char>::empty()]);
    let l = ls[line];
    let sp = splice_at(ls, line, col, frags);
    let glued = frags.update(0, l.take(col) + frags[0]).update(1, frags[1] + l.skip(col));
    assert(glued.len() == 2);
    assert(l.take(col) + Seq::<char>::empty() =~= l.take(col));
    assert(Seq::<char>::empty() + l.skip(col) =~= l.skip(col));
    assert(sp[line] == glued[0]);
    assert(sp[line + 1] == glued[1]);
    assert(l.take(col) + l.skip(col) =~= l);
    let joined = sp.remove(line + 1).update(line, sp[line] + sp[line + 1]);
    sp.remove_ensures(line + 1);
    assert forall|i: int| 0 <= i < joined.len() implies joined[i] == ls[i] by {
        if i < line {
            assert(sp.remove(line + 1)[i] == sp[i]);
            assert(sp[i] == ls.take(line)[i]);
        } else if i == line {
            assert(joined[i] == sp[line] + sp[line + 1]);
        } else {
            assert(sp.remove(line + 1)[i] == sp[i + 1]);
            assert(sp[i + 1] == ls.skip(line + 1)[i + 1 - line - 2]);
        }
    }
    assert(joined.len() == ls.len());
}

impl Default for Page {
    /// A page holding one empty line.
    fn default() -> (p: Page)
        ensures
            p@ =~= seq![Seq::<char>::empty()],
            p.wf(),
    {
        Page::new()
    }
}

} // verus!
