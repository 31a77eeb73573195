//! The text buffer: an ordered, never-empty sequence of lines plus one edit
//! cursor and a modified flag. Every operation clamps at the document edges
//! and re-establishes the buffer invariant before returning.
use crate::strutil::chomp_cr;
use crate::strutil::split_lines;
use crate::strutil::split_lines_spec;
use vstd::prelude::*;
use vstd::string::StrSliceExecFns;
use vstd::string::StringExecFns;

verus! {

#[derive(Clone, Copy, PartialEq, Eq, Structural, Debug)]
pub struct Cursor {
    pub row: usize,
    pub col: usize,
}

#[derive(Clone, Copy, PartialEq, Eq, Structural, Debug)]
pub enum Direction {
    Left,
    Right,
    Up,
    Down,
}

pub struct Buffer {
    pub file_name: String,
    pub lines: Vec<String>,
    pub cursor: Cursor,
    pub modified: bool,
}

impl Buffer {
    /// The characters of line `i`.
    pub open spec fn line_at(self, i: int) -> Seq<char> {
        self.lines@[i]@
    }

    /// The buffer invariant: at least one line, the cursor row inside the
    /// document, the cursor column at most one past the end of its line.
    pub open spec fn wf(self) -> bool {
        &&& self.lines@.len() >= 1
        &&& self.cursor.row < self.lines@.len()
        &&& self.cursor.col <= self.line_at(self.cursor.row as int).len()
    }
}

/// Where the cursor lands when moved one step in `dir`: the step is clamped
/// at the document edges, and after a row change the column is re-clamped to
/// the new line's length.
pub open spec fn cursor_after_move(b: Buffer, dir: Direction) -> Cursor {
    let row = b.cursor.row;
    let col = b.cursor.col;
    let moved = match dir {
        Direction::Left => Cursor { row, col: if col > 0 { (col - 1) as usize } else { 0 } },
        Direction::Right => Cursor {
            row,
            col: if col < b.line_at(row as int).len() { (col + 1) as usize } else { col },
        },
        Direction::Up => Cursor { row: if row > 0 { (row - 1) as usize } else { 0 }, col },
        Direction::Down => Cursor {
            row: if row + 1 < b.lines@.len() { (row + 1) as usize } else { row },
            col,
        },
    };
    let max_col = b.line_at(moved.row as int).len();
    Cursor { row: moved.row, col: if moved.col > max_col { max_col as usize } else { moved.col } }
}

impl Buffer {
    /// Moves the cursor one step, clamped so that no move at a document edge
    /// errors: at row 0 `Up` is a no-op, at the last row `Down` is a no-op,
    /// and likewise `Left` at column 0 and `Right` at the end of the line.
    pub fn move_cursor(&mut self, dir: Direction)
        requires
            old(self).wf(),
        ensures
            final(self).wf(),
            final(self).lines == old(self).lines,
            final(self).file_name == old(self).file_name,
            final(self).modified == old(self).modified,
            final(self).cursor == cursor_after_move(*old(self), dir),
            dir == Direction::Up && old(self).cursor.row == 0 ==> final(self).cursor == old(
                self,
            ).cursor,
            dir == Direction::Down && old(self).cursor.row == old(self).lines@.len() - 1
                ==> final(self).cursor == old(self).cursor,
            dir == Direction::Left && old(self).cursor.col == 0 ==> final(self).cursor == old(
                self,
            ).cursor,
            dir == Direction::Right && old(self).cursor.col == old(self).line_at(
                old(self).cursor.row as int,
            ).len() ==> final(self).cursor == old(self).cursor,
    {
        match dir {
            Direction::Left => {
                if self.cursor.col > 0 {
                    self.cursor.col = self.cursor.col - 1;
                }
            },
            Direction::Right => {
                let len = self.lines[self.cursor.row].as_str().unicode_len();
                if self.cursor.col < len {
                    self.cursor.col = self.cursor.col + 1;
                }
            },
            Direction::Up => {
                if self.cursor.row > 0 {
                    self.cursor.row = self.cursor.row - 1;
                }
            },
            Direction::Down => {
                let row_count = self.lines.len();
                if self.cursor.row + 1 < row_count {
                    self.cursor.row = self.cursor.row + 1;
                }
            },
        }
        let max_col = self.lines[self.cursor.row].as_str().unicode_len();
        if self.cursor.col > max_col {
            self.cursor.col = max_col;
        }
    }
}

/// How inserting `c` at the cursor changes a buffer: the character is
/// spliced into the cursor line at the cursor column, the cursor moves one
/// step right, and the buffer is marked modified.
pub open spec fn inserted_char_effect(pre: Buffer, post: Buffer, c: char) -> bool {
    let row = pre.cursor.row as int;
    let col = pre.cursor.col as int;
    let line = pre.line_at(row);
    &&& post.lines@.len() == pre.lines@.len()
    &&& forall|i: int| 0 <= i < pre.lines@.len() && i != row ==> post.lines@[i] == pre.lines@[i]
    &&& post.line_at(row) == line.subrange(0, col) + seq![c] + line.subrange(
        col,
        line.len() as int,
    )
    &&& post.cursor == (Cursor { row: pre.cursor.row, col: (pre.cursor.col + 1) as usize })
    &&& post.file_name == pre.file_name
    &&& post.modified == true
}

/// How splitting the cursor line at the cursor changes a buffer: the prefix
/// of the line stays on the cursor row, the suffix becomes a new line right
/// below, the cursor moves to the start of that new line, and the buffer is
/// marked modified.
pub open spec fn split_line_effect(pre: Buffer, post: Buffer) -> bool {
    let row = pre.cursor.row as int;
    let col = pre.cursor.col as int;
    let line = pre.line_at(row);
    &&& post.lines@.len() == pre.lines@.len() + 1
    &&& forall|i: int| 0 <= i < row ==> post.lines@[i] == pre.lines@[i]
    &&& post.line_at(row) == line.subrange(0, col)
    &&& post.line_at(row + 1) == line.subrange(col, line.len() as int)
    &&& forall|i: int| row + 1 < i < post.lines@.len() ==> post.lines@[i] == pre.lines@[i - 1]
    &&& post.cursor == (Cursor { row: (pre.cursor.row + 1) as usize, col: 0 })
    &&& post.file_name == pre.file_name
    &&& post.modified == true
}

/// The line sequence a document text yields: its split lines, except that
/// empty text still yields one empty line, keeping the buffer non-empty.
pub open spec fn buffer_lines_of(t: Seq<char>) -> Seq<Seq<char>> {
    let ls = split_lines_spec(t);
    if ls.len() == 0 {
        seq![Seq::<char>::empty()]
    } else {
        ls
    }
}

/// `line` with `c` spliced in before position `at`.
fn line_insert(line: &String, at: usize, c: char) -> (r: String)
    requires
        at <= line@.len(),
        line@.len() < usize::MAX,
    ensures
        r@ == line@.subrange(0, at as int) + seq![c] + line@.subrange(at as int, line@.len() as int),
{
    let n = line.as_str().unicode_len();
    let pre = line.as_str().substring_char(0, at);
    let suf = line.as_str().substring_char(at, n);
    let mut r = pre.to_owned();
    r.push(c);
    r.append(suf);
    proof {
        assert(r@ =~= line@.subrange(0, at as int) + seq![c] + line@.subrange(
            at as int,
            line@.len() as int,
        ));
    }
    r
}

/// `line` with the character at position `at` removed.
fn line_remove(line: &String, at: usize) -> (r: String)
    requires
        at < line@.len(),
    ensures
        r@ == line@.subrange(0, at as int) + line@.subrange(at + 1, line@.len() as int),
{
    let n = line.as_str().unicode_len();
    let pre = line.as_str().substring_char(0, at);
    let suf = line.as_str().substring_char(at + 1, n);
    let mut r = pre.to_owned();
    r.append(suf);
    r
}

impl Buffer {
    /// Builds a buffer from a document's text: the text split into lines
    /// (empty text yields a single empty line), the cursor at the origin,
    /// and no pending modification.
    pub fn new(text: String, file_name: String) -> (b: Buffer)
        ensures
            b.wf(),
            b.lines@.map_values(|l: String| l@) == buffer_lines_of(text@),
            b.file_name == file_name,
            b.cursor == (Cursor { row: 0, col: 0 }),
            b.modified == false,
    {
        let mut lines = split_lines(text.as_str());
        if lines.len() == 0 {
            lines.push(String::new());
            proof {
                assert(lines@.map_values(|l: String| l@) =~= seq![Seq::<char>::empty()]);
            }
        }
        Buffer { file_name, lines, cursor: Cursor { row: 0, col: 0 }, modified: false }
    }

    /// Replaces the whole document: the new text split into lines as in
    /// `new`, the cursor reset to the origin, the modified flag cleared, and
    /// any prior edit position discarded.
    pub fn update(&mut self, text: String, file_name: String)
        ensures
            final(self).wf(),
            final(self).lines@.map_values(|l: String| l@) == buffer_lines_of(text@),
            final(self).file_name == file_name,
            final(self).cursor == (Cursor { row: 0, col: 0 }),
            final(self).modified == false,
    {
        let mut lines = split_lines(text.as_str());
        if lines.len() == 0 {
            lines.push(String::new());
            proof {
                assert(lines@.map_values(|l: String| l@) =~= seq![Seq::<char>::empty()]);
            }
        }
        self.lines = lines;
        self.file_name = file_name;
        self.cursor = Cursor { row: 0, col: 0 };
        self.modified = false;
    }

    /// Splices `c` into the current line at the cursor column, moves the
    /// cursor one step right, and marks the buffer modified.
    pub fn insert_character(&mut self, c: char)
        requires
            old(self).wf(),
            old(self).line_at(old(self).cursor.row as int).len() < usize::MAX,
        ensures
            final(self).wf(),
            inserted_char_effect(*old(self), *final(self), c),
    {
        let row = self.cursor.row;
        let newline = line_insert(&self.lines[row], self.cursor.col, c);
        self.lines[row] = newline;
        self.move_cursor(Direction::Right);
        self.modified = true;
    }

    /// Removes the character under the cursor if the cursor is not at the
    /// end of its line, marking the buffer modified; at the end of the line
    /// it is a no-op.
    pub fn delete_current_character(&mut self)
        requires
            old(self).wf(),
        ensures
            final(self).wf(),
            old(self).cursor.col < old(self).line_at(old(self).cursor.row as int).len() ==> {
                &&& final(self).lines@.len() == old(self).lines@.len()
                &&& forall|i: int|
                    0 <= i < old(self).lines@.len() && i != old(self).cursor.row as int
                        ==> final(self).lines@[i] == old(self).lines@[i]
                &&& final(self).line_at(old(self).cursor.row as int) == old(self).line_at(
                    old(self).cursor.row as int,
                ).subrange(0, old(self).cursor.col as int) + old(self).line_at(
                    old(self).cursor.row as int,
                ).subrange(
                    old(self).cursor.col + 1,
                    old(self).line_at(old(self).cursor.row as int).len() as int,
                )
                &&& final(self).cursor == old(self).cursor
                &&& final(self).file_name == old(self).file_name
                &&& final(self).modified == true
            },
            old(self).cursor.col >= old(self).line_at(old(self).cursor.row as int).len()
                ==> *final(self) == *old(self),
    {
        let row = self.cursor.row;
        let len = self.lines[row].as_str().unicode_len();
        if self.cursor.col < len {
            let newline = line_remove(&self.lines[row], self.cursor.col);
            self.lines[row] = newline;
            self.modified = true;
        }
    }

    /// Inserts an empty line directly below the cursor row, marking the
    /// buffer modified; the cursor itself does not move.
    pub fn insert_newline_below(&mut self)
        requires
            old(self).wf(),
            old(self).lines@.len() < usize::MAX,
        ensures
            final(self).wf(),
            final(self).lines@.len() == old(self).lines@.len() + 1,
            forall|i: int|
                0 <= i <= old(self).cursor.row as int ==> final(self).lines@[i] == old(
                    self,
                ).lines@[i],
            final(self).line_at(old(self).cursor.row + 1) == Seq::<char>::empty(),
            forall|i: int|
                old(self).cursor.row + 1 < i < final(self).lines@.len() ==> final(self).lines@[i]
                    == old(self).lines@[i - 1],
            final(self).cursor == old(self).cursor,
            final(self).file_name == old(self).file_name,
            final(self).modified == true,
    {
        self.lines.insert(self.cursor.row + 1, String::new());
        self.modified = true;
    }

    /// Splits the current line at the cursor: the prefix stays on the cursor
    /// row, the suffix becomes a new line right below, and the cursor moves
    /// to the start of that new line. Marks the buffer modified.
    pub fn split_line_at_cursor(&mut self)
        requires
            old(self).wf(),
            old(self).lines@.len() < usize::MAX,
        ensures
            final(self).wf(),
            split_line_effect(*old(self), *final(self)),
    {
        let row = self.cursor.row;
        let col = self.cursor.col;
        let n = self.lines[row].as_str().unicode_len();
        let pre = self.lines[row].as_str().substring_char(0, col).to_owned();
        let suf = self.lines[row].as_str().substring_char(col, n).to_owned();
        self.lines[row] = pre;
        self.lines.insert(row + 1, suf);
        self.cursor = Cursor { row: row + 1, col: 0 };
        self.modified = true;
    }

    /// Removes the cursor row unless it is the only remaining line, in which
    /// case nothing happens: the line count never drops below 1. After a
    /// removal the cursor is re-clamped into the shrunk document and the
    /// buffer is marked modified.
    pub fn delete_line(&mut self)
        requires
            old(self).wf(),
        ensures
            final(self).wf(),
            final(self).lines@.len() >= 1,
            old(self).lines@.len() == 1 ==> *final(self) == *old(self),
            old(self).lines@.len() > 1 ==> {
                &&& final(self).lines@ == old(self).lines@.remove(old(self).cursor.row as int)
                &&& final(self).cursor.row == if old(self).cursor.row < final(self).lines@.len() {
                    old(self).cursor.row as int
                } else {
                    final(self).lines@.len() - 1
                }
                &&& final(self).cursor.col == if old(self).cursor.col as int <= final(self).line_at(
                    final(self).cursor.row as int,
                ).len() {
                    old(self).cursor.col as int
                } else {
                    final(self).line_at(final(self).cursor.row as int).len() as int
                }
                &&& final(self).file_name == old(self).file_name
                &&& final(self).modified == true
            },
    {
        if self.lines.len() > 1 {
            self.lines.remove(self.cursor.row);
            let last = self.lines.len() - 1;
            if self.cursor.row > last {
                self.cursor.row = last;
            }
            let max_col = self.lines[self.cursor.row].as_str().unicode_len();
            if self.cursor.col > max_col {
                self.cursor.col = max_col;
            }
            self.modified = true;
        }
    }

    /// Moves the cursor to column 0 of its line.
    pub fn move_cursor_to_line_start(&mut self)
        requires
            old(self).wf(),
        ensures
            final(self).wf(),
            final(self).cursor == (Cursor { row: old(self).cursor.row, col: 0 }),
            final(self).lines == old(self).lines,
            final(self).file_name == old(self).file_name,
            final(self).modified == old(self).modified,
    {
        self.cursor.col = 0;
    }

    /// Clears the modified flag, as after the document has been written out.
    pub fn saved(&mut self)
        ensures
            final(self).modified == false,
            final(self).lines == old(self).lines,
            final(self).cursor == old(self).cursor,
            final(self).file_name == old(self).file_name,
    {
        self.modified = false;
    }
}

/// The byte-for-byte text a document's lines are written out as: every line
/// followed by one newline.
pub open spec fn render_spec(ls: Seq<Seq<char>>) -> Seq<char>
    decreases ls.len(),
{
    if ls.len() == 0 {
        Seq::empty()
    } else {
        render_spec(ls.drop_last()) + ls.last() + seq!['\n']
    }
}

/// The text a document is saved as: each line terminated with a newline.
pub fn render_document(lines: &Vec<String>) -> (r: String)
    ensures
        r@ == render_spec(lines@.map_values(|l: String| l@)),
{
    let mut r = String::new();
    let mut i: usize = 0;
    proof {
        assert(lines@.take(0).map_values(|l: String| l@) =~= Seq::<Seq<char>>::empty());
    }
    while i < lines.len()
        invariant
            i <= lines@.len(),
            r@ == render_spec(lines@.take(i as int).map_values(|l: String| l@)),
        decreases lines@.len() - i,
    {
        r.append(lines[i].as_str());
        r.push('\n');
        proof {
            let views = |l: String| l@;
            assert(lines@.take(i + 1).map_values(views).drop_last() =~= lines@.take(
                i as int,
            ).map_values(views));
            assert(lines@.take(i + 1).map_values(views).last() == lines@[i as int]@);
        }
        i = i + 1;
    }
    proof {
        assert(lines@.take(lines@.len() as int) =~= lines@);
    }
    r
}

/// A line as the save format can carry it: no newline inside, and no
/// carriage return at the end that splitting would chomp.
pub open spec fn plain_line(l: Seq<char>) -> bool {
    &&& forall|i: int| 0 <= i < l.len() ==> #[trigger] l[i] != '\n'
    &&& (l.len() == 0 || l.last() != '\r')
}

/// The rendered text read from the front: the first line, a newline, then
/// the rendering of the rest.
proof fn lemma_render_front(ls: Seq<Seq<char>>)
    requires
        ls.len() > 0,
    ensures
        render_spec(ls) == ls.first() + seq!['\n'] + render_spec(ls.drop_first()),
    decreases ls.len(),
{
    if ls.len() == 1 {
        assert(ls.drop_last() =~= Seq::<Seq<char>>::empty());
        assert(ls.drop_first() =~= Seq::<Seq<char>>::empty());
        assert(render_spec(ls) =~= ls.first() + seq!['\n'] + render_spec(ls.drop_first()));
    } else {
        lemma_render_front(ls.drop_last());
        assert(ls.drop_last().first() == ls.first());
        assert(ls.drop_last().drop_first() =~= ls.drop_first().drop_last());
        assert(ls.drop_first().last() == ls.last());
        assert(render_spec(ls) =~= ls.first() + seq!['\n'] + render_spec(ls.drop_first()));
    }
}

/// Saving and re-reading a document is lossless: splitting what a
/// document's lines were written out as yields those lines back, for any
/// document whose lines the save format can carry.
pub proof fn lemma_render_then_split(ls: Seq<Seq<char>>)
    requires
        forall|i: int| 0 <= i < ls.len() ==> plain_line(#[trigger] ls[i]),
    ensures
        split_lines_spec(render_spec(ls)) == ls,
    decreases ls.len(),
{
    if ls.len() == 0 {
        assert(split_lines_spec(render_spec(ls)) =~= ls);
    } else {
        lemma_render_front(ls);
        let tail_text = seq!['\n'] + render_spec(ls.drop_first());
        assert(render_spec(ls) =~= ls.first() + tail_text);
        assert(plain_line(ls[0]));
        crate::strutil::lemma_split_rest_line(ls.first(), tail_text, Seq::<char>::empty());
        assert(Seq::<char>::empty() + ls.first() =~= ls.first());
        assert(tail_text[0] == '\n');
        assert(tail_text.drop_first() =~= render_spec(ls.drop_first()));
        assert(chomp_cr(ls.first()) == ls.first());
        assert(split_lines_spec(render_spec(ls)) == seq![ls.first()] + split_lines_spec(
            render_spec(ls.drop_first()),
        ));
        assert forall|i: int| 0 <= i < ls.drop_first().len() implies plain_line(
            #[trigger] ls.drop_first()[i],
        ) by {
            assert(ls.drop_first()[i] == ls[i + 1]);
        }
        lemma_render_then_split(ls.drop_first());
        assert(seq![ls.first()] + ls.drop_first() =~= ls);
    }
}

} // verus!
