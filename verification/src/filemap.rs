//! The source text of one file, its line starts, and positions in it.

use vstd::prelude::*;
use crate::text::{
    byte_len, byte_length, byte_offset, chars_of, lemma_byte_offset_monotone,
    lemma_byte_offset_step, string_of, utf8_len,
};

verus! {

/// A position in the source text: line and column, both counted from zero.
/// The column is a number of bytes.
#[derive(Debug, Clone, Copy, PartialEq, Eq, Structural)]
pub struct Loc {
    pub line: usize,
    pub col: usize,
}

/// A region of the source text, given by byte offsets: the bytes from `lo`
/// up to `hi`, without the one at `hi`. Where `lo` and `hi` are equal, the
/// region is a point.
#[derive(Debug, Clone, Copy, PartialEq, Eq, Structural)]
pub struct Span {
    /// Offset of the first byte of the region.
    pub lo: usize,
    /// Offset just behind the last byte of the region.
    pub hi: usize,
}

/// Line starts are strictly increasing.
pub open spec fn increasing(lines: Seq<usize>) -> bool {
    forall|i: int, j: int| 0 <= i < j < lines.len() ==> lines[i] < lines[j]
}

/// Index of the last line that starts at or before `offset`.
pub open spec fn line_index(lines: Seq<usize>, offset: usize) -> nat
    decreases lines.len(),
{
    if lines.len() <= 1 {
        0
    } else if lines.last() <= offset {
        (lines.len() - 1) as nat
    } else {
        line_index(lines.drop_last(), offset)
    }
}

/// Index of the first character from `i` on that starts at byte `offset` or
/// behind it; the length of the text if there is none.
pub open spec fn char_index_from(s: Seq<char>, offset: nat, i: int) -> int
    decreases s.len() - i,
{
    if i < 0 || i >= s.len() {
        s.len() as int
    } else if byte_offset(s, i) >= offset {
        i
    } else {
        char_index_from(s, offset, i + 1)
    }
}

/// Index of the first line feed from `i` on; the length of the text if
/// there is none.
pub open spec fn line_end_from(s: Seq<char>, i: int) -> int
    decreases s.len() - i,
{
    if i < 0 || i >= s.len() {
        s.len() as int
    } else if s[i] == '\n' {
        i
    } else {
        line_end_from(s, i + 1)
    }
}

/// The text from byte `offset` up to the next line feed or the end.
pub open spec fn line_text(s: Seq<char>, offset: nat) -> Seq<char> {
    let start = char_index_from(s, offset, 0);
    s.subrange(start, line_end_from(s, start))
}

/// What `line_index` returns is the one line that holds `offset`.
pub proof fn lemma_line_index(lines: Seq<usize>, offset: usize)
    requires
        lines.len() >= 1,
        lines[0] <= offset,
        increasing(lines),
    ensures
        line_index(lines, offset) < lines.len(),
        lines[line_index(lines, offset) as int] <= offset,
        forall|j: int| line_index(lines, offset) < j < lines.len() ==> offset < lines[j],
    decreases lines.len(),
{
    if lines.len() > 1 && lines.last() > offset {
        let front = lines.drop_last();
        lemma_line_index(front, offset);
        assert forall|j: int| line_index(lines, offset) < j < lines.len() implies offset
            < lines[j] by {
            if j < front.len() {
                assert(front[j] == lines[j]);
            }
        }
    }
}

/// A line that starts at or before `offset`, while the next one starts
/// behind it, is the line `line_index` returns.
pub proof fn lemma_line_index_unique(lines: Seq<usize>, offset: usize, k: int)
    requires
        increasing(lines),
        0 <= k < lines.len(),
        lines[k] <= offset,
        k + 1 < lines.len() ==> offset < lines[k + 1],
    ensures
        line_index(lines, offset) == k,
    decreases lines.len(),
{
    if lines.len() > 1 {
        if lines.last() <= offset {
        } else {
            lemma_line_index_unique(lines.drop_last(), offset, k);
        }
    }
}

/// Index of the first character of `chars` that starts at byte `offset` or
/// behind it.
pub fn char_index(chars: &Vec<char>, offset: usize) -> (i: usize)
    requires
        byte_len(chars@) <= usize::MAX,
    ensures
        i == char_index_from(chars@, offset as nat, 0),
        i <= chars.len(),
{
    let ghost s = chars@;
    let mut i: usize = 0;
    let mut pos: usize = 0;
    while i < chars.len() && pos < offset
        invariant
            s == chars@,
            byte_len(s) <= usize::MAX,
            i <= s.len(),
            pos == byte_offset(s, i as int),
            char_index_from(s, offset as nat, 0) == char_index_from(s, offset as nat, i as int),
        decreases s.len() - i,
    {
        proof {
            lemma_byte_offset_step(s, i as int);
            lemma_byte_offset_monotone(s, i + 1, s.len() as int);
        }
        pos += utf8_len(chars[i]);
        i += 1;
    }
    i
}

/// The text of a file together with the offsets at which its lines start.
pub struct FileMap {
    filename: String,
    src: String,
    chars: Vec<char>,
    lines: Vec<usize>,
}

impl FileMap {
    /// The name of the file.
    pub closed spec fn name(&self) -> Seq<char> {
        self.filename@
    }

    /// The source text.
    pub closed spec fn text(&self) -> Seq<char> {
        self.src@
    }

    /// The recorded line starts, as byte offsets.
    pub closed spec fn line_starts(&self) -> Seq<usize> {
        self.lines@
    }

    /// The character table agrees with the text.
    pub closed spec fn inv(&self) -> bool {
        self.chars@ == self.src@
    }

    /// The first line starts at 0, line starts are strictly increasing, and
    /// the text has a length in bytes that fits the machine.
    pub open spec fn wf(&self) -> bool {
        &&& self.inv()
        &&& 1 <= self.line_starts().len() <= usize::MAX
        &&& self.line_starts()[0] == 0
        &&& increasing(self.line_starts())
        &&& byte_len(self.text()) <= usize::MAX
    }

    /// A map of `src` with its first line recorded.
    pub fn new(filename: String, src: String) -> (fmap: FileMap)
        ensures
            fmap.wf(),
            fmap.text() == src@,
            fmap.name() == filename@,
            fmap.line_starts() == seq![0usize],
    {
        let chars = chars_of(src.as_str());
        let _n: usize = byte_length(src.as_str());
        let mut lines: Vec<usize> = Vec::new();
        lines.push(0);
        FileMap { filename, src, chars, lines }
    }

    /// The name of the file.
    pub fn filename(&self) -> (s: &String)
        ensures
            s@ == self.name(),
    {
        &self.filename
    }

    /// The source text.
    pub fn src(&self) -> (s: &String)
        ensures
            s@ == self.text(),
    {
        &self.src
    }

    /// The characters of the source text.
    pub fn chars(&self) -> (v: &Vec<char>)
        requires
            self.wf(),
        ensures
            v@ == self.text(),
    {
        &self.chars
    }

    /// Records that a line starts at `offset`.
    pub fn add_line(&mut self, offset: usize)
        requires
            old(self).wf(),
            offset > old(self).line_starts().last(),
        ensures
            final(self).wf(),
            final(self).text() == old(self).text(),
            final(self).name() == old(self).name(),
            final(self).line_starts() == old(self).line_starts().push(offset),
    {
        self.lines.push(offset);
        let _n: usize = self.lines.len();
    }

    /// Number of line breaks recorded: the lines that have come to an end.
    pub fn num_lines(&self) -> (n: usize)
        requires
            self.wf(),
        ensures
            n == self.line_starts().len() - 1,
    {
        self.lines.len() - 1
    }

    /// Index of the line that holds the byte at `offset`.
    pub fn get_line_idx(&self, offset: usize) -> (line: usize)
        requires
            self.wf(),
        ensures
            line == line_index(self.line_starts(), offset),
            line < self.line_starts().len(),
            self.line_starts()[line as int] <= offset,
    {
        let mut a: usize = 0;
        let mut z: usize = self.lines.len();
        while a + 1 < z
            invariant
                self.wf(),
                a < z <= self.lines.len(),
                self.lines@[a as int] <= offset,
                z < self.lines.len() ==> offset < self.lines@[z as int],
            decreases z - a,
        {
            let m: usize = a + (z - a) / 2;
            if self.lines[m] > offset {
                z = m;
            } else {
                a = m;
            }
        }
        proof {
            lemma_line_index_unique(self.lines@, offset, a as int);
        }
        a
    }

    /// Line and column of the byte at `offset`.
    pub fn get_loc(&self, offset: usize) -> (loc: Loc)
        requires
            self.wf(),
        ensures
            loc.line == line_index(self.line_starts(), offset),
            loc.line < self.line_starts().len(),
            loc.col == offset - self.line_starts()[loc.line as int],
    {
        let line = self.get_line_idx(offset);
        Loc { line, col: offset - self.lines[line] }
    }

    /// The text of line `index`, without its line feed.
    pub fn get_line(&self, index: usize) -> (line: String)
        requires
            self.wf(),
            index < self.line_starts().len(),
        ensures
            line@ == line_text(self.text(), self.line_starts()[index as int] as nat),
    {
        let offset = self.lines[index];
        let ghost s = self.chars@;
        let mut i: usize = char_index(&self.chars, offset);
        let start = i;
        while i < self.chars.len() && self.chars[i] != '\n'
            invariant
                s == self.chars@,
                start <= i <= s.len(),
                line_end_from(s, start as int) == line_end_from(s, i as int),
            decreases s.len() - i,
        {
            i += 1;
        }
        string_of(&self.chars, start, i)
    }
}

/// A recorded line start lies in its own line, at column 0.
pub proof fn lemma_line_start_location(lines: Seq<usize>, i: int)
    requires
        increasing(lines),
        0 <= i < lines.len(),
    ensures
        line_index(lines, lines[i]) == i,
        lines[i] - lines[line_index(lines, lines[i]) as int] == 0,
{
    lemma_line_index_unique(lines, lines[i], i);
}

} // verus!
