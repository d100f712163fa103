//! Source files and the line index over their text.
use vstd::prelude::*;
use vstd::utf8::encode_utf8;

verus! {

/// Identity of one source file inside a program representation.
pub type FileId = u64;

/// Number of newline bytes among the first `pos` bytes of `text`.
pub open spec fn newlines_before(text: Seq<u8>, pos: int) -> nat
    decreases pos,
{
    if pos <= 0 {
        0
    } else {
        newlines_before(text, pos - 1) + if text[pos - 1] == 10u8 { 1nat } else { 0nat }
    }
}

/// The 1-based line that holds byte offset `pos`.
pub open spec fn line_at(text: Seq<u8>, pos: int) -> int {
    newlines_before(text, pos) + 1int
}

/// The last byte offset that the range `[start, end)` covers; for an empty
/// range, `start` itself.
pub open spec fn last_offset(start: int, end: int) -> int {
    if start < end {
        end - 1
    } else {
        start
    }
}

/// The lines that the byte range `[start, end)` overlaps: every line from
/// the one holding `start` to the one holding its last byte, in ascending
/// order. A range ending right after a newline does not reach the next
/// line; an empty range gives the one line holding `start`.
pub open spec fn lines_of_range(text: Seq<u8>, start: int, end: int) -> Seq<u32> {
    let last = last_offset(start, end);
    Seq::new(
        (line_at(text, last) - line_at(text, start) + 1) as nat,
        |i: int| (line_at(text, start) + i) as u32,
    )
}

/// A range that the line index can resolve: inside the text, with line
/// numbers that fit in `u32`.
pub open spec fn range_resolvable(text: Seq<u8>, start: int, end: int) -> bool {
    &&& 0 <= start <= end <= text.len()
    &&& line_at(text, last_offset(start, end)) <= u32::MAX
}

/// Each byte adds at most one newline.
pub proof fn lemma_newlines_bounded(text: Seq<u8>, pos: int)
    requires
        0 <= pos,
    ensures
        newlines_before(text, pos) <= pos,
    decreases pos,
{
    if pos > 0 {
        lemma_newlines_bounded(text, pos - 1);
    }
}

proof fn lemma_newlines_monotone(text: Seq<u8>, a: int, b: int)
    requires
        a <= b,
    ensures
        newlines_before(text, a) <= newlines_before(text, b),
        newlines_before(text, b) - newlines_before(text, a) <= b - a || a < 0,
    decreases b - a,
{
    if a < b {
        lemma_newlines_monotone(text, a, b - 1);
    }
}

/// One file's name and full text.
#[derive(Clone, Debug)]
pub struct FileSource {
    filename: String,
    content: String,
}

impl FileSource {
    pub closed spec fn spec_filename(&self) -> Seq<char> {
        self.filename@
    }

    pub closed spec fn spec_content(&self) -> Seq<char> {
        self.content@
    }

    /// The file's text as UTF-8 bytes, over which offsets are counted.
    pub open spec fn text_of(&self) -> Seq<u8> {
        encode_utf8(self.spec_content())
    }

    pub fn new(filename: String, content: String) -> (r: Self)
        ensures
            r.spec_filename() == filename@,
            r.spec_content() == content@,
    {
        Self { filename, content }
    }

    pub fn filename(&self) -> (r: String)
        ensures
            r@ == self.spec_filename(),
    {
        self.filename.clone()
    }

    pub fn content(&self) -> (r: String)
        ensures
            r@ == self.spec_content(),
    {
        self.content.clone()
    }

    /// The 1-based lines that the byte range touches.
    pub fn get_lines(&self, range: core::ops::Range<usize>) -> (r: Vec<u32>)
        requires
            range_resolvable(self.text_of(), range.start as int, range.end as int),
        ensures
            r@ == lines_of_range(self.text_of(), range.start as int, range.end as int),
    {
        let text: &[u8] = self.content.as_str().as_bytes();
        let ghost t = self.text_of();
        assert(text@ == t);
        let start = range.start;
        let end = if start < range.end {
            range.end - 1
        } else {
            start
        };
        let mut count: usize = 0;
        let mut start_line: u32 = 1;
        let mut i: usize = 0;
        while i < end
            invariant
                text@ == t,
                0 <= start <= end <= t.len(),
                line_at(t, end as int) <= u32::MAX,
                i <= end,
                count == newlines_before(t, i as int),
                i > start ==> start_line == line_at(t, start as int),
                i <= start ==> start_line == 1,
            decreases end - i,
        {
            if i == start {
                proof {
                    lemma_newlines_monotone(t, start as int, end as int);
                }
                start_line = (count + 1) as u32;
            }
            proof {
                lemma_newlines_monotone(t, i as int, end as int);
                lemma_newlines_monotone(t, i as int + 1, end as int);
            }
            if text[i] == 10u8 {
                count = count + 1;
            }
            i = i + 1;
        }
        if i == start {
            start_line = (count + 1) as u32;
        }
        proof {
            lemma_newlines_monotone(t, start as int, end as int);
        }
        let end_line: u32 = (count + 1) as u32;
        let mut lines: Vec<u32> = Vec::new();
        let mut line: u32 = start_line;
        loop
            invariant_except_break
                lines@.len() == line - start_line,
            invariant
                start_line as int == line_at(t, start as int),
                end_line as int == line_at(t, end as int),
                start_line <= line <= end_line,
                forall|k: int| 0 <= k < lines@.len() ==> lines@[k] == start_line + k,
            ensures
                lines@.len() == end_line - start_line + 1,
                forall|k: int| 0 <= k < lines@.len() ==> lines@[k] == start_line + k,
            decreases end_line - line,
        {
            lines.push(line);
            if line == end_line {
                break;
            }
            line = line + 1;
        }
        assert(lines@ =~= lines_of_range(t, start as int, range.end as int));
        lines
    }
}

/// The first file stored under `id`, searching from position `i` on.
pub open spec fn find_file(entries: Seq<(FileId, FileSource)>, id: FileId, i: int) -> Option<FileSource>
    decreases entries.len() - i,
{
    if i < 0 || i >= entries.len() {
        None
    } else if entries[i].0 == id {
        Some(entries[i].1)
    } else {
        find_file(entries, id, i + 1)
    }
}

/// The source files of one program, looked up by file identity.
pub struct FileSources {
    files: Vec<(FileId, FileSource)>,
}

impl FileSources {
    pub closed spec fn entries(&self) -> Seq<(FileId, FileSource)> {
        self.files@
    }

    /// The file that `id` names: the first entry stored under it.
    pub open spec fn spec_get(&self, id: FileId) -> Option<FileSource> {
        find_file(self.entries(), id, 0)
    }

    pub fn new(files: Vec<(FileId, FileSource)>) -> (r: Self)
        ensures
            r.entries() == files@,
    {
        Self { files }
    }

    /// All entries, in the order given.
    pub fn meta(&self) -> (r: &Vec<(FileId, FileSource)>)
        ensures
            r@ == self.entries(),
    {
        &self.files
    }

    fn position(&self, file_hash: &FileId) -> (r: Option<usize>)
        ensures
            r is None <==> self.spec_get(*file_hash) is None,
            r matches Some(i) ==> i < self.entries().len() && self.spec_get(*file_hash) == Some(
                self.entries()[i as int].1,
            ),
    {
        let mut i: usize = self.files.len();
        let mut found: Option<usize> = None;
        while i > 0
            invariant
                i <= self.files@.len(),
                found is None ==> find_file(self.files@, *file_hash, i as int) is None,
                found matches Some(j) ==> j < self.files@.len() && find_file(self.files@, *file_hash, i as int)
                    == Some(self.files@[j as int].1),
            decreases i,
        {
            i = i - 1;
            if self.files[i].0 == *file_hash {
                found = Some(i);
            }
        }
        found
    }

    pub fn has_file(&self, file_hash: &FileId) -> (r: bool)
        ensures
            r == self.spec_get(*file_hash) is Some,
    {
        self.position(file_hash).is_some()
    }

    pub fn get_file(&self, file_hash: &FileId) -> (r: Option<&FileSource>)
        ensures
            r is None <==> self.spec_get(*file_hash) is None,
            r matches Some(f) ==> self.spec_get(*file_hash) == Some(*f),
    {
        match self.position(file_hash) {
            Some(i) => Some(&self.files[i].1),
            None => None,
        }
    }
}

} // verus!
