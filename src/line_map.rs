//! Coordinate index of one text: byte offsets on one side, protocol
//! positions (line, UTF-16 code units into the line) on the other.
use vstd::prelude::*;
use vstd::utf8::{encode_scalar, encode_utf8, is_scalar};

verus! {

/// Number of bytes that `c` takes in UTF-8.
pub open spec fn utf8_width(c: char) -> nat {
    let v = c as u32;
    if v <= 0x7F {
        1
    } else if v <= 0x7FF {
        2
    } else if v <= 0xFFFF {
        3
    } else {
        4
    }
}

/// Number of UTF-16 code units that `c` takes: two for a character outside
/// the Basic Multilingual Plane, one otherwise.
pub open spec fn utf16_width(c: char) -> nat {
    if (c as u32) <= 0xFFFF {
        1
    } else {
        2
    }
}

/// Byte offset of the character at index `i` of `t`.
pub open spec fn byte_offset(t: Seq<char>, i: int) -> nat
    decreases i,
{
    if i <= 0 {
        0
    } else {
        byte_offset(t, i - 1) + utf8_width(t[i - 1])
    }
}

/// Size of the whole text in bytes.
pub open spec fn byte_len(t: Seq<char>) -> nat {
    byte_offset(t, t.len() as int)
}

/// 0-based line of character index `i`: the newlines before it.
pub open spec fn line_at(t: Seq<char>, i: int) -> nat
    decreases i,
{
    if i <= 0 {
        0
    } else {
        line_at(t, i - 1) + if t[i - 1] == '\n' {
            1nat
        } else {
            0nat
        }
    }
}

/// UTF-16 code units from the start of the line to character index `i`.
pub open spec fn col_at(t: Seq<char>, i: int) -> nat
    decreases i,
{
    if i <= 0 {
        0
    } else if t[i - 1] == '\n' {
        0
    } else {
        col_at(t, i - 1) + utf16_width(t[i - 1])
    }
}

/// Index of the last line of `t`.
pub open spec fn last_line(t: Seq<char>) -> nat {
    line_at(t, t.len() as int)
}

/// `o` lies on a character boundary of `t` (its end included).
pub open spec fn is_boundary(t: Seq<char>, o: int) -> bool {
    exists|i: int| 0 <= i <= t.len() && byte_offset(t, i) == o
}

/// The character index at byte offset `o`, for a boundary `o`.
pub open spec fn char_index_of(t: Seq<char>, o: int) -> int {
    choose|i: int| 0 <= i <= t.len() && byte_offset(t, i) == o
}

/// The line that a position on line `line` falls on: the last line where
/// `line` lies beyond it.
pub open spec fn clamp_line(t: Seq<char>, line: int) -> nat {
    if line < last_line(t) {
        line as nat
    } else {
        last_line(t)
    }
}

/// `j` is the character index that position (`line`, `character`) denotes:
/// the last index on the clamped line whose column does not exceed
/// `character`.
pub open spec fn pos_target(t: Seq<char>, line: int, character: int, j: int) -> bool {
    &&& 0 <= j <= t.len()
    &&& line_at(t, j) == clamp_line(t, line)
    &&& col_at(t, j) <= character
    &&& forall|k: int|
        j < k <= t.len() && #[trigger] line_at(t, k) == clamp_line(t, line) ==> col_at(t, k)
            > character
}

/// Character index that position (`line`, `character`) denotes.
pub open spec fn pos_index(t: Seq<char>, line: int, character: int) -> int {
    choose|j: int| pos_target(t, line, character, j)
}

/// Byte offset that position (`line`, `character`) denotes.
pub open spec fn pos_offset(t: Seq<char>, line: int, character: int) -> nat {
    byte_offset(t, pos_index(t, line, character))
}

/// Line of byte offset `o`.
pub open spec fn line_of_offset(t: Seq<char>, o: int) -> nat {
    line_at(t, char_index_of(t, o))
}

/// Column of byte offset `o`, in UTF-16 code units.
pub open spec fn col_of_offset(t: Seq<char>, o: int) -> nat {
    col_at(t, char_index_of(t, o))
}

/// A character takes one or two UTF-16 units, never more than its UTF-8
/// bytes.
pub proof fn lemma_utf16_le_utf8(c: char)
    ensures
        1 <= utf16_width(c) <= utf8_width(c),
{
}

/// Each character takes at least one byte, so offsets grow strictly.
pub proof fn lemma_byte_offset_grows(t: Seq<char>, i: int, k: int)
    requires
        0 <= i <= k,
    ensures
        byte_offset(t, i) + (k - i) <= byte_offset(t, k),
    decreases k - i,
{
    if i < k {
        lemma_byte_offset_grows(t, i, k - 1);
    }
}

/// The byte offset after the first character counts that character, then
/// the offsets of the rest.
proof fn lemma_byte_offset_drop_first(t: Seq<char>, i: int)
    requires
        1 <= i <= t.len(),
    ensures
        byte_offset(t, i) == utf8_width(t[0]) + byte_offset(t.drop_first(), i - 1),
    decreases i,
{
    let d = t.drop_first();
    if i > 1 {
        lemma_byte_offset_drop_first(t, i - 1);
        assert(d[i - 2] == t[i - 1]);
        assert(byte_offset(d, i - 1) == byte_offset(d, i - 2) + utf8_width(d[i - 2]));
    } else {
        assert(byte_offset(t, 1) == byte_offset(t, 0) + utf8_width(t[0]));
        assert(byte_offset(d, 0) == 0);
    }
}

/// The widths counted here are those of vstd's UTF-8 encoding: the byte
/// length of a text is that of its encoding.
pub proof fn lemma_byte_len_is_utf8_len(t: Seq<char>)
    ensures
        byte_len(t) == encode_utf8(t).len(),
    decreases t.len(),
{
    if t.len() > 0 {
        let c = t[0];
        vstd::utf8::char_is_scalar(c);
        let v = c as u32;
        assert(is_scalar(v));
        assert(encode_scalar(v).len() == utf8_width(c));
        lemma_byte_offset_drop_first(t, t.len() as int);
        lemma_byte_len_is_utf8_len(t.drop_first());
    }
}

/// A boundary offset belongs to exactly one character index.
pub proof fn lemma_char_index_of(t: Seq<char>, i: int)
    requires
        0 <= i <= t.len(),
    ensures
        is_boundary(t, byte_offset(t, i) as int),
        char_index_of(t, byte_offset(t, i) as int) == i,
{
    let o = byte_offset(t, i) as int;
    assert(0 <= i <= t.len() && byte_offset(t, i) == o);
    let j = char_index_of(t, o);
    if j < i {
        lemma_byte_offset_grows(t, j, i);
    } else if i < j {
        lemma_byte_offset_grows(t, i, j);
    }
}

pub proof fn lemma_line_grows(t: Seq<char>, i: int, k: int)
    requires
        0 <= i <= k,
    ensures
        line_at(t, i) <= line_at(t, k) <= line_at(t, i) + (k - i),
    decreases k - i,
{
    if i < k {
        lemma_line_grows(t, i, k - 1);
    }
}

/// Within one line the column grows by at least one unit per character, and
/// no newline lies between.
pub proof fn lemma_col_grows(t: Seq<char>, i: int, k: int)
    requires
        0 <= i <= k,
        line_at(t, i) == line_at(t, k),
    ensures
        col_at(t, i) + (k - i) <= col_at(t, k),
        forall|m: int| i <= m < k ==> t[m] != '\n',
    decreases k - i,
{
    if i < k {
        lemma_line_grows(t, i, k - 1);
        assert(t[k - 1] != '\n');
        lemma_col_grows(t, i, k - 1);
        lemma_utf16_le_utf8(t[k - 1]);
    }
}

/// Columns and lines never exceed the byte offset.
pub proof fn lemma_col_line_le_bytes(t: Seq<char>, i: int)
    requires
        0 <= i,
    ensures
        col_at(t, i) <= byte_offset(t, i),
        line_at(t, i) <= byte_offset(t, i),
    decreases i,
{
    if i > 0 {
        lemma_col_line_le_bytes(t, i - 1);
        lemma_utf16_le_utf8(t[i - 1]);
    }
}

/// Two indices that both meet `pos_target` are the same.
pub proof fn lemma_pos_target_unique(t: Seq<char>, line: int, character: int, j1: int, j2: int)
    requires
        pos_target(t, line, character, j1),
        pos_target(t, line, character, j2),
    ensures
        j1 == j2,
{
    if j1 < j2 {
        assert(line_at(t, j2) == clamp_line(t, line));
    } else if j2 < j1 {
        assert(line_at(t, j1) == clamp_line(t, line));
    }
}

/// Some index of `t` starts line `l`, for every line up to the one of index `i`.
pub proof fn lemma_line_start_exists(t: Seq<char>, i: int, l: int)
    requires
        0 <= i <= t.len(),
        0 <= l <= line_at(t, i),
    ensures
        exists|j: int|
            0 <= j <= i && line_at(t, j) == l && #[trigger] col_at(t, j) == 0,
    decreases i,
{
    if i == 0 {
        assert(line_at(t, 0) == l && col_at(t, 0) == 0);
    } else if line_at(t, i - 1) >= l {
        lemma_line_start_exists(t, i - 1, l);
    } else {
        assert(t[i - 1] == '\n');
        assert(line_at(t, i) == l && col_at(t, i) == 0);
    }
}

/// Walking right along the clamped line from `j` reaches the index that the
/// position denotes.
pub proof fn lemma_pos_target_from(t: Seq<char>, line: int, character: int, j: int)
    requires
        0 <= j <= t.len(),
        line_at(t, j) == clamp_line(t, line),
        col_at(t, j) <= character,
    ensures
        pos_target(t, line, character, pos_index(t, line, character)),
    decreases t.len() - j,
{
    if j < t.len() && t[j] != '\n' && col_at(t, j + 1) <= character {
        lemma_pos_target_from(t, line, character, j + 1);
    } else {
        assert forall|k: int|
            j < k <= t.len() && #[trigger] line_at(t, k) == clamp_line(t, line) implies col_at(t, k)
            > character by {
            lemma_line_grows(t, j, j + 1);
            lemma_line_grows(t, j + 1, k);
            lemma_col_grows(t, j + 1, k);
        }
        assert(pos_target(t, line, character, j));
    }
}

/// Every position denotes exactly one index.
pub proof fn lemma_pos_target_exists(t: Seq<char>, line: int, character: int)
    requires
        0 <= line,
        0 <= character,
    ensures
        pos_target(t, line, character, pos_index(t, line, character)),
{
    lemma_line_grows(t, 0, t.len() as int);
    lemma_line_start_exists(t, t.len() as int, clamp_line(t, line) as int);
    let j = choose|j: int|
        0 <= j <= t.len() && line_at(t, j) == clamp_line(t, line) && #[trigger] col_at(t, j) == 0;
    lemma_pos_target_from(t, line, character, j);
}

/// Converting a boundary offset to a position and back gives the offset.
pub proof fn lemma_round_trip(t: Seq<char>, o: int)
    requires
        is_boundary(t, o),
    ensures
        pos_offset(t, line_of_offset(t, o) as int, col_of_offset(t, o) as int) == o,
{
    let i = char_index_of(t, o);
    let l = line_at(t, i) as int;
    let c = col_at(t, i) as int;
    lemma_line_grows(t, i, t.len() as int);
    assert forall|k: int| i < k <= t.len() && #[trigger] line_at(t, k) == clamp_line(t, l) implies col_at(
        t,
        k,
    ) > c by {
        lemma_col_grows(t, i, k);
    }
    assert(pos_target(t, l, c, i));
    lemma_pos_target_unique(t, l, c, i, pos_index(t, l, c));
}

/// A character of four UTF-8 bytes (outside the Basic Multilingual Plane)
/// takes two columns and an ASCII character one: after such a pair at the
/// start of a line the columns are 2 and 3.
pub proof fn lemma_wide_char_columns(t: Seq<char>, i: int)
    requires
        0 <= i,
        i + 2 <= t.len(),
        utf8_width(t[i]) == 4,
        utf8_width(t[i + 1]) == 1,
        t[i + 1] != '\n',
    ensures
        byte_offset(t, i + 1) == byte_offset(t, i) + 4,
        byte_offset(t, i + 2) == byte_offset(t, i) + 5,
        col_of_offset(t, byte_offset(t, i + 1) as int) == col_at(t, i) + 2,
        col_of_offset(t, byte_offset(t, i + 2) as int) == col_at(t, i) + 3,
        (i == 0 || t[i - 1] == '\n') ==> col_of_offset(t, byte_offset(t, i + 1) as int) == 2,
        (i == 0 || t[i - 1] == '\n') ==> col_of_offset(t, byte_offset(t, i + 2) as int) == 3,
{
    lemma_char_index_of(t, i + 1);
    lemma_char_index_of(t, i + 2);
    assert(t[i] != '\n');
    assert(col_at(t, i + 1) == col_at(t, i) + 2);
    assert(col_at(t, i + 2) == col_at(t, i) + 3);
}

/// A column at or past the end of its line gives the line's end, however
/// far past it lies.
pub proof fn lemma_pos_clamps_column(t: Seq<char>, line: int, c1: int, c2: int)
    requires
        0 <= line,
        0 <= c1 <= c2,
        forall|k: int|
            0 <= k <= t.len() && #[trigger] line_at(t, k) == clamp_line(t, line) ==> col_at(t, k)
                <= c1,
    ensures
        pos_offset(t, line, c2) == pos_offset(t, line, c1),
{
    lemma_pos_target_exists(t, line, c1);
    let j = pos_index(t, line, c1);
    assert(pos_target(t, line, c2, j));
    lemma_pos_target_exists(t, line, c2);
    lemma_pos_target_unique(t, line, c2, j, pos_index(t, line, c2));
}

/// UTF-8 width of `c`, in bytes.
pub fn utf8_width_of(c: char) -> (r: u32)
    ensures
        r == utf8_width(c),
{
    let v = c as u32;
    if v <= 0x7F {
        1
    } else if v <= 0x7FF {
        2
    } else if v <= 0xFFFF {
        3
    } else {
        4
    }
}

/// UTF-16 width of `c`, in code units.
pub fn utf16_width_of(c: char) -> (r: u32)
    ensures
        r == utf16_width(c),
{
    if (c as u32) <= 0xFFFF {
        1
    } else {
        2
    }
}

/// Coordinate index of one text snapshot. Lines end at '\n'; a '\r'
/// before it is a character of the line. Built once in linear time; each
/// query is a binary search.
pub struct LineMap {
    chars: Vec<char>,
    /// Byte offset of each character index, the end included.
    offsets: Vec<u32>,
    /// Line of each character index, the end included.
    lines: Vec<u32>,
    /// Column of each character index, the end included.
    cols: Vec<u32>,
    /// Character index at which each line starts.
    line_starts: Vec<usize>,
}

impl View for LineMap {
    type V = Seq<char>;

    closed spec fn view(&self) -> Seq<char> {
        self.chars@
    }
}

impl LineMap {
    /// The tables hold the offset, line and column of every character
    /// index, and the start of every line.
    #[verifier::type_invariant]
    closed spec fn inv(&self) -> bool {
        let t = self.chars@;
        &&& byte_len(t) <= u32::MAX
        &&& self.offsets@.len() == t.len() + 1
        &&& self.lines@.len() == t.len() + 1
        &&& self.cols@.len() == t.len() + 1
        &&& forall|i: int| 0 <= i <= t.len() ==> #[trigger] self.offsets@[i] == byte_offset(t, i)
        &&& forall|i: int| 0 <= i <= t.len() ==> #[trigger] self.lines@[i] == line_at(t, i)
        &&& forall|i: int| 0 <= i <= t.len() ==> #[trigger] self.cols@[i] == col_at(t, i)
        &&& self.line_starts@.len() == last_line(t) + 1
        &&& forall|l: int|
            0 <= l < self.line_starts@.len() ==> {
                let s = #[trigger] self.line_starts@[l] as int;
                s <= t.len() && line_at(t, s) == l && col_at(t, s) == 0
            }
    }

    /// The text fits the protocol's 32-bit offsets.
    pub open spec fn wf(&self) -> bool {
        byte_len(self@) <= u32::MAX
    }

    /// Builds the index of `text`.
    pub fn new(text: &str) -> (r: LineMap)
        requires
            byte_len(text@) <= u32::MAX,
        ensures
            r@ == text@,
            r.wf(),
    {
        let mut chars: Vec<char> = Vec::new();
        for c in it: text.chars()
            invariant
                chars@ == it.seq().take(it.index() as int),
        {
            chars.push(c);
        }
        assert(chars@ == text@);
        let ghost t = chars@;
        let n = chars.len();
        let mut offsets: Vec<u32> = Vec::new();
        let mut lines: Vec<u32> = Vec::new();
        let mut cols: Vec<u32> = Vec::new();
        let mut line_starts: Vec<usize> = Vec::new();
        offsets.push(0);
        lines.push(0);
        cols.push(0);
        line_starts.push(0);
        let mut i: usize = 0;
        let mut b: u32 = 0;
        let mut line: u32 = 0;
        let mut col: u32 = 0;
        while i < n
            invariant
                t == chars@,
                n == t.len(),
                i <= n,
                byte_len(t) <= u32::MAX,
                offsets@.len() == i + 1,
                lines@.len() == i + 1,
                cols@.len() == i + 1,
                forall|j: int| 0 <= j <= i ==> #[trigger] offsets@[j] == byte_offset(t, j),
                forall|j: int| 0 <= j <= i ==> #[trigger] lines@[j] == line_at(t, j),
                forall|j: int| 0 <= j <= i ==> #[trigger] cols@[j] == col_at(t, j),
                b == byte_offset(t, i as int),
                line == line_at(t, i as int),
                col == col_at(t, i as int),
                line_starts@.len() == line + 1,
                forall|l: int|
                    0 <= l < line_starts@.len() ==> {
                        let s = #[trigger] line_starts@[l] as int;
                        s <= i && line_at(t, s) == l && col_at(t, s) == 0
                    },
            decreases n - i,
        {
            proof {
                lemma_byte_offset_grows(t, i + 1, t.len() as int);
                lemma_col_line_le_bytes(t, i + 1);
            }
            let c = chars[i];
            b = b + utf8_width_of(c);
            if c == '\n' {
                line = line + 1;
                col = 0;
                line_starts.push(i + 1);
            } else {
                col = col + utf16_width_of(c);
            }
            i = i + 1;
            offsets.push(b);
            lines.push(line);
            cols.push(col);
        }
        LineMap { chars, offsets, lines, cols, line_starts }
    }

    /// Protocol position (line, UTF-16 column) of byte offset `offset`.
    pub fn line_col(&self, offset: u32) -> (r: (u32, u32))
        requires
            self.wf(),
            is_boundary(self@, offset as int),
        ensures
            r.0 == line_of_offset(self@, offset as int),
            r.1 == col_of_offset(self@, offset as int),
    {
        proof {
            use_type_invariant(self);
        }
        let ghost t = self@;
        let ghost k = char_index_of(t, offset as int);
        proof {
            lemma_char_index_of(t, k);
        }
        let mut lo: usize = 0;
        let mut hi: usize = self.chars.len();
        while lo < hi
            invariant
                self.inv(),
                t == self@,
                0 <= lo <= k <= hi <= t.len(),
                byte_offset(t, k) == offset,
            decreases hi - lo,
        {
            let mid = lo + (hi - lo) / 2;
            if self.offsets[mid] < offset {
                proof {
                    if mid >= k {
                        lemma_byte_offset_grows(t, k, mid as int);
                    }
                }
                lo = mid + 1;
            } else {
                proof {
                    if mid < k {
                        lemma_byte_offset_grows(t, mid as int, k);
                    }
                }
                hi = mid;
            }
        }
        (self.lines[lo], self.cols[lo])
    }

    /// Byte offset of protocol position (`line`, `character`). A line past
    /// the last one stands for the last line; a column past the end of the
    /// line stands for the line's end (before its newline). A column that
    /// falls inside a character stands for that character's start.
    pub fn pos(&self, line: u32, character: u32) -> (r: u32)
        requires
            self.wf(),
        ensures
            r == pos_offset(self@, line as int, character as int),
    {
        proof {
            use_type_invariant(self);
        }
        let ghost t = self@;
        let n = self.chars.len();
        let last = self.line_starts.len() - 1;
        let l: usize = if (line as usize) < last {
            line as usize
        } else {
            last
        };
        assert(l == clamp_line(t, line as int));
        let s = self.line_starts[l];
        let e: usize = if l < last {
            let next = self.line_starts[l + 1];
            assert(line_at(t, next as int) == l + 1);
            assert(next > 0);
            assert(t[next - 1] == '\n') by {
                if t[next - 1] != '\n' {
                    lemma_utf16_le_utf8(t[next - 1]);
                }
            }
            next - 1
        } else {
            n
        };
        assert(line_at(t, e as int) == l);
        assert(s <= e) by {
            if s > e {
                lemma_line_grows(t, e + 1, s as int);
            }
        }
        assert forall|k: int| 0 <= k <= t.len() && #[trigger] line_at(t, k) == l implies k <= e by {
            if k > e {
                lemma_line_grows(t, e + 1, k);
            }
        }
        assert forall|j: int| s <= j <= e implies #[trigger] line_at(t, j) == l by {
            lemma_line_grows(t, s as int, j);
            lemma_line_grows(t, j, e as int);
        }
        let mut lo: usize = s;
        let mut hi: usize = e;
        while lo < hi
            invariant
                self.inv(),
                t == self@,
                s <= lo <= hi <= e <= t.len(),
                forall|j: int| s <= j <= e ==> #[trigger] line_at(t, j) == l,
                col_at(t, lo as int) <= character,
                forall|j: int| hi < j <= e ==> #[trigger] col_at(t, j) > character,
            decreases hi - lo,
        {
            let mid = hi - (hi - lo) / 2;
            if self.cols[mid] <= character {
                lo = mid;
            } else {
                assert forall|j: int| mid <= j <= e implies #[trigger] col_at(t, j) > character by {
                    assert(line_at(t, mid as int) == l);
                    assert(line_at(t, j) == l);
                    lemma_col_grows(t, mid as int, j);
                }
                hi = mid - 1;
            }
        }
        proof {
            assert(pos_target(t, line as int, character as int, lo as int));
            lemma_pos_target_unique(
                t,
                line as int,
                character as int,
                lo as int,
                pos_index(t, line as int, character as int),
            );
        }
        self.offsets[lo]
    }
}

} // verus!
