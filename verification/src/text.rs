//! Byte-level text positions.
//!
//! Source files are handled as byte sequences. A position inside a file is
//! given either as a flat byte offset or as a (line, column) pair; the column
//! is a byte offset within its line. Both views use one convention
//! throughout the crate: lines are 1-based, columns are 0-based.
use vstd::prelude::*;

verus! {

/// The line-feed byte that terminates a line.
pub open spec fn newline_byte() -> u8 {
    '\n' as u8
}

/// Number of newline bytes strictly before offset `i`.
pub open spec fn newline_count(s: Seq<u8>, i: int) -> int
    decreases i,
{
    if i <= 0 {
        0
    } else {
        newline_count(s, i - 1) + if s[i - 1] == newline_byte() {
            1int
        } else {
            0int
        }
    }
}

/// The 1-based line number of the byte at offset `i`.
pub open spec fn line_of(s: Seq<u8>, i: int) -> int {
    1 + newline_count(s, i)
}

/// The offset at which the line holding offset `i` begins.
pub open spec fn line_start_of(s: Seq<u8>, i: int) -> int
    decreases i,
{
    if i <= 0 {
        0
    } else if s[i - 1] == newline_byte() {
        i
    } else {
        line_start_of(s, i - 1)
    }
}

/// The 0-based byte column of offset `i` within its line.
pub open spec fn col_of(s: Seq<u8>, i: int) -> int {
    i - line_start_of(s, i)
}

/// Stepping one byte forward moves the position one column to the right, or
/// to the start of the next line at a newline.
pub proof fn lemma_position_step(s: Seq<u8>, i: int)
    requires
        0 <= i < s.len(),
    ensures
        line_of(s, i + 1) == line_of(s, i) + if s[i] == newline_byte() {
            1int
        } else {
            0int
        },
        col_of(s, i + 1) == if s[i] == newline_byte() {
            0int
        } else {
            col_of(s, i) + 1
        },
{
    assert(newline_count(s, i + 1) == newline_count(s, i) + if s[i] == newline_byte() {
        1int
    } else {
        0int
    });
    assert(line_start_of(s, i + 1) == if s[i] == newline_byte() {
        i + 1
    } else {
        line_start_of(s, i)
    });
    lemma_position_bounds(s, i);
}

/// Line numbers and line starts stay within the text.
pub proof fn lemma_position_bounds(s: Seq<u8>, i: int)
    requires
        0 <= i,
    ensures
        1 <= line_of(s, i) <= i + 1,
        0 <= line_start_of(s, i) <= i,
        0 <= col_of(s, i) <= i,
    decreases i,
{
    if i > 0 {
        lemma_position_bounds(s, i - 1);
    }
}

/// Advancing over a stretch of bytes that holds no newline keeps the line
/// and widens the column by the stretch's length.
pub proof fn lemma_advance_no_newline(s: Seq<u8>, i: int, n: int)
    requires
        0 <= i,
        0 <= n,
        i + n <= s.len(),
        forall|k: int| i <= k < i + n ==> s[k] != newline_byte(),
    ensures
        line_of(s, i + n) == line_of(s, i),
        col_of(s, i + n) == col_of(s, i) + n,
    decreases n,
{
    if n > 0 {
        lemma_advance_no_newline(s, i, n - 1);
        lemma_position_step(s, i + n - 1);
    }
}

/// A position depends only on the text before it: two texts that agree up to
/// offset `i` give the byte at `i` the same line and column.
pub proof fn lemma_position_prefix(s1: Seq<u8>, s2: Seq<u8>, i: int)
    requires
        0 <= i <= s1.len(),
        i <= s2.len(),
        s1.subrange(0, i) == s2.subrange(0, i),
    ensures
        line_of(s1, i) == line_of(s2, i),
        col_of(s1, i) == col_of(s2, i),
    decreases i,
{
    if i > 0 {
        assert(s1.subrange(0, i - 1) =~= s2.subrange(0, i - 1)) by {
            assert(forall|k: int|
                0 <= k < i - 1 ==> s1.subrange(0, i)[k] == s2.subrange(0, i)[k]);
        }
        lemma_position_prefix(s1, s2, i - 1);
        assert(s1[i - 1] == s1.subrange(0, i)[i - 1]);
        assert(s2[i - 1] == s2.subrange(0, i)[i - 1]);
        lemma_position_step(s1, i - 1);
        lemma_position_step(s2, i - 1);
    }
}

/// True when two byte slices hold the same bytes.
pub fn bytes_eq(a: &[u8], b: &[u8]) -> (r: bool)
    ensures
        r <==> a@ == b@,
{
    if a.len() != b.len() {
        assert(a@ != b@) by {
            assert(a@.len() != b@.len());
        }
        return false;
    }
    let mut i: usize = 0;
    while i < a.len()
        invariant
            0 <= i <= a@.len(),
            a@.len() == b@.len(),
            forall|j: int| 0 <= j < i ==> a@[j] == b@[j],
        decreases a@.len() - i,
    {
        if a[i] != b[i] {
            return false;
        }
        i += 1;
    }
    assert(a@ =~= b@);
    true
}

/// True when the ranges `a[al..ah]` and `b[bl..bh]` hold the same bytes.
pub fn range_eq(a: &[u8], al: usize, ah: usize, b: &[u8], bl: usize, bh: usize) -> (r: bool)
    requires
        al <= ah <= a@.len(),
        bl <= bh <= b@.len(),
    ensures
        r <==> a@.subrange(al as int, ah as int) == b@.subrange(bl as int, bh as int),
{
    let ga = Ghost(a@.subrange(al as int, ah as int));
    let gb = Ghost(b@.subrange(bl as int, bh as int));
    if ah - al != bh - bl {
        assert(ga@ != gb@) by {
            assert(ga@.len() != gb@.len());
        }
        return false;
    }
    let n = ah - al;
    let mut i: usize = 0;
    while i < n
        invariant
            0 <= i <= n,
            al + n <= a@.len(),
            bl + n <= b@.len(),
            n == ah - al == bh - bl,
            ga@ == a@.subrange(al as int, ah as int),
            gb@ == b@.subrange(bl as int, bh as int),
            forall|j: int| 0 <= j < i ==> ga@[j] == gb@[j],
        decreases n - i,
    {
        if a[al + i] != b[bl + i] {
            assert(ga@[i as int] != gb@[i as int]);
            return false;
        }
        assert(ga@[i as int] == gb@[i as int]);
        i += 1;
    }
    assert(ga@ =~= gb@);
    true
}

/// Copies the bytes of `text[lo..hi]` into a fresh vector.
pub fn copy_range(text: &[u8], lo: usize, hi: usize) -> (r: Vec<u8>)
    requires
        lo <= hi <= text@.len(),
    ensures
        r@ == text@.subrange(lo as int, hi as int),
{
    let mut r: Vec<u8> = Vec::new();
    let mut i = lo;
    while i < hi
        invariant
            lo <= i <= hi <= text@.len(),
            r@ == text@.subrange(lo as int, i as int),
        decreases hi - i,
    {
        r.push(text[i]);
        assert(r@ =~= text@.subrange(lo as int, i + 1));
        i += 1;
    }
    r
}

/// The first offset at or after `j` holding a newline byte.
pub open spec fn find_newline(s: Seq<u8>, j: int) -> Option<int>
    decreases s.len() - j,
{
    if j < 0 || j >= s.len() {
        None
    } else if s[j] == newline_byte() {
        Some(j)
    } else {
        find_newline(s, j + 1)
    }
}

/// What `find_newline` returns: the nearest newline, or none in the rest
/// of the text.
pub proof fn lemma_find_newline(s: Seq<u8>, j: int)
    requires
        0 <= j <= s.len(),
    ensures
        match find_newline(s, j) {
            Some(k) => j <= k < s.len() && s[k] == newline_byte() && forall|m: int|
                j <= m < k ==> s[m] != newline_byte(),
            None => forall|m: int| j <= m < s.len() ==> s[m] != newline_byte(),
        },
    decreases s.len() - j,
{
    if j < s.len() && s[j] != newline_byte() {
        lemma_find_newline(s, j + 1);
    }
}

/// The offset at which the 1-based line `line` begins: just past the
/// newline that ends the line before it, or the end of the text where no
/// such line exists.
pub open spec fn nth_line_start(s: Seq<u8>, line: int) -> int
    decreases line,
{
    if line <= 1 {
        0
    } else {
        match find_newline(s, nth_line_start(s, line - 1)) {
            Some(j) => j + 1,
            None => s.len() as int,
        }
    }
}

/// No byte of a line before offset `i` is a newline.
pub proof fn lemma_no_newline_in_line(s: Seq<u8>, i: int)
    requires
        0 <= i,
    ensures
        forall|m: int| line_start_of(s, i) <= m < i ==> s[m] != newline_byte(),
    decreases i,
{
    if i > 0 {
        lemma_no_newline_in_line(s, i - 1);
    }
}

/// Line numbers never fall as the offset grows.
pub proof fn lemma_line_monotone(s: Seq<u8>, i: int, j: int)
    requires
        0 <= i <= j,
    ensures
        line_of(s, i) <= line_of(s, j),
    decreases j - i,
{
    if i < j {
        lemma_line_monotone(s, i, j - 1);
        assert(newline_count(s, j) >= newline_count(s, j - 1));
    }
}

/// Both conventions name the same line start: the line-counting start of
/// the line holding offset `i` is where its 1-based line number says the
/// line begins. Flat offsets and (line, column) pairs therefore convert
/// into one another without loss: `i` is `nth_line_start` of its line,
/// plus its column.
pub proof fn lemma_position_roundtrip(s: Seq<u8>, i: int)
    requires
        0 <= i <= s.len(),
    ensures
        line_start_of(s, i) == nth_line_start(s, line_of(s, i)),
        i == nth_line_start(s, line_of(s, i)) + col_of(s, i),
    decreases i,
{
    if i == 0 {
    } else {
        lemma_position_roundtrip(s, i - 1);
        lemma_position_step(s, i - 1);
        if s[i - 1] == newline_byte() {
            // The byte before `i` ends its line: the next line starts at `i`.
            let prev_line = line_of(s, i - 1);
            let start = nth_line_start(s, prev_line);
            lemma_position_bounds(s, i - 1);
            assert(start == line_start_of(s, i - 1));
            assert(0 <= start <= i - 1);
            lemma_find_newline(s, start);
            lemma_no_newline_in_line(s, i - 1);
            assert(forall|m: int| start <= m < i - 1 ==> s[m] != newline_byte());
            assert(find_newline(s, start) == Some(i - 1)) by {
                match find_newline(s, start) {
                    Some(k) => {
                        if k < i - 1 {
                            assert(start <= k < i - 1);
                            assert(s[k] != newline_byte());
                        } else if k > i - 1 {
                            assert(start <= i - 1 < k);
                            assert(s[i - 1] != newline_byte());
                        }
                    },
                    None => {
                        assert(start <= i - 1 < s.len());
                        assert(s[i - 1] != newline_byte());
                    },
                }
            }
            assert(nth_line_start(s, prev_line + 1) == i);
        }
    }
}

} // verus!

