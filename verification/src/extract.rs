//! Patch extraction.
//!
//! A patch payload is the literal source substring of the new file at a call
//! site's body span, never a re-printed form: extraction slices the raw text
//! between the quotes, with the same byte-offset convention the parser used,
//! so whitespace and formatting survive exactly.
use vstd::prelude::*;

use crate::parse::{site_at, TemplateSite};
use crate::text::{col_of, copy_range, line_of, newline_byte, nth_line_start};

verus! {

/// Slices the raw text of `text` at `site`'s body span: the bytes strictly
/// between the quotes, exactly as they stand in the file.
pub fn extract_site_body(text: &[u8], site: &TemplateSite) -> (r: Vec<u8>)
    requires
        site_at(text@, site@),
        text@.len() < usize::MAX,
    ensures
        r@ == site@.body,
{
    proof {
        assert(site.start + 9 + site.body@.len() <= text@.len());
    }
    let r = copy_range(text, site.start + 9, site.start + 9 + site.body.len());
    proof {
        assert(r@ == site@.body);
    }
    r
}

/// No two offsets share a line and a column.
pub proof fn lemma_position_unique(s: Seq<u8>, i: int, j: int)
    requires
        0 <= i <= s.len(),
        0 <= j <= s.len(),
        line_of(s, i) == line_of(s, j),
        col_of(s, i) == col_of(s, j),
    ensures
        i == j,
{
    crate::text::lemma_position_roundtrip(s, i);
    crate::text::lemma_position_roundtrip(s, j);
}

/// The flat offset of the position (`line`, `col`), found by walking the
/// text line by line under the same convention the parser used: 1-based
/// lines, 0-based byte columns. `None` where no byte or end of text has
/// that position.
#[verifier::loop_isolation(false)]
pub fn offset_of_position(text: &[u8], line: usize, col: usize) -> (r: Option<usize>)
    ensures
        r matches Some(off) ==> off <= text@.len() && line_of(text@, off as int) == line as int
            && col_of(text@, off as int) == col as int,
        r is None ==> forall|i: int|
            0 <= i <= text@.len() ==> !(line_of(text@, i) == line as int && col_of(text@, i)
                == col as int),
{
    let n = text.len();
    if line == 0 {
        proof {
            assert forall|i: int| 0 <= i <= text@.len() implies line_of(text@, i) >= 1 by {
                crate::text::lemma_position_bounds(text@, i);
            }
        }
        return None;
    }
    let mut cur: usize = 1;
    let mut ls: usize = 0;
    while cur < line
        invariant
            1 <= cur <= line,
            0 <= ls <= n,
            ls as int == nth_line_start(text@, cur as int),
            line_of(text@, ls as int) == cur as int,
            col_of(text@, ls as int) == 0,
        decreases line - cur,
    {
        let mut j = ls;
        while j < n && text[j] != ('\n' as u8)
            invariant
                ls <= j <= n,
                forall|m: int| ls <= m < j ==> text@[m] != newline_byte(),
            decreases n - j,
        {
            j += 1;
        }
        proof {
            crate::text::lemma_find_newline(text@, ls as int);
        }
        if j >= n {
            // The text ends inside line `cur`: no later line exists.
            proof {
                crate::text::lemma_advance_no_newline(text@, ls as int, n - ls);
                assert(line_of(text@, n as int) == cur as int);
                assert forall|i: int|
                    0 <= i <= text@.len() implies !(line_of(text@, i) == line as int && col_of(
                    text@,
                    i,
                ) == col as int) by {
                    crate::text::lemma_line_monotone(text@, i, n as int);
                }
            }
            return None;
        }
        proof {
            assert(crate::text::find_newline(text@, ls as int) == Some(j as int)) by {
                match crate::text::find_newline(text@, ls as int) {
                    Some(k) => {
                        if k < j {
                            assert(text@[k] != newline_byte());
                        } else if k > j {
                            assert(text@[j as int] != newline_byte());
                        }
                    },
                    None => {
                        assert(text@[j as int] != newline_byte());
                    },
                }
            }
            crate::text::lemma_advance_no_newline(text@, ls as int, j - ls);
            assert(line_of(text@, j as int) == cur as int);
            crate::text::lemma_position_step(text@, j as int);
            assert(nth_line_start(text@, cur + 1int) == j + 1);
        }
        ls = j + 1;
        cur += 1;
    }
    // `ls` starts line `line`; the position lies `col` bytes further, all
    // of them within this line.
    let mut j = ls;
    while j < n && j - ls < col && text[j] != ('\n' as u8)
        invariant
            ls <= j <= n,
            j - ls <= col,
            forall|m: int| ls <= m < j ==> text@[m] != newline_byte(),
        decreases n - j,
    {
        j += 1;
    }
    if j - ls < col {
        // The line ends, or the text ends, before column `col`.
        proof {
            assert forall|i: int|
                0 <= i <= text@.len() implies !(line_of(text@, i) == line as int && col_of(
                text@,
                i,
            ) == col as int) by {
                if line_of(text@, i) == line as int && col_of(text@, i) == col as int {
                    crate::text::lemma_position_roundtrip(text@, i);
                    assert(i == ls + col);
                    crate::text::lemma_no_newline_in_line(text@, i);
                    assert(crate::text::line_start_of(text@, i) == ls as int);
                    if j < n {
                        assert(text@[j as int] != newline_byte());
                    }
                }
            }
        }
        return None;
    }
    proof {
        crate::text::lemma_advance_no_newline(text@, ls as int, col as int);
    }
    Some(j)
}

/// Slices the raw text between two positions given as (line, column)
/// pairs, under the same offset convention the parser used: the start
/// position's byte up to, not including, the end position's. `None` where
/// either position does not exist in the text or the span is reversed.
pub fn extract_span(
    text: &[u8],
    start_line: usize,
    start_col: usize,
    end_line: usize,
    end_col: usize,
) -> (r: Option<Vec<u8>>)
    ensures
        forall|lo: int, hi: int|
            (0 <= lo <= hi <= text@.len() && line_of(text@, lo) == start_line as int && col_of(
                text@,
                lo,
            ) == start_col as int && line_of(text@, hi) == end_line as int && col_of(text@, hi)
                == end_col as int) ==> (r matches Some(v) && v@ == text@.subrange(lo, hi)),
        r is Some ==> exists|lo: int, hi: int|
            #![auto]
            0 <= lo <= hi <= text@.len() && line_of(text@, lo) == start_line as int && col_of(
                text@,
                lo,
            ) == start_col as int && line_of(text@, hi) == end_line as int && col_of(text@, hi)
                == end_col as int,
{
    let lo = match offset_of_position(text, start_line, start_col) {
        Some(off) => off,
        None => {
            return None;
        },
    };
    let hi = match offset_of_position(text, end_line, end_col) {
        Some(off) => off,
        None => {
            return None;
        },
    };
    if lo > hi {
        proof {
            assert forall|l: int, h: int|
                (0 <= l <= h <= text@.len() && line_of(text@, l) == start_line as int && col_of(
                    text@,
                    l,
                ) == start_col as int && line_of(text@, h) == end_line as int && col_of(text@, h)
                    == end_col as int) implies false by {
                lemma_position_unique(text@, l, lo as int);
                lemma_position_unique(text@, h, hi as int);
            }
        }
        return None;
    }
    let v = copy_range(text, lo, hi);
    proof {
        assert forall|l: int, h: int|
            (0 <= l <= h <= text@.len() && line_of(text@, l) == start_line as int && col_of(
                text@,
                l,
            ) == start_col as int && line_of(text@, h) == end_line as int && col_of(text@, h)
                == end_col as int) implies v@ == text@.subrange(l, h) by {
            lemma_position_unique(text@, l, lo as int);
            lemma_position_unique(text@, h, hi as int);
        }
    }
    Some(v)
}

} // verus!

