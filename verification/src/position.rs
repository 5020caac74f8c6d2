//! The position translator: byte offsets into line/column pairs.
//! Lines count line-break bytes before the offset; columns count the
//! characters (UTF-8 leading bytes, not raw bytes) since the most recent
//! line break. Both are zero-based, for lines and columns, starts and
//! ends alike.
use vstd::prelude::*;

verus! {

/// How many line breaks lie in `src[0..off]`.
pub open spec fn line_of(src: Seq<u8>, off: int) -> int
    decreases off,
{
    if off <= 0 {
        0
    } else {
        line_of(src, off - 1) + if src[off - 1] == '\n' as u8 {
            1int
        } else {
            0int
        }
    }
}

/// The offset just past the last line break before `off` (0 if none).
pub open spec fn line_start_of(src: Seq<u8>, off: int) -> int
    decreases off,
{
    if off <= 0 {
        0
    } else if src[off - 1] == '\n' as u8 {
        off
    } else {
        line_start_of(src, off - 1)
    }
}

/// Is `b` a UTF-8 continuation byte (not the first byte of a character)?
pub open spec fn is_cont_byte(b: u8) -> bool {
    b & 192u8 == 128u8
}

/// How many characters (non-continuation bytes) lie in `src[a..b]`.
pub open spec fn char_count(src: Seq<u8>, a: int, b: int) -> int
    decreases b - a,
{
    if b <= a {
        0
    } else {
        char_count(src, a, b - 1) + if is_cont_byte(src[b - 1]) {
            0int
        } else {
            1int
        }
    }
}

/// The column of `off`: characters since the most recent line break.
pub open spec fn col_of(src: Seq<u8>, off: int) -> int {
    char_count(src, line_start_of(src, off), off)
}

/// Computes the zero-based line and column of a byte offset.
pub fn to_position(src: &Vec<u8>, off: usize) -> (r: (usize, usize))
    requires
        off <= src@.len(),
    ensures
        r.0 == line_of(src@, off as int),
        r.1 == col_of(src@, off as int),
{
    let mut line: usize = 0;
    let mut ls: usize = 0;
    let mut j: usize = 0;
    while j < off
        invariant
            j <= off <= src@.len(),
            line <= j,
            ls <= j,
            line == line_of(src@, j as int),
            ls == line_start_of(src@, j as int),
        decreases off - j,
    {
        if src[j] == '\n' as u8 {
            line += 1;
            ls = j + 1;
        }
        j += 1;
    }
    let mut col: usize = 0;
    let mut j2: usize = ls;
    while j2 < off
        invariant
            ls <= j2 <= off <= src@.len(),
            col <= j2,
            ls == line_start_of(src@, off as int),
            col == char_count(src@, ls as int, j2 as int),
        decreases off - j2,
    {
        let b = src[j2];
        if b & 192u8 != 128u8 {
            col += 1;
        }
        j2 += 1;
    }
    (line, col)
}

} // verus!
