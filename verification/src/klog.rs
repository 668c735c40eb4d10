//! The kernel log: the lines of the ring buffer up to a level of urgency.
//!
//! Each line of the ring buffer starts with its level between angle
//! brackets, as in `<6>`; the lower the level, the more urgent the line.

use vstd::prelude::*;

verus! {

/// The highest level that a line can have.
pub const MAX_LEVEL: u8 = 7;

/// The first index at or after `i` that holds a line feed, or the length.
pub open spec fn line_end(bytes: Seq<u8>, i: int) -> int
    decreases bytes.len() - i,
{
    if i < 0 || i >= bytes.len() {
        bytes.len() as int
    } else if bytes[i] == 10 {
        i
    } else {
        line_end(bytes, i + 1)
    }
}

/// The level up to which lines are kept: the one asked for, but at most 7.
pub open spec fn capped(level: u8) -> u8 {
    if level > MAX_LEVEL {
        MAX_LEVEL
    } else {
        level
    }
}

/// Whether a line is kept: it is longer than its level mark, and its level
/// is a digit that does not exceed what is asked for.
pub open spec fn kept(line: Seq<u8>, level: u8) -> bool {
    line.len() > 3 && line[1] >= 0x30 && line[1] - 0x30 <= capped(level)
}

/// What a line contributes: itself without its level mark, ended by a line
/// feed, if it is kept; else nothing.
pub open spec fn shown(line: Seq<u8>, level: u8) -> Seq<u8> {
    if kept(line, level) {
        line.skip(3).push(10)
    } else {
        Seq::empty()
    }
}

/// The lines of the ring buffer, from position `i` on, that are kept, each
/// without its level mark and ended by a line feed. The pieces between
/// line feeds count as lines, the piece behind the last line feed too.
pub open spec fn shown_from(bytes: Seq<u8>, i: int, level: u8) -> Seq<u8>
    decreases bytes.len() - i,
{
    let k = line_end(bytes, i);
    if i < 0 || i > bytes.len() || k < i || k > bytes.len() {
        Seq::empty()
    } else if k >= bytes.len() {
        shown(bytes.subrange(i, k), level)
    } else {
        shown(bytes.subrange(i, k), level) + shown_from(bytes, k + 1, level)
    }
}

/// The kernel log up to a level: the lines that are kept, separated by line
/// feeds.
pub open spec fn kernel_log(bytes: Seq<u8>, level: u8) -> Seq<u8> {
    let all = shown_from(bytes, 0, level);
    if all.len() > 0 {
        all.drop_last()
    } else {
        all
    }
}

/// Where the line that starts at `i` ends.
fn find_line_end(bytes: &Vec<u8>, i: usize) -> (k: usize)
    requires
        i <= bytes.len(),
    ensures
        i <= k <= bytes.len(),
        k == line_end(bytes@, i as int),
{
    let mut k: usize = i;
    while k < bytes.len() && bytes[k] != 10
        invariant
            i <= k <= bytes.len(),
            line_end(bytes@, i as int) == line_end(bytes@, k as int),
        decreases bytes.len() - k,
    {
        k += 1;
    }
    k
}

/// Filters the bytes of the kernel's ring buffer: keeps the lines whose
/// level does not exceed `level`, takes their level marks off and joins
/// them by line feeds.
pub fn filter_kernel_log(level: u8, bytes: &Vec<u8>) -> (log: Vec<u8>)
    ensures
        log@ == kernel_log(bytes@, level),
{
    let max_level: u8 = if level > MAX_LEVEL {
        MAX_LEVEL
    } else {
        level
    };
    let n = bytes.len();
    let mut log: Vec<u8> = Vec::new();
    let mut pos: usize = 0;
    let mut done = false;
    while !done
        invariant
            pos <= n,
            n == bytes.len(),
            max_level == capped(level),
            !done ==> shown_from(bytes@, 0, level) == log@ + shown_from(bytes@, pos as int, level),
            done ==> shown_from(bytes@, 0, level) == log@,
        decreases n - pos + (if done { 0int } else { 1int }),
    {
        let k = find_line_end(bytes, pos);
        let ghost before = log@;
        let ghost line = bytes@.subrange(pos as int, k as int);
        if k - pos > 3 && bytes[pos + 1] >= 0x30 && bytes[pos + 1] - 0x30 <= max_level {
            let mut j: usize = pos + 3;
            while j < k
                invariant
                    pos + 3 <= j <= k <= bytes.len(),
                    log@ == before + bytes@.subrange(pos + 3, j as int),
                decreases k - j,
            {
                log.push(bytes[j]);
                assert(log@ =~= before + bytes@.subrange(pos + 3, j + 1));
                j += 1;
            }
            log.push(10);
            proof {
                assert(line[1] == bytes@[pos + 1]);
                assert(line.skip(3) =~= bytes@.subrange(pos + 3, k as int));
                assert(log@ =~= before + shown(line, level));
            }
        } else {
            proof {
                if line.len() > 3 {
                    assert(line[1] == bytes@[pos + 1]);
                }
                assert(log@ =~= before + shown(line, level));
            }
        }
        if k >= n {
            done = true;
        } else {
            proof {
                assert(before + (shown(line, level) + shown_from(bytes@, k + 1, level)) =~= (before
                    + shown(line, level)) + shown_from(bytes@, k + 1, level));
            }
            pos = k + 1;
        }
    }
    if log.len() > 0 {
        log.pop();
    }
    proof {
        assert(log@ =~= kernel_log(bytes@, level));
    }
    log
}

} // verus!
