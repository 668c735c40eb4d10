//! Where a device is mounted, as the kernel's mount table tells it.

use crate::text::{chars_of, fields, lines, next_line, slice_of, split_fields};
use vstd::prelude::*;

verus! {

/// The mount point that one line of the mount table gives for a device:
/// the fifth field, if the ninth field is the device.
pub open spec fn line_mountpoint(line: Seq<char>, dev: Seq<char>) -> Option<Seq<char>> {
    let f = fields(line);
    if f.len() > 8 && f[8] == dev {
        Some(f[4])
    } else {
        None
    }
}

/// The mount point that the first of the given lines that names the device
/// gives for it.
pub open spec fn lines_mountpoint(ls: Seq<Seq<char>>, dev: Seq<char>) -> Option<Seq<char>>
    decreases ls.len(),
{
    if ls.len() == 0 {
        None
    } else {
        match line_mountpoint(ls[0], dev) {
            Some(mountpoint) => Some(mountpoint),
            None => lines_mountpoint(ls.drop_first(), dev),
        }
    }
}

/// The mount point of a device according to the text of a mount table, as
/// `/proc/self/mountinfo` holds it: that of the first line whose ninth
/// field is the device.
pub open spec fn mountpoint_of(source: Seq<char>, dev: Seq<char>) -> Option<Seq<char>> {
    lines_mountpoint(lines(source), dev)
}

/// Looks a device up in the text of a mount table and returns where it is
/// mounted, if it is.
pub fn mountinfo_from_source(source: &str, dev: &str) -> (r: Option<String>)
    ensures
        match mountpoint_of(source@, dev@) {
            Some(mountpoint) => r matches Some(found) && found@ == mountpoint,
            None => r is None,
        },
{
    let text = chars_of(source);
    let mut pos: usize = 0;
    proof {
        assert(text@.skip(0) =~= text@);
    }
    while pos < text.len()
        invariant
            pos <= text.len(),
            text@ == source@,
            mountpoint_of(source@, dev@) == lines_mountpoint(lines(text@.skip(pos as int)), dev@),
        decreases text.len() - pos,
    {
        let (end, next) = next_line(&text, pos);
        let line = slice_of(&text, pos, end);
        proof {
            let ls = seq![line@] + lines(text@.skip(next as int));
            assert(ls[0] == line@);
            assert(ls.drop_first() =~= lines(text@.skip(next as int)));
        }
        let mut found = split_fields(&line);
        if found.len() > 8 && crate::text::same_text(found[8].as_str(), dev) {
            let mountpoint = found.swap_remove(4);
            return Some(mountpoint);
        }
        pos = next;
    }
    proof {
        assert(text@.skip(pos as int).len() == 0);
    }
    None
}

} // verus!
