//! The file system probe: it tells from the first bytes of a block device
//! whether the device holds ext4 or FAT, and reads UUID and label.

use crate::device::FsType;
use crate::text::push_char;
use vstd::prelude::*;
use vstd::utf8::{decode_utf8, valid_utf8};

verus! {

/// The number of bytes that the probe reads from the start of a device.
pub const PROBE_LENGTH: usize = 2048;

/// Where the superblock of ext4 starts.
pub const EXT4_SUPERBLOCK: usize = 1024;

/// The text that bytes stand for.
///
/// Trusted: `String::from_utf8_lossy` of the standard library returns the
/// text that the bytes encode where they are valid UTF-8. Where they are
/// not, it puts a replacement character for what is invalid; of that case
/// nothing is claimed.
#[verifier::external_body]
fn text_of_bytes(bytes: &Vec<u8>) -> (text: String)
    ensures
        valid_utf8(bytes@) ==> text@ == decode_utf8(bytes@),
{
    String::from_utf8_lossy(bytes.as_slice()).into_owned()
}

/// The digit that stands for a number below 16 in base 16, with letters
/// in upper or lower case.
pub open spec fn hex_digit(n: int, upper_case: bool) -> char {
    if 0 <= n < 10 {
        (48 + n) as u8 as char
    } else if upper_case {
        (65 + n - 10) as u8 as char
    } else {
        (97 + n - 10) as u8 as char
    }
}

/// The two digits that stand for a byte in base 16.
pub open spec fn hex_byte(b: u8, upper_case: bool) -> Seq<char> {
    seq![hex_digit(b as int / 16, upper_case), hex_digit(b as int % 16, upper_case)]
}

/// The digits that stand for a run of bytes in base 16, byte by byte.
pub open spec fn hex(bytes: Seq<u8>, upper_case: bool) -> Seq<char>
    decreases bytes.len(),
{
    if bytes.len() == 0 {
        Seq::empty()
    } else {
        hex(bytes.drop_last(), upper_case) + hex_byte(bytes.last(), upper_case)
    }
}

/// The canonical form of a UUID of 16 bytes: 32 digits of base 16 in lower
/// case, in groups of 8, 4, 4, 4 and 12 digits with hyphens between them.
pub open spec fn uuid_text(bytes: Seq<u8>) -> Seq<char> {
    hex(bytes.subrange(0, 4), false) + seq!['-'] + hex(bytes.subrange(4, 6), false) + seq!['-']
        + hex(bytes.subrange(6, 8), false) + seq!['-'] + hex(bytes.subrange(8, 10), false)
        + seq!['-'] + hex(bytes.subrange(10, 16), false)
}

/// The form of a volume serial of 4 bytes, which hold a number with its
/// low byte first: the number in 8 digits of base 16 in upper case, with a
/// hyphen in the middle.
pub open spec fn serial_text(bytes: Seq<u8>) -> Seq<char> {
    hex_byte(bytes[3], true) + hex_byte(bytes[2], true) + seq!['-'] + hex_byte(bytes[1], true)
        + hex_byte(bytes[0], true)
}

/// The first index at or after `i` that holds a zero byte, or the length.
pub open spec fn first_zero(bytes: Seq<u8>, i: int) -> int
    decreases bytes.len() - i,
{
    if i < 0 || i >= bytes.len() {
        bytes.len() as int
    } else if bytes[i] == 0 {
        i
    } else {
        first_zero(bytes, i + 1)
    }
}

/// Bytes up to the first zero byte.
pub open spec fn until_zero(bytes: Seq<u8>) -> Seq<u8> {
    let k = first_zero(bytes, 0);
    if 0 <= k <= bytes.len() {
        bytes.take(k)
    } else {
        bytes
    }
}

/// Bytes without the spaces at their end.
pub open spec fn without_padding(bytes: Seq<u8>) -> Seq<u8>
    decreases bytes.len(),
{
    if bytes.len() > 0 && bytes.last() == 0x20 {
        without_padding(bytes.drop_last())
    } else {
        bytes
    }
}

/// The number that two bytes hold, low byte first.
pub open spec fn le16(bytes: Seq<u8>, at: int) -> int {
    bytes[at] as int + 256 * (bytes[at + 1] as int)
}

/// The number that four bytes hold, low byte first.
pub open spec fn le32(bytes: Seq<u8>, at: int) -> int {
    bytes[at] as int + 256 * (bytes[at + 1] as int) + 65536 * (bytes[at + 2] as int) + 16777216
        * (bytes[at + 3] as int)
}

/// Whether the bytes start a device that holds ext4: they reach to the end
/// of the label in the superblock, and the superblock has the magic number
/// `0xEF53` at offset 56.
pub open spec fn is_ext4(bytes: Seq<u8>) -> bool {
    bytes.len() >= EXT4_SUPERBLOCK + 136 && le16(bytes, EXT4_SUPERBLOCK + 56) == 0xEF53
}

/// The bytes of the UUID of ext4: 16 bytes at offset 104 of the superblock.
pub open spec fn ext4_uuid(bytes: Seq<u8>) -> Seq<u8> {
    bytes.subrange(EXT4_SUPERBLOCK + 104, EXT4_SUPERBLOCK + 120)
}

/// The bytes of the label of ext4: 16 bytes at offset 120 of the
/// superblock, up to the first zero byte.
pub open spec fn ext4_label(bytes: Seq<u8>) -> Seq<u8> {
    until_zero(bytes.subrange(EXT4_SUPERBLOCK + 120, EXT4_SUPERBLOCK + 136))
}

/// The number of sectors of a FAT volume: the 16-bit count at offset 19,
/// or, where that is zero, the 32-bit count at offset 32.
pub open spec fn fat_sectors(bytes: Seq<u8>) -> int {
    if le16(bytes, 19) != 0 {
        le16(bytes, 19)
    } else {
        le32(bytes, 32)
    }
}

/// Whether the bytes start a device that holds FAT: the boot sector ends
/// with `0x55 0xAA`, its sectors have 512, 1024, 2048 or 4096 bytes, and
/// the volume has sectors.
pub open spec fn is_fat(bytes: Seq<u8>) -> bool {
    bytes.len() >= 512 && bytes[510] == 0x55 && bytes[511] == 0xAA && (le16(bytes, 11) == 512
        || le16(bytes, 11) == 1024 || le16(bytes, 11) == 2048 || le16(bytes, 11) == 4096)
        && fat_sectors(bytes) != 0
}

/// Whether a FAT volume is FAT32: it has no root directory of fixed size,
/// and its count of sectors does not fit into 16 bits.
pub open spec fn is_fat32(bytes: Seq<u8>) -> bool {
    le16(bytes, 17) == 0 && le16(bytes, 19) == 0
}

/// Where the volume serial of a FAT volume stands; the label follows it.
pub open spec fn fat_serial_at(bytes: Seq<u8>) -> int {
    if is_fat32(bytes) {
        67
    } else {
        39
    }
}

/// What the probe finds, as far as the bytes decide it: the kind of file
/// system with the bytes of its fields. The fields are: for ext4, UUID and
/// label; for FAT, OEM name, volume serial and label.
pub enum Found {
    Ext4(Seq<u8>, Seq<u8>),
    Fat32(Seq<u8>, Seq<u8>, Seq<u8>),
    Fat16(Seq<u8>, Seq<u8>, Seq<u8>),
    NotRecognized,
}

/// What the probe finds in the first bytes of a device. ext4 is looked
/// for first.
pub open spec fn found(bytes: Seq<u8>) -> Found {
    if is_ext4(bytes) {
        Found::Ext4(ext4_uuid(bytes), ext4_label(bytes))
    } else if is_fat(bytes) {
        let at = fat_serial_at(bytes);
        let oem = bytes.subrange(3, 11);
        let serial = bytes.subrange(at, at + 4);
        let label = without_padding(bytes.subrange(at + 4, at + 15));
        if is_fat32(bytes) {
            Found::Fat32(oem, serial, label)
        } else {
            Found::Fat16(oem, serial, label)
        }
    } else {
        Found::NotRecognized
    }
}

/// The text of a field: what its bytes encode in UTF-8.
pub open spec fn field_text(bytes: Seq<u8>, text: Seq<char>) -> bool {
    valid_utf8(bytes) ==> text == decode_utf8(bytes)
}

/// Whether a result of the probe stands for what the bytes hold.
pub open spec fn probe_stands_for(result: Result<FsType, ProbeError>, bytes: Seq<u8>) -> bool {
    match found(bytes) {
        Found::Ext4(uuid, label) => result matches Ok(FsType::Ext4(u, l)) && u@ == uuid_text(uuid)
            && field_text(label, l@),
        Found::Fat32(oem, serial, label) => result matches Ok(FsType::Fat32(o, s, l))
            && field_text(oem, o@) && s@ == serial_text(serial) && field_text(label, l@),
        Found::Fat16(oem, serial, label) => result matches Ok(FsType::Fat16(o, s, l))
            && field_text(oem, o@) && s@ == serial_text(serial) && field_text(label, l@),
        Found::NotRecognized => result matches Err(ProbeError::NotRecognized),
    }
}

/// Why a device is passed over.
#[derive(Clone, Copy, Debug, PartialEq, Eq)]
pub enum ProbeError {
    /// The device holds no file system that the probe knows.
    NotRecognized,
}

/// The digit of a number below 16, in executable form.
fn hex_char(n: u8, upper_case: bool) -> (c: char)
    requires
        n < 16,
    ensures
        c == hex_digit(n as int, upper_case),
{
    if n < 10 {
        (48u8 + n) as char
    } else if upper_case {
        (65u8 + n - 10) as char
    } else {
        (97u8 + n - 10) as char
    }
}

/// Appends the digits of the bytes `v[from..to]` to a text.
fn push_hex(text: &mut String, v: &Vec<u8>, from: usize, to: usize, upper_case: bool)
    requires
        from <= to <= v.len(),
    ensures
        final(text)@ == old(text)@ + hex(v@.subrange(from as int, to as int), upper_case),
{
    let mut i: usize = from;
    proof {
        assert(v@.subrange(from as int, from as int) =~= Seq::<u8>::empty());
        assert(text@ =~= old(text)@ + hex(v@.subrange(from as int, from as int), upper_case));
    }
    while i < to
        invariant
            from <= i <= to <= v.len(),
            text@ == old(text)@ + hex(v@.subrange(from as int, i as int), upper_case),
        decreases to - i,
    {
        let b = v[i];
        let ghost before = text@;
        push_char(text, hex_char(b / 16, upper_case));
        push_char(text, hex_char(b % 16, upper_case));
        proof {
            let t = v@.subrange(from as int, i + 1);
            assert(t.drop_last() =~= v@.subrange(from as int, i as int));
            assert(t.last() == b);
            assert(text@ =~= before + hex_byte(b, upper_case));
            assert(text@ =~= old(text)@ + hex(t, upper_case));
        }
        i += 1;
    }
}

/// The canonical form of the UUID in `v[at..at + 16]`.
fn format_uuid(v: &Vec<u8>, at: usize) -> (text: String)
    requires
        at + 16 <= v.len(),
    ensures
        text@ == uuid_text(v@.subrange(at as int, at + 16)),
{
    let ghost bytes = v@.subrange(at as int, at + 16);
    let mut text = String::new();
    proof {
        assert(bytes.subrange(0, 4) =~= v@.subrange(at as int, at + 4));
        assert(bytes.subrange(4, 6) =~= v@.subrange(at + 4, at + 6));
        assert(bytes.subrange(6, 8) =~= v@.subrange(at + 6, at + 8));
        assert(bytes.subrange(8, 10) =~= v@.subrange(at + 8, at + 10));
        assert(bytes.subrange(10, 16) =~= v@.subrange(at + 10, at + 16));
    }
    push_hex(&mut text, v, at, at + 4, false);
    push_char(&mut text, '-');
    push_hex(&mut text, v, at + 4, at + 6, false);
    push_char(&mut text, '-');
    push_hex(&mut text, v, at + 6, at + 8, false);
    push_char(&mut text, '-');
    push_hex(&mut text, v, at + 8, at + 10, false);
    push_char(&mut text, '-');
    push_hex(&mut text, v, at + 10, at + 16, false);
    proof {
        assert(text@ =~= uuid_text(bytes));
    }
    text
}

/// The form of the volume serial in `v[at..at + 4]`.
fn format_serial(v: &Vec<u8>, at: usize) -> (text: String)
    requires
        at + 4 <= v.len(),
    ensures
        text@ == serial_text(v@.subrange(at as int, at + 4)),
{
    let ghost bytes = v@.subrange(at as int, at + 4);
    let mut text = String::new();
    push_char(&mut text, hex_char(v[at + 3] / 16, true));
    push_char(&mut text, hex_char(v[at + 3] % 16, true));
    push_char(&mut text, hex_char(v[at + 2] / 16, true));
    push_char(&mut text, hex_char(v[at + 2] % 16, true));
    push_char(&mut text, '-');
    push_char(&mut text, hex_char(v[at + 1] / 16, true));
    push_char(&mut text, hex_char(v[at + 1] % 16, true));
    push_char(&mut text, hex_char(v[at] / 16, true));
    push_char(&mut text, hex_char(v[at] % 16, true));
    proof {
        assert(bytes[0] == v@[at as int] && bytes[1] == v@[at + 1] && bytes[2] == v@[at + 2]
            && bytes[3] == v@[at + 3]);
        assert(text@ =~= serial_text(bytes));
    }
    text
}

/// A copy of the bytes `v[from..to]`.
fn bytes_of(v: &Vec<u8>, from: usize, to: usize) -> (r: Vec<u8>)
    requires
        from <= to <= v.len(),
    ensures
        r@ == v@.subrange(from as int, to as int),
{
    let mut r: Vec<u8> = Vec::new();
    let mut i: usize = from;
    while i < to
        invariant
            from <= i <= to <= v.len(),
            r@ == v@.subrange(from as int, i as int),
        decreases to - i,
    {
        r.push(v[i]);
        assert(r@ =~= v@.subrange(from as int, i + 1));
        i += 1;
    }
    r
}

/// The number that the two bytes at `at` hold, low byte first.
fn read_le16(v: &Vec<u8>, at: usize) -> (n: u32)
    requires
        at + 2 <= v.len(),
    ensures
        n == le16(v@, at as int),
{
    v[at] as u32 + 256 * (v[at + 1] as u32)
}

/// The number that the four bytes at `at` hold, low byte first.
fn read_le32(v: &Vec<u8>, at: usize) -> (n: u64)
    requires
        at + 4 <= v.len(),
    ensures
        n == le32(v@, at as int),
{
    v[at] as u64 + 256 * (v[at + 1] as u64) + 65536 * (v[at + 2] as u64) + 16777216 * (v[at
        + 3] as u64)
}

/// Tells what file system the first bytes of a device belong to, and reads
/// its UUID and label.
///
/// ext4 is known by the magic number of its superblock, which lies 1024
/// bytes into the device; FAT by the end of its boot sector and the
/// plausibility of its parameters. FAT32 and FAT16 are told apart by the
/// size of the root directory. A device that holds neither is not
/// recognized.
pub fn detect_fs_type(bytes: &Vec<u8>) -> (r: Result<FsType, ProbeError>)
    ensures
        probe_stands_for(r, bytes@),
{
    let n = bytes.len();
    if n >= EXT4_SUPERBLOCK + 136 && read_le16(bytes, EXT4_SUPERBLOCK + 56) == 0xEF53 {
        let uuid = format_uuid(bytes, EXT4_SUPERBLOCK + 104);
        let field = bytes_of(bytes, EXT4_SUPERBLOCK + 120, EXT4_SUPERBLOCK + 136);
        let mut k: usize = 0;
        while k < field.len() && field[k] != 0
            invariant
                k <= field.len(),
                first_zero(field@, 0) == first_zero(field@, k as int),
            decreases field.len() - k,
        {
            k += 1;
        }
        let raw = bytes_of(&field, 0, k);
        proof {
            assert(raw@ =~= until_zero(field@));
        }
        let label = text_of_bytes(&raw);
        return Ok(FsType::Ext4(uuid, label));
    }
    if n < 512 || bytes[510] != 0x55 || bytes[511] != 0xAA {
        return Err(ProbeError::NotRecognized);
    }
    let sector = read_le16(bytes, 11);
    if sector != 512 && sector != 1024 && sector != 2048 && sector != 4096 {
        return Err(ProbeError::NotRecognized);
    }
    let small = read_le16(bytes, 19);
    let sectors: u64 = if small != 0 {
        small as u64
    } else {
        read_le32(bytes, 32)
    };
    if sectors == 0 {
        return Err(ProbeError::NotRecognized);
    }
    let fat32 = read_le16(bytes, 17) == 0 && small == 0;
    let at: usize = if fat32 {
        67
    } else {
        39
    };
    let oem = text_of_bytes(&bytes_of(bytes, 3, 11));
    let serial = format_serial(bytes, at);
    let field = bytes_of(bytes, at + 4, at + 15);
    let mut end: usize = field.len();
    proof {
        assert(field@.take(field.len() as int) =~= field@);
    }
    while end > 0 && field[end - 1] == 0x20
        invariant
            end <= field.len(),
            without_padding(field@) == without_padding(field@.take(end as int)),
        decreases end,
    {
        proof {
            assert(field@.take(end as int).drop_last() =~= field@.take(end - 1));
        }
        end -= 1;
    }
    let raw = bytes_of(&field, 0, end);
    proof {
        assert(raw@ =~= field@.take(end as int));
        assert(without_padding(raw@) == raw@);
    }
    let label = text_of_bytes(&raw);
    if fat32 {
        Ok(FsType::Fat32(oem, serial, label))
    } else {
        Ok(FsType::Fat16(oem, serial, label))
    }
}

/// What is known of a block device before it is probed.
#[derive(Debug, PartialEq, Eq)]
pub struct BlockNode {
    /// The path of the device node.
    pub path: String,
    /// Whether the device is a whole disk that has partitions.
    pub has_partitions: bool,
    /// Whether the device is a loop device.
    pub is_loop: bool,
    /// Whether a loop device has a backing file.
    pub has_backing_file: bool,
    /// The size of the device in sectors.
    pub size: u64,
}

/// Whether a block device is a candidate for booting: it is no whole disk
/// with partitions, no loop device without a backing file, and not empty.
pub open spec fn is_candidate(node: BlockNode) -> bool {
    !node.has_partitions && !(node.is_loop && !node.has_backing_file) && node.size > 0
}

/// The devices among the given ones that are candidates, in order.
pub open spec fn candidates_of(nodes: Seq<BlockNode>) -> Seq<Seq<char>>
    decreases nodes.len(),
{
    if nodes.len() == 0 {
        Seq::empty()
    } else if is_candidate(nodes.last()) {
        candidates_of(nodes.drop_last()).push(nodes.last().path@)
    } else {
        candidates_of(nodes.drop_last())
    }
}

/// The paths of the block devices that are candidates for booting, in the
/// order in which the devices were listed.
pub fn candidates(nodes: &Vec<BlockNode>) -> (paths: Vec<String>)
    ensures
        paths.deep_view() == candidates_of(nodes@),
{
    let mut paths: Vec<String> = Vec::new();
    let mut i: usize = 0;
    proof {
        assert(nodes@.take(0) =~= Seq::<BlockNode>::empty());
        assert(paths.deep_view() =~= Seq::<Seq<char>>::empty());
    }
    while i < nodes.len()
        invariant
            i <= nodes.len(),
            paths.deep_view() == candidates_of(nodes@.take(i as int)),
        decreases nodes.len() - i,
    {
        proof {
            assert(nodes@.take(i + 1).drop_last() =~= nodes@.take(i as int));
            assert(nodes@.take(i + 1).last() == nodes@[i as int]);
        }
        let node = &nodes[i];
        if !node.has_partitions && !(node.is_loop && !node.has_backing_file) && node.size > 0 {
            let ghost before = paths.deep_view();
            let path = node.path.clone();
            paths.push(path);
            proof {
                assert(paths.deep_view() =~= before.push(path@));
            }
        }
        i += 1;
    }
    proof {
        assert(nodes@.take(nodes.len() as int) =~= nodes@);
    }
    paths
}

} // verus!
