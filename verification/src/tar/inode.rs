//! The entries a tar archive holds: metadata, permissions, and regular or sparse file data.
use vstd::prelude::*;
use vstd::utf8::valid_utf8;

use crate::buffers::resized;
use crate::tar::maps::StringMap;
use crate::tar::text::{octal_value, parse_octal, until_nul};

verus! {

/// A path relative to the root of the archive, from the `relative_path` crate.
#[verifier::external_type_specification]
#[verifier::external_body]
pub struct ExRelativePathBuf(relative_path::RelativePathBuf);

/// The text of a relative path.
pub uninterp spec fn relative_path_text(p: relative_path::RelativePathBuf) -> Seq<char>;

/// `RelativePathBuf::from(String)`: the path holds the string as it is.
#[verifier::external_body]
pub(crate) fn relative_path_from_string(s: String) -> (r: relative_path::RelativePathBuf)
    ensures
        relative_path_text(r) == s@,
{
    relative_path::RelativePathBuf::from(s)
}

/// `RelativePathBuf::clone`, derived in its crate: the copy holds the same text.
pub assume_specification[ <relative_path::RelativePathBuf as core::clone::Clone>::clone ](
    p: &relative_path::RelativePathBuf,
) -> (r: relative_path::RelativePathBuf)
    ensures
        relative_path_text(r) == relative_path_text(*p),
;

/// A point in time: seconds since the Unix epoch and nanoseconds.
#[derive(Clone, Copy, Debug, PartialEq, Eq, Structural)]
pub struct TimeStamp {
    pub seconds_since_epoch: u64,
    pub nanoseconds: u32,
}

impl Default for TimeStamp {
    fn default() -> (r: Self)
        ensures
            r == (TimeStamp { seconds_since_epoch: 0, nanoseconds: 0 }),
    {
        TimeStamp { seconds_since_epoch: 0, nanoseconds: 0 }
    }
}

/// Represents permissions for a single user class (owner, group, or other)
#[derive(Clone, Copy, Debug, PartialEq, Eq, Structural)]
pub struct Permission {
    pub read: bool,
    pub write: bool,
    pub execute: bool,
}

/// Represents file permissions split into owner, group, and other
#[derive(Clone, Copy, Debug, PartialEq, Eq, Structural)]
pub struct FilePermissions {
    pub owner: Permission,
    pub group: Permission,
    pub other: Permission,
    pub set_uid: bool,
    pub set_gid: bool,
    pub sticky: bool,
}

/// The default permissions: owner and group may read and write.
pub open spec fn default_permissions() -> FilePermissions {
    FilePermissions {
        owner: Permission { read: true, write: true, execute: false },
        group: Permission { read: true, write: true, execute: false },
        other: Permission { read: false, write: false, execute: false },
        set_uid: false,
        set_gid: false,
        sticky: false,
    }
}

impl Default for FilePermissions {
    fn default() -> (r: Self)
        ensures
            r == default_permissions(),
    {
        FilePermissions {
            owner: Permission { read: true, write: true, execute: false },
            group: Permission { read: true, write: true, execute: false },
            other: Permission { read: false, write: false, execute: false },
            set_uid: false,
            set_gid: false,
            sticky: false,
        }
    }
}

/// The mode bit of a flag: `bit` when it is set, nothing otherwise.
pub open spec fn flag_bit(set: bool, bit: u32) -> u32 {
    if set {
        bit
    } else {
        0
    }
}

/// The Unix mode bits that permissions stand for: read, write and execute of the owner at
/// `0o400`, `0o200`, `0o100`, of the group at `0o040`, `0o020`, `0o010`, of the others at
/// `0o004`, `0o002`, `0o001`, and set-uid, set-gid and sticky at `0o4000`, `0o2000`, `0o1000`.
pub open spec fn permission_bits(p: FilePermissions) -> u32 {
    flag_bit(p.owner.read, 0o400) | flag_bit(p.owner.write, 0o200) | flag_bit(p.owner.execute, 0o100)
        | flag_bit(p.group.read, 0o040) | flag_bit(p.group.write, 0o020) | flag_bit(p.group.execute, 0o010)
        | flag_bit(p.other.read, 0o004) | flag_bit(p.other.write, 0o002) | flag_bit(p.other.execute, 0o001)
        | flag_bit(p.set_uid, 0o4000) | flag_bit(p.set_gid, 0o2000) | flag_bit(p.sticky, 0o1000)
}

/// The permissions a mode grants are its permission bits, each flag read from its own bit: they
/// stand for the mode with all but its lowest twelve bits cleared.
pub proof fn law_permissions_are_the_mode_bits(m: u32)
    ensures
        permission_bits(FilePermissions::from_mode(m)) == m & 0o7777,
{
    assert(((if m & 0o400 != 0 { 0o400u32 } else { 0u32 }) | (if m & 0o200 != 0 { 0o200u32 } else { 0u32 })
        | (if m & 0o100 != 0 { 0o100u32 } else { 0u32 }) | (if m & 0o040 != 0 { 0o040u32 } else { 0u32 })
        | (if m & 0o020 != 0 { 0o020u32 } else { 0u32 }) | (if m & 0o010 != 0 { 0o010u32 } else { 0u32 })
        | (if m & 0o004 != 0 { 0o004u32 } else { 0u32 }) | (if m & 0o002 != 0 { 0o002u32 } else { 0u32 })
        | (if m & 0o001 != 0 { 0o001u32 } else { 0u32 }) | (if m & 0o4000 != 0 { 0o4000u32 } else { 0u32 })
        | (if m & 0o2000 != 0 { 0o2000u32 } else { 0u32 }) | (if m & 0o1000 != 0 { 0o1000u32 } else { 0u32 }))
        == m & 0o7777) by (bit_vector);
}

/// Reading the mode that permissions stand for gives the same permissions back.
pub proof fn law_mode_of_permissions_reads_back(p: FilePermissions)
    ensures
        FilePermissions::from_mode(permission_bits(p)) == p,
{
    let (a, b, c) = (p.owner.read, p.owner.write, p.owner.execute);
    let (d, e, f) = (p.group.read, p.group.write, p.group.execute);
    let (g, h, i) = (p.other.read, p.other.write, p.other.execute);
    let (j, k, l) = (p.set_uid, p.set_gid, p.sticky);
    let x = permission_bits(p);
    assert(x == (if a { 0o400u32 } else { 0u32 }) | (if b { 0o200u32 } else { 0u32 }) | (if c { 0o100u32 } else { 0u32 })
        | (if d { 0o040u32 } else { 0u32 }) | (if e { 0o020u32 } else { 0u32 }) | (if f { 0o010u32 } else { 0u32 })
        | (if g { 0o004u32 } else { 0u32 }) | (if h { 0o002u32 } else { 0u32 }) | (if i { 0o001u32 } else { 0u32 })
        | (if j { 0o4000u32 } else { 0u32 }) | (if k { 0o2000u32 } else { 0u32 }) | (if l { 0o1000u32 } else { 0u32 }));
    assert({
        &&& (x & 0o400 != 0) == a
        &&& (x & 0o200 != 0) == b
        &&& (x & 0o100 != 0) == c
        &&& (x & 0o040 != 0) == d
        &&& (x & 0o020 != 0) == e
        &&& (x & 0o010 != 0) == f
        &&& (x & 0o004 != 0) == g
        &&& (x & 0o002 != 0) == h
        &&& (x & 0o001 != 0) == i
        &&& (x & 0o4000 != 0) == j
        &&& (x & 0o2000 != 0) == k
        &&& (x & 0o1000 != 0) == l
    }) by (bit_vector)
        requires
            x == (if a { 0o400u32 } else { 0u32 }) | (if b { 0o200u32 } else { 0u32 }) | (if c { 0o100u32 } else { 0u32 })
                | (if d { 0o040u32 } else { 0u32 }) | (if e { 0o020u32 } else { 0u32 }) | (if f { 0o010u32 } else { 0u32 })
                | (if g { 0o004u32 } else { 0u32 }) | (if h { 0o002u32 } else { 0u32 }) | (if i { 0o001u32 } else { 0u32 })
                | (if j { 0o4000u32 } else { 0u32 }) | (if k { 0o2000u32 } else { 0u32 }) | (if l { 0o1000u32 } else { 0u32 }),
    ;
}

impl FilePermissions {
    /// The permissions the bits of a Unix mode grant.
    pub open spec fn from_mode(mode: u32) -> FilePermissions {
        FilePermissions {
            owner: Permission {
                read: mode & 0o400 != 0,
                write: mode & 0o200 != 0,
                execute: mode & 0o100 != 0,
            },
            group: Permission {
                read: mode & 0o040 != 0,
                write: mode & 0o020 != 0,
                execute: mode & 0o010 != 0,
            },
            other: Permission {
                read: mode & 0o004 != 0,
                write: mode & 0o002 != 0,
                execute: mode & 0o001 != 0,
            },
            set_uid: mode & 0o4000 != 0,
            set_gid: mode & 0o2000 != 0,
            sticky: mode & 0o1000 != 0,
        }
    }

    /// The permissions of a mode field: the text before its first NUL, trimmed, is the octal
    /// number of a `u32`, as for the other octal fields of a header.
    pub open spec fn from_octal_field(bytes: Seq<u8>) -> Option<FilePermissions> {
        if !valid_utf8(until_nul(bytes)) {
            None
        } else {
            match octal_value(bytes) {
                Ok(v) => if v <= u32::MAX {
                    Some(FilePermissions::from_mode(v as u32))
                } else {
                    None
                },
                Err(_) => None,
            }
        }
    }

    /// Parses an octal ASCII string representing Unix file permissions as found in the `mode`
    /// field of a tar header.
    pub fn parse_octal_ascii_unix_mode(octal_bytes: &[u8]) -> (r: Option<Self>)
        ensures
            r == FilePermissions::from_octal_field(octal_bytes@),
            r matches Some(p) ==> (octal_value(octal_bytes@) matches Ok(v) && permission_bits(p) == (v as u32)
                & 0o7777),
    {
        let mode = match parse_octal(octal_bytes) {
            Ok(v) => {
                if v > u32::MAX as u64 {
                    return None;
                }
                v as u32
            },
            Err(_) => {
                return None;
            },
        };
        proof {
            law_permissions_are_the_mode_bits(mode);
        }
        Some(
            FilePermissions {
                owner: Permission {
                    read: mode & 0o400 != 0,
                    write: mode & 0o200 != 0,
                    execute: mode & 0o100 != 0,
                },
                group: Permission {
                    read: mode & 0o040 != 0,
                    write: mode & 0o020 != 0,
                    execute: mode & 0o010 != 0,
                },
                other: Permission {
                    read: mode & 0o004 != 0,
                    write: mode & 0o002 != 0,
                    execute: mode & 0o001 != 0,
                },
                set_uid: mode & 0o4000 != 0,
                set_gid: mode & 0o2000 != 0,
                sticky: mode & 0o1000 != 0,
            },
        )
    }
}

/// One run of data in a sparse file: a hole up to an offset, then some bytes of data.
#[derive(Clone, Copy, Debug, PartialEq, Eq, Structural)]
pub struct SparseFileInstruction {
    /// Where the data of this run starts in the expanded file.
    pub offset_before: u64,
    /// How many bytes of data the run holds.
    pub data_size: u64,
}

impl Default for SparseFileInstruction {
    fn default() -> (r: Self)
        ensures
            r == (SparseFileInstruction { offset_before: 0, data_size: 0 }),
    {
        SparseFileInstruction { offset_before: 0, data_size: 0 }
    }
}

/// The sum of the data sizes of the first `k` instructions.
pub open spec fn sizes_sum(instructions: Seq<SparseFileInstruction>, k: int) -> nat
    decreases k,
{
    if k <= 0 || k > instructions.len() {
        0
    } else {
        sizes_sum(instructions, k - 1) + (instructions[k - 1].data_size as usize) as nat
    }
}

/// The instructions take no more data than there is.
pub open spec fn sparse_fits(instructions: Seq<SparseFileInstruction>, data: Seq<u8>) -> bool {
    sizes_sum(instructions, instructions.len() as int) <= data.len()
}

/// The file a sparse map describes, from instruction `i` on, after `acc` has been built from the
/// first `processed` bytes of data: each instruction first sizes the file to its offset (filling
/// with zeros or cutting), then appends its data.
pub open spec fn expand_from(
    instructions: Seq<SparseFileInstruction>,
    data: Seq<u8>,
    i: int,
    acc: Seq<u8>,
    processed: nat,
) -> Seq<u8>
    decreases instructions.len() - i,
{
    if i < 0 || i >= instructions.len() {
        acc
    } else {
        let size = (instructions[i].data_size as usize) as nat;
        let sized = resized(acc, (instructions[i].offset_before as usize) as nat);
        expand_from(
            instructions,
            data,
            i + 1,
            sized + data.subrange(processed as int, (processed + size) as int),
            processed + size,
        )
    }
}

/// The contents of a sparse file.
pub open spec fn expand_sparse_spec(instructions: Seq<SparseFileInstruction>, data: Seq<u8>) -> Seq<
    u8,
> {
    expand_from(instructions, data, 0, Seq::empty(), 0)
}

/// The prefix sums of the sizes only grow.
pub proof fn lemma_sizes_sum_monotonic(instructions: Seq<SparseFileInstruction>, j: int, k: int)
    requires
        0 <= j <= k <= instructions.len(),
    ensures
        sizes_sum(instructions, j) <= sizes_sum(instructions, k),
    decreases k - j,
{
    if j < k {
        lemma_sizes_sum_monotonic(instructions, j, k - 1);
    }
}

/// The data of a regular file: its bytes, or a sparse map and the bytes of its runs.
#[derive(Clone, Debug)]
pub enum FileData {
    Regular(Vec<u8>),
    Sparse { instructions: Vec<SparseFileInstruction>, data: Vec<u8> },
}

impl FileData {
    /// The instructions of a sparse file take no more data than it holds.
    pub open spec fn expandable(&self) -> bool {
        match self {
            FileData::Regular(_) => true,
            FileData::Sparse { instructions, data } => sparse_fits(instructions@, data@),
        }
    }

    /// The bytes of the file, holes filled with zeros.
    pub open spec fn contents(&self) -> Seq<u8> {
        match self {
            FileData::Regular(bytes) => bytes@,
            FileData::Sparse { instructions, data } => expand_sparse_spec(instructions@, data@),
        }
    }

    /// Turns a sparse file into a regular one with the same contents.
    pub fn expand_sparse(&mut self)
        requires
            old(self).expandable(),
        ensures
            *final(self) matches FileData::Regular(_),
            final(self).contents() == old(self).contents(),
    {
        let (instructions, data) = match self {
            FileData::Regular(_) => {
                return ;
            },
            FileData::Sparse { instructions, data } => (&*instructions, &*data),
        };
        let ghost ins = instructions@;
        let ghost d = data@;
        let _data_len = data.len();
        let mut expanded: Vec<u8> = Vec::new();
        let mut processed: usize = 0;
        let mut i: usize = 0;
        while i < instructions.len()
            invariant
                ins == instructions@,
                d == data@,
                _data_len == d.len(),
                sparse_fits(ins, d),
                i <= ins.len(),
                processed == sizes_sum(ins, i as int),
                expand_sparse_spec(ins, d) == expand_from(ins, d, i as int, expanded@, processed as nat),
            decreases ins.len() - i,
        {
            let instruction = instructions[i];
            let offset = #[verifier::truncate] (instruction.offset_before as usize);
            let size = #[verifier::truncate] (instruction.data_size as usize);
            proof {
                lemma_sizes_sum_monotonic(ins, i + 1, ins.len() as int);
                assert(sizes_sum(ins, i + 1) == processed + size);
                assert(processed + size <= d.len());
            }
            let ghost before = expanded@;
            expanded.resize(offset, 0);
            proof {
                assert(expanded@ =~= resized(before, offset as nat));
            }
            let ghost sized = expanded@;
            expanded.extend_from_slice(&data[processed..processed + size]);
            proof {
                assert(expanded@ =~= sized + d.subrange(processed as int, processed + size));
            }
            processed = processed + size;
            i = i + 1;
        }
        *self = FileData::Regular(expanded);
    }
}

/// The kind of an entry and what only that kind carries.
#[derive(Clone, Debug)]
pub enum FileEntry {
    RegularFile(RegularFileEntry),
    HardLink(HardLinkEntry),
    SymbolicLink(SymbolicLinkEntry),
    CharacterDevice(CharacterDeviceEntry),
    BlockDevice(BlockDeviceEntry),
    Directory,
    Fifo,
}

/// A regular file.
#[derive(Clone, Debug)]
pub struct RegularFileEntry {
    /// The archive marked the file as continuous.
    pub continuous: bool,
    pub data: FileData,
}

/// A hard link.
#[derive(Clone, Debug)]
pub struct HardLinkEntry {
    pub link_target: relative_path::RelativePathBuf,
}

/// A symbolic link.
#[derive(Clone, Debug)]
pub struct SymbolicLinkEntry {
    pub link_target: relative_path::RelativePathBuf,
}

/// A character device.
#[derive(Clone, Debug)]
pub struct CharacterDeviceEntry {
    pub major: u32,
    pub minor: u32,
}

/// A block device.
#[derive(Clone, Debug)]
pub struct BlockDeviceEntry {
    pub major: u32,
    pub minor: u32,
}

/// One entry of a tar archive.
#[derive(Clone, Debug)]
pub struct TarInode {
    pub path: relative_path::RelativePathBuf,
    pub entry: FileEntry,
    pub mode: FilePermissions,
    pub uid: u32,
    pub gid: u32,
    pub mtime: TimeStamp,
    pub uname: String,
    pub gname: String,
    pub unparsed_extended_attributes: StringMap,
}

impl TarInode {
    /// The data of a regular file can be expanded.
    pub open spec fn expandable(&self) -> bool {
        self.entry matches FileEntry::RegularFile(f) ==> f.data.expandable()
    }
}

/// Turns every sparse regular file into a regular one with the same contents.
pub fn expand_sparse_files(files: &mut Vec<TarInode>)
    requires
        forall|i: int| 0 <= i < old(files)@.len() ==> #[trigger] old(files)@[i].expandable(),
    ensures
        final(files)@.len() == old(files)@.len(),
        forall|i: int|
            0 <= i < final(files)@.len() ==> {
                let before = #[trigger] old(files)@[i];
                let after = final(files)@[i];
                &&& relative_path_text(after.path) == relative_path_text(before.path)
                &&& match before.entry {
                    FileEntry::RegularFile(f) => after.entry matches FileEntry::RegularFile(g) && g.data
                        is Regular && g.data.contents() == f.data.contents() && g.continuous
                        == f.continuous,
                    _ => after.entry == before.entry,
                }
            },
{
    let n = files.len();
    let mut i: usize = 0;
    while i < n
        invariant
            n == files@.len() == old(files)@.len(),
            i <= n,
            forall|j: int| i <= j < n ==> files@[j] == old(files)@[j],
            forall|j: int|
                0 <= j < i ==> {
                    let before = #[trigger] old(files)@[j];
                    let after = files@[j];
                    &&& relative_path_text(after.path) == relative_path_text(before.path)
                    &&& match before.entry {
                        FileEntry::RegularFile(f) => after.entry matches FileEntry::RegularFile(g)
                            && g.data is Regular && g.data.contents() == f.data.contents()
                            && g.continuous == f.continuous,
                        _ => after.entry == before.entry,
                    }
                },
            forall|j: int| 0 <= j < n ==> #[trigger] old(files)@[j].expandable(),
        decreases n - i,
    {
        proof {
            assert(old(files)@[i as int].expandable());
        }
        let file = &mut files[i];
        match &mut file.entry {
            FileEntry::RegularFile(f) => {
                f.data.expand_sparse();
            },
            _ => {},
        }
        i = i + 1;
    }
}

/// Fills an empty optional value from a closure, where the closure has one to give.
pub trait GetOrInsertWithMaybe<T> {
    /// If `self` is Some, returns a mutable reference to the value.
    /// Otherwise, runs the closure. If the closure returns Some, inserts it and returns a mutable
    /// reference. If the closure returns None, leaves `self` as None and returns None.
    fn get_or_insert_with_maybe<F: FnOnce() -> Option<T>>(&mut self, f: F) -> Option<&mut T>
        requires
            f.requires(()),
    ;
}

impl<T> GetOrInsertWithMaybe<T> for Option<T> {
    fn get_or_insert_with_maybe<F: FnOnce() -> Option<T>>(&mut self, f: F) -> (r: Option<&mut T>)
        ensures
            *old(self) is Some ==> r is Some && *r.unwrap() == (*old(self)).unwrap(),
            r is None <==> *final(self) is None,
            r is Some ==> *final(self) == Some(*final(r.unwrap())),
            *old(self) is None ==> f.ensures(
                (),
                match r {
                    Some(v) => Some(*v),
                    None => None,
                },
            ),
    {
        if self.is_none() {
            *self = f();
        }
        self.as_mut()
    }
}

} // verus!
