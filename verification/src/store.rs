//! A byte store with random access, as a plain sequence of bytes.
//!
//! The spec functions say what a positioned write and a change of length do
//! to the content of a file. The executable functions do the same to a
//! `Vec<u8>`, which is how the library edits a file that is held in memory.

use vstd::prelude::*;

verus! {

/// The content after `bytes` have been written at offset `at`.
///
/// The store grows to hold what is written. Where the write starts past the
/// old end, the gap in between reads as zeros. Writing nothing changes
/// nothing, wherever it was meant to go.
pub open spec fn written(file: Seq<u8>, at: int, bytes: Seq<u8>) -> Seq<u8> {
    let end = at + bytes.len();
    let len = if bytes.len() > 0 && end > file.len() {
        end
    } else {
        file.len() as int
    };
    Seq::new(
        len as nat,
        |i: int|
            if at <= i < end {
                bytes[i - at]
            } else if i < file.len() {
                file[i]
            } else {
                0u8
            },
    )
}

/// The content after the length has been set to `len`: cut off at `len`, or
/// filled up with zeros.
pub open spec fn resized(file: Seq<u8>, len: int) -> Seq<u8> {
    Seq::new(
        len as nat,
        |i: int|
            if i < file.len() {
                file[i]
            } else {
                0u8
            },
    )
}

/// The content after the `count` bytes at `read_at` have been copied to
/// `write_at`. The two ranges may overlap: the bytes are read before any of
/// them is written.
pub open spec fn moved(file: Seq<u8>, read_at: int, write_at: int, count: int) -> Seq<u8> {
    written(file, write_at, file.subrange(read_at, read_at + count))
}

/// Copies `count` bytes out of `file`, starting at offset `at`.
pub fn read_at(file: &Vec<u8>, at: usize, count: usize) -> (bytes: Vec<u8>)
    requires
        at + count <= file@.len(),
    ensures
        bytes@ == file@.subrange(at as int, at + count),
{
    let mut bytes: Vec<u8> = Vec::with_capacity(count);
    let mut i: usize = 0;
    while i < count
        invariant
            i <= count,
            at + count <= file.len(),
            bytes@ == file@.subrange(at as int, at + i),
        decreases count - i,
    {
        bytes.push(file[at + i]);
        i += 1;
    }
    bytes
}

/// Writes `bytes` into `file` at offset `at`, growing the file where needed.
pub fn write_at(file: &mut Vec<u8>, at: usize, bytes: &Vec<u8>)
    requires
        at + bytes@.len() <= usize::MAX,
    ensures
        final(file)@ == written(old(file)@, at as int, bytes@),
{
    let count: usize = bytes.len();
    if count == 0 {
        return ;
    }
    if at + count > file.len() {
        file.resize(at + count, 0u8);
    }
    let ghost base = file@;
    let mut i: usize = 0;
    while i < count
        invariant
            i <= count,
            count == bytes@.len(),
            at + count <= base.len() <= usize::MAX,
            file@.len() == base.len(),
            forall|j: int| at <= j < at + i ==> file@[j] == bytes@[j - at],
            forall|j: int| 0 <= j < at ==> file@[j] == base[j],
            forall|j: int| at + i <= j < base.len() ==> file@[j] == base[j],
        decreases count - i,
    {
        file.set(at + i, bytes[i]);
        i += 1;
    }
    assert(file@ =~= written(old(file)@, at as int, bytes@)) by {
        let goal = written(old(file)@, at as int, bytes@);
        assert forall|j: int| 0 <= j < base.len() implies file@[j] == goal[j] by {
            if !(at <= j < at + count) {
                assert(file@[j] == base[j]);
            }
        }
    }
}

/// Sets the length of `file` to `len`, cutting it off or filling it up with
/// zeros.
pub fn set_len(file: &mut Vec<u8>, len: usize)
    ensures
        final(file)@ == resized(old(file)@, len as int),
{
    file.resize(len, 0u8);
}

} // verus!
