//! The byte patterns that identify the broken epoch entry, its repaired form and
//! the authority list that repairs it, and the searches for them in a blob.

use vstd::prelude::*;

verus! {

/// The first bytes of the broken epoch entry in the SCALE-encoded
/// `babe_epoch_changes` blob: the `PersistedEpoch::Regular` tag (`0x01`), the
/// epoch index 39644, the start slot 295_153_305 and the duration 600 (each a
/// little-endian `u64`), then the compact length `0` of the authority list.
pub open spec fn spec_broken_epoch_prefix() -> Seq<u8> {
    seq![
        0x01u8,
        0xdc, 0x9a, 0x00, 0x00, 0x00, 0x00, 0x00, 0x00,
        0x99, 0xae, 0x97, 0x11, 0x00, 0x00, 0x00, 0x00,
        0x58, 0x02, 0x00, 0x00, 0x00, 0x00, 0x00, 0x00,
        0x00,
    ]
}

/// The broken epoch prefix without its last byte (the authority-list length):
/// the header that the epoch entry keeps whether it is broken or repaired.
pub open spec fn spec_epoch_header() -> Seq<u8> {
    spec_broken_epoch_prefix().drop_last()
}

/// The SCALE-encoded authority list of the previous epoch: the compact length
/// 6 (`0x18`), then six entries of a 32-byte public key and a little-endian
/// `u64` weight of 1.
pub open spec fn spec_good_authorities() -> Seq<u8> {
    seq![
        0x18u8,
        0x72, 0x42, 0xe6, 0x36, 0x3d, 0xff, 0xc4, 0xe5,
        0xd6, 0xdb, 0x33, 0x94, 0xbc, 0x3a, 0xbd, 0x27,
        0xc8, 0xd1, 0x8c, 0xc2, 0x4b, 0x27, 0x13, 0x1c,
        0x28, 0x0d, 0xb9, 0x74, 0x93, 0x71, 0x71, 0x79,
        0x01, 0x00, 0x00, 0x00, 0x00, 0x00, 0x00, 0x00,
        0x80, 0x6c, 0xa0, 0x5e, 0x21, 0xf9, 0x8b, 0xf0,
        0x19, 0xc9, 0xb1, 0x17, 0x04, 0xd1, 0xf9, 0x58,
        0x30, 0xbf, 0x6c, 0x79, 0xf7, 0x57, 0x42, 0x2e,
        0xcd, 0x7c, 0x74, 0x1c, 0xc9, 0x00, 0x81, 0x3d,
        0x01, 0x00, 0x00, 0x00, 0x00, 0x00, 0x00, 0x00,
        0x02, 0xec, 0x4a, 0xc0, 0x9a, 0xa7, 0x4d, 0xe6,
        0x4a, 0x1f, 0x98, 0x1e, 0x1a, 0x26, 0xae, 0xa0,
        0xd0, 0x8b, 0xb8, 0x36, 0x24, 0x05, 0x54, 0xed,
        0x86, 0xf8, 0xf7, 0xa9, 0x32, 0x89, 0x13, 0x2e,
        0x01, 0x00, 0x00, 0x00, 0x00, 0x00, 0x00, 0x00,
        0x3c, 0x05, 0xb4, 0x45, 0x12, 0x57, 0x0e, 0x65,
        0x61, 0x7d, 0xbb, 0x39, 0xbe, 0x56, 0x39, 0x31,
        0x70, 0x8b, 0x20, 0x04, 0x60, 0x9d, 0x92, 0x0f,
        0x39, 0xe1, 0x58, 0xf7, 0x3e, 0x05, 0x4b, 0x4f,
        0x01, 0x00, 0x00, 0x00, 0x00, 0x00, 0x00, 0x00,
        0x96, 0x40, 0xb0, 0xfd, 0x54, 0xe0, 0x0c, 0xf4,
        0x73, 0xf3, 0x88, 0x82, 0x14, 0x91, 0x52, 0x3c,
        0xc1, 0x0f, 0xec, 0x90, 0xe7, 0x3a, 0x36, 0x97,
        0xc5, 0x36, 0x6a, 0x63, 0xac, 0x17, 0x6a, 0x64,
        0x01, 0x00, 0x00, 0x00, 0x00, 0x00, 0x00, 0x00,
        0xda, 0x83, 0x50, 0x57, 0x65, 0x85, 0x80, 0x7e,
        0x08, 0x3b, 0x4b, 0x0a, 0xc4, 0x58, 0x6d, 0x77,
        0x05, 0x1f, 0x18, 0x99, 0x97, 0x1e, 0xa8, 0xad,
        0x33, 0xd8, 0x68, 0x4b, 0x91, 0x0c, 0x31, 0x0e,
        0x01, 0x00, 0x00, 0x00, 0x00, 0x00, 0x00, 0x00,
    ]
}

/// The window of `pat.len()` bytes of `data` that starts at `i` equals `pat`.
pub open spec fn occurs_at(data: Seq<u8>, pat: Seq<u8>, i: int) -> bool {
    &&& 0 <= i
    &&& i + pat.len() <= data.len()
    &&& data.subrange(i, i + pat.len()) == pat
}

/// `pat` occurs somewhere in `data`.
pub open spec fn occurs_in(data: Seq<u8>, pat: Seq<u8>) -> bool {
    exists|i: int| occurs_at(data, pat, i)
}

/// `i` is the position of the first occurrence of `pat` in `data`.
pub open spec fn first_occurrence(data: Seq<u8>, pat: Seq<u8>, i: int) -> bool {
    &&& occurs_at(data, pat, i)
    &&& forall|j: int| 0 <= j < i ==> !occurs_at(data, pat, j)
}

/// At `i` stands the epoch header followed by a non-zero authority-list length.
pub open spec fn patched_at(data: Seq<u8>, i: int) -> bool {
    let n = spec_epoch_header().len();
    &&& occurs_at(data, spec_epoch_header(), i)
    &&& i + n < data.len()
    &&& data[i + n] != 0
}

/// The repaired epoch entry (header with at least one authority) occurs in `data`.
pub open spec fn spec_is_patched(data: Seq<u8>) -> bool {
    exists|i: int| patched_at(data, i)
}

/// The broken epoch prefix as bytes.
pub fn broken_epoch_prefix() -> (v: Vec<u8>)
    ensures
        v@ == spec_broken_epoch_prefix(),
{
    let v: Vec<u8> = vec![
        0x01u8,
        0xdc, 0x9a, 0x00, 0x00, 0x00, 0x00, 0x00, 0x00,
        0x99, 0xae, 0x97, 0x11, 0x00, 0x00, 0x00, 0x00,
        0x58, 0x02, 0x00, 0x00, 0x00, 0x00, 0x00, 0x00,
        0x00,
    ];
    assert(v@ =~= spec_broken_epoch_prefix());
    v
}

/// The epoch header (the broken prefix without its last byte) as bytes.
pub fn epoch_header() -> (v: Vec<u8>)
    ensures
        v@ == spec_epoch_header(),
{
    let mut v = broken_epoch_prefix();
    let _ = v.pop();
    assert(v@ =~= spec_epoch_header());
    v
}

/// The replacement authority list as bytes.
pub fn good_authorities() -> (v: Vec<u8>)
    ensures
        v@ == spec_good_authorities(),
{
    let v: Vec<u8> = vec![
        0x18u8,
        0x72, 0x42, 0xe6, 0x36, 0x3d, 0xff, 0xc4, 0xe5,
        0xd6, 0xdb, 0x33, 0x94, 0xbc, 0x3a, 0xbd, 0x27,
        0xc8, 0xd1, 0x8c, 0xc2, 0x4b, 0x27, 0x13, 0x1c,
        0x28, 0x0d, 0xb9, 0x74, 0x93, 0x71, 0x71, 0x79,
        0x01, 0x00, 0x00, 0x00, 0x00, 0x00, 0x00, 0x00,
        0x80, 0x6c, 0xa0, 0x5e, 0x21, 0xf9, 0x8b, 0xf0,
        0x19, 0xc9, 0xb1, 0x17, 0x04, 0xd1, 0xf9, 0x58,
        0x30, 0xbf, 0x6c, 0x79, 0xf7, 0x57, 0x42, 0x2e,
        0xcd, 0x7c, 0x74, 0x1c, 0xc9, 0x00, 0x81, 0x3d,
        0x01, 0x00, 0x00, 0x00, 0x00, 0x00, 0x00, 0x00,
        0x02, 0xec, 0x4a, 0xc0, 0x9a, 0xa7, 0x4d, 0xe6,
        0x4a, 0x1f, 0x98, 0x1e, 0x1a, 0x26, 0xae, 0xa0,
        0xd0, 0x8b, 0xb8, 0x36, 0x24, 0x05, 0x54, 0xed,
        0x86, 0xf8, 0xf7, 0xa9, 0x32, 0x89, 0x13, 0x2e,
        0x01, 0x00, 0x00, 0x00, 0x00, 0x00, 0x00, 0x00,
        0x3c, 0x05, 0xb4, 0x45, 0x12, 0x57, 0x0e, 0x65,
        0x61, 0x7d, 0xbb, 0x39, 0xbe, 0x56, 0x39, 0x31,
        0x70, 0x8b, 0x20, 0x04, 0x60, 0x9d, 0x92, 0x0f,
        0x39, 0xe1, 0x58, 0xf7, 0x3e, 0x05, 0x4b, 0x4f,
        0x01, 0x00, 0x00, 0x00, 0x00, 0x00, 0x00, 0x00,
        0x96, 0x40, 0xb0, 0xfd, 0x54, 0xe0, 0x0c, 0xf4,
        0x73, 0xf3, 0x88, 0x82, 0x14, 0x91, 0x52, 0x3c,
        0xc1, 0x0f, 0xec, 0x90, 0xe7, 0x3a, 0x36, 0x97,
        0xc5, 0x36, 0x6a, 0x63, 0xac, 0x17, 0x6a, 0x64,
        0x01, 0x00, 0x00, 0x00, 0x00, 0x00, 0x00, 0x00,
        0xda, 0x83, 0x50, 0x57, 0x65, 0x85, 0x80, 0x7e,
        0x08, 0x3b, 0x4b, 0x0a, 0xc4, 0x58, 0x6d, 0x77,
        0x05, 0x1f, 0x18, 0x99, 0x97, 0x1e, 0xa8, 0xad,
        0x33, 0xd8, 0x68, 0x4b, 0x91, 0x0c, 0x31, 0x0e,
        0x01, 0x00, 0x00, 0x00, 0x00, 0x00, 0x00, 0x00,
    ];
    assert(v@ =~= spec_good_authorities());
    v
}

/// Whether `pat` occurs in `data` at position `i`.
fn occurs_at_exec(data: &[u8], pat: &[u8], i: usize) -> (r: bool)
    ensures
        r == occurs_at(data@, pat@, i as int),
{
    if i > data.len() || pat.len() > data.len() - i {
        return false;
    }
    let n = pat.len();
    let mut k: usize = 0;
    while k < n
        invariant
            n == pat@.len(),
            i + n <= data.len(),
            k <= n,
            forall|m: int| 0 <= m < k ==> data@[i + m] == #[trigger] pat@[m],
        decreases n - k,
    {
        if data[i + k] != pat[k] {
            assert(data@.subrange(i as int, i + n)[k as int] != pat@[k as int]);
            return false;
        }
        k = k + 1;
    }
    assert(data@.subrange(i as int, i + n) =~= pat@);
    true
}

/// The position of the first occurrence of `pat` in `data`, if any.
fn find_first(data: &[u8], pat: &[u8]) -> (r: Option<usize>)
    ensures
        match r {
            Some(i) => first_occurrence(data@, pat@, i as int),
            None => !occurs_in(data@, pat@),
        },
{
    let mut i: usize = 0;
    while i < data.len()
        invariant
            i <= data@.len(),
            forall|j: int| 0 <= j < i ==> !occurs_at(data@, pat@, j),
        decreases data@.len() - i,
    {
        if occurs_at_exec(data, pat, i) {
            return Some(i);
        }
        i = i + 1;
    }
    if occurs_at_exec(data, pat, i) {
        return Some(i);
    }
    assert forall|j: int| !occurs_at(data@, pat@, j) by {
        if 0 <= j && j > i {
            assert(j + pat@.len() > data@.len());
        }
    }
    None
}

/// Whether the broken epoch prefix occurs anywhere in `data`.
pub fn contains_broken_epoch(data: &[u8]) -> (r: bool)
    ensures
        r == occurs_in(data@, spec_broken_epoch_prefix()),
{
    let pat = broken_epoch_prefix();
    find_first(data, pat.as_slice()).is_some()
}

/// The byte offset of the first occurrence of the broken epoch prefix in `data`.
pub fn find_broken_epoch(data: &[u8]) -> (r: Option<usize>)
    ensures
        match r {
            Some(i) => first_occurrence(data@, spec_broken_epoch_prefix(), i as int),
            None => !occurs_in(data@, spec_broken_epoch_prefix()),
        },
{
    let pat = broken_epoch_prefix();
    find_first(data, pat.as_slice())
}

/// Whether the repaired epoch entry is present in `data`: the epoch header
/// occurs somewhere and the byte that follows it (the authority-list length)
/// is present and not zero.
pub fn is_patched(data: &[u8]) -> (r: bool)
    ensures
        r == spec_is_patched(data@),
{
    let header = epoch_header();
    let n = header.len();
    let mut i: usize = 0;
    while i < data.len()
        invariant
            n == spec_epoch_header().len(),
            header@ == spec_epoch_header(),
            i <= data@.len(),
            forall|j: int| 0 <= j < i ==> !patched_at(data@, j),
        decreases data@.len() - i,
    {
        if occurs_at_exec(data, header.as_slice(), i) && n < data.len() - i && data[i + n] != 0 {
            assert(patched_at(data@, i as int));
            return true;
        }
        i = i + 1;
    }
    assert forall|j: int| !patched_at(data@, j) by {
        if 0 <= j && j >= i {
            assert(j + n >= data@.len());
        }
    }
    false
}

} // verus!
