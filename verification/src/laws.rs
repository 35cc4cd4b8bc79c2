//! What the library's operations are for, stated over the bytes themselves and
//! proved against the definitions the contracts use.

use vstd::prelude::*;

use crate::cli::{first_flag_at, has_flag};
use crate::layout::spec_epoch_changes_key;
use crate::patch::{lemma_broken_occurrences_disjoint, spec_patched_blob};
use crate::pattern::{
    first_occurrence, occurs_at, occurs_in, spec_broken_epoch_prefix, spec_epoch_header,
    spec_good_authorities, spec_is_patched,
};

verus! {

/// The little-endian `u64` stored in the eight bytes of `s` from `i` on.
pub open spec fn le_u64_at(s: Seq<u8>, i: int) -> int {
    s[i] + s[i + 1] * 0x100 + s[i + 2] * 0x1_0000 + s[i + 3] * 0x100_0000
        + s[i + 4] * 0x1_0000_0000 + s[i + 5] * 0x100_0000_0000
        + s[i + 6] * 0x1_0000_0000_0000 + s[i + 7] * 0x100_0000_0000_0000
}

/// The broken prefix is a `PersistedEpoch::Regular` entry (tag 1) of epoch
/// 39644 with start slot 295_153_305 and duration 600, followed by the
/// compact length 0 of an empty authority list; the header is that entry
/// without the length byte.
pub proof fn law_broken_prefix_is_epoch_39644_with_no_authorities()
    ensures
        spec_broken_epoch_prefix().len() == 26,
        spec_broken_epoch_prefix()[0] == 1,
        le_u64_at(spec_broken_epoch_prefix(), 1) == 39644,
        le_u64_at(spec_broken_epoch_prefix(), 9) == 295_153_305,
        le_u64_at(spec_broken_epoch_prefix(), 17) == 600,
        spec_broken_epoch_prefix()[25] == 0,
        spec_epoch_header() == spec_broken_epoch_prefix().take(25),
{
    assert(spec_epoch_header() =~= spec_broken_epoch_prefix().take(25));
}

/// The replacement list is the authority set of epoch 39643: compact length 6
/// (`6 << 2`), then six distinct 32-byte keys, each with weight 1.
pub proof fn law_good_authorities_are_epoch_39643()
    ensures
        spec_good_authorities().len() == 1 + 6 * 40,
        spec_good_authorities()[0] == 6 * 4,
        forall|a: int| 0 <= a < 6 ==> #[trigger] le_u64_at(spec_good_authorities(), 33 + 40 * a) == 1,
        forall|a: int, b: int| 0 <= a < 6 && 0 <= b < 6 && a != b ==>
            #[trigger] spec_good_authorities().subrange(1 + 40 * a, 33 + 40 * a)
                != #[trigger] spec_good_authorities().subrange(1 + 40 * b, 33 + 40 * b),
        spec_good_authorities().subrange(1, 33) == seq![
            0x72u8, 0x42, 0xe6, 0x36, 0x3d, 0xff, 0xc4, 0xe5,
            0xd6, 0xdb, 0x33, 0x94, 0xbc, 0x3a, 0xbd, 0x27,
            0xc8, 0xd1, 0x8c, 0xc2, 0x4b, 0x27, 0x13, 0x1c,
            0x28, 0x0d, 0xb9, 0x74, 0x93, 0x71, 0x71, 0x79,
        ],
        spec_good_authorities().subrange(41, 73) == seq![
            0x80u8, 0x6c, 0xa0, 0x5e, 0x21, 0xf9, 0x8b, 0xf0,
            0x19, 0xc9, 0xb1, 0x17, 0x04, 0xd1, 0xf9, 0x58,
            0x30, 0xbf, 0x6c, 0x79, 0xf7, 0x57, 0x42, 0x2e,
            0xcd, 0x7c, 0x74, 0x1c, 0xc9, 0x00, 0x81, 0x3d,
        ],
        spec_good_authorities().subrange(81, 113) == seq![
            0x02u8, 0xec, 0x4a, 0xc0, 0x9a, 0xa7, 0x4d, 0xe6,
            0x4a, 0x1f, 0x98, 0x1e, 0x1a, 0x26, 0xae, 0xa0,
            0xd0, 0x8b, 0xb8, 0x36, 0x24, 0x05, 0x54, 0xed,
            0x86, 0xf8, 0xf7, 0xa9, 0x32, 0x89, 0x13, 0x2e,
        ],
        spec_good_authorities().subrange(121, 153) == seq![
            0x3cu8, 0x05, 0xb4, 0x45, 0x12, 0x57, 0x0e, 0x65,
            0x61, 0x7d, 0xbb, 0x39, 0xbe, 0x56, 0x39, 0x31,
            0x70, 0x8b, 0x20, 0x04, 0x60, 0x9d, 0x92, 0x0f,
            0x39, 0xe1, 0x58, 0xf7, 0x3e, 0x05, 0x4b, 0x4f,
        ],
        spec_good_authorities().subrange(161, 193) == seq![
            0x96u8, 0x40, 0xb0, 0xfd, 0x54, 0xe0, 0x0c, 0xf4,
            0x73, 0xf3, 0x88, 0x82, 0x14, 0x91, 0x52, 0x3c,
            0xc1, 0x0f, 0xec, 0x90, 0xe7, 0x3a, 0x36, 0x97,
            0xc5, 0x36, 0x6a, 0x63, 0xac, 0x17, 0x6a, 0x64,
        ],
        spec_good_authorities().subrange(201, 233) == seq![
            0xdau8, 0x83, 0x50, 0x57, 0x65, 0x85, 0x80, 0x7e,
            0x08, 0x3b, 0x4b, 0x0a, 0xc4, 0x58, 0x6d, 0x77,
            0x05, 0x1f, 0x18, 0x99, 0x97, 0x1e, 0xa8, 0xad,
            0x33, 0xd8, 0x68, 0x4b, 0x91, 0x0c, 0x31, 0x0e,
        ],
{
    let g = spec_good_authorities();
    assert forall|a: int| 0 <= a < 6 implies #[trigger] le_u64_at(g, 33 + 40 * a) == 1 by {
        assert(a == 0 || a == 1 || a == 2 || a == 3 || a == 4 || a == 5);
    }
    assert forall|a: int, b: int| 0 <= a < 6 && 0 <= b < 6 && a != b implies
        #[trigger] g.subrange(1 + 40 * a, 33 + 40 * a) != #[trigger] g.subrange(1 + 40 * b, 33 + 40 * b) by {
        assert(g.subrange(1 + 40 * a, 33 + 40 * a)[0] == g[1 + 40 * a]);
        assert(g.subrange(1 + 40 * b, 33 + 40 * b)[0] == g[1 + 40 * b]);
        assert(a == 0 || a == 1 || a == 2 || a == 3 || a == 4 || a == 5);
        assert(b == 0 || b == 1 || b == 2 || b == 3 || b == 4 || b == 5);
    }

}

/// Whether a pattern occurs at `i` is whether each byte of the window of
/// `data` starting at `i` equals the corresponding byte of the pattern.
pub proof fn law_occurs_at_is_bytewise_window_match(data: Seq<u8>, pat: Seq<u8>, i: int)
    ensures
        occurs_at(data, pat, i) <==> {
            &&& 0 <= i
            &&& i + pat.len() <= data.len()
            &&& forall|k: int| 0 <= k < pat.len() ==> data[i + k] == #[trigger] pat[k]
        },
{
    if 0 <= i && i + pat.len() <= data.len() {
        if forall|k: int| 0 <= k < pat.len() ==> data[i + k] == #[trigger] pat[k] {
            assert(data.subrange(i, i + pat.len()) =~= pat);
        }
        if occurs_at(data, pat, i) {
            assert forall|k: int| 0 <= k < pat.len() implies data[i + k] == #[trigger] pat[k] by {
                assert(data.subrange(i, i + pat.len())[k] == pat[k]);
            }
        }
    }
}

/// An occurrence depends only on the bytes under the window: two blobs that
/// agree on their windows agree on whether the pattern occurs there.
pub proof fn law_occurrence_depends_only_on_window(
    a: Seq<u8>,
    i: int,
    b: Seq<u8>,
    j: int,
    pat: Seq<u8>,
)
    requires
        0 <= i && i + pat.len() <= a.len(),
        0 <= j && j + pat.len() <= b.len(),
        a.subrange(i, i + pat.len()) == b.subrange(j, j + pat.len()),
    ensures
        occurs_at(a, pat, i) == occurs_at(b, pat, j),
{
}

/// The broken prefix placed after bytes that do not hold it is found there
/// first, whatever follows it.
pub proof fn law_broken_prefix_after_clean_bytes_is_first(before: Seq<u8>, after: Seq<u8>)
    requires
        !occurs_in(before, spec_broken_epoch_prefix()),
    ensures
        first_occurrence(
            before + spec_broken_epoch_prefix() + after,
            spec_broken_epoch_prefix(),
            before.len() as int,
        ),
{
    let p = spec_broken_epoch_prefix();
    let d = before + p + after;
    let n = before.len() as int;
    law_broken_prefix_is_epoch_39644_with_no_authorities();
    assert(d.subrange(n, n + 26) =~= p);
    assert(occurs_at(d, p, n));
    assert forall|j: int| 0 <= j < n implies !occurs_at(d, p, j) by {
        if occurs_at(d, p, j) {
            if j + 26 <= n {
                assert(d.subrange(j, j + 26) =~= before.subrange(j, j + 26));
                assert(occurs_at(before, p, j));
            } else {
                lemma_broken_occurrences_disjoint(d, j, n);
            }
        }
    }
}

/// The repaired entry is present exactly when the 25-byte epoch header occurs
/// and the byte right after it (the authority-list length) is not zero; a blob
/// whose header occurrences are all followed by `0x00` is not repaired.
pub proof fn law_is_patched_reads_the_length_byte(data: Seq<u8>)
    ensures
        spec_is_patched(data) <==> exists|i: int|
            0 <= i && i + 26 <= data.len()
                && #[trigger] data.subrange(i, i + 25) == spec_broken_epoch_prefix().take(25)
                && data[i + 25] != 0,
{
    law_broken_prefix_is_epoch_39644_with_no_authorities();
    if spec_is_patched(data) {
        let i = choose|i: int| crate::pattern::patched_at(data, i);
        assert(data.subrange(i, i + 25) == spec_broken_epoch_prefix().take(25));
    }
    if exists|i: int|
        0 <= i && i + 26 <= data.len()
            && #[trigger] data.subrange(i, i + 25) == spec_broken_epoch_prefix().take(25)
            && data[i + 25] != 0 {
        let i = choose|i: int|
            0 <= i && i + 26 <= data.len()
                && #[trigger] data.subrange(i, i + 25) == spec_broken_epoch_prefix().take(25)
                && data[i + 25] != 0;
        assert(crate::pattern::patched_at(data, i));
    }
}

/// The patched blob keeps every byte before the replaced length byte, puts the
/// good authority list in its place, and keeps every byte after it unchanged,
/// moved by the 240 bytes the list adds.
pub proof fn law_patched_blob_layout(raw: Seq<u8>, pos: int)
    requires
        occurs_at(raw, spec_broken_epoch_prefix(), pos),
    ensures
        spec_patched_blob(raw, pos).len() == raw.len() + 240,
        forall|k: int| 0 <= k < pos + 25 ==> spec_patched_blob(raw, pos)[k] == #[trigger] raw[k],
        forall|k: int| 0 <= k < 241 ==>
            spec_patched_blob(raw, pos)[pos + 25 + k] == #[trigger] spec_good_authorities()[k],
        forall|k: int| pos + 26 <= k < raw.len() ==>
            spec_patched_blob(raw, pos)[k + 240] == #[trigger] raw[k],
{
    law_broken_prefix_is_epoch_39644_with_no_authorities();
    law_good_authorities_are_epoch_39643();
    let s = spec_patched_blob(raw, pos);
    let a = pos + 25;
    assert forall|k: int| pos + 26 <= k < raw.len() implies s[k + 240] == #[trigger] raw[k] by {
        assert(s[k + 240] == raw.subrange(a + 1, raw.len() as int)[k - a - 1]);
    }
}

/// A flag is present exactly when some argument, at any position, is that flag.
pub proof fn law_has_flag_is_any_argument(args: Seq<String>, flag: Seq<char>)
    ensures
        has_flag(args, flag) <==> args.map_values(|s: String| s@).contains(flag),
{
    let v = args.map_values(|s: String| s@);
    if has_flag(args, flag) {
        let k = choose|k: int| 0 <= k < args.len() && #[trigger] args[k]@ == flag;
        assert(v[k] == flag);
    }
    if v.contains(flag) {
        let k = choose|k: int| 0 <= k < v.len() && v[k] == flag;
        assert(args[k]@ == flag);
    }
}

/// The first position of a flag is the argument equal to it with no earlier
/// argument equal to it.
pub proof fn law_first_flag_is_earliest(args: Seq<String>, flag: Seq<char>, p: int)
    ensures
        first_flag_at(args, flag, p) <==> {
            &&& 0 <= p < args.len()
            &&& args[p]@ == flag
            &&& !args.take(p).map_values(|s: String| s@).contains(flag)
        },
{
    if 0 <= p < args.len() {
        let v = args.take(p).map_values(|s: String| s@);
        if v.contains(flag) {
            let k = choose|k: int| 0 <= k < v.len() && v[k] == flag;
            assert(args[k]@ == flag);
        }
        if !v.contains(flag) {
            assert forall|k: int| 0 <= k < p implies #[trigger] args[k]@ != flag by {
                assert(v[k] == args[k]@);
            }
        }
    }
}

/// The key of the blob is the ASCII text `babe_epoch_changes`.
pub proof fn law_epoch_changes_key_is_ascii_name()
    ensures
        spec_epoch_changes_key() == "babe_epoch_changes"@.map_values(|c: char| c as u8),
{
    reveal_strlit("babe_epoch_changes");
    assert(spec_epoch_changes_key() =~= "babe_epoch_changes"@.map_values(|c: char| c as u8));
}

} // verus!
