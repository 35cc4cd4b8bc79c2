//! Repairing the broken epoch entry: the splice that replaces its empty
//! authority list, the laws it obeys, and the decision what a patch run does.

use vstd::prelude::*;

use crate::pattern::{
    broken_epoch_prefix, find_broken_epoch, good_authorities, contains_broken_epoch,
    is_patched, first_occurrence, occurs_at, occurs_in, patched_at, spec_broken_epoch_prefix,
    spec_epoch_header, spec_good_authorities, spec_is_patched,
};

verus! {

/// `raw` with the authority-length byte of the broken entry at `pos` replaced by
/// the good authority list: everything before that byte, the list, everything after.
pub open spec fn spec_patched_blob(raw: Seq<u8>, pos: int) -> Seq<u8> {
    let a = pos + spec_broken_epoch_prefix().len() - 1;
    raw.subrange(0, a) + spec_good_authorities() + raw.subrange(a + 1, raw.len() as int)
}

/// Builds the patched blob for the broken entry at `pos`.
pub fn patch_blob(raw: &[u8], pos: usize) -> (r: Vec<u8>)
    requires
        occurs_at(raw@, spec_broken_epoch_prefix(), pos as int),
        raw@.len() + spec_good_authorities().len() <= usize::MAX,
    ensures
        r@ == spec_patched_blob(raw@, pos as int),
        r@.len() == raw@.len() + spec_good_authorities().len() - 1,
{
    let prefix = broken_epoch_prefix();
    let good = good_authorities();
    let a = pos + prefix.len() - 1;
    let mut r: Vec<u8> = Vec::with_capacity(raw.len() + good.len() - 1);
    let mut i: usize = 0;
    while i < a
        invariant
            a < raw@.len(),
            i <= a,
            r@ == raw@.subrange(0, i as int),
        decreases a - i,
    {
        r.push(raw[i]);
        i = i + 1;
        assert(r@ =~= raw@.subrange(0, i as int));
    }
    let mut k: usize = 0;
    while k < good.len()
        invariant
            good@ == spec_good_authorities(),
            k <= good@.len(),
            r@ == raw@.subrange(0, a as int) + good@.subrange(0, k as int),
        decreases good@.len() - k,
    {
        r.push(good[k]);
        k = k + 1;
        assert(r@ =~= raw@.subrange(0, a as int) + good@.subrange(0, k as int));
    }
    assert(good@.subrange(0, k as int) =~= good@);
    let mut j: usize = a + 1;
    while j < raw.len()
        invariant
            good@ == spec_good_authorities(),
            a + 1 <= j <= raw@.len(),
            r@ == raw@.subrange(0, a as int) + good@ + raw@.subrange(a + 1, j as int),
        decreases raw@.len() - j,
    {
        r.push(raw[j]);
        j = j + 1;
        assert(r@ =~= raw@.subrange(0, a as int) + good@ + raw@.subrange(a + 1, j as int));
    }
    r
}

/// Patching the broken entry at `pos` yields a blob in which the repaired entry
/// is present (at `pos`).
pub proof fn lemma_patched_blob_is_patched(raw: Seq<u8>, pos: int)
    requires
        occurs_at(raw, spec_broken_epoch_prefix(), pos),
    ensures
        patched_at(spec_patched_blob(raw, pos), pos),
        spec_is_patched(spec_patched_blob(raw, pos)),
{
    let p = spec_broken_epoch_prefix();
    let h = spec_epoch_header();
    let s = spec_patched_blob(raw, pos);
    assert(p.len() == 26);
    assert(h.len() == 25);
    assert forall|k: int| 0 <= k < 25 implies s[pos + k] == #[trigger] h[k] by {
        assert(raw.subrange(pos, pos + 26)[k] == p[k]);
    }
    assert(s.subrange(pos, pos + 25) =~= h);
    assert(s[pos + 25] == 0x18);
    assert(patched_at(s, pos));
}

/// Bytes of the broken prefix and of the good authority list that make a
/// new occurrence of the prefix impossible where the list is spliced in.
proof fn lemma_pattern_bytes()
    ensures
        spec_broken_epoch_prefix().len() == 26,
        spec_good_authorities().len() == 241,
        spec_broken_epoch_prefix()[0] == 0x01,
        spec_broken_epoch_prefix()[1] == 0xdc,
        spec_broken_epoch_prefix()[25] == 0x00,
        spec_good_authorities()[0] == 0x18,
        spec_good_authorities()[240] == 0x00,
        forall|k: int| 1 <= k < 26 ==> #[trigger] spec_broken_epoch_prefix()[k] != 0x01,
        forall|k: int| 0 <= k < 241 ==> #[trigger] spec_good_authorities()[k] != 0xdc,
{
}

/// The occurrences of the broken prefix in the patched blob are exactly the
/// occurrences in `raw` other than the patched one: those before it at the
/// same offset, those after it moved by the growth of the blob.
pub proof fn lemma_patched_blob_occurrences(raw: Seq<u8>, pos: int, i: int)
    requires
        occurs_at(raw, spec_broken_epoch_prefix(), pos),
    ensures
        ({
            let p = spec_broken_epoch_prefix();
            let shift = spec_good_authorities().len() - 1;
            occurs_at(spec_patched_blob(raw, pos), p, i) <==> {
                ||| i < pos && occurs_at(raw, p, i)
                ||| i >= pos + p.len() + shift && occurs_at(raw, p, i - shift)
            }
        }),
{
    lemma_pattern_bytes();
    let p = spec_broken_epoch_prefix();
    let g = spec_good_authorities();
    let s = spec_patched_blob(raw, pos);
    let a = pos + 25;
    assert(s.len() == raw.len() + 240);
    if i < pos {
        if 0 <= i && i + 26 <= s.len() {
            assert(s.subrange(i, i + 26) =~= raw.subrange(i, i + 26));
        }
    } else if i >= pos + 266 {
        if i + 26 <= s.len() {
            assert forall|k: int| 0 <= k < 26 implies #[trigger] s.subrange(i, i + 26)[k]
                == raw.subrange(i - 240, i - 240 + 26)[k] by {
                assert(s[i + k] == raw.subrange(a + 1, raw.len() as int)[i + k - a - 241]);
            }
            assert(s.subrange(i, i + 26) =~= raw.subrange(i - 240, i - 240 + 26));
        }
    } else {
        if occurs_at(s, p, i) {
            assert(s.subrange(i, i + 26)[0] == p[0]);
            assert(s.subrange(i, i + 26)[1] == p[1]);
            assert(s.subrange(i, i + 26)[25] == p[25]);
            if i == pos {
                assert(s[pos + 25] == g[0]);
            } else if i < pos + 25 {
                assert(raw.subrange(pos, pos + 26)[i - pos] == p[i - pos]);
                assert(s[i] == raw[i]);
            } else if i < pos + 265 {
                assert(s[i + 1] == g[i + 1 - a]);
            } else {
                assert(s[i] == g[240]);
            }
        }
    }
}

/// Two occurrences of the broken prefix never overlap: the prefix starts with
/// the only `0x01` byte it holds.
pub proof fn lemma_broken_occurrences_disjoint(data: Seq<u8>, i: int, j: int)
    requires
        occurs_at(data, spec_broken_epoch_prefix(), i),
        occurs_at(data, spec_broken_epoch_prefix(), j),
        i < j,
    ensures
        i + spec_broken_epoch_prefix().len() <= j,
{
    lemma_pattern_bytes();
    let p = spec_broken_epoch_prefix();
    if j < i + 26 {
        assert(data.subrange(j, j + 26)[0] == p[0]);
        assert(data.subrange(i, i + 26)[j - i] == p[j - i]);
    }
}

/// The patched blob still holds the broken prefix exactly when `raw` holds it
/// somewhere other than at the patched position.
pub proof fn lemma_patched_blob_keeps_other_occurrences(raw: Seq<u8>, pos: int)
    requires
        occurs_at(raw, spec_broken_epoch_prefix(), pos),
    ensures
        occurs_in(spec_patched_blob(raw, pos), spec_broken_epoch_prefix())
            <==> exists|j: int| j != pos && #[trigger] occurs_at(raw, spec_broken_epoch_prefix(), j),
{
    let p = spec_broken_epoch_prefix();
    let s = spec_patched_blob(raw, pos);
    lemma_pattern_bytes();
    if occurs_in(s, p) {
        let i = choose|i: int| occurs_at(s, p, i);
        lemma_patched_blob_occurrences(raw, pos, i);
        if i < pos {
            assert(occurs_at(raw, p, i));
        } else {
            assert(occurs_at(raw, p, i - 240));
        }
    }
    if exists|j: int| j != pos && #[trigger] occurs_at(raw, p, j) {
        let j = choose|j: int| j != pos && #[trigger] occurs_at(raw, p, j);
        if j < pos {
            lemma_patched_blob_occurrences(raw, pos, j);
            assert(occurs_at(s, p, j));
        } else {
            lemma_broken_occurrences_disjoint(raw, pos, j);
            lemma_patched_blob_occurrences(raw, pos, j + 240);
            assert(occurs_at(s, p, j + 240));
        }
    }
}

/// Running the patch again on the blob that a patch run wrote finds nothing to
/// do: the broken prefix is gone and the repaired entry is present.
pub proof fn lemma_second_run_finds_blob_patched(raw: Seq<u8>, pos: int)
    requires
        occurs_at(raw, spec_broken_epoch_prefix(), pos),
        forall|j: int| j != pos ==> !#[trigger] occurs_at(raw, spec_broken_epoch_prefix(), j),
    ensures
        !occurs_in(spec_patched_blob(raw, pos), spec_broken_epoch_prefix()),
        spec_is_patched(spec_patched_blob(raw, pos)),
{
    lemma_patched_blob_is_patched(raw, pos);
    lemma_patched_blob_keeps_other_occurrences(raw, pos);
}

/// What a patch run does with the `babe_epoch_changes` blob it read.
#[derive(Debug)]
pub enum PatchPlan {
    /// The repaired entry is present and the broken one is not: nothing to write.
    AlreadyPatched,
    /// Neither the broken nor the repaired entry is present: the blob belongs to
    /// another chain or incident, and nothing is written.
    PatternNotFound,
    /// The broken entry was found first at `offset`; `patched` is the blob to write.
    Ready { offset: usize, patched: Vec<u8> },
}

/// Why a patch run refuses to write.
#[derive(Debug, Clone, Copy, PartialEq, Eq)]
pub enum PatchError {
    /// The broken prefix is still present after patching its first occurrence.
    BrokenPatternRemains,
}

/// The broken prefix occurs at two different positions of `data`.
pub open spec fn occurs_twice(data: Seq<u8>) -> bool {
    exists|i: int, j: int|
        i != j && #[trigger] occurs_at(data, spec_broken_epoch_prefix(), i)
            && #[trigger] occurs_at(data, spec_broken_epoch_prefix(), j)
}

/// Decides what a patch run does with `raw`: nothing when the broken entry is
/// absent (telling apart a blob that is already repaired from a foreign one),
/// otherwise the blob with the first broken entry repaired, unless the broken
/// prefix would still be present in it.
pub fn plan_patch(raw: &[u8]) -> (r: Result<PatchPlan, PatchError>)
    requires
        raw@.len() + spec_good_authorities().len() <= usize::MAX,
    ensures
        match r {
            Ok(PatchPlan::AlreadyPatched) => {
                &&& !occurs_in(raw@, spec_broken_epoch_prefix())
                &&& spec_is_patched(raw@)
            },
            Ok(PatchPlan::PatternNotFound) => {
                &&& !occurs_in(raw@, spec_broken_epoch_prefix())
                &&& !spec_is_patched(raw@)
            },
            Ok(PatchPlan::Ready { offset, patched }) => {
                &&& first_occurrence(raw@, spec_broken_epoch_prefix(), offset as int)
                &&& !occurs_twice(raw@)
                &&& patched@ == spec_patched_blob(raw@, offset as int)
                &&& spec_is_patched(patched@)
                &&& !occurs_in(patched@, spec_broken_epoch_prefix())
            },
            Err(PatchError::BrokenPatternRemains) => occurs_twice(raw@),
        },
{
    let already_patched = is_patched(raw);
    let pos = match find_broken_epoch(raw) {
        Some(pos) => pos,
        None => {
            if already_patched {
                return Ok(PatchPlan::AlreadyPatched);
            }
            return Ok(PatchPlan::PatternNotFound);
        },
    };
    let patched = patch_blob(raw, pos);
    proof {
        lemma_patched_blob_is_patched(raw@, pos as int);
        lemma_patched_blob_keeps_other_occurrences(raw@, pos as int);
    }
    if contains_broken_epoch(patched.as_slice()) {
        return Err(PatchError::BrokenPatternRemains);
    }
    Ok(PatchPlan::Ready { offset: pos, patched })
}

/// What the `info` command reports of a blob.
#[derive(Debug, Clone, Copy, PartialEq, Eq)]
pub struct EpochReport {
    /// Size of the blob in bytes.
    pub size: usize,
    /// Offset of the first broken epoch entry, if any.
    pub broken_offset: Option<usize>,
    /// Whether the repaired epoch entry is present.
    pub patched: bool,
}

/// Inspects a blob: its size, where the broken entry first stands, and whether
/// the repaired entry is present.
pub fn inspect(raw: &[u8]) -> (r: EpochReport)
    ensures
        r.size == raw@.len(),
        match r.broken_offset {
            Some(i) => first_occurrence(raw@, spec_broken_epoch_prefix(), i as int),
            None => !occurs_in(raw@, spec_broken_epoch_prefix()),
        },
        r.patched == spec_is_patched(raw@),
{
    EpochReport { size: raw.len(), broken_offset: find_broken_epoch(raw), patched: is_patched(raw) }
}

} // verus!
