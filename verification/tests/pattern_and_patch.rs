use babe_epoch_fix::patch::{inspect, patch_blob, plan_patch, PatchError, PatchPlan};
use babe_epoch_fix::pattern::{
    broken_epoch_prefix, contains_broken_epoch, epoch_header, find_broken_epoch,
    good_authorities, is_patched,
};

fn blob_with_broken_at(before: &[u8], after: &[u8]) -> Vec<u8> {
    let mut v = before.to_vec();
    v.extend_from_slice(&broken_epoch_prefix());
    v.extend_from_slice(after);
    v
}

#[test]
fn prefix_layout_matches_epoch_39644() {
    let p = broken_epoch_prefix();
    assert_eq!(p.len(), 26);
    assert_eq!(p[0], 0x01);
    assert_eq!(u64::from_le_bytes(p[1..9].try_into().unwrap()), 39644);
    assert_eq!(u64::from_le_bytes(p[9..17].try_into().unwrap()), 295_153_305);
    assert_eq!(u64::from_le_bytes(p[17..25].try_into().unwrap()), 600);
    assert_eq!(p[25], 0x00);
    assert_eq!(epoch_header(), p[..25].to_vec());
}

#[test]
fn good_authorities_layout() {
    let g = good_authorities();
    assert_eq!(g.len(), 1 + 6 * 40);
    assert_eq!(g[0], 0x18);
    for a in 0..6 {
        let w = 1 + a * 40 + 32;
        assert_eq!(u64::from_le_bytes(g[w..w + 8].try_into().unwrap()), 1);
    }
    assert_eq!(&g[1..5], &[0x72, 0x42, 0xe6, 0x36]);
}

#[test]
fn finds_broken_entry_and_its_first_offset() {
    let raw = blob_with_broken_at(&[9, 9, 9], &[7, 7]);
    assert!(contains_broken_epoch(&raw));
    assert_eq!(find_broken_epoch(&raw), Some(3));
    let mut two = raw.clone();
    two.extend_from_slice(&broken_epoch_prefix());
    assert_eq!(find_broken_epoch(&two), Some(3));
    assert!(!contains_broken_epoch(&[1, 2, 3]));
    assert_eq!(find_broken_epoch(&[]), None);
    let short = &broken_epoch_prefix()[..25];
    assert!(!contains_broken_epoch(short));
}

#[test]
fn is_patched_needs_a_nonzero_length_after_the_header() {
    let mut v = vec![5u8];
    v.extend_from_slice(&epoch_header());
    // header at the very end: no length byte follows
    assert!(!is_patched(&v));
    v.push(0x00);
    assert!(!is_patched(&v));
    let last = v.len() - 1;
    v[last] = 0x18;
    assert!(is_patched(&v));
    assert!(!is_patched(&[]));
}

#[test]
fn patch_blob_splices_the_authorities() {
    let raw = blob_with_broken_at(&[0xaa, 0xbb], &[0xcc, 0xdd, 0xee]);
    let patched = patch_blob(&raw, 2);
    assert_eq!(patched.len(), raw.len() + 240);
    assert_eq!(&patched[..2], &[0xaa, 0xbb]);
    assert_eq!(&patched[2..27], &epoch_header()[..]);
    assert_eq!(&patched[27..268], &good_authorities()[..]);
    assert_eq!(&patched[268..], &[0xcc, 0xdd, 0xee]);
    assert!(is_patched(&patched));
    assert!(!contains_broken_epoch(&patched));
}

#[test]
fn plan_patch_on_broken_blob_is_ready() {
    let raw = blob_with_broken_at(&[1, 2, 3, 4], &[5, 6]);
    match plan_patch(&raw) {
        Ok(PatchPlan::Ready { offset, patched }) => {
            assert_eq!(offset, 4);
            assert_eq!(patched, patch_blob(&raw, 4));
            assert_eq!(patched.len() - raw.len(), 240);
        },
        other => panic!("unexpected plan {:?}", other),
    }
}

#[test]
fn second_run_finds_the_blob_already_patched() {
    let raw = blob_with_broken_at(&[0x42], &[0x43]);
    let patched = match plan_patch(&raw) {
        Ok(PatchPlan::Ready { patched, .. }) => patched,
        other => panic!("unexpected plan {:?}", other),
    };
    assert!(matches!(plan_patch(&patched), Ok(PatchPlan::AlreadyPatched)));
}

#[test]
fn plan_patch_without_either_pattern() {
    assert!(matches!(plan_patch(&[0u8; 100]), Ok(PatchPlan::PatternNotFound)));
    assert!(matches!(plan_patch(&[]), Ok(PatchPlan::PatternNotFound)));
}

#[test]
fn plan_patch_refuses_when_broken_prefix_occurs_twice() {
    let mut raw = blob_with_broken_at(&[], &[0x10]);
    raw.extend_from_slice(&broken_epoch_prefix());
    assert_eq!(plan_patch(&raw).unwrap_err(), PatchError::BrokenPatternRemains);
}

#[test]
fn inspect_reports_size_offset_and_state() {
    let raw = blob_with_broken_at(&[3, 3], &[]);
    let r = inspect(&raw);
    assert_eq!(r.size, 28);
    assert_eq!(r.broken_offset, Some(2));
    assert!(!r.patched);
    let p = patch_blob(&raw, 2);
    let r2 = inspect(&p);
    assert_eq!(r2.size, 268);
    assert_eq!(r2.broken_offset, None);
    assert!(r2.patched);
}
