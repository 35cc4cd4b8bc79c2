use babe_epoch_fix::cli::{
    parse_info_args, parse_patch_args, parse_restore_args, parse_subcommand, Subcommand,
};
use babe_epoch_fix::layout::{column_layout, epoch_changes_key, AUX_COLUMN, NUM_COLUMNS};

fn args(v: &[&str]) -> Vec<String> {
    v.iter().map(|s| s.to_string()).collect()
}

#[test]
fn subcommands() {
    assert_eq!(parse_subcommand(&args(&["tool", "patch", "db"])), Subcommand::Patch);
    assert_eq!(parse_subcommand(&args(&["tool", "restore"])), Subcommand::Restore);
    assert_eq!(parse_subcommand(&args(&["tool", "info"])), Subcommand::Info);
    assert_eq!(parse_subcommand(&args(&["tool", "fix"])), Subcommand::Unknown);
    assert_eq!(parse_subcommand(&args(&["tool"])), Subcommand::Unknown);
}

#[test]
fn patch_args_defaults() {
    let a = parse_patch_args(&args(&["/data/db"])).unwrap();
    assert_eq!(a.db_path, "/data/db");
    assert!(!a.dry_run);
    assert_eq!(a.backup_path, None);
}

#[test]
fn patch_args_dry_run_and_backup() {
    let a = parse_patch_args(&args(&["db", "--backup", "/tmp/b.bak", "--dry-run"])).unwrap();
    assert_eq!(a.db_path, "db");
    assert!(a.dry_run);
    assert_eq!(a.backup_path.as_deref(), Some("/tmp/b.bak"));
}

#[test]
fn patch_args_first_backup_wins_and_trailing_backup_is_ignored() {
    let a = parse_patch_args(&args(&["db", "--backup", "x", "--backup", "y"])).unwrap();
    assert_eq!(a.backup_path.as_deref(), Some("x"));
    let b = parse_patch_args(&args(&["db", "--backup"])).unwrap();
    assert_eq!(b.backup_path, None);
}

#[test]
fn patch_args_missing_db_path() {
    assert!(parse_patch_args(&args(&[])).is_none());
}

#[test]
fn restore_and_info_args() {
    assert!(parse_restore_args(&args(&["db"])).is_none());
    let r = parse_restore_args(&args(&["db", "b.bak", "extra"])).unwrap();
    assert_eq!(r.db_path, "db");
    assert_eq!(r.backup_path, "b.bak");
    assert!(parse_info_args(&args(&[])).is_none());
    assert_eq!(parse_info_args(&args(&["db"])).unwrap(), "db");
}

#[test]
fn column_layout_matches_substrate() {
    let l = column_layout();
    assert_eq!(l.len(), NUM_COLUMNS as usize);
    assert_eq!(NUM_COLUMNS, 13);
    assert_eq!(AUX_COLUMN, 8);
    for (c, s) in l.iter().enumerate() {
        assert_eq!(s.lz4, [1, 4, 5, 6, 11, 12].contains(&c));
        assert_eq!(s.ref_counted, c == 1 || c == 11);
        assert_eq!(s.preimage, c == 1 || c == 11);
        assert_eq!(s.uniform, c == 1 || c == 11);
    }
}

#[test]
fn epoch_changes_key_bytes() {
    assert_eq!(epoch_changes_key(), b"babe_epoch_changes".to_vec());
}
