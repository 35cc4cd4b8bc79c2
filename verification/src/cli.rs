//! The command line: which subcommand is asked for and what its arguments say.

use vstd::prelude::*;

verus! {

/// The subcommand named by the first argument after the program name.
#[derive(Debug, Clone, Copy, PartialEq, Eq)]
pub enum Subcommand {
    Patch,
    Restore,
    Info,
    /// No subcommand, or one that is not known: the usage is printed.
    Unknown,
}

/// The arguments of `patch <db-path> [--dry-run] [--backup <file>]`.
#[derive(Debug, Clone)]
pub struct PatchArgs {
    pub db_path: String,
    /// `--dry-run` stands among the arguments.
    pub dry_run: bool,
    /// The argument after the first `--backup`; `None` asks for the default
    /// backup file inside the database directory.
    pub backup_path: Option<String>,
}

/// The arguments of `restore <db-path> <backup-file>`.
#[derive(Debug, Clone)]
pub struct RestoreArgs {
    pub db_path: String,
    pub backup_path: String,
}

/// `flag` is one of `args`.
pub open spec fn has_flag(args: Seq<String>, flag: Seq<char>) -> bool {
    exists|k: int| 0 <= k < args.len() && #[trigger] args[k]@ == flag
}

/// `p` is the position of the first `flag` in `args`.
pub open spec fn first_flag_at(args: Seq<String>, flag: Seq<char>, p: int) -> bool {
    &&& 0 <= p < args.len()
    &&& args[p]@ == flag
    &&& forall|k: int| 0 <= k < p ==> #[trigger] args[k]@ != flag
}

/// There is at most one first position of a flag.
proof fn lemma_first_flag_unique(args: Seq<String>, flag: Seq<char>, p: int, q: int)
    requires
        first_flag_at(args, flag, p),
        first_flag_at(args, flag, q),
    ensures
        p == q,
{
    if p < q {
        assert(args[p]@ != flag);
    } else if q < p {
        assert(args[q]@ != flag);
    }
}

/// Whether `arg` is the text `lit`.
fn arg_is(arg: &String, lit: &str) -> (r: bool)
    ensures
        r == (arg@ == lit@),
{
    let owned = lit.to_owned();
    *arg == owned
}

/// The position of the first `flag` in `args`, if any.
fn position_of(args: &[String], flag: &str) -> (r: Option<usize>)
    ensures
        match r {
            Some(p) => first_flag_at(args@, flag@, p as int),
            None => !has_flag(args@, flag@),
        },
{
    let mut k: usize = 0;
    while k < args.len()
        invariant
            k <= args@.len(),
            forall|m: int| 0 <= m < k ==> #[trigger] args@[m]@ != flag@,
        decreases args@.len() - k,
    {
        if arg_is(&args[k], flag) {
            return Some(k);
        }
        k = k + 1;
    }
    None
}

/// Reads the subcommand from the full argument list (program name first).
pub fn parse_subcommand(args: &[String]) -> (r: Subcommand)
    ensures
        r == (if args@.len() < 2 {
            Subcommand::Unknown
        } else if args@[1]@ == "patch"@ {
            Subcommand::Patch
        } else if args@[1]@ == "restore"@ {
            Subcommand::Restore
        } else if args@[1]@ == "info"@ {
            Subcommand::Info
        } else {
            Subcommand::Unknown
        }),
{
    if args.len() < 2 {
        Subcommand::Unknown
    } else if arg_is(&args[1], "patch") {
        Subcommand::Patch
    } else if arg_is(&args[1], "restore") {
        Subcommand::Restore
    } else if arg_is(&args[1], "info") {
        Subcommand::Info
    } else {
        Subcommand::Unknown
    }
}

/// Reads the arguments that follow `patch`; `None` when the database path is missing.
pub fn parse_patch_args(args: &[String]) -> (r: Option<PatchArgs>)
    ensures
        r is None <==> args@.len() == 0,
        r matches Some(a) ==> {
            &&& a.db_path@ == args@[0]@
            &&& a.dry_run == has_flag(args@, "--dry-run"@)
            &&& match a.backup_path {
                Some(b) => exists|p: int|
                    #[trigger] first_flag_at(args@, "--backup"@, p) && p + 1 < args@.len()
                        && b@ == args@[p + 1]@,
                None => forall|p: int|
                    #[trigger] first_flag_at(args@, "--backup"@, p) ==> p + 1 >= args@.len(),
            }
        },
{
    if args.len() == 0 {
        return None;
    }
    let db_path = args[0].clone();
    let dry_run = position_of(args, "--dry-run").is_some();
    let backup_path = match position_of(args, "--backup") {
        Some(p) => {
            proof {
                assert forall|q: int| #[trigger] first_flag_at(args@, "--backup"@, q) implies q == p by {
                    lemma_first_flag_unique(args@, "--backup"@, p as int, q);
                }
            }
            if p + 1 < args.len() {
                Some(args[p + 1].clone())
            } else {
                None
            }
        },
        None => None,
    };
    Some(PatchArgs { db_path, dry_run, backup_path })
}

/// Reads the arguments that follow `restore`; `None` when fewer than two are given.
pub fn parse_restore_args(args: &[String]) -> (r: Option<RestoreArgs>)
    ensures
        r is None <==> args@.len() < 2,
        r matches Some(a) ==> a.db_path@ == args@[0]@ && a.backup_path@ == args@[1]@,
{
    if args.len() < 2 {
        return None;
    }
    Some(RestoreArgs { db_path: args[0].clone(), backup_path: args[1].clone() })
}

/// Reads the database path that follows `info`; `None` when it is missing.
pub fn parse_info_args(args: &[String]) -> (r: Option<String>)
    ensures
        r is None <==> args@.len() == 0,
        r matches Some(db_path) ==> db_path@ == args@[0]@,
{
    if args.len() == 0 {
        return None;
    }
    Some(args[0].clone())
}

} // verus!
