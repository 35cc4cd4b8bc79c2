//! The layout of the Substrate ParityDB database that holds the epoch changes.

use vstd::prelude::*;

verus! {

/// Number of columns of a Substrate ParityDB database.
pub const NUM_COLUMNS: u8 = 13;

/// The column of auxiliary data, where `babe_epoch_changes` is stored.
pub const AUX_COLUMN: u8 = 8;

/// The settings of one column that the database has to be opened with.
#[derive(Debug, Clone, Copy, PartialEq, Eq)]
pub struct ColumnSettings {
    /// Values are compressed with LZ4.
    pub lz4: bool,
    /// Values are reference counted.
    pub ref_counted: bool,
    /// Values are preimages of their keys.
    pub preimage: bool,
    /// Keys are uniformly distributed.
    pub uniform: bool,
}

/// The columns whose values Substrate compresses with LZ4.
pub open spec fn is_lz4_column(c: int) -> bool {
    c == 1 || c == 4 || c == 5 || c == 6 || c == 11 || c == 12
}

/// The reference-counted preimage columns with uniform keys (state and
/// block bodies).
pub open spec fn is_ref_counted_column(c: int) -> bool {
    c == 1 || c == 11
}

/// The settings of column `c`.
pub open spec fn spec_column_settings(c: int) -> ColumnSettings {
    ColumnSettings {
        lz4: is_lz4_column(c),
        ref_counted: is_ref_counted_column(c),
        preimage: is_ref_counted_column(c),
        uniform: is_ref_counted_column(c),
    }
}

/// The settings of every column, in column order, as Substrate opens the database.
pub fn column_layout() -> (v: Vec<ColumnSettings>)
    ensures
        v@.len() == NUM_COLUMNS,
        forall|c: int| 0 <= c < NUM_COLUMNS ==> #[trigger] v@[c] == spec_column_settings(c),
{
    let mut v: Vec<ColumnSettings> = Vec::new();
    let mut c: u8 = 0;
    while c < NUM_COLUMNS
        invariant
            c <= NUM_COLUMNS,
            v@.len() == c,
            forall|k: int| 0 <= k < c ==> #[trigger] v@[k] == spec_column_settings(k),
        decreases NUM_COLUMNS - c,
    {
        let lz4 = c == 1 || c == 4 || c == 5 || c == 6 || c == 11 || c == 12;
        let counted = c == 1 || c == 11;
        v.push(ColumnSettings { lz4, ref_counted: counted, preimage: counted, uniform: counted });
        c = c + 1;
    }
    v
}

/// The key of the epoch changes in the auxiliary column: `babe_epoch_changes`.
pub open spec fn spec_epoch_changes_key() -> Seq<u8> {
    seq![
        0x62u8, 0x61, 0x62, 0x65, 0x5f, 0x65, 0x70, 0x6f, 0x63, 0x68, 0x5f, 0x63, 0x68, 0x61,
        0x6e, 0x67, 0x65, 0x73,
    ]
}

/// The key of the epoch changes as bytes.
pub fn epoch_changes_key() -> (v: Vec<u8>)
    ensures
        v@ == spec_epoch_changes_key(),
{
    let v: Vec<u8> = vec![
        0x62u8, 0x61, 0x62, 0x65, 0x5f, 0x65, 0x70, 0x6f, 0x63, 0x68, 0x5f, 0x63, 0x68, 0x61,
        0x6e, 0x67, 0x65, 0x73,
    ];
    assert(v@ =~= spec_epoch_changes_key());
    v
}

} // verus!
