//! The database schema versions and which migrations a database still needs.
use vstd::prelude::*;

verus! {

/// The schema version this build creates.
pub const LATEST_SCHEMA_VERSION: i64 = 4;

/// The migrations a database at schema `version` still needs, in order:
/// every one from `version + 1` to the latest.
pub open spec fn spec_pending_migrations(version: i64) -> Seq<i64> {
    Seq::new(
        if version < 0 { LATEST_SCHEMA_VERSION as nat } else if version >= LATEST_SCHEMA_VERSION { 0 } else { (
        LATEST_SCHEMA_VERSION - version) as nat },
        |i: int| (if version < 0 { i + 1 } else { version + 1 + i }) as i64,
    )
}

/// The migrations a database at schema `version` still needs, in order.
pub fn pending_migrations(version: i64) -> (ms: Vec<i64>)
    ensures
        ms@ == spec_pending_migrations(version),
{
    let mut ms: Vec<i64> = Vec::new();
    let mut k: i64 = 1;
    while k <= LATEST_SCHEMA_VERSION
        invariant
            1 <= k <= LATEST_SCHEMA_VERSION + 1,
            ms@ =~= Seq::new(
                if version < 0 { (k - 1) as nat } else if version >= k - 1 { 0 } else { (k - 1 - version) as nat },
                |i: int| (if version < 0 { i + 1 } else { version + 1 + i }) as i64,
            ),
        decreases LATEST_SCHEMA_VERSION + 1 - k,
    {
        if version < k {
            ms.push(k);
        }
        k = k + 1;
    }
    ms
}

/// Migrating is idempotent: a database at the latest version needs nothing,
/// and every pending migration raises the version.
pub proof fn lemma_migrations_idempotent(version: i64)
    ensures
        spec_pending_migrations(LATEST_SCHEMA_VERSION).len() == 0,
        forall|i: int|
            0 <= i < spec_pending_migrations(version).len() ==> version < #[trigger] spec_pending_migrations(
                version,
            )[i] <= LATEST_SCHEMA_VERSION,
{
}

} // verus!
