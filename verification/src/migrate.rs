//! Moving data from the single `data.json` file to the directory layout of collections.
//!
//! The files are read, written and backed up by the caller; here is what the migration
//! reports.
use vstd::prelude::*;

use crate::models::Collection;

verus! {

/// What a migration did, or would do.
#[derive(Debug, Clone, PartialEq)]
pub struct MigrationStatus {
    /// Whether the data has been migrated.
    pub migrated: bool,
    /// When it was migrated (RFC 3339).
    pub migrated_at: Option<String>,
    /// The old data file (or its backup once migrated).
    pub legacy_data_file: Option<String>,
    pub collections_migrated: usize,
    pub requests_migrated: usize,
}

impl Default for MigrationStatus {
    fn default() -> (r: Self)
        ensures
            !r.migrated,
            r.migrated_at is None,
            r.legacy_data_file is None,
            r.collections_migrated == 0,
            r.requests_migrated == 0,
    {
        MigrationStatus {
            migrated: false,
            migrated_at: None,
            legacy_data_file: None,
            collections_migrated: 0,
            requests_migrated: 0,
        }
    }
}

/// The number of root requests of the collections.
pub open spec fn request_count(cols: Seq<Collection>) -> nat
    decreases cols.len(),
{
    if cols.len() == 0 {
        0
    } else {
        request_count(cols.drop_last()) + cols.last().requests@.len()
    }
}

/// A prefix of the collections has no more requests than all of them.
proof fn lemma_request_count_prefix(cols: Seq<Collection>, k: int)
    requires
        0 <= k <= cols.len(),
    ensures
        request_count(cols.take(k)) <= request_count(cols),
    decreases cols.len(),
{
    if k < cols.len() {
        assert(cols.drop_last().take(k) =~= cols.take(k));
        lemma_request_count_prefix(cols.drop_last(), k);
    } else {
        assert(cols.take(k) =~= cols);
    }
}

/// Counts the root requests of the collections.
pub fn total_requests(cols: &Vec<Collection>) -> (r: usize)
    requires
        request_count(cols@) <= usize::MAX,
    ensures
        r == request_count(cols@),
{
    let mut n: usize = 0;
    let mut i: usize = 0;
    while i < cols.len()
        invariant
            i <= cols.len(),
            n == request_count(cols@.take(i as int)),
            request_count(cols@) <= usize::MAX,
        decreases cols.len() - i,
    {
        assert(cols@.take(i + 1).drop_last() =~= cols@.take(i as int));
        proof {
            lemma_request_count_prefix(cols@, i + 1);
        }
        n = n + cols[i].requests.len();
        i = i + 1;
    }
    assert(cols@.take(i as int) =~= cols@);
    n
}

/// The status when there is no old data file: nothing migrated.
pub fn status_without_data(legacy_data_file: String) -> (r: MigrationStatus)
    ensures
        !r.migrated,
        r.migrated_at is None,
        r.legacy_data_file matches Some(f) && f@ == legacy_data_file@,
        r.collections_migrated == 0,
        r.requests_migrated == 0,
{
    MigrationStatus {
        migrated: false,
        migrated_at: None,
        legacy_data_file: Some(legacy_data_file),
        collections_migrated: 0,
        requests_migrated: 0,
    }
}

/// The status of a dry run: what would be migrated, without migrating.
pub fn status_dry_run(legacy_data_file: String, cols: &Vec<Collection>) -> (r: MigrationStatus)
    requires
        request_count(cols@) <= usize::MAX,
    ensures
        !r.migrated,
        r.migrated_at is None,
        r.legacy_data_file matches Some(f) && f@ == legacy_data_file@,
        r.collections_migrated == cols@.len(),
        r.requests_migrated == request_count(cols@),
{
    MigrationStatus {
        migrated: false,
        migrated_at: None,
        legacy_data_file: Some(legacy_data_file),
        collections_migrated: cols.len(),
        requests_migrated: total_requests(cols),
    }
}

/// The status after a migration: migrated at the given time, the old file backed up.
pub fn status_migrated(migrated_at: String, backup_file: String, cols: &Vec<Collection>) -> (r:
    MigrationStatus)
    requires
        request_count(cols@) <= usize::MAX,
    ensures
        r.migrated,
        r.migrated_at matches Some(t) && t@ == migrated_at@,
        r.legacy_data_file matches Some(f) && f@ == backup_file@,
        r.collections_migrated == cols@.len(),
        r.requests_migrated == request_count(cols@),
{
    MigrationStatus {
        migrated: true,
        migrated_at: Some(migrated_at),
        legacy_data_file: Some(backup_file),
        collections_migrated: cols.len(),
        requests_migrated: total_requests(cols),
    }
}

} // verus!
