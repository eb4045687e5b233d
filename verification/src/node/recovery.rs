//! Looking for blocks that the executor lacks after a restart.
use vstd::prelude::*;

verus! {

/// What a look for missing blocks finds.
#[derive(Clone, Copy, Debug, PartialEq, Eq, Structural)]
pub enum RecoveryFinding {
    /// Another node looks: only the first one does.
    NotOurs,
    /// There is no store, or it has no commit.
    NothingStored,
    /// The executor has all that is stored.
    UpToDate,
    /// The executor lacks what comes after its last block.
    Behind { from: u64, last_commit: u32 },
}

/// Looks for missing blocks. `last_commit` is the last commit in the store of
/// the epoch, if there is one; `go_now` is the executor's last block as it
/// says now.
pub fn perform_block_recovery_check(
    node_id: u32,
    last_commit: Option<u32>,
    go_last_block: u64,
    go_now: Option<u64>,
) -> (f: RecoveryFinding)
    requires
        node_id == 0 ==> go_last_block < u64::MAX,
    ensures
        f == if node_id != 0 {
            RecoveryFinding::NotOurs
        } else {
            match last_commit {
                None => RecoveryFinding::NothingStored,
                Some(c) => if go_now is Some && go_now->Some_0 >= c {
                    RecoveryFinding::UpToDate
                } else {
                    RecoveryFinding::Behind { from: (go_last_block + 1) as u64, last_commit: c }
                },
            }
        },
{
    if node_id != 0 {
        return RecoveryFinding::NotOurs;
    }
    match last_commit {
        None => RecoveryFinding::NothingStored,
        Some(c) => {
            match go_now {
                Some(b) => {
                    if b >= c as u64 {
                        return RecoveryFinding::UpToDate;
                    }
                },
                None => {},
            }
            RecoveryFinding::Behind { from: go_last_block + 1, last_commit: c }
        },
    }
}

} // verus!
