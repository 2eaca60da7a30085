//! The run over a whole input tree: which entries are processed, and the
//! tally of what became of them.

use crate::placement::{decimal, decimal_text};
use vstd::prelude::*;

verus! {

/// Whether a walk entry is processed: a regular file, directly in the input
/// root unless the walk is recursive. The root itself has depth 0.
pub fn admits_entry(recursive: bool, depth: usize, is_file: bool) -> (r: bool)
    ensures
        r == (is_file && (recursive || depth <= 1)),
{
    is_file && (recursive || depth <= 1)
}

/// The deepest level a walk needs to visit.
pub fn walk_depth(recursive: bool) -> (r: usize)
    ensures
        recursive ==> r == usize::MAX,
        !recursive ==> r == 1,
{
    if recursive {
        usize::MAX
    } else {
        1
    }
}

/// How many files of a run were placed and how many failed.
#[derive(Clone, Copy, Debug, PartialEq, Eq, Structural)]
pub struct BatchSummary {
    pub succeeded: u64,
    pub failed: u64,
}

impl BatchSummary {
    /// A tally with nothing counted.
    pub fn new() -> (r: BatchSummary)
        ensures
            r.succeeded == 0,
            r.failed == 0,
    {
        BatchSummary { succeeded: 0, failed: 0 }
    }

    /// Counts one more file, placed or failed; a count stops at its maximum.
    pub fn record(&mut self, ok: bool)
        ensures
            ok ==> final(self).succeeded == if old(self).succeeded < u64::MAX {
                old(self).succeeded + 1
            } else {
                old(self).succeeded as int
            },
            ok ==> final(self).failed == old(self).failed,
            !ok ==> final(self).failed == if old(self).failed < u64::MAX {
                old(self).failed + 1
            } else {
                old(self).failed as int
            },
            !ok ==> final(self).succeeded == old(self).succeeded,
    {
        if ok {
            if self.succeeded < u64::MAX {
                self.succeeded = self.succeeded + 1;
            }
        } else if self.failed < u64::MAX {
            self.failed = self.failed + 1;
        }
    }

    /// `Successfully moved N files` or `Successfully copied N files`.
    pub open spec fn headline_spec(self, moved: bool) -> Seq<char> {
        let verb = if moved {
            seq!['m', 'o', 'v', 'e', 'd']
        } else {
            seq!['c', 'o', 'p', 'i', 'e', 'd']
        };
        "Successfully "@ + verb + seq![' '] + decimal(self.succeeded as nat) + " files"@
    }

    /// The line that reports a run.
    pub fn headline(&self, moved: bool) -> (r: String)
        ensures
            r@ == self.headline_spec(moved),
    {
        proof {
            reveal_strlit("moved");
            reveal_strlit("copied");
            reveal_strlit(" ");
        }
        let verb = if moved {
            "moved"
        } else {
            "copied"
        };
        let count = decimal_text(self.succeeded);
        let r = String::from_str("Successfully ").concat(verb).concat(" ").concat(count.as_str()).concat(
            " files",
        );
        assert(r@ =~= self.headline_spec(moved));
        r
    }

    /// `N succeeded, M failed`.
    pub open spec fn tally_spec(self) -> Seq<char> {
        decimal(self.succeeded as nat) + " succeeded, "@ + decimal(self.failed as nat) + " failed"@
    }

    /// The line that reports both counts of a run.
    pub fn tally(&self) -> (r: String)
        ensures
            r@ == self.tally_spec(),
    {
        let ok = decimal_text(self.succeeded);
        let failed = decimal_text(self.failed);
        ok.concat(" succeeded, ").concat(failed.as_str()).concat(" failed")
    }
}

} // verus!
