//! Depth of the current call within one traced call chain.
use vstd::prelude::*;
use crate::text::{decimal_digits, decimal_text};

verus! {

/// Handle of one traced call: it carries the depth at which the call runs.
///
/// The outermost call of a chain runs at depth 0, and each nested traced call
/// receives a handle one deeper than its caller's. A handle is a plain value
/// owned by its call, so the caller's depth is untouched by whatever happens in
/// nested calls, on every exit path, unwinding included.
#[derive(Debug, Clone, Copy)]
pub struct DepthGuard {
    depth: usize,
}

impl DepthGuard {
    /// The depth carried by this handle.
    pub closed spec fn level(&self) -> nat {
        self.depth as nat
    }

    /// Handle of the outermost call of a new chain.
    pub fn new() -> (r: DepthGuard)
        ensures
            r.level() == 0,
    {
        DepthGuard { depth: 0 }
    }

    /// The depth at which this call runs.
    pub fn current_depth(&self) -> (r: usize)
        ensures
            r as nat == self.level(),
    {
        self.depth
    }

    /// Handle for a call nested directly inside this one.
    pub fn nested(&self) -> (r: DepthGuard)
        requires
            self.level() < usize::MAX,
        ensures
            r.level() == self.level() + 1,
    {
        DepthGuard { depth: self.depth + 1 }
    }

    /// Whether this call runs at or beyond the recursion limit `limit`, where
    /// it must abort before its body runs.
    pub fn exceeds(&self, limit: usize) -> (r: bool)
        ensures
            r == over_limit(self.level(), limit as nat),
    {
        self.depth >= limit
    }
}

impl Default for DepthGuard {
    /// Handle of the outermost call of a new chain.
    fn default() -> (r: DepthGuard)
        ensures
            r.level() == 0,
    {
        DepthGuard::new()
    }
}

/// Whether a call at `depth` is at or beyond the recursion limit `limit`.
pub open spec fn over_limit(depth: nat, limit: nat) -> bool {
    depth >= limit
}

/// The text of the abort of function `name` at the recursion limit `limit`.
pub open spec fn limit_text(name: Seq<char>, limit: nat) -> Seq<char> {
    "Recursion limit exceeded: "@ + name + " reached maximum depth of "@ + decimal_digits(limit)
}

/// The message with which a call of `name` aborts at the recursion limit
/// `limit`.
pub fn limit_message(name: &str, limit: usize) -> (r: String)
    ensures
        r@ == limit_text(name@, limit as nat),
{
    let mut s = String::from_str("Recursion limit exceeded: ");
    s.append(name);
    s.append(" reached maximum depth of ");
    let d = decimal_text(limit);
    s.append(d.as_str());
    s
}


/// The traced calls made one after another at one level, each with the
/// calls nested inside it: the shape of a traced execution.
pub enum CallForest {
    Empty,
    Call { inner: Box<CallForest>, after: Box<CallForest> },
}

/// How many traced calls an execution makes.
pub open spec fn call_count(f: CallForest) -> nat
    decreases f,
{
    match f {
        CallForest::Empty => 0,
        CallForest::Call { inner, after } => 1 + call_count(*inner) + call_count(*after),
    }
}

/// How many levels of calls an execution nests.
pub open spec fn nesting(f: CallForest) -> nat
    decreases f,
{
    match f {
        CallForest::Empty => 0,
        CallForest::Call { inner, after } => {
            let a = 1 + nesting(*inner);
            let b = nesting(*after);
            if a >= b {
                a
            } else {
                b
            }
        },
    }
}

/// The depths of the entry lines of an execution whose first level runs at
/// `depth`, in the order written: each call writes one entry line at its
/// handle's depth, and the calls nested in it get handles one deeper.
pub open spec fn entry_depths(f: CallForest, depth: nat) -> Seq<nat>
    decreases f,
{
    match f {
        CallForest::Empty => Seq::empty(),
        CallForest::Call { inner, after } => seq![depth] + entry_depths(*inner, depth + 1)
            + entry_depths(*after, depth),
    }
}

/// An execution writes one entry line per traced call, and its deepest entry
/// line lies at the deepest level of nesting that it reaches: for one
/// top-level invocation (`depth` 0, a single call), at the maximum recursion
/// depth.
pub proof fn lemma_entry_lines(f: CallForest, depth: nat)
    ensures
        entry_depths(f, depth).len() == call_count(f),
        forall|k: int|
            0 <= k < entry_depths(f, depth).len() ==> #[trigger] entry_depths(f, depth)[k] < depth
                + nesting(f),
        nesting(f) > 0 ==> exists|k: int|
            0 <= k < entry_depths(f, depth).len() && #[trigger] entry_depths(f, depth)[k] == depth
                + nesting(f) - 1,
    decreases f,
{
    match f {
        CallForest::Empty => {},
        CallForest::Call { inner, after } => {
            lemma_entry_lines(*inner, depth + 1);
            lemma_entry_lines(*after, depth);
            let head = seq![depth];
            let i = entry_depths(*inner, depth + 1);
            let a = entry_depths(*after, depth);
            let all = entry_depths(f, depth);
            assert(all == head + i + a);
            assert forall|k: int| 0 <= k < all.len() implies #[trigger] all[k] < depth + nesting(
                f,
            ) by {
                if k == 0 {
                } else if k < 1 + i.len() {
                    assert(all[k] == i[k - 1]);
                } else {
                    assert(all[k] == a[k - 1 - i.len()]);
                }
            }
            if 1 + nesting(*inner) >= nesting(*after) {
                if nesting(*inner) == 0 {
                    assert(all[0] == depth);
                } else {
                    let k = choose|k: int| 0 <= k < i.len() && #[trigger] i[k] == depth + 1 + nesting(*inner) - 1;
                    assert(all[k + 1] == i[k]);
                }
            } else {
                let k = choose|k: int| 0 <= k < a.len() && #[trigger] a[k] == depth + nesting(*after) - 1;
                assert(all[k + 1 + i.len()] == a[k]);
            }
        },
    }
}

} // verus!
