//! The append-only issue ledger of one event.

use vstd::prelude::*;

verus! {

/// A unit of resolvable work. Issues are created unresolved and
/// transition exactly once from unresolved to resolved; they never
/// revert and are never deleted.
#[derive(Clone, Copy, Debug, PartialEq, Eq, Structural)]
pub struct Issue {
    /// Identity, unique within its book.
    pub issue_id: u64,
    /// Whether the issue has been resolved.
    pub resolved_status: bool,
    /// The identity credited by the resolution, if resolved.
    pub contributor: Option<u64>,
    /// Non-negative reward weight credited on resolution.
    pub points: u64,
    /// The instant the resolution was recorded, if resolved.
    pub resolved_at: Option<i64>,
}

/// Append-only list of the issues of one event.
#[derive(Debug)]
pub struct IssueBook {
    /// The owning event.
    pub event_id: u64,
    /// The issues, in order of appending.
    pub issues: Vec<Issue>,
}

/// The issue as it enters the book: identity and points are kept, the
/// server-assigned resolution state starts cleared whatever the caller
/// supplied.
pub open spec fn fresh_issue(x: Issue) -> Issue {
    Issue {
        issue_id: x.issue_id,
        resolved_status: false,
        contributor: None,
        points: x.points,
        resolved_at: None,
    }
}

/// The issue once a resolution names `contributor` at instant `at`.
pub open spec fn resolved_issue(x: Issue, contributor: u64, at: i64) -> Issue {
    Issue {
        issue_id: x.issue_id,
        resolved_status: true,
        contributor: Some(contributor),
        points: x.points,
        resolved_at: Some(at),
    }
}

/// What an issue contributes to the resolved total: its points once
/// resolved, nothing before.
pub open spec fn issue_weight(x: Issue) -> int {
    if x.resolved_status {
        x.points as int
    } else {
        0
    }
}

/// Sum of the points of all resolved issues in `s`.
pub open spec fn resolved_points(s: Seq<Issue>) -> int
    decreases s.len(),
{
    if s.len() == 0 {
        0
    } else {
        resolved_points(s.drop_last()) + issue_weight(s.last())
    }
}

/// Issue ids are pairwise distinct.
pub open spec fn ids_unique(s: Seq<Issue>) -> bool {
    forall|i: int, j: int| 0 <= i < j < s.len() ==> s[i].issue_id != s[j].issue_id
}

/// Some issue in `s` carries the id.
pub open spec fn has_issue_id(s: Seq<Issue>, issue_id: u64) -> bool {
    exists|i: int| 0 <= i < s.len() && s[i].issue_id == issue_id
}

/// Some issue in `s` carries the id and is still unresolved.
pub open spec fn has_unresolved(s: Seq<Issue>, issue_id: u64) -> bool {
    exists|i: int| 0 <= i < s.len() && s[i].issue_id == issue_id && !s[i].resolved_status
}

/// The position of the unresolved issue carrying the id; meaningful
/// only where `has_unresolved` holds, and unique in a well formed
/// book.
pub open spec fn unresolved_index(s: Seq<Issue>, issue_id: u64) -> int {
    choose|i: int| 0 <= i < s.len() && s[i].issue_id == issue_id && !s[i].resolved_status
}

/// A batch may enter a book only if no incoming id is already in the
/// book and no id repeats within the batch.
pub open spec fn batch_ids_fresh(book: Seq<Issue>, batch: Seq<Issue>) -> bool {
    &&& forall|i: int| 0 <= i < batch.len() ==> !has_issue_id(book, batch[i].issue_id)
    &&& forall|i: int, j: int| 0 <= i < j < batch.len() ==> batch[i].issue_id != batch[j].issue_id
}

/// In a book with distinct ids, any index holding an unresolved issue
/// with the id is the one `unresolved_index` names.
pub proof fn lemma_unresolved_index_unique(s: Seq<Issue>, issue_id: u64, i: int)
    requires
        ids_unique(s),
        0 <= i < s.len(),
        s[i].issue_id == issue_id,
        !s[i].resolved_status,
    ensures
        has_unresolved(s, issue_id),
        unresolved_index(s, issue_id) == i,
{
    assert(has_unresolved(s, issue_id));
    let k = unresolved_index(s, issue_id);
    if k < i {
        assert(s[k].issue_id != s[i].issue_id);
    } else if k > i {
        assert(s[i].issue_id != s[k].issue_id);
    }
}

pub proof fn lemma_resolved_points_push(s: Seq<Issue>, x: Issue)
    ensures
        resolved_points(s.push(x)) == resolved_points(s) + issue_weight(x),
{
    assert(s.push(x).drop_last() =~= s);
}

pub proof fn lemma_resolved_points_update(s: Seq<Issue>, i: int, x: Issue)
    requires
        0 <= i < s.len(),
    ensures
        resolved_points(s.update(i, x)) == resolved_points(s) - issue_weight(s[i]) + issue_weight(
            x,
        ),
    decreases s.len(),
{
    if i == s.len() - 1 {
        assert(s.update(i, x).drop_last() =~= s.drop_last());
    } else {
        assert(s.update(i, x).drop_last() =~= s.drop_last().update(i, x));
        lemma_resolved_points_update(s.drop_last(), i, x);
    }
}

impl IssueBook {
    /// The book is well formed when its issue ids are distinct.
    pub open spec fn wf(self) -> bool {
        ids_unique(self.issues@)
    }

    /// Whether some issue in the book carries `issue_id`, resolved or
    /// not.
    pub fn contains_id(&self, issue_id: u64) -> (found: bool)
        ensures
            found == has_issue_id(self.issues@, issue_id),
    {
        let n = self.issues.len();
        let mut i: usize = 0;
        while i < n
            invariant
                0 <= i <= n,
                n == self.issues@.len(),
                forall|j: int| 0 <= j < i ==> self.issues@[j].issue_id != issue_id,
            decreases n - i,
        {
            if self.issues[i].issue_id == issue_id {
                return true;
            }
            i += 1;
        }
        false
    }

    /// The position of the unresolved issue carrying `issue_id`, if
    /// one exists. Resolved issues are excluded from the search.
    pub fn find_unresolved(&self, issue_id: u64) -> (found: Option<usize>)
        ensures
            match found {
                Some(i) => {
                    &&& 0 <= i < self.issues@.len()
                    &&& self.issues@[i as int].issue_id == issue_id
                    &&& !self.issues@[i as int].resolved_status
                },
                None => !has_unresolved(self.issues@, issue_id),
            },
    {
        let n = self.issues.len();
        let mut i: usize = 0;
        while i < n
            invariant
                0 <= i <= n,
                n == self.issues@.len(),
                forall|j: int|
                    0 <= j < i ==> !(self.issues@[j].issue_id == issue_id
                        && !self.issues@[j].resolved_status),
            decreases n - i,
        {
            if self.issues[i].issue_id == issue_id && !self.issues[i].resolved_status {
                return Some(i);
            }
            i += 1;
        }
        None
    }
}

} // verus!
