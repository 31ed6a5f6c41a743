use vstd::prelude::*;

verus! {

/// Names a pane of a workspace: its index among the workspace's panes.
#[derive(Clone, Copy, Debug, PartialEq, Eq, Hash, Structural)]
pub struct PaneId(pub usize);

/// The direction in which an axis lays out its members.
#[derive(Clone, Copy, Debug, PartialEq, Eq, Structural)]
pub enum Axis {
    Horizontal,
    Vertical,
}

/// A split: its direction and its ordered members.
pub struct PaneAxis {
    pub axis: Axis,
    pub members: Vec<Member>,
}

/// A node of the split tree: a pane (leaf) or an axis (branch).
pub enum Member {
    Axis(PaneAxis),
    Pane(PaneId),
}

/// The panes under `m`, left to right.
pub open spec fn member_panes(m: Member) -> Seq<PaneId>
    decreases m, 0int,
{
    match m {
        Member::Pane(p) => seq![p],
        Member::Axis(a) => members_panes(a.members@, a.members@.len() as int),
    }
}

/// The panes under the first `n` members of `ms`, left to right.
pub open spec fn members_panes(ms: Seq<Member>, n: int) -> Seq<PaneId>
    decreases ms, n,
{
    if n <= 0 || n > ms.len() {
        Seq::empty()
    } else {
        members_panes(ms, n - 1) + member_panes(ms[n - 1])
    }
}

/// Every axis met on the way down through first members has a member.
pub open spec fn has_first_pane(m: Member) -> bool
    decreases m,
{
    match m {
        Member::Pane(_) => true,
        Member::Axis(a) => a.members@.len() > 0 && has_first_pane(a.members@[0]),
    }
}

/// The pane reached by always descending into the first member.
pub open spec fn first_pane_of(m: Member) -> PaneId
    decreases m,
{
    match m {
        Member::Pane(p) => p,
        Member::Axis(a) => if a.members@.len() > 0 {
            first_pane_of(a.members@[0])
        } else {
            PaneId(0)
        },
    }
}

proof fn lemma_concat_contains(a: Seq<PaneId>, b: Seq<PaneId>, x: PaneId)
    ensures
        (a + b).contains(x) <==> a.contains(x) || b.contains(x),
{
    if a.contains(x) {
        let k = choose|k: int| 0 <= k < a.len() && a[k] == x;
        assert((a + b)[k] == x);
    }
    if b.contains(x) {
        let k = choose|k: int| 0 <= k < b.len() && b[k] == x;
        assert((a + b)[a.len() + k] == x);
    }
    if (a + b).contains(x) {
        let k = choose|k: int| 0 <= k < a.len() + b.len() && (a + b)[k] == x;
        if k < a.len() {
            assert(a[k] == x);
        } else {
            assert(b[k - a.len()] == x);
        }
    }
}

proof fn lemma_members_prefix_contains(ms: Seq<Member>, i: int, n: int, x: PaneId)
    requires
        0 <= i <= n <= ms.len(),
        members_panes(ms, i).contains(x),
    ensures
        members_panes(ms, n).contains(x),
    decreases n - i,
{
    if i < n {
        lemma_members_prefix_contains(ms, i, n - 1, x);
        lemma_concat_contains(members_panes(ms, n - 1), member_panes(ms[n - 1]), x);
    }
}

impl Member {
    /// Whether `needle` is a pane of this subtree.
    pub fn contains(&self, needle: PaneId) -> (r: bool)
        ensures
            r == member_panes(*self).contains(needle),
        decreases self,
    {
        match self {
            Member::Pane(pane) => {
                assert(seq![*pane][0] == *pane);
                *pane == needle
            },
            Member::Axis(axis) => {
                let mut i: usize = 0;
                while i < axis.members.len()
                    invariant
                        i <= axis.members.len(),
                        *self == Member::Axis(*axis),
                        member_panes(*self) == members_panes(axis.members@, axis.members@.len() as int),
                        !members_panes(axis.members@, i as int).contains(needle),
                    decreases axis.members.len() - i,
                {
                    proof {
                        lemma_concat_contains(
                            members_panes(axis.members@, i as int),
                            member_panes(axis.members@[i as int]),
                            needle,
                        );
                        assert(decreases_to!(*self => axis.members@[i as int]));
                    }
                    if axis.members[i].contains(needle) {
                        proof {
                            lemma_members_prefix_contains(
                                axis.members@,
                                i + 1,
                                axis.members@.len() as int,
                                needle,
                            );
                        }
                        return true;
                    }
                    i += 1;
                }
                false
            },
        }
    }

    /// The pane reached by always descending into the first member: the
    /// fallback pane when no other is known.
    pub fn first_pane(&self) -> (r: PaneId)
        requires
            has_first_pane(*self),
        ensures
            r == first_pane_of(*self),
        decreases self,
    {
        match self {
            Member::Axis(axis) => axis.members[0].first_pane(),
            Member::Pane(pane) => *pane,
        }
    }
}

/// The split tree of a workspace's center.
pub struct PaneGroup {
    pub root: Member,
}

impl PaneGroup {
    pub fn with_root(root: Member) -> (r: PaneGroup)
        ensures
            r.root == root,
    {
        PaneGroup { root }
    }

    /// A group of the one pane `pane`.
    pub fn new(pane: PaneId) -> (r: PaneGroup)
        ensures
            r.root == Member::Pane(pane),
            member_panes(r.root) == seq![pane],
    {
        PaneGroup { root: Member::Pane(pane) }
    }
}

} // verus!
