//! The queue of contenders for a first-in-first-out lock.
//!
//! Each contender is a node that knows its predecessor and its successor. The
//! predecessor field also plays the role of a mutex of the node: while the node is
//! guarded it holds a mark, and the guard keeps the predecessor.

use vstd::prelude::*;

verus! {

/// The name of no node.
pub const NO_NODE: usize = 0;

/// The mark of a guarded node.
pub const GUARDED: usize = usize::MAX;

/// A node: the names of its neighbours.
#[derive(Debug, Clone, Copy, PartialEq, Eq, Structural)]
pub struct AcqLink {
    /// The predecessor, or the mark of a guarded node.
    pub prev: usize,
    /// The successor.
    pub next: usize,
}

impl AcqLink {
    /// A node with the given neighbours.
    pub fn new(prev: usize, next: usize) -> (link: AcqLink)
        ensures
            link == (AcqLink { prev, next }),
    {
        AcqLink { prev, next }
    }

    /// A node without neighbours.
    pub fn new_unlinked() -> (link: AcqLink)
        ensures
            link == (AcqLink { prev: NO_NODE, next: NO_NODE }),
    {
        AcqLink::new(NO_NODE, NO_NODE)
    }
}

/// The nodes of all contenders. Names count from one.
#[derive(Debug)]
pub struct AcqLinks {
    nodes: Vec<AcqLink>,
}

impl View for AcqLinks {
    type V = Seq<AcqLink>;

    closed spec fn view(&self) -> Seq<AcqLink> {
        self.nodes@
    }
}

impl AcqLinks {
    /// The name belongs to a node.
    pub open spec fn has(&self, name: usize) -> bool {
        1 <= name <= self@.len()
    }

    /// The node of that name.
    pub open spec fn node(&self, name: usize) -> AcqLink {
        self@[name - 1]
    }

    /// The nodes with that of the given name replaced.
    pub open spec fn with(&self, name: usize, link: AcqLink) -> Seq<AcqLink> {
        self@.update(name - 1, link)
    }

    /// No nodes.
    pub fn new() -> (links: AcqLinks)
        ensures
            links@ == Seq::<AcqLink>::empty(),
    {
        AcqLinks { nodes: Vec::new() }
    }

    /// Adds a node and returns its name.
    pub fn insert(&mut self, link: AcqLink) -> (name: usize)
        requires
            old(self)@.len() < usize::MAX - 1,
        ensures
            final(self)@ == old(self)@.push(link),
            name == final(self)@.len(),
    {
        self.nodes.push(link);
        self.nodes.len()
    }

    /// The node of that name.
    pub fn get(&self, name: usize) -> (link: AcqLink)
        requires
            self.has(name),
        ensures
            link == self.node(name),
    {
        self.nodes[name - 1]
    }

    fn set_prev_(&mut self, name: usize, prev: usize)
        requires
            old(self).has(name),
        ensures
            final(self)@ == old(self).with(name, (AcqLink { prev, ..old(self).node(name) })),
    {
        let link = AcqLink { prev, ..self.nodes[name - 1] };
        self.nodes.set(name - 1, link);
    }

    fn set_next_(&mut self, name: usize, next: usize)
        requires
            old(self).has(name),
        ensures
            final(self)@ == old(self).with(name, (AcqLink { next, ..old(self).node(name) })),
    {
        let link = AcqLink { next, ..self.nodes[name - 1] };
        self.nodes.set(name - 1, link);
    }

    /// Tries to insert a candidate as the node next to `node`.
    ///
    /// Returns the candidate if that was done, `Err(Some(next))` if `node` already has
    /// a successor, and `Err(None)` if the wait for one of the two nodes was cancelled.
    /// Nothing changes unless the candidate was inserted. A node cannot be inserted next
    /// to itself: that wait ends only by being cancelled.
    pub fn try_insert_next_(&mut self, node: usize, candidate: usize, cancelled: bool) -> (res:
        Result<usize, Option<usize>>)
        requires
            old(self).has(node),
            old(self).has(candidate),
            !cancelled ==> node != candidate,
            !cancelled ==> old(self).node(node).prev != GUARDED && old(self).node(candidate).prev
                != GUARDED,
        ensures
            res == if node == candidate || !lockable(old(self).node(candidate).prev, cancelled)
                || !lockable(old(self).node(node).prev, cancelled) {
                Err::<usize, Option<usize>>(None)
            } else if old(self).node(node).next != NO_NODE {
                Err::<usize, Option<usize>>(Some(old(self).node(node).next))
            } else {
                Ok::<usize, Option<usize>>(candidate)
            },
            res is Err ==> final(self)@ == old(self)@,
            res is Ok ==> {
                &&& final(self)@.len() == old(self)@.len()
                &&& final(self).node(node) == (AcqLink { next: candidate, ..old(self).node(node) })
                &&& final(self).node(candidate) == (AcqLink {
                    prev: node,
                    ..old(self).node(candidate)
                })
                &&& forall|other: usize|
                    #![trigger final(self).node(other)]
                    old(self).has(other) && other != node && other != candidate
                        ==> final(self).node(other) == old(self).node(other)
            },
    {
        let mut candidate_guard = match AcqLinkGuard::try_acquire(self, candidate, cancelled) {
            Ok(guard) => guard,
            Err(_) => {
                return Err(None);
            },
        };
        let node_guard = match AcqLinkGuard::try_acquire(self, node, cancelled) {
            Ok(guard) => guard,
            Err(_) => {
                candidate_guard.release(self);
                assert(self@ =~= old(self)@);
                return Err(None);
            },
        };
        let next: usize = self.get(node).next;
        if next != NO_NODE {
            node_guard.release(self);
            candidate_guard.release(self);
            assert(self@ =~= old(self)@);
            return Err(Some(next));
        }
        candidate_guard.update_prev(node);
        self.set_next_(node, candidate);
        node_guard.release(self);
        candidate_guard.release(self);
        Ok(candidate)
    }
}

/// A node with the given predecessor field can be guarded: at once if it has no
/// predecessor, and else if the wait is not cancelled.
pub open spec fn lockable(prev: usize, cancelled: bool) -> bool {
    prev == NO_NODE || (prev != GUARDED && !cancelled)
}

/// Decides how to go on after the predecessor field was expected to be `current` and
/// found to be `found`: the value to expect next, or `Err(found)` when cancelled.
pub fn guard_next(current: usize, found: usize, cancelled: bool) -> (next: Result<usize, usize>)
    ensures
        next == if cancelled {
            Err::<usize, usize>(found)
        } else if found != GUARDED {
            Ok::<usize, usize>(found)
        } else {
            Ok::<usize, usize>(current)
        },
{
    if cancelled {
        return Err(found);
    }
    if found != GUARDED {
        Ok(found)
    } else {
        Ok(current)
    }
}

/// Exclusive access to the neighbours of a node.
#[derive(Debug)]
pub struct AcqLinkGuard {
    node: usize,
    prev: usize,
}

impl AcqLinkGuard {
    /// The guarded node.
    pub closed spec fn of(&self) -> usize {
        self.node
    }

    /// The predecessor that the node gets back when the guard is released.
    pub closed spec fn kept(&self) -> usize {
        self.prev
    }

    /// The mark of a guarded node.
    pub fn guarded() -> (mark: usize)
        ensures
            mark == GUARDED,
    {
        GUARDED
    }

    /// Guards a node, unless cancelled while it has to wait.
    ///
    /// A node without predecessor is guarded at the first attempt, cancelled or not.
    pub fn try_acquire(links: &mut AcqLinks, node: usize, cancelled: bool) -> (res: Result<
        AcqLinkGuard,
        usize,
    >)
        requires
            old(links).has(node),
            cancelled || old(links).node(node).prev != GUARDED,
        ensures
            res is Ok <==> lockable(old(links).node(node).prev, cancelled),
            match res {
                Ok(guard) => {
                    &&& guard.of() == node
                    &&& guard.kept() == old(links).node(node).prev
                    &&& final(links)@ == old(links).with(
                        node,
                        (AcqLink { prev: GUARDED, ..old(links).node(node) }),
                    )
                },
                Err(found) => found == old(links).node(node).prev && final(links)@ == old(links)@,
            },
    {
        let desired: usize = Self::guarded();
        let mut current: usize = NO_NODE;
        let found: usize = links.get(node).prev;
        if found != current {
            match guard_next(current, found, cancelled) {
                Ok(next) => {
                    current = next;
                },
                Err(found) => {
                    return Err(found);
                },
            }
        }
        assert(current == found);
        links.set_prev_(node, desired);
        Ok(AcqLinkGuard { node, prev: current })
    }

    /// Chooses another predecessor for the node.
    pub fn update_prev(&mut self, prev: usize)
        ensures
            final(self).of() == old(self).of(),
            final(self).kept() == prev,
    {
        self.prev = prev;
    }

    /// Stops guarding the node and gives it its predecessor.
    pub fn release(self, links: &mut AcqLinks)
        requires
            old(links).has(self.of()),
            old(links).node(self.of()).prev == GUARDED,
        ensures
            final(links)@ == old(links).with(
                self.of(),
                (AcqLink { prev: self.kept(), ..old(links).node(self.of()) }),
            ),
    {
        links.set_prev_(self.node, self.prev);
    }
}

} // verus!
