//! The nodes that the owner has authorized to fulfill requests.

use vstd::prelude::*;

verus! {

/// A set of accounts, listed in the order in which they were added.
#[derive(Debug)]
pub struct AuthorizedNodes {
    nodes: Vec<String>,
}

impl View for AuthorizedNodes {
    type V = Seq<Seq<char>>;

    closed spec fn view(&self) -> Seq<Seq<char>> {
        Seq::new(self.nodes@.len(), |i: int| self.nodes@[i]@)
    }
}

/// `nodes` with `node` added at the end, unless it is there already.
pub open spec fn with_node(nodes: Seq<Seq<char>>, node: Seq<char>) -> Seq<Seq<char>> {
    if nodes.contains(node) {
        nodes
    } else {
        nodes.push(node)
    }
}

/// `nodes` without `node`, the others in the order they had.
pub open spec fn without_node(nodes: Seq<Seq<char>>, node: Seq<char>) -> Seq<Seq<char>> {
    if nodes.contains(node) {
        nodes.remove(nodes.index_of(node))
    } else {
        nodes
    }
}

/// Adding a node to a listing without repetitions makes it a member and
/// leaves the listing without repetitions.
pub proof fn lemma_with_node(nodes: Seq<Seq<char>>, node: Seq<char>)
    requires
        nodes.no_duplicates(),
    ensures
        with_node(nodes, node).no_duplicates(),
        forall|other: Seq<char>|
            with_node(nodes, node).contains(other) == (other == node || nodes.contains(other)),
{
    let s = with_node(nodes, node);
    if !nodes.contains(node) {
        assert forall|other: Seq<char>| s.contains(other) == (other == node || nodes.contains(
            other,
        )) by {
            if s.contains(other) {
                let k = choose|k: int| 0 <= k < s.len() && s[k] == other;
                if k < nodes.len() {
                    assert(nodes[k] == other);
                }
            }
            if other == node {
                assert(s[nodes.len() as int] == other);
            }
            if nodes.contains(other) {
                let k = choose|k: int| 0 <= k < nodes.len() && nodes[k] == other;
                assert(s[k] == other);
            }
        }
    }
}

/// Removing a node from a listing without repetitions ends its membership,
/// keeps every other member, and leaves the listing without repetitions.
pub proof fn lemma_without_node(nodes: Seq<Seq<char>>, node: Seq<char>)
    requires
        nodes.no_duplicates(),
    ensures
        without_node(nodes, node).no_duplicates(),
        forall|other: Seq<char>|
            without_node(nodes, node).contains(other) == (other != node && nodes.contains(other)),
{
    let s = without_node(nodes, node);
    if nodes.contains(node) {
        let i = nodes.index_of(node);
        assert(nodes[i] == node);
        assert forall|a: int, b: int| 0 <= a < s.len() && 0 <= b < s.len() && a != b implies s[a]
            != s[b] by {
            let a0 = if a < i { a } else { a + 1 };
            let b0 = if b < i { b } else { b + 1 };
            assert(nodes[a0] != nodes[b0]);
        }
        assert forall|other: Seq<char>| s.contains(other) == (other != node && nodes.contains(
            other,
        )) by {
            if s.contains(other) {
                let k = choose|k: int| 0 <= k < s.len() && s[k] == other;
                let k0 = if k < i { k } else { k + 1 };
                assert(nodes[k0] == other);
                assert(k0 != i);
            }
            if other != node && nodes.contains(other) {
                let k = choose|k: int| 0 <= k < nodes.len() && nodes[k] == other;
                if k < i {
                    assert(s[k] == other);
                } else {
                    assert(s[k - 1] == other);
                }
            }
        }
    }
}

impl AuthorizedNodes {
    /// No account is listed twice.
    #[verifier::type_invariant]
    pub open spec fn wf(&self) -> bool {
        self@.no_duplicates()
    }

    /// The empty set.
    pub fn new() -> (nodes: AuthorizedNodes)
        ensures
            nodes@ == Seq::<Seq<char>>::empty(),
    {
        let nodes = AuthorizedNodes { nodes: Vec::new() };
        assert(nodes@ =~= Seq::<Seq<char>>::empty());
        nodes
    }

    /// Where `node` is listed, if it is.
    fn position(&self, node: &String) -> (at: Option<usize>)
        ensures
            at is Some == self@.contains(node@),
            at is Some ==> at->0 < self@.len() && self@[at->0 as int] == node@,
    {
        let mut i: usize = 0;
        while i < self.nodes.len()
            invariant
                i <= self.nodes@.len(),
                forall|k: int| 0 <= k < i ==> self@[k] != node@,
            decreases self.nodes@.len() - i,
        {
            if self.nodes[i] == *node {
                assert(self@[i as int] == node@);
                return Some(i);
            }
            i += 1;
        }
        None
    }

    /// Whether `node` is in the set.
    pub fn contains(&self, node: &String) -> (member: bool)
        ensures
            member == self@.contains(node@),
    {
        self.position(node).is_some()
    }

    /// Adds `node` to the set. Returns whether it was new.
    pub fn insert(&mut self, node: String) -> (added: bool)
        ensures
            added == !old(self)@.contains(node@),
            final(self)@ == with_node(old(self)@, node@),
    {
        proof {
            use_type_invariant(&*self);
            lemma_with_node(self@, node@);
        }
        if self.position(&node).is_some() {
            return false;
        }
        let ghost before = self@;
        let mut nodes: Vec<String> = Vec::new();
        std::mem::swap(&mut nodes, &mut self.nodes);
        nodes.push(node);
        assert(Seq::new(nodes@.len(), |i: int| nodes@[i]@) =~= before.push(node@));
        self.nodes = nodes;
        true
    }

    /// Takes `node` out of the set. Returns whether it was there.
    pub fn remove(&mut self, node: &String) -> (removed: bool)
        ensures
            removed == old(self)@.contains(node@),
            final(self)@ == without_node(old(self)@, node@),
    {
        proof {
            use_type_invariant(&*self);
            lemma_without_node(self@, node@);
        }
        let ghost before = self@;
        match self.position(node) {
            None => false,
            Some(i) => {
                proof {
                    let k = before.index_of(node@);
                    assert(before[k] == node@);
                    assert(k == i);
                }
                let mut nodes: Vec<String> = Vec::new();
                std::mem::swap(&mut nodes, &mut self.nodes);
                nodes.remove(i);
                assert(Seq::new(nodes@.len(), |k: int| nodes@[k]@) =~= before.remove(i as int));
                self.nodes = nodes;
                true
            },
        }
    }

    /// The members, in the order in which they were added.
    pub fn to_vec(&self) -> (listing: Vec<String>)
        ensures
            listing@.len() == self@.len(),
            forall|i: int| 0 <= i < listing@.len() ==> (#[trigger] listing@[i])@ == self@[i],
    {
        let mut listing: Vec<String> = Vec::new();
        let mut i: usize = 0;
        while i < self.nodes.len()
            invariant
                i <= self.nodes@.len(),
                listing@.len() == i,
                forall|k: int| 0 <= k < i ==> (#[trigger] listing@[k])@ == self@[k],
            decreases self.nodes@.len() - i,
        {
            listing.push(self.nodes[i].clone());
            i += 1;
        }
        listing
    }
}

} // verus!
