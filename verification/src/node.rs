use vstd::prelude::*;
use crate::config::clone_url;
use vstd::arithmetic::div_mod::{lemma_add_mod_noop, lemma_mod_add_multiples_vanish, lemma_small_mod};

verus! {

/// The serialization of `url`: the text it holds, which `url::Url::parse` reads back to the same
/// URL.
pub uninterp spec fn url_serialization(url: url::Url) -> Seq<char>;

/// The text of the URL written in `url` once a trailing empty segment is removed from its path;
/// the text unchanged where it is no URL or the URL cannot be a base.
pub uninterp spec fn url_trimmed(url: Seq<char>) -> Seq<char>;

/// Removes a trailing empty segment from the path of `url`, so that paths appended to it do not
/// start with a doubled `/`.
///
/// Calls `url::Url::path_segments_mut` and `PathSegmentsMut::pop_if_empty`. A URL that cannot be
/// a base has no path segments and is left unchanged. A URL is what its serialization says, so
/// the new serialization depends on the old one alone, and is named.
#[verifier::external_body]
fn pop_if_empty(url: &mut url::Url)
    ensures
        url_serialization(*final(url)) == url_trimmed(url_serialization(*old(url))),
{
    if let Ok(mut segments) = url.path_segments_mut() {
        segments.pop_if_empty();
    }
}

/// `trimmed` holds, position by position, the URLs of `urls` with a trailing empty segment
/// removed from their paths.
pub open spec fn trimmed_urls(trimmed: Seq<url::Url>, urls: Seq<url::Url>) -> bool {
    &&& trimmed.len() == urls.len()
    &&& forall|i: int|
        0 <= i < urls.len() ==> url_serialization(#[trigger] trimmed[i]) == url_trimmed(url_serialization(urls[i]))
}

/// Puts the nodes in a random order.
///
/// Calls `rand::seq::SliceRandom::shuffle` with the thread-local generator; the source swaps
/// elements in place (a Fisher-Yates shuffle), so the result holds the same nodes, each as often.
#[verifier::external_body]
fn shuffle(nodes: &mut Vec<url::Url>)
    ensures
        final(nodes)@.len() == old(nodes)@.len(),
        final(nodes)@.to_multiset() == old(nodes)@.to_multiset(),
{
    rand::seq::SliceRandom::shuffle(nodes.as_mut_slice(), &mut rand::thread_rng())
}

/// The nodes of a service, in random order, and the node that requests try first.
pub struct NodeSelector {
    nodes: Vec<url::Url>,
    idx: usize,
}

impl NodeSelector {
    #[verifier::type_invariant]
    closed spec fn inv(self) -> bool {
        self.nodes@.len() == 0 || self.idx < self.nodes@.len()
    }

    /// The nodes.
    pub closed spec fn nodes(&self) -> Seq<url::Url> {
        self.nodes@
    }

    /// The position of the node that requests try first.
    pub closed spec fn default_index(&self) -> nat {
        self.idx as nat
    }

    /// Creates a selector over the nodes at `urls`, with any trailing `/` of their paths removed,
    /// in random order; requests first try the first of them.
    pub fn new(urls: &[url::Url]) -> (res: NodeSelector)
        ensures
            res.nodes().len() == urls@.len(),
            res.default_index() == 0,
            exists|trimmed: Seq<url::Url>|
                trimmed_urls(trimmed, urls@) && #[trigger] trimmed.to_multiset() == res.nodes().to_multiset(),
    {
        let mut nodes: Vec<url::Url> = Vec::new();
        let mut i: usize = 0;
        while i < urls.len()
            invariant
                i <= urls@.len(),
                nodes@.len() == i,
                forall|k: int|
                    0 <= k < i ==> url_serialization(#[trigger] nodes@[k]) == url_trimmed(url_serialization(urls@[k])),
            decreases urls@.len() - i,
        {
            let mut url = clone_url(&urls[i]);
            pop_if_empty(&mut url);
            nodes.push(url);
            i = i + 1;
        }
        let ghost trimmed = nodes@;
        assert(trimmed_urls(trimmed, urls@));
        shuffle(&mut nodes);
        let res = NodeSelector { nodes, idx: 0 };
        assert(trimmed.to_multiset() == res.nodes().to_multiset());
        res
    }

    /// Starts a pass over the nodes at the node that requests try first; there is none when the
    /// service has no nodes.
    pub fn iter(&self) -> (res: Option<NodeIter<'_>>)
        ensures
            match res {
                Some(it) => self.nodes().len() > 0 && it.selector() == self && it.index()
                    == self.default_index(),
                None => self.nodes().len() == 0,
            },
    {
        proof {
            use_type_invariant(self);
        }
        if self.nodes.len() == 0 {
            None
        } else {
            Some(NodeIter { nodes: self, idx: self.idx })
        }
    }

    /// Makes the node at `index` the one that requests try first, as `NodeIter::set_default`
    /// asks.
    pub fn set_default(&mut self, index: usize)
        requires
            index < old(self).nodes().len(),
        ensures
            final(self).nodes() == old(self).nodes(),
            final(self).default_index() == index,
    {
        self.idx = index;
    }
}

/// A pass over the nodes of a selector, round and round.
pub struct NodeIter<'a> {
    nodes: &'a NodeSelector,
    idx: usize,
}

impl<'a> NodeIter<'a> {
    #[verifier::type_invariant]
    closed spec fn inv(self) -> bool {
        self.idx < self.nodes.nodes@.len()
    }

    /// The selector the pass is over.
    pub closed spec fn selector(&self) -> &'a NodeSelector {
        self.nodes
    }

    /// The position of the current node.
    pub closed spec fn index(&self) -> nat {
        self.idx as nat
    }

    /// Returns the current node.
    pub fn get(&self) -> (res: &'a url::Url)
        ensures
            self.index() < self.selector().nodes().len(),
            *res == self.selector().nodes()[self.index() as int],
    {
        proof {
            use_type_invariant(self);
        }
        &self.nodes.nodes[self.idx]
    }

    /// Moves on to the next node, after the last back to the first, and returns it.
    pub fn next(&mut self) -> (res: &'a url::Url)
        ensures
            final(self).selector() == old(self).selector(),
            final(self).index() == (old(self).index() + 1) % old(self).selector().nodes().len(),
            *res == final(self).selector().nodes()[final(self).index() as int],
    {
        proof {
            use_type_invariant(&*self);
        }
        let n = self.nodes.nodes.len();
        self.idx = (self.idx + 1) % n;
        self.get()
    }

    /// Returns the position of the current node, for `NodeSelector::set_default` to make it the
    /// node that later requests try first.
    pub fn set_default(&self) -> (res: usize)
        ensures
            res == self.index(),
            res < self.selector().nodes().len(),
    {
        proof {
            use_type_invariant(self);
        }
        self.idx
    }
}

/// The position a pass over `n` nodes reaches from `start` after `k` moves to the next node.
pub open spec fn advanced(start: nat, n: nat, k: nat) -> nat
    decreases k,
{
    if k == 0 {
        start
    } else {
        (advanced(start, n, (k - 1) as nat) + 1) % n
    }
}

proof fn lemma_advanced_mod(start: nat, n: nat, k: nat)
    requires
        start < n,
    ensures
        advanced(start, n, k) == (start + k) % n,
    decreases k,
{
    if k == 0 {
        lemma_small_mod(start, n);
    } else {
        lemma_advanced_mod(start, n, (k - 1) as nat);
        lemma_add_mod_noop((start + k - 1) as int, 1, n as int);
        if n == 1 {
            assert(1int % 1 == 0);
        } else {
            lemma_small_mod(1, n);
        }
        lemma_small_mod(advanced(start, n, (k - 1) as nat), n);
    }
}

/// Whether a pass over `n` nodes from `start` reaches position `j` within `n` moves.
pub open spec fn visited(start: nat, n: nat, j: nat) -> bool {
    exists|k: nat| k < n && #[trigger] advanced(start, n, k) == j
}

/// A pass over the nodes comes back to its first node after as many moves as there are nodes,
/// and meets every node on the way.
pub proof fn lemma_pass_visits_every_node(start: nat, n: nat)
    requires
        start < n,
    ensures
        advanced(start, n, n) == start,
        forall|j: nat| j < n ==> #[trigger] visited(start, n, j),
{
    lemma_advanced_mod(start, n, n);
    lemma_mod_add_multiples_vanish(start as int, n as int);
    lemma_small_mod(start, n);
    assert forall|j: nat| j < n implies #[trigger] visited(start, n, j) by {
        let k: nat = if j >= start {
            (j - start) as nat
        } else {
            (j + n - start) as nat
        };
        lemma_advanced_mod(start, n, k);
        if j >= start {
            lemma_small_mod(j, n);
        } else {
            lemma_mod_add_multiples_vanish(j as int, n as int);
            lemma_small_mod(j, n);
        }
        assert(advanced(start, n, k) == j);
    }
}

} // verus!
