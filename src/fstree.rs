//! A tree keyed by path segments that answers "which registered path is the
//! deepest ancestor of this one". Nodes live in an arena and refer to their
//! children by index.
use vstd::prelude::*;

use crate::paths::{components, path_components, starts_at_root};
use crate::text::strings_view;

verus! {

/// A key of the tree: the sequence of segments of a path.
pub type SegPath = Seq<Seq<char>>;

/// The payload stored at the deepest of the first `k + 1` prefixes of `q`
/// (the prefixes of length `0..=k`) that carries one.
pub open spec fn closest_within<T>(m: Map<SegPath, T>, q: SegPath, k: nat) -> Option<T>
    decreases k,
{
    if m.contains_key(q.take(k as int)) {
        Some(m[q.take(k as int)])
    } else if k == 0 {
        None
    } else {
        closest_within(m, q, (k - 1) as nat)
    }
}

/// The payload of the deepest key of `m` that is a prefix of `q`.
pub open spec fn closest<T>(m: Map<SegPath, T>, q: SegPath) -> Option<T> {
    closest_within(m, q, q.len())
}

/// Reads an optional reference as an optional value.
pub open spec fn deref_opt<T>(o: Option<&T>) -> Option<T> {
    match o {
        Some(v) => Some(*v),
        None => None,
    }
}

struct Node<T> {
    data: Option<T>,
    children: Vec<(String, usize)>,
}

/// A path-indexed tree. Its view maps each key that carries a payload to
/// that payload.
pub struct FsTree<T> {
    nodes: Vec<Node<T>>,
    paths: Ghost<Seq<SegPath>>,
    contents: Ghost<Map<SegPath, T>>,
}

impl<T> View for FsTree<T> {
    type V = Map<SegPath, T>;

    closed spec fn view(&self) -> Map<SegPath, T> {
        self.contents@
    }
}

impl<T> FsTree<T> {
    spec fn n(&self) -> int {
        self.nodes@.len() as int
    }

    spec fn child_name(&self, i: int, k: int) -> Seq<char> {
        self.nodes@[i].children@[k].0@
    }

    spec fn child_ok(&self, i: int, k: int) -> bool {
        let c = self.nodes@[i].children@[k].1 as int;
        &&& 0 <= c < self.n()
        &&& self.paths@[c] == self.paths@[i].push(self.child_name(i, k))
    }

    spec fn has_child(&self, i: int, name: Seq<char>) -> bool {
        exists|k: int| 0 <= k < self.nodes@[i].children@.len() && self.child_name(i, k) == name
    }

    spec fn has_node(&self, p: SegPath) -> bool {
        exists|i: int| 0 <= i < self.n() && self.paths@[i] == p
    }

    spec fn distinct(&self, i: int, j: int) -> bool {
        self.paths@[i] == self.paths@[j] ==> i == j
    }

    spec fn prefix_present(&self, j: int, l: int) -> bool {
        0 <= l <= self.paths@[j].len() ==> self.has_node(self.paths@[j].take(l))
    }

    spec fn edge_complete(&self, i: int, j: int) -> bool {
        (self.paths@[j].len() > 0 && self.paths@[j].drop_last() == self.paths@[i]) ==> self.has_child(
            i,
            self.paths@[j].last(),
        )
    }

    spec fn linked(&self, i: int) -> bool {
        self.nodes@[i].data is Some ==> {
            &&& self.contents@.contains_key(self.paths@[i])
            &&& self.contents@[self.paths@[i]] == self.nodes@[i].data->0
        }
    }

    spec fn backed(&self, p: SegPath) -> bool {
        self.contents@.contains_key(p) ==> exists|i: int|
            0 <= i < self.n() && self.paths@[i] == p && self.nodes@[i].data is Some
    }

    /// The arena forms a tree: node 0 is the root, every edge leads one
    /// segment down, every key has one node, every prefix of a key has a node,
    /// and the view holds exactly the payloads of the nodes.
    pub closed spec fn wf(&self) -> bool {
        &&& self.n() >= 1
        &&& self.paths@.len() == self.n()
        &&& self.paths@[0] == Seq::<Seq<char>>::empty()
        &&& forall|i: int, k: int|
            0 <= i < self.n() && 0 <= k < self.nodes@[i].children@.len() ==> #[trigger] self.child_ok(
                i,
                k,
            )
        &&& forall|i: int, j: int| 0 <= i < self.n() && 0 <= j < self.n() ==> #[trigger] self.distinct(i, j)
        &&& forall|j: int, l: int| 0 <= j < self.n() ==> #[trigger] self.prefix_present(j, l)
        &&& forall|i: int, j: int|
            0 <= i < self.n() && 0 <= j < self.n() ==> #[trigger] self.edge_complete(i, j)
        &&& forall|i: int| 0 <= i < self.n() ==> #[trigger] self.linked(i)
        &&& forall|p: SegPath| #[trigger] self.backed(p)
        &&& self.contents@.dom().finite()
    }

    /// An empty tree.
    pub fn new() -> (r: Self)
        ensures
            r.wf(),
            r@ == Map::<SegPath, T>::empty(),
    {
        let mut nodes: Vec<Node<T>> = Vec::new();
        nodes.push(Node { data: None, children: Vec::new() });
        let ghost root_only = Seq::<SegPath>::empty().push(Seq::<Seq<char>>::empty());
        let r = FsTree {
            nodes,
            paths: Ghost(root_only),
            contents: Ghost(Map::empty()),
        };
        assert forall|j: int, l: int| 0 <= j < r.n() implies #[trigger] r.prefix_present(j, l) by {
            if 0 <= l <= r.paths@[j].len() {
                assert(r.paths@[j].take(l) =~= r.paths@[0]);
            }
        }
        r
    }

    fn find_child(&self, i: usize, name: &String) -> (r: Option<usize>)
        requires
            self.wf(),
            i < self.n(),
        ensures
            match r {
                Some(c) => c < self.n() && self.paths@[c as int] == self.paths@[i as int].push(name@),
                None => !self.has_child(i as int, name@),
            },
    {
        let children = &self.nodes[i].children;
        let mut k: usize = 0;
        while k < children.len()
            invariant
                self.wf(),
                i < self.n(),
                children == &self.nodes@[i as int].children,
                k <= children@.len(),
                forall|k2: int| 0 <= k2 < k ==> self.child_name(i as int, k2) != name@,
            decreases children@.len() - k,
        {
            if children[k].0 == *name {
                assert(self.child_ok(i as int, k as int));
                return Some(children[k].1);
            }
            k += 1;
        }
        None
    }

    /// Stores `data` at the key `path`, creating the missing nodes on the way
    /// and replacing any payload already stored there.
    pub fn insert_with_path(&mut self, path: &Vec<String>, data: T)
        requires
            old(self).wf(),
        ensures
            final(self).wf(),
            final(self)@ == old(self)@.insert(strings_view(path@), data),
    {
        let ghost q = strings_view(path@);
        let ghost payload = data;
        let mut cur: usize = 0;
        let mut d: usize = 0;
        assert(q.take(0) =~= Seq::<Seq<char>>::empty());
        while d < path.len()
            invariant
                self.wf(),
                d <= path@.len(),
                q == strings_view(path@),
                cur < self.n(),
                self.paths@[cur as int] == q.take(d as int),
                self.contents@ == old(self).contents@,
            decreases path@.len() - d,
        {
            assert(q.take(d + 1) =~= q.take(d as int).push(path@[d as int]@));
            match self.find_child(cur, &path[d]) {
                Some(c) => {
                    cur = c;
                },
                None => {
                    self.add_child(cur, path[d].clone());
                    cur = self.nodes.len() - 1;
                },
            }
            d += 1;
        }
        assert(q.take(d as int) =~= q);
        let ghost before = *self;
        self.nodes[cur].data = Some(data);
        self.contents = Ghost(self.contents@.insert(q, payload));
        proof {
            assert forall|i: int| 0 <= i < self.n() implies #[trigger] self.linked(i) by {
                assert(before.distinct(i, cur as int));
                assert(before.linked(i));
            }
            assert forall|p: SegPath| #[trigger] self.backed(p) by {
                if p != q {
                    assert(before.backed(p));
                    if self.contents@.contains_key(p) {
                        let j = choose|j: int|
                            0 <= j < before.n() && before.paths@[j] == p
                                && before.nodes@[j].data is Some;
                        assert(self.nodes@[j].data is Some);
                    }
                } else {
                    assert(self.paths@[cur as int] == q && self.nodes@[cur as int].data is Some);
                }
            }
            assert forall|i: int, j: int|
                0 <= i < self.n() && 0 <= j < self.n() implies #[trigger] self.edge_complete(i, j) by {
                assert(before.edge_complete(i, j));
                if before.paths@[j].len() > 0 && before.paths@[j].drop_last() == before.paths@[i] {
                    let k = choose|k: int|
                        0 <= k < before.nodes@[i].children@.len() && before.child_name(i, k)
                            == before.paths@[j].last();
                    assert(self.child_name(i, k) == before.child_name(i, k));
                }
            }
            assert forall|j: int, l: int| 0 <= j < self.n() implies #[trigger] self.prefix_present(
                j,
                l,
            ) by {
                assert(before.prefix_present(j, l));
            }
            assert forall|i: int, k: int|
                0 <= i < self.n() && 0 <= k < self.nodes@[i].children@.len() implies #[trigger] self.child_ok(
                i,
                k,
            ) by {
                assert(before.child_ok(i, k));
            }
            assert forall|i: int, j: int| 0 <= i < self.n() && 0 <= j < self.n() implies #[trigger] self.distinct(i, j) by {
                assert(before.distinct(i, j));
            }
        }
        assert(self.contents@ =~= old(self).contents@.insert(q, payload));
    }

    /// Appends a fresh node below node `i` under `name`, which `i` lacks.
    fn add_child(&mut self, i: usize, name: String)
        requires
            old(self).wf(),
            i < old(self).n(),
            !old(self).has_child(i as int, name@),
        ensures
            final(self).wf(),
            final(self).n() == old(self).n() + 1,
            final(self).paths@ == old(self).paths@.push(old(self).paths@[i as int].push(name@)),
            final(self).contents@ == old(self).contents@,
    {
        let ghost p = self.paths@[i as int].push(name@);
        let ghost o = *self;
        proof {
            assert forall|j: int| 0 <= j < o.n() implies o.paths@[j] != p by {
                if o.paths@[j] == p {
                    assert(p.drop_last() =~= o.paths@[i as int]);
                    assert(o.edge_complete(i as int, j));
                }
            }
        }
        let idx = self.nodes.len();
        self.nodes.push(Node { data: None, children: Vec::new() });
        self.paths = Ghost(self.paths@.push(p));
        self.nodes[i].children.push((name, idx));
        proof {
            let n = self.n();
            assert forall|a: int, k: int|
                0 <= a < n && 0 <= k < self.nodes@[a].children@.len() implies #[trigger] self.child_ok(
                a,
                k,
            ) by {
                if !(a == i && k == o.nodes@[a].children@.len()) {
                    assert(o.child_ok(a, k));
                }
            }
            assert forall|a: int, b: int| 0 <= a < n && 0 <= b < n implies #[trigger] self.distinct(
                a,
                b,
            ) by {
                if a < o.n() && b < o.n() {
                    assert(o.distinct(a, b));
                }
            }
            assert forall|j: int, l: int| 0 <= j < n implies #[trigger] self.prefix_present(j, l) by {
                if 0 <= l <= self.paths@[j].len() {
                    if j < o.n() {
                        assert(o.prefix_present(j, l));
                        let w = choose|w: int| 0 <= w < o.n() && o.paths@[w] == o.paths@[j].take(l);
                        assert(self.paths@[w] == self.paths@[j].take(l));
                    } else if l == p.len() {
                        assert(p.take(l) =~= p);
                        assert(self.paths@[n - 1] == self.paths@[j].take(l));
                    } else {
                        assert(o.prefix_present(i as int, l));
                        assert(p.take(l) =~= o.paths@[i as int].take(l));
                        let w = choose|w: int|
                            0 <= w < o.n() && o.paths@[w] == o.paths@[i as int].take(l);
                        assert(self.paths@[w] == self.paths@[j].take(l));
                    }
                }
            }
            assert forall|a: int, b: int| 0 <= a < n && 0 <= b < n implies #[trigger] self.edge_complete(
                a,
                b,
            ) by {
                if self.paths@[b].len() > 0 && self.paths@[b].drop_last() == self.paths@[a] {
                    if b == n - 1 {
                        assert(p.drop_last() =~= o.paths@[i as int]);
                        if a < o.n() {
                            assert(o.distinct(a, i as int));
                        }
                        assert(self.child_name(i as int, o.nodes@[i as int].children@.len() as int)
                            == name@);
                    } else if a == n - 1 {
                        let pb = o.paths@[b];
                        assert(o.prefix_present(b, pb.len() - 1));
                        assert(pb.take(pb.len() - 1) =~= pb.drop_last());
                    } else {
                        assert(o.edge_complete(a, b));
                        let k = choose|k: int|
                            0 <= k < o.nodes@[a].children@.len() && o.child_name(a, k)
                                == o.paths@[b].last();
                        assert(self.child_name(a, k) == o.child_name(a, k));
                    }
                }
            }
            assert forall|a: int| 0 <= a < n implies #[trigger] self.linked(a) by {
                if a < o.n() {
                    assert(o.linked(a));
                }
            }
            assert forall|q: SegPath| #[trigger] self.backed(q) by {
                assert(o.backed(q));
                if self.contents@.contains_key(q) {
                    let j = choose|j: int|
                        0 <= j < o.n() && o.paths@[j] == q && o.nodes@[j].data is Some;
                    assert(self.paths@[j] == q);
                }
            }
        }
    }
}


impl<T> FsTree<T> {
    /// Stores `data` at the absolute `path`, replacing any payload already
    /// stored there.
    pub fn insert(&mut self, path: &str, data: T)
        requires
            old(self).wf(),
            starts_at_root(path@),
        ensures
            final(self).wf(),
            final(self)@ == old(self)@.insert(path_components(path@), data),
            path_components(path@)[0] == seq!['/'],
    {
        let segs = components(path);
        self.insert_with_path(&segs, data);
    }

    /// The payload of the deepest stored key that is a prefix of `path`.
    pub fn get_with_path(&self, path: &Vec<String>) -> (r: Option<&T>)
        requires
            self.wf(),
        ensures
            deref_opt(r) == closest(self@, strings_view(path@)),
    {
        let ghost q = strings_view(path@);
        let ghost m = self@;
        let mut cur: usize = 0;
        let mut d: usize = 0;
        let mut best: Option<&T> = self.nodes[0].data.as_ref();
        let mut stuck = false;
        proof {
            assert(q.take(0) =~= Seq::<Seq<char>>::empty());
            self.lemma_payload_at(0);
        }
        while d < path.len() && !stuck
            invariant
                self.wf(),
                m == self@,
                d <= path@.len(),
                q == strings_view(path@),
                cur < self.n(),
                self.paths@[cur as int] == q.take(d as int),
                deref_opt(best) == closest_within(m, q, d as nat),
                stuck ==> d < path@.len() && !self.has_child(cur as int, q[d as int]),
            decreases path@.len() - d + (if stuck { 0int } else { 1int }),
        {
            match self.find_child(cur, &path[d]) {
                None => {
                    stuck = true;
                },
                Some(c) => {
                    assert(q.take(d + 1) =~= q.take(d as int).push(path@[d as int]@));
                    cur = c;
                    d += 1;
                    proof {
                        self.lemma_payload_at(cur as int);
                    }
                    match self.nodes[cur].data.as_ref() {
                        Some(v) => {
                            best = Some(v);
                        },
                        None => {},
                    }
                },
            }
        }
        proof {
            if stuck {
                assert forall|k: int| d < k <= q.len() implies !m.contains_key(#[trigger] q.take(k)) by {
                    if m.contains_key(q.take(k)) {
                        assert(self.backed(q.take(k)));
                        let j = choose|j: int|
                            0 <= j < self.n() && self.paths@[j] == q.take(k)
                                && self.nodes@[j].data is Some;
                        assert(self.prefix_present(j, d + 1));
                        assert(q.take(k).take(d + 1) =~= q.take(d + 1));
                        let j2 = choose|j2: int|
                            0 <= j2 < self.n() && self.paths@[j2] == q.take(d + 1);
                        assert(self.edge_complete(cur as int, j2));
                        assert(q.take(d + 1).drop_last() =~= q.take(d as int));
                    }
                }
                lemma_closest_skips(m, q, d as nat, q.len());
            } else {
                assert(d == q.len());
            }
        }
        best
    }

    /// The node at index `i` carries a payload exactly when its key is in
    /// the view, and that payload is the view's value there.
    proof fn lemma_payload_at(&self, i: int)
        requires
            self.wf(),
            0 <= i < self.n(),
        ensures
            self@.contains_key(self.paths@[i]) <==> self.nodes@[i].data is Some,
            self.nodes@[i].data is Some ==> self@[self.paths@[i]] == self.nodes@[i].data->0,
    {
        assert(self.linked(i));
        assert(self.backed(self.paths@[i]));
        if self@.contains_key(self.paths@[i]) {
            let j = choose|j: int|
                0 <= j < self.n() && self.paths@[j] == self.paths@[i] && self.nodes@[j].data is Some;
            assert(self.distinct(i, j));
        }
    }

    /// The payload of the deepest stored key that is a prefix of `path`,
    /// comparing paths segment by segment.
    pub fn get_closest(&self, path: &str) -> (r: Option<&T>)
        requires
            self.wf(),
        ensures
            deref_opt(r) == closest(self@, path_components(path@)),
    {
        let segs = components(path);
        self.get_with_path(&segs)
    }

    /// Every payload in the tree, one item per stored key.
    pub fn values(&self) -> (r: Vec<&T>)
        requires
            self.wf(),
        ensures
            r@.len() == self@.dom().len(),
            exists|keys: Seq<SegPath>|
                {
                    &&& keys.len() == r@.len()
                    &&& keys.no_duplicates()
                    &&& forall|i: int|
                        0 <= i < keys.len() ==> self@.contains_key(#[trigger] keys[i]) && self@[keys[i]]
                            == *r@[i]
                },
    {
        let mut r: Vec<&T> = Vec::new();
        let ghost mut keys: Seq<SegPath> = Seq::empty();
        let mut i: usize = 0;
        while i < self.nodes.len()
            invariant
                self.wf(),
                i <= self.n(),
                keys.len() == r@.len(),
                keys.no_duplicates(),
                forall|a: int|
                    0 <= a < keys.len() ==> self@.contains_key(#[trigger] keys[a]) && self@[keys[a]]
                        == *r@[a],
                forall|a: int|
                    0 <= a < keys.len() ==> exists|j: int| 0 <= j < i && self.paths@[j] == #[trigger] keys[a],
                forall|j: int|
                    0 <= j < i && self.nodes@[j].data is Some ==> keys.contains(#[trigger] self.paths@[j]),
            decreases self.n() - i,
        {
            let ghost keys0 = keys;
            proof {
                self.lemma_payload_at(i as int);
            }
            match self.nodes[i].data.as_ref() {
                Some(v) => {
                    proof {
                        if keys.contains(self.paths@[i as int]) {
                            let a = choose|a: int| 0 <= a < keys.len() && keys[a] == self.paths@[i as int];
                            let j = choose|j: int| 0 <= j < i && self.paths@[j] == keys[a];
                            assert(self.distinct(j, i as int));
                        }
                        keys = keys.push(self.paths@[i as int]);
                        assert(keys.last() == self.paths@[i as int]);
                    }
                    r.push(v);
                },
                None => {},
            }
            proof {
                assert forall|a: int| 0 <= a < keys.len() implies exists|j: int|
                    0 <= j < i + 1 && self.paths@[j] == #[trigger] keys[a] by {
                    if a == keys.len() - 1 && self.nodes@[i as int].data is Some {
                        assert(self.paths@[i as int] == keys[a]);
                    } else {
                        let j = choose|j: int| 0 <= j < i && self.paths@[j] == keys[a];
                        assert(self.paths@[j] == keys[a]);
                    }
                }
                assert forall|j: int| 0 <= j < i + 1 && self.nodes@[j].data is Some implies keys.contains(
                    #[trigger] self.paths@[j],
                ) by {
                    if j == i {
                        assert(keys[keys.len() - 1] == self.paths@[j]);
                    } else {
                        assert(keys0.contains(self.paths@[j]));
                        let a = choose|a: int| 0 <= a < keys0.len() && keys0[a] == self.paths@[j];
                        assert(keys[a] == keys0[a]);
                    }
                }
            }
            i += 1;
        }
        proof {
            assert forall|p: SegPath| keys.to_set().contains(p) <==> self@.dom().contains(p) by {
                if self@.contains_key(p) {
                    assert(self.backed(p));
                    let j = choose|j: int|
                        0 <= j < self.n() && self.paths@[j] == p && self.nodes@[j].data is Some;
                    assert(keys.contains(self.paths@[j]));
                }
                if keys.to_set().contains(p) {
                    let a = choose|a: int| 0 <= a < keys.len() && keys[a] == p;
                    assert(self@.contains_key(keys[a]));
                }
            }
            assert(keys.to_set() =~= self@.dom());
            keys.unique_seq_to_set();
        }
        r
    }
}

/// Past the last stored prefix, looking further down changes nothing.
proof fn lemma_closest_skips<T>(m: Map<SegPath, T>, q: SegPath, d: nat, k: nat)
    requires
        d <= k <= q.len(),
        forall|x: int| d < x <= q.len() ==> !m.contains_key(#[trigger] q.take(x)),
    ensures
        closest_within(m, q, k) == closest_within(m, q, d),
    decreases k,
{
    if k > d {
        assert(!m.contains_key(q.take(k as int)));
        lemma_closest_skips(m, q, d, (k - 1) as nat);
    }
}

/// The lookup finds the deepest stored ancestor: when it yields a payload,
/// that payload is stored at some prefix of `q` and no longer prefix of `q`
/// is stored; when it yields nothing, no prefix of `q` is stored.
pub proof fn lemma_closest_is_deepest_ancestor<T>(m: Map<SegPath, T>, q: SegPath)
    ensures
        match closest(m, q) {
            Some(v) => exists|k: int|
                0 <= k <= q.len() && m.contains_key(#[trigger] q.take(k)) && m[q.take(k)] == v
                    && forall|k2: int| k < k2 <= q.len() ==> !m.contains_key(#[trigger] q.take(k2)),
            None => forall|k: int| 0 <= k <= q.len() ==> !m.contains_key(#[trigger] q.take(k)),
        },
{
    lemma_closest_within_deepest(m, q, q.len());
}

proof fn lemma_closest_within_deepest<T>(m: Map<SegPath, T>, q: SegPath, n: nat)
    requires
        n <= q.len(),
    ensures
        match closest_within(m, q, n) {
            Some(v) => exists|k: int|
                0 <= k <= n && m.contains_key(#[trigger] q.take(k)) && m[q.take(k)] == v
                    && forall|k2: int| k < k2 <= n ==> !m.contains_key(#[trigger] q.take(k2)),
            None => forall|k: int| 0 <= k <= n ==> !m.contains_key(#[trigger] q.take(k)),
        },
    decreases n,
{
    if m.contains_key(q.take(n as int)) {
        assert(m.contains_key(q.take(n as int)));
    } else if n > 0 {
        lemma_closest_within_deepest(m, q, (n - 1) as nat);
        match closest_within(m, q, (n - 1) as nat) {
            Some(v) => {
                let k = choose|k: int|
                    0 <= k <= n - 1 && m.contains_key(#[trigger] q.take(k)) && m[q.take(k)] == v
                        && forall|k2: int| k < k2 <= n - 1 ==> !m.contains_key(#[trigger] q.take(k2));
                assert(m.contains_key(q.take(k)));
            },
            None => {},
        }
    }
}

/// Storing at a key that is already present replaces its payload: the tree
/// then holds the new payload alone there, and a lookup of that key, or of
/// any path below it with no deeper stored key on the way, gives the new
/// payload.
pub proof fn lemma_insert_overwrites<T>(m: Map<SegPath, T>, p: SegPath, first: T, second: T, q: SegPath)
    requires
        p.len() <= q.len(),
        q.take(p.len() as int) == p,
        forall|k: int| p.len() < k <= q.len() ==> !m.contains_key(#[trigger] q.take(k)),
    ensures
        m.insert(p, first).insert(p, second) == m.insert(p, second),
        closest(m.insert(p, first).insert(p, second), p) == Some(second),
        closest(m.insert(p, first).insert(p, second), q) == Some(second),
{
    let m2 = m.insert(p, first).insert(p, second);
    assert(m2 =~= m.insert(p, second));
    assert(p.take(p.len() as int) =~= p);
    assert forall|k: int| p.len() < k <= q.len() implies !m2.contains_key(#[trigger] q.take(k)) by {
        assert(q.take(k).len() == k);
        assert(q.take(k) != p);
    }
    lemma_closest_skips(m2, q, p.len(), q.len());
}

} // verus!
