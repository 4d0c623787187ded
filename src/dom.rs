use vstd::prelude::*;
use vstd::string::*;

use crate::widgets::WidgetDesc;

verus! {

/// Key under which a node is found among its siblings (exact string match).
pub struct Name(pub String);

impl View for Name {
    type V = Seq<char>;

    open spec fn view(&self) -> Seq<char> {
        self.0@
    }
}

/// Opaque handle of a node; handles are issued in increasing order and never reused.
#[derive(PartialEq, Eq, Structural, Clone, Copy, Debug, Hash)]
pub struct NodeId(pub u32);

/// Why the node store refused an insertion.
#[derive(PartialEq, Eq, Structural, Clone, Copy, Debug)]
pub enum DomError {
    /// The name is already bound among the new node's siblings.
    DuplicateName,
}

/// The payload that every node carries.
pub struct NodeData<W> {
    pub widget: WidgetDesc<W>,
}

pub struct Node<W> {
    data: NodeData<W>,
    parent: Option<NodeId>,
    children: Vec<(Name, NodeId)>,
}

/// Path-addressed forest of nodes.
///
/// The table is an arena: the node with handle `NodeId(i)` is stored at index `i`.
pub struct Dom<W> {
    elements: Vec<Node<W>>,
    root: Vec<(Name, NodeId)>,
    last_id: NodeId,
}

/// The handle stored under `key` in a name table, if any.
pub open spec fn find_entry(entries: Seq<(Name, NodeId)>, key: Seq<char>) -> Option<NodeId> {
    if exists|i: int| 0 <= i < entries.len() && entries[i].0@ == key {
        Some(entries[choose|i: int| 0 <= i < entries.len() && entries[i].0@ == key].1)
    } else {
        None
    }
}

/// No name occurs twice in a name table.
pub open spec fn keys_unique(entries: Seq<(Name, NodeId)>) -> bool {
    forall|i: int, j: int|
        0 <= i < entries.len() && 0 <= j < entries.len() && #[trigger] entries[i].0@
            == #[trigger] entries[j].0@ ==> i == j
}

/// Every handle in a name table is below `n`.
pub open spec fn ids_below(entries: Seq<(Name, NodeId)>, n: int) -> bool {
    forall|i: int| 0 <= i < entries.len() ==> (#[trigger] entries[i]).1.0 < n
}

/// Index of the first `/` at or after `i`, or the length when there is none.
pub open spec fn segment_end(s: Seq<char>, i: int) -> int
    decreases s.len() - i,
{
    if i >= s.len() || s[i] == '/' {
        i
    } else {
        segment_end(s, i + 1)
    }
}

pub open spec fn has_slash(s: Seq<char>) -> bool {
    exists|i: int| 0 <= i < s.len() && s[i] == '/'
}

pub proof fn lemma_segment_end_bounds(s: Seq<char>, i: int)
    requires
        0 <= i <= s.len(),
    ensures
        i <= segment_end(s, i) <= s.len(),
        segment_end(s, i) < s.len() ==> s[segment_end(s, i)] == '/',
        forall|j: int| i <= j < segment_end(s, i) ==> s[j] != '/',
    decreases s.len() - i,
{
    if i < s.len() && s[i] != '/' {
        lemma_segment_end_bounds(s, i + 1);
    }
}

/// A name table after `key` was bound to `id`, replacing an earlier binding.
proof fn lemma_find_after_set(
    new_entries: Seq<(Name, NodeId)>,
    key: Seq<char>,
    id: NodeId,
    pos: int,
)
    requires
        keys_unique(new_entries),
        0 <= pos < new_entries.len(),
        new_entries[pos].0@ == key,
        new_entries[pos].1 == id,
        forall|i: int| 0 <= i < new_entries.len() && i != pos ==> #[trigger] new_entries[i].0@ != key,
    ensures
        find_entry(new_entries, key) == Some(id),
{
}

/// Binds `key` to `id` in a name table whose names are unique.
fn set_entry(entries: &mut Vec<(Name, NodeId)>, key: Name, id: NodeId)
    requires
        keys_unique(old(entries)@),
    ensures
        keys_unique(final(entries)@),
        forall|k: Seq<char>|
            #[trigger] find_entry(final(entries)@, k) == if k == key@ {
                Some(id)
            } else {
                find_entry(old(entries)@, k)
            },
        forall|n: int| ids_below(old(entries)@, n) && id.0 < n ==> ids_below(final(entries)@, n),
{
    let mut i: usize = 0;
    while i < entries.len()
        invariant
            0 <= i <= entries.len(),
            entries@ == old(entries)@,
            keys_unique(entries@),
            forall|j: int| 0 <= j < i ==> #[trigger] entries@[j].0@ != key@,
        decreases entries.len() - i,
    {
        if entries[i].0.0 == key.0 {
            let ghost before = entries@;
            entries[i].1 = id;
            proof {
                assert(entries@ =~= before.update(i as int, (before[i as int].0, id)));
                assert forall|k: Seq<char>|
                    #[trigger] find_entry(entries@, k) == if k == key@ {
                        Some(id)
                    } else {
                        find_entry(before, k)
                    } by {
                    if k == key@ {
                        lemma_find_after_set(entries@, k, id, i as int);
                    } else {
                        if exists|j: int| 0 <= j < before.len() && before[j].0@ == k {
                            let a = choose|j: int| 0 <= j < before.len() && before[j].0@ == k;
                            assert(entries@[a].0@ == k);
                            let b = choose|j: int| 0 <= j < entries@.len() && entries@[j].0@ == k;
                            assert(before[b].0@ == k);
                            assert(a == b);
                        } else {
                            assert forall|j: int| 0 <= j < entries@.len() implies #[trigger] entries@[j].0@
                                != k by {
                                assert(entries@[j].0 == before[j].0);
                            }
                        }
                    }
                }
            }
            return;
        }
        i = i + 1;
    }
    let ghost before = entries@;
    let pos = entries.len();
    entries.push((key, id));
    proof {
        assert forall|k: Seq<char>|
            #[trigger] find_entry(entries@, k) == if k == entries@[pos as int].0@ {
                Some(id)
            } else {
                find_entry(before, k)
            } by {
            if k == entries@[pos as int].0@ {
                lemma_find_after_set(entries@, k, id, pos as int);
            } else {
                if exists|j: int| 0 <= j < before.len() && before[j].0@ == k {
                    let a = choose|j: int| 0 <= j < before.len() && before[j].0@ == k;
                    assert(entries@[a].0@ == k);
                    let b = choose|j: int| 0 <= j < entries@.len() && entries@[j].0@ == k;
                    assert(a == b);
                } else {
                    assert forall|j: int| 0 <= j < entries@.len() implies #[trigger] entries@[j].0@ != k by {
                        if j < before.len() {
                            assert(entries@[j] == before[j]);
                        }
                    }
                }
            }
        }
    }
}

/// Looks `key` up in a name table whose names are unique.
fn find_in(entries: &Vec<(Name, NodeId)>, key: &String) -> (r: Option<NodeId>)
    requires
        keys_unique(entries@),
    ensures
        r == find_entry(entries@, key@),
{
    let mut i: usize = 0;
    while i < entries.len()
        invariant
            0 <= i <= entries.len(),
            keys_unique(entries@),
            forall|j: int| 0 <= j < i ==> #[trigger] entries@[j].0@ != key@,
        decreases entries.len() - i,
    {
        if entries[i].0.0 == *key {
            let ghost w = choose|j: int| 0 <= j < entries@.len() && entries@[j].0@ == key@;
            assert(entries@[i as int].0@ == entries@[w].0@);
            return Some(entries[i].1);
        }
        i = i + 1;
    }
    None
}

impl<W> Node<W> {
    pub closed spec fn spec_parent(&self) -> Option<NodeId> {
        self.parent
    }

    pub closed spec fn spec_children(&self) -> Seq<(Name, NodeId)> {
        self.children@
    }

    pub closed spec fn spec_data(&self) -> &NodeData<W> {
        &self.data
    }

    pub fn data(&self) -> (r: &NodeData<W>)
        ensures
            r == self.spec_data(),
    {
        &self.data
    }

    pub fn parent(&self) -> (r: Option<NodeId>)
        ensures
            r == self.spec_parent(),
    {
        self.parent
    }

    /// The child registered under `name`.
    pub fn child(&self, name: &str) -> (r: Option<NodeId>)
        requires
            keys_unique(self.spec_children()),
        ensures
            r == find_entry(self.spec_children(), name@),
    {
        let key = String::from_str(name);
        find_in(&self.children, &key)
    }
}

impl<W> Dom<W> {
    pub closed spec fn len(&self) -> nat {
        self.elements@.len()
    }

    pub closed spec fn node(&self, id: NodeId) -> Node<W> {
        self.elements@[id.0 as int]
    }

    pub closed spec fn root_table(&self) -> Seq<(Name, NodeId)> {
        self.root@
    }

    /// Whether `id` was issued by this store.
    pub open spec fn contains(&self, id: NodeId) -> bool {
        id.0 < self.len()
    }

    /// No table refers to a node that is not stored; names are unique per table.
    pub closed spec fn wf(&self) -> bool {
        &&& self.last_id.0 == self.elements@.len()
        &&& keys_unique(self.root@)
        &&& ids_below(self.root@, self.elements@.len() as int)
        &&& forall|i: int|
            0 <= i < self.elements@.len() ==> {
                &&& keys_unique((#[trigger] self.elements@[i]).children@)
                &&& ids_below(self.elements@[i].children@, self.elements@.len() as int)
                &&& match self.elements@[i].parent {
                    Some(p) => p.0 < self.elements@.len(),
                    None => true,
                }
            }
    }

    /// One step of a path walk: from the root level (`None`) or from a node.
    pub open spec fn step(&self, from: Option<NodeId>, seg: Seq<char>) -> Option<NodeId> {
        match from {
            None => find_entry(self.root_table(), seg),
            Some(id) => if self.contains(id) {
                find_entry(self.node(id).spec_children(), seg)
            } else {
                None
            },
        }
    }

    /// Walks the segments of `p` that begin at `start`, one name per segment.
    pub open spec fn walk(&self, p: Seq<char>, from: Option<NodeId>, start: int) -> Option<NodeId>
        decreases p.len() - start,
    {
        let k = segment_end(p, start);
        if start < 0 || k < start {
            None
        } else {
            match self.step(from, p.subrange(start, k)) {
                None => None,
                Some(n) => if k >= p.len() {
                    Some(n)
                } else {
                    self.walk(p, Some(n), k + 1)
                },
            }
        }
    }

    /// The node named by the whole path `p` (`/a/b` names child `b` of root node `a`).
    pub open spec fn lookup_spec(&self, p: Seq<char>) -> Option<NodeId> {
        if p.len() > 0 && p[0] == '/' {
            self.walk(p, None, 1)
        } else {
            None
        }
    }

    pub fn new() -> (r: Self)
        ensures
            r.wf(),
            r.len() == 0,
            r.root_table().len() == 0,
    {
        Dom { elements: Vec::new(), root: Vec::new(), last_id: NodeId(0) }
    }

    fn step_exec(&self, from: Option<NodeId>, seg: &String) -> (r: Option<NodeId>)
        requires
            self.wf(),
        ensures
            r == self.step(from, seg@),
            r matches Some(n) ==> self.contains(n),
    {
        match from {
            None => find_in(&self.root, seg),
            Some(id) => {
                if (id.0 as usize) < self.elements.len() {
                    assert(keys_unique(self.elements@[id.0 as int].children@));
                    let r = find_in(&self.elements[id.0 as usize].children, seg);
                    proof {
                        if let Some(n) = r {
                            let w = choose|j: int|
                                0 <= j < self.node(id).children@.len()
                                    && self.node(id).children@[j].0@ == seg@;
                            assert(ids_below(self.node(id).children@, self.elements@.len() as int));
                            assert(self.node(id).children@[w].1.0 < self.elements@.len());
                        }
                    }
                    r
                } else {
                    None
                }
            },
        }
    }

    /// Resolves a slash-delimited path to the node it names.
    ///
    /// Absent on an empty path, on a path without its leading `/`, and on any
    /// segment that names no node.
    pub fn get(&self, path: &str) -> (r: Option<NodeId>)
        requires
            self.wf(),
        ensures
            r == self.lookup_spec(path@),
            path@.len() == 0 || path@[0] != '/' ==> r is None,
            r matches Some(n) ==> self.contains(n),
    {
        let n = path.unicode_len();
        if n == 0 || path.get_char(0) != '/' {
            return None;
        }
        let mut cur: Option<NodeId> = None;
        let mut start: usize = 1;
        loop
            invariant
                self.wf(),
                n == path@.len(),
                1 <= start <= n,
                path@.len() > 0 && path@[0] == '/',
                self.lookup_spec(path@) == self.walk(path@, cur, start as int),
            decreases n - start,
        {
            let mut k: usize = start;
            while k < n && path.get_char(k) != '/'
                invariant
                    start <= k <= n,
                    n == path@.len(),
                    segment_end(path@, start as int) == segment_end(path@, k as int),
                decreases n - k,
            {
                k = k + 1;
            }
            proof {
                lemma_segment_end_bounds(path@, start as int);
            }
            let seg = String::from_str(path.substring_char(start, k));
            match self.step_exec(cur, &seg) {
                None => {
                    return None;
                },
                Some(id) => {
                    if k >= n {
                        return Some(id);
                    }
                    cur = Some(id);
                    start = k + 1;
                },
            }
        }
    }

    /// The parent that `add_node` gives a node inserted under `p`: none for `/`,
    /// else the node that `p` names (none again when `p` names no node).
    pub open spec fn insertion_parent(&self, p: Seq<char>) -> Option<NodeId> {
        if p == seq!['/'] {
            None
        } else {
            self.lookup_spec(p)
        }
    }

    /// The name table in which a node under `parent` is registered.
    pub open spec fn table(&self, parent: Option<NodeId>) -> Seq<(Name, NodeId)> {
        match parent {
            None => self.root_table(),
            Some(p) => self.node(p).spec_children(),
        }
    }

    /// Inserts `node` as `name` under the node that `path` names, or at the root
    /// level when `path` is `/` or names no node. A name that is already bound in
    /// that table is rejected and the store is left as it was.
    pub fn add_node(&mut self, name: &str, path: &str, node: NodeData<W>) -> (r: Result<
        NodeId,
        DomError,
    >)
        requires
            old(self).wf(),
            old(self).len() < u32::MAX,
        ensures
            final(self).wf(),
            ({
                let parent = old(self).insertion_parent(path@);
                &&& path@ == seq!['/'] ==> parent is None
                &&& path@ != seq!['/'] ==> parent == old(self).lookup_spec(path@)
                &&& parent matches Some(p) ==> old(self).contains(p)
                &&& (r is Err <==> find_entry(old(self).table(parent), name@) is Some)
                &&& r is Err ==> r == Err::<NodeId, DomError>(DomError::DuplicateName)
                &&& r is Err ==> *final(self) == *old(self)
                &&& r matches Ok(id) ==> {
                    &&& id.0 == old(self).len()
                    &&& !old(self).contains(id)
                    &&& final(self).len() == old(self).len() + 1
                    &&& final(self).contains(id)
                    &&& final(self).node(id).spec_parent() == parent
                    &&& final(self).node(id).spec_children().len() == 0
                    &&& *final(self).node(id).spec_data() == node
                    &&& forall|k: Seq<char>|
                        #[trigger] find_entry(final(self).table(parent), k) == if k == name@ {
                            Some(id)
                        } else {
                            find_entry(old(self).table(parent), k)
                        }
                    &&& parent is Some ==> final(self).root_table() == old(self).root_table()
                    &&& forall|i: u32|
                        i < old(self).len() ==> {
                            &&& (#[trigger] final(self).node(NodeId(i))).spec_parent()
                                == old(self).node(NodeId(i)).spec_parent()
                            &&& final(self).node(NodeId(i)).spec_data() == old(self).node(
                                NodeId(i),
                            ).spec_data()
                            &&& parent != Some(NodeId(i)) ==> final(self).node(
                                NodeId(i),
                            ).spec_children() == old(self).node(NodeId(i)).spec_children()
                        }
                }
            }),
    {
        let parent = if path.unicode_len() == 1 && path.get_char(0) == '/' {
            assert(path@ =~= seq!['/']);
            None
        } else {
            self.get(path)
        };
        let key = Name(String::from_str(name));
        let bound = match parent {
            None => find_in(&self.root, &key.0),
            Some(p) => {
                assert(keys_unique(self.elements@[p.0 as int].children@));
                find_in(&self.elements[p.0 as usize].children, &key.0)
            },
        };
        if bound.is_some() {
            return Err(DomError::DuplicateName);
        }
        let id = self.last_id;
        let ghost old_self = *self;
        self.elements.push(Node { data: node, parent, children: Vec::new() });
        self.last_id = NodeId(id.0 + 1);
        let ghost len = self.elements@.len() as int;
        match parent {
            None => {
                set_entry(&mut self.root, key, id);
            },
            Some(p) => {
                assert(self.elements@[p.0 as int] == old_self.elements@[p.0 as int]);
                set_entry(&mut self.elements[p.0 as usize].children, key, id);
            },
        }
        proof {
            assert forall|i: int| 0 <= i < self.elements@.len() implies {
                &&& keys_unique((#[trigger] self.elements@[i]).children@)
                &&& ids_below(self.elements@[i].children@, len)
                &&& match self.elements@[i].parent {
                    Some(q) => q.0 < len,
                    None => true,
                }
            } by {
                if i < old_self.elements@.len() {
                    assert(ids_below(old_self.elements@[i].children@, old_self.elements@.len() as int));
                }
            }
        }
        Ok(id)
    }

    /// The node stored under `id`.
    pub fn get_node_from_id(&self, id: &NodeId) -> (r: Option<&Node<W>>)
        ensures
            r is Some <==> id.0 < self.len(),
            r matches Some(n) ==> *n == self.node(*id),
            self.wf() ==> (r matches Some(n) ==> keys_unique(n.spec_children())),
    {
        if (id.0 as usize) < self.elements.len() {
            Some(&self.elements[id.0 as usize])
        } else {
            None
        }
    }
}

/// A name without `/` that is bound at the root level is what the path `/name` resolves to.
pub proof fn lemma_path_round_trip<W>(d: Dom<W>, name: Seq<char>)
    requires
        d.wf(),
        !has_slash(name),
    ensures
        d.lookup_spec(seq!['/'] + name) == find_entry(d.root_table(), name),
{
    let p = seq!['/'] + name;
    lemma_segment_end_bounds(p, 1);
    if segment_end(p, 1) < p.len() {
        assert(name[segment_end(p, 1) - 1] == p[segment_end(p, 1)]);
    }
    assert(p.subrange(1, p.len() as int) =~= name);
    reveal_with_fuel(Dom::walk, 2);
}

/// Handles returned by successive insertions are pairwise distinct: each insertion
/// returns the store's length before it and grows the store by one node.
pub proof fn lemma_identifier_uniqueness(lens: Seq<nat>, ids: Seq<NodeId>)
    requires
        ids.len() == lens.len(),
        forall|i: int| 0 <= i < ids.len() ==> #[trigger] ids[i].0 == lens[i],
        forall|i: int| 0 <= i < lens.len() - 1 ==> #[trigger] lens[i + 1] == lens[i] + 1,
    ensures
        forall|i: int, j: int|
            0 <= i < ids.len() && 0 <= j < ids.len() && i != j ==> #[trigger] ids[i] != #[trigger] ids[j],
{
    assert forall|i: int, j: int|
        0 <= i < ids.len() && 0 <= j < ids.len() && i != j implies #[trigger] ids[i] != #[trigger] ids[j] by {
        if i < j {
            lemma_lengths_grow(lens, i, j);
        } else {
            lemma_lengths_grow(lens, j, i);
        }
        assert(ids[i].0 == lens[i] && ids[j].0 == lens[j]);
    }
}

proof fn lemma_lengths_grow(lens: Seq<nat>, i: int, j: int)
    requires
        0 <= i <= j < lens.len(),
        forall|k: int| 0 <= k < lens.len() - 1 ==> #[trigger] lens[k + 1] == lens[k] + 1,
    ensures
        lens[j] == lens[i] + (j - i),
    decreases j - i,
{
    if i < j {
        lemma_lengths_grow(lens, i, j - 1);
        assert(lens[(j - 1) + 1] == lens[j - 1] + 1);
    }
}

/// A store with nothing at the root level resolves no path, and a path without
/// its leading `/` resolves in no store.
pub proof fn lemma_lookup_misses<W>(d: Dom<W>, p: Seq<char>)
    requires
        d.wf(),
    ensures
        d.root_table().len() == 0 ==> d.lookup_spec(p) is None,
        p.len() == 0 || p[0] != '/' ==> d.lookup_spec(p) is None,
{
    reveal_with_fuel(Dom::walk, 1);
}

/// A walk ends in absence at a segment that names nothing.
pub proof fn lemma_walk_missing_segment<W>(d: Dom<W>, p: Seq<char>, from: Option<NodeId>, start: int)
    requires
        0 <= start <= p.len(),
        d.step(from, p.subrange(start, segment_end(p, start))) is None,
    ensures
        d.walk(p, from, start) is None,
{
    lemma_segment_end_bounds(p, start);
}

/// A walk that resolves a segment followed by `/` goes on from the node reached.
pub proof fn lemma_walk_descends<W>(
    d: Dom<W>,
    p: Seq<char>,
    from: Option<NodeId>,
    start: int,
    n: NodeId,
)
    requires
        0 <= start <= p.len(),
        segment_end(p, start) < p.len(),
        d.step(from, p.subrange(start, segment_end(p, start))) == Some(n),
    ensures
        d.walk(p, from, start) == d.walk(p, Some(n), segment_end(p, start) + 1),
{
    lemma_segment_end_bounds(p, start);
}

/// A walk whose segment runs to the end of the path gives the node that segment names.
pub proof fn lemma_walk_last_segment<W>(d: Dom<W>, p: Seq<char>, from: Option<NodeId>, start: int)
    requires
        0 <= start <= p.len(),
        !has_slash(p.subrange(start, p.len() as int)),
    ensures
        segment_end(p, start) == p.len(),
        d.walk(p, from, start) == d.step(from, p.subrange(start, p.len() as int)),
{
    lemma_segment_end_bounds(p, start);
    if segment_end(p, start) < p.len() {
        assert(p.subrange(start, p.len() as int)[segment_end(p, start) - start] == '/');
    }
}

/// A path whose first segment is bound at no root name resolves to nothing.
pub proof fn lemma_unbound_first_segment<W>(d: Dom<W>, p: Seq<char>)
    requires
        p.len() > 0,
        find_entry(d.root_table(), p.subrange(1, segment_end(p, 1))) is None,
    ensures
        d.lookup_spec(p) is None,
{
    if p[0] == '/' {
        lemma_walk_missing_segment(d, p, None, 1);
    }
}

} // verus!
