//! Matching of symbol paths against a catalog of registered paths.
//!
//! A path is written with `::` or `.` between its components. The matcher
//! keeps the registered paths in a prefix tree keyed by component, so that a
//! query walks one edge per component of the candidate, whatever the number
//! of registered paths.

use vstd::prelude::*;

verus! {

/// Why a catalog of paths was refused.
#[derive(Clone, Copy, Debug, PartialEq, Eq, Structural)]
pub enum PathError {
    /// The path at `index` has no characters.
    EmptyPath { index: usize },
}

/// The length of the separator that starts at position `i` of `s`:
/// 1 for `.`, 2 for `::`, and 0 where no separator starts.
pub open spec fn separator_at(s: Seq<char>, i: int) -> int {
    if 0 <= i < s.len() && s[i] == '.' {
        1
    } else if 0 <= i && i + 1 < s.len() && s[i] == ':' && s[i + 1] == ':' {
        2
    } else {
        0
    }
}

/// The components of a written path: the runs of characters between its
/// separators, empty runs included. The empty text has one empty component.
pub open spec fn split_path(s: Seq<char>) -> Seq<Seq<char>>
    decreases s.len(),
{
    if s.len() == 0 {
        seq![Seq::<char>::empty()]
    } else if separator_at(s, 0) > 0 {
        seq![Seq::<char>::empty()] + split_path(s.skip(separator_at(s, 0)))
    } else {
        let rest = split_path(s.skip(1));
        rest.update(0, seq![s[0]] + rest[0])
    }
}

/// The components held by a vector of character vectors.
pub open spec fn components(v: Seq<Vec<char>>) -> Seq<Seq<char>> {
    v.map_values(|c: Vec<char>| c@)
}

/// The components held by a vector of symbols.
pub open spec fn symbols(v: Seq<String>) -> Seq<Seq<char>> {
    v.map_values(|s: String| s@)
}

/// A catalog as a map: each entry's components lead to its group, and of two
/// entries with the same components the later one counts.
pub open spec fn registered(entries: Seq<(Seq<char>, u32)>) -> Map<Seq<Seq<char>>, u32>
    decreases entries.len(),
{
    if entries.len() == 0 {
        Map::empty()
    } else {
        registered(entries.drop_last()).insert(split_path(entries.last().0), entries.last().1)
    }
}

/// Plain paths as catalog entries, all in group 0.
pub open spec fn untagged(paths: Seq<&str>) -> Seq<(Seq<char>, u32)> {
    paths.map_values(|s: &str| (s@, 0u32))
}

/// Tagged paths as catalog entries.
pub open spec fn tagged(entries: Seq<(&str, u32)>) -> Seq<(Seq<char>, u32)> {
    entries.map_values(|e: (&str, u32)| (e.0@, e.1))
}

/// A written path has at least one component.
pub proof fn lemma_split_nonempty(s: Seq<char>)
    ensures
        split_path(s).len() >= 1,
    decreases s.len(),
{
    if s.len() > 0 {
        if separator_at(s, 0) > 0 {
            lemma_split_nonempty(s.skip(separator_at(s, 0)));
        } else {
            lemma_split_nonempty(s.skip(1));
        }
    }
}

/// A path is in the catalog exactly if one of the entries has its
/// components.
pub proof fn lemma_registered_contains(entries: Seq<(Seq<char>, u32)>, path: Seq<Seq<char>>)
    ensures
        registered(entries).dom().contains(path) <==> exists|i: int|
            0 <= i < entries.len() && split_path(#[trigger] entries[i].0) == path,
    decreases entries.len(),
{
    if entries.len() > 0 {
        let front = entries.drop_last();
        lemma_registered_contains(front, path);
        if exists|i: int| 0 <= i < entries.len() && split_path(#[trigger] entries[i].0) == path {
            let i = choose|i: int|
                0 <= i < entries.len() && split_path(#[trigger] entries[i].0) == path;
            if i < entries.len() - 1 {
                assert(split_path(front[i].0) == path);
            }
        }
    }
}

/// The characters of `s`.
pub fn chars_of(s: &str) -> (v: Vec<char>)
    ensures
        v@ == s@,
{
    broadcast use vstd::string::group_string_axioms;

    let mut v: Vec<char> = Vec::new();
    for c in it: s.chars()
        invariant
            it.seq() == s@,
            v@ == s@.take(it.index()),
    {
        v.push(c);
    }
    v
}

/// The components of the written path `s`.
pub fn split(s: &str) -> (parts: Vec<Vec<char>>)
    ensures
        components(parts@) == split_path(s@),
{
    let chars = chars_of(s);
    let ghost text = chars@;
    let mut parts: Vec<Vec<char>> = Vec::new();
    let mut cur: Vec<char> = Vec::new();
    let mut i: usize = 0;
    proof {
        lemma_split_nonempty(text);
        assert(text.skip(0) =~= text);
    }
    while i < chars.len()
        invariant
            i <= chars.len(),
            text == chars@,
            split_path(text) == components(parts@) + split_path(text.skip(i as int)).update(
                0,
                cur@ + split_path(text.skip(i as int))[0],
            ),
        decreases chars.len() - i,
    {
        let ghost here = text.skip(i as int);
        let ghost done = components(parts@);
        let ghost run = cur@;
        let c = chars[i];
        let step: usize = if c == '.' {
            1
        } else if c == ':' && i + 1 < chars.len() && chars[i + 1] == ':' {
            2
        } else {
            0
        };
        if step > 0 {
            proof {
                lemma_split_nonempty(here.skip(step as int));
                assert(here.skip(step as int) =~= text.skip(i + step));
            }
            parts.push(cur);
            cur = Vec::new();
            i += step;
        } else {
            proof {
                let rest = split_path(here.skip(1));
                lemma_split_nonempty(here.skip(1));
                assert(here.skip(1) =~= text.skip(i + 1));
                assert(run.push(c) + rest[0] =~= run + (seq![c] + rest[0]));
            }
            cur.push(c);
            i += 1;
        }
    }
    parts.push(cur);
    parts
}

/// Whether two character vectors hold the same text.
fn same_chars(a: &Vec<char>, b: &Vec<char>) -> (eq: bool)
    ensures
        eq == (a@ == b@),
{
    if a.len() != b.len() {
        return false;
    }
    let mut i: usize = 0;
    while i < a.len()
        invariant
            i <= a.len(),
            a.len() == b.len(),
            forall|k: int| 0 <= k < i ==> a@[k] == b@[k],
        decreases a.len() - i,
    {
        if a[i] != b[i] {
            return false;
        }
        i += 1;
    }
    assert(a@ =~= b@);
    true
}

/// A copy of a character vector.
fn copy_chars(a: &Vec<char>) -> (b: Vec<char>)
    ensures
        b@ == a@,
{
    let mut b: Vec<char> = Vec::new();
    let mut i: usize = 0;
    while i < a.len()
        invariant
            i <= a.len(),
            b@ == a@.take(i as int),
        decreases a.len() - i,
    {
        b.push(a[i]);
        i += 1;
    }
    b
}

/// A node of the prefix tree. The path of labels from the root to a node
/// with a group is a registered path.
pub struct TrieNode {
    group: Option<u32>,
    edges: Vec<(Vec<char>, TrieNode)>,
}

/// The position of the first edge labelled `key`, or the number of edges
/// if there is none.
spec fn label_index(edges: Seq<(Vec<char>, TrieNode)>, key: Seq<char>) -> int
    decreases edges.len(),
{
    if edges.len() == 0 || edges[0].0@ == key {
        0
    } else {
        1 + label_index(edges.skip(1), key)
    }
}

/// What the tree below `node` holds for `path`.
spec fn lookup(node: TrieNode, path: Seq<Seq<char>>) -> Option<u32>
    decreases path.len(),
{
    if path.len() == 0 {
        node.group
    } else {
        let j = label_index(node.edges@, path[0]);
        if j < node.edges@.len() {
            lookup(node.edges@[j].1, path.skip(1))
        } else {
            None
        }
    }
}

/// The registered paths below `node`, each with its group.
spec fn contents(node: TrieNode) -> Map<Seq<Seq<char>>, u32> {
    Map::new(
        |p: Seq<Seq<char>>| lookup(node, p) is Some,
        |p: Seq<Seq<char>>| lookup(node, p)->0,
    )
}

proof fn lemma_label_index(edges: Seq<(Vec<char>, TrieNode)>, key: Seq<char>)
    ensures
        0 <= label_index(edges, key) <= edges.len(),
        forall|k: int| 0 <= k < label_index(edges, key) ==> (#[trigger] edges[k]).0@ != key,
        label_index(edges, key) < edges.len() ==> edges[label_index(edges, key)].0@ == key,
    decreases edges.len(),
{
    if edges.len() > 0 && edges[0].0@ != key {
        let t = edges.skip(1);
        lemma_label_index(t, key);
        assert forall|k: int| 0 <= k < label_index(t, key) + 1 implies (#[trigger] edges[k]).0@
            != key by {
            if k > 0 {
                assert(edges[k] == t[k - 1]);
            }
        }
    }
}

proof fn lemma_label_index_is(edges: Seq<(Vec<char>, TrieNode)>, key: Seq<char>, j: int)
    requires
        0 <= j <= edges.len(),
        forall|k: int| 0 <= k < j ==> (#[trigger] edges[k]).0@ != key,
        j < edges.len() ==> edges[j].0@ == key,
    ensures
        label_index(edges, key) == j,
{
    lemma_label_index(edges, key);
}

/// Two non-empty sequences with the same head are equal exactly if their
/// tails are.
proof fn lemma_same_head(p: Seq<Seq<char>>, q: Seq<Seq<char>>)
    requires
        p.len() > 0,
        q.len() > 0,
        p[0] == q[0],
    ensures
        p == q <==> p.skip(1) == q.skip(1),
{
    if p.skip(1) == q.skip(1) {
        assert(p.len() == q.len()) by {
            assert(p.skip(1).len() == p.len() - 1);
        }
        assert forall|i: int| 0 <= i < p.len() implies p[i] == q[i] by {
            if i > 0 {
                assert(p[i] == p.skip(1)[i - 1]);
            }
        }
        assert(p =~= q);
    }
}

impl TrieNode {
    fn empty() -> (node: TrieNode)
        ensures
            forall|p: Seq<Seq<char>>| lookup(node, p) is None,
    {
        let node = TrieNode { group: None, edges: Vec::new() };
        assert forall|p: Seq<Seq<char>>| lookup(node, p) is None by {
            if p.len() > 0 {
                lemma_label_index(node.edges@, p[0]);
            }
        }
        node
    }

    fn child_position(&self, key: &Vec<char>) -> (j: usize)
        ensures
            j as int == label_index(self.edges@, key@),
            j <= self.edges.len(),
    {
        let mut j: usize = 0;
        while j < self.edges.len()
            invariant
                j <= self.edges.len(),
                forall|k: int| 0 <= k < j ==> (#[trigger] self.edges@[k]).0@ != key@,
            decreases self.edges.len() - j,
        {
            if same_chars(&self.edges[j].0, key) {
                proof {
                    lemma_label_index_is(self.edges@, key@, j as int);
                }
                return j;
            }
            j += 1;
        }
        proof {
            lemma_label_index_is(self.edges@, key@, j as int);
        }
        j
    }

    /// Registers `path[from..]` below this node with `group`.
    fn insert(self, path: &Vec<Vec<char>>, from: usize, group: u32) -> (node: TrieNode)
        requires
            from <= path.len(),
        ensures
            forall|p: Seq<Seq<char>>| #[trigger]
                lookup(node, p) == if p == components(path@).skip(from as int) {
                    Some(group)
                } else {
                    lookup(self, p)
                },
        decreases path.len() - from,
    {
        let ghost target = components(path@).skip(from as int);
        let ghost old_edges = self.edges@;
        let mut node = self;
        if from == path.len() {
            node.group = Some(group);
            assert forall|p: Seq<Seq<char>>| #[trigger]
                lookup(node, p) == if p == target {
                    Some(group)
                } else {
                    lookup(self, p)
                } by {
                if p.len() == 0 {
                    assert(p =~= target);
                }
            }
            return node;
        }
        let ghost label = path@[from as int]@;
        let ghost deeper = components(path@).skip(from + 1);
        assert(target.skip(1) =~= deeper);
        let j = node.child_position(&path[from]);
        proof {
            lemma_label_index(old_edges, label);
        }
        if j < node.edges.len() {
            let (key, child) = node.edges.remove(j);
            let grown = child.insert(path, from + 1, group);
            node.edges.insert(j, (key, grown));
            proof {
                let new_edges = node.edges@;
                assert forall|p: Seq<Seq<char>>| #[trigger]
                    lookup(node, p) == if p == target {
                        Some(group)
                    } else {
                        lookup(self, p)
                    } by {
                    if p.len() > 0 {
                        // The edges keep their labels, so `p` takes the
                        // edge that it took before.
                        let k = label_index(old_edges, p[0]);
                        lemma_label_index(old_edges, p[0]);
                        assert(forall|i: int|
                            0 <= i < k ==> (#[trigger] new_edges[i]).0@ != p[0]);
                        lemma_label_index_is(new_edges, p[0], k);
                        if p[0] == label {
                            lemma_same_head(p, target);
                            assert(lookup(node, p) == lookup(grown, p.skip(1)));
                        }
                    }
                }
            }
        } else {
            let grown = TrieNode::empty().insert(path, from + 1, group);
            let key = copy_chars(&path[from]);
            node.edges.push((key, grown));
            proof {
                let new_edges = node.edges@;
                assert forall|p: Seq<Seq<char>>| #[trigger]
                    lookup(node, p) == if p == target {
                        Some(group)
                    } else {
                        lookup(self, p)
                    } by {
                    if p.len() > 0 {
                        // The new edge stands behind the others, so `p`
                        // takes it only if it took none before.
                        let k = label_index(old_edges, p[0]);
                        lemma_label_index(old_edges, p[0]);
                        assert(forall|i: int|
                            0 <= i < k ==> (#[trigger] new_edges[i]).0@ != p[0]);
                        if p[0] == label {
                            lemma_label_index_is(new_edges, p[0], k);
                            lemma_same_head(p, target);
                            assert(lookup(node, p) == lookup(grown, p.skip(1)));
                        } else if k < old_edges.len() {
                            lemma_label_index_is(new_edges, p[0], k);
                        } else {
                            lemma_label_index_is(new_edges, p[0], new_edges.len() as int);
                        }
                    }
                }
            }
        }
        node
    }

    /// The group registered for `path`, if it is registered.
    fn find(&self, path: &Vec<Vec<char>>) -> (found: Option<u32>)
        ensures
            found == lookup(*self, components(path@)),
    {
        let ghost all = components(path@);
        let mut node: &TrieNode = self;
        let mut i: usize = 0;
        assert(all.skip(0) =~= all);
        while i < path.len()
            invariant
                i <= path.len(),
                all == components(path@),
                lookup(*self, all) == lookup(*node, all.skip(i as int)),
            decreases path.len() - i,
        {
            let j = node.child_position(&path[i]);
            assert(all.skip(i as int).skip(1) =~= all.skip(i + 1));
            if j >= node.edges.len() {
                return None;
            }
            node = &node.edges[j].1;
            i += 1;
        }
        node.group
    }
}

/// A set of registered paths, each in a group, that candidates are tested
/// against component for component.
pub struct PathMatcher {
    root: TrieNode,
}

impl View for PathMatcher {
    type V = Map<Seq<Seq<char>>, u32>;

    /// The registered paths, by their components, each with its group.
    closed spec fn view(&self) -> Map<Seq<Seq<char>>, u32> {
        contents(self.root)
    }
}

impl PathMatcher {
    /// Builds a matcher for `paths`, all in group 0. Fails on the first path
    /// that is empty.
    pub fn build(paths: &[&str]) -> (r: Result<PathMatcher, PathError>)
        ensures
            match r {
                Ok(m) => {
                    &&& forall|i: int| 0 <= i < paths@.len() ==> (#[trigger] paths@[i])@.len() > 0
                    &&& m@ == registered(untagged(paths@))
                },
                Err(PathError::EmptyPath { index }) => {
                    &&& index < paths@.len()
                    &&& paths@[index as int]@.len() == 0
                    &&& forall|i: int| 0 <= i < index ==> (#[trigger] paths@[i])@.len() > 0
                },
            },
    {
        let ghost entries = untagged(paths@);
        let mut root = TrieNode::empty();
        let mut i: usize = 0;
        while i < paths.len()
            invariant
                i <= paths.len(),
                entries == untagged(paths@),
                forall|k: int| 0 <= k < i ==> (#[trigger] paths@[k])@.len() > 0,
                contents(root) == registered(entries.take(i as int)),
            decreases paths.len() - i,
        {
            let s: &str = paths[i];
            if s.is_empty() {
                return Err(PathError::EmptyPath { index: i });
            }
            root = Self::register(root, s, 0);
            assert(entries.take(i + 1).drop_last() =~= entries.take(i as int));
            i += 1;
        }
        assert(entries.take(i as int) =~= entries);
        Ok(PathMatcher { root })
    }

    /// Builds a matcher for paths that each carry a group. Fails on the
    /// first path that is empty. Where a path stands twice, the later group
    /// counts.
    pub fn build_grouped(entries: &[(&str, u32)]) -> (r: Result<PathMatcher, PathError>)
        ensures
            match r {
                Ok(m) => {
                    &&& forall|i: int|
                        0 <= i < entries@.len() ==> (#[trigger] entries@[i]).0@.len() > 0
                    &&& m@ == registered(tagged(entries@))
                },
                Err(PathError::EmptyPath { index }) => {
                    &&& index < entries@.len()
                    &&& entries@[index as int].0@.len() == 0
                    &&& forall|i: int| 0 <= i < index ==> (#[trigger] entries@[i]).0@.len() > 0
                },
            },
    {
        let ghost all = tagged(entries@);
        let mut root = TrieNode::empty();
        let mut i: usize = 0;
        while i < entries.len()
            invariant
                i <= entries.len(),
                all == tagged(entries@),
                forall|k: int| 0 <= k < i ==> (#[trigger] entries@[k]).0@.len() > 0,
                contents(root) == registered(all.take(i as int)),
            decreases entries.len() - i,
        {
            let s: &str = entries[i].0;
            let group: u32 = entries[i].1;
            if s.is_empty() {
                return Err(PathError::EmptyPath { index: i });
            }
            root = Self::register(root, s, group);
            assert(all.take(i + 1).drop_last() =~= all.take(i as int));
            i += 1;
        }
        assert(all.take(i as int) =~= all);
        Ok(PathMatcher { root })
    }

    /// Adds the written path `s` with `group` to the tree.
    fn register(root: TrieNode, s: &str, group: u32) -> (grown: TrieNode)
        ensures
            contents(grown) == contents(root).insert(split_path(s@), group),
    {
        let parts = split(s);
        let grown = root.insert(&parts, 0, group);
        assert(components(parts@).skip(0) =~= split_path(s@));
        grown
    }

    /// Whether `candidate` is one of the registered paths, component for
    /// component.
    pub fn matches(&self, candidate: &str) -> (b: bool)
        ensures
            b == self@.dom().contains(split_path(candidate@)),
    {
        self.match_group(candidate).is_some()
    }

    /// The group of the registered path that `candidate` is, if it is one.
    pub fn match_group(&self, candidate: &str) -> (group: Option<u32>)
        ensures
            group == if self@.dom().contains(split_path(candidate@)) {
                Some(self@[split_path(candidate@)])
            } else {
                None
            },
    {
        let parts = split(candidate);
        self.root.find(&parts)
    }

    /// The group of the registered path whose components are the symbols of
    /// `path`, if there is one.
    pub fn group_of(&self, path: &Vec<String>) -> (group: Option<u32>)
        ensures
            group == if self@.dom().contains(symbols(path@)) {
                Some(self@[symbols(path@)])
            } else {
                None
            },
    {
        let mut parts: Vec<Vec<char>> = Vec::new();
        let mut i: usize = 0;
        while i < path.len()
            invariant
                i <= path.len(),
                components(parts@) == symbols(path@).take(i as int),
            decreases path.len() - i,
        {
            let ghost done = components(parts@);
            let part = chars_of(path[i].as_str());
            parts.push(part);
            assert(components(parts@) =~= done.push(path@[i as int]@));
            i += 1;
        }
        assert(symbols(path@).take(i as int) =~= symbols(path@));
        self.root.find(&parts)
    }
}

} // verus!
