//! The loop browser's folder tree: the indexed WAV paths of each loop root as
//! a tree whose folders list their subfolders before their WAVs, each group by
//! case-insensitive name, and the rows of it that are shown (every node whose
//! ancestors are all expanded, in tree order).
use vstd::prelude::*;
use crate::loop_browser::{wav_view, LoopIndex, LoopRootIndex, LoopWavAnalysis, LoopWavId, LoopWavIndex};
use crate::query::{lowercase, strings_view, to_lowercase};
use crate::keyboard_screen::copy_strings;
use crate::text::{copy_string, same_text};

verus! {

/// `a` comes before `b` character by character (a prefix comes first).
pub open spec fn text_lt(a: Seq<char>, b: Seq<char>) -> bool
    decreases a.len(),
{
    if a.len() == 0 {
        b.len() > 0
    } else if b.len() == 0 {
        false
    } else if a[0] < b[0] {
        true
    } else if a[0] == b[0] {
        text_lt(a.drop_first(), b.drop_first())
    } else {
        false
    }
}

/// Whether `a` comes before `b` character by character.
pub fn text_less(a: &str, b: &str) -> (less: bool)
    ensures
        less == text_lt(a@, b@),
{
    let la = a.unicode_len();
    let lb = b.unicode_len();
    let mut i: usize = 0;
    assert(a@.subrange(0, la as int) =~= a@);
    assert(b@.subrange(0, lb as int) =~= b@);
    while i < la && i < lb && a.get_char(i) == b.get_char(i)
        invariant
            la == a@.len(),
            lb == b@.len(),
            i <= la,
            i <= lb,
            text_lt(a@, b@) == text_lt(a@.subrange(i as int, la as int), b@.subrange(i as int, lb as int)),
        decreases la - i,
    {
        proof {
            let sa = a@.subrange(i as int, la as int);
            let sb = b@.subrange(i as int, lb as int);
            assert(sa.drop_first() =~= a@.subrange(i + 1, la as int));
            assert(sb.drop_first() =~= b@.subrange(i + 1, lb as int));
        }
        i = i + 1;
    }
    if i == la {
        i < lb
    } else if i == lb {
        false
    } else {
        a.get_char(i) < b.get_char(i)
    }
}

/// The order of siblings: folders before WAVs, then by lowercase name, then by
/// name.
pub open spec fn sibling_lt(a_wav: bool, a_name: Seq<char>, b_wav: bool, b_name: Seq<char>) -> bool {
    if a_wav != b_wav {
        !a_wav
    } else if lowercase(a_name) != lowercase(b_name) {
        text_lt(lowercase(a_name), lowercase(b_name))
    } else {
        text_lt(a_name, b_name)
    }
}

fn sibling_less(a_wav: bool, a_name: &str, b_wav: bool, b_name: &str) -> (less: bool)
    ensures
        less == sibling_lt(a_wav, a_name@, b_wav, b_name@),
{
    if a_wav != b_wav {
        return !a_wav;
    }
    let la = to_lowercase(a_name);
    let lb = to_lowercase(b_name);
    if !same_text(la.as_str(), lb.as_str()) {
        text_less(la.as_str(), lb.as_str())
    } else {
        text_less(a_name, b_name)
    }
}

/// The parts of `s` between slashes, in order (empty parts included).
pub open spec fn split_slashes(s: Seq<char>) -> Seq<Seq<char>>
    decreases s.len(),
{
    if s.len() == 0 {
        seq![Seq::<char>::empty()]
    } else {
        let parts = split_slashes(s.drop_last());
        if s.last() == '/' {
            parts.push(Seq::empty())
        } else {
            parts.update(parts.len() - 1, parts.last().push(s.last()))
        }
    }
}

/// A part that names a file or folder (not empty, `.` or `..`).
pub open spec fn is_name_part(part: Seq<char>) -> bool {
    part.len() > 0 && part != seq!['.'] && part != seq!['.', '.']
}

pub open spec fn name_parts(parts: Seq<Seq<char>>) -> Seq<Seq<char>>
    decreases parts.len(),
{
    if parts.len() == 0 {
        Seq::empty()
    } else if is_name_part(parts.last()) {
        name_parts(parts.drop_last()).push(parts.last())
    } else {
        name_parts(parts.drop_last())
    }
}

/// The folder and file names of a relative path, in order.
pub open spec fn path_components(path: Seq<char>) -> Seq<Seq<char>> {
    name_parts(split_slashes(path))
}

proof fn lemma_split_nonempty(s: Seq<char>)
    ensures
        split_slashes(s).len() >= 1,
    decreases s.len(),
{
    if s.len() > 0 {
        lemma_split_nonempty(s.drop_last());
    }
}

fn is_name_part_exec(part: &Vec<char>) -> (named: bool)
    ensures
        named == is_name_part(part@),
{
    if part.len() == 0 {
        return false;
    }
    if part.len() == 1 && part[0] == '.' {
        assert(part@ =~= seq!['.']);
        return false;
    }
    if part.len() == 2 && part[0] == '.' && part[1] == '.' {
        assert(part@ =~= seq!['.', '.']);
        return false;
    }
    proof {
        if part@ == seq!['.'] {
            assert(part@.len() == 1 && part@[0] == '.');
        }
        if part@ == seq!['.', '.'] {
            assert(part@.len() == 2 && part@[0] == '.' && part@[1] == '.');
        }
    }
    true
}

/// The folder and file names of the relative path `path`.
pub fn components_of(path: &str) -> (components: Vec<String>)
    ensures
        components@.map_values(|c: String| c@) == path_components(path@),
{
    let len = path.unicode_len();
    let mut done: Vec<String> = Vec::new();
    let mut current: Vec<char> = Vec::new();
    let mut i: usize = 0;
    proof {
        lemma_split_nonempty(path@.subrange(0, 0));
        assert(path@.subrange(0, 0) =~= Seq::<char>::empty());
    }
    while i < len
        invariant
            len == path@.len(),
            i <= len,
            split_slashes(path@.subrange(0, i as int)).len() >= 1,
            current@ == split_slashes(path@.subrange(0, i as int)).last(),
            done@.map_values(|c: String| c@) == name_parts(split_slashes(path@.subrange(0, i as int)).drop_last()),
        decreases len - i,
    {
        let c = path.get_char(i);
        let ghost prefix = path@.subrange(0, i as int);
        let ghost next = path@.subrange(0, i + 1);
        proof {
            assert(next.drop_last() =~= prefix);
            assert(next.last() == c);
            lemma_split_nonempty(prefix);
        }
        if c == '/' {
            let ghost parts = split_slashes(prefix);
            proof {
                assert(split_slashes(next) == parts.push(Seq::<char>::empty()));
                assert(split_slashes(next).drop_last() =~= parts);
                assert(parts =~= parts.drop_last().push(parts.last()));
            }
            if is_name_part_exec(&current) {
                let ghost before = done@;
                let chars: Vec<char> = current.clone();
                done.push(crate::text::string_of(chars.as_slice()));
                proof {
                    assert(done@.map_values(|x: String| x@) =~= before.map_values(|x: String| x@).push(parts.last()));
                }
            }
            current = Vec::new();
            proof {
                assert(current@ =~= split_slashes(next).last());
            }
        } else {
            let ghost parts = split_slashes(prefix);
            current.push(c);
            proof {
                let np = split_slashes(next);
                assert(np == parts.update(parts.len() - 1, parts.last().push(c)));
                assert(np.drop_last() =~= parts.drop_last());
                assert(current@ =~= np.last());
            }
        }
        i = i + 1;
    }
    proof {
        assert(path@.subrange(0, len as int) =~= path@);
        let parts = split_slashes(path@);
        assert(parts =~= parts.drop_last().push(parts.last()));
    }
    if is_name_part_exec(&current) {
        let ghost before = done@;
        done.push(crate::text::string_of(current.as_slice()));
        proof {
            assert(done@.map_values(|x: String| x@) =~= before.map_values(|x: String| x@).push(
                split_slashes(path@).last(),
            ));
        }
    }
    done
}

proof fn lemma_text_lt_total(a: Seq<char>, b: Seq<char>)
    requires
        a != b,
    ensures
        text_lt(a, b) || text_lt(b, a),
    decreases a.len(),
{
    if a.len() > 0 && b.len() > 0 && a[0] == b[0] {
        if a.drop_first() == b.drop_first() {
            assert(a =~= seq![a[0]] + a.drop_first());
            assert(b =~= seq![b[0]] + b.drop_first());
        }
        lemma_text_lt_total(a.drop_first(), b.drop_first());
    } else if a.len() > 0 && b.len() > 0 {
        assert(a[0] < b[0] || b[0] < a[0]);
    } else if a.len() == 0 && b.len() == 0 {
        assert(a =~= b);
    }
}

/// `text_lt` is a strict total order.
pub proof fn lemma_text_lt_order(a: Seq<char>, b: Seq<char>, c: Seq<char>)
    ensures
        !text_lt(a, a),
        a != b ==> text_lt(a, b) || text_lt(b, a),
        text_lt(a, b) ==> !text_lt(b, a),
        text_lt(a, b) && text_lt(b, c) ==> text_lt(a, c),
    decreases a.len(),
{
    if a != b {
        lemma_text_lt_total(a, b);
    }
    if a.len() > 0 {
        lemma_text_lt_order(a.drop_first(), a.drop_first(), a.drop_first());
        if b.len() > 0 {
            if c.len() > 0 {
                lemma_text_lt_order(a.drop_first(), b.drop_first(), c.drop_first());
            } else {
                lemma_text_lt_order(a.drop_first(), b.drop_first(), b.drop_first());
            }
        }
    }
}

/// `sibling_lt` is a strict total order on siblings with different names.
pub proof fn lemma_sibling_order(
    a_wav: bool,
    a: Seq<char>,
    b_wav: bool,
    b: Seq<char>,
    c_wav: bool,
    c: Seq<char>,
)
    ensures
        !sibling_lt(a_wav, a, a_wav, a),
        a != b ==> sibling_lt(a_wav, a, b_wav, b) || sibling_lt(b_wav, b, a_wav, a),
        sibling_lt(a_wav, a, b_wav, b) ==> !sibling_lt(b_wav, b, a_wav, a),
        sibling_lt(a_wav, a, b_wav, b) && sibling_lt(b_wav, b, c_wav, c) ==> sibling_lt(a_wav, a, c_wav, c),
{
    lemma_text_lt_order(a, b, c);
    lemma_text_lt_order(lowercase(a), lowercase(b), lowercase(c));
    lemma_text_lt_order(b, a, c);
    lemma_text_lt_order(lowercase(b), lowercase(a), lowercase(c));
    lemma_text_lt_order(a, a, a);
    lemma_text_lt_order(lowercase(a), lowercase(a), lowercase(a));
}

/// A folder or a WAV, with the positions of its children in the node list.
pub struct TreeNode {
    pub name: String,
    pub is_wav: bool,
    pub analysis: Option<LoopWavAnalysis>,
    pub children: Vec<usize>,
}

pub ghost struct NodeView {
    pub name: Seq<char>,
    pub is_wav: bool,
    pub analysis: Option<LoopWavAnalysis>,
    pub children: Seq<usize>,
}

impl View for TreeNode {
    type V = NodeView;

    open spec fn view(&self) -> NodeView {
        NodeView { name: self.name@, is_wav: self.is_wav, analysis: self.analysis, children: self.children@ }
    }
}

pub open spec fn nodes_view(nodes: Seq<TreeNode>) -> Seq<NodeView> {
    nodes.map_values(|n: TreeNode| n@)
}

/// Sibling keys (kind and name) with different names, in sibling order.
pub open spec fn sorted_keys(keys: Seq<(bool, Seq<char>)>) -> bool {
    forall|a: int, b: int|
        #![trigger keys[a], keys[b]]
        0 <= a < b < keys.len() ==> keys[a].1 != keys[b].1 && sibling_lt(keys[a].0, keys[a].1, keys[b].0, keys[b].1)
}

/// The keys of the children of node `i`, in order.
pub open spec fn child_keys(nodes: Seq<NodeView>, i: int) -> Seq<(bool, Seq<char>)> {
    nodes[i].children.map_values(|c: usize| (nodes[c as int].is_wav, nodes[c as int].name))
}

/// A well-formed node list: node 0 is the root folder, every child comes after
/// its parent, siblings have different names and are in sibling order.
pub open spec fn tree_wf(nodes: Seq<NodeView>) -> bool {
    &&& nodes.len() >= 1
    &&& !nodes[0].is_wav
    &&& forall|i: int, k: int|
        0 <= i < nodes.len() && 0 <= k < nodes[i].children.len() ==> i < #[trigger] nodes[i].children[k]
            < nodes.len()
    &&& forall|i: int| 0 <= i < nodes.len() ==> #[trigger] sorted_keys(child_keys(nodes, i))
}

/// Node `c` is the child of node `i` named `name`.
pub open spec fn is_child_named(nodes: Seq<NodeView>, i: int, name: Seq<char>, c: int) -> bool {
    &&& 0 <= i < nodes.len()
    &&& exists|k: int| 0 <= k < nodes[i].children.len() && nodes[i].children[k] == c
    &&& 0 <= c < nodes.len()
    &&& nodes[c].name == name
}

/// The node reached from node `i` by following the names of `path`.
pub open spec fn reach(nodes: Seq<NodeView>, i: int, path: Seq<Seq<char>>) -> Option<int>
    decreases path.len(),
{
    if path.len() == 0 {
        if 0 <= i < nodes.len() { Some(i) } else { None }
    } else if exists|c: int| is_child_named(nodes, i, path[0], c) {
        reach(nodes, choose|c: int| is_child_named(nodes, i, path[0], c), path.drop_first())
    } else {
        None
    }
}

/// Siblings are told apart by name.
proof fn lemma_child_unique(nodes: Seq<NodeView>, i: int, name: Seq<char>, c: int, d: int)
    requires
        tree_wf(nodes),
        is_child_named(nodes, i, name, c),
        is_child_named(nodes, i, name, d),
    ensures
        c == d,
{
    let kc = choose|k: int| 0 <= k < nodes[i].children.len() && nodes[i].children[k] == c;
    let kd = choose|k: int| 0 <= k < nodes[i].children.len() && nodes[i].children[k] == d;
    let keys = child_keys(nodes, i);
    assert(sorted_keys(keys));
    if kc < kd {
        assert(keys[kc].1 != keys[kd].1);
    } else if kd < kc {
        assert(keys[kd].1 != keys[kc].1);
    }
}

/// `new` extends `old`: the old nodes keep their names, kinds and children
/// (children may be added).
pub open spec fn extends(old: Seq<NodeView>, new: Seq<NodeView>) -> bool {
    &&& old.len() <= new.len()
    &&& forall|i: int|
        #![trigger new[i]]
        0 <= i < old.len() ==> new[i].name == old[i].name && new[i].is_wav == old[i].is_wav
            && new[i].analysis == old[i].analysis
    &&& forall|i: int, k: int|
        0 <= i < old.len() && 0 <= k < old[i].children.len() ==> new[i].children.contains(
            #[trigger] old[i].children[k],
        )
}

proof fn lemma_reach_kept(old: Seq<NodeView>, new: Seq<NodeView>, i: int, path: Seq<Seq<char>>)
    requires
        tree_wf(old),
        tree_wf(new),
        extends(old, new),
        reach(old, i, path) is Some,
    ensures
        reach(new, i, path) == reach(old, i, path),
    decreases path.len(),
{
    if path.len() > 0 {
        let c = choose|c: int| is_child_named(old, i, path[0], c);
        let k = choose|k: int| 0 <= k < old[i].children.len() && old[i].children[k] == c;
        assert(old[i].children[k] == c);
        assert(new[i].children.contains(old[i].children[k]));
        let k2 = choose|k2: int| 0 <= k2 < new[i].children.len() && new[i].children[k2] == old[i].children[k];
        assert(new[i].children[k2] == c);
        assert(new[c] == new[c]);
        assert(is_child_named(new, i, path[0], c));
        let d = choose|d: int| is_child_named(new, i, path[0], d);
        lemma_child_unique(new, i, path[0], c, d);
        lemma_reach_kept(old, new, c, path.drop_first());
    }
}

/// The tree of one loop root: its path and its nodes (node 0 is the root).
pub struct RootTree {
    pub path: String,
    pub nodes: Vec<TreeNode>,
}

/// The child of node `parent` named `name`, if there is one.
fn find_child(nodes: &Vec<TreeNode>, parent: usize, name: &String) -> (found: Option<usize>)
    requires
        tree_wf(nodes_view(nodes@)),
        parent < nodes@.len(),
    ensures
        match found {
            Some(c) => is_child_named(nodes_view(nodes@), parent as int, name@, c as int),
            None => forall|c: int| !is_child_named(nodes_view(nodes@), parent as int, name@, c),
        },
{
    let ghost nv = nodes_view(nodes@);
    let children = &nodes[parent].children;
    let mut k: usize = 0;
    while k < children.len()
        invariant
            nv == nodes_view(nodes@),
            tree_wf(nv),
            parent < nodes@.len(),
            children@ == nv[parent as int].children,
            k <= children@.len(),
            forall|j: int| 0 <= j < k ==> nv[nv[parent as int].children[j] as int].name != name@,
        decreases children@.len() - k,
    {
        let c = children[k];
        assert(nv[parent as int].children[k as int] == c);
        assert(c < nodes@.len());
        if same_text(nodes[c].name.as_str(), name.as_str()) {
            assert(is_child_named(nv, parent as int, name@, c as int));
            return Some(c);
        }
        k = k + 1;
    }
    proof {
        assert forall|c: int| !is_child_named(nv, parent as int, name@, c) by {
            if is_child_named(nv, parent as int, name@, c) {
                let j = choose|j: int| 0 <= j < nv[parent as int].children.len() && nv[parent as int].children[j] == c;
                assert(nv[nv[parent as int].children[j] as int].name != name@);
            }
        }
    }
    None
}

proof fn lemma_reach_push(nodes: Seq<NodeView>, i: int, path: Seq<Seq<char>>, name: Seq<char>, c: int)
    requires
        tree_wf(nodes),
        reach(nodes, i, path) is Some,
        is_child_named(nodes, reach(nodes, i, path)->0, name, c),
    ensures
        reach(nodes, i, path.push(name)) == Some(c),
    decreases path.len(),
{
    if path.len() == 0 {
        assert(path.push(name).drop_first() =~= Seq::<Seq<char>>::empty());
        assert(path.push(name)[0] == name);
        assert(is_child_named(nodes, i, path.push(name)[0], c));
        let d = choose|d: int| is_child_named(nodes, i, path.push(name)[0], d);
        lemma_child_unique(nodes, i, name, c, d);
        assert(reach(nodes, d, path.push(name).drop_first()) == Some(d));
    } else {
        assert(exists|d: int| is_child_named(nodes, i, path[0], d));
        let d = choose|d: int| is_child_named(nodes, i, path[0], d);
        assert(path.push(name).drop_first() =~= path.drop_first().push(name));
        assert(path.push(name)[0] == path[0]);
        assert(reach(nodes, i, path) == reach(nodes, d, path.drop_first()));
        lemma_reach_push(nodes, d, path.drop_first(), name, c);
        assert(reach(nodes, i, path.push(name)) == reach(nodes, d, path.push(name).drop_first()));
    }
}

proof fn lemma_sorted_insert(keys: Seq<(bool, Seq<char>)>, pos: int, key: (bool, Seq<char>))
    requires
        sorted_keys(keys),
        0 <= pos <= keys.len(),
        forall|k: int| 0 <= k < pos ==> !sibling_lt(key.0, key.1, #[trigger] keys[k].0, keys[k].1),
        pos < keys.len() ==> sibling_lt(key.0, key.1, keys[pos].0, keys[pos].1),
        forall|k: int| 0 <= k < keys.len() ==> #[trigger] keys[k].1 != key.1,
    ensures
        sorted_keys(keys.insert(pos, key)),
{
    let r = keys.insert(pos, key);
    assert forall|a: int, b: int| 0 <= a < b < r.len() implies r[a].1 != r[b].1 && sibling_lt(
        r[a].0,
        r[a].1,
        r[b].0,
        r[b].1,
    ) by {
        if a == pos {
            let kb = keys[b - 1];
            assert(r[b] == kb);
            if b - 1 > pos {
                lemma_sibling_order(key.0, key.1, keys[pos].0, keys[pos].1, kb.0, kb.1);
            }
        } else if b == pos {
            let ka = keys[a];
            assert(r[a] == ka);
            lemma_sibling_order(key.0, key.1, ka.0, ka.1, ka.0, ka.1);
        } else {
            let ia = if a < pos { a } else { a - 1 };
            let ib = if b < pos { b } else { b - 1 };
            assert(r[a] == keys[ia] && r[b] == keys[ib]);
        }
    }
}

/// Node `n` is reached from the root by a prefix of `path`.
pub open spec fn node_on_path(nodes: Seq<NodeView>, path: Seq<Seq<char>>, n: int) -> bool {
    exists|d: int| 0 <= d <= path.len() && #[trigger] reach(nodes, 0, path.subrange(0, d)) == Some(n)
}

/// Node `n` is what the first `d` names of `path` make when `path` is added
/// with `analysis`: a WAV carrying `analysis` when they are all of `path`,
/// else a folder with no analysis.
pub open spec fn made_as(nodes: Seq<NodeView>, path: Seq<Seq<char>>, analysis: LoopWavAnalysis, d: int, n: int) -> bool {
    &&& 0 <= n < nodes.len()
    &&& nodes[n].is_wav == (d == path.len())
    &&& nodes[n].analysis == if d == path.len() {
        Some(analysis)
    } else {
        None
    }
}

/// Node `n` is reached from the root by a non-empty prefix of `path` and is
/// what that prefix makes (see `made_as`).
pub open spec fn made_by(nodes: Seq<NodeView>, path: Seq<Seq<char>>, analysis: LoopWavAnalysis, n: int) -> bool {
    exists|d: int|
        1 <= d <= path.len() && #[trigger] reach(nodes, 0, path.subrange(0, d)) == Some(n) && made_as(
            nodes,
            path,
            analysis,
            d,
            n,
        )
}

/// `made_by` with one of the first `j` non-empty prefixes of `path`.
spec fn reached_within(nodes: Seq<NodeView>, path: Seq<Seq<char>>, analysis: LoopWavAnalysis, j: int, n: int) -> bool {
    exists|d: int|
        1 <= d <= j && #[trigger] reach(nodes, 0, path.subrange(0, d)) == Some(n) && made_as(nodes, path, analysis, d, n)
}

proof fn lemma_on_path_kept(old: Seq<NodeView>, new: Seq<NodeView>, path: Seq<Seq<char>>, n: int)
    requires
        tree_wf(old),
        tree_wf(new),
        extends(old, new),
        node_on_path(old, path, n),
    ensures
        node_on_path(new, path, n),
{
    let d = choose|d: int| 0 <= d <= path.len() && #[trigger] reach(old, 0, path.subrange(0, d)) == Some(n);
    lemma_reach_kept(old, new, 0, path.subrange(0, d));
}

/// Adds the path `components` below the root, creating the folders and the
/// WAV it names that are missing; a created WAV carries `analysis`.
fn insert_path(nodes: &mut Vec<TreeNode>, components: &Vec<String>, analysis: LoopWavAnalysis)
    requires
        tree_wf(nodes_view(old(nodes)@)),
    ensures
        tree_wf(nodes_view(final(nodes)@)),
        extends(nodes_view(old(nodes)@), nodes_view(final(nodes)@)),
        reach(nodes_view(final(nodes)@), 0, strings_view(components@)) is Some,
        forall|n: int|
            old(nodes)@.len() <= n < final(nodes)@.len() ==> #[trigger] node_on_path(
                nodes_view(final(nodes)@),
                strings_view(components@),
                n,
            ),
        forall|n: int|
            old(nodes)@.len() <= n < final(nodes)@.len() ==> #[trigger] made_by(
                nodes_view(final(nodes)@),
                strings_view(components@),
                analysis,
                n,
            ),
{
    let ghost path = strings_view(components@);
    let ghost start = nodes_view(nodes@);
    let mut cur: usize = 0;
    let mut j: usize = 0;
    assert(path.subrange(0, 0) =~= Seq::<Seq<char>>::empty());
    assert forall|i: int, k: int|
        0 <= i < start.len() && 0 <= k < start[i].children.len() implies start[i].children.contains(
            #[trigger] start[i].children[k],
        ) by {
        assert(start[i].children[k] == start[i].children[k]);
    }
    while j < components.len()
        invariant
            path == strings_view(components@),
            j <= components@.len(),
            tree_wf(nodes_view(nodes@)),
            extends(start, nodes_view(nodes@)),
            cur < nodes@.len(),
            reach(nodes_view(nodes@), 0, path.subrange(0, j as int)) == Some(cur as int),
            forall|n: int|
                start.len() <= n < nodes@.len() ==> #[trigger] reached_within(nodes_view(nodes@), path, analysis, j as int, n),
        decreases components@.len() - j,
    {
        let ghost before = nodes_view(nodes@);
        let name = &components[j];
        assert(path.subrange(0, j + 1) =~= path.subrange(0, j as int).push(name@));
        match find_child(nodes, cur, name) {
            Some(c) => {
                proof {
                    lemma_reach_push(before, 0, path.subrange(0, j as int), name@, c as int);
                    assert forall|m: int| start.len() <= m < before.len() implies #[trigger] reached_within(
                        before,
                        path,
                        analysis,
                        j + 1,
                        m,
                    ) by {
                        assert(reached_within(before, path, analysis, j as int, m));
                        let d = choose|d: int|
                            1 <= d <= j && #[trigger] reach(before, 0, path.subrange(0, d)) == Some(m) && made_as(
                                before,
                                path,
                                analysis,
                                d,
                                m,
                            );
                        assert(reach(before, 0, path.subrange(0, d)) == Some(m));
                    }
                }
                cur = c;
            },
            None => {
                let is_wav = j + 1 == components.len();
                let n = nodes.len();
                let mut pos: usize = 0;
                let kids_len = nodes[cur].children.len();
                while pos < kids_len && !sibling_less(
                    is_wav,
                    name.as_str(),
                    nodes[nodes[cur].children[pos]].is_wav,
                    nodes[nodes[cur].children[pos]].name.as_str(),
                )
                    invariant
                        before == nodes_view(nodes@),
                        tree_wf(before),
                        cur < nodes@.len(),
                        kids_len == before[cur as int].children.len(),
                        pos <= kids_len,
                        forall|k: int|
                            0 <= k < pos ==> !sibling_lt(
                                is_wav,
                                name@,
                                #[trigger] child_keys(before, cur as int)[k].0,
                                child_keys(before, cur as int)[k].1,
                            ),
                    decreases kids_len - pos,
                {
                    assert(before[cur as int].children[pos as int] < nodes@.len());
                    pos = pos + 1;
                }
                let ghost keys = child_keys(before, cur as int);
                let ghost key = (is_wav, name@);
                proof {
                    assert forall|k: int| 0 <= k < keys.len() implies #[trigger] keys[k].1 != key.1 by {
                        let c = before[cur as int].children[k];
                        assert(keys[k].1 == before[c as int].name);
                        if keys[k].1 == key.1 {
                            assert(is_child_named(before, cur as int, name@, c as int));
                        }
                    }
                    if pos < kids_len {
                        let c = before[cur as int].children[pos as int];
                        assert(keys[pos as int] == (before[c as int].is_wav, before[c as int].name));
                    }
                    lemma_sorted_insert(keys, pos as int, key);
                }
                nodes[cur].children.insert(pos, n);
                nodes.push(
                    TreeNode {
                        name: copy_string(name),
                        is_wav,
                        analysis: if is_wav { Some(analysis) } else { None },
                        children: Vec::new(),
                    },
                );
                let ghost after = nodes_view(nodes@);
                proof {
                    assert(after.len() == before.len() + 1);
                    assert forall|i: int| 0 <= i < before.len() && i != cur implies after[i] == before[i] by {}
                    assert(after[cur as int].children == before[cur as int].children.insert(pos as int, n));
                    assert(child_keys(after, cur as int) =~= keys.insert(pos as int, key));
                    assert forall|i: int| 0 <= i < after.len() implies #[trigger] sorted_keys(child_keys(after, i)) by {
                        if i == n {
                            assert(child_keys(after, i) =~= Seq::<(bool, Seq<char>)>::empty());
                        } else if i != cur {
                            assert(child_keys(after, i) =~= child_keys(before, i));
                        }
                    }
                    assert forall|i: int, k: int|
                        0 <= i < after.len() && 0 <= k < after[i].children.len() implies i
                            < #[trigger] after[i].children[k] < after.len() by {
                        if i == cur {
                            if k < pos {
                                assert(after[i].children[k] == before[i].children[k]);
                            } else if k > pos {
                                assert(after[i].children[k] == before[i].children[k - 1]);
                            }
                        }
                    }
                    assert(tree_wf(after));
                    assert forall|i: int, k: int|
                        0 <= i < start.len() && 0 <= k < start[i].children.len() implies after[i].children.contains(
                            #[trigger] start[i].children[k],
                        ) by {
                        assert(before[i].children.contains(start[i].children[k]));
                        let k1 = choose|k1: int|
                            0 <= k1 < before[i].children.len() && before[i].children[k1] == start[i].children[k];
                        if i == cur {
                            if k1 < pos {
                                assert(after[i].children[k1] == before[i].children[k1]);
                            } else {
                                assert(after[i].children[k1 + 1] == before[i].children[k1]);
                            }
                        } else {
                            assert(after[i].children[k1] == before[i].children[k1]);
                        }
                    }
                    assert forall|i: int| #![trigger after[i]] 0 <= i < before.len() implies after[i].name
                        == before[i].name && after[i].is_wav == before[i].is_wav && after[i].analysis
                        == before[i].analysis by {
                        assert(before[i] == before[i]);
                    }
                    assert forall|i: int| #![trigger after[i]] 0 <= i < start.len() implies after[i].name
                        == start[i].name && after[i].is_wav == start[i].is_wav && after[i].analysis
                        == start[i].analysis by {
                        assert(before[i] == before[i]);
                    }
                    assert(extends(start, after));
                    assert(extends(before, after)) by {
                        assert forall|i: int, k: int|
                            0 <= i < before.len() && 0 <= k < before[i].children.len() implies after[i].children.contains(
                                #[trigger] before[i].children[k],
                            ) by {
                            if i == cur {
                                if k < pos {
                                    assert(after[i].children[k] == before[i].children[k]);
                                } else {
                                    assert(after[i].children[k + 1] == before[i].children[k]);
                                }
                            } else {
                                assert(after[i].children[k] == before[i].children[k]);
                            }
                        }
                    }
                    lemma_reach_kept(before, after, 0, path.subrange(0, j as int));
                    assert(after[cur as int].children[pos as int] == n);
                    assert(is_child_named(after, cur as int, name@, n as int));
                    lemma_reach_push(after, 0, path.subrange(0, j as int), name@, n as int);
                    assert forall|m: int| start.len() <= m < after.len() implies #[trigger] reached_within(
                        after,
                        path,
                        analysis,
                        j + 1,
                        m,
                    ) by {
                        if m == n {
                            assert(reach(after, 0, path.subrange(0, j + 1)) == Some(m));
                            assert(made_as(after, path, analysis, j + 1, m));
                        } else {
                            assert(reached_within(before, path, analysis, j as int, m));
                            let d = choose|d: int|
                                1 <= d <= j && #[trigger] reach(before, 0, path.subrange(0, d)) == Some(m) && made_as(
                                    before,
                                    path,
                                    analysis,
                                    d,
                                    m,
                                );
                            lemma_reach_kept(before, after, 0, path.subrange(0, d));
                            assert(reach(after, 0, path.subrange(0, d)) == Some(m));
                            assert(after[m].is_wav == before[m].is_wav && after[m].analysis == before[m].analysis);
                            assert(made_as(after, path, analysis, d, m));
                        }
                    }
                }
                cur = n;
            },
        }
        j = j + 1;
    }
    assert(path.subrange(0, components@.len() as int) =~= path);
    assert forall|n: int| start.len() <= n < nodes@.len() implies node_on_path(nodes_view(nodes@), path, n)
        && #[trigger] made_by(nodes_view(nodes@), path, analysis, n) by {
        assert(reached_within(nodes_view(nodes@), path, analysis, j as int, n));
        let d = choose|d: int|
            1 <= d <= j && #[trigger] reach(nodes_view(nodes@), 0, path.subrange(0, d)) == Some(n) && made_as(
                nodes_view(nodes@),
                path,
                analysis,
                d,
                n,
            );
        assert(reach(nodes_view(nodes@), 0, path.subrange(0, d)) == Some(n));
        assert(j == path.len());
        assert(made_as(nodes_view(nodes@), path, analysis, d, n));
    }
    assert forall|n: int| start.len() <= n < nodes@.len() implies #[trigger] node_on_path(nodes_view(nodes@), path, n) by {
        assert(made_by(nodes_view(nodes@), path, analysis, n));
    }
}

/// A node of the browser: its root and its path of names below that root.
pub struct NodeKey {
    pub root: usize,
    pub components: Vec<String>,
}

pub open spec fn key_view(key: NodeKey) -> (nat, Seq<Seq<char>>) {
    (key.root as nat, strings_view(key.components@))
}

pub open spec fn keys_view(keys: Seq<NodeKey>) -> Seq<(nat, Seq<Seq<char>>)> {
    keys.map_values(|k: NodeKey| key_view(k))
}

/// A shown row of the tree.
pub struct VisibleLoopNode {
    pub key: NodeKey,
    pub depth: usize,
    pub name: String,
    pub is_wav: bool,
    pub expanded: bool,
    pub analysis: Option<LoopWavAnalysis>,
}

pub ghost struct RowView {
    pub root: nat,
    pub components: Seq<Seq<char>>,
    pub depth: nat,
    pub name: Seq<char>,
    pub is_wav: bool,
    pub expanded: bool,
    pub analysis: Option<LoopWavAnalysis>,
}

pub open spec fn row_view(row: VisibleLoopNode) -> RowView {
    RowView {
        root: row.key.root as nat,
        components: strings_view(row.key.components@),
        depth: row.depth as nat,
        name: row.name@,
        is_wav: row.is_wav,
        expanded: row.expanded,
        analysis: row.analysis,
    }
}

pub open spec fn rows_view(rows: Seq<VisibleLoopNode>) -> Seq<RowView> {
    rows.map_values(|r: VisibleLoopNode| row_view(r))
}

/// The rows of node `i` (reached by `path` below root `root`) and, while it is
/// an expanded folder, of its children in order.
pub open spec fn node_rows(
    nodes: Seq<NodeView>,
    expanded: Seq<(nat, Seq<Seq<char>>)>,
    root: nat,
    i: int,
    path: Seq<Seq<char>>,
) -> Seq<RowView>
    decreases nodes.len() - i, nodes[i].children.len() + 1,
{
    if !(0 <= i < nodes.len()) {
        Seq::empty()
    } else {
        let open = expanded.contains((root, path));
        let row = RowView {
            root,
            components: path,
            depth: path.len(),
            name: nodes[i].name,
            is_wav: nodes[i].is_wav,
            expanded: open,
            analysis: nodes[i].analysis,
        };
        seq![row] + if !nodes[i].is_wav && open {
            children_rows(nodes, expanded, root, i, path, nodes[i].children.len() as int)
        } else {
            Seq::empty()
        }
    }
}

/// The rows of the first `k` children of node `i`.
pub open spec fn children_rows(
    nodes: Seq<NodeView>,
    expanded: Seq<(nat, Seq<Seq<char>>)>,
    root: nat,
    i: int,
    path: Seq<Seq<char>>,
    k: int,
) -> Seq<RowView>
    decreases nodes.len() - i, k,
{
    if !(0 <= i < nodes.len()) || k <= 0 || k > nodes[i].children.len() {
        Seq::empty()
    } else {
        let c = nodes[i].children[k - 1] as int;
        children_rows(nodes, expanded, root, i, path, k - 1) + if i < c < nodes.len() {
            node_rows(nodes, expanded, root, c, path.push(nodes[c].name))
        } else {
            Seq::empty()
        }
    }
}

/// Whether `key` (a root and a path) is expanded.
fn is_expanded_key(expanded: &Vec<NodeKey>, root: usize, components: &Vec<String>) -> (open: bool)
    ensures
        open == keys_view(expanded@).contains((root as nat, strings_view(components@))),
{
    let ghost target = (root as nat, strings_view(components@));
    let mut i: usize = 0;
    while i < expanded.len()
        invariant
            i <= expanded@.len(),
            target == (root as nat, strings_view(components@)),
            forall|j: int| 0 <= j < i ==> keys_view(expanded@)[j] != target,
        decreases expanded@.len() - i,
    {
        if expanded[i].root == root && same_components(&expanded[i].components, components) {
            assert(keys_view(expanded@)[i as int] == target);
            return true;
        }
        i = i + 1;
    }
    false
}

/// Whether two name paths are the same.
pub fn same_components(a: &Vec<String>, b: &Vec<String>) -> (same: bool)
    ensures
        same == (strings_view(a@) == strings_view(b@)),
{
    if a.len() != b.len() {
        proof {
            if strings_view(a@) == strings_view(b@) {
                assert(strings_view(a@).len() == strings_view(b@).len());
            }
        }
        return false;
    }
    let mut i: usize = 0;
    while i < a.len()
        invariant
            a@.len() == b@.len(),
            i <= a@.len(),
            forall|j: int| 0 <= j < i ==> a@[j]@ == b@[j]@,
        decreases a@.len() - i,
    {
        if !same_text(a[i].as_str(), b[i].as_str()) {
            proof {
                if strings_view(a@) == strings_view(b@) {
                    assert(strings_view(a@)[i as int] == strings_view(b@)[i as int]);
                }
            }
            return false;
        }
        i = i + 1;
    }
    assert(strings_view(a@) =~= strings_view(b@));
    true
}

/// Appends the rows of node `i` (reached by `path`) to `output`.
fn collect_visible(
    nodes: &Vec<TreeNode>,
    root: usize,
    expanded: &Vec<NodeKey>,
    i: usize,
    path: Vec<String>,
    output: &mut Vec<VisibleLoopNode>,
)
    requires
        tree_wf(nodes_view(nodes@)),
        i < nodes@.len(),
        path@.len() <= i,
    ensures
        rows_view(final(output)@) == rows_view(old(output)@) + node_rows(
            nodes_view(nodes@),
            keys_view(expanded@),
            root as nat,
            i as int,
            strings_view(path@),
        ),
    decreases nodes@.len() - i,
{
    let ghost nv = nodes_view(nodes@);
    let ghost exp = keys_view(expanded@);
    let ghost pv = strings_view(path@);
    let open = is_expanded_key(expanded, root, &path);
    let ghost start = rows_view(output@);
    let node = &nodes[i];
    let depth = path.len();
    let is_wav = node.is_wav;
    output.push(
        VisibleLoopNode {
            key: NodeKey { root, components: copy_strings(&path) },
            depth,
            name: copy_string(&node.name),
            is_wav,
            expanded: open,
            analysis: node.analysis,
        },
    );
    let ghost first = rows_view(output@);
    proof {
        assert(first =~= start + seq![first.last()]);
    }
    if !is_wav && open {
        let kids = &nodes[i].children;
        let mut k: usize = 0;
        while k < kids.len()
            invariant
                nv == nodes_view(nodes@),
                exp == keys_view(expanded@),
                pv == strings_view(path@),
                tree_wf(nv),
                i < nodes@.len(),
                path@.len() <= i,
                kids@ == nv[i as int].children,
                k <= kids@.len(),
                rows_view(output@) == first + children_rows(nv, exp, root as nat, i as int, pv, k as int),
            decreases kids@.len() - k,
        {
            let c = kids[k];
            assert(nv[i as int].children[k as int] == c);
            let mut child_path = copy_strings(&path);
            let ghost cp = child_path@;
            child_path.push(copy_string(&nodes[c].name));
            proof {
                assert(strings_view(child_path@) =~= strings_view(cp).push(nv[c as int].name));
            }
            let ghost mid = rows_view(output@);
            collect_visible(nodes, root, expanded, c, child_path, output);
            proof {
                assert(children_rows(nv, exp, root as nat, i as int, pv, k + 1) == children_rows(
                    nv,
                    exp,
                    root as nat,
                    i as int,
                    pv,
                    k as int,
                ) + node_rows(nv, exp, root as nat, c as int, pv.push(nv[c as int].name)));
            }
            k = k + 1;
        }
        proof {
            assert(node_rows(nv, exp, root as nat, i as int, pv) == seq![first.last()] + children_rows(
                nv,
                exp,
                root as nat,
                i as int,
                pv,
                nv[i as int].children.len() as int,
            ));
        }
    } else {
        proof {
            assert(node_rows(nv, exp, root as nat, i as int, pv) =~= seq![first.last()]);
        }
    }
}

/// The folder trees of all loop roots, the expanded nodes, the shown rows and
/// the cursor among them.
pub struct LoopTree {
    pub roots: Vec<RootTree>,
    pub expanded: Vec<NodeKey>,
    pub visible: Vec<VisibleLoopNode>,
    pub cursor: usize,
    /// The first shown row of the scrolled list.
    pub tree_scroll: usize,
}

pub ghost struct TreeView {
    pub roots: Seq<(Seq<char>, Seq<NodeView>)>,
    pub expanded: Seq<(nat, Seq<Seq<char>>)>,
    pub visible: Seq<RowView>,
    pub cursor: nat,
    pub scroll: nat,
}

pub open spec fn roots_view(roots: Seq<RootTree>) -> Seq<(Seq<char>, Seq<NodeView>)> {
    roots.map_values(|r: RootTree| (r.path@, nodes_view(r.nodes@)))
}

impl View for LoopTree {
    type V = TreeView;

    open spec fn view(&self) -> TreeView {
        TreeView {
            roots: roots_view(self.roots@),
            expanded: keys_view(self.expanded@),
            visible: rows_view(self.visible@),
            cursor: self.cursor as nat,
            scroll: self.tree_scroll as nat,
        }
    }
}

/// Every root's nodes are well formed.
pub open spec fn forest_wf(roots: Seq<(Seq<char>, Seq<NodeView>)>) -> bool {
    forall|r: int| 0 <= r < roots.len() ==> #[trigger] tree_wf(roots[r].1)
}

/// The rows of the first `r` roots, root after root.
pub open spec fn all_rows(
    roots: Seq<(Seq<char>, Seq<NodeView>)>,
    expanded: Seq<(nat, Seq<Seq<char>>)>,
    r: int,
) -> Seq<RowView>
    decreases r,
{
    if r <= 0 {
        Seq::empty()
    } else {
        all_rows(roots, expanded, r - 1) + node_rows(roots[r - 1].1, expanded, (r - 1) as nat, 0, Seq::empty())
    }
}

/// Row `i` is the first one showing `key`.
pub open spec fn is_first_row(rows: Seq<RowView>, key: (nat, Seq<Seq<char>>), i: int) -> bool {
    &&& 0 <= i < rows.len()
    &&& (rows[i].root, rows[i].components) == key
    &&& forall|j: int| 0 <= j < i ==> (#[trigger] rows[j].root, rows[j].components) != key
}

/// The first row showing `key`, or -1.
pub open spec fn row_position(rows: Seq<RowView>, key: (nat, Seq<Seq<char>>)) -> int {
    if exists|i: int| is_first_row(rows, key, i) {
        choose|i: int| is_first_row(rows, key, i)
    } else {
        -1
    }
}

/// The rows are rebuilt from the trees; the cursor goes to the row of
/// `selected` when it is shown, else stays where it was (inside the list).
pub open spec fn spec_rebuild_visible(t: TreeView, selected: Option<(nat, Seq<Seq<char>>)>) -> TreeView {
    let rows = all_rows(t.roots, t.expanded, t.roots.len() as int);
    let last = if rows.len() == 0 { 0nat } else { (rows.len() - 1) as nat };
    let kept = if t.cursor < last { t.cursor } else { last };
    let cursor = match selected {
        Some(key) => if row_position(rows, key) >= 0 { row_position(rows, key) as nat } else { kept },
        None => kept,
    };
    TreeView { visible: rows, cursor, scroll: if t.scroll < last { t.scroll } else { last }, ..t }
}

/// The first row showing `key`.
fn find_row(rows: &Vec<VisibleLoopNode>, root: usize, components: &Vec<String>) -> (found: Option<usize>)
    ensures
        match found {
            Some(i) => row_position(rows_view(rows@), (root as nat, strings_view(components@))) == i,
            None => row_position(rows_view(rows@), (root as nat, strings_view(components@))) == -1,
        },
{
    let ghost rv = rows_view(rows@);
    let ghost key = (root as nat, strings_view(components@));
    let mut i: usize = 0;
    while i < rows.len()
        invariant
            rv == rows_view(rows@),
            key == (root as nat, strings_view(components@)),
            i <= rows@.len(),
            forall|j: int| 0 <= j < i ==> (#[trigger] rv[j].root, rv[j].components) != key,
        decreases rows@.len() - i,
    {
        if rows[i].key.root == root && same_components(&rows[i].key.components, components) {
            proof {
                assert(is_first_row(rv, key, i as int));
                let j = choose|j: int| is_first_row(rv, key, j);
                if j < i {
                    assert((rv[j].root, rv[j].components) != key);
                } else if i < j {
                    assert((rv[i as int].root, rv[i as int].components) != key);
                }
            }
            return Some(i);
        }
        i = i + 1;
    }
    proof {
        if exists|j: int| is_first_row(rv, key, j) {
            let j = choose|j: int| is_first_row(rv, key, j);
            assert((rv[j].root, rv[j].components) != key);
        }
    }
    None
}

/// Node `n` lies on the path of one of the first `w` WAVs.
pub open spec fn on_indexed_path(nodes: Seq<NodeView>, wavs: Seq<LoopWavIndex>, w: int, n: int) -> bool {
    exists|v: int| 0 <= v < w && #[trigger] node_on_path(nodes, path_components(wavs[v].relative@), n)
}

/// Node `n` is what the path of one of the first `w` indexed WAVs made of
/// it (see `made_by`): a WAV carrying that file's analysis when the whole
/// path reaches it, else a folder with no analysis.
pub open spec fn made_from_index(nodes: Seq<NodeView>, wavs: Seq<LoopWavIndex>, w: int, n: int) -> bool {
    exists|v: int|
        0 <= v < w && #[trigger] made_by(nodes, path_components(wavs[v].relative@), wavs[v].analysis, n)
}

proof fn lemma_made_by_kept(
    old: Seq<NodeView>,
    new: Seq<NodeView>,
    path: Seq<Seq<char>>,
    analysis: LoopWavAnalysis,
    n: int,
)
    requires
        tree_wf(old),
        tree_wf(new),
        extends(old, new),
        made_by(old, path, analysis, n),
    ensures
        made_by(new, path, analysis, n),
{
    let d = choose|d: int|
        1 <= d <= path.len() && #[trigger] reach(old, 0, path.subrange(0, d)) == Some(n) && made_as(
            old,
            path,
            analysis,
            d,
            n,
        );
    lemma_reach_kept(old, new, 0, path.subrange(0, d));
    assert(new[n].is_wav == old[n].is_wav && new[n].analysis == old[n].analysis);
    assert(made_as(new, path, analysis, d, n));
}

/// The tree as built from the index: each root's WAV paths in a well-formed
/// tree named after the root (holding those paths and nothing else), each
/// node below a root being what an indexed path made of it (a WAV with that
/// file's analysis where the whole path ends, else a folder without one), the
/// root a folder without analysis, each root expanded, its rows shown, the
/// cursor on the first row.
pub open spec fn built_from(t: TreeView, index_roots: Seq<LoopRootIndex>) -> bool {
    &&& forest_wf(t.roots)
    &&& t.roots.len() == index_roots.len()
    &&& forall|r: int| 0 <= r < index_roots.len() ==> (#[trigger] t.roots[r]).0 == index_roots[r].path@
        && t.roots[r].1[0].name == index_roots[r].path@
    &&& forall|r: int, w: int|
        0 <= r < index_roots.len() && 0 <= w < index_roots[r].wav_files@.len() ==> (#[trigger] reach(
            t.roots[r].1,
            0,
            path_components(index_roots[r].wav_files@[w].relative@),
        )) is Some
    &&& forall|r: int, n: int|
        0 <= r < index_roots.len() && 0 < n < t.roots[r].1.len() ==> #[trigger] on_indexed_path(
            t.roots[r].1,
            index_roots[r].wav_files@,
            index_roots[r].wav_files@.len() as int,
            n,
        )
    &&& forall|r: int, n: int|
        0 <= r < index_roots.len() && 0 < n < t.roots[r].1.len() ==> #[trigger] made_from_index(
            t.roots[r].1,
            index_roots[r].wav_files@,
            index_roots[r].wav_files@.len() as int,
            n,
        )
    &&& forall|r: int| 0 <= r < index_roots.len() ==> (#[trigger] t.roots[r]).1[0].analysis is None
    &&& t.expanded == Seq::new(index_roots.len(), |r: int| (r as nat, Seq::<Seq<char>>::empty()))
    &&& t.visible == all_rows(t.roots, t.expanded, t.roots.len() as int)
    &&& t.cursor == 0
    &&& t.scroll == 0
}

impl LoopTree {
    /// Rebuilds the shown rows; the cursor goes to the row of `selected` when
    /// it is shown, else stays (inside the list).
    pub fn rebuild_visible(&mut self, selected: Option<&NodeKey>)
        requires
            forest_wf(old(self)@.roots),
        ensures
            final(self)@ == spec_rebuild_visible(
                old(self)@,
                match selected {
                    Some(k) => Some(key_view(*k)),
                    None => None,
                },
            ),
    {
        let ghost t = self@;
        let mut visible: Vec<VisibleLoopNode> = Vec::new();
        let mut r: usize = 0;
        while r < self.roots.len()
            invariant
                t == self@,
                forest_wf(t.roots),
                r <= self.roots@.len(),
                rows_view(visible@) == all_rows(t.roots, t.expanded, r as int),
            decreases self.roots@.len() - r,
        {
            assert(tree_wf(t.roots[r as int].1));
            assert(t.roots[r as int].1 == nodes_view(self.roots@[r as int].nodes@));
            collect_visible(&self.roots[r].nodes, r, &self.expanded, 0, Vec::new(), &mut visible);
            proof {
                assert(strings_view(Seq::<String>::empty()) =~= Seq::<Seq<char>>::empty());
            }
            r = r + 1;
        }
        let len = visible.len();
        let last = if len == 0 { 0 } else { len - 1 };
        let kept = if self.cursor < last { self.cursor } else { last };
        self.visible = visible;
        self.cursor = match selected {
            Some(key) => match find_row(&self.visible, key.root, &key.components) {
                Some(i) => i,
                None => kept,
            },
            None => kept,
        };
        if self.tree_scroll > last {
            self.tree_scroll = last;
        }
    }

    /// The trees of the indexed library, each root expanded, the cursor on the
    /// first row.
    pub fn from_index(index: &LoopIndex) -> (tree: Self)
        ensures
            built_from(tree@, index.roots@),
    {
        let mut roots: Vec<RootTree> = Vec::new();
        let mut expanded: Vec<NodeKey> = Vec::new();
        let mut r: usize = 0;
        while r < index.roots.len()
            invariant
                r <= index.roots@.len(),
                roots@.len() == r,
                forest_wf(roots_view(roots@)),
                forall|q: int| 0 <= q < r ==> (#[trigger] roots_view(roots@)[q]).0 == index.roots@[q].path@
                    && roots_view(roots@)[q].1[0].name == index.roots@[q].path@,
                forall|q: int, w: int|
                    0 <= q < r && 0 <= w < index.roots@[q].wav_files@.len() ==> (#[trigger] reach(
                        roots_view(roots@)[q].1,
                        0,
                        path_components(index.roots@[q].wav_files@[w].relative@),
                    )) is Some,
                forall|q: int, n: int|
                    0 <= q < r && 0 < n < roots_view(roots@)[q].1.len() ==> #[trigger] on_indexed_path(
                        roots_view(roots@)[q].1,
                        index.roots@[q].wav_files@,
                        index.roots@[q].wav_files@.len() as int,
                        n,
                    ),
                forall|q: int, n: int|
                    0 <= q < r && 0 < n < roots_view(roots@)[q].1.len() ==> #[trigger] made_from_index(
                        roots_view(roots@)[q].1,
                        index.roots@[q].wav_files@,
                        index.roots@[q].wav_files@.len() as int,
                        n,
                    ),
                forall|q: int| 0 <= q < r ==> (#[trigger] roots_view(roots@)[q]).1[0].analysis is None,
                keys_view(expanded@) == Seq::new(r as nat, |q: int| (q as nat, Seq::<Seq<char>>::empty())),
            decreases index.roots@.len() - r,
        {
            let root = &index.roots[r];
            let mut nodes: Vec<TreeNode> = Vec::new();
            nodes.push(TreeNode { name: copy_string(&root.path), is_wav: false, analysis: None, children: Vec::new() });
            proof {
                let nv = nodes_view(nodes@);
                assert(child_keys(nv, 0) =~= Seq::<(bool, Seq<char>)>::empty());
            }
            let mut w: usize = 0;
            while w < root.wav_files.len()
                invariant
                    w <= root.wav_files@.len(),
                    tree_wf(nodes_view(nodes@)),
                    nodes_view(nodes@)[0].name == root.path@,
                    forall|v: int| 0 <= v < w ==> (#[trigger] reach(
                        nodes_view(nodes@),
                        0,
                        path_components(root.wav_files@[v].relative@),
                    )) is Some,
                    forall|n: int|
                        0 < n < nodes@.len() ==> #[trigger] on_indexed_path(
                            nodes_view(nodes@),
                            root.wav_files@,
                            w as int,
                            n,
                        ),
                    forall|n: int|
                        0 < n < nodes@.len() ==> #[trigger] made_from_index(
                            nodes_view(nodes@),
                            root.wav_files@,
                            w as int,
                            n,
                        ),
                    nodes_view(nodes@)[0].analysis is None,
                decreases root.wav_files@.len() - w,
            {
                let ghost before = nodes_view(nodes@);
                let components = components_of(root.wav_files[w].relative.as_str());
                insert_path(&mut nodes, &components, root.wav_files[w].analysis);
                proof {
                    let after = nodes_view(nodes@);
                    assert(strings_view(components@) =~= components@.map_values(|c: String| c@));
                    assert forall|v: int| 0 <= v < w + 1 implies (#[trigger] reach(
                        after,
                        0,
                        path_components(root.wav_files@[v].relative@),
                    )) is Some by {
                        if v < w {
                            lemma_reach_kept(before, after, 0, path_components(root.wav_files@[v].relative@));
                        }
                    }
                    assert forall|n: int| 0 < n < nodes@.len() implies #[trigger] on_indexed_path(
                        after,
                        root.wav_files@,
                        w + 1,
                        n,
                    ) by {
                        if n < before.len() {
                            assert(on_indexed_path(before, root.wav_files@, w as int, n));
                            let v = choose|v: int|
                                0 <= v < w && #[trigger] node_on_path(
                                    before,
                                    path_components(root.wav_files@[v].relative@),
                                    n,
                                );
                            lemma_on_path_kept(before, after, path_components(root.wav_files@[v].relative@), n);
                        } else {
                            assert(node_on_path(after, strings_view(components@), n));
                            assert(node_on_path(after, path_components(root.wav_files@[w as int].relative@), n));
                        }
                    }
                    assert forall|n: int| 0 < n < nodes@.len() implies #[trigger] made_from_index(
                        after,
                        root.wav_files@,
                        w + 1,
                        n,
                    ) by {
                        if n < before.len() {
                            assert(made_from_index(before, root.wav_files@, w as int, n));
                            let v = choose|v: int|
                                0 <= v < w && #[trigger] made_by(
                                    before,
                                    path_components(root.wav_files@[v].relative@),
                                    root.wav_files@[v].analysis,
                                    n,
                                );
                            lemma_made_by_kept(
                                before,
                                after,
                                path_components(root.wav_files@[v].relative@),
                                root.wav_files@[v].analysis,
                                n,
                            );
                        } else {
                            assert(made_by(after, strings_view(components@), root.wav_files@[w as int].analysis, n));
                            assert(made_by(
                                after,
                                path_components(root.wav_files@[w as int].relative@),
                                root.wav_files@[w as int].analysis,
                                n,
                            ));
                        }
                    }
                    assert(after[0].analysis == before[0].analysis);
                }
                w = w + 1;
            }
            let ghost before_roots = roots_view(roots@);
            roots.push(RootTree { path: copy_string(&root.path), nodes });
            let ghost before_keys = keys_view(expanded@);
            expanded.push(NodeKey { root: r, components: Vec::new() });
            proof {
                assert(roots_view(roots@) =~= before_roots.push(roots_view(roots@).last()));
                assert(strings_view(Seq::<String>::empty()) =~= Seq::<Seq<char>>::empty());
                assert(expanded@.last().components@ =~= Seq::<String>::empty());
                assert(key_view(expanded@.last()) == (r as nat, Seq::<Seq<char>>::empty()));
                assert(keys_view(expanded@) =~= before_keys.push((r as nat, Seq::<Seq<char>>::empty())));
                assert(keys_view(expanded@) =~= Seq::new((r + 1) as nat, |q: int| (q as nat, Seq::<Seq<char>>::empty())));
            }
            r = r + 1;
        }
        let mut tree = LoopTree { roots, expanded, visible: Vec::new(), cursor: 0, tree_scroll: 0 };
        tree.rebuild_visible(None);
        tree
    }
}

/// What a tree key leaves for the browser to do.
pub enum TreeAction {
    Continue,
    /// Preview the WAV of this node.
    Preview(NodeKey),
}

pub ghost enum TreeActionView {
    Continue,
    Preview((nat, Seq<Seq<char>>)),
}

pub open spec fn action_view(action: TreeAction) -> TreeActionView {
    match action {
        TreeAction::Continue => TreeActionView::Continue,
        TreeAction::Preview(key) => TreeActionView::Preview(key_view(key)),
    }
}

pub open spec fn row_key(row: RowView) -> (nat, Seq<Seq<char>>) {
    (row.root, row.components)
}

/// The selected row plays when it is a WAV.
pub open spec fn spec_play_action(t: TreeView) -> TreeActionView {
    if t.cursor < t.visible.len() && t.visible[t.cursor as int].is_wav {
        TreeActionView::Preview(row_key(t.visible[t.cursor as int]))
    } else {
        TreeActionView::Continue
    }
}

/// `keys` without `key`.
pub open spec fn remove_key(keys: Seq<(nat, Seq<Seq<char>>)>, key: (nat, Seq<Seq<char>>)) -> Seq<
    (nat, Seq<Seq<char>>),
>
    decreases keys.len(),
{
    if keys.len() == 0 {
        keys
    } else if keys.last() == key {
        remove_key(keys.drop_last(), key)
    } else {
        remove_key(keys.drop_last(), key).push(keys.last())
    }
}

/// Moves the cursor by `delta` rows, stopping at the ends; a move onto a WAV
/// previews it.
pub open spec fn spec_move_cursor(t: TreeView, delta: isize) -> (TreeView, TreeActionView) {
    if t.visible.len() == 0 {
        (t, TreeActionView::Continue)
    } else {
        let next = crate::tui_app::clamp(t.cursor + delta, 0, t.visible.len() - 1);
        if next == t.cursor {
            (t, TreeActionView::Continue)
        } else {
            let moved = TreeView { cursor: next as nat, ..t };
            (moved, spec_play_action(moved))
        }
    }
}

/// `l`: a WAV previews; a collapsed folder expands (the cursor stays on it).
pub open spec fn spec_expand_or_play(t: TreeView) -> (TreeView, TreeActionView) {
    if t.cursor >= t.visible.len() {
        (t, TreeActionView::Continue)
    } else {
        let row = t.visible[t.cursor as int];
        if row.is_wav {
            (t, TreeActionView::Preview(row_key(row)))
        } else if t.expanded.contains(row_key(row)) {
            (t, TreeActionView::Continue)
        } else {
            (
                spec_rebuild_visible(TreeView { expanded: t.expanded.push(row_key(row)), ..t }, Some(row_key(row))),
                TreeActionView::Continue,
            )
        }
    }
}

/// `l` on a WAV row previews that row's WAV and leaves the tree as it is; on
/// a folder row nothing is previewed and the folder is expanded afterwards.
pub proof fn expand_previews_a_wav_and_opens_a_folder(t: TreeView)
    requires
        t.cursor < t.visible.len(),
    ensures
        t.visible[t.cursor as int].is_wav ==> spec_expand_or_play(t).0 == t
            && spec_expand_or_play(t).1 == TreeActionView::Preview(
            (t.visible[t.cursor as int].root, t.visible[t.cursor as int].components),
        ),
        !t.visible[t.cursor as int].is_wav ==> spec_expand_or_play(t).1 == TreeActionView::Continue
            && spec_expand_or_play(t).0.expanded.contains(
            (t.visible[t.cursor as int].root, t.visible[t.cursor as int].components),
        ) && spec_expand_or_play(t).0.roots == t.roots,
        !t.visible[t.cursor as int].is_wav ==> spec_expand_or_play(t).0.expanded == if t.expanded.contains(
            (t.visible[t.cursor as int].root, t.visible[t.cursor as int].components),
        ) {
            t.expanded
        } else {
            t.expanded.push((t.visible[t.cursor as int].root, t.visible[t.cursor as int].components))
        },
{
    let row = t.visible[t.cursor as int];
    if !row.is_wav && !t.expanded.contains(row_key(row)) {
        assert(t.expanded.push(row_key(row)).contains(row_key(row))) by {
            assert(t.expanded.push(row_key(row))[t.expanded.len() as int] == row_key(row));
        }
    }
}

/// `h`: an expanded folder collapses; otherwise the cursor goes to the parent.
pub open spec fn spec_collapse_or_select_parent(t: TreeView) -> TreeView {
    if t.cursor >= t.visible.len() {
        t
    } else {
        let row = t.visible[t.cursor as int];
        if !row.is_wav && t.expanded.contains(row_key(row)) {
            spec_rebuild_visible(TreeView { expanded: remove_key(t.expanded, row_key(row)), ..t }, Some(row_key(row)))
        } else if row.depth == 0 || row.components.len() == 0 {
            t
        } else {
            spec_rebuild_visible(t, Some((row.root, row.components.drop_last())))
        }
    }
}

/// `h` repeated `n` times.
pub open spec fn spec_repeat_collapse(t: TreeView, n: nat) -> TreeView
    decreases n,
{
    if n == 0 {
        t
    } else {
        spec_repeat_collapse(spec_collapse_or_select_parent(t), (n - 1) as nat)
    }
}

/// Once `h` changes nothing, repeating it changes nothing either.
proof fn lemma_repeat_collapse_settled(t: TreeView, n: nat)
    requires
        spec_collapse_or_select_parent(t) == t,
    ensures
        spec_repeat_collapse(t, n) == t,
    decreases n,
{
    if n > 0 {
        lemma_repeat_collapse_settled(t, (n - 1) as nat);
    }
}

fn copy_key(key: &NodeKey) -> (copy: NodeKey)
    ensures
        key_view(copy) == key_view(*key),
{
    NodeKey { root: key.root, components: copy_strings(&key.components) }
}

impl LoopTree {
    /// The play action of the selected row.
    pub fn selected_play_action(&self) -> (action: TreeAction)
        ensures
            action_view(action) == spec_play_action(self@),
    {
        if self.cursor < self.visible.len() && self.visible[self.cursor].is_wav {
            TreeAction::Preview(copy_key(&self.visible[self.cursor].key))
        } else {
            TreeAction::Continue
        }
    }

    /// Moves the cursor by `delta` rows.
    pub fn move_cursor(&mut self, delta: isize) -> (action: TreeAction)
        ensures
            (final(self)@, action_view(action)) == spec_move_cursor(old(self)@, delta),
    {
        let len = self.visible.len();
        if len == 0 {
            return TreeAction::Continue;
        }
        let max = (len - 1) as i128;
        let target: i128 = self.cursor as i128 + delta as i128;
        let next: usize = if target < 0 {
            0
        } else if target > max {
            len - 1
        } else {
            target as usize
        };
        if next == self.cursor {
            return TreeAction::Continue;
        }
        self.cursor = next;
        self.selected_play_action()
    }

    /// Whether `key` is expanded.
    fn contains_expanded(&self, key: &NodeKey) -> (open: bool)
        ensures
            open == self@.expanded.contains(key_view(*key)),
    {
        is_expanded_key(&self.expanded, key.root, &key.components)
    }

    /// `l`: previews a WAV or expands a folder.
    pub fn expand_or_play(&mut self) -> (action: TreeAction)
        requires
            forest_wf(old(self)@.roots),
        ensures
            (final(self)@, action_view(action)) == spec_expand_or_play(old(self)@),
    {
        if self.cursor >= self.visible.len() {
            return TreeAction::Continue;
        }
        let key = copy_key(&self.visible[self.cursor].key);
        if self.visible[self.cursor].is_wav {
            return TreeAction::Preview(key);
        }
        if self.contains_expanded(&key) {
            return TreeAction::Continue;
        }
        let ghost before = self@;
        self.expanded.push(copy_key(&key));
        proof {
            assert(self@.expanded =~= before.expanded.push(key_view(key)));
            assert(self@ == TreeView { expanded: before.expanded.push(key_view(key)), ..before });
        }
        self.rebuild_visible(Some(&key));
        TreeAction::Continue
    }

    /// Removes `key` from the expanded nodes.
    fn remove_expanded(&mut self, key: &NodeKey)
        ensures
            final(self)@ == (TreeView { expanded: remove_key(old(self)@.expanded, key_view(*key)), ..old(self)@ }),
    {
        let ghost k = key_view(*key);
        let ghost old_keys = self@.expanded;
        let mut kept: Vec<NodeKey> = Vec::new();
        let mut i: usize = 0;
        while i < self.expanded.len()
            invariant
                k == key_view(*key),
                old_keys == keys_view(self.expanded@),
                i <= self.expanded@.len(),
                keys_view(kept@) == remove_key(old_keys.subrange(0, i as int), k),
            decreases self.expanded@.len() - i,
        {
            let ghost prefix = old_keys.subrange(0, i as int);
            proof {
                assert(old_keys.subrange(0, i + 1).drop_last() =~= prefix);
                assert(old_keys.subrange(0, i + 1).last() == key_view(self.expanded@[i as int]));
            }
            if !(self.expanded[i].root == key.root && same_components(&self.expanded[i].components, &key.components)) {
                let ghost before = kept@;
                kept.push(copy_key(&self.expanded[i]));
                proof {
                    assert(keys_view(kept@) =~= keys_view(before).push(key_view(self.expanded@[i as int])));
                }
            }
            i = i + 1;
        }
        proof {
            assert(old_keys.subrange(0, old_keys.len() as int) =~= old_keys);
        }
        self.expanded = kept;
    }

    /// `h`: collapses an expanded folder, or selects the parent.
    /// Returns whether it acted; when it did not, the tree is as it was.
    pub fn collapse_or_select_parent(&mut self) -> (acted: bool)
        requires
            forest_wf(old(self)@.roots),
        ensures
            final(self)@ == spec_collapse_or_select_parent(old(self)@),
            !acted ==> final(self)@ == old(self)@,
    {
        if self.cursor >= self.visible.len() {
            return false;
        }
        let key = copy_key(&self.visible[self.cursor].key);
        let is_wav = self.visible[self.cursor].is_wav;
        let depth = self.visible[self.cursor].depth;
        if !is_wav && self.contains_expanded(&key) {
            self.remove_expanded(&key);
            self.rebuild_visible(Some(&key));
            return true;
        }
        if depth == 0 || key.components.len() == 0 {
            return false;
        }
        let mut parent = key;
        let ghost whole = parent.components@;
        parent.components.pop();
        proof {
            assert(strings_view(parent.components@) =~= strings_view(whole).drop_last());
        }
        self.rebuild_visible(Some(&parent));
        true
    }

    /// `h` repeated `n` times (see `spec_repeat_collapse`).
    pub fn collapse_or_select_parent_times(&mut self, n: usize)
        requires
            forest_wf(old(self)@.roots),
        ensures
            final(self)@ == spec_repeat_collapse(old(self)@, n as nat),
    {
        let ghost target = spec_repeat_collapse(self@, n as nat);
        let mut i: usize = 0;
        while i < n
            invariant
                i <= n,
                forest_wf(self@.roots),
                spec_repeat_collapse(self@, (n - i) as nat) == target,
                target == spec_repeat_collapse(old(self)@, n as nat),
            decreases n - i,
        {
            let ghost before = self@;
            let acted = self.collapse_or_select_parent();
            assert(spec_repeat_collapse(before, (n - i) as nat) == spec_repeat_collapse(self@, (n - i - 1) as nat));
            if !acted {
                proof {
                    lemma_repeat_collapse_settled(self@, (n - i - 1) as nat);
                }
                return;
            }
            i = i + 1;
        }
    }

    /// The root path and the folder of the selected row (a WAV's own folder).
    pub fn selected_target_dir(&self) -> (dir: Option<(String, Vec<String>)>)
        ensures
            match dir {
                Some((root, components)) => self@.cursor < self@.visible.len() && ({
                    let row = self@.visible[self@.cursor as int];
                    &&& row.root < self@.roots.len()
                    &&& root@ == self@.roots[row.root as int].0
                    &&& strings_view(components@) == if row.is_wav && row.components.len() > 0 {
                        row.components.drop_last()
                    } else {
                        row.components
                    }
                }),
                None => self@.cursor >= self@.visible.len() || self@.visible[self@.cursor as int].root
                    >= self@.roots.len(),
            },
    {
        if self.cursor >= self.visible.len() {
            return None;
        }
        let node = &self.visible[self.cursor];
        if node.key.root >= self.roots.len() {
            return None;
        }
        let root = copy_string(&self.roots[node.key.root].path);
        let mut components = copy_strings(&node.key.components);
        let ghost whole = components@;
        if node.is_wav && components.len() > 0 {
            components.pop();
            proof {
                assert(strings_view(components@) =~= strings_view(whole).drop_last());
            }
        }
        Some((root, components))
    }

    /// The root path and the path of the selected WAV below it.
    pub fn selected_wav_path(&self) -> (wav: Option<(String, Vec<String>)>)
        ensures
            match wav {
                Some((root, components)) => self@.cursor < self@.visible.len() && ({
                    let row = self@.visible[self@.cursor as int];
                    &&& row.is_wav
                    &&& row.root < self@.roots.len()
                    &&& root@ == self@.roots[row.root as int].0
                    &&& strings_view(components@) == row.components
                }),
                None => self@.cursor >= self@.visible.len() || !self@.visible[self@.cursor as int].is_wav
                    || self@.visible[self@.cursor as int].root >= self@.roots.len(),
            },
    {
        if self.cursor >= self.visible.len() {
            return None;
        }
        let node = &self.visible[self.cursor];
        if !node.is_wav || node.key.root >= self.roots.len() {
            return None;
        }
        Some((copy_string(&self.roots[node.key.root].path), copy_strings(&node.key.components)))
    }
}

/// A key of the tree pane.
#[derive(Clone, Copy, Debug, PartialEq, Eq, Structural)]
pub enum TreeKeyCode {
    Esc,
    Enter,
    Up,
    Down,
    Left,
    Right,
    PageUp,
    PageDown,
    Char(char),
    Other,
}

/// A key press on the tree pane, with its modifiers.
#[derive(Clone, Copy, Debug, PartialEq, Eq, Structural)]
pub struct TreeKey {
    pub code: TreeKeyCode,
    pub shift: bool,
    /// Control, Alt or another modifier is held.
    pub other_modifiers: bool,
}

/// What a tree key leaves for the browser to do.
pub enum TreeKeyOutcome {
    Continue,
    Preview(NodeKey),
    Return,
    Quit,
    /// `Shift` + a pad note: assign the selected WAV to the pad or clear it.
    TogglePad(char),
    /// A pad note: play the pad's WAV.
    TriggerPad(char),
    ToggleFavorite,
    ToggleFavoritesOnly,
    OpenCategoryOverlay,
}

pub ghost enum OutcomeView {
    Continue,
    Preview((nat, Seq<Seq<char>>)),
    Return,
    Quit,
    TogglePad(char),
    TriggerPad(char),
    ToggleFavorite,
    ToggleFavoritesOnly,
    OpenCategoryOverlay,
}

pub open spec fn outcome_view(o: TreeKeyOutcome) -> OutcomeView {
    match o {
        TreeKeyOutcome::Continue => OutcomeView::Continue,
        TreeKeyOutcome::Preview(k) => OutcomeView::Preview(key_view(k)),
        TreeKeyOutcome::Return => OutcomeView::Return,
        TreeKeyOutcome::Quit => OutcomeView::Quit,
        TreeKeyOutcome::TogglePad(c) => OutcomeView::TogglePad(c),
        TreeKeyOutcome::TriggerPad(c) => OutcomeView::TriggerPad(c),
        TreeKeyOutcome::ToggleFavorite => OutcomeView::ToggleFavorite,
        TreeKeyOutcome::ToggleFavoritesOnly => OutcomeView::ToggleFavoritesOnly,
        TreeKeyOutcome::OpenCategoryOverlay => OutcomeView::OpenCategoryOverlay,
    }
}

pub open spec fn from_tree_action(a: TreeActionView) -> OutcomeView {
    match a {
        TreeActionView::Continue => OutcomeView::Continue,
        TreeActionView::Preview(k) => OutcomeView::Preview(k),
    }
}

/// The pad notes: c d e f g a b.
pub open spec fn is_pad_key(c: char) -> bool {
    c == 'c' || c == 'd' || c == 'e' || c == 'f' || c == 'g' || c == 'a' || c == 'b'
}

pub fn pad_key(c: char) -> (pad: bool)
    ensures
        pad == is_pad_key(c),
{
    c == 'c' || c == 'd' || c == 'e' || c == 'f' || c == 'g' || c == 'a' || c == 'b'
}

/// A key on the tree pane: pads (with `Shift` to assign), `jk` and the
/// arrows and page keys move, `l` expands or previews, `h` collapses or goes
/// up, `Enter`/space preview, `v` `V` `t` favorites and categories, `Esc`
/// returns, `q` quits. `page` is how many rows a page key moves.
pub open spec fn spec_handle_tree_key(t: TreeView, key: TreeKey, page: isize) -> (TreeView, OutcomeView) {
    let shift_pad = match key.code {
        TreeKeyCode::Char(c) => key.shift && is_pad_key(crate::text::spec_ascii_lowercase(c)),
        _ => false,
    };
    let plain_pad = match key.code {
        TreeKeyCode::Char(c) => !key.shift && !key.other_modifiers && is_pad_key(c),
        _ => false,
    };
    if shift_pad {
        (t, OutcomeView::TogglePad(crate::text::spec_ascii_lowercase(key.code->Char_0)))
    } else if plain_pad {
        (t, OutcomeView::TriggerPad(key.code->Char_0))
    } else {
        match key.code {
            TreeKeyCode::Esc => (t, OutcomeView::Return),
            TreeKeyCode::Down => (spec_move_cursor(t, 1isize).0, from_tree_action(spec_move_cursor(t, 1isize).1)),
            TreeKeyCode::Up => (spec_move_cursor(t, -1isize).0, from_tree_action(spec_move_cursor(t, -1isize).1)),
            TreeKeyCode::PageDown => (spec_move_cursor(t, page).0, from_tree_action(spec_move_cursor(t, page).1)),
            TreeKeyCode::PageUp => (
                spec_move_cursor(t, -page as isize).0,
                from_tree_action(spec_move_cursor(t, -page as isize).1),
            ),
            TreeKeyCode::Right => (spec_expand_or_play(t).0, from_tree_action(spec_expand_or_play(t).1)),
            TreeKeyCode::Left => (spec_collapse_or_select_parent(t), OutcomeView::Continue),
            TreeKeyCode::Enter => (t, from_tree_action(spec_play_action(t))),
            TreeKeyCode::Char(c) => if c == 'q' {
                (t, OutcomeView::Quit)
            } else if c == 'v' {
                (t, OutcomeView::ToggleFavorite)
            } else if c == 'V' {
                (t, OutcomeView::ToggleFavoritesOnly)
            } else if c == 't' {
                (t, OutcomeView::OpenCategoryOverlay)
            } else if c == 'j' {
                (spec_move_cursor(t, 1isize).0, from_tree_action(spec_move_cursor(t, 1isize).1))
            } else if c == 'k' {
                (spec_move_cursor(t, -1isize).0, from_tree_action(spec_move_cursor(t, -1isize).1))
            } else if c == 'l' {
                (spec_expand_or_play(t).0, from_tree_action(spec_expand_or_play(t).1))
            } else if c == 'h' {
                (spec_collapse_or_select_parent(t), OutcomeView::Continue)
            } else if c == ' ' {
                (t, from_tree_action(spec_play_action(t)))
            } else {
                (t, OutcomeView::Continue)
            },
            TreeKeyCode::Other => (t, OutcomeView::Continue),
        }
    }
}

pub(crate) fn outcome_of(action: TreeAction) -> (o: TreeKeyOutcome)
    ensures
        outcome_view(o) == from_tree_action(action_view(action)),
{
    match action {
        TreeAction::Continue => TreeKeyOutcome::Continue,
        TreeAction::Preview(k) => TreeKeyOutcome::Preview(k),
    }
}

impl LoopTree {
    /// A key on the tree pane (see `spec_handle_tree_key`).
    pub fn handle_tree_key(&mut self, key: TreeKey, page: usize) -> (outcome: TreeKeyOutcome)
        requires
            forest_wf(old(self)@.roots),
            page <= isize::MAX,
        ensures
            (final(self)@, outcome_view(outcome)) == spec_handle_tree_key(old(self)@, key, page as isize),
    {
        if let TreeKeyCode::Char(c) = key.code {
            if key.shift {
                let pad = crate::text::ascii_lowercase(c);
                if pad_key(pad) {
                    return TreeKeyOutcome::TogglePad(pad);
                }
            }
            if !key.shift && !key.other_modifiers && pad_key(c) {
                return TreeKeyOutcome::TriggerPad(c);
            }
        }
        match key.code {
            TreeKeyCode::Esc => TreeKeyOutcome::Return,
            TreeKeyCode::Down => outcome_of(self.move_cursor(1)),
            TreeKeyCode::Up => outcome_of(self.move_cursor(-1)),
            TreeKeyCode::PageDown => outcome_of(self.move_cursor(page as isize)),
            TreeKeyCode::PageUp => outcome_of(self.move_cursor(-(page as isize))),
            TreeKeyCode::Right => outcome_of(self.expand_or_play()),
            TreeKeyCode::Left => {
                self.collapse_or_select_parent();
                TreeKeyOutcome::Continue
            },
            TreeKeyCode::Enter => outcome_of(self.selected_play_action()),
            TreeKeyCode::Char(c) => {
                if c == 'q' {
                    TreeKeyOutcome::Quit
                } else if c == 'v' {
                    TreeKeyOutcome::ToggleFavorite
                } else if c == 'V' {
                    TreeKeyOutcome::ToggleFavoritesOnly
                } else if c == 't' {
                    TreeKeyOutcome::OpenCategoryOverlay
                } else if c == 'j' {
                    outcome_of(self.move_cursor(1))
                } else if c == 'k' {
                    outcome_of(self.move_cursor(-1))
                } else if c == 'l' {
                    outcome_of(self.expand_or_play())
                } else if c == 'h' {
                    self.collapse_or_select_parent();
                    TreeKeyOutcome::Continue
                } else if c == ' ' {
                    outcome_of(self.selected_play_action())
                } else {
                    TreeKeyOutcome::Continue
                }
            },
            TreeKeyCode::Other => TreeKeyOutcome::Continue,
        }
    }
}

/// The names joined with slashes.
pub open spec fn join_components(components: Seq<Seq<char>>) -> Seq<char>
    decreases components.len(),
{
    if components.len() == 0 {
        Seq::empty()
    } else if components.len() == 1 {
        components[0]
    } else {
        join_components(components.drop_last()) + seq!['/'] + components.last()
    }
}

/// The names joined with slashes: the relative path of a node.
pub fn join_with_slashes(components: &Vec<String>) -> (path: String)
    ensures
        path@ == join_components(strings_view(components@)),
{
    let mut path = String::new();
    let mut i: usize = 0;
    while i < components.len()
        invariant
            i <= components@.len(),
            path@ == join_components(strings_view(components@.subrange(0, i as int))),
        decreases components@.len() - i,
    {
        let ghost prefix = strings_view(components@.subrange(0, i as int));
        let ghost next = strings_view(components@.subrange(0, i + 1));
        proof {
            assert(next.drop_last() =~= prefix);
            assert(next.last() == components@[i as int]@);
        }
        if i == 0 {
            path = copy_string(&components[0]);
            proof {
                assert(next.len() == 1);
            }
        } else {
            let with_slash = crate::text::concat(path.as_str(), "/");
            proof {
                reveal_strlit("/");
                assert("/"@ =~= seq!['/']);
            }
            path = crate::text::concat(with_slash.as_str(), components[i].as_str());
        }
        i = i + 1;
    }
    proof {
        assert(components@.subrange(0, components@.len() as int) =~= components@);
    }
    path
}

impl LoopTree {
    /// Rebuilds the shown rows and puts the cursor on `selected` when it is
    /// still shown (else it stays, inside the list).
    pub fn rebuild_visible_for_path(&mut self, selected: Option<&NodeKey>)
        requires
            forest_wf(old(self)@.roots),
        ensures
            final(self)@ == spec_rebuild_visible(
                old(self)@,
                match selected {
                    Some(k) => Some(key_view(*k)),
                    None => None,
                },
            ),
    {
        self.rebuild_visible(selected);
    }

    /// The WAV of the selected row: its root and its path below the root.
    pub fn selected_wav_id(&self) -> (wav: Option<LoopWavId>)
        ensures
            match wav {
                Some(w) => self@.cursor < self@.visible.len() && ({
                    let row = self@.visible[self@.cursor as int];
                    &&& row.is_wav
                    &&& row.root < self@.roots.len()
                    &&& wav_view(w) == (self@.roots[row.root as int].0, join_components(row.components))
                }),
                None => self@.cursor >= self@.visible.len() || !self@.visible[self@.cursor as int].is_wav
                    || self@.visible[self@.cursor as int].root >= self@.roots.len(),
            },
    {
        match self.selected_wav_path() {
            Some((root, components)) => {
                let relative = join_with_slashes(&components);
                Some(LoopWavId::new(root.as_str(), relative.as_str()))
            },
            None => None,
        }
    }
}

proof fn lemma_remove_absent(keys: Seq<(nat, Seq<Seq<char>>)>, key: (nat, Seq<Seq<char>>))
    requires
        !keys.contains(key),
    ensures
        remove_key(keys, key) == keys,
    decreases keys.len(),
{
    if keys.len() > 0 {
        assert(!keys.drop_last().contains(key)) by {
            if keys.drop_last().contains(key) {
                let j = choose|j: int| 0 <= j < keys.drop_last().len() && keys.drop_last()[j] == key;
                assert(keys[j] == key);
            }
        }
        assert(keys.last() != key) by {
            assert(keys[keys.len() - 1] == keys.last());
        }
        lemma_remove_absent(keys.drop_last(), key);
        assert(keys =~= keys.drop_last().push(keys.last()));
    }
}

/// Collapsing a folder undoes expanding it: the expanded set, and so the
/// rows shown, are those from before.
pub proof fn collapse_undoes_expand(t: TreeView, key: (nat, Seq<Seq<char>>))
    requires
        !t.expanded.contains(key),
    ensures
        remove_key(t.expanded.push(key), key) == t.expanded,
        all_rows(t.roots, remove_key(t.expanded.push(key), key), t.roots.len() as int) == all_rows(
            t.roots,
            t.expanded,
            t.roots.len() as int,
        ),
{
    assert(t.expanded.push(key).drop_last() =~= t.expanded);
    lemma_remove_absent(t.expanded, key);
}

/// Some row shows `key`.
pub open spec fn has_row(rows: Seq<RowView>, key: (nat, Seq<Seq<char>>)) -> bool {
    exists|j: int| 0 <= j < rows.len() && row_key(#[trigger] rows[j]) == key
}

/// Every key expanded in `e` is expanded in `e2`.
pub open spec fn covers(e: Seq<(nat, Seq<Seq<char>>)>, e2: Seq<(nat, Seq<Seq<char>>)>) -> bool {
    forall|x: (nat, Seq<Seq<char>>)| e.contains(x) ==> #[trigger] e2.contains(x)
}

proof fn lemma_node_rows_mono(
    nodes: Seq<NodeView>,
    e: Seq<(nat, Seq<Seq<char>>)>,
    e2: Seq<(nat, Seq<Seq<char>>)>,
    root: nat,
    i: int,
    path: Seq<Seq<char>>,
    key: (nat, Seq<Seq<char>>),
)
    requires
        covers(e, e2),
        has_row(node_rows(nodes, e, root, i, path), key),
    ensures
        has_row(node_rows(nodes, e2, root, i, path), key),
    decreases nodes.len() - i, nodes[i].children.len() + 1,
{
    if 0 <= i < nodes.len() {
        let rows = node_rows(nodes, e, root, i, path);
        let rows2 = node_rows(nodes, e2, root, i, path);
        let j = choose|j: int| 0 <= j < rows.len() && row_key(#[trigger] rows[j]) == key;
        if j == 0 {
            assert(row_key(rows2[0]) == key);
        } else {
            let n = nodes[i].children.len() as int;
            let kids = children_rows(nodes, e, root, i, path, n);
            assert(!nodes[i].is_wav && e.contains((root, path)));
            assert(e2.contains((root, path)));
            assert(rows[j] == kids[j - 1]);
            assert(has_row(kids, key));
            lemma_children_rows_mono(nodes, e, e2, root, i, path, n, key);
            let kids2 = children_rows(nodes, e2, root, i, path, n);
            let j2 = choose|j2: int| 0 <= j2 < kids2.len() && row_key(#[trigger] kids2[j2]) == key;
            assert(rows2[j2 + 1] == kids2[j2]);
        }
    }
}

proof fn lemma_children_rows_mono(
    nodes: Seq<NodeView>,
    e: Seq<(nat, Seq<Seq<char>>)>,
    e2: Seq<(nat, Seq<Seq<char>>)>,
    root: nat,
    i: int,
    path: Seq<Seq<char>>,
    k: int,
    key: (nat, Seq<Seq<char>>),
)
    requires
        covers(e, e2),
        has_row(children_rows(nodes, e, root, i, path, k), key),
    ensures
        has_row(children_rows(nodes, e2, root, i, path, k), key),
    decreases nodes.len() - i, k,
{
    if 0 <= i < nodes.len() && 0 < k <= nodes[i].children.len() {
        let rows = children_rows(nodes, e, root, i, path, k);
        let rows2 = children_rows(nodes, e2, root, i, path, k);
        let a = children_rows(nodes, e, root, i, path, k - 1);
        let a2 = children_rows(nodes, e2, root, i, path, k - 1);
        let c = nodes[i].children[k - 1] as int;
        let j = choose|j: int| 0 <= j < rows.len() && row_key(#[trigger] rows[j]) == key;
        if j < a.len() {
            assert(rows[j] == a[j]);
            assert(has_row(a, key));
            lemma_children_rows_mono(nodes, e, e2, root, i, path, k - 1, key);
            let j2 = choose|j2: int| 0 <= j2 < a2.len() && row_key(#[trigger] a2[j2]) == key;
            assert(rows2[j2] == a2[j2]);
        } else {
            assert(i < c < nodes.len());
            let b = node_rows(nodes, e, root, c, path.push(nodes[c].name));
            let b2 = node_rows(nodes, e2, root, c, path.push(nodes[c].name));
            assert(rows[j] == b[j - a.len()]);
            assert(has_row(b, key));
            lemma_node_rows_mono(nodes, e, e2, root, c, path.push(nodes[c].name), key);
            let j2 = choose|j2: int| 0 <= j2 < b2.len() && row_key(#[trigger] b2[j2]) == key;
            assert(rows2[a2.len() + j2] == b2[j2]);
        }
    }
}

proof fn lemma_all_rows_mono(
    roots: Seq<(Seq<char>, Seq<NodeView>)>,
    e: Seq<(nat, Seq<Seq<char>>)>,
    e2: Seq<(nat, Seq<Seq<char>>)>,
    r: int,
    key: (nat, Seq<Seq<char>>),
)
    requires
        covers(e, e2),
        has_row(all_rows(roots, e, r), key),
    ensures
        has_row(all_rows(roots, e2, r), key),
    decreases r,
{
    if r > 0 {
        let rows = all_rows(roots, e, r);
        let rows2 = all_rows(roots, e2, r);
        let a = all_rows(roots, e, r - 1);
        let a2 = all_rows(roots, e2, r - 1);
        let j = choose|j: int| 0 <= j < rows.len() && row_key(#[trigger] rows[j]) == key;
        if j < a.len() {
            assert(rows[j] == a[j]);
            assert(has_row(a, key));
            lemma_all_rows_mono(roots, e, e2, r - 1, key);
            let j2 = choose|j2: int| 0 <= j2 < a2.len() && row_key(#[trigger] a2[j2]) == key;
            assert(rows2[j2] == a2[j2]);
        } else {
            let b = node_rows(roots[r - 1].1, e, (r - 1) as nat, 0, Seq::empty());
            let b2 = node_rows(roots[r - 1].1, e2, (r - 1) as nat, 0, Seq::empty());
            assert(rows[j] == b[j - a.len()]);
            assert(has_row(b, key));
            lemma_node_rows_mono(roots[r - 1].1, e, e2, (r - 1) as nat, 0, Seq::empty(), key);
            let j2 = choose|j2: int| 0 <= j2 < b2.len() && row_key(#[trigger] b2[j2]) == key;
            assert(rows2[a2.len() + j2] == b2[j2]);
        }
    }
}

proof fn lemma_first_row_exists(rows: Seq<RowView>, key: (nat, Seq<Seq<char>>), j: int)
    requires
        0 <= j < rows.len(),
        row_key(rows[j]) == key,
    ensures
        0 <= row_position(rows, key) < rows.len(),
        row_key(rows[row_position(rows, key)]) == key,
    decreases j,
{
    if exists|j2: int| 0 <= j2 < j && row_key(#[trigger] rows[j2]) == key {
        let j2 = choose|j2: int| 0 <= j2 < j && row_key(#[trigger] rows[j2]) == key;
        lemma_first_row_exists(rows, key, j2);
    } else {
        assert forall|m: int| 0 <= m < j implies (#[trigger] rows[m].root, rows[m].components) != key by {
            if (rows[m].root, rows[m].components) == key {
                assert(row_key(rows[m]) == key);
            }
        }
        assert(is_first_row(rows, key, j));
    }
}

/// Expanding a folder keeps the cursor on that folder's row: the rows shown
/// before stay shown, and the folder's children appear.
pub proof fn expanding_keeps_the_folder_selected(t: TreeView)
    requires
        t.visible == all_rows(t.roots, t.expanded, t.roots.len() as int),
        t.cursor < t.visible.len(),
        !t.visible[t.cursor as int].is_wav,
        !t.expanded.contains(row_key(t.visible[t.cursor as int])),
    ensures
        ({
            let key = row_key(t.visible[t.cursor as int]);
            let t1 = spec_expand_or_play(t).0;
            &&& t1.expanded == t.expanded.push(key)
            &&& t1.visible == all_rows(t.roots, t1.expanded, t.roots.len() as int)
            &&& t1.cursor < t1.visible.len()
            &&& row_key(t1.visible[t1.cursor as int]) == key
        }),
{
    let key = row_key(t.visible[t.cursor as int]);
    let e2 = t.expanded.push(key);
    assert forall|x: (nat, Seq<Seq<char>>)| t.expanded.contains(x) implies #[trigger] e2.contains(x) by {
        let j = choose|j: int| 0 <= j < t.expanded.len() && t.expanded[j] == x;
        assert(e2[j] == x);
    }
    let n = t.roots.len() as int;
    assert(has_row(t.visible, key)) by {
        assert(row_key(t.visible[t.cursor as int]) == key);
    }
    lemma_all_rows_mono(t.roots, t.expanded, e2, n, key);
    let rows = all_rows(t.roots, e2, n);
    let j = choose|j: int| 0 <= j < rows.len() && row_key(#[trigger] rows[j]) == key;
    lemma_first_row_exists(rows, key, j);
}

/// `keys` after expanding, one after another, the first `d` proper prefixes of
/// `components` below root `root` (each only once).
pub open spec fn with_prefix_keys(
    keys: Seq<(nat, Seq<Seq<char>>)>,
    root: nat,
    components: Seq<Seq<char>>,
    d: int,
) -> Seq<(nat, Seq<Seq<char>>)>
    decreases d,
{
    if d <= 0 {
        keys
    } else {
        let before = with_prefix_keys(keys, root, components, d - 1);
        let key = (root, components.subrange(0, d - 1));
        if before.contains(key) {
            before
        } else {
            before.push(key)
        }
    }
}

/// The first root with path `path`, or -1.
pub open spec fn root_position(roots: Seq<(Seq<char>, Seq<NodeView>)>, path: Seq<char>) -> int {
    if exists|r: int| 0 <= r < roots.len() && roots[r].0 == path && forall|q: int| 0 <= q < r ==> #[trigger] roots[q].0 != path {
        choose|r: int| 0 <= r < roots.len() && roots[r].0 == path && forall|q: int| 0 <= q < r ==> #[trigger] roots[q].0 != path
    } else {
        -1
    }
}

/// Shows the WAV `relative` of the root `root`: the folders above it are
/// expanded and the cursor goes to its row (nothing happens when no root has
/// that path).
pub open spec fn spec_reveal_wav(t: TreeView, root: Seq<char>, relative: Seq<char>) -> TreeView {
    let r = root_position(t.roots, root);
    if r < 0 {
        t
    } else {
        let components = path_components(relative);
        spec_rebuild_visible(
            TreeView { expanded: with_prefix_keys(t.expanded, r as nat, components, components.len() as int), ..t },
            Some((r as nat, components)),
        )
    }
}

impl LoopTree {
    /// The first root with path `path`.
    fn find_root(&self, path: &str) -> (found: Option<usize>)
        ensures
            match found {
                Some(r) => root_position(self@.roots, path@) == r,
                None => root_position(self@.roots, path@) == -1,
            },
    {
        let ghost rv = self@.roots;
        let mut r: usize = 0;
        while r < self.roots.len()
            invariant
                rv == self@.roots,
                r <= self.roots@.len(),
                forall|q: int| 0 <= q < r ==> #[trigger] rv[q].0 != path@,
            decreases self.roots@.len() - r,
        {
            if same_text(self.roots[r].path.as_str(), path) {
                proof {
                    assert(rv[r as int].0 == path@);
                    let w = choose|w: int| 0 <= w < rv.len() && rv[w].0 == path@ && forall|q: int| 0 <= q < w ==> #[trigger] rv[q].0 != path@;
                    if w < r {
                        assert(rv[w].0 != path@);
                    } else if r < w {
                        assert(rv[r as int].0 != path@);
                    }
                }
                return Some(r);
            }
            r = r + 1;
        }
        proof {
            if exists|w: int| 0 <= w < rv.len() && rv[w].0 == path@ && forall|q: int| 0 <= q < w ==> #[trigger] rv[q].0 != path@ {
                let w = choose|w: int| 0 <= w < rv.len() && rv[w].0 == path@ && forall|q: int| 0 <= q < w ==> #[trigger] rv[q].0 != path@;
                assert(rv[w].0 != path@);
            }
        }
        None
    }

    /// Shows the WAV `wav`: the folders above it are expanded and the cursor
    /// goes to its row.
    pub fn reveal_wav(&mut self, wav: &LoopWavId)
        requires
            forest_wf(old(self)@.roots),
        ensures
            final(self)@ == spec_reveal_wav(old(self)@, wav.root@, wav.relative@),
            revealable(old(self)@, wav.root@, wav.relative@) ==> ({
                let r = root_position(old(self)@.roots, wav.root@);
                let p = path_components(wav.relative@);
                &&& final(self)@.cursor < final(self)@.visible.len()
                &&& row_key(final(self)@.visible[final(self)@.cursor as int]) == (r as nat, p)
                &&& forall|d: int| 0 <= d < p.len() ==> final(self)@.expanded.contains((r as nat, #[trigger] p.subrange(0, d)))
            }),
    {
        proof {
            if revealable(self@, wav.root@, wav.relative@) {
                revealed_wav_is_selected(self@, wav.root@, wav.relative@);
            }
        }
        let root = match self.find_root(wav.root.as_str()) {
            Some(r) => r,
            None => return,
        };
        let components = components_of(wav.relative.as_str());
        let ghost comps = path_components(wav.relative@);
        proof {
            assert(strings_view(components@) =~= components@.map_values(|c: String| c@));
        }
        let ghost start = self@;
        let mut depth: usize = 0;
        while depth < components.len()
            invariant
                comps == strings_view(components@),
                depth <= components@.len(),
                root < self.roots@.len(),
                self@ == (TreeView { expanded: with_prefix_keys(start.expanded, root as nat, comps, depth as int), ..start }),
            decreases components@.len() - depth,
        {
            let mut prefix: Vec<String> = Vec::new();
            let mut j: usize = 0;
            while j < depth
                invariant
                    j <= depth,
                    depth <= components@.len(),
                    strings_view(prefix@) == strings_view(components@).subrange(0, j as int),
                decreases depth - j,
            {
                let ghost before = prefix@;
                prefix.push(copy_string(&components[j]));
                proof {
                    assert(strings_view(prefix@) =~= strings_view(before).push(components@[j as int]@));
                    assert(strings_view(components@).subrange(0, j + 1) =~= strings_view(components@).subrange(0, j as int).push(components@[j as int]@));
                }
                j = j + 1;
            }
            let key = NodeKey { root, components: prefix };
            if !self.contains_expanded(&key) {
                let ghost before = self@;
                self.expanded.push(key);
                proof {
                    assert(self@.expanded =~= before.expanded.push((root as nat, comps.subrange(0, depth as int))));
                }
            }
            depth = depth + 1;
        }
        let selected = NodeKey { root, components };
        self.rebuild_visible(Some(&selected));
    }
}

proof fn lemma_child_rows_inside(
    nodes: Seq<NodeView>,
    e: Seq<(nat, Seq<Seq<char>>)>,
    root: nat,
    i: int,
    path: Seq<Seq<char>>,
    k: int,
    m: int,
    key: (nat, Seq<Seq<char>>),
)
    requires
        tree_wf(nodes),
        0 <= i < nodes.len(),
        0 <= k < m <= nodes[i].children.len(),
        has_row(
            node_rows(
                nodes,
                e,
                root,
                nodes[i].children[k] as int,
                path.push(nodes[nodes[i].children[k] as int].name),
            ),
            key,
        ),
    ensures
        has_row(children_rows(nodes, e, root, i, path, m), key),
    decreases m,
{
    let rows = children_rows(nodes, e, root, i, path, m);
    let a = children_rows(nodes, e, root, i, path, m - 1);
    if m - 1 == k {
        let c = nodes[i].children[k] as int;
        assert(i < c < nodes.len());
        let b = node_rows(nodes, e, root, c, path.push(nodes[c].name));
        let j = choose|j: int| 0 <= j < b.len() && row_key(#[trigger] b[j]) == key;
        assert(rows[a.len() + j] == b[j]);
    } else {
        lemma_child_rows_inside(nodes, e, root, i, path, k, m - 1, key);
        let j = choose|j: int| 0 <= j < a.len() && row_key(#[trigger] a[j]) == key;
        assert(rows[j] == a[j]);
    }
}

proof fn lemma_reach_step(nodes: Seq<NodeView>, i: int, p: Seq<Seq<char>>, d: int, c: int)
    requires
        tree_wf(nodes),
        0 < d <= p.len(),
        is_child_named(nodes, i, p[0], c),
    ensures
        reach(nodes, i, p.subrange(0, d)) == reach(nodes, c, p.drop_first().subrange(0, d - 1)),
{
    let q = p.subrange(0, d);
    assert(q[0] == p[0]);
    assert(q.drop_first() =~= p.drop_first().subrange(0, d - 1));
    let c2 = choose|c2: int| is_child_named(nodes, i, q[0], c2);
    lemma_child_unique(nodes, i, p[0], c, c2);
}

/// A node whose folders above are all expanded has a row.
proof fn lemma_path_row(
    nodes: Seq<NodeView>,
    e: Seq<(nat, Seq<Seq<char>>)>,
    root: nat,
    i: int,
    path: Seq<Seq<char>>,
    p: Seq<Seq<char>>,
)
    requires
        tree_wf(nodes),
        0 <= i < nodes.len(),
        reach(nodes, i, p) is Some,
        forall|d: int|
            0 <= d < p.len() ==> e.contains((root, path + #[trigger] p.subrange(0, d))) && !nodes[reach(
                nodes,
                i,
                p.subrange(0, d),
            )->0].is_wav,
    ensures
        has_row(node_rows(nodes, e, root, i, path), (root, path + p)),
    decreases p.len(),
{
    let rows = node_rows(nodes, e, root, i, path);
    if p.len() == 0 {
        assert(path + p =~= path);
        assert(row_key(rows[0]) == (root, path + p));
    } else {
        assert(p.subrange(0, 0) =~= Seq::<Seq<char>>::empty());
        assert(path + p.subrange(0, 0) =~= path);
        assert(e.contains((root, path)));
        assert(!nodes[i].is_wav);
        let c = choose|c: int| is_child_named(nodes, i, p[0], c);
        let k = choose|k: int| 0 <= k < nodes[i].children.len() && nodes[i].children[k] == c;
        let rest = p.drop_first();
        let path2 = path.push(p[0]);
        assert forall|d: int| 0 <= d < rest.len() implies e.contains((root, path2 + #[trigger] rest.subrange(0, d)))
            && !nodes[reach(nodes, c, rest.subrange(0, d))->0].is_wav by {
            assert(path2 + rest.subrange(0, d) =~= path + p.subrange(0, d + 1));
            lemma_reach_step(nodes, i, p, d + 1, c);
        }
        assert(reach(nodes, i, p) == reach(nodes, c, rest));
        lemma_path_row(nodes, e, root, c, path2, rest);
        assert(path2 + rest =~= path + p);
        assert(nodes[c].name == p[0]);
        let n = nodes[i].children.len() as int;
        lemma_child_rows_inside(nodes, e, root, i, path, k, n, (root, path + p));
        let kids = children_rows(nodes, e, root, i, path, n);
        let j = choose|j: int| 0 <= j < kids.len() && row_key(#[trigger] kids[j]) == (root, path + p);
        assert(rows[j + 1] == kids[j]);
    }
}

proof fn lemma_all_rows_has(
    roots: Seq<(Seq<char>, Seq<NodeView>)>,
    e: Seq<(nat, Seq<Seq<char>>)>,
    r0: int,
    n: int,
    key: (nat, Seq<Seq<char>>),
)
    requires
        0 <= r0 < n <= roots.len(),
        has_row(node_rows(roots[r0].1, e, r0 as nat, 0, Seq::empty()), key),
    ensures
        has_row(all_rows(roots, e, n), key),
    decreases n,
{
    let rows = all_rows(roots, e, n);
    let a = all_rows(roots, e, n - 1);
    if n - 1 == r0 {
        let b = node_rows(roots[r0].1, e, r0 as nat, 0, Seq::empty());
        let j = choose|j: int| 0 <= j < b.len() && row_key(#[trigger] b[j]) == key;
        assert(rows[a.len() + j] == b[j]);
    } else {
        lemma_all_rows_has(roots, e, r0, n - 1, key);
        let j = choose|j: int| 0 <= j < a.len() && row_key(#[trigger] a[j]) == key;
        assert(rows[j] == a[j]);
    }
}

proof fn lemma_prefix_keys(keys: Seq<(nat, Seq<Seq<char>>)>, root: nat, components: Seq<Seq<char>>, big: int, d: int)
    requires
        0 <= d < big,
    ensures
        with_prefix_keys(keys, root, components, big).contains((root, components.subrange(0, d))),
    decreases big,
{
    let prev = with_prefix_keys(keys, root, components, big - 1);
    let now = with_prefix_keys(keys, root, components, big);
    if d == big - 1 {
        if !prev.contains((root, components.subrange(0, d))) {
            assert(now[now.len() - 1] == (root, components.subrange(0, d)));
        }
    } else {
        lemma_prefix_keys(keys, root, components, big - 1, d);
        if !prev.contains((root, components.subrange(0, big - 1))) {
            let j = choose|j: int| 0 <= j < prev.len() && prev[j] == (root, components.subrange(0, d));
            assert(now[j] == prev[j]);
        }
    }
}

/// The WAV `relative` of the root `root` is in the tree, below folders only
/// (a name first indexed as a WAV cannot hold rows).
pub open spec fn revealable(t: TreeView, root: Seq<char>, relative: Seq<char>) -> bool {
    &&& root_position(t.roots, root) >= 0
    &&& ({
        let r = root_position(t.roots, root);
        let nodes = t.roots[r].1;
        let p = path_components(relative);
        &&& reach(nodes, 0, p) is Some
        &&& forall|d: int| 0 <= d < p.len() ==> !nodes[reach(nodes, 0, #[trigger] p.subrange(0, d))->0].is_wav
    })
}

/// Revealing an indexed WAV expands the folders above it and puts the cursor
/// on its row.
pub proof fn revealed_wav_is_selected(t: TreeView, root: Seq<char>, relative: Seq<char>)
    requires
        forest_wf(t.roots),
        revealable(t, root, relative),
    ensures
        ({
            let t1 = spec_reveal_wav(t, root, relative);
            let r = root_position(t.roots, root);
            let p = path_components(relative);
            &&& t1.cursor < t1.visible.len()
            &&& row_key(t1.visible[t1.cursor as int]) == (r as nat, p)
            &&& forall|d: int| 0 <= d < p.len() ==> t1.expanded.contains((r as nat, #[trigger] p.subrange(0, d)))
        }),
{
    let r = root_position(t.roots, root);
    let w = choose|w: int| 0 <= w < t.roots.len() && t.roots[w].0 == root && forall|q: int| 0 <= q < w ==> #[trigger] t.roots[q].0 != root;
    assert(r == w);
    let nodes = t.roots[r].1;
    let p = path_components(relative);
    let e = with_prefix_keys(t.expanded, r as nat, p, p.len() as int);
    assert(tree_wf(nodes));
    assert forall|d: int| 0 <= d < p.len() implies e.contains((r as nat, Seq::<Seq<char>>::empty() + #[trigger] p.subrange(0, d)))
        && !nodes[reach(nodes, 0, p.subrange(0, d))->0].is_wav by {
        assert(Seq::<Seq<char>>::empty() + p.subrange(0, d) =~= p.subrange(0, d));
        lemma_prefix_keys(t.expanded, r as nat, p, p.len() as int, d);
    }
    assert forall|d: int| 0 <= d < p.len() implies e.contains((r as nat, #[trigger] p.subrange(0, d))) by {
        lemma_prefix_keys(t.expanded, r as nat, p, p.len() as int, d);
    }
    lemma_path_row(nodes, e, r as nat, 0, Seq::empty(), p);
    assert(Seq::<Seq<char>>::empty() + p =~= p);
    lemma_all_rows_has(t.roots, e, r, t.roots.len() as int, (r as nat, p));
    let rows = all_rows(t.roots, e, t.roots.len() as int);
    let j = choose|j: int| 0 <= j < rows.len() && row_key(#[trigger] rows[j]) == (r as nat, p);
    lemma_first_row_exists(rows, (r as nat, p), j);
}

/// In a tree built from the index, a node below a root that no shorter
/// non-empty prefix of an indexed path reaches is a WAV, carrying the
/// analysis of an indexed file whose whole path reaches it.
pub proof fn indexed_wav_is_a_wav(t: TreeView, index_roots: Seq<LoopRootIndex>, r: int, n: int)
    requires
        built_from(t, index_roots),
        0 <= r < index_roots.len(),
        0 < n < t.roots[r].1.len(),
        forall|v: int, d: int|
            0 <= v < index_roots[r].wav_files@.len() && 1 <= d < path_components(
                index_roots[r].wav_files@[v].relative@,
            ).len() ==> #[trigger] reach(
                t.roots[r].1,
                0,
                path_components(index_roots[r].wav_files@[v].relative@).subrange(0, d),
            ) != Some(n),
    ensures
        t.roots[r].1[n].is_wav,
        exists|v: int|
            0 <= v < index_roots[r].wav_files@.len() && #[trigger] reach(
                t.roots[r].1,
                0,
                path_components(index_roots[r].wav_files@[v].relative@),
            ) == Some(n) && t.roots[r].1[n].analysis == Some(index_roots[r].wav_files@[v].analysis),
{
    let nodes = t.roots[r].1;
    let files = index_roots[r].wav_files@;
    assert(made_from_index(nodes, files, files.len() as int, n));
    let v = choose|v: int|
        0 <= v < files.len() && #[trigger] made_by(nodes, path_components(files[v].relative@), files[v].analysis, n);
    let p = path_components(files[v].relative@);
    let d = choose|d: int|
        1 <= d <= p.len() && #[trigger] reach(nodes, 0, p.subrange(0, d)) == Some(n) && made_as(
            nodes,
            p,
            files[v].analysis,
            d,
            n,
        );
    assert(d == p.len());
    assert(p.subrange(0, d) =~= p);
}

} // verus!
