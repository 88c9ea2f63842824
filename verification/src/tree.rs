//! The file tree that the UI shows of a download directory: directories and
//! the text and JSON files in them, directories first, each group by name.

use vstd::prelude::*;
use crate::order::{lemma_lex_irreflexive, lemma_lex_total, lemma_lex_transitive};
use crate::text::{chars_between, chars_equal, chars_lex_less, lex_less, to_chars};

verus! {

/// A file or a directory, with what lies below it.
#[derive(Debug)]
pub struct FileNode {
    pub name: String,
    /// The path from the root of the tree.
    pub path: String,
    pub is_dir: bool,
    pub children: Vec<FileNode>,
}

pub struct FileNodeView {
    pub name: Seq<char>,
    pub path: Seq<char>,
    pub is_dir: bool,
    pub children: Seq<FileNodeView>,
}

/// The node that a `FileNode` stands for.
pub open spec fn node_view(node: FileNode) -> FileNodeView
    decreases node,
{
    FileNodeView {
        name: node.name@,
        path: node.path@,
        is_dir: node.is_dir,
        children: Seq::new(
            node.children.len() as nat,
            |i: int|
                if 0 <= i < node.children.len() {
                    node_view(node.children[i])
                } else {
                    arbitrary()
                },
        ),
    }
}

impl DeepView for FileNode {
    type V = FileNodeView;

    open spec fn deep_view(&self) -> FileNodeView {
        node_view(*self)
    }
}

/// Where the last `.` of a name stands.
pub open spec fn last_dot(name: Seq<char>) -> Option<int>
    decreases name.len(),
{
    if name.len() == 0 {
        None
    } else if name.last() == '.' {
        Some(name.len() - 1)
    } else {
        last_dot(name.drop_last())
    }
}

/// The extension of a file name: what follows its last `.`, unless the name
/// has none, or has only the one it begins with, or is `..`.
pub open spec fn extension(name: Seq<char>) -> Option<Seq<char>> {
    if name == ".."@ {
        None
    } else {
        match last_dot(name) {
            Some(at) => if at == 0 {
                None
            } else {
                Some(name.skip(at + 1))
            },
            None => None,
        }
    }
}

/// Whether an entry is shown: every directory, and the files that end in
/// `.txt` or `.json`.
pub open spec fn shown(name: Seq<char>, is_dir: bool) -> bool {
    is_dir || extension(name) == Some("txt"@) || extension(name) == Some("json"@)
}

/// Whether `a` comes before `b`: a directory before a file, and among two of
/// a kind the one whose name is less.
pub open spec fn comes_before(a: FileNodeView, b: FileNodeView) -> bool {
    if a.is_dir == b.is_dir {
        lex_less(a.name, b.name)
    } else {
        a.is_dir
    }
}

/// The ordered list `nodes` with `x` put in: behind everything that does not
/// come after it.
pub open spec fn place(nodes: Seq<FileNodeView>, x: FileNodeView) -> Seq<FileNodeView>
    decreases nodes.len(),
{
    if nodes.len() == 0 {
        seq![x]
    } else if comes_before(x, nodes.last()) {
        place(nodes.drop_last(), x).push(nodes.last())
    } else {
        nodes.push(x)
    }
}

/// A file has nothing below it; a directory has its arranged entries.
pub open spec fn arranged_node(node: FileNodeView) -> FileNodeView
    decreases node, 0nat,
{
    FileNodeView {
        name: node.name,
        path: node.path,
        is_dir: node.is_dir,
        children: if node.is_dir {
            arranged_upto(node.children, node.children.len())
        } else {
            Seq::empty()
        },
    }
}

/// The first `count` entries of a directory, arranged: those that are shown,
/// in order, each with what lies below it arranged in the same way.
pub open spec fn arranged_upto(entries: Seq<FileNodeView>, count: nat) -> Seq<FileNodeView>
    decreases entries, 1nat, count,
{
    if count == 0 || count > entries.len() {
        Seq::empty()
    } else {
        let earlier = arranged_upto(entries, (count - 1) as nat);
        let entry = entries[count - 1];
        if shown(entry.name, entry.is_dir) {
            place(earlier, arranged_node(entry))
        } else {
            earlier
        }
    }
}

/// The tree of a directory's entries.
pub open spec fn arranged(entries: Seq<FileNodeView>) -> Seq<FileNodeView> {
    arranged_upto(entries, entries.len())
}
/// The children of a node, as the view holds them.
pub proof fn lemma_children_view(node: FileNode)
    ensures
        node.deep_view().children == node.children.deep_view(),
        node.deep_view().name == node.name@,
        node.deep_view().path == node.path@,
        node.deep_view().is_dir == node.is_dir,
{
    assert(node.deep_view().children =~= node.children.deep_view());
}

/// Whether an entry is shown.
pub fn shows(name: &str, is_dir: bool) -> (r: bool)
    ensures
        r == shown(name@, is_dir),
{
    if is_dir {
        return true;
    }
    let chars = to_chars(name);
    let parent = to_chars("..");
    if chars_equal(&chars, &parent) {
        return false;
    }
    let mut end: usize = chars.len();
    proof {
        assert(chars@.take(end as int) =~= chars@);
    }
    while end > 0 && chars[end - 1] != '.'
        invariant
            end <= chars.len(),
            last_dot(chars@) == last_dot(chars@.take(end as int)),
        decreases end,
    {
        proof {
            assert(chars@.take(end as int).drop_last() =~= chars@.take(end - 1));
        }
        end -= 1;
    }
    if end <= 1 {
        return false;
    }
    let found = chars_between(&chars, end, chars.len());
    proof {
        assert(found@ =~= chars@.skip(end as int));
    }
    chars_equal(&found, &to_chars("txt")) || chars_equal(&found, &to_chars("json"))
}

/// Whether `a` comes before `b`.
pub fn node_before(a: &FileNode, b: &FileNode) -> (r: bool)
    ensures
        r == comes_before(a.deep_view(), b.deep_view()),
{
    if a.is_dir == b.is_dir {
        chars_lex_less(&to_chars(a.name.as_str()), &to_chars(b.name.as_str()))
    } else {
        a.is_dir
    }
}

/// Puts `x` into the ordered list.
pub fn place_node(nodes: &mut Vec<FileNode>, x: FileNode)
    ensures
        final(nodes).deep_view() == place(old(nodes).deep_view(), x.deep_view()),
{
    let ghost s = nodes.deep_view();
    let ghost entry = x.deep_view();
    let mut i: usize = nodes.len();
    proof {
        assert(s.take(i as int) =~= s);
        assert(place(s, entry) + s.skip(i as int) =~= place(s, entry));
    }
    while i > 0 && node_before(&x, &nodes[i - 1])
        invariant
            i <= nodes.len(),
            s == nodes.deep_view(),
            *nodes == *old(nodes),
            entry == x.deep_view(),
            place(s, entry) == place(s.take(i as int), entry) + s.skip(i as int),
        decreases i,
    {
        proof {
            assert(s.take(i as int).last() == nodes@[i - 1].deep_view());
            assert(s.take(i as int).drop_last() =~= s.take(i - 1));
            assert(place(s.take(i - 1), entry).push(s[i - 1]) + s.skip(i as int) =~= place(
                s.take(i - 1),
                entry,
            ) + s.skip(i - 1));
        }
        i -= 1;
    }
    proof {
        if i > 0 {
            assert(s.take(i as int).last() == nodes@[i - 1].deep_view());
            assert(s.take(i as int).push(entry) + s.skip(i as int) =~= s.insert(i as int, entry));
        } else {
            assert(s.take(0) =~= Seq::<FileNodeView>::empty());
            assert(seq![entry] + s.skip(0) =~= s.insert(0, entry));
        }
    }
    nodes.insert(i, x);
    proof {
        assert(nodes.deep_view() =~= s.insert(i as int, entry));
    }
}

/// Arranges the entries of a directory as the UI shows them: the entries
/// that are shown, directories first and each group by name, and below each
/// directory its own entries arranged in the same way.
pub fn get_file_tree(entries: &Vec<FileNode>) -> (r: Vec<FileNode>)
    ensures
        r.deep_view() == arranged(entries.deep_view()),
    decreases entries,
{
    let ghost all = entries.deep_view();
    let mut out: Vec<FileNode> = Vec::new();
    let mut i: usize = 0;
    proof {
        assert(out.deep_view() =~= Seq::<FileNodeView>::empty());
    }
    while i < entries.len()
        invariant
            i <= entries.len(),
            all == entries.deep_view(),
            out.deep_view() == arranged_upto(all, i as nat),
        decreases entries.len() - i,
    {
        let entry = &entries[i];
        proof {
            lemma_children_view(*entry);
            assert(all[i as int] == entry.deep_view());
        }
        if shows(entry.name.as_str(), entry.is_dir) {
            let children = if entry.is_dir {
                get_file_tree(&entry.children)
            } else {
                Vec::new()
            };
            let node = FileNode {
                name: entry.name.clone(),
                path: entry.path.clone(),
                is_dir: entry.is_dir,
                children,
            };
            proof {
                lemma_children_view(node);
                assert(node.children.deep_view() =~= arranged_node(all[i as int]).children);
            }
            place_node(&mut out, node);
        }
        i += 1;
    }
    out
}
/// Whether no node stands behind one that it comes before.
pub open spec fn in_order(nodes: Seq<FileNodeView>) -> bool {
    forall|i: int, j: int| 0 <= i < j < nodes.len() ==> !comes_before(nodes[j], nodes[i])
}

/// A node does not come before itself, nor two nodes before each other.
pub proof fn lemma_before_asymmetric(a: FileNodeView, b: FileNodeView)
    requires
        comes_before(a, b),
    ensures
        !comes_before(b, a),
{
    if a.is_dir == b.is_dir && lex_less(b.name, a.name) {
        lemma_lex_transitive(a.name, b.name, a.name);
        lemma_lex_irreflexive(a.name);
    }
}

/// Where `c` does not come before `b` and `b` not before `a`, `c` does not come before `a`.
pub proof fn lemma_not_before_transitive(a: FileNodeView, b: FileNodeView, c: FileNodeView)
    requires
        !comes_before(c, b),
        !comes_before(b, a),
    ensures
        !comes_before(c, a),
{
    if comes_before(c, a) {
        if c.is_dir == a.is_dir {
            lemma_lex_total(c.name, b.name);
            lemma_lex_total(b.name, a.name);
            if lex_less(b.name, c.name) && lex_less(a.name, b.name) {
                lemma_lex_transitive(a.name, b.name, c.name);
                lemma_lex_transitive(a.name, c.name, a.name);
                lemma_lex_irreflexive(a.name);
            } else if lex_less(b.name, c.name) {
                assert(a.name == b.name);
                lemma_lex_transitive(b.name, c.name, a.name);
                lemma_lex_irreflexive(b.name);
            } else if lex_less(a.name, b.name) {
                assert(b.name == c.name);
                lemma_lex_transitive(a.name, b.name, a.name);
                lemma_lex_irreflexive(a.name);
            } else {
                lemma_lex_irreflexive(a.name);
            }
        }
    }
}

/// Placing a node adds that node and no other, and keeps the order.
pub proof fn lemma_place(nodes: Seq<FileNodeView>, x: FileNodeView)
    ensures
        place(nodes, x).len() == nodes.len() + 1,
        forall|k: int|
            0 <= k < place(nodes, x).len() ==> #[trigger] place(nodes, x)[k] == x
                || nodes.contains(place(nodes, x)[k]),
        place(nodes, x).contains(x),
        forall|k: int| 0 <= k < nodes.len() ==> place(nodes, x).contains(#[trigger] nodes[k]),
        in_order(nodes) ==> in_order(place(nodes, x)),
    decreases nodes.len(),
{
    let placed = place(nodes, x);
    if nodes.len() == 0 {
        assert(placed[0] == x);
    } else if comes_before(x, nodes.last()) {
        let front = nodes.drop_last();
        let inner = place(front, x);
        lemma_place(front, x);
        assert forall|k: int| 0 <= k < placed.len() implies #[trigger] placed[k] == x
            || nodes.contains(placed[k]) by {
            if k < inner.len() {
                if inner[k] != x {
                    let m = choose|m: int| 0 <= m < front.len() && front[m] == inner[k];
                    assert(nodes[m] == placed[k]);
                }
            } else {
                assert(nodes[nodes.len() - 1] == placed[k]);
            }
        }
        assert(placed.contains(x)) by {
            let m = choose|m: int| 0 <= m < inner.len() && inner[m] == x;
            assert(placed[m] == x);
        }
        assert forall|k: int| 0 <= k < nodes.len() implies placed.contains(
            #[trigger] nodes[k],
        ) by {
            if k < front.len() {
                assert(front[k] == nodes[k]);
                assert(inner.contains(front[k]));
                let m = choose|m: int| 0 <= m < inner.len() && inner[m] == front[k];
                assert(placed[m] == nodes[k]);
            } else {
                assert(placed[placed.len() - 1] == nodes[k]);
            }
        }
        if in_order(nodes) {
            assert(in_order(front)) by {
                assert forall|i: int, j: int| 0 <= i < j < front.len() implies !comes_before(
                    front[j],
                    front[i],
                ) by {
                    assert(!comes_before(nodes[j], nodes[i]));
                }
            }
            assert forall|i: int, j: int| 0 <= i < j < placed.len() implies !comes_before(
                placed[j],
                placed[i],
            ) by {
                if j < inner.len() {
                    assert(!comes_before(inner[j], inner[i]));
                } else if inner[i] == x {
                    lemma_before_asymmetric(x, nodes.last());
                } else {
                    let m = choose|m: int| 0 <= m < front.len() && front[m] == inner[i];
                    assert(!comes_before(nodes[nodes.len() - 1], nodes[m]));
                }
            }
        }
    } else {
        assert forall|k: int| 0 <= k < placed.len() implies #[trigger] placed[k] == x
            || nodes.contains(placed[k]) by {
            if k < nodes.len() {
                assert(nodes[k] == placed[k]);
            }
        }
        assert(placed[nodes.len() as int] == x);
        assert forall|k: int| 0 <= k < nodes.len() implies placed.contains(
            #[trigger] nodes[k],
        ) by {
            assert(placed[k] == nodes[k]);
        }
        if in_order(nodes) {
            assert forall|i: int, j: int| 0 <= i < j < placed.len() implies !comes_before(
                placed[j],
                placed[i],
            ) by {
                if j < nodes.len() {
                    assert(!comes_before(nodes[j], nodes[i]));
                } else if i < nodes.len() - 1 {
                    assert(!comes_before(nodes[nodes.len() - 1], nodes[i]));
                    lemma_not_before_transitive(nodes[i], nodes.last(), x);
                }
            }
        }
    }
}

/// The shape of a tree. On each level stand exactly the entries that are
/// shown, each once for each time it was found, directories before files
/// and each group by name; a file has nothing below it, and what is below a
/// directory is arranged in the same way.
pub proof fn lemma_arranged(entries: Seq<FileNodeView>, count: nat)
    requires
        count <= entries.len(),
    ensures
        in_order(arranged_upto(entries, count)),
        forall|k: int|
            0 <= k < arranged_upto(entries, count).len() ==> exists|i: int|
                0 <= i < count && shown(entries[i].name, entries[i].is_dir)
                    && #[trigger] arranged_upto(entries, count)[k] == arranged_node(entries[i]),
        forall|i: int|
            0 <= i < count && shown(entries[i].name, entries[i].is_dir) ==> arranged_upto(
                entries,
                count,
            ).contains(arranged_node(#[trigger] entries[i])),
    decreases count,
{
    let result = arranged_upto(entries, count);
    if count > 0 {
        let earlier = arranged_upto(entries, (count - 1) as nat);
        let entry = entries[count - 1];
        lemma_arranged(entries, (count - 1) as nat);
        if shown(entry.name, entry.is_dir) {
            let node = arranged_node(entry);
            lemma_place(earlier, node);
            assert forall|k: int| 0 <= k < result.len() implies exists|i: int|
                0 <= i < count && shown(entries[i].name, entries[i].is_dir)
                    && #[trigger] result[k] == arranged_node(entries[i]) by {
                if result[k] == node {
                    assert(shown(entries[count - 1].name, entries[count - 1].is_dir)
                        && result[k] == arranged_node(entries[count - 1]));
                } else {
                    let m = choose|m: int| 0 <= m < earlier.len() && earlier[m] == result[k];
                    let i = choose|i: int|
                        0 <= i < count - 1 && shown(entries[i].name, entries[i].is_dir)
                            && earlier[m] == arranged_node(entries[i]);
                    assert(shown(entries[i].name, entries[i].is_dir) && result[k]
                        == arranged_node(entries[i]));
                }
            }
            assert forall|i: int|
                0 <= i < count && shown(entries[i].name, entries[i].is_dir) implies result.contains(
                arranged_node(#[trigger] entries[i]),
            ) by {
                if i < count - 1 {
                    let m = choose|m: int|
                        0 <= m < earlier.len() && earlier[m] == arranged_node(entries[i]);
                    assert(result.contains(earlier[m]));
                }
            }
        } else {
            assert forall|k: int| 0 <= k < result.len() implies exists|i: int|
                0 <= i < count && shown(entries[i].name, entries[i].is_dir)
                    && #[trigger] result[k] == arranged_node(entries[i]) by {
                let i = choose|i: int|
                    0 <= i < count - 1 && shown(entries[i].name, entries[i].is_dir) && result[k]
                        == arranged_node(entries[i]);
                assert(shown(entries[i].name, entries[i].is_dir) && result[k] == arranged_node(
                    entries[i],
                ));
            }
        }
    }
}

} // verus!
