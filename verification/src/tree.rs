//! The in-memory filesystem model and the directory walker.
//!
//! A source tree is a list of named nodes (the root's children); the walker
//! flattens it into the finite entry sequence the archive writer consumes:
//! depth first, each directory before its contents, paths relative to the
//! root with `/` as separator.

use vstd::prelude::*;

verus! {

use crate::paths::{SLASH, is_valid_segment};

/// What kind of filesystem item an entry denotes. Symlinks are resolved by
/// the shell before the tree is built, so they appear as regular files.
#[derive(Clone, Copy, PartialEq, Eq, Structural, Debug)]
pub enum EntryKind {
    File,
    Dir,
}

/// One filesystem item discovered by the walker: a relative slash-separated
/// path, a kind, the file bytes (empty for directories) and a last-modified
/// timestamp in seconds.
pub struct Entry {
    pub path: Vec<u8>,
    pub kind: EntryKind,
    pub data: Vec<u8>,
    pub mtime: u64,
}

/// The mathematical value of an [`Entry`].
#[verifier::ext_equal]
pub struct EntryView {
    pub path: Seq<u8>,
    pub kind: EntryKind,
    pub data: Seq<u8>,
    pub mtime: u64,
}

impl View for Entry {
    type V = EntryView;

    open spec fn view(&self) -> EntryView {
        EntryView { path: self.path@, kind: self.kind, data: self.data@, mtime: self.mtime }
    }
}

/// The views of a sequence of entries.
pub open spec fn entry_views(s: Seq<Entry>) -> Seq<EntryView> {
    s.map_values(|e: Entry| e@)
}

/// One node of a source tree: a file with its bytes, or a directory with its
/// children in the order they are to be archived.
pub enum FsNode {
    File { name: Vec<u8>, data: Vec<u8>, mtime: u64 },
    Dir { name: Vec<u8>, children: Vec<FsNode> },
}

/// Every name in the tree is a single valid path component.
pub open spec fn node_wf(n: FsNode) -> bool
    decreases n,
{
    match n {
        FsNode::File { name, .. } => is_valid_segment(name@),
        FsNode::Dir { name, children } => is_valid_segment(name@) && forall|i: int|
            0 <= i < children@.len() ==> node_wf(#[trigger] children@[i]),
    }
}

/// [`node_wf`] over a whole list of siblings.
pub open spec fn nodes_wf(ns: Seq<FsNode>) -> bool {
    forall|i: int| 0 <= i < ns.len() ==> node_wf(#[trigger] ns[i])
}

/// The entries one node contributes, given the path prefix of its parent
/// directory (empty at the root, otherwise ending in `/`).
pub open spec fn node_entries(n: FsNode, prefix: Seq<u8>) -> Seq<EntryView>
    decreases n,
{
    match n {
        FsNode::File { name, data, mtime } => seq![
            EntryView { path: prefix + name@, kind: EntryKind::File, data: data@, mtime },
        ],
        FsNode::Dir { name, children } => seq![
            EntryView {
                path: prefix + name@,
                kind: EntryKind::Dir,
                data: Seq::empty(),
                mtime: 0,
            },
        ] + list_entries(children@, prefix + name@ + seq![SLASH]),
    }
}

/// The entries a list of sibling nodes contributes, in order.
pub open spec fn list_entries(ns: Seq<FsNode>, prefix: Seq<u8>) -> Seq<EntryView>
    decreases ns,
{
    if ns.len() == 0 {
        Seq::empty()
    } else {
        node_entries(ns[0], prefix) + list_entries(ns.drop_first(), prefix)
    }
}

/// The full walk of a source tree: the entries of the root's children with
/// the empty prefix.
pub open spec fn tree_entries(root: Seq<FsNode>) -> Seq<EntryView> {
    list_entries(root, Seq::empty())
}

/// A fresh byte vector holding `a` followed by `b`.
pub fn concat_bytes(a: &Vec<u8>, b: &Vec<u8>) -> (r: Vec<u8>)
    ensures
        r@ == a@ + b@,
{
    let mut r: Vec<u8> = Vec::new();
    let mut i: usize = 0;
    while i < a.len()
        invariant
            0 <= i <= a@.len(),
            r@ == a@.take(i as int),
        decreases a@.len() - i,
    {
        r.push(a[i]);
        proof {
            assert(r@ =~= a@.take(i + 1 as int));
        }
        i = i + 1;
    }
    assert(r@ =~= a@);
    let mut j: usize = 0;
    while j < b.len()
        invariant
            0 <= j <= b@.len(),
            r@ == a@ + b@.take(j as int),
        decreases b@.len() - j,
    {
        r.push(b[j]);
        proof {
            assert(r@ =~= a@ + b@.take(j + 1 as int));
        }
        j = j + 1;
    }
    proof {
        assert(r@ =~= a@ + b@);
    }
    r
}

/// Walk one node, appending its entries to `out`.
fn walk_node(n: &FsNode, prefix: &Vec<u8>, out: &mut Vec<Entry>)
    ensures
        entry_views(final(out)@) == entry_views(old(out)@) + node_entries(*n, prefix@),
    decreases *n,
{
    match n {
        FsNode::File { name, data, mtime } => {
            let path = concat_bytes(prefix, name);
            let empty: Vec<u8> = Vec::new();
            let bytes = concat_bytes(&empty, data);
            proof {
                assert(bytes@ =~= data@);
            }
            out.push(Entry { path, kind: EntryKind::File, data: bytes, mtime: *mtime });
            proof {
                assert(entry_views(out@) =~~= entry_views(old(out)@) + node_entries(*n, prefix@));
            }
        },
        FsNode::Dir { name, children } => {
            let path = concat_bytes(prefix, name);
            let mut child_prefix = concat_bytes(prefix, name);
            child_prefix.push(SLASH);
            out.push(Entry { path, kind: EntryKind::Dir, data: Vec::new(), mtime: 0 });
            proof {
                assert(child_prefix@ =~= prefix@ + name@ + seq![SLASH]);
                assert(entry_views(out@) =~~= entry_views(old(out)@) + seq![
                    EntryView {
                        path: prefix@ + name@,
                        kind: EntryKind::Dir,
                        data: Seq::empty(),
                        mtime: 0,
                    },
                ]);
                assert(children@.skip(0) =~= children@);
                assert(decreases_to!(*n => children@));
            }
            walk_list(children, 0, &child_prefix, out);
            proof {
                assert(entry_views(out@) =~~= entry_views(old(out)@) + node_entries(*n, prefix@));
            }
        },
    }
}

/// Walk the siblings `ns[from..]`, appending their entries to `out`.
fn walk_list(ns: &Vec<FsNode>, from: usize, prefix: &Vec<u8>, out: &mut Vec<Entry>)
    requires
        from <= ns@.len(),
    ensures
        entry_views(final(out)@) == entry_views(old(out)@) + list_entries(
            ns@.skip(from as int),
            prefix@,
        ),
    decreases ns@.skip(from as int),
{
    if from < ns.len() {
        proof {
            let rest = ns@.skip(from as int);
            assert(rest[0] == ns@[from as int]);
            assert(rest.drop_first() =~= ns@.skip(from as int + 1));
            assert(decreases_to!(rest => rest[0]));
            assert(decreases_to!(rest => rest.subrange(1, rest.len() as int)));
            assert(rest.subrange(1, rest.len() as int) =~= ns@.skip(from as int + 1));
        }
        walk_node(&ns[from], prefix, out);
        walk_list(ns, from + 1, prefix, out);
        proof {
            assert(entry_views(out@) =~~= entry_views(old(out)@) + list_entries(
                ns@.skip(from as int),
                prefix@,
            ));
        }
    } else {
        proof {
            assert(ns@.skip(from as int) =~= Seq::<FsNode>::empty());
            assert(entry_views(out@) =~~= entry_views(old(out)@) + list_entries(
                ns@.skip(from as int),
                prefix@,
            ));
        }
    }
}

/// Enumerate every entry reachable from a source root whose children are
/// `root`, depth first, each directory before its contents, with paths
/// relative to the root.
pub fn walk_tree(root: &Vec<FsNode>) -> (r: Vec<Entry>)
    ensures
        entry_views(r@) == tree_entries(root@),
{
    let mut out: Vec<Entry> = Vec::new();
    let empty: Vec<u8> = Vec::new();
    proof {
        assert(root@.skip(0) =~= root@);
        assert(entry_views(Seq::<Entry>::empty()) =~= Seq::<EntryView>::empty());
    }
    walk_list(root, 0, &empty, &mut out);
    out
}

} // verus!
