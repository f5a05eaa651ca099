//! Engine-wide laws, proved from the contracts of the walker, the writer
//! and the reader.

use vstd::prelude::*;

verus! {

use crate::archive::{archive_listing, archive_member_data, member_names};
use crate::compress::{members_of_entries, stored_data_of, stored_name_of};
use crate::extract::{ExtractedView, all_names_ok, extract_views, extracted_of, stored_name_ok};
use crate::paths::{
    BACKSLASH,
    DOT,
    SLASH,
    dot_segment_at,
    dotdot_segment_at,
    empty_segment_at,
    is_safe_path,
    is_valid_segment,
};
use crate::tree::{EntryKind, EntryView, FsNode, list_entries, node_entries, node_wf, nodes_wf, tree_entries};

/// What the walker guarantees of every entry it produces: a nonempty path
/// that does not end in the separator, and no bytes on a directory.
pub open spec fn entry_shape_wf(e: EntryView) -> bool {
    &&& e.path.len() > 0
    &&& e.path[e.path.len() - 1] != SLASH
    &&& e.kind is Dir ==> e.data.len() == 0
}

/// Every entry of a well-formed node has a well-shaped path.
pub proof fn lemma_node_entry_shapes(n: FsNode, prefix: Seq<u8>)
    requires
        node_wf(n),
    ensures
        forall|i: int|
            0 <= i < node_entries(n, prefix).len() ==> entry_shape_wf(
                #[trigger] node_entries(n, prefix)[i],
            ),
    decreases n,
{
    match n {
        FsNode::File { name, data, mtime } => {
            let p = prefix + name@;
            assert(p[p.len() - 1] == name@[name@.len() - 1]);
        },
        FsNode::Dir { name, children } => {
            let p = prefix + name@;
            assert(p[p.len() - 1] == name@[name@.len() - 1]);
            let child_prefix = prefix + name@ + seq![SLASH];
            assert(nodes_wf(children@));
            lemma_list_entry_shapes(children@, child_prefix);
            assert forall|i: int| 0 <= i < node_entries(n, prefix).len() implies entry_shape_wf(
                #[trigger] node_entries(n, prefix)[i],
            ) by {
                if i >= 1 {
                    assert(node_entries(n, prefix)[i] == list_entries(children@, child_prefix)[i
                        - 1]);
                }
            }
        },
    }
}

/// Every entry of a well-formed sibling list has a well-shaped path.
pub proof fn lemma_list_entry_shapes(ns: Seq<FsNode>, prefix: Seq<u8>)
    requires
        nodes_wf(ns),
    ensures
        forall|i: int|
            0 <= i < list_entries(ns, prefix).len() ==> entry_shape_wf(
                #[trigger] list_entries(ns, prefix)[i],
            ),
    decreases ns,
{
    if ns.len() > 0 {
        assert(node_wf(ns[0]));
        lemma_node_entry_shapes(ns[0], prefix);
        assert(nodes_wf(ns.drop_first())) by {
            assert forall|i: int| 0 <= i < ns.drop_first().len() implies node_wf(
                #[trigger] ns.drop_first()[i],
            ) by {
                assert(ns.drop_first()[i] == ns[i + 1]);
            }
        }
        lemma_list_entry_shapes(ns.drop_first(), prefix);
        let head = node_entries(ns[0], prefix);
        let tail = list_entries(ns.drop_first(), prefix);
        assert forall|i: int| 0 <= i < list_entries(ns, prefix).len() implies entry_shape_wf(
            #[trigger] list_entries(ns, prefix)[i],
        ) by {
            if i < head.len() {
                assert(list_entries(ns, prefix)[i] == head[i]);
            } else {
                assert(list_entries(ns, prefix)[i] == tail[i - head.len()]);
            }
        }
    }
}

/// A single valid segment is by itself a safe relative path.
pub proof fn lemma_segment_safe(seg: Seq<u8>)
    requires
        is_valid_segment(seg),
    ensures
        is_safe_path(seg),
{
    assert forall|i: int| !dotdot_segment_at(seg, i) by {
        if dotdot_segment_at(seg, i) {
            assert(i == 0 && i + 2 == seg.len());
        }
    }
    assert forall|i: int| !dot_segment_at(seg, i) by {
        if dot_segment_at(seg, i) {
            assert(i == 0 && i + 1 == seg.len());
        }
    }
}

/// Appending `/` and a valid segment to a safe path keeps it safe.
pub proof fn lemma_safe_extend(a: Seq<u8>, seg: Seq<u8>)
    requires
        is_safe_path(a),
        is_valid_segment(seg),
    ensures
        is_safe_path(a + seq![SLASH] + seg),
{
    let q = a + seq![SLASH] + seg;
    let la = a.len() as int;
    assert(q.len() == la + 1 + seg.len());
    assert(q[q.len() - 1] == seg[seg.len() - 1]);
    assert forall|i: int| 0 <= i < q.len() implies q[i] != BACKSLASH by {
        if i < la {
        } else if i == la {
        } else {
            assert(q[i] == seg[i - la - 1]);
        }
    }
    assert forall|i: int| !empty_segment_at(q, i) by {
        if empty_segment_at(q, i) {
            if i + 1 < la {
                assert(empty_segment_at(a, i));
            } else if i + 1 == la {
                assert(q[i] == a[la - 1]);
            } else if i == la {
                assert(q[i + 1] == seg[0]);
            } else {
                assert(q[i] == seg[i - la - 1]);
            }
        }
    }
    assert forall|i: int| !dot_segment_at(q, i) by {
        if dot_segment_at(q, i) {
            if i < la {
                assert(q[i] == a[i]);
                assert(i + 1 < q.len());
                if i + 1 < la {
                    assert(q[i + 1] == a[i + 1]);
                    assert(dot_segment_at(a, i));
                } else {
                    assert(i + 1 == la);
                    assert(dot_segment_at(a, i));
                }
            } else if i == la {
                assert(q[i] == SLASH);
            } else {
                assert(q[i] == seg[i - la - 1]);
                if i - 1 > la {
                    assert(q[i - 1] == seg[i - la - 2]);
                } else {
                    assert(i == la + 1);
                    if i + 1 == q.len() {
                        assert(seg.len() == 1 && seg[0] == DOT);
                    } else {
                        assert(q[i + 1] == seg[1]);
                    }
                }
            }
        }
    }
    assert forall|i: int| !dotdot_segment_at(q, i) by {
        if dotdot_segment_at(q, i) {
            if i + 1 < la {
                assert(q[i] == a[i] && q[i + 1] == a[i + 1]);
                if i + 2 < la {
                    assert(q[i + 2] == a[i + 2]);
                    assert(dotdot_segment_at(a, i));
                } else {
                    assert(i + 2 == la);
                    assert(dotdot_segment_at(a, i));
                }
            } else if i + 1 == la {
                assert(q[i + 1] == SLASH);
            } else if i == la {
                assert(q[i] == SLASH);
            } else {
                assert(q[i] == seg[i - la - 1] && q[i + 1] == seg[i - la]);
                if i - 1 > la {
                    assert(q[i - 1] == seg[i - la - 2]);
                } else {
                    assert(i == la + 1);
                    if i + 2 == q.len() {
                        assert(seg.len() == 2 && seg[0] == DOT && seg[1] == DOT);
                    } else {
                        assert(q[i + 2] == seg[2]);
                    }
                }
            }
        }
    }
}

/// A parent prefix as the walker builds it: empty at the root, otherwise a
/// safe path followed by `/`.
pub open spec fn prefix_ok(prefix: Seq<u8>) -> bool {
    prefix.len() == 0 || (prefix[prefix.len() - 1] == SLASH && is_safe_path(prefix.drop_last()))
}

/// A prefix followed by a valid segment is a safe path.
pub proof fn lemma_prefix_segment_safe(prefix: Seq<u8>, seg: Seq<u8>)
    requires
        prefix_ok(prefix),
        is_valid_segment(seg),
    ensures
        is_safe_path(prefix + seg),
{
    if prefix.len() == 0 {
        lemma_segment_safe(seg);
        assert(prefix + seg =~= seg);
    } else {
        lemma_safe_extend(prefix.drop_last(), seg);
        assert(prefix + seg =~= prefix.drop_last() + seq![SLASH] + seg);
    }
}

/// Every entry of a well-formed node has a safe relative path.
pub proof fn lemma_node_entry_safe(n: FsNode, prefix: Seq<u8>)
    requires
        node_wf(n),
        prefix_ok(prefix),
    ensures
        forall|i: int|
            0 <= i < node_entries(n, prefix).len() ==> is_safe_path(
                (#[trigger] node_entries(n, prefix)[i]).path,
            ),
    decreases n,
{
    match n {
        FsNode::File { name, data, mtime } => {
            lemma_prefix_segment_safe(prefix, name@);
        },
        FsNode::Dir { name, children } => {
            lemma_prefix_segment_safe(prefix, name@);
            let p = prefix + name@;
            let child_prefix = prefix + name@ + seq![SLASH];
            assert(child_prefix.drop_last() =~= p);
            assert(nodes_wf(children@));
            lemma_list_entry_safe(children@, child_prefix);
            assert forall|i: int| 0 <= i < node_entries(n, prefix).len() implies is_safe_path(
                (#[trigger] node_entries(n, prefix)[i]).path,
            ) by {
                if i >= 1 {
                    assert(node_entries(n, prefix)[i] == list_entries(children@, child_prefix)[i
                        - 1]);
                }
            }
        },
    }
}

/// Every entry of a well-formed sibling list has a safe relative path.
pub proof fn lemma_list_entry_safe(ns: Seq<FsNode>, prefix: Seq<u8>)
    requires
        nodes_wf(ns),
        prefix_ok(prefix),
    ensures
        forall|i: int|
            0 <= i < list_entries(ns, prefix).len() ==> is_safe_path(
                (#[trigger] list_entries(ns, prefix)[i]).path,
            ),
    decreases ns,
{
    if ns.len() > 0 {
        assert(node_wf(ns[0]));
        lemma_node_entry_safe(ns[0], prefix);
        assert(nodes_wf(ns.drop_first())) by {
            assert forall|i: int| 0 <= i < ns.drop_first().len() implies node_wf(
                #[trigger] ns.drop_first()[i],
            ) by {
                assert(ns.drop_first()[i] == ns[i + 1]);
            }
        }
        lemma_list_entry_safe(ns.drop_first(), prefix);
        let head = node_entries(ns[0], prefix);
        let tail = list_entries(ns.drop_first(), prefix);
        assert forall|i: int| 0 <= i < list_entries(ns, prefix).len() implies is_safe_path(
            (#[trigger] list_entries(ns, prefix)[i]).path,
        ) by {
            if i < head.len() {
                assert(list_entries(ns, prefix)[i] == head[i]);
            } else {
                assert(list_entries(ns, prefix)[i] == tail[i - head.len()]);
            }
        }
    }
}

/// The archive produced from a well-formed source tree passes the reader's
/// whole-archive name check: no member of it is ever rejected as a
/// path-traversal risk, so extraction is never refused on that account.
pub proof fn lemma_tree_archive_names_ok(root: Seq<FsNode>)
    requires
        nodes_wf(root),
    ensures
        all_names_ok(member_names(members_of_entries(tree_entries(root)))),
{
    let es = tree_entries(root);
    let names = member_names(members_of_entries(es));
    lemma_list_entry_shapes(root, Seq::empty());
    lemma_list_entry_safe(root, Seq::empty());
    assert forall|i: int| 0 <= i < names.len() implies stored_name_ok(#[trigger] names[i]) by {
        let e = es[i];
        assert(entry_shape_wf(e));
        assert(is_safe_path(e.path));
        assert(names[i] == stored_name_of(e));
        if e.kind is Dir {
            let sn = e.path + seq![SLASH];
            assert(sn[sn.len() - 1] == SLASH);
            assert(sn.drop_last() =~= e.path);
        }
    }
}

/// The archive produced from a source tree lists exactly one member per
/// entry the walker produces from that same tree.
pub proof fn lemma_member_count(root: Seq<FsNode>, archive: Seq<u8>)
    requires
        archive_listing(archive) == Some(member_names(members_of_entries(tree_entries(root)))),
    ensures
        archive_listing(archive).unwrap().len() == tree_entries(root).len(),
{
}

/// The round-trip law: reading back an archive produced from a well-formed
/// source tree yields, member for member, the same relative paths, the same
/// kinds and the same file bytes as the walk of that tree.
pub proof fn lemma_round_trip(root: Seq<FsNode>, archive: Seq<u8>, extracted: Seq<ExtractedView>)
    requires
        nodes_wf(root),
        archive_listing(archive) == Some(member_names(members_of_entries(tree_entries(root)))),
        forall|i: int|
            0 <= i < tree_entries(root).len() ==> #[trigger] archive_member_data(archive, i)
                == Some(members_of_entries(tree_entries(root))[i].1),
        extracted == extract_views(archive, archive_listing(archive).unwrap().len() as int),
    ensures
        extracted.len() == tree_entries(root).len(),
        forall|i: int|
            0 <= i < extracted.len() ==> {
                &&& (#[trigger] extracted[i]).path == tree_entries(root)[i].path
                &&& extracted[i].kind == tree_entries(root)[i].kind
                &&& extracted[i].data == tree_entries(root)[i].data
            },
{
    let es = tree_entries(root);
    lemma_list_entry_shapes(root, Seq::empty());
    assert forall|i: int| 0 <= i < extracted.len() implies {
        &&& (#[trigger] extracted[i]).path == es[i].path
        &&& extracted[i].kind == es[i].kind
        &&& extracted[i].data == es[i].data
    } by {
        let e = es[i];
        assert(entry_shape_wf(e));
        let sn = stored_name_of(e);
        let sd = stored_data_of(e);
        assert(archive_listing(archive).unwrap()[i] == sn);
        assert(members_of_entries(es)[i] == (sn, sd));
        assert(archive_member_data(archive, i) == Some(sd));
        assert(extracted[i] == extracted_of(sn, sd));
        if e.kind is Dir {
            assert(sn[sn.len() - 1] == SLASH);
            assert(sn.drop_last() =~= e.path);
        } else {
            assert(sn == e.path);
            assert(sn[sn.len() - 1] != SLASH);
        }
    }
}

} // verus!
