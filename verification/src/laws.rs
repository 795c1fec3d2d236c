use vstd::prelude::*;

use crate::executor::{
    first_marker, matches_marker, router_split_seq_v, router_split_v, worker_ok, worker_ok_first,
    worker_split_first, worker_split_v, wrapped_v,
};
use crate::metastore::SerializedPlanV;
use crate::plan::{
    children_of, contains_kind, contains_kind_seq, kind_of, union_groups_of, union_groups_of_seq,
    with_children_v, PlanNodeKind, PlanV,
};

verus! {

/// The exchange is a leaf from the planner's viewpoint: it never has child
/// subtrees in the operator tree.
pub proof fn lemma_cluster_send_is_leaf(p: PlanV)
    requires
        kind_of(p) == PlanNodeKind::ClusterSend,
    ensures
        children_of(p).len() == 0,
{
}


/// The node a path of child indices leads to.
pub open spec fn node_at(p: PlanV, path: Seq<int>) -> PlanV
    decreases path.len(),
{
    if path.len() == 0 {
        p
    } else {
        node_at(children_of(p)[path[0]], path.drop_first())
    }
}

pub open spec fn valid_path(p: PlanV, path: Seq<int>) -> bool
    decreases path.len(),
{
    path.len() == 0 || (0 <= path[0] < children_of(p).len() && valid_path(
        children_of(p)[path[0]],
        path.drop_first(),
    ))
}

/// How many exchange nodes lie on a path, endpoints included.
pub open spec fn exchanges_on_path(p: PlanV, path: Seq<int>) -> int
    decreases path.len(),
{
    (if kind_of(p) == PlanNodeKind::ClusterSend {
        1int
    } else {
        0int
    }) + (if path.len() == 0 {
        0int
    } else {
        exchanges_on_path(children_of(p)[path[0]], path.drop_first())
    })
}

/// No path of any tree holds more than one exchange: the exchange has no
/// children, so it can only stand at a path's end. Together with the
/// existence half of the rewrite law, each path from the root to a spot that
/// held an index scan holds exactly one exchange.
pub proof fn lemma_at_most_one_exchange(p: PlanV, path: Seq<int>)
    requires
        valid_path(p, path),
    ensures
        exchanges_on_path(p, path) <= 1,
    decreases path.len(),
{
    if kind_of(p) == PlanNodeKind::ClusterSend {
        lemma_cluster_send_is_leaf(p);
        assert(path.len() == 0);
    } else if path.len() > 0 {
        lemma_at_most_one_exchange(children_of(p)[path[0]], path.drop_first());
    }
}

/// Whether a node carries a children list that a rewrite replaces.
pub open spec fn has_children_slot(p: PlanV) -> bool {
    kind_of(p) != PlanNodeKind::ClusterSend && kind_of(p) != PlanNodeKind::ParquetScan && kind_of(
        p,
    ) != PlanNodeKind::Empty
}

/// The plans on which the router dispatch never selects an index scan as the
/// split node: those the scan builder produces, where every index scan sits
/// under its merge.
pub open spec fn split_wf(p: PlanV) -> bool
    decreases p, 1int,
{
    kind_of(p) != PlanNodeKind::IndexScan && (matches_marker(p, first_marker(p)) || (match p {
        PlanV::HashAggregate { children, .. } => split_wf_seq(children),
        PlanV::Sort { children } => split_wf_seq(children),
        PlanV::GlobalLimit { children, .. } => split_wf_seq(children),
        PlanV::Union { children } => split_wf_seq(children),
        PlanV::Join { children, .. } => split_wf_seq(children),
        PlanV::Merge { children } => split_wf_seq(children),
        PlanV::MergeSort { children, .. } => split_wf_seq(children),
        PlanV::IndexScan { children, .. } => split_wf_seq(children),
        PlanV::ClusterSend { .. } => true,
        PlanV::ParquetScan { .. } => true,
        PlanV::Empty { .. } => true,
    }))
}

pub open spec fn split_wf_seq(s: Seq<PlanV>) -> bool
    decreases s, 2int,
{
    s.len() == 0 || (split_wf(s[0]) && split_wf_seq(s.drop_first()))
}

proof fn lemma_split_wf_via_children(p: PlanV)
    requires
        !matches_marker(p, first_marker(p)),
        split_wf(p),
    ensures
        split_wf_seq(children_of(p)),
{
    if children_of(p).len() == 0 {
        assert(split_wf_seq(children_of(p)));
    }
}

/// An index scan below a node always contributes a snapshot group.
proof fn lemma_scan_gives_group(p: PlanV)
    requires
        contains_kind(p, PlanNodeKind::IndexScan),
    ensures
        union_groups_of(p).len() > 0,
    decreases p, 1int,
{
    match p {
        PlanV::IndexScan { .. } => {},
        PlanV::Union { .. } => {},
        PlanV::HashAggregate { children, .. } => lemma_scan_gives_group_seq(children),
        PlanV::Sort { children } => lemma_scan_gives_group_seq(children),
        PlanV::GlobalLimit { children, .. } => lemma_scan_gives_group_seq(children),
        PlanV::Join { children, .. } => lemma_scan_gives_group_seq(children),
        PlanV::Merge { children } => lemma_scan_gives_group_seq(children),
        PlanV::MergeSort { children, .. } => lemma_scan_gives_group_seq(children),
        PlanV::ClusterSend { .. } => {},
        PlanV::ParquetScan { .. } => {},
        PlanV::Empty { .. } => {},
    }
}

proof fn lemma_scan_gives_group_seq(s: Seq<PlanV>)
    requires
        contains_kind_seq(s, PlanNodeKind::IndexScan),
    ensures
        union_groups_of_seq(s).len() > 0,
    decreases s, 2int,
{
    if s.len() > 0 {
        if contains_kind(s[0], PlanNodeKind::IndexScan) {
            lemma_scan_gives_group(s[0]);
        } else {
            lemma_scan_gives_group_seq(s.drop_first());
        }
    }
}

/// Containment through a rebuilt node: the node's own kind, or the new
/// children.
proof fn lemma_contains_with_children(p: PlanV, cs: Seq<PlanV>, k: PlanNodeKind)
    requires
        has_children_slot(p),
    ensures
        contains_kind(with_children_v(p, cs), k) == (kind_of(p) == k || contains_kind_seq(cs, k)),
{
}

/// Away from the split node, the router rewrite maps the children and keeps
/// the node.
proof fn lemma_router_split_via_children(p: PlanV, sp: SerializedPlanV, nodes: Seq<Seq<char>>)
    requires
        !matches_marker(p, first_marker(p)),
    ensures
        router_split_v(p, sp, nodes) == with_children_v(
            p,
            router_split_seq_v(children_of(p), sp, nodes),
        ),
{
    if !has_children_slot(p) {
        assert(router_split_seq_v(children_of(p), sp, nodes) =~= Seq::<PlanV>::empty());
    }
}

/// After the router rewrite, no index scan remains in the tree: everything
/// below each split point moved into the exchange's serialized plan. And
/// wherever an index scan stood, an exchange now stands on that path; by
/// `lemma_at_most_one_exchange` such a path holds exactly one.
pub proof fn lemma_router_split_structure(p: PlanV, sp: SerializedPlanV, nodes: Seq<Seq<char>>)
    requires
        split_wf(p),
        !contains_kind(p, PlanNodeKind::ClusterSend),
    ensures
        !contains_kind(router_split_v(p, sp, nodes), PlanNodeKind::IndexScan),
        contains_kind(p, PlanNodeKind::IndexScan) ==> contains_kind(
            router_split_v(p, sp, nodes),
            PlanNodeKind::ClusterSend,
        ),
    decreases p, 1int,
{
    let r = router_split_v(p, sp, nodes);
    if matches_marker(p, first_marker(p)) {
        let groups = union_groups_of(p);
        let child_schema = crate::plan::schema_of_first(children_of(p));
        if groups.len() > 0 {
            let cs_node = PlanV::ClusterSend {
                schema: child_schema,
                partitions: crate::cartesian::cartesian(
                    crate::cluster_send::group_partition_lists(groups),
                ),
                available_nodes: nodes,
                serialized_plan: sp,
            };
            let merge = PlanV::Merge { children: seq![cs_node] };
            assert(r == with_children_v(p, seq![merge]));
            if !has_children_slot(p) {
                assert(union_groups_of(p).len() == 0);
            }
            assert(has_children_slot(p));
            lemma_contains_with_children(p, seq![merge], PlanNodeKind::IndexScan);
            lemma_contains_with_children(p, seq![merge], PlanNodeKind::ClusterSend);
            assert(seq![merge].drop_first() =~= Seq::<PlanV>::empty());
            assert(seq![cs_node].drop_first() =~= Seq::<PlanV>::empty());
            assert(seq![merge][0] == merge);
            assert(seq![cs_node][0] == cs_node);
            assert(contains_kind_seq(Seq::<PlanV>::empty(), PlanNodeKind::IndexScan) == false);
            assert(contains_kind_seq(Seq::<PlanV>::empty(), PlanNodeKind::ClusterSend) == false);
            assert(!contains_kind(cs_node, PlanNodeKind::IndexScan));
            assert(contains_kind_seq(seq![cs_node], PlanNodeKind::IndexScan) == false);
            assert(!contains_kind(merge, PlanNodeKind::IndexScan));
            assert(!contains_kind_seq(seq![merge], PlanNodeKind::IndexScan));
            assert(contains_kind(cs_node, PlanNodeKind::ClusterSend));
            assert(contains_kind(merge, PlanNodeKind::ClusterSend));
            assert(contains_kind_seq(seq![merge], PlanNodeKind::ClusterSend));
        } else {
            if contains_kind(p, PlanNodeKind::IndexScan) {
                lemma_scan_gives_group(p);
            }
            let empty_node = PlanV::Empty { schema: child_schema };
            assert(r == with_children_v(p, seq![empty_node]));
            if has_children_slot(p) {
                lemma_contains_with_children(p, seq![empty_node], PlanNodeKind::IndexScan);
                assert(seq![empty_node].drop_first() =~= Seq::<PlanV>::empty());
                assert(seq![empty_node][0] == empty_node);
                assert(contains_kind_seq(Seq::<PlanV>::empty(), PlanNodeKind::IndexScan) == false);
                assert(!contains_kind(empty_node, PlanNodeKind::IndexScan));
                assert(!contains_kind_seq(seq![empty_node], PlanNodeKind::IndexScan));
            } else {
                assert(r == p);
                assert(!contains_kind_seq(children_of(p), PlanNodeKind::IndexScan)) by {
                    assert(children_of(p).len() == 0);
                }
            }
        }
    } else {
        lemma_router_split_via_children(p, sp, nodes);
        lemma_split_wf_via_children(p);
        if has_children_slot(p) {
            assert(!contains_kind_seq(children_of(p), PlanNodeKind::ClusterSend)) by {
                lemma_contains_via_children_here(p, PlanNodeKind::ClusterSend);
            }
            match p {
                PlanV::HashAggregate { children, .. } => {
                    lemma_router_split_structure_seq(children, sp, nodes);
                },
                PlanV::Sort { children } => {
                    lemma_router_split_structure_seq(children, sp, nodes);
                },
                PlanV::GlobalLimit { children, .. } => {
                    lemma_router_split_structure_seq(children, sp, nodes);
                },
                PlanV::Union { children } => {
                    lemma_router_split_structure_seq(children, sp, nodes);
                },
                PlanV::Join { children, .. } => {
                    lemma_router_split_structure_seq(children, sp, nodes);
                },
                PlanV::Merge { children } => {
                    lemma_router_split_structure_seq(children, sp, nodes);
                },
                PlanV::MergeSort { children, .. } => {
                    lemma_router_split_structure_seq(children, sp, nodes);
                },
                PlanV::IndexScan { children, .. } => {
                    lemma_router_split_structure_seq(children, sp, nodes);
                },
                PlanV::ClusterSend { .. } => {},
                PlanV::ParquetScan { .. } => {},
                PlanV::Empty { .. } => {},
            }
            lemma_contains_with_children(
                p,
                router_split_seq_v(children_of(p), sp, nodes),
                PlanNodeKind::IndexScan,
            );
            lemma_contains_with_children(
                p,
                router_split_seq_v(children_of(p), sp, nodes),
                PlanNodeKind::ClusterSend,
            );
            lemma_contains_via_children_here(p, PlanNodeKind::IndexScan);
        } else {
            assert(router_split_seq_v(children_of(p), sp, nodes) =~= Seq::<PlanV>::empty());
            assert(r == p);
            assert(!contains_kind_seq(children_of(p), PlanNodeKind::IndexScan)) by {
                assert(children_of(p).len() == 0);
            }
        }
    }
}

proof fn lemma_contains_via_children_here(p: PlanV, k: PlanNodeKind)
    ensures
        contains_kind(p, k) == (kind_of(p) == k || contains_kind_seq(children_of(p), k)),
{
    if children_of(p).len() == 0 {
        assert(contains_kind_seq(children_of(p), k) == false);
    }
}

proof fn lemma_router_split_structure_seq(s: Seq<PlanV>, sp: SerializedPlanV, nodes: Seq<Seq<char>>)
    requires
        split_wf_seq(s),
        !contains_kind_seq(s, PlanNodeKind::ClusterSend),
    ensures
        !contains_kind_seq(router_split_seq_v(s, sp, nodes), PlanNodeKind::IndexScan),
        contains_kind_seq(s, PlanNodeKind::IndexScan) ==> contains_kind_seq(
            router_split_seq_v(s, sp, nodes),
            PlanNodeKind::ClusterSend,
        ),
    decreases s, 2int,
{
    if s.len() > 0 {
        lemma_router_split_structure(s[0], sp, nodes);
        lemma_router_split_structure_seq(s.drop_first(), sp, nodes);
        assert(router_split_seq_v(s, sp, nodes) == seq![router_split_v(s[0], sp, nodes)]
            + router_split_seq_v(s.drop_first(), sp, nodes));
        assert(router_split_seq_v(s, sp, nodes)[0] == router_split_v(s[0], sp, nodes));
        assert(router_split_seq_v(s, sp, nodes).drop_first() =~= router_split_seq_v(
            s.drop_first(),
            sp,
            nodes,
        ));
    }
}

/// The node the router dispatch splits at, on a single-child chain.
pub open spec fn selected_split_node(p: PlanV) -> PlanV
    decreases p, 1int,
{
    if matches_marker(p, first_marker(p)) {
        p
    } else {
        match p {
            PlanV::HashAggregate { children, .. } => selected_split_first(children),
            PlanV::Sort { children } => selected_split_first(children),
            PlanV::GlobalLimit { children, .. } => selected_split_first(children),
            PlanV::Union { children } => selected_split_first(children),
            PlanV::Join { children, .. } => selected_split_first(children),
            PlanV::Merge { children } => selected_split_first(children),
            PlanV::MergeSort { children, .. } => selected_split_first(children),
            PlanV::IndexScan { children, .. } => selected_split_first(children),
            PlanV::ClusterSend { .. } => p,
            PlanV::ParquetScan { .. } => p,
            PlanV::Empty { .. } => p,
        }
    }
}

pub open spec fn selected_split_first(s: Seq<PlanV>) -> PlanV
    decreases s, 2int,
{
    if s.len() > 0 {
        selected_split_node(s[0])
    } else {
        PlanV::Empty { schema: Seq::empty() }
    }
}

/// The chain with its split node rewritten in place.
pub open spec fn wrap_at_selected_v(p: PlanV, sp: SerializedPlanV, nodes: Seq<Seq<char>>) -> PlanV
    decreases p, 1int,
{
    if matches_marker(p, first_marker(p)) {
        wrapped_v(p, sp, nodes)
    } else {
        match p {
            PlanV::HashAggregate { schema, children } => PlanV::HashAggregate {
                schema,
                children: seq![wrap_at_selected_first(children, sp, nodes)],
            },
            PlanV::Sort { children } => PlanV::Sort {
                children: seq![wrap_at_selected_first(children, sp, nodes)],
            },
            PlanV::GlobalLimit { limit, children } => PlanV::GlobalLimit {
                limit,
                children: seq![wrap_at_selected_first(children, sp, nodes)],
            },
            PlanV::Union { children } => PlanV::Union {
                children: seq![wrap_at_selected_first(children, sp, nodes)],
            },
            PlanV::Join { schema, children } => PlanV::Join {
                schema,
                children: seq![wrap_at_selected_first(children, sp, nodes)],
            },
            PlanV::Merge { children } => PlanV::Merge {
                children: seq![wrap_at_selected_first(children, sp, nodes)],
            },
            PlanV::MergeSort { join_on, children } => PlanV::MergeSort {
                join_on,
                children: seq![wrap_at_selected_first(children, sp, nodes)],
            },
            PlanV::IndexScan { schema, index_snapshot, children } => PlanV::IndexScan {
                schema,
                index_snapshot,
                children: seq![wrap_at_selected_first(children, sp, nodes)],
            },
            PlanV::ClusterSend { .. } => p,
            PlanV::ParquetScan { .. } => p,
            PlanV::Empty { .. } => p,
        }
    }
}

pub open spec fn wrap_at_selected_first(s: Seq<PlanV>, sp: SerializedPlanV, nodes: Seq<Seq<char>>) -> PlanV
    decreases s, 2int,
{
    if s.len() > 0 {
        wrap_at_selected_v(s[0], sp, nodes)
    } else {
        PlanV::Empty { schema: Seq::empty() }
    }
}

proof fn lemma_worker_ok_children(p: PlanV)
    ensures
        worker_ok(p) == (children_of(p).len() == 1 && (matches_marker(p, first_marker(p))
            || worker_ok_first(children_of(p)))),
{
}

proof fn lemma_worker_split_via_children(p: PlanV)
    requires
        !matches_marker(p, first_marker(p)),
        children_of(p).len() > 0,
    ensures
        worker_split_v(p) == worker_split_first(children_of(p)),
{
}

proof fn lemma_selected_via_children(p: PlanV)
    requires
        !matches_marker(p, first_marker(p)),
        children_of(p).len() > 0,
    ensures
        selected_split_node(p) == selected_split_first(children_of(p)),
{
}

proof fn lemma_wrap_at_selected_via_children(p: PlanV, sp: SerializedPlanV, nodes: Seq<Seq<char>>)
    requires
        !matches_marker(p, first_marker(p)),
        children_of(p).len() > 0,
    ensures
        wrap_at_selected_v(p, sp, nodes) == with_children_v(
            p,
            seq![wrap_at_selected_first(children_of(p), sp, nodes)],
        ),
{
}

/// Mirror symmetry of the two rewrites on a single-child chain: the subtree
/// the worker executes is exactly the subtree below the node the router
/// splits at, and the router rewrite is that chain with the split node's
/// children replaced by the exchange.
pub proof fn lemma_mirror_symmetry(p: PlanV, sp: SerializedPlanV, nodes: Seq<Seq<char>>)
    requires
        worker_ok(p),
    ensures
        worker_split_v(p) == children_of(selected_split_node(p))[0],
        router_split_v(p, sp, nodes) == wrap_at_selected_v(p, sp, nodes),
    decreases p, 1int,
{
    lemma_worker_ok_children(p);
    if matches_marker(p, first_marker(p)) {
    } else {
        let cs = children_of(p);
        assert(cs.len() == 1);
        assert(worker_ok(cs[0]));
        lemma_worker_split_via_children(p);
        lemma_selected_via_children(p);
        lemma_wrap_at_selected_via_children(p, sp, nodes);
        lemma_router_split_via_children(p, sp, nodes);
        match p {
            PlanV::HashAggregate { children, .. } => lemma_mirror_first(children, sp, nodes),
            PlanV::Sort { children } => lemma_mirror_first(children, sp, nodes),
            PlanV::GlobalLimit { children, .. } => lemma_mirror_first(children, sp, nodes),
            PlanV::Union { children } => lemma_mirror_first(children, sp, nodes),
            PlanV::Join { children, .. } => lemma_mirror_first(children, sp, nodes),
            PlanV::Merge { children } => lemma_mirror_first(children, sp, nodes),
            PlanV::MergeSort { children, .. } => lemma_mirror_first(children, sp, nodes),
            PlanV::IndexScan { children, .. } => lemma_mirror_first(children, sp, nodes),
            PlanV::ClusterSend { .. } => {},
            PlanV::ParquetScan { .. } => {},
            PlanV::Empty { .. } => {},
        }
        assert(router_split_seq_v(cs, sp, nodes) =~= seq![router_split_v(cs[0], sp, nodes)]) by {
            assert(cs.drop_first() =~= Seq::<PlanV>::empty());
            assert(router_split_seq_v(Seq::<PlanV>::empty(), sp, nodes) =~= Seq::<PlanV>::empty());
        }
    }
}

proof fn lemma_mirror_first(s: Seq<PlanV>, sp: SerializedPlanV, nodes: Seq<Seq<char>>)
    requires
        s.len() > 0,
        worker_ok(s[0]),
    ensures
        worker_split_v(s[0]) == children_of(selected_split_node(s[0]))[0],
        router_split_v(s[0], sp, nodes) == wrap_at_selected_v(s[0], sp, nodes),
        worker_split_first(s) == worker_split_v(s[0]),
        selected_split_first(s) == selected_split_node(s[0]),
        wrap_at_selected_first(s, sp, nodes) == wrap_at_selected_v(s[0], sp, nodes),
    decreases s, 2int,
{
    lemma_mirror_symmetry(s[0], sp, nodes);
}

} // verus!
