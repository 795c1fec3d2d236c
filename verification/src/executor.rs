use vstd::prelude::*;

use crate::cartesian::cartesian;
use crate::cluster_send::{group_partition_lists, groups_views};
use crate::metastore::{snapshot_views, IndexSnapshot, IndexSnapshotV, SerializedPlan,
    SerializedPlanV};
use crate::plan::{
    arity_ok, children_of, clone_string_vec, contains_kind, contains_kind_seq, kind_of,
    lemma_contains_via_children, lemma_groups_via_children, lemma_plan_height_seq,
    lemma_plan_views, lemma_snapshots_via_children, plan_height, plan_height_seq, plan_view,
    plan_views, schema_of_first, snapshots_of, snapshots_of_seq, union_groups_of,
    union_groups_of_seq, with_children_v, ClusterSendExec, PhysicalPlan, PlanNodeKind, PlanV,
};
use crate::types::{col_views, CubeError};

verus! {

/// The first split marker contained in the plan, in priority order; `None`
/// means the split happens at the root.
pub open spec fn first_marker(p: PlanV) -> Option<PlanNodeKind> {
    if contains_kind(p, PlanNodeKind::HashAggregate) {
        Some(PlanNodeKind::HashAggregate)
    } else if contains_kind(p, PlanNodeKind::Sort) {
        Some(PlanNodeKind::Sort)
    } else if contains_kind(p, PlanNodeKind::GlobalLimit) {
        Some(PlanNodeKind::GlobalLimit)
    } else {
        None
    }
}

pub open spec fn matches_marker(p: PlanV, m: Option<PlanNodeKind>) -> bool {
    match m {
        Some(k) => kind_of(p) == k,
        None => true,
    }
}

/// The split node, rewritten: its children become a single merge over one
/// exchange carrying the snapshot groups found below it, or a single empty
/// relation when no index source lies below it.
pub open spec fn wrapped_v(p: PlanV, sp: SerializedPlanV, nodes: Seq<Seq<char>>) -> PlanV {
    let child_schema = schema_of_first(children_of(p));
    let groups = union_groups_of(p);
    if groups.len() > 0 {
        with_children_v(
            p,
            seq![
                PlanV::Merge {
                    children: seq![
                        PlanV::ClusterSend {
                            schema: child_schema,
                            partitions: cartesian(group_partition_lists(groups)),
                            available_nodes: nodes,
                            serialized_plan: sp,
                        },
                    ],
                },
            ],
        )
    } else {
        with_children_v(p, seq![PlanV::Empty { schema: child_schema }])
    }
}

/// The router rewrite: wrap at the first node matching the plan's marker;
/// below a non-matching node, each child is rewritten with its own marker.
/// When no marker kind occurs anywhere, every node matches, so the split
/// happens at the root: the whole plan's work ships to the workers. That is
/// the reading the mirror rewrite presumes, with one split node per chain.
pub open spec fn router_split_v(p: PlanV, sp: SerializedPlanV, nodes: Seq<Seq<char>>) -> PlanV
    decreases p, 1int,
{
    if matches_marker(p, first_marker(p)) {
        wrapped_v(p, sp, nodes)
    } else {
        match p {
            PlanV::HashAggregate { schema, children } => PlanV::HashAggregate {
                schema,
                children: router_split_seq_v(children, sp, nodes),
            },
            PlanV::Sort { children } => PlanV::Sort {
                children: router_split_seq_v(children, sp, nodes),
            },
            PlanV::GlobalLimit { limit, children } => PlanV::GlobalLimit {
                limit,
                children: router_split_seq_v(children, sp, nodes),
            },
            PlanV::Union { children } => PlanV::Union {
                children: router_split_seq_v(children, sp, nodes),
            },
            PlanV::Join { schema, children } => PlanV::Join {
                schema,
                children: router_split_seq_v(children, sp, nodes),
            },
            PlanV::Merge { children } => PlanV::Merge {
                children: router_split_seq_v(children, sp, nodes),
            },
            PlanV::MergeSort { join_on, children } => PlanV::MergeSort {
                join_on,
                children: router_split_seq_v(children, sp, nodes),
            },
            PlanV::IndexScan { schema, index_snapshot, children } => PlanV::IndexScan {
                schema,
                index_snapshot,
                children: router_split_seq_v(children, sp, nodes),
            },
            PlanV::ClusterSend { .. } => p,
            PlanV::ParquetScan { .. } => p,
            PlanV::Empty { .. } => p,
        }
    }
}

pub open spec fn router_split_seq_v(s: Seq<PlanV>, sp: SerializedPlanV, nodes: Seq<Seq<char>>) -> Seq<
    PlanV,
>
    decreases s, 2int,
{
    if s.len() == 0 {
        Seq::empty()
    } else {
        seq![router_split_v(s[0], sp, nodes)] + router_split_seq_v(s.drop_first(), sp, nodes)
    }
}

/// The inputs on which the router rewrite is defined: wherever the dispatch
/// can select a split node, that node has a child to take the schema from and
/// can be rebuilt over a single child.
pub open spec fn router_ok(p: PlanV) -> bool
    decreases p, 1int,
{
    if matches_marker(p, first_marker(p)) {
        children_of(p).len() >= 1 && arity_ok(kind_of(p), 1)
    } else {
        match p {
            PlanV::HashAggregate { children, .. } => router_ok_seq(children),
            PlanV::Sort { children } => router_ok_seq(children),
            PlanV::GlobalLimit { children, .. } => router_ok_seq(children),
            PlanV::Union { children } => router_ok_seq(children),
            PlanV::Join { children, .. } => router_ok_seq(children),
            PlanV::Merge { children } => router_ok_seq(children),
            PlanV::MergeSort { children, .. } => router_ok_seq(children),
            PlanV::IndexScan { children, .. } => router_ok_seq(children),
            PlanV::ClusterSend { .. } => true,
            PlanV::ParquetScan { .. } => true,
            PlanV::Empty { .. } => true,
        }
    }
}

pub open spec fn router_ok_seq(s: Seq<PlanV>) -> bool
    decreases s, 2int,
{
    if s.len() == 0 {
        true
    } else {
        router_ok(s[0]) && router_ok_seq(s.drop_first())
    }
}

/// The inputs on which the worker rewrite is defined: a single-child chain
/// down to the split node.
pub open spec fn worker_ok(p: PlanV) -> bool
    decreases p, 1int,
{
    children_of(p).len() == 1 && (matches_marker(p, first_marker(p)) || (match p {
        PlanV::HashAggregate { children, .. } => worker_ok_first(children),
        PlanV::Sort { children } => worker_ok_first(children),
        PlanV::GlobalLimit { children, .. } => worker_ok_first(children),
        PlanV::Union { children } => worker_ok_first(children),
        PlanV::Join { children, .. } => worker_ok_first(children),
        PlanV::Merge { children } => worker_ok_first(children),
        PlanV::MergeSort { children, .. } => worker_ok_first(children),
        PlanV::IndexScan { children, .. } => worker_ok_first(children),
        PlanV::ClusterSend { .. } => false,
        PlanV::ParquetScan { .. } => false,
        PlanV::Empty { .. } => false,
    }))
}

pub open spec fn worker_ok_first(s: Seq<PlanV>) -> bool
    decreases s, 2int,
{
    s.len() > 0 && worker_ok(s[0])
}

/// The worker rewrite: descend the chain to the split node and return the
/// subtree immediately below it.
pub open spec fn worker_split_v(p: PlanV) -> PlanV
    decreases p, 1int,
{
    if matches_marker(p, first_marker(p)) {
        children_of(p)[0]
    } else {
        match p {
            PlanV::HashAggregate { children, .. } => worker_split_first(children),
            PlanV::Sort { children } => worker_split_first(children),
            PlanV::GlobalLimit { children, .. } => worker_split_first(children),
            PlanV::Union { children } => worker_split_first(children),
            PlanV::Join { children, .. } => worker_split_first(children),
            PlanV::Merge { children } => worker_split_first(children),
            PlanV::MergeSort { children, .. } => worker_split_first(children),
            PlanV::IndexScan { children, .. } => worker_split_first(children),
            PlanV::ClusterSend { .. } => p,
            PlanV::ParquetScan { .. } => p,
            PlanV::Empty { .. } => p,
        }
    }
}

pub open spec fn worker_split_first(s: Seq<PlanV>) -> PlanV
    decreases s, 2int,
{
    if s.len() > 0 {
        worker_split_v(s[0])
    } else {
        PlanV::Empty { schema: Seq::empty() }
    }
}

/// The single entry point of the core: split plans for the router and for the
/// workers.
pub struct QueryExecutorImpl;

impl QueryExecutorImpl {
    /// Depth-first search for a node of the given kind.
    pub fn has_node(&self, execution_plan: &PhysicalPlan, kind: PlanNodeKind) -> (r: bool)
        ensures
            r == contains_kind(execution_plan@, kind),
        decreases plan_height(*execution_plan), 0int, 0int,
    {
        proof {
            lemma_contains_via_children(execution_plan@, kind);
        }
        if execution_plan.kind() == kind {
            true
        } else {
            match execution_plan.children_ref() {
                Option::Some(children) => {
                    let r = self.has_node_seq(children, kind, 0);
                    proof {
                        assert(plan_views(children@).skip(0) =~= plan_views(children@));
                    }
                    r
                },
                Option::None => false,
            }
        }
    }

    fn has_node_seq(&self, children: &Vec<PhysicalPlan>, kind: PlanNodeKind, i: usize) -> (r: bool)
        requires
            i <= children@.len(),
        ensures
            r == contains_kind_seq(plan_views(children@).skip(i as int), kind),
        decreases plan_height_seq(children@), 1int, children@.len() - i,
    {
        proof {
            lemma_plan_views(children@);
        }
        if i == children.len() {
            proof {
                assert(plan_views(children@).skip(i as int) =~= Seq::<PlanV>::empty());
            }
            false
        } else {
            proof {
                lemma_plan_height_seq(children@, i as int);
                assert(plan_views(children@).skip(i as int)[0] == plan_views(children@)[i as int]);
                assert(plan_views(children@).skip(i as int).drop_first() =~= plan_views(
                    children@,
                ).skip(i + 1));
            }
            if self.has_node(&children[i], kind) {
                true
            } else {
                self.has_node_seq(children, kind, i + 1)
            }
        }
    }

    fn split_marker(&self, execution_plan: &PhysicalPlan) -> (r: Option<PlanNodeKind>)
        ensures
            r == first_marker(execution_plan@),
    {
        if self.has_node(execution_plan, PlanNodeKind::HashAggregate) {
            Option::Some(PlanNodeKind::HashAggregate)
        } else if self.has_node(execution_plan, PlanNodeKind::Sort) {
            Option::Some(PlanNodeKind::Sort)
        } else if self.has_node(execution_plan, PlanNodeKind::GlobalLimit) {
            Option::Some(PlanNodeKind::GlobalLimit)
        } else {
            Option::None
        }
    }

    fn collect_snapshots(&self, execution_plan: &PhysicalPlan, out: &mut Vec<IndexSnapshot>)
        ensures
            snapshot_views(final(out)@) == snapshot_views(old(out)@) + snapshots_of(
                execution_plan@,
            ),
        decreases plan_height(*execution_plan), 0int, 0int,
    {
        match execution_plan {
            PhysicalPlan::IndexScan(e) => {
                let snap = e.index_snapshot.clone();
                let ghost prev = out@;
                out.push(snap);
                proof {
                    assert(snapshot_views(prev.push(snap)) =~= snapshot_views(prev).push(snap@));
                    assert(snapshot_views(out@) =~= snapshot_views(prev) + snapshots_of(
                        execution_plan@,
                    ));
                }
            },
            _ => {
                proof {
                    lemma_snapshots_via_children(execution_plan@);
                }
                match execution_plan.children_ref() {
                    Option::Some(children) => {
                        self.collect_snapshots_seq(children, 0, out);
                        proof {
                            assert(plan_views(children@).skip(0) =~= plan_views(children@));
                        }
                    },
                    Option::None => {
                        proof {
                            assert(snapshots_of_seq(children_of(execution_plan@))
                                =~= Seq::<IndexSnapshotV>::empty());
                            assert(snapshot_views(out@) =~= snapshot_views(out@) + snapshots_of(
                                execution_plan@,
                            ));
                        }
                    },
                }
            },
        }
    }

    fn collect_snapshots_seq(
        &self,
        children: &Vec<PhysicalPlan>,
        i: usize,
        out: &mut Vec<IndexSnapshot>,
    )
        requires
            i <= children@.len(),
        ensures
            snapshot_views(final(out)@) == snapshot_views(old(out)@) + snapshots_of_seq(
                plan_views(children@).skip(i as int),
            ),
        decreases plan_height_seq(children@), 1int, children@.len() - i,
    {
        proof {
            lemma_plan_views(children@);
        }
        if i == children.len() {
            proof {
                assert(plan_views(children@).skip(i as int) =~= Seq::<PlanV>::empty());
                assert(snapshot_views(out@) =~= snapshot_views(out@) + snapshots_of_seq(
                    Seq::<PlanV>::empty(),
                ));
            }
        } else {
            proof {
                lemma_plan_height_seq(children@, i as int);
                assert(plan_views(children@).skip(i as int)[0] == plan_views(children@)[i as int]);
                assert(plan_views(children@).skip(i as int).drop_first() =~= plan_views(
                    children@,
                ).skip(i + 1));
            }
            self.collect_snapshots(&children[i], out);
            self.collect_snapshots_seq(children, i + 1, out);
            proof {
                assert(snapshot_views(out@) =~= snapshot_views(old(out)@) + snapshots_of_seq(
                    plan_views(children@).skip(i as int),
                ));
            }
        }
    }

    /// All index snapshots reachable under the plan, in depth-first order.
    pub fn index_snapshots_from_cube_table(&self, execution_plan: &PhysicalPlan) -> (r: Vec<
        IndexSnapshot,
    >)
        ensures
            snapshot_views(r@) == snapshots_of(execution_plan@),
    {
        let mut out: Vec<IndexSnapshot> = Vec::new();
        proof {
            assert(snapshot_views(out@) =~= Seq::<IndexSnapshotV>::empty());
        }
        self.collect_snapshots(execution_plan, &mut out);
        proof {
            assert(snapshot_views(out@) =~= snapshots_of(execution_plan@));
        }
        out
    }

    fn collect_groups(&self, execution_plan: &PhysicalPlan, out: &mut Vec<Vec<IndexSnapshot>>)
        ensures
            groups_views(final(out)@) == groups_views(old(out)@) + union_groups_of(
                execution_plan@,
            ),
        decreases plan_height(*execution_plan), 0int, 0int,
    {
        match execution_plan {
            PhysicalPlan::IndexScan(e) => {
                let mut group: Vec<IndexSnapshot> = Vec::new();
                group.push(e.index_snapshot.clone());
                proof {
                    assert(snapshot_views(group@) =~= seq![e.index_snapshot@]);
                }
                let ghost prev = out@;
                out.push(group);
                proof {
                    assert(groups_views(prev.push(group)) =~= groups_views(prev).push(
                        snapshot_views(group@),
                    ));
                    assert(groups_views(out@) =~= groups_views(prev) + union_groups_of(
                        execution_plan@,
                    ));
                }
            },
            PhysicalPlan::Union { children } => {
                proof {
                    lemma_plan_views(children@);
                }
                let mut group: Vec<IndexSnapshot> = Vec::new();
                proof {
                    assert(snapshot_views(group@) =~= Seq::<IndexSnapshotV>::empty());
                }
                self.collect_snapshots_seq(children, 0, &mut group);
                proof {
                    assert(plan_views(children@).skip(0) =~= plan_views(children@));
                    assert(snapshot_views(group@) =~= snapshots_of_seq(plan_views(children@)));
                }
                let ghost prev = out@;
                out.push(group);
                proof {
                    assert(groups_views(prev.push(group)) =~= groups_views(prev).push(
                        snapshot_views(group@),
                    ));
                    assert(groups_views(out@) =~= groups_views(prev) + union_groups_of(
                        execution_plan@,
                    ));
                }
            },
            _ => {
                proof {
                    lemma_groups_via_children(execution_plan@);
                }
                match execution_plan.children_ref() {
                    Option::Some(children) => {
                        self.collect_groups_seq(children, 0, out);
                        proof {
                            assert(plan_views(children@).skip(0) =~= plan_views(children@));
                        }
                    },
                    Option::None => {
                        proof {
                            assert(union_groups_of_seq(children_of(execution_plan@))
                                =~= Seq::<Seq<IndexSnapshotV>>::empty());
                            assert(groups_views(out@) =~= groups_views(out@) + union_groups_of(
                                execution_plan@,
                            ));
                        }
                    },
                }
            },
        }
    }

    fn collect_groups_seq(
        &self,
        children: &Vec<PhysicalPlan>,
        i: usize,
        out: &mut Vec<Vec<IndexSnapshot>>,
    )
        requires
            i <= children@.len(),
        ensures
            groups_views(final(out)@) == groups_views(old(out)@) + union_groups_of_seq(
                plan_views(children@).skip(i as int),
            ),
        decreases plan_height_seq(children@), 1int, children@.len() - i,
    {
        proof {
            lemma_plan_views(children@);
        }
        if i == children.len() {
            proof {
                assert(plan_views(children@).skip(i as int) =~= Seq::<PlanV>::empty());
                assert(groups_views(out@) =~= groups_views(out@) + union_groups_of_seq(
                    Seq::<PlanV>::empty(),
                ));
            }
        } else {
            proof {
                lemma_plan_height_seq(children@, i as int);
                assert(plan_views(children@).skip(i as int)[0] == plan_views(children@)[i as int]);
                assert(plan_views(children@).skip(i as int).drop_first() =~= plan_views(
                    children@,
                ).skip(i + 1));
            }
            self.collect_groups(&children[i], out);
            self.collect_groups_seq(children, i + 1, out);
            proof {
                assert(groups_views(out@) =~= groups_views(old(out)@) + union_groups_of_seq(
                    plan_views(children@).skip(i as int),
                ));
            }
        }
    }

    /// The snapshot groups under the plan, as the exchange will receive them.
    pub fn union_snapshots_from_cube_table(&self, execution_plan: &PhysicalPlan) -> (r: Vec<
        Vec<IndexSnapshot>,
    >)
        ensures
            groups_views(r@) == union_groups_of(execution_plan@),
    {
        let mut out: Vec<Vec<IndexSnapshot>> = Vec::new();
        proof {
            assert(groups_views(out@) =~= Seq::<Seq<IndexSnapshotV>>::empty());
        }
        self.collect_groups(execution_plan, &mut out);
        proof {
            assert(groups_views(out@) =~= union_groups_of(execution_plan@));
        }
        out
    }

    /// Replaces the children of the split node with a merge over one exchange,
    /// or with an empty relation when nothing below it reads an index.
    pub fn wrap_with_cluster_send(
        &self,
        execution_plan: PhysicalPlan,
        serialized_plan: &SerializedPlan,
        available_nodes: &Vec<String>,
    ) -> (r: Result<PhysicalPlan, CubeError>)
        requires
            children_of(execution_plan@).len() >= 1,
            arity_ok(kind_of(execution_plan@), 1),
        ensures
            r matches Ok(p) && p@ == wrapped_v(
                execution_plan@,
                serialized_plan@,
                crate::plan::string_seq_views(available_nodes@),
            ),
    {
        let ghost pv = execution_plan@;
        let ghost nodes_v = crate::plan::string_seq_views(available_nodes@);
        let union_snapshots = self.union_snapshots_from_cube_table(&execution_plan);
        let child_schema = match execution_plan.children_ref() {
            Option::Some(children) => {
                proof {
                    lemma_plan_views(children@);
                    assert(children_of(pv)[0] == plan_view(children@[0]));
                }
                children[0].schema()
            },
            Option::None => {
                proof {
                    assert(false);
                }
                Vec::new()
            },
        };
        proof {
            assert(col_views(child_schema@) == schema_of_first(children_of(pv)));
        }
        if union_snapshots.len() > 0 {
            let ghost groups = union_groups_of(pv);
            let cluster_exec = ClusterSendExec::new(
                child_schema,
                serialized_plan.clone(),
                clone_string_vec(available_nodes),
                union_snapshots,
            );
            proof {
                assert(groups.len() > 0);
                assert(crate::plan::cluster_send_view(cluster_exec) == (PlanV::ClusterSend {
                    schema: schema_of_first(children_of(pv)),
                    partitions: cartesian(group_partition_lists(groups)),
                    available_nodes: nodes_v,
                    serialized_plan: serialized_plan@,
                })) by {
                    assert(col_views(cluster_exec.schema@) == schema_of_first(children_of(pv)));
                    assert(crate::plan::partition_matrix_views(cluster_exec.partitions@)
                        == cartesian(group_partition_lists(groups)));
                    assert(crate::plan::string_seq_views(cluster_exec.available_nodes@)
                        == nodes_v);
                    assert(cluster_exec.serialized_plan@ == serialized_plan@);
                }
            }
            let send = PhysicalPlan::ClusterSend(cluster_exec);
            let mut send_children: Vec<PhysicalPlan> = Vec::new();
            send_children.push(send);
            proof {
                lemma_plan_views(send_children@);
                assert(plan_views(send_children@) =~= seq![plan_view(send_children@[0])]);
            }
            let merge = PhysicalPlan::Merge { children: send_children };
            let mut new_children: Vec<PhysicalPlan> = Vec::new();
            new_children.push(merge);
            proof {
                lemma_plan_views(new_children@);
                assert(plan_views(new_children@) =~= seq![plan_view(new_children@[0])]);
                assert(plan_views(new_children@) =~= seq![
                    PlanV::Merge {
                        children: seq![
                            PlanV::ClusterSend {
                                schema: schema_of_first(children_of(pv)),
                                partitions: cartesian(group_partition_lists(groups)),
                                available_nodes: nodes_v,
                                serialized_plan: serialized_plan@,
                            },
                        ],
                    },
                ]);
            }
            let r = execution_plan.with_new_children(new_children);
            proof {
                assert(r matches Ok(p) && p@ == wrapped_v(pv, serialized_plan@, nodes_v));
            }
            r
        } else {
            proof {
                assert(union_groups_of(pv).len() == 0);
            }
            let empty = PhysicalPlan::Empty { schema: child_schema };
            let mut new_children: Vec<PhysicalPlan> = Vec::new();
            new_children.push(empty);
            proof {
                lemma_plan_views(new_children@);
                assert(plan_views(new_children@) =~= seq![plan_view(new_children@[0])]);
                assert(plan_views(new_children@) =~= seq![
                    PlanV::Empty { schema: schema_of_first(children_of(pv)) },
                ]);
            }
            let r = execution_plan.with_new_children(new_children);
            proof {
                assert(r matches Ok(p) && p@ == wrapped_v(pv, serialized_plan@, nodes_v));
            }
            r
        }
    }

    /// The router-side rewrite: pick the marker and split there; with no
    /// aggregate, sort or limit anywhere, the root itself is the split node.
    pub fn get_router_split_plan(
        &self,
        execution_plan: PhysicalPlan,
        serialized_plan: &SerializedPlan,
        available_nodes: &Vec<String>,
    ) -> (r: Result<PhysicalPlan, CubeError>)
        requires
            router_ok(execution_plan@),
        ensures
            r matches Ok(p) && p@ == router_split_v(
                execution_plan@,
                serialized_plan@,
                crate::plan::string_seq_views(available_nodes@),
            ),
        decreases plan_height(execution_plan), 3int, 0int,
    {
        let marker = self.split_marker(&execution_plan);
        self.get_router_split_plan_at(execution_plan, serialized_plan, available_nodes, marker)
    }

    /// The router-side rewrite below a chosen marker.
    fn get_router_split_plan_at(
        &self,
        execution_plan: PhysicalPlan,
        serialized_plan: &SerializedPlan,
        available_nodes: &Vec<String>,
        split_marker: Option<PlanNodeKind>,
    ) -> (r: Result<PhysicalPlan, CubeError>)
        requires
            router_ok(execution_plan@),
            split_marker == first_marker(execution_plan@),
        ensures
            r matches Ok(p) && p@ == router_split_v(
                execution_plan@,
                serialized_plan@,
                crate::plan::string_seq_views(available_nodes@),
            ),
        decreases plan_height(execution_plan), 2int, 0int,
    {
        let matched = match split_marker {
            Option::Some(k) => execution_plan.kind() == k,
            Option::None => true,
        };
        if matched {
            self.wrap_with_cluster_send(execution_plan, serialized_plan, available_nodes)
        } else {
            let ghost orig = execution_plan;
            let ghost nodes_v = crate::plan::string_seq_views(available_nodes@);
            match execution_plan {
                PhysicalPlan::HashAggregate { schema, children } => {
                    let new_children = self.router_split_children(
                        children,
                        serialized_plan,
                        available_nodes,
                        Ghost(orig),
                    )?;
                    Result::Ok(PhysicalPlan::HashAggregate { schema, children: new_children })
                },
                PhysicalPlan::Sort { children } => {
                    let new_children = self.router_split_children(
                        children,
                        serialized_plan,
                        available_nodes,
                        Ghost(orig),
                    )?;
                    Result::Ok(PhysicalPlan::Sort { children: new_children })
                },
                PhysicalPlan::GlobalLimit { limit, children } => {
                    let new_children = self.router_split_children(
                        children,
                        serialized_plan,
                        available_nodes,
                        Ghost(orig),
                    )?;
                    Result::Ok(PhysicalPlan::GlobalLimit { limit, children: new_children })
                },
                PhysicalPlan::Union { children } => {
                    let new_children = self.router_split_children(
                        children,
                        serialized_plan,
                        available_nodes,
                        Ghost(orig),
                    )?;
                    Result::Ok(PhysicalPlan::Union { children: new_children })
                },
                PhysicalPlan::Join { schema, children } => {
                    let new_children = self.router_split_children(
                        children,
                        serialized_plan,
                        available_nodes,
                        Ghost(orig),
                    )?;
                    Result::Ok(PhysicalPlan::Join { schema, children: new_children })
                },
                PhysicalPlan::Merge { children } => {
                    let new_children = self.router_split_children(
                        children,
                        serialized_plan,
                        available_nodes,
                        Ghost(orig),
                    )?;
                    Result::Ok(PhysicalPlan::Merge { children: new_children })
                },
                PhysicalPlan::MergeSort { join_on, children } => {
                    let new_children = self.router_split_children(
                        children,
                        serialized_plan,
                        available_nodes,
                        Ghost(orig),
                    )?;
                    Result::Ok(PhysicalPlan::MergeSort { join_on, children: new_children })
                },
                PhysicalPlan::IndexScan(e) => {
                    let new_children = self.router_split_children(
                        e.partition_execs,
                        serialized_plan,
                        available_nodes,
                        Ghost(orig),
                    )?;
                    Result::Ok(
                        PhysicalPlan::IndexScan(
                            crate::plan::CubeTableExec {
                                schema: e.schema,
                                index_snapshot: e.index_snapshot,
                                partition_execs: new_children,
                            },
                        ),
                    )
                },
                PhysicalPlan::ClusterSend(e) => Result::Ok(PhysicalPlan::ClusterSend(e)),
                PhysicalPlan::ParquetScan { path, projection, batch_size, schema } => {
                    Result::Ok(PhysicalPlan::ParquetScan { path, projection, batch_size, schema })
                },
                PhysicalPlan::Empty { schema } => Result::Ok(PhysicalPlan::Empty { schema }),
            }
        }
    }

    fn router_split_children(
        &self,
        mut children: Vec<PhysicalPlan>,
        serialized_plan: &SerializedPlan,
        available_nodes: &Vec<String>,
        parent: Ghost<PhysicalPlan>,
    ) -> (r: Result<Vec<PhysicalPlan>, CubeError>)
        requires
            router_ok_seq(plan_views(children@)),
            plan_height_seq(children@) < plan_height(parent@),
        ensures
            r matches Ok(cs) && plan_views(cs@) == router_split_seq_v(
                plan_views(children@),
                serialized_plan@,
                crate::plan::string_seq_views(available_nodes@),
            ),
        decreases plan_height(parent@), 1int, 0int,
    {
        let ghost orig = children@;
        let ghost nodes_v = crate::plan::string_seq_views(available_nodes@);
        proof {
            lemma_plan_views(orig);
        }
        let mut new_children: Vec<PhysicalPlan> = Vec::new();
        let ghost mut k: int = 0;
        proof {
            assert(children@ =~= orig.skip(0));
            assert(plan_views(new_children@) =~= Seq::<PlanV>::empty());
            assert(plan_views(orig).skip(0) =~= plan_views(orig));
            assert(plan_views(new_children@) + router_split_seq_v(
                plan_views(orig).skip(0),
                serialized_plan@,
                nodes_v,
            ) =~= router_split_seq_v(plan_views(orig), serialized_plan@, nodes_v));
        }
        while children.len() > 0
            invariant
                0 <= k <= orig.len(),
                children@ == orig.skip(k),
                plan_views(new_children@) + router_split_seq_v(
                    plan_views(orig).skip(k),
                    serialized_plan@,
                    nodes_v,
                ) == router_split_seq_v(plan_views(orig), serialized_plan@, nodes_v),
                plan_views(orig).len() == orig.len(),
                router_ok_seq(plan_views(orig)),
                plan_height_seq(orig) < plan_height(parent@),
                nodes_v == crate::plan::string_seq_views(available_nodes@),
            decreases children@.len(),
        {
            proof {
                lemma_plan_views(orig);
                assert(orig.skip(k).len() > 0);
                assert(k < orig.len());
                lemma_router_ok_seq_at(plan_views(orig), k);
                lemma_plan_height_seq(orig, k);
                assert(orig.skip(k)[0] == orig[k]);
                assert(plan_views(orig)[k] == plan_view(orig[k]));
            }
            let c = children.remove(0);
            proof {
                assert(c == orig[k]);
                assert(children@ =~= orig.skip(k + 1)) by {
                    assert(orig.skip(k).drop_first() =~= orig.skip(k + 1));
                }
                assert(router_ok(c@));
                assert(plan_height(c) < plan_height(parent@));
            }
            let split = self.get_router_split_plan(c, serialized_plan, available_nodes)?;
            let ghost prev = new_children@;
            new_children.push(split);
            proof {
                lemma_plan_views(orig);
                lemma_plan_views(prev.push(split));
                lemma_plan_views(prev);
                assert(plan_views(prev.push(split)) =~= plan_views(prev).push(plan_view(split)));
                assert(plan_views(orig).skip(k)[0] == plan_views(orig)[k]);
                assert(router_split_seq_v(plan_views(orig).skip(k), serialized_plan@, nodes_v)
                    =~= seq![router_split_v(plan_views(orig)[k], serialized_plan@, nodes_v)]
                    + router_split_seq_v(plan_views(orig).skip(k + 1), serialized_plan@, nodes_v))
                    by {
                    assert(plan_views(orig).skip(k).drop_first() =~= plan_views(orig).skip(k + 1));
                }
                assert(plan_views(new_children@) + router_split_seq_v(
                    plan_views(orig).skip(k + 1),
                    serialized_plan@,
                    nodes_v,
                ) =~= router_split_seq_v(plan_views(orig), serialized_plan@, nodes_v));
                k = k + 1;
            }
        }
        proof {
            lemma_plan_views(orig);
            assert(k == orig.len());
            assert(plan_views(orig).skip(k) =~= Seq::<PlanV>::empty());
            assert(plan_views(new_children@) =~= router_split_seq_v(
                plan_views(orig),
                serialized_plan@,
                nodes_v,
            ));
        }
        Result::Ok(new_children)
    }

    /// The worker-side rewrite: descend to the mirror split point and return
    /// the subtree the worker must execute.
    pub fn get_worker_split_plan(&self, execution_plan: PhysicalPlan) -> (r: PhysicalPlan)
        requires
            worker_ok(execution_plan@),
        ensures
            r@ == worker_split_v(execution_plan@),
        decreases plan_height(execution_plan), 1int,
    {
        let marker = self.split_marker(&execution_plan);
        self.get_worker_split_plan_at(execution_plan, marker)
    }

    fn get_worker_split_plan_at(
        &self,
        execution_plan: PhysicalPlan,
        split_marker: Option<PlanNodeKind>,
    ) -> (r: PhysicalPlan)
        requires
            worker_ok(execution_plan@),
            split_marker == first_marker(execution_plan@),
        ensures
            r@ == worker_split_v(execution_plan@),
        decreases plan_height(execution_plan), 0int,
    {
        let matched = match split_marker {
            Option::Some(k) => execution_plan.kind() == k,
            Option::None => true,
        };
        let ghost orig = execution_plan;
        let children: Vec<PhysicalPlan> = match execution_plan {
            PhysicalPlan::HashAggregate { children, .. } => {
                proof {
                    assert(children_of(orig@) == plan_views(children@));
                    assert(plan_height(orig) == 1 + plan_height_seq(children@));
                    assert(!matched ==> worker_ok_first(plan_views(children@)));
                    assert(!matched ==> worker_split_v(orig@) == worker_split_first(plan_views(
                        children@,
                    )));
                }
                children
            },
            PhysicalPlan::Sort { children } => {
                proof {
                    assert(children_of(orig@) == plan_views(children@));
                    assert(plan_height(orig) == 1 + plan_height_seq(children@));
                    assert(!matched ==> worker_ok_first(plan_views(children@)));
                    assert(!matched ==> worker_split_v(orig@) == worker_split_first(plan_views(
                        children@,
                    )));
                }
                children
            },
            PhysicalPlan::GlobalLimit { children, .. } => {
                proof {
                    assert(children_of(orig@) == plan_views(children@));
                    assert(plan_height(orig) == 1 + plan_height_seq(children@));
                    assert(!matched ==> worker_ok_first(plan_views(children@)));
                    assert(!matched ==> worker_split_v(orig@) == worker_split_first(plan_views(
                        children@,
                    )));
                }
                children
            },
            PhysicalPlan::Union { children } => {
                proof {
                    assert(children_of(orig@) == plan_views(children@));
                    assert(plan_height(orig) == 1 + plan_height_seq(children@));
                    assert(!matched ==> worker_ok_first(plan_views(children@)));
                    assert(!matched ==> worker_split_v(orig@) == worker_split_first(plan_views(
                        children@,
                    )));
                }
                children
            },
            PhysicalPlan::Join { children, .. } => {
                proof {
                    assert(children_of(orig@) == plan_views(children@));
                    assert(plan_height(orig) == 1 + plan_height_seq(children@));
                    assert(!matched ==> worker_ok_first(plan_views(children@)));
                    assert(!matched ==> worker_split_v(orig@) == worker_split_first(plan_views(
                        children@,
                    )));
                }
                children
            },
            PhysicalPlan::Merge { children } => {
                proof {
                    assert(children_of(orig@) == plan_views(children@));
                    assert(plan_height(orig) == 1 + plan_height_seq(children@));
                    assert(!matched ==> worker_ok_first(plan_views(children@)));
                    assert(!matched ==> worker_split_v(orig@) == worker_split_first(plan_views(
                        children@,
                    )));
                }
                children
            },
            PhysicalPlan::MergeSort { children, .. } => {
                proof {
                    assert(children_of(orig@) == plan_views(children@));
                    assert(plan_height(orig) == 1 + plan_height_seq(children@));
                    assert(!matched ==> worker_ok_first(plan_views(children@)));
                    assert(!matched ==> worker_split_v(orig@) == worker_split_first(plan_views(
                        children@,
                    )));
                }
                children
            },
            PhysicalPlan::IndexScan(e) => {
                proof {
                    assert(children_of(orig@) == plan_views(e.partition_execs@));
                    assert(plan_height(orig) == 1 + plan_height_seq(e.partition_execs@));
                    assert(!matched ==> worker_ok_first(plan_views(e.partition_execs@)));
                    assert(!matched ==> worker_split_v(orig@) == worker_split_first(plan_views(
                        e.partition_execs@,
                    )));
                }
                e.partition_execs
            },
            PhysicalPlan::ClusterSend(e) => {
                proof {
                    assert(false);
                }
                Vec::new()
            },
            PhysicalPlan::ParquetScan { .. } => {
                proof {
                    assert(false);
                }
                Vec::new()
            },
            PhysicalPlan::Empty { .. } => {
                proof {
                    assert(false);
                }
                Vec::new()
            },
        };
        let ghost cs0 = children@;
        proof {
            lemma_plan_views(cs0);
            assert(cs0.len() == children_of(orig@).len());
        }
        let mut children = children;
        let child = children.remove(0);
        proof {
            assert(child == cs0[0]);
            assert(child@ == children_of(orig@)[0]);
        }
        if matched {
            child
        } else {
            proof {
                lemma_plan_height_seq(cs0, 0);
                assert(plan_height(child) <= plan_height_seq(cs0));
                assert(plan_height(child) < plan_height(orig));
                assert(worker_ok_first(plan_views(cs0)));
                assert(worker_ok(child@));
            }
            self.get_worker_split_plan(child)
        }
    }
}

proof fn lemma_router_ok_seq_at(s: Seq<PlanV>, i: int)
    requires
        router_ok_seq(s),
        0 <= i < s.len(),
    ensures
        router_ok(s[i]),
    decreases s.len(),
{
    if i > 0 {
        lemma_router_ok_seq_at(s.drop_first(), i - 1);
    }
}


/// Away from the split node, the router condition is the children's.
proof fn lemma_router_ok_via_children(p: PlanV)
    requires
        !matches_marker(p, first_marker(p)),
    ensures
        router_ok(p) == router_ok_seq(children_of(p)),
{
    if children_of(p).len() == 0 {
        assert(router_ok_seq(children_of(p)) == true);
    }
}

/// The worker condition, phrased over the children sequence.
proof fn lemma_worker_ok_via_children(p: PlanV)
    ensures
        worker_ok(p) == (children_of(p).len() == 1 && (matches_marker(p, first_marker(p))
            || worker_ok_first(children_of(p)))),
{
}


impl QueryExecutorImpl {
    /// Whether the router rewrite is defined on this plan: every node the
    /// dispatch can split at has a child and can be rebuilt over one child.
    pub fn router_splittable(&self, execution_plan: &PhysicalPlan) -> (r: bool)
        ensures
            r == router_ok(execution_plan@),
        decreases plan_height(*execution_plan), 5int, 0int,
    {
        let marker = self.split_marker(execution_plan);
        let matched = match marker {
            Option::Some(k) => execution_plan.kind() == k,
            Option::None => true,
        };
        match execution_plan.children_ref() {
            Option::Some(children) => {
                proof {
                    lemma_plan_views(children@);
                }
                if matched {
                    let ok = children.len() >= 1 && self.rebuild_arity_ok(execution_plan);
                    ok
                } else {
                    proof {
                        lemma_router_ok_via_children(execution_plan@);
                        assert(plan_views(children@).skip(0) =~= plan_views(children@));
                    }
                    self.router_splittable_seq(children, 0, Ghost(*execution_plan))
                }
            },
            Option::None => {
                if matched {
                    false
                } else {
                    proof {
                        lemma_router_ok_via_children(execution_plan@);
                    }
                    true
                }
            },
        }
    }

    fn rebuild_arity_ok(&self, execution_plan: &PhysicalPlan) -> (r: bool)
        ensures
            r == arity_ok(kind_of(execution_plan@), 1),
    {
        match execution_plan.kind() {
            PlanNodeKind::HashAggregate => true,
            PlanNodeKind::Sort => true,
            PlanNodeKind::GlobalLimit => true,
            PlanNodeKind::Union => true,
            PlanNodeKind::Merge => true,
            PlanNodeKind::MergeSort => true,
            PlanNodeKind::IndexScan => true,
            _ => false,
        }
    }

    fn router_splittable_seq(
        &self,
        children: &Vec<PhysicalPlan>,
        i: usize,
        parent: Ghost<PhysicalPlan>,
    ) -> (r: bool)
        requires
            i <= children@.len(),
            plan_height_seq(children@) < plan_height(parent@),
        ensures
            r == router_ok_seq(plan_views(children@).skip(i as int)),
        decreases plan_height(parent@), 4int, children@.len() - i,
    {
        proof {
            lemma_plan_views(children@);
        }
        if i == children.len() {
            proof {
                assert(plan_views(children@).skip(i as int) =~= Seq::<PlanV>::empty());
            }
            true
        } else {
            proof {
                lemma_plan_height_seq(children@, i as int);
                assert(plan_views(children@).skip(i as int)[0] == plan_views(children@)[i as int]);
                assert(plan_views(children@).skip(i as int).drop_first() =~= plan_views(
                    children@,
                ).skip(i + 1));
            }
            if self.router_splittable(&children[i]) {
                self.router_splittable_seq(children, i + 1, parent)
            } else {
                false
            }
        }
    }

    /// Whether the worker rewrite is defined on this plan: a single-child
    /// chain down to the split node.
    pub fn worker_splittable(&self, execution_plan: &PhysicalPlan) -> (r: bool)
        ensures
            r == worker_ok(execution_plan@),
        decreases plan_height(*execution_plan), 5int, 0int,
    {
        let marker = self.split_marker(execution_plan);
        let matched = match marker {
            Option::Some(k) => execution_plan.kind() == k,
            Option::None => true,
        };
        match execution_plan.children_ref() {
            Option::Some(children) => {
                proof {
                    lemma_plan_views(children@);
                }
                proof {
                    lemma_worker_ok_via_children(execution_plan@);
                }
                if children.len() != 1 {
                    false
                } else if matched {
                    true
                } else {
                    proof {
                        lemma_plan_height_seq(children@, 0);
                    }
                    self.worker_splittable(&children[0])
                }
            },
            Option::None => {
                proof {
                    lemma_worker_ok_via_children(execution_plan@);
                }
                false
            },
        }
    }
}

} // verus!
