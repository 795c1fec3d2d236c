use vstd::prelude::*;

use crate::cartesian::{
    cartesian, lemma_prepend_all_snoc, lemma_prepend_each_snoc, prepend_all, prepend_each,
};
use crate::metastore::{
    partition_views, snapshot_views, IndexSnapshot, IndexSnapshotV, Partition,
    PartitionSnapshotV, PartitionV, SerializedPlan,
};
use crate::plan::{
    clone_partition_group, clone_schema, clone_string_vec, partition_matrix_views,
    ClusterSendExec, PhysicalPlan,
};
use crate::types::{col_views, Column};

verus! {

/// The partitions of one snapshot, in order.
pub open spec fn snap_partitions(s: IndexSnapshotV) -> Seq<PartitionV> {
    s.partitions.map_values(|ps: PartitionSnapshotV| ps.partition)
}

/// The partitions of a union group: each snapshot's partitions, concatenated.
pub open spec fn group_partitions(g: Seq<IndexSnapshotV>) -> Seq<PartitionV>
    decreases g.len(),
{
    if g.len() == 0 {
        Seq::empty()
    } else {
        snap_partitions(g[0]) + group_partitions(g.drop_first())
    }
}

pub proof fn lemma_group_partitions_snoc(g: Seq<IndexSnapshotV>, x: IndexSnapshotV)
    ensures
        group_partitions(g.push(x)) == group_partitions(g) + snap_partitions(x),
    decreases g.len(),
{
    if g.len() == 0 {
        assert(g.push(x)[0] == x);
        assert(g.push(x).drop_first() =~= Seq::<IndexSnapshotV>::empty());
        assert(group_partitions(Seq::<IndexSnapshotV>::empty()) =~= Seq::<PartitionV>::empty());
        assert(group_partitions(g.push(x)) =~= group_partitions(g) + snap_partitions(x));
    } else {
        assert(g.push(x).drop_first() =~= g.drop_first().push(x));
        lemma_group_partitions_snoc(g.drop_first(), x);
        assert(group_partitions(g.push(x)) =~= group_partitions(g) + snap_partitions(x));
    }
}

pub open spec fn groups_views(s: Seq<Vec<IndexSnapshot>>) -> Seq<Seq<IndexSnapshotV>> {
    s.map_values(|g: Vec<IndexSnapshot>| snapshot_views(g@))
}

/// One partition list per union group.
pub open spec fn group_partition_lists(gs: Seq<Seq<IndexSnapshotV>>) -> Seq<Seq<PartitionV>> {
    gs.map_values(|g: Seq<IndexSnapshotV>| group_partitions(g))
}

pub open spec fn ids_of(g: Seq<PartitionV>) -> Seq<u64> {
    g.map_values(|p: PartitionV| p.id)
}

/// Collects the partitions of every snapshot of one union group, in order.
fn flatten_group(group: &Vec<IndexSnapshot>) -> (r: Vec<Partition>)
    ensures
        partition_views(r@) == group_partitions(snapshot_views(group@)),
{
    let mut r: Vec<Partition> = Vec::new();
    proof {
        assert(snapshot_views(group@).take(0) =~= Seq::<IndexSnapshotV>::empty());
        assert(partition_views(r@) =~= group_partitions(snapshot_views(group@).take(0)));
    }
    let mut i: usize = 0;
    while i < group.len()
        invariant
            0 <= i <= group.len(),
            partition_views(r@) == group_partitions(snapshot_views(group@).take(i as int)),
        decreases group.len() - i,
    {
        let snap = &group[i];
        let ps = snap.partitions();
        proof {
            assert(snap_partitions(snap@).take(0) =~= Seq::<PartitionV>::empty());
            assert(partition_views(r@) + snap_partitions(snap@).take(0) =~= partition_views(r@));
        }
        let ghost r_before = partition_views(r@);
        let mut j: usize = 0;
        while j < ps.len()
            invariant
                0 <= j <= ps.len(),
                ps@.map_values(|c: crate::metastore::PartitionSnapshot| c@) == snap@.partitions,
                snap_partitions(snap@).len() == ps@.len(),
                partition_views(r@) == r_before + snap_partitions(snap@).take(j as int),
            decreases ps.len() - j,
        {
            let p = ps[j].partition().clone();
            proof {
                assert(snap_partitions(snap@)[j as int] == snap@.partitions[j as int].partition);
                assert(p@ == snap_partitions(snap@)[j as int]);
            }
            let ghost prev = r@;
            r.push(p);
            proof {
                assert(partition_views(prev.push(p)) =~= partition_views(prev).push(p@));
                assert(snap_partitions(snap@).take(j + 1) =~= snap_partitions(snap@).take(
                    j as int,
                ).push(snap_partitions(snap@)[j as int]));
                assert(partition_views(r@) =~= r_before + snap_partitions(snap@).take(j + 1));
            }
            j += 1;
        }
        proof {
            assert(snap_partitions(snap@).take(ps@.len() as int) =~= snap_partitions(snap@));
            assert(snapshot_views(group@).take(i + 1) =~= snapshot_views(group@).take(
                i as int,
            ).push(snap@));
            lemma_group_partitions_snoc(snapshot_views(group@).take(i as int), snap@);
        }
        i += 1;
    }
    proof {
        assert(snapshot_views(group@).take(group.len() as int) =~= snapshot_views(group@));
    }
    r
}

/// A product tuple: `x` followed by the partitions of `t`.
fn make_tuple(x: &Partition, t: &Vec<Partition>) -> (r: Vec<Partition>)
    ensures
        partition_views(r@) == seq![x@] + partition_views(t@),
{
    let mut r: Vec<Partition> = Vec::new();
    r.push(x.clone());
    proof {
        assert(partition_views(t@).take(0) =~= Seq::<PartitionV>::empty());
        assert(partition_views(r@) =~= seq![x@] + partition_views(t@).take(0));
    }
    let mut j: usize = 0;
    while j < t.len()
        invariant
            0 <= j <= t.len(),
            partition_views(r@) == seq![x@] + partition_views(t@).take(j as int),
        decreases t.len() - j,
    {
        let ghost prev = r@;
        let p = t[j].clone();
        r.push(p);
        proof {
            assert(partition_views(prev.push(p)) =~= partition_views(prev).push(p@));
            assert(partition_views(t@).take(j + 1) =~= partition_views(t@).take(j as int).push(
                partition_views(t@)[j as int],
            ));
            assert(partition_views(r@) =~= seq![x@] + partition_views(t@).take(j + 1));
        }
        j += 1;
    }
    proof {
        assert(partition_views(t@).take(t@.len() as int) =~= partition_views(t@));
    }
    r
}

/// The cartesian product of the partition lists from `lists[i..]`, one tuple
/// per combination, in lexicographic order with the first list slowest.
fn cartesian_product_from(lists: &Vec<Vec<Partition>>, i: usize) -> (r: Vec<Vec<Partition>>)
    requires
        i <= lists@.len(),
    ensures
        partition_matrix_views(r@) == cartesian(
            partition_matrix_views(lists@).subrange(i as int, lists@.len() as int),
        ),
    decreases lists@.len() - i,
{
    let ghost full = partition_matrix_views(lists@);
    if i == lists.len() {
        let empty_tuple: Vec<Partition> = Vec::new();
        let mut r: Vec<Vec<Partition>> = Vec::new();
        r.push(empty_tuple);
        proof {
            assert(full.subrange(i as int, lists@.len() as int) =~= Seq::<Seq<PartitionV>>::empty());
            assert(partition_views(empty_tuple@) =~= Seq::<PartitionV>::empty());
            assert(partition_matrix_views(r@) =~= cartesian(
                full.subrange(i as int, lists@.len() as int),
            ));
        }
        r
    } else {
        let rest = cartesian_product_from(lists, i + 1);
        let xs = &lists[i];
        let ghost xsv = partition_views(xs@);
        let ghost tsv = partition_matrix_views(rest@);
        let mut out: Vec<Vec<Partition>> = Vec::new();
        proof {
            assert(xsv.take(0) =~= Seq::<PartitionV>::empty());
            assert(partition_matrix_views(out@) =~= prepend_all(xsv.take(0), tsv));
        }
        let mut a: usize = 0;
        while a < xs.len()
            invariant
                0 <= a <= xs.len(),
                xsv == partition_views(xs@),
                tsv == partition_matrix_views(rest@),
                xs@.len() == xsv.len(),
                rest@.len() == tsv.len(),
                partition_matrix_views(out@) == prepend_all(xsv.take(a as int), tsv),
            decreases xs.len() - a,
        {
            let ghost out_before = partition_matrix_views(out@);
            proof {
                assert(tsv.take(0) =~= Seq::<Seq<PartitionV>>::empty());
                assert(out_before + prepend_each(xsv[a as int], tsv.take(0)) =~= out_before);
            }
            let mut b: usize = 0;
            while b < rest.len()
                invariant
                    0 <= b <= rest.len(),
                    0 <= a < xs.len(),
                    xsv == partition_views(xs@),
                    tsv == partition_matrix_views(rest@),
                    xs@.len() == xsv.len(),
                    rest@.len() == tsv.len(),
                    out_before == prepend_all(xsv.take(a as int), tsv),
                    partition_matrix_views(out@) == out_before + prepend_each(
                        xsv[a as int],
                        tsv.take(b as int),
                    ),
                decreases rest.len() - b,
            {
                let tup = make_tuple(&xs[a], &rest[b]);
                proof {
                    assert(xs@[a as int]@ == xsv[a as int]);
                    assert(partition_views(rest@[b as int]@) == tsv[b as int]);
                }
                let ghost prev = out@;
                out.push(tup);
                proof {
                    assert(partition_matrix_views(prev.push(tup)) =~= partition_matrix_views(
                        prev,
                    ).push(partition_views(tup@)));
                    lemma_prepend_each_snoc(xsv[a as int], tsv.take(b as int), tsv[b as int]);
                    assert(tsv.take(b + 1) =~= tsv.take(b as int).push(tsv[b as int]));
                    assert(partition_matrix_views(out@) =~= out_before + prepend_each(
                        xsv[a as int],
                        tsv.take(b + 1),
                    ));
                }
                b += 1;
            }
            proof {
                assert(tsv.take(rest@.len() as int) =~= tsv);
                lemma_prepend_all_snoc(xsv.take(a as int), xsv[a as int], tsv);
                assert(xsv.take(a + 1) =~= xsv.take(a as int).push(xsv[a as int]));
            }
            a += 1;
        }
        proof {
            assert(xsv.take(xs@.len() as int) =~= xsv);
            let sub = full.subrange(i as int, lists@.len() as int);
            assert(sub[0] == partition_views(lists@[i as int]@));
            assert(sub.drop_first() =~= full.subrange(i + 1, lists@.len() as int));
            assert(cartesian(sub) == prepend_all(xsv, cartesian(sub.drop_first())));
        }
        out
    }
}

impl ClusterSendExec {
    /// Builds the exchange: flattens each union group into its partition list
    /// and materializes the cartesian product across groups, one output
    /// partition per tuple. An empty group list yields no output partitions.
    pub fn new(
        schema: Vec<Column>,
        serialized_plan: SerializedPlan,
        available_nodes: Vec<String>,
        union_snapshots: Vec<Vec<IndexSnapshot>>,
    ) -> (r: ClusterSendExec)
        ensures
            r.schema == schema,
            r.serialized_plan@ == serialized_plan@,
            r.available_nodes == available_nodes,
            union_snapshots@.len() == 0 ==> r.partitions@.len() == 0,
            union_snapshots@.len() > 0 ==> partition_matrix_views(r.partitions@) == cartesian(
                group_partition_lists(groups_views(union_snapshots@)),
            ),
    {
        let ghost gpl = group_partition_lists(groups_views(union_snapshots@));
        let mut to_multiply: Vec<Vec<Partition>> = Vec::new();
        proof {
            assert(partition_matrix_views(to_multiply@) =~= gpl.take(0));
        }
        let mut g: usize = 0;
        while g < union_snapshots.len()
            invariant
                0 <= g <= union_snapshots.len(),
                gpl == group_partition_lists(groups_views(union_snapshots@)),
                gpl.len() == union_snapshots@.len(),
                partition_matrix_views(to_multiply@) == gpl.take(g as int),
            decreases union_snapshots.len() - g,
        {
            let flat = flatten_group(&union_snapshots[g]);
            proof {
                assert(gpl[g as int] == group_partitions(snapshot_views(union_snapshots@[
                    g as int
                ]@)));
            }
            let ghost prev = to_multiply@;
            to_multiply.push(flat);
            proof {
                assert(partition_matrix_views(prev.push(flat)) =~= partition_matrix_views(
                    prev,
                ).push(partition_views(flat@)));
                assert(gpl.take(g + 1) =~= gpl.take(g as int).push(gpl[g as int]));
                assert(partition_matrix_views(to_multiply@) =~= gpl.take(g + 1));
            }
            g += 1;
        }
        proof {
            assert(gpl.take(union_snapshots@.len() as int) =~= gpl);
        }
        let partitions: Vec<Vec<Partition>> = if union_snapshots.len() == 0 {
            Vec::new()
        } else {
            let prod = cartesian_product_from(&to_multiply, 0);
            proof {
                assert(partition_matrix_views(to_multiply@).subrange(
                    0,
                    to_multiply@.len() as int,
                ) =~= partition_matrix_views(to_multiply@));
            }
            prod
        };
        ClusterSendExec { schema, partitions, available_nodes, serialized_plan }
    }

    pub fn schema(&self) -> (r: Vec<Column>)
        ensures
            col_views(r@) == col_views(self.schema@),
    {
        clone_schema(&self.schema)
    }

    /// One output partition per cartesian tuple.
    pub fn output_partitioning(&self) -> (r: usize)
        ensures
            r as int == self.partitions@.len(),
    {
        self.partitions.len()
    }

    /// The exchange is a leaf from the planner's viewpoint.
    pub fn children(&self) -> (r: Vec<PhysicalPlan>)
        ensures
            r@.len() == 0,
    {
        Vec::new()
    }

    /// Rebuilding an exchange is only legal with no children; handing it any
    /// child is a planner bug, which the caller must rule out.
    pub fn with_new_children(&self, children: Vec<PhysicalPlan>) -> (r: ClusterSendExec)
        requires
            children@.len() == 0,
        ensures
            r@ == self@,
    {
        let mut partitions: Vec<Vec<Partition>> = Vec::new();
        proof {
            assert(partition_matrix_views(partitions@) =~= partition_matrix_views(
                self.partitions@,
            ).take(0));
        }
        let mut i: usize = 0;
        while i < self.partitions.len()
            invariant
                0 <= i <= self.partitions@.len(),
                partition_matrix_views(partitions@) == partition_matrix_views(
                    self.partitions@,
                ).take(i as int),
            decreases self.partitions@.len() - i,
        {
            let grp = clone_partition_group(&self.partitions[i]);
            let ghost prev = partitions@;
            partitions.push(grp);
            proof {
                assert(partition_matrix_views(prev.push(grp)) =~= partition_matrix_views(
                    prev,
                ).push(partition_views(grp@)));
                let m = partition_matrix_views(self.partitions@);
                assert(m.take(i + 1) =~= m.take(i as int).push(m[i as int]));
                assert(partition_matrix_views(partitions@) =~= m.take(i + 1));
            }
            i += 1;
        }
        proof {
            assert(partition_matrix_views(self.partitions@).take(self.partitions@.len() as int)
                =~= partition_matrix_views(self.partitions@));
        }
        let r = ClusterSendExec {
            schema: clone_schema(&self.schema),
            partitions,
            available_nodes: clone_string_vec(&self.available_nodes),
            serialized_plan: self.serialized_plan.clone(),
        };
        proof {
            assert(r@ =~= self@);
        }
        r
    }

    /// The node the next dispatch goes to. The policy is a placeholder: always
    /// the first available node.
    pub fn selected_node(&self) -> (r: &String)
        requires
            self.available_nodes@.len() > 0,
        ensures
            r@ == self.available_nodes@[0]@,
    {
        &self.available_nodes[0]
    }

    /// The plan to ship for output partition `partition`: the shared plan,
    /// pinned to the IDs of that tuple's partitions.
    pub fn serialized_plan_for_partition(&self, partition: usize) -> (r: SerializedPlan)
        requires
            (partition as int) < self.partitions@.len(),
        ensures
            r@.data == self.serialized_plan@.data,
            r@.ids == ids_of(partition_views(self.partitions@[partition as int]@)),
    {
        let group = &self.partitions[partition];
        let mut ids: Vec<u64> = Vec::new();
        let mut j: usize = 0;
        while j < group.len()
            invariant
                0 <= j <= group@.len(),
                ids@.len() == j,
                forall|k: int| 0 <= k < j ==> ids@[k] == group@[k]@.id,
            decreases group@.len() - j,
        {
            ids.push(group[j].get_id());
            j += 1;
        }
        proof {
            assert(ids@ =~= ids_of(partition_views(group@)));
        }
        self.serialized_plan.with_partition_id_to_execute(ids)
    }
}

} // verus!
