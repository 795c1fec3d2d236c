use vstd::prelude::*;

use crate::metastore::{
    partition_views, IndexSnapshot, IndexSnapshotV, Partition, PartitionV, SerializedPlan,
    SerializedPlanV,
};
use crate::types::{col_views, Column, ColumnV, CubeError};

verus! {

/// The closed set of operator kinds this engine recognizes.
#[derive(Clone, Copy, PartialEq, Eq, Structural, Debug)]
pub enum PlanNodeKind {
    HashAggregate,
    Sort,
    GlobalLimit,
    Union,
    Join,
    Merge,
    MergeSort,
    IndexScan,
    ParquetScan,
    ClusterSend,
    Empty,
}

/// Mathematical image of a physical operator tree.
#[verifier::ext_equal]
pub enum PlanV {
    HashAggregate { schema: Seq<ColumnV>, children: Seq<PlanV> },
    Sort { children: Seq<PlanV> },
    GlobalLimit { limit: int, children: Seq<PlanV> },
    Union { children: Seq<PlanV> },
    Join { schema: Seq<ColumnV>, children: Seq<PlanV> },
    Merge { children: Seq<PlanV> },
    MergeSort { join_on: Seq<Seq<char>>, children: Seq<PlanV> },
    IndexScan { schema: Seq<ColumnV>, index_snapshot: IndexSnapshotV, children: Seq<PlanV> },
    ClusterSend {
        schema: Seq<ColumnV>,
        partitions: Seq<Seq<PartitionV>>,
        available_nodes: Seq<Seq<char>>,
        serialized_plan: SerializedPlanV,
    },
    ParquetScan {
        path: Seq<char>,
        projection: Option<Seq<int>>,
        batch_size: int,
        schema: Seq<ColumnV>,
    },
    Empty { schema: Seq<ColumnV> },
}

/// The fan-out over one index snapshot's partition files.
#[derive(Debug)]
pub struct CubeTableExec {
    pub schema: Vec<Column>,
    pub index_snapshot: IndexSnapshot,
    pub partition_execs: Vec<PhysicalPlan>,
}

/// The exchange operator: ships a partition-pinned plan to a worker node.
#[derive(Debug)]
pub struct ClusterSendExec {
    pub schema: Vec<Column>,
    pub partitions: Vec<Vec<Partition>>,
    pub available_nodes: Vec<String>,
    pub serialized_plan: SerializedPlan,
}

/// A physical operator tree, as a closed tagged variant.
#[derive(Debug)]
pub enum PhysicalPlan {
    HashAggregate { schema: Vec<Column>, children: Vec<PhysicalPlan> },
    Sort { children: Vec<PhysicalPlan> },
    GlobalLimit { limit: usize, children: Vec<PhysicalPlan> },
    Union { children: Vec<PhysicalPlan> },
    Join { schema: Vec<Column>, children: Vec<PhysicalPlan> },
    Merge { children: Vec<PhysicalPlan> },
    MergeSort { join_on: Vec<String>, children: Vec<PhysicalPlan> },
    IndexScan(CubeTableExec),
    ClusterSend(ClusterSendExec),
    ParquetScan {
        path: String,
        projection: Option<Vec<usize>>,
        batch_size: usize,
        schema: Vec<Column>,
    },
    Empty { schema: Vec<Column> },
}

pub open spec fn string_seq_views(s: Seq<String>) -> Seq<Seq<char>> {
    s.map_values(|x: String| x@)
}

pub open spec fn projection_view(p: Option<Vec<usize>>) -> Option<Seq<int>> {
    match p {
        Option::None => Option::None,
        Option::Some(v) => Option::Some(v@.map_values(|i: usize| i as int)),
    }
}

pub open spec fn partition_matrix_views(m: Seq<Vec<Partition>>) -> Seq<Seq<PartitionV>> {
    m.map_values(|g: Vec<Partition>| partition_views(g@))
}

pub open spec fn cluster_send_view(e: ClusterSendExec) -> PlanV {
    PlanV::ClusterSend {
        schema: col_views(e.schema@),
        partitions: partition_matrix_views(e.partitions@),
        available_nodes: string_seq_views(e.available_nodes@),
        serialized_plan: e.serialized_plan@,
    }
}

pub open spec fn plan_view(p: PhysicalPlan) -> PlanV
    decreases p,
{
    match p {
        PhysicalPlan::HashAggregate { schema, children } => PlanV::HashAggregate {
            schema: col_views(schema@),
            children: plan_views(children@),
        },
        PhysicalPlan::Sort { children } => PlanV::Sort { children: plan_views(children@) },
        PhysicalPlan::GlobalLimit { limit, children } => PlanV::GlobalLimit {
            limit: limit as int,
            children: plan_views(children@),
        },
        PhysicalPlan::Union { children } => PlanV::Union { children: plan_views(children@) },
        PhysicalPlan::Join { schema, children } => PlanV::Join {
            schema: col_views(schema@),
            children: plan_views(children@),
        },
        PhysicalPlan::Merge { children } => PlanV::Merge { children: plan_views(children@) },
        PhysicalPlan::MergeSort { join_on, children } => PlanV::MergeSort {
            join_on: string_seq_views(join_on@),
            children: plan_views(children@),
        },
        PhysicalPlan::IndexScan(e) => PlanV::IndexScan {
            schema: col_views(e.schema@),
            index_snapshot: e.index_snapshot@,
            children: plan_views(e.partition_execs@),
        },
        PhysicalPlan::ClusterSend(e) => cluster_send_view(e),
        PhysicalPlan::ParquetScan { path, projection, batch_size, schema } => PlanV::ParquetScan {
            path: path@,
            projection: projection_view(projection),
            batch_size: batch_size as int,
            schema: col_views(schema@),
        },
        PhysicalPlan::Empty { schema } => PlanV::Empty { schema: col_views(schema@) },
    }
}

pub open spec fn plan_views(s: Seq<PhysicalPlan>) -> Seq<PlanV>
    decreases s,
{
    if s.len() == 0 {
        Seq::empty()
    } else {
        seq![plan_view(s[0])] + plan_views(s.drop_first())
    }
}

pub proof fn lemma_plan_views(s: Seq<PhysicalPlan>)
    ensures
        plan_views(s).len() == s.len(),
        forall|i: int| 0 <= i < s.len() ==> plan_views(s)[i] == plan_view(s[i]),
    decreases s,
{
    if s.len() > 0 {
        lemma_plan_views(s.drop_first());
    }
}

impl View for PhysicalPlan {
    type V = PlanV;

    open spec fn view(&self) -> PlanV {
        plan_view(*self)
    }
}

impl View for CubeTableExec {
    type V = PlanV;

    open spec fn view(&self) -> PlanV {
        plan_view(PhysicalPlan::IndexScan(*self))
    }
}

impl View for ClusterSendExec {
    type V = PlanV;

    open spec fn view(&self) -> PlanV {
        cluster_send_view(*self)
    }
}

/// Height of a plan tree; the termination measure for tree recursion.
pub open spec fn plan_height(p: PhysicalPlan) -> nat
    decreases p,
{
    match p {
        PhysicalPlan::HashAggregate { schema, children } => 1 + plan_height_seq(children@),
        PhysicalPlan::Sort { children } => 1 + plan_height_seq(children@),
        PhysicalPlan::GlobalLimit { limit, children } => 1 + plan_height_seq(children@),
        PhysicalPlan::Union { children } => 1 + plan_height_seq(children@),
        PhysicalPlan::Join { schema, children } => 1 + plan_height_seq(children@),
        PhysicalPlan::Merge { children } => 1 + plan_height_seq(children@),
        PhysicalPlan::MergeSort { join_on, children } => 1 + plan_height_seq(children@),
        PhysicalPlan::IndexScan(e) => 1 + plan_height_seq(e.partition_execs@),
        PhysicalPlan::ClusterSend(e) => 0,
        PhysicalPlan::ParquetScan { .. } => 0,
        PhysicalPlan::Empty { .. } => 0,
    }
}

pub open spec fn plan_height_seq(s: Seq<PhysicalPlan>) -> nat
    decreases s,
{
    if s.len() == 0 {
        0
    } else if plan_height(s[0]) > plan_height_seq(s.drop_first()) {
        plan_height(s[0])
    } else {
        plan_height_seq(s.drop_first())
    }
}

pub proof fn lemma_plan_height_seq(s: Seq<PhysicalPlan>, i: int)
    requires
        0 <= i < s.len(),
    ensures
        plan_height(s[i]) <= plan_height_seq(s),
    decreases s,
{
    if i > 0 {
        lemma_plan_height_seq(s.drop_first(), i - 1);
    }
}

/// The kind tag of a node.
pub open spec fn kind_of(p: PlanV) -> PlanNodeKind {
    match p {
        PlanV::HashAggregate { .. } => PlanNodeKind::HashAggregate,
        PlanV::Sort { .. } => PlanNodeKind::Sort,
        PlanV::GlobalLimit { .. } => PlanNodeKind::GlobalLimit,
        PlanV::Union { .. } => PlanNodeKind::Union,
        PlanV::Join { .. } => PlanNodeKind::Join,
        PlanV::Merge { .. } => PlanNodeKind::Merge,
        PlanV::MergeSort { .. } => PlanNodeKind::MergeSort,
        PlanV::IndexScan { .. } => PlanNodeKind::IndexScan,
        PlanV::ClusterSend { .. } => PlanNodeKind::ClusterSend,
        PlanV::ParquetScan { .. } => PlanNodeKind::ParquetScan,
        PlanV::Empty { .. } => PlanNodeKind::Empty,
    }
}

/// The child subtrees of a node; exchange and file-scan nodes are leaves.
pub open spec fn children_of(p: PlanV) -> Seq<PlanV> {
    match p {
        PlanV::HashAggregate { children, .. } => children,
        PlanV::Sort { children } => children,
        PlanV::GlobalLimit { children, .. } => children,
        PlanV::Union { children } => children,
        PlanV::Join { children, .. } => children,
        PlanV::Merge { children } => children,
        PlanV::MergeSort { children, .. } => children,
        PlanV::IndexScan { children, .. } => children,
        PlanV::ClusterSend { .. } => Seq::empty(),
        PlanV::ParquetScan { .. } => Seq::empty(),
        PlanV::Empty { .. } => Seq::empty(),
    }
}

/// The same node with its children replaced; leaves are unchanged.
pub open spec fn with_children_v(p: PlanV, cs: Seq<PlanV>) -> PlanV {
    match p {
        PlanV::HashAggregate { schema, .. } => PlanV::HashAggregate { schema, children: cs },
        PlanV::Sort { .. } => PlanV::Sort { children: cs },
        PlanV::GlobalLimit { limit, .. } => PlanV::GlobalLimit { limit, children: cs },
        PlanV::Union { .. } => PlanV::Union { children: cs },
        PlanV::Join { schema, .. } => PlanV::Join { schema, children: cs },
        PlanV::Merge { .. } => PlanV::Merge { children: cs },
        PlanV::MergeSort { join_on, .. } => PlanV::MergeSort { join_on, children: cs },
        PlanV::IndexScan { schema, index_snapshot, .. } => PlanV::IndexScan {
            schema,
            index_snapshot,
            children: cs,
        },
        PlanV::ClusterSend { .. } => p,
        PlanV::ParquetScan { .. } => p,
        PlanV::Empty { .. } => p,
    }
}

/// How many children each kind of node accepts when rebuilt.
pub open spec fn arity_ok(k: PlanNodeKind, n: int) -> bool {
    match k {
        PlanNodeKind::HashAggregate => n == 1,
        PlanNodeKind::Sort => n == 1,
        PlanNodeKind::GlobalLimit => n == 1,
        PlanNodeKind::Union => true,
        PlanNodeKind::Join => n == 2,
        PlanNodeKind::Merge => n == 1,
        PlanNodeKind::MergeSort => n == 1,
        PlanNodeKind::IndexScan => true,
        PlanNodeKind::ClusterSend => n == 0,
        PlanNodeKind::ParquetScan => n == 0,
        PlanNodeKind::Empty => n == 0,
    }
}

/// The output schema of a node: pass-through operators take their first child's.
pub open spec fn schema_of(p: PlanV) -> Seq<ColumnV>
    decreases p,
{
    match p {
        PlanV::HashAggregate { schema, .. } => schema,
        PlanV::Sort { children } => schema_of_first(children),
        PlanV::GlobalLimit { children, .. } => schema_of_first(children),
        PlanV::Union { children } => schema_of_first(children),
        PlanV::Join { schema, .. } => schema,
        PlanV::Merge { children } => schema_of_first(children),
        PlanV::MergeSort { children, .. } => schema_of_first(children),
        PlanV::IndexScan { schema, .. } => schema,
        PlanV::ClusterSend { schema, .. } => schema,
        PlanV::ParquetScan { schema, .. } => schema,
        PlanV::Empty { schema } => schema,
    }
}

pub open spec fn schema_of_first(s: Seq<PlanV>) -> Seq<ColumnV>
    decreases s,
{
    if s.len() == 0 {
        Seq::empty()
    } else {
        schema_of(s[0])
    }
}

/// Whether some node of kind `k` occurs in the tree rooted at `p`.
pub open spec fn contains_kind(p: PlanV, k: PlanNodeKind) -> bool
    decreases p,
{
    kind_of(p) == k || (match p {
        PlanV::HashAggregate { children, .. } => contains_kind_seq(children, k),
        PlanV::Sort { children } => contains_kind_seq(children, k),
        PlanV::GlobalLimit { children, .. } => contains_kind_seq(children, k),
        PlanV::Union { children } => contains_kind_seq(children, k),
        PlanV::Join { children, .. } => contains_kind_seq(children, k),
        PlanV::Merge { children } => contains_kind_seq(children, k),
        PlanV::MergeSort { children, .. } => contains_kind_seq(children, k),
        PlanV::IndexScan { children, .. } => contains_kind_seq(children, k),
        PlanV::ClusterSend { .. } => false,
        PlanV::ParquetScan { .. } => false,
        PlanV::Empty { .. } => false,
    })
}

pub open spec fn contains_kind_seq(s: Seq<PlanV>, k: PlanNodeKind) -> bool
    decreases s,
{
    if s.len() == 0 {
        false
    } else {
        contains_kind(s[0], k) || contains_kind_seq(s.drop_first(), k)
    }
}

/// All index snapshots reachable under `p`, in depth-first order.
pub open spec fn snapshots_of(p: PlanV) -> Seq<IndexSnapshotV>
    decreases p,
{
    match p {
        PlanV::IndexScan { index_snapshot, .. } => seq![index_snapshot],
        PlanV::HashAggregate { children, .. } => snapshots_of_seq(children),
        PlanV::Sort { children } => snapshots_of_seq(children),
        PlanV::GlobalLimit { children, .. } => snapshots_of_seq(children),
        PlanV::Union { children } => snapshots_of_seq(children),
        PlanV::Join { children, .. } => snapshots_of_seq(children),
        PlanV::Merge { children } => snapshots_of_seq(children),
        PlanV::MergeSort { children, .. } => snapshots_of_seq(children),
        PlanV::ClusterSend { .. } => Seq::empty(),
        PlanV::ParquetScan { .. } => Seq::empty(),
        PlanV::Empty { .. } => Seq::empty(),
    }
}

pub open spec fn snapshots_of_seq(s: Seq<PlanV>) -> Seq<IndexSnapshotV>
    decreases s,
{
    if s.len() == 0 {
        Seq::empty()
    } else {
        snapshots_of(s[0]) + snapshots_of_seq(s.drop_first())
    }
}

/// Snapshot groups under `p`: all snapshots below a union form one group,
/// a lone index scan forms a singleton group, and groups from disjoint
/// subtrees are concatenated.
pub open spec fn union_groups_of(p: PlanV) -> Seq<Seq<IndexSnapshotV>>
    decreases p,
{
    match p {
        PlanV::IndexScan { index_snapshot, .. } => seq![seq![index_snapshot]],
        PlanV::Union { children } => seq![snapshots_of_seq(children)],
        PlanV::HashAggregate { children, .. } => union_groups_of_seq(children),
        PlanV::Sort { children } => union_groups_of_seq(children),
        PlanV::GlobalLimit { children, .. } => union_groups_of_seq(children),
        PlanV::Join { children, .. } => union_groups_of_seq(children),
        PlanV::Merge { children } => union_groups_of_seq(children),
        PlanV::MergeSort { children, .. } => union_groups_of_seq(children),
        PlanV::ClusterSend { .. } => Seq::empty(),
        PlanV::ParquetScan { .. } => Seq::empty(),
        PlanV::Empty { .. } => Seq::empty(),
    }
}

pub open spec fn union_groups_of_seq(s: Seq<PlanV>) -> Seq<Seq<IndexSnapshotV>>
    decreases s,
{
    if s.len() == 0 {
        Seq::empty()
    } else {
        union_groups_of(s[0]) + union_groups_of_seq(s.drop_first())
    }
}

/// Clones a column list; the view is preserved exactly.
pub fn clone_schema(v: &Vec<Column>) -> (r: Vec<Column>)
    ensures
        r@ == v@,
{
    let r = v.clone();
    proof {
        assert(r@ =~= v@);
    }
    r
}

pub fn clone_partition_group(v: &Vec<Partition>) -> (r: Vec<Partition>)
    ensures
        r@ == v@,
{
    let r = v.clone();
    proof {
        assert(r@ =~= v@);
    }
    r
}

pub fn clone_string_vec(v: &Vec<String>) -> (r: Vec<String>)
    ensures
        r@ == v@,
{
    let r = v.clone();
    proof {
        assert(r@ =~= v@);
    }
    r
}

impl PhysicalPlan {
    /// The kind tag of this node.
    pub fn kind(&self) -> (k: PlanNodeKind)
        ensures
            k == kind_of(self@),
    {
        match self {
            PhysicalPlan::HashAggregate { .. } => PlanNodeKind::HashAggregate,
            PhysicalPlan::Sort { .. } => PlanNodeKind::Sort,
            PhysicalPlan::GlobalLimit { .. } => PlanNodeKind::GlobalLimit,
            PhysicalPlan::Union { .. } => PlanNodeKind::Union,
            PhysicalPlan::Join { .. } => PlanNodeKind::Join,
            PhysicalPlan::Merge { .. } => PlanNodeKind::Merge,
            PhysicalPlan::MergeSort { .. } => PlanNodeKind::MergeSort,
            PhysicalPlan::IndexScan(..) => PlanNodeKind::IndexScan,
            PhysicalPlan::ClusterSend(..) => PlanNodeKind::ClusterSend,
            PhysicalPlan::ParquetScan { .. } => PlanNodeKind::ParquetScan,
            PhysicalPlan::Empty { .. } => PlanNodeKind::Empty,
        }
    }

    /// The child subtrees, by reference; leaves have none.
    pub fn children_ref(&self) -> (r: Option<&Vec<PhysicalPlan>>)
        ensures
            match r {
                Option::Some(cs) => children_of(self@) == plan_views(cs@) && plan_height_seq(cs@)
                    < plan_height(*self),
                Option::None => children_of(self@) == Seq::<PlanV>::empty(),
            },
    {
        match self {
            PhysicalPlan::HashAggregate { children, .. } => Option::Some(children),
            PhysicalPlan::Sort { children } => Option::Some(children),
            PhysicalPlan::GlobalLimit { children, .. } => Option::Some(children),
            PhysicalPlan::Union { children } => Option::Some(children),
            PhysicalPlan::Join { children, .. } => Option::Some(children),
            PhysicalPlan::Merge { children } => Option::Some(children),
            PhysicalPlan::MergeSort { children, .. } => Option::Some(children),
            PhysicalPlan::IndexScan(e) => Option::Some(&e.partition_execs),
            PhysicalPlan::ClusterSend(..) => Option::None,
            PhysicalPlan::ParquetScan { .. } => Option::None,
            PhysicalPlan::Empty { .. } => Option::None,
        }
    }

    /// The output schema of this node.
    pub fn schema(&self) -> (r: Vec<Column>)
        ensures
            col_views(r@) == schema_of(self@),
        decreases plan_height(*self), 0int,
    {
        match self {
            PhysicalPlan::HashAggregate { schema, .. } => clone_schema(schema),
            PhysicalPlan::Join { schema, .. } => clone_schema(schema),
            PhysicalPlan::IndexScan(e) => clone_schema(&e.schema),
            PhysicalPlan::ClusterSend(e) => clone_schema(&e.schema),
            PhysicalPlan::ParquetScan { schema, .. } => clone_schema(schema),
            PhysicalPlan::Empty { schema } => clone_schema(schema),
            PhysicalPlan::Sort { children } => Self::first_child_schema(children),
            PhysicalPlan::GlobalLimit { children, .. } => Self::first_child_schema(children),
            PhysicalPlan::Union { children } => Self::first_child_schema(children),
            PhysicalPlan::Merge { children } => Self::first_child_schema(children),
            PhysicalPlan::MergeSort { children, .. } => Self::first_child_schema(children),
        }
    }

    fn first_child_schema(children: &Vec<PhysicalPlan>) -> (r: Vec<Column>)
        ensures
            col_views(r@) == schema_of_first(plan_views(children@)),
        decreases plan_height_seq(children@), 1int,
    {
        proof {
            lemma_plan_views(children@);
        }
        if children.len() > 0 {
            proof {
                lemma_plan_height_seq(children@, 0);
            }
            children[0].schema()
        } else {
            let r: Vec<Column> = Vec::new();
            proof {
                assert(col_views(r@) =~= Seq::<ColumnV>::empty());
            }
            r
        }
    }

    /// Rebuilds this node over new children. Fails when the kind cannot take
    /// that number of children; an exchange node must stay a leaf.
    pub fn with_new_children(self, children: Vec<PhysicalPlan>) -> (r: Result<
        PhysicalPlan,
        CubeError,
    >)
        requires
            kind_of(self@) == PlanNodeKind::ClusterSend ==> children@.len() == 0,
        ensures
            arity_ok(kind_of(self@), children@.len() as int) ==> (r matches Ok(p) && p@
                == with_children_v(self@, plan_views(children@))),
            !arity_ok(kind_of(self@), children@.len() as int) ==> r is Err,
    {
        proof {
            lemma_plan_views(children@);
        }
        match self {
            PhysicalPlan::HashAggregate { schema, children: old_children } => {
                if children.len() == 1 {
                    Result::Ok(PhysicalPlan::HashAggregate { schema, children })
                } else {
                    Result::Err(CubeError::internal("expected one child".to_owned()))
                }
            },
            PhysicalPlan::Sort { children: old_children } => {
                if children.len() == 1 {
                    Result::Ok(PhysicalPlan::Sort { children })
                } else {
                    Result::Err(CubeError::internal("expected one child".to_owned()))
                }
            },
            PhysicalPlan::GlobalLimit { limit, children: old_children } => {
                if children.len() == 1 {
                    Result::Ok(PhysicalPlan::GlobalLimit { limit, children })
                } else {
                    Result::Err(CubeError::internal("expected one child".to_owned()))
                }
            },
            PhysicalPlan::Union { children: old_children } => {
                Result::Ok(PhysicalPlan::Union { children })
            },
            PhysicalPlan::Join { schema, children: old_children } => {
                if children.len() == 2 {
                    Result::Ok(PhysicalPlan::Join { schema, children })
                } else {
                    Result::Err(CubeError::internal("expected two children".to_owned()))
                }
            },
            PhysicalPlan::Merge { children: old_children } => {
                if children.len() == 1 {
                    Result::Ok(PhysicalPlan::Merge { children })
                } else {
                    Result::Err(CubeError::internal("expected one child".to_owned()))
                }
            },
            PhysicalPlan::MergeSort { join_on, children: old_children } => {
                if children.len() == 1 {
                    Result::Ok(PhysicalPlan::MergeSort { join_on, children })
                } else {
                    Result::Err(CubeError::internal("expected one child".to_owned()))
                }
            },
            PhysicalPlan::IndexScan(e) => {
                Result::Ok(PhysicalPlan::IndexScan(e.with_new_children(children)))
            },
            PhysicalPlan::ClusterSend(e) => Result::Ok(PhysicalPlan::ClusterSend(e)),
            PhysicalPlan::ParquetScan { path, projection, batch_size, schema } => {
                if children.len() == 0 {
                    Result::Ok(PhysicalPlan::ParquetScan { path, projection, batch_size, schema })
                } else {
                    Result::Err(CubeError::internal("expected no children".to_owned()))
                }
            },
            PhysicalPlan::Empty { schema } => {
                if children.len() == 0 {
                    Result::Ok(PhysicalPlan::Empty { schema })
                } else {
                    Result::Err(CubeError::internal("expected no children".to_owned()))
                }
            },
        }
    }
}

impl CubeTableExec {
    pub fn schema(&self) -> (r: Vec<Column>)
        ensures
            col_views(r@) == schema_of(self@),
    {
        clone_schema(&self.schema)
    }

    /// The fan-out width: one output partition per emitted scan.
    pub fn output_partitioning(&self) -> (r: usize)
        ensures
            r as int == children_of(self@).len(),
    {
        proof {
            lemma_plan_views(self.partition_execs@);
        }
        self.partition_execs.len()
    }

    /// The same scan over a new fan-out.
    pub fn with_new_children(&self, children: Vec<PhysicalPlan>) -> (r: CubeTableExec)
        ensures
            r@ == with_children_v(self@, plan_views(children@)),
    {
        CubeTableExec {
            schema: clone_schema(&self.schema),
            index_snapshot: self.index_snapshot.clone(),
            partition_execs: children,
        }
    }
}

/// A node contains kind `k` exactly when it is of that kind or a child
/// subtree contains it.
pub proof fn lemma_contains_via_children(p: PlanV, k: PlanNodeKind)
    ensures
        contains_kind(p, k) == (kind_of(p) == k || contains_kind_seq(children_of(p), k)),
{
    if children_of(p).len() == 0 {
        assert(contains_kind_seq(children_of(p), k) == false);
    }
}

/// Away from an index scan, the snapshot list is the children's.
pub proof fn lemma_snapshots_via_children(p: PlanV)
    requires
        kind_of(p) != PlanNodeKind::IndexScan,
    ensures
        snapshots_of(p) == snapshots_of_seq(children_of(p)),
{
    if children_of(p).len() == 0 {
        assert(snapshots_of_seq(children_of(p)) =~= Seq::<IndexSnapshotV>::empty());
        assert(snapshots_of(p) =~= Seq::<IndexSnapshotV>::empty());
    }
}

/// Away from an index scan or a union, the snapshot groups are the children's.
pub proof fn lemma_groups_via_children(p: PlanV)
    requires
        kind_of(p) != PlanNodeKind::IndexScan,
        kind_of(p) != PlanNodeKind::Union,
    ensures
        union_groups_of(p) == union_groups_of_seq(children_of(p)),
{
    if children_of(p).len() == 0 {
        assert(union_groups_of_seq(children_of(p)) =~= Seq::<Seq<IndexSnapshotV>>::empty());
        assert(union_groups_of(p) =~= Seq::<Seq<IndexSnapshotV>>::empty());
    }
}

} // verus!
