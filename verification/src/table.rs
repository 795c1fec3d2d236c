use vstd::prelude::*;

use crate::metastore::{
    partition_snapshot_views, ChunkV, Index, IndexSnapshot, IndexSnapshotV, PartitionSnapshotV,
    Table,
};
use crate::plan::{CubeTableExec, PhysicalPlan, PlanV};
use crate::types::{col_views, Column, ColumnV, CubeError};

verus! {

/// The position of the first column of `cols` with the given name.
pub open spec fn find_position(cols: Seq<ColumnV>, name: Seq<char>) -> Option<int>
    decreases cols.len(),
{
    if cols.len() == 0 {
        None
    } else if cols[0].name == name {
        Some(0)
    } else {
        match find_position(cols.drop_first(), name) {
            None => None,
            Some(i) => Some(i + 1),
        }
    }
}

pub proof fn lemma_find_position(cols: Seq<ColumnV>, name: Seq<char>)
    ensures
        match find_position(cols, name) {
            Some(i) => 0 <= i < cols.len() && cols[i].name == name && (forall|j: int|
                0 <= j < i ==> cols[j].name != name),
            None => forall|j: int| 0 <= j < cols.len() ==> cols[j].name != name,
        },
    decreases cols.len(),
{
    if cols.len() > 0 && cols[0].name != name {
        lemma_find_position(cols.drop_first(), name);
        let rest = cols.drop_first();
        match find_position(rest, name) {
            Some(i) => {
                assert(rest[i] == cols[i + 1]);
                assert forall|j: int| 0 <= j < i + 1 implies cols[j].name != name by {
                    if j > 0 {
                        assert(rest[j - 1] == cols[j]);
                    }
                }
            },
            None => {
                assert forall|j: int| 0 <= j < cols.len() implies cols[j].name != name by {
                    if j > 0 {
                        assert(rest[j - 1] == cols[j]);
                    }
                }
            },
        }
    }
}

pub open spec fn opt_pos_view(o: Option<usize>) -> Option<int> {
    match o {
        None => None,
        Some(i) => Some(i as int),
    }
}

fn find_column_position(cols: &Vec<Column>, name: &String) -> (r: Option<usize>)
    ensures
        opt_pos_view(r) == find_position(col_views(cols@), name@),
{
    let ghost cv = col_views(cols@);
    proof {
        lemma_find_position(cv, name@);
    }
    let mut i: usize = 0;
    loop
        invariant
            0 <= i <= cols@.len(),
            cv == col_views(cols@),
            cv.len() == cols@.len(),
            forall|j: int| 0 <= j < i ==> cv[j].name != name@,
        ensures
            0 <= i <= cols@.len(),
            forall|j: int| 0 <= j < i ==> cv[j].name != name@,
            i < cols@.len() ==> cv[i as int].name == name@,
        decreases cols@.len() - i,
    {
        if i == cols.len() {
            break ;
        }
        if cols[i].get_name().eq(name) {
            proof {
                assert(cv[i as int].name == name@);
            }
            break ;
        }
        i += 1;
    }
    if i < cols.len() {
        proof {
            match find_position(cv, name@) {
                Some(k) => {
                    if k < i {
                        assert(cv[k].name != name@);
                    }
                    if k > i {
                        assert(cv[i as int].name != name@);
                    }
                },
                None => {
                    assert(cv[i as int].name != name@);
                },
            }
        }
        Some(i)
    } else {
        proof {
            match find_position(cv, name@) {
                Some(k) => {
                    assert(cv[k].name != name@);
                },
                None => {},
            }
        }
        None
    }
}

/// A table together with the index snapshot and per-worker context that its
/// scans are built from.
pub struct CubeTable {
    index_snapshot: IndexSnapshot,
    remote_to_local_names: Vec<(String, String)>,
    worker_partition_ids: Vec<u64>,
    schema: Vec<Column>,
}

/// Mathematical image of a `CubeTable`.
pub struct CubeTableV {
    pub index_snapshot: IndexSnapshotV,
    pub remote_to_local_names: Seq<(Seq<char>, Seq<char>)>,
    pub worker_partition_ids: Seq<u64>,
    pub schema: Seq<ColumnV>,
}

pub open spec fn pair_views(s: Seq<(String, String)>) -> Seq<(Seq<char>, Seq<char>)> {
    s.map_values(|p: (String, String)| (p.0@, p.1@))
}

impl View for CubeTable {
    type V = CubeTableV;

    closed spec fn view(&self) -> CubeTableV {
        CubeTableV {
            index_snapshot: self.index_snapshot@,
            remote_to_local_names: pair_views(self.remote_to_local_names@),
            worker_partition_ids: self.worker_partition_ids@,
            schema: col_views(self.schema@),
        }
    }
}

/// The local path mapped to a remote name, if one is listed.
pub open spec fn lookup_local(m: Seq<(Seq<char>, Seq<char>)>, key: Seq<char>) -> Option<Seq<char>>
    decreases m.len(),
{
    if m.len() == 0 {
        None
    } else if m[0].0 == key {
        Some(m[0].1)
    } else {
        lookup_local(m.drop_first(), key)
    }
}

fn lookup_local_name<'a>(m: &'a Vec<(String, String)>, key: &String) -> (r: Option<&'a String>)
    ensures
        r is Some <==> lookup_local(pair_views(m@), key@) is Some,
        r matches Some(l) ==> lookup_local(pair_views(m@), key@) == Some(l@),
    decreases m@.len(),
{
    let ghost mv = pair_views(m@);
    proof {
        assert(mv.skip(0) =~= mv);
    }
    let mut i: usize = 0;
    loop
        invariant
            0 <= i <= m@.len(),
            mv == pair_views(m@),
            mv.len() == m@.len(),
            lookup_local(mv, key@) == lookup_local(mv.skip(i as int), key@),
        ensures
            0 <= i <= m@.len(),
            lookup_local(mv, key@) == lookup_local(mv.skip(i as int), key@),
            i == m@.len() || mv[i as int].0 == key@,
        decreases m@.len() - i,
    {
        if i == m.len() {
            proof {
                assert(mv.skip(i as int) =~= Seq::<(Seq<char>, Seq<char>)>::empty());
            }
            break ;
        }
        proof {
            assert(mv.skip(i as int)[0] == mv[i as int]);
            assert(mv.skip(i as int).drop_first() =~= mv.skip(i + 1));
        }
        if m[i].0.eq(key) {
            break ;
        }
        i += 1;
    }
    if i < m.len() {
        proof {
            assert(mv.skip(i as int)[0] == mv[i as int]);
        }
        Some(&m[i].1)
    } else {
        proof {
            assert(mv.skip(i as int) =~= Seq::<(Seq<char>, Seq<char>)>::empty());
        }
        None
    }
}

fn contains_id(ids: &Vec<u64>, id: u64) -> (r: bool)
    ensures
        r == ids@.contains(id),
{
    let mut i: usize = 0;
    loop
        invariant
            0 <= i <= ids@.len(),
            forall|j: int| 0 <= j < i ==> ids@[j] != id,
        ensures
            0 <= i <= ids@.len(),
            forall|j: int| 0 <= j < i ==> ids@[j] != id,
            i < ids@.len() ==> ids@[i as int] == id,
        decreases ids@.len() - i,
    {
        if i == ids.len() {
            break ;
        }
        if ids[i] == id {
            break ;
        }
        i += 1;
    }
    if i < ids.len() {
        true
    } else {
        proof {
            assert(!ids@.contains(id));
        }
        false
    }
}

impl CubeTable {
    /// Builds the table over a snapshot; its schema is the index schema.
    pub fn try_new(
        index_snapshot: IndexSnapshot,
        remote_to_local_names: Vec<(String, String)>,
        worker_partition_ids: Vec<u64>,
    ) -> (r: Result<CubeTable, CubeError>)
        ensures
            r matches Ok(t) && t@ == (CubeTableV {
                index_snapshot: index_snapshot@,
                remote_to_local_names: pair_views(remote_to_local_names@),
                worker_partition_ids: worker_partition_ids@,
                schema: index_snapshot@.index,
            }),
    {
        let schema = crate::plan::clone_schema(index_snapshot.index().get_columns());
        let t = CubeTable { index_snapshot, remote_to_local_names, worker_partition_ids, schema };
        proof {
            assert(t@ =~= (CubeTableV {
                index_snapshot: index_snapshot@,
                remote_to_local_names: pair_views(remote_to_local_names@),
                worker_partition_ids: worker_partition_ids@,
                schema: index_snapshot@.index,
            }));
        }
        Result::Ok(t)
    }

    pub fn schema(&self) -> (r: &Vec<Column>)
        ensures
            col_views(r@) == self@.schema,
    {
        &self.schema
    }

    pub fn index_snapshot(&self) -> (r: &IndexSnapshot)
        ensures
            r@ == self@.index_snapshot,
    {
        &self.index_snapshot
    }

    /// The position of each projected column in the index schema, by name;
    /// a column the index does not carry yields `None` at its position.
    pub fn project_to_index_positions(projection_columns: &Vec<Column>, i: &Index) -> (r: Vec<
        Option<usize>,
    >)
        ensures
            r@.len() == projection_columns@.len(),
            forall|j: int|
                0 <= j < r@.len() ==> opt_pos_view(r@[j]) == find_position(
                    i@,
                    col_views(projection_columns@)[j].name,
                ),
    {
        let cols = i.get_columns();
        let mut r: Vec<Option<usize>> = Vec::new();
        let mut j: usize = 0;
        while j < projection_columns.len()
            invariant
                0 <= j <= projection_columns@.len(),
                r@.len() == j,
                col_views(cols@) == i@,
                forall|k: int|
                    0 <= k < j ==> opt_pos_view(r@[k]) == find_position(
                        i@,
                        col_views(projection_columns@)[k].name,
                    ),
            decreases projection_columns@.len() - j,
        {
            let p = find_column_position(cols, projection_columns[j].get_name());
            r.push(p);
            j += 1;
        }
        r
    }

    /// The projected columns of the table, in projection order.
    pub fn project_to_table(table: &Table, projection_column_indices: &Vec<usize>) -> (r: Vec<
        Column,
    >)
        requires
            forall|j: int|
                0 <= j < projection_column_indices@.len()
                    ==> projection_column_indices@[j] < table@.len(),
        ensures
            r@.len() == projection_column_indices@.len(),
            forall|j: int|
                0 <= j < r@.len() ==> col_views(r@)[j] == table@[projection_column_indices@[
                    j
                ] as int],
    {
        let cols = table.get_columns();
        let mut r: Vec<Column> = Vec::new();
        let mut j: usize = 0;
        while j < projection_column_indices.len()
            invariant
                0 <= j <= projection_column_indices@.len(),
                r@.len() == j,
                col_views(cols@) == table@,
                cols@.len() == table@.len(),
                forall|k: int|
                    0 <= k < projection_column_indices@.len() ==> projection_column_indices@[k]
                        < table@.len(),
                forall|k: int|
                    0 <= k < j ==> col_views(r@)[k] == table@[projection_column_indices@[k] as int],
            decreases projection_column_indices@.len() - j,
        {
            let idx = projection_column_indices[j];
            let c = cols[idx].clone();
            let ghost prev = r@;
            r.push(c);
            proof {
                assert(col_views(prev.push(c)) =~= col_views(prev).push(c@));
            }
            j += 1;
        }
        r
    }
}

/// Every projected table column resolves in the index by name to a column
/// with the same name; and where same-named table and index columns agree on
/// their type, as an index schema drawn from the table's columns does, the
/// resolved column has the projected column's type too.
pub proof fn lemma_projection_remap(table: Seq<ColumnV>, index: Seq<ColumnV>, p: Seq<int>)
    requires
        forall|j: int| #![trigger p[j]] 0 <= j < p.len() ==> 0 <= p[j] < table.len(),
        forall|j: int|
            #![trigger p[j]]
            0 <= j < p.len() ==> find_position(index, table[p[j]].name) is Some,
        forall|j: int, k: int|
            0 <= j < table.len() && 0 <= k < index.len() && #[trigger] index[k].name
                == #[trigger] table[j].name ==> index[k].column_type == table[j].column_type,
    ensures
        forall|j: int|
            #![trigger p[j]]
            0 <= j < p.len() ==> {
                let q = find_position(index, table[p[j]].name)->Some_0;
                &&& 0 <= q < index.len()
                &&& index[q].name == table[p[j]].name
                &&& index[q].column_type == table[p[j]].column_type
            },
{
    assert forall|j: int| #![trigger p[j]] 0 <= j < p.len() implies {
        let q = find_position(index, table[p[j]].name)->Some_0;
        &&& 0 <= q < index.len()
        &&& index[q].name == table[p[j]].name
        &&& index[q].column_type == table[p[j]].column_type
    } by {
        lemma_find_position(index, table[p[j]].name);
    }
}


/// A value for an optional local path; resolvable inputs never see the default.
pub open spec fn opt_val(o: Option<Seq<char>>) -> Seq<char> {
    match o {
        Some(x) => x,
        None => Seq::empty(),
    }
}

pub open spec fn pos_val(o: Option<int>) -> int {
    match o {
        Some(i) => i,
        None => 0,
    }
}

/// The index-schema positions of a table-schema projection, resolved by name.
pub open spec fn mapped_positions(table: Seq<ColumnV>, index: Seq<ColumnV>, p: Seq<int>) -> Seq<
    int,
> {
    Seq::new(p.len(), |j: int| pos_val(find_position(index, table[p[j]].name)))
}

/// The index schema filtered by the mapped positions, in their order.
pub open spec fn project_schema(index: Seq<ColumnV>, q: Seq<int>) -> Seq<ColumnV> {
    Seq::new(q.len(), |j: int| index[q[j]])
}

pub open spec fn parquet_node(
    path: Seq<char>,
    q: Option<Seq<int>>,
    batch_size: int,
    schema: Seq<ColumnV>,
) -> PlanV {
    PlanV::ParquetScan { path, projection: q, batch_size, schema }
}

/// One scan node per chunk, in chunk order.
pub open spec fn chunk_nodes(
    chunks: Seq<ChunkV>,
    m: Seq<(Seq<char>, Seq<char>)>,
    q: Option<Seq<int>>,
    batch_size: int,
    schema: Seq<ColumnV>,
) -> Seq<PlanV>
    decreases chunks.len(),
{
    if chunks.len() == 0 {
        Seq::empty()
    } else {
        seq![parquet_node(opt_val(lookup_local(m, chunks[0].file_name)), q, batch_size, schema)]
            + chunk_nodes(chunks.drop_first(), m, q, batch_size, schema)
    }
}

/// The scan nodes of one partition snapshot: its persisted file, if any,
/// then its chunks.
pub open spec fn snapshot_nodes(
    ps: PartitionSnapshotV,
    m: Seq<(Seq<char>, Seq<char>)>,
    q: Option<Seq<int>>,
    batch_size: int,
    schema: Seq<ColumnV>,
) -> Seq<PlanV> {
    (match ps.partition.file_name {
        Some(n) => seq![parquet_node(opt_val(lookup_local(m, n)), q, batch_size, schema)],
        None => Seq::empty(),
    }) + chunk_nodes(ps.chunks, m, q, batch_size, schema)
}

/// The full fan-out: partitions in the worker set contribute their nodes in
/// order, the others are skipped.
pub open spec fn scan_nodes(
    pss: Seq<PartitionSnapshotV>,
    ids: Seq<u64>,
    m: Seq<(Seq<char>, Seq<char>)>,
    q: Option<Seq<int>>,
    batch_size: int,
    schema: Seq<ColumnV>,
) -> Seq<PlanV>
    decreases pss.len(),
{
    if pss.len() == 0 {
        Seq::empty()
    } else {
        (if ids.contains(pss[0].partition.id) {
            snapshot_nodes(pss[0], m, q, batch_size, schema)
        } else {
            Seq::empty()
        }) + scan_nodes(pss.drop_first(), ids, m, q, batch_size, schema)
    }
}

pub proof fn lemma_scan_nodes_snoc(
    pss: Seq<PartitionSnapshotV>,
    x: PartitionSnapshotV,
    ids: Seq<u64>,
    m: Seq<(Seq<char>, Seq<char>)>,
    q: Option<Seq<int>>,
    batch_size: int,
    schema: Seq<ColumnV>,
)
    ensures
        scan_nodes(pss.push(x), ids, m, q, batch_size, schema) == scan_nodes(
            pss,
            ids,
            m,
            q,
            batch_size,
            schema,
        ) + (if ids.contains(x.partition.id) {
            snapshot_nodes(x, m, q, batch_size, schema)
        } else {
            Seq::<PlanV>::empty()
        }),
    decreases pss.len(),
{
    if pss.len() == 0 {
        assert(pss.push(x)[0] == x);
        assert(pss.push(x).drop_first() =~= Seq::<PartitionSnapshotV>::empty());
        assert(scan_nodes(Seq::<PartitionSnapshotV>::empty(), ids, m, q, batch_size, schema)
            =~= Seq::<PlanV>::empty());
        assert(scan_nodes(pss.push(x), ids, m, q, batch_size, schema) =~= scan_nodes(
            pss,
            ids,
            m,
            q,
            batch_size,
            schema,
        ) + (if ids.contains(x.partition.id) {
            snapshot_nodes(x, m, q, batch_size, schema)
        } else {
            Seq::<PlanV>::empty()
        }));
    } else {
        assert(pss.push(x).drop_first() =~= pss.drop_first().push(x));
        lemma_scan_nodes_snoc(pss.drop_first(), x, ids, m, q, batch_size, schema);
        assert(scan_nodes(pss.push(x), ids, m, q, batch_size, schema) =~= scan_nodes(
            pss,
            ids,
            m,
            q,
            batch_size,
            schema,
        ) + (if ids.contains(x.partition.id) {
            snapshot_nodes(x, m, q, batch_size, schema)
        } else {
            Seq::<PlanV>::empty()
        }));
    }
}

proof fn lemma_chunk_nodes_snoc(
    chunks: Seq<ChunkV>,
    x: ChunkV,
    m: Seq<(Seq<char>, Seq<char>)>,
    q: Option<Seq<int>>,
    batch_size: int,
    schema: Seq<ColumnV>,
)
    ensures
        chunk_nodes(chunks.push(x), m, q, batch_size, schema) == chunk_nodes(
            chunks,
            m,
            q,
            batch_size,
            schema,
        ) + seq![parquet_node(opt_val(lookup_local(m, x.file_name)), q, batch_size, schema)],
    decreases chunks.len(),
{
    if chunks.len() == 0 {
        assert(chunks.push(x)[0] == x);
        assert(chunks.push(x).drop_first() =~= Seq::<ChunkV>::empty());
        assert(chunk_nodes(Seq::<ChunkV>::empty(), m, q, batch_size, schema)
            =~= Seq::<PlanV>::empty());
        assert(chunk_nodes(chunks.push(x), m, q, batch_size, schema) =~= chunk_nodes(
            chunks,
            m,
            q,
            batch_size,
            schema,
        ) + seq![parquet_node(opt_val(lookup_local(m, x.file_name)), q, batch_size, schema)]);
    } else {
        assert(chunks.push(x).drop_first() =~= chunks.drop_first().push(x));
        lemma_chunk_nodes_snoc(chunks.drop_first(), x, m, q, batch_size, schema);
        assert(chunk_nodes(chunks.push(x), m, q, batch_size, schema) =~= chunk_nodes(
            chunks,
            m,
            q,
            batch_size,
            schema,
        ) + seq![parquet_node(opt_val(lookup_local(m, x.file_name)), q, batch_size, schema)]);
    }
}

/// The plan a scan builds: the mapped projection, the per-partition fan-out
/// with the empty guard, and the merge that matches the snapshot's join keys.
pub open spec fn spec_scan(t: CubeTableV, projection: Option<Seq<int>>, batch_size: int) -> PlanV {
    let q = match projection {
        None => None,
        Some(p) => Some(mapped_positions(t.index_snapshot.table, t.index_snapshot.index, p)),
    };
    let projected = match q {
        None => t.schema,
        Some(qs) => project_schema(t.index_snapshot.index, qs),
    };
    let nodes0 = scan_nodes(
        t.index_snapshot.partitions,
        t.worker_partition_ids,
        t.remote_to_local_names,
        q,
        batch_size,
        projected,
    );
    let nodes = if nodes0.len() == 0 {
        seq![PlanV::Empty { schema: t.schema }]
    } else {
        nodes0
    };
    let inner = PlanV::IndexScan {
        schema: projected,
        index_snapshot: t.index_snapshot,
        children: nodes,
    };
    match t.index_snapshot.join_on {
        Some(cols) => PlanV::MergeSort { join_on: cols, children: seq![inner] },
        None => PlanV::Merge { children: seq![inner] },
    }
}


fn clone_projection(p: &Option<Vec<usize>>) -> (r: Option<Vec<usize>>)
    ensures
        crate::plan::projection_view(r) == crate::plan::projection_view(*p),
{
    match p {
        Option::None => Option::None,
        Option::Some(v) => {
            let c = v.clone();
            proof {
                assert(c@ =~= v@);
            }
            Option::Some(c)
        },
    }
}

impl CubeTable {
    /// Expands the snapshot into per-partition file scans with the projection
    /// pushed down, guards the empty case, and wraps the fan-out in the merge
    /// the snapshot's join keys call for.
    pub fn scan(&self, projection: &Option<Vec<usize>>, batch_size: usize) -> (r: Result<
        PhysicalPlan,
        CubeError,
    >)
        requires
            projection matches Some(p) ==> (forall|j: int|
                #![trigger p@[j]]
                0 <= j < p@.len() ==> 0 <= p@[j] < self@.index_snapshot.table.len()
                    && find_position(
                    self@.index_snapshot.index,
                    self@.index_snapshot.table[p@[j] as int].name,
                ) is Some),
            forall|i: int|
                #![trigger self@.index_snapshot.partitions[i]]
                0 <= i < self@.index_snapshot.partitions.len()
                    && self@.worker_partition_ids.contains(
                    self@.index_snapshot.partitions[i].partition.id,
                ) ==> {
                    let ps = self@.index_snapshot.partitions[i];
                    &&& (ps.partition.file_name matches Some(n) ==> lookup_local(
                        self@.remote_to_local_names,
                        n,
                    ) is Some)
                    &&& (forall|c: int|
                        0 <= c < ps.chunks.len() ==> lookup_local(
                            self@.remote_to_local_names,
                            ps.chunks[c].file_name,
                        ) is Some)
                },
            self@.index_snapshot.join_on matches Some(cols) ==> (forall|c: int|
                #![trigger cols[c]]
                0 <= c < cols.len() ==> exists|j: int|
                    0 <= j < spec_scan_projected(self@, spec_projection(projection)).len() && (
                    #[trigger] spec_scan_projected(self@, spec_projection(projection))[j]).name
                        == cols[c]),
        ensures
            r matches Ok(plan) && plan@ == spec_scan(
                self@,
                spec_projection(projection),
                batch_size as int,
            ),
    {
        let ghost tv = self@;
        let ghost proj_v: Option<Seq<int>> = spec_projection(projection);
        let ghost q_spec: Option<Seq<int>> = match proj_v {
            None => None,
            Some(p) => Some(mapped_positions(tv.index_snapshot.table, tv.index_snapshot.index, p)),
        };
        let ghost bs = batch_size as int;
        let index = self.index_snapshot.index();
        let table = self.index_snapshot.table();
        let mapped_projection: Option<Vec<usize>> = match projection {
            Option::None => Option::None,
            Option::Some(p) => {
                let table_cols = CubeTable::project_to_table(table, p);
                let positions = CubeTable::project_to_index_positions(&table_cols, index);
                let mut q: Vec<usize> = Vec::new();
                let mut j: usize = 0;
                while j < positions.len()
                    invariant
                        0 <= j <= positions@.len(),
                        q@.len() == j,
                        positions@.len() == p@.len(),
                        proj_v == Some(p@.map_values(|u: usize| u as int)),
                        q_spec == Some(mapped_positions(
                            tv.index_snapshot.table,
                            tv.index_snapshot.index,
                            proj_v->Some_0,
                        )),
                        q_spec matches Some(qs) && qs.len() == p@.len(),
                        forall|k: int|
                            #![trigger p@[k]]
                            0 <= k < p@.len() ==> 0 <= p@[k] < tv.index_snapshot.table.len()
                                && find_position(
                                tv.index_snapshot.index,
                                tv.index_snapshot.table[p@[k] as int].name,
                            ) is Some,
                        forall|k: int|
                            #![trigger positions@[k]]
                            0 <= k < positions@.len() ==> opt_pos_view(positions@[k])
                                == find_position(
                                tv.index_snapshot.index,
                                tv.index_snapshot.table[p@[k] as int].name,
                            ),
                        forall|k: int| 0 <= k < j ==> q@[k] as int == q_spec->Some_0[k],
                    decreases positions@.len() - j,
                {
                    let ghost j0 = j as int;
                    match positions[j] {
                        Option::Some(pos) => {
                            q.push(pos);
                            proof {
                                let pm = proj_v->Some_0;
                                assert(0 <= j0 < p@.len());
                                assert(p@.map_values(|u: usize| u as int).len() == p@.len());
                                assert(p@.map_values(|u: usize| u as int)[j0] == p@[
                                    j0
                                ] as int);
                                assert(pm[j0] == p@[j0] as int);
                                assert(q_spec->Some_0 == mapped_positions(
                                    tv.index_snapshot.table,
                                    tv.index_snapshot.index,
                                    pm,
                                ));
                                assert(q_spec->Some_0[j0] == pos_val(
                                    find_position(
                                        tv.index_snapshot.index,
                                        tv.index_snapshot.table[pm[j0]].name,
                                    ),
                                ));
                                assert(opt_pos_view(positions@[j0]) == find_position(
                                    tv.index_snapshot.index,
                                    tv.index_snapshot.table[p@[j0] as int].name,
                                ));
                                assert(q@[j0] as int == q_spec->Some_0[j0]);
                            }
                        },
                        Option::None => {
                            proof {
                                assert(opt_pos_view(positions@[j0]) is Some);
                                assert(false);
                            }
                            q.push(0);
                        },
                    }
                    j += 1;
                }
                Option::Some(q)
            },
        };
        proof {
            match &mapped_projection {
                Option::None => {
                    assert(q_spec is None);
                },
                Option::Some(q) => {
                    assert(q@.map_values(|u: usize| u as int) =~= q_spec->Some_0);
                },
            }
            assert(crate::plan::projection_view(mapped_projection) == q_spec);
        }
        let projected: Vec<Column> = match &mapped_projection {
            Option::None => crate::plan::clone_schema(&self.schema),
            Option::Some(q) => {
                let index_cols = index.get_columns();
                proof {
                    assert(q@.map_values(|u: usize| u as int) =~= q_spec->Some_0);
                    assert forall|k: int| 0 <= k < q@.len() implies 0 <= (q@[k] as int) && (q@[
                        k
                    ] as int) < tv.index_snapshot.index.len() by {
                        let pm = proj_v->Some_0;
                        assert(q_spec->Some_0[k] == pos_val(
                            find_position(
                                tv.index_snapshot.index,
                                tv.index_snapshot.table[pm[k]].name,
                            ),
                        ));
                        lemma_find_position(
                            tv.index_snapshot.index,
                            tv.index_snapshot.table[pm[k]].name,
                        );
                    }
                }
                let mut cols: Vec<Column> = Vec::new();
                let mut j: usize = 0;
                while j < q.len()
                    invariant
                        0 <= j <= q@.len(),
                        cols@.len() == j,
                        col_views(index_cols@) == tv.index_snapshot.index,
                        index_cols@.len() == tv.index_snapshot.index.len(),
                        q_spec matches Some(qs) && qs == q@.map_values(|u: usize| u as int),
                        forall|k: int|
                            0 <= k < q@.len() ==> 0 <= (q@[k] as int)
                                && (q@[k] as int) < tv.index_snapshot.index.len(),
                        forall|k: int|
                            0 <= k < j ==> col_views(cols@)[k] == tv.index_snapshot.index[q@[
                                k
                            ] as int],
                    decreases q@.len() - j,
                {
                    let c = index_cols[q[j]].clone();
                    let ghost prev = cols@;
                    cols.push(c);
                    proof {
                        assert(col_views(prev.push(c)) =~= col_views(prev).push(c@));
                    }
                    j += 1;
                }
                cols
            },
        };
        proof {
            let projected_spec = match q_spec {
                None => tv.schema,
                Some(qs) => project_schema(tv.index_snapshot.index, qs),
            };
            assert(col_views(projected@) =~= projected_spec);
        }
        let ghost schv = col_views(projected@);
        let ghost psv = tv.index_snapshot.partitions;
        let ghost mv = tv.remote_to_local_names;
        let ghost idsv = tv.worker_partition_ids;
        let partition_snapshots = self.index_snapshot.partitions();
        let mut partition_execs: Vec<PhysicalPlan> = Vec::new();
        proof {
            assert(psv.take(0) =~= Seq::<PartitionSnapshotV>::empty());
            assert(crate::plan::plan_views(partition_execs@) =~= scan_nodes(
                psv.take(0),
                idsv,
                mv,
                q_spec,
                bs,
                schv,
            ));
        }
        let mut i: usize = 0;
        while i < partition_snapshots.len()
            invariant
                0 <= i <= partition_snapshots@.len(),
                tv == self@,
                psv == tv.index_snapshot.partitions,
                mv == tv.remote_to_local_names,
                idsv == tv.worker_partition_ids,
                bs == batch_size as int,
                partition_snapshot_views(partition_snapshots@) == psv,
                partition_snapshots@.len() == psv.len(),
                crate::plan::projection_view(mapped_projection) == q_spec,
                col_views(projected@) == schv,
                crate::plan::plan_views(partition_execs@) == scan_nodes(
                    psv.take(i as int),
                    idsv,
                    mv,
                    q_spec,
                    bs,
                    schv,
                ),
                forall|k: int|
                    #![trigger psv[k]]
                    0 <= k < psv.len() && idsv.contains(psv[k].partition.id) ==> {
                        let ps = psv[k];
                        &&& (ps.partition.file_name matches Some(n) ==> lookup_local(mv, n)
                            is Some)
                        &&& (forall|c: int|
                            0 <= c < ps.chunks.len() ==> lookup_local(mv, ps.chunks[c].file_name)
                                is Some)
                    },
            decreases partition_snapshots@.len() - i,
        {
            let partition_snapshot = &partition_snapshots[i];
            proof {
                assert(partition_snapshot@ == psv[i as int]);
            }
            let partition = partition_snapshot.partition();
            let in_set = contains_id(&self.worker_partition_ids, partition.get_id());
            let ghost before = crate::plan::plan_views(partition_execs@);
            if in_set {
                proof {
                    assert(idsv.contains(psv[i as int].partition.id));
                    assert(pair_views(self.remote_to_local_names@) == mv);
                }
                let ghost file_part: Seq<PlanV> = match psv[i as int].partition.file_name {
                    Some(n) => seq![parquet_node(opt_val(lookup_local(mv, n)), q_spec, bs, schv)],
                    None => Seq::empty(),
                };
                match partition.get_full_name() {
                    Option::Some(remote_path) => {
                        proof {
                            assert(psv[i as int].partition.file_name == Some(remote_path@));
                            assert(lookup_local(mv, remote_path@) is Some);
                        }
                        let local_path = match lookup_local_name(
                            &self.remote_to_local_names,
                            remote_path,
                        ) {
                            Option::Some(l) => l.clone(),
                            Option::None => {
                                proof {
                                    assert(false);
                                }
                                String::new()
                            },
                        };
                        let node = PhysicalPlan::ParquetScan {
                            path: local_path,
                            projection: clone_projection(&mapped_projection),
                            batch_size,
                            schema: crate::plan::clone_schema(&projected),
                        };
                        let ghost prev = partition_execs@;
                        partition_execs.push(node);
                        proof {
                            crate::plan::lemma_plan_views(prev.push(node));
                            crate::plan::lemma_plan_views(prev);
                            assert(crate::plan::plan_views(prev.push(node))
                                =~= crate::plan::plan_views(prev).push(
                                crate::plan::plan_view(node),
                            ));
                            assert(crate::plan::plan_view(node) == parquet_node(
                                opt_val(
                                    lookup_local(mv, psv[i as int].partition.file_name->Some_0),
                                ),
                                q_spec,
                                bs,
                                schv,
                            ));
                            assert(crate::plan::plan_views(partition_execs@) =~= before
                                + file_part);
                        }
                    },
                    Option::None => {
                        proof {
                            assert(crate::plan::plan_views(partition_execs@) =~= before
                                + file_part);
                        }
                    },
                }
                let chunks = partition_snapshot.chunks();
                proof {
                    assert(psv[i as int].chunks.take(0) =~= Seq::<ChunkV>::empty());
                    assert(chunk_nodes(psv[i as int].chunks.take(0), mv, q_spec, bs, schv)
                        =~= Seq::<PlanV>::empty());
                    assert(crate::plan::plan_views(partition_execs@) =~= before + file_part
                        + chunk_nodes(psv[i as int].chunks.take(0), mv, q_spec, bs, schv));
                }
                let mut c: usize = 0;
                while c < chunks.len()
                    invariant
                        0 <= c <= chunks@.len(),
                        tv == self@,
                        psv == tv.index_snapshot.partitions,
                        idsv == tv.worker_partition_ids,
                        bs == batch_size as int,
                        chunks@.map_values(|x: crate::metastore::Chunk| x@) == psv[
                            i as int
                        ].chunks,
                        chunks@.len() == psv[i as int].chunks.len(),
                        0 <= i < psv.len(),
                        idsv.contains(psv[i as int].partition.id),
                        crate::plan::projection_view(mapped_projection) == q_spec,
                        col_views(projected@) == schv,
                        forall|k: int|
                            0 <= k < psv[i as int].chunks.len() ==> lookup_local(
                                mv,
                                psv[i as int].chunks[k].file_name,
                            ) is Some,
                        crate::plan::plan_views(partition_execs@) == before + file_part
                            + chunk_nodes(
                            psv[i as int].chunks.take(c as int),
                            mv,
                            q_spec,
                            bs,
                            schv,
                        ),
                        mv == tv.remote_to_local_names,
                    decreases chunks@.len() - c,
                {
                    let chunk = &chunks[c];
                    proof {
                        assert(chunk@ == psv[i as int].chunks[c as int]);
                    }
                    let remote_path = chunk.get_full_name();
                    proof {
                        assert(remote_path@ == psv[i as int].chunks[c as int].file_name);
                        assert(lookup_local(mv, remote_path@) is Some);
                        assert(pair_views(self.remote_to_local_names@) == mv);
                    }
                    let local_path = match lookup_local_name(
                        &self.remote_to_local_names,
                        remote_path,
                    ) {
                        Option::Some(l) => l.clone(),
                        Option::None => {
                            proof {
                                assert(false);
                            }
                            String::new()
                        },
                    };
                    let node = PhysicalPlan::ParquetScan {
                        path: local_path,
                        projection: clone_projection(&mapped_projection),
                        batch_size,
                        schema: crate::plan::clone_schema(&projected),
                    };
                    let ghost prev = partition_execs@;
                    partition_execs.push(node);
                    proof {
                        crate::plan::lemma_plan_views(prev.push(node));
                        crate::plan::lemma_plan_views(prev);
                        assert(crate::plan::plan_views(prev.push(node))
                            =~= crate::plan::plan_views(prev).push(crate::plan::plan_view(node)));
                        assert(crate::plan::projection_view(node->ParquetScan_projection)
                            == q_spec);
                        assert(crate::plan::plan_view(node) == parquet_node(
                            opt_val(lookup_local(mv, psv[i as int].chunks[c as int].file_name)),
                            q_spec,
                            bs,
                            schv,
                        ));
                        lemma_chunk_nodes_snoc(
                            psv[i as int].chunks.take(c as int),
                            psv[i as int].chunks[c as int],
                            mv,
                            q_spec,
                            bs,
                            schv,
                        );
                        assert(psv[i as int].chunks.take(c + 1) =~= psv[i as int].chunks.take(
                            c as int,
                        ).push(psv[i as int].chunks[c as int]));
                        assert(crate::plan::plan_views(partition_execs@) =~= before + file_part
                            + chunk_nodes(
                            psv[i as int].chunks.take(c + 1),
                            mv,
                            q_spec,
                            bs,
                            schv,
                        ));
                    }
                    c += 1;
                }
                proof {
                    assert(psv[i as int].chunks.take(psv[i as int].chunks.len() as int) =~= psv[
                        i as int
                    ].chunks);
                    assert(crate::plan::plan_views(partition_execs@) =~= before + snapshot_nodes(
                        psv[i as int],
                        mv,
                        q_spec,
                        bs,
                        schv,
                    ));
                    lemma_scan_nodes_snoc(
                        psv.take(i as int),
                        psv[i as int],
                        idsv,
                        mv,
                        q_spec,
                        bs,
                        schv,
                    );
                    assert(psv.take(i + 1) =~= psv.take(i as int).push(psv[i as int]));
                    assert(crate::plan::plan_views(partition_execs@) =~= scan_nodes(
                        psv.take(i + 1),
                        idsv,
                        mv,
                        q_spec,
                        bs,
                        schv,
                    ));
                }
            } else {
                proof {
                    lemma_scan_nodes_snoc(
                        psv.take(i as int),
                        psv[i as int],
                        idsv,
                        mv,
                        q_spec,
                        bs,
                        schv,
                    );
                    assert(psv.take(i + 1) =~= psv.take(i as int).push(psv[i as int]));
                    assert(crate::plan::plan_views(partition_execs@) =~= scan_nodes(
                        psv.take(i + 1),
                        idsv,
                        mv,
                        q_spec,
                        bs,
                        schv,
                    ));
                }
            }
            i += 1;
        }
        proof {
            assert(psv.take(psv.len() as int) =~= psv);
        }
        if partition_execs.len() == 0 {
            let empty = PhysicalPlan::Empty { schema: crate::plan::clone_schema(&self.schema) };
            partition_execs.push(empty);
            proof {
                crate::plan::lemma_plan_views(partition_execs@);
                assert(crate::plan::plan_views(partition_execs@) =~= seq![
                    PlanV::Empty { schema: tv.schema },
                ]);
            }
        }
        let inner = PhysicalPlan::IndexScan(
            CubeTableExec {
                schema: projected,
                index_snapshot: self.index_snapshot.clone(),
                partition_execs,
            },
        );
        let result = match self.index_snapshot.join_on() {
            Option::Some(join_columns) => {
                let jc = crate::plan::clone_string_vec(join_columns);
                let mut children: Vec<PhysicalPlan> = Vec::new();
                children.push(inner);
                proof {
                    crate::plan::lemma_plan_views(children@);
                    assert(crate::plan::plan_views(children@) =~= seq![
                        crate::plan::plan_view(children@[0]),
                    ]);
                    assert(crate::plan::string_seq_views(jc@) =~= tv.index_snapshot.join_on
                        ->Some_0);
                }
                PhysicalPlan::MergeSort { join_on: jc, children }
            },
            Option::None => {
                let mut children: Vec<PhysicalPlan> = Vec::new();
                children.push(inner);
                proof {
                    crate::plan::lemma_plan_views(children@);
                    assert(crate::plan::plan_views(children@) =~= seq![
                        crate::plan::plan_view(children@[0]),
                    ]);
                }
                PhysicalPlan::Merge { children }
            },
        };
        proof {
            assert(result@ =~= spec_scan(tv, proj_v, bs));
        }
        Result::Ok(result)
    }
}

/// The projection argument as mathematics.
pub open spec fn spec_projection(p: &Option<Vec<usize>>) -> Option<Seq<int>> {
    match p {
        Option::None => None,
        Option::Some(v) => Some(v@.map_values(|u: usize| u as int)),
    }
}

/// The output schema a scan will carry, before the fan-out is built.
pub open spec fn spec_scan_projected(t: CubeTableV, projection: Option<Seq<int>>) -> Seq<ColumnV> {
    match projection {
        None => t.schema,
        Some(p) => project_schema(
            t.index_snapshot.index,
            mapped_positions(t.index_snapshot.table, t.index_snapshot.index, p),
        ),
    }
}

} // verus!
