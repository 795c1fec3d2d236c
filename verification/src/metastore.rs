use vstd::prelude::*;

use crate::types::{col_views, Column, ColumnV};

verus! {

/// Mathematical image of a `Chunk`.
pub struct ChunkV {
    pub id: u64,
    pub file_name: Seq<char>,
}

/// A persisted chunk of a partition; its file is always present.
#[derive(Debug)]
pub struct Chunk {
    id: u64,
    file_name: String,
}

impl View for Chunk {
    type V = ChunkV;

    closed spec fn view(&self) -> ChunkV {
        ChunkV { id: self.id, file_name: self.file_name@ }
    }
}

impl Clone for Chunk {
    fn clone(&self) -> (r: Self)
        ensures
            r == *self,
    {
        Chunk { id: self.id, file_name: self.file_name.clone() }
    }
}

impl Chunk {
    pub fn new(id: u64, file_name: String) -> (r: Chunk)
        ensures
            r@ == (ChunkV { id, file_name: file_name@ }),
    {
        Chunk { id, file_name }
    }

    pub fn get_id(&self) -> (r: u64)
        ensures
            r == self@.id,
    {
        self.id
    }

    pub fn get_full_name(&self) -> (r: &String)
        ensures
            r@ == self@.file_name,
    {
        &self.file_name
    }
}

/// Mathematical image of a `Partition`.
pub struct PartitionV {
    pub id: u64,
    pub file_name: Option<Seq<char>>,
}

/// A partition of an index; young partitions may have no persisted file yet.
#[derive(Debug)]
pub struct Partition {
    id: u64,
    file_name: Option<String>,
}

impl View for Partition {
    type V = PartitionV;

    closed spec fn view(&self) -> PartitionV {
        PartitionV {
            id: self.id,
            file_name: match self.file_name {
                Option::None => Option::None,
                Option::Some(s) => Option::Some(s@),
            },
        }
    }
}

impl Clone for Partition {
    fn clone(&self) -> (r: Self)
        ensures
            r == *self,
    {
        Partition {
            id: self.id,
            file_name: match &self.file_name {
                Option::None => Option::None,
                Option::Some(s) => Option::Some(s.clone()),
            },
        }
    }
}

impl Partition {
    pub fn new(id: u64, file_name: Option<String>) -> (r: Partition)
        ensures
            r@.id == id,
            file_name is None ==> r@.file_name is None,
            file_name matches Some(n) ==> r@.file_name == Some(n@),
    {
        Partition { id, file_name }
    }

    pub fn get_id(&self) -> (r: u64)
        ensures
            r == self@.id,
    {
        self.id
    }

    pub fn get_full_name(&self) -> (r: &Option<String>)
        ensures
            r is Some <==> self@.file_name is Some,
            r matches Some(n) ==> self@.file_name == Some(n@),
    {
        &self.file_name
    }
}

pub open spec fn partition_views(s: Seq<Partition>) -> Seq<PartitionV> {
    s.map_values(|p: Partition| p@)
}

/// Mathematical image of a `PartitionSnapshot`.
pub struct PartitionSnapshotV {
    pub partition: PartitionV,
    pub chunks: Seq<ChunkV>,
}

/// A partition together with its chunks, as read atomically from the metastore.
#[derive(Debug)]
pub struct PartitionSnapshot {
    partition: Partition,
    chunks: Vec<Chunk>,
}

impl View for PartitionSnapshot {
    type V = PartitionSnapshotV;

    closed spec fn view(&self) -> PartitionSnapshotV {
        PartitionSnapshotV {
            partition: self.partition@,
            chunks: self.chunks@.map_values(|c: Chunk| c@),
        }
    }
}

impl Clone for PartitionSnapshot {
    fn clone(&self) -> (r: Self)
        ensures
            r@ == self@,
    {
        let chunks = self.chunks.clone();
        proof {
            assert(chunks@ =~= self.chunks@);
        }
        PartitionSnapshot { partition: self.partition.clone(), chunks }
    }
}

impl PartitionSnapshot {
    pub fn new(partition: Partition, chunks: Vec<Chunk>) -> (r: PartitionSnapshot)
        ensures
            r@.partition == partition@,
            r@.chunks == chunks@.map_values(|c: Chunk| c@),
    {
        PartitionSnapshot { partition, chunks }
    }

    pub fn partition(&self) -> (r: &Partition)
        ensures
            r@ == self@.partition,
    {
        &self.partition
    }

    pub fn chunks(&self) -> (r: &Vec<Chunk>)
        ensures
            r@.map_values(|c: Chunk| c@) == self@.chunks,
    {
        &self.chunks
    }
}

pub open spec fn partition_snapshot_views(s: Seq<PartitionSnapshot>) -> Seq<PartitionSnapshotV> {
    s.map_values(|p: PartitionSnapshot| p@)
}

/// The declared column list of an index, in physical sort order.
#[derive(Debug)]
pub struct Index {
    columns: Vec<Column>,
}

impl View for Index {
    type V = Seq<ColumnV>;

    closed spec fn view(&self) -> Seq<ColumnV> {
        col_views(self.columns@)
    }
}

impl Clone for Index {
    fn clone(&self) -> (r: Self)
        ensures
            r@ == self@,
    {
        let columns = self.columns.clone();
        proof {
            assert(columns@ =~= self.columns@);
        }
        Index { columns }
    }
}

impl Index {
    pub fn new(columns: Vec<Column>) -> (r: Index)
        ensures
            r@ == col_views(columns@),
    {
        Index { columns }
    }

    pub fn get_columns(&self) -> (r: &Vec<Column>)
        ensures
            col_views(r@) == self@,
    {
        &self.columns
    }
}

/// The declared column list of a table.
#[derive(Debug)]
pub struct Table {
    columns: Vec<Column>,
}

impl View for Table {
    type V = Seq<ColumnV>;

    closed spec fn view(&self) -> Seq<ColumnV> {
        col_views(self.columns@)
    }
}

impl Clone for Table {
    fn clone(&self) -> (r: Self)
        ensures
            r@ == self@,
    {
        let columns = self.columns.clone();
        proof {
            assert(columns@ =~= self.columns@);
        }
        Table { columns }
    }
}

impl Table {
    pub fn new(columns: Vec<Column>) -> (r: Table)
        ensures
            r@ == col_views(columns@),
    {
        Table { columns }
    }

    pub fn get_columns(&self) -> (r: &Vec<Column>)
        ensures
            col_views(r@) == self@,
    {
        &self.columns
    }
}

/// Mathematical image of an `IndexSnapshot`.
pub struct IndexSnapshotV {
    pub table: Seq<ColumnV>,
    pub index: Seq<ColumnV>,
    pub partitions: Seq<PartitionSnapshotV>,
    pub join_on: Option<Seq<Seq<char>>>,
}

/// An immutable description of the physical index chosen to serve one table reference.
#[derive(Debug)]
pub struct IndexSnapshot {
    table: Table,
    index: Index,
    partitions: Vec<PartitionSnapshot>,
    join_on: Option<Vec<String>>,
}

pub open spec fn string_views(s: Seq<String>) -> Seq<Seq<char>> {
    s.map_values(|x: String| x@)
}

impl View for IndexSnapshot {
    type V = IndexSnapshotV;

    closed spec fn view(&self) -> IndexSnapshotV {
        IndexSnapshotV {
            table: self.table@,
            index: self.index@,
            partitions: partition_snapshot_views(self.partitions@),
            join_on: match self.join_on {
                Option::None => Option::None,
                Option::Some(v) => Option::Some(string_views(v@)),
            },
        }
    }
}

impl Clone for IndexSnapshot {
    fn clone(&self) -> (r: Self)
        ensures
            r@ == self@,
    {
        let partitions = self.partitions.clone();
        proof {
            assert(partition_snapshot_views(partitions@) =~= partition_snapshot_views(
                self.partitions@,
            ));
        }
        let join_on = match &self.join_on {
            Option::None => Option::None,
            Option::Some(v) => {
                let v2 = v.clone();
                proof {
                    assert(string_views(v2@) =~= string_views(v@));
                }
                Option::Some(v2)
            },
        };
        let r = IndexSnapshot {
            table: self.table.clone(),
            index: self.index.clone(),
            partitions,
            join_on,
        };
        proof {
            assert(r@ =~= self@);
        }
        r
    }
}

impl IndexSnapshot {
    pub fn new(
        table: Table,
        index: Index,
        partitions: Vec<PartitionSnapshot>,
        join_on: Option<Vec<String>>,
    ) -> (r: IndexSnapshot)
        ensures
            r@.table == table@,
            r@.index == index@,
            r@.partitions == partition_snapshot_views(partitions@),
            join_on is None ==> r@.join_on is None,
            join_on matches Some(v) ==> r@.join_on == Some(string_views(v@)),
    {
        IndexSnapshot { table, index, partitions, join_on }
    }

    pub fn table(&self) -> (r: &Table)
        ensures
            r@ == self@.table,
    {
        &self.table
    }

    pub fn index(&self) -> (r: &Index)
        ensures
            r@ == self@.index,
    {
        &self.index
    }

    pub fn partitions(&self) -> (r: &Vec<PartitionSnapshot>)
        ensures
            partition_snapshot_views(r@) == self@.partitions,
    {
        &self.partitions
    }

    pub fn join_on(&self) -> (r: &Option<Vec<String>>)
        ensures
            r is Some <==> self@.join_on is Some,
            r matches Some(v) ==> self@.join_on == Some(string_views(v@)),
    {
        &self.join_on
    }
}

pub open spec fn snapshot_views(s: Seq<IndexSnapshot>) -> Seq<IndexSnapshotV> {
    s.map_values(|x: IndexSnapshot| x@)
}

/// Mathematical image of a `SerializedPlan`.
pub struct SerializedPlanV {
    pub data: Seq<u8>,
    pub ids: Seq<u64>,
}

/// The logical plan as shipped between router and workers, together with the
/// partition IDs the receiving worker must execute.
#[derive(Debug)]
pub struct SerializedPlan {
    logical_plan_data: Vec<u8>,
    partition_ids_to_execute: Vec<u64>,
}

impl View for SerializedPlan {
    type V = SerializedPlanV;

    closed spec fn view(&self) -> SerializedPlanV {
        SerializedPlanV { data: self.logical_plan_data@, ids: self.partition_ids_to_execute@ }
    }
}

impl Clone for SerializedPlan {
    fn clone(&self) -> (r: Self)
        ensures
            r@ == self@,
    {
        let data = self.logical_plan_data.clone();
        let ids = self.partition_ids_to_execute.clone();
        proof {
            assert(data@ =~= self.logical_plan_data@);
            assert(ids@ =~= self.partition_ids_to_execute@);
        }
        SerializedPlan { logical_plan_data: data, partition_ids_to_execute: ids }
    }
}

impl SerializedPlan {
    pub fn new(logical_plan_data: Vec<u8>) -> (r: SerializedPlan)
        ensures
            r@.data == logical_plan_data@,
            r@.ids == Seq::<u64>::empty(),
    {
        let r = SerializedPlan { logical_plan_data, partition_ids_to_execute: Vec::new() };
        proof {
            assert(r@.ids =~= Seq::<u64>::empty());
        }
        r
    }

    /// The same plan, pinned to the given partition IDs.
    pub fn with_partition_id_to_execute(&self, partition_ids: Vec<u64>) -> (r: SerializedPlan)
        ensures
            r@.data == self@.data,
            r@.ids == partition_ids@,
    {
        let data = self.logical_plan_data.clone();
        proof {
            assert(data@ =~= self.logical_plan_data@);
        }
        SerializedPlan { logical_plan_data: data, partition_ids_to_execute: partition_ids }
    }

    pub fn partition_ids_to_execute(&self) -> (r: &Vec<u64>)
        ensures
            r@ == self@.ids,
    {
        &self.partition_ids_to_execute
    }

    pub fn logical_plan_data(&self) -> (r: &Vec<u8>)
        ensures
            r@ == self@.data,
    {
        &self.logical_plan_data
    }
}

} // verus!
