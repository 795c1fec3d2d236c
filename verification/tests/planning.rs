use cubestore::metastore::{Chunk, Index, IndexSnapshot, Partition, PartitionSnapshot,
    SerializedPlan, Table};
use cubestore::executor::QueryExecutorImpl;
use cubestore::plan::{ClusterSendExec, PhysicalPlan, PlanNodeKind};
use cubestore::table::CubeTable;
use cubestore::types::{Column, ColumnType};

fn col(name: &str, t: ColumnType, i: usize) -> Column {
    Column::new(name.to_string(), t, i)
}

fn snapshot_with_partitions(ids: &[u64]) -> IndexSnapshot {
    let cols = vec![col("a", ColumnType::Int, 0)];
    let table = Table::new(cols.clone());
    let index = Index::new(cols);
    let partitions = ids
        .iter()
        .map(|id| {
            PartitionSnapshot::new(Partition::new(*id, Some(format!("part-{}", id))), vec![])
        })
        .collect();
    IndexSnapshot::new(table, index, partitions, None)
}

fn mapping_for(ids: &[u64]) -> Vec<(String, String)> {
    ids.iter().map(|id| (format!("part-{}", id), format!("/local/part-{}", id))).collect()
}

fn scan_subtree(ids: &[u64]) -> PhysicalPlan {
    let snapshot = snapshot_with_partitions(ids);
    let table = CubeTable::try_new(snapshot, mapping_for(ids), ids.to_vec()).unwrap();
    table.scan(&None, 4096).unwrap()
}

#[test]
fn empty_partition_set_yields_empty_relation() {
    let snapshot = snapshot_with_partitions(&[1, 2]);
    let table = CubeTable::try_new(snapshot, mapping_for(&[1, 2]), vec![]).unwrap();
    let plan = table.scan(&None, 4096).unwrap();
    match plan {
        PhysicalPlan::Merge { children } => {
            assert_eq!(children.len(), 1);
            match &children[0] {
                PhysicalPlan::IndexScan(exec) => {
                    assert_eq!(exec.partition_execs.len(), 1);
                    assert!(matches!(exec.partition_execs[0], PhysicalPlan::Empty { .. }));
                    match &exec.partition_execs[0] {
                        PhysicalPlan::Empty { schema } => {
                            assert_eq!(schema.len(), 1);
                            assert_eq!(schema[0].get_name(), "a");
                        },
                        _ => unreachable!(),
                    }
                },
                _ => panic!("expected an index scan under the merge"),
            }
        },
        _ => panic!("expected a merge"),
    }
}

#[test]
fn single_partition_scan_remaps_projection() {
    let table_cols = vec![
        col("a", ColumnType::Int, 0),
        col("b", ColumnType::String, 1),
        col("c", ColumnType::Decimal { scale: 10, precision: 18 }, 2),
    ];
    let index_cols = vec![
        col("b", ColumnType::String, 0),
        col("c", ColumnType::Decimal { scale: 10, precision: 18 }, 1),
        col("a", ColumnType::Int, 2),
    ];
    let snapshot = IndexSnapshot::new(
        Table::new(table_cols),
        Index::new(index_cols),
        vec![PartitionSnapshot::new(Partition::new(7, Some("p7".to_string())), vec![])],
        None,
    );
    let table = CubeTable::try_new(
        snapshot,
        vec![("p7".to_string(), "/local/p7".to_string())],
        vec![7],
    )
    .unwrap();
    let plan = table.scan(&Some(vec![0, 2]), 4096).unwrap();
    match plan {
        PhysicalPlan::Merge { children } => match &children[0] {
            PhysicalPlan::IndexScan(exec) => {
                assert_eq!(exec.schema.len(), 2);
                assert_eq!(exec.schema[0].get_name(), "a");
                assert_eq!(exec.schema[1].get_name(), "c");
                assert_eq!(exec.partition_execs.len(), 1);
                match &exec.partition_execs[0] {
                    PhysicalPlan::ParquetScan { path, projection, batch_size, .. } => {
                        assert_eq!(path.as_str(), "/local/p7");
                        assert_eq!(projection, &Some(vec![2, 1]));
                        assert_eq!(*batch_size, 4096);
                    },
                    _ => panic!("expected a file scan"),
                }
            },
            _ => panic!("expected an index scan"),
        },
        _ => panic!("expected a merge"),
    }
}

#[test]
fn chunks_scan_after_the_partition_file() {
    let cols = vec![col("a", ColumnType::Int, 0)];
    let snapshot = IndexSnapshot::new(
        Table::new(cols.clone()),
        Index::new(cols),
        vec![PartitionSnapshot::new(
            Partition::new(1, Some("p1".to_string())),
            vec![Chunk::new(10, "c10".to_string()), Chunk::new(11, "c11".to_string())],
        )],
        None,
    );
    let table = CubeTable::try_new(
        snapshot,
        vec![
            ("p1".to_string(), "/l/p1".to_string()),
            ("c10".to_string(), "/l/c10".to_string()),
            ("c11".to_string(), "/l/c11".to_string()),
        ],
        vec![1],
    )
    .unwrap();
    let plan = table.scan(&None, 1024).unwrap();
    match plan {
        PhysicalPlan::Merge { children } => match &children[0] {
            PhysicalPlan::IndexScan(exec) => {
                let paths: Vec<String> = exec
                    .partition_execs
                    .iter()
                    .map(|p| match p {
                        PhysicalPlan::ParquetScan { path, .. } => path.clone(),
                        _ => panic!("expected file scans"),
                    })
                    .collect();
                assert_eq!(paths, vec!["/l/p1", "/l/c10", "/l/c11"]);
            },
            _ => panic!("expected an index scan"),
        },
        _ => panic!("expected a merge"),
    }
}

#[test]
fn merge_sort_wraps_scans_with_join_keys() {
    let cols = vec![col("k", ColumnType::Int, 0)];
    let snapshot = IndexSnapshot::new(
        Table::new(cols.clone()),
        Index::new(cols),
        vec![],
        Some(vec!["k".to_string()]),
    );
    let table = CubeTable::try_new(snapshot, vec![], vec![]).unwrap();
    let plan = table.scan(&None, 4096).unwrap();
    match plan {
        PhysicalPlan::MergeSort { join_on, children } => {
            assert_eq!(join_on, vec!["k".to_string()]);
            assert!(matches!(children[0], PhysicalPlan::IndexScan(..)));
        },
        _ => panic!("expected a sort-preserving merge"),
    }
}

#[test]
fn aggregate_split_wraps_below_the_aggregate() {
    let executor = QueryExecutorImpl;
    let scan = scan_subtree(&[1, 2]);
    let schema = vec![col("a", ColumnType::Int, 0)];
    let plan = PhysicalPlan::HashAggregate {
        schema: schema.clone(),
        children: vec![PhysicalPlan::Sort { children: vec![scan] }],
    };
    let sp = SerializedPlan::new(vec![9, 9]);
    let nodes = vec!["node-0".to_string()];

    let routed = executor.get_router_split_plan(plan, &sp, &nodes).unwrap();
    match &routed {
        PhysicalPlan::HashAggregate { children, .. } => {
            assert_eq!(children.len(), 1);
            match &children[0] {
                PhysicalPlan::Merge { children } => {
                    assert!(matches!(children[0], PhysicalPlan::ClusterSend(..)));
                },
                _ => panic!("expected a merge over the exchange"),
            }
        },
        _ => panic!("expected the aggregate to stay on the router"),
    }
    assert!(!executor.has_node(&routed, PlanNodeKind::IndexScan));

    let scan2 = scan_subtree(&[1, 2]);
    let plan2 = PhysicalPlan::HashAggregate {
        schema,
        children: vec![PhysicalPlan::Sort { children: vec![scan2] }],
    };
    let worker = executor.get_worker_split_plan(plan2);
    match worker {
        PhysicalPlan::Sort { ref children } => {
            assert!(matches!(children[0], PhysicalPlan::Merge { .. }));
        },
        _ => panic!("expected the worker to keep the subtree below the aggregate"),
    }
}

#[test]
fn union_fan_out_concatenates_partitions_into_one_group() {
    let executor = QueryExecutorImpl;
    let plan = PhysicalPlan::Union {
        children: vec![scan_subtree(&[1, 2]), scan_subtree(&[3, 4, 5])],
    };
    let groups = executor.union_snapshots_from_cube_table(&plan);
    assert_eq!(groups.len(), 1);
    assert_eq!(groups[0].len(), 2);

    let sp = SerializedPlan::new(vec![1]);
    let exec = ClusterSendExec::new(
        vec![col("a", ColumnType::Int, 0)],
        sp,
        vec!["node-0".to_string()],
        groups,
    );
    assert_eq!(exec.output_partitioning(), 5);
    let mut seen: Vec<u64> = Vec::new();
    for i in 0..5 {
        let pinned = exec.serialized_plan_for_partition(i);
        let ids = pinned.partition_ids_to_execute();
        assert_eq!(ids.len(), 1);
        seen.push(ids[0]);
    }
    assert_eq!(seen, vec![1, 2, 3, 4, 5]);
}

#[test]
fn independent_scans_cross_product() {
    let executor = QueryExecutorImpl;
    let join = PhysicalPlan::Join {
        schema: vec![col("a", ColumnType::Int, 0)],
        children: vec![scan_subtree(&[1, 2]), scan_subtree(&[10, 20, 30])],
    };
    let plan = PhysicalPlan::GlobalLimit { limit: 100, children: vec![join] };
    let sp = SerializedPlan::new(vec![]);
    let nodes = vec!["node-0".to_string()];
    let routed = executor.get_router_split_plan(plan, &sp, &nodes).unwrap();

    let exchange = match &routed {
        PhysicalPlan::GlobalLimit { children, .. } => match &children[0] {
            PhysicalPlan::Merge { children } => match &children[0] {
                PhysicalPlan::ClusterSend(e) => e,
                _ => panic!("expected the exchange under the merge"),
            },
            _ => panic!("expected a merge"),
        },
        _ => panic!("expected the limit to stay on the router"),
    };
    assert_eq!(exchange.output_partitioning(), 6);
    let a_ids = [1u64, 2];
    let b_ids = [10u64, 20, 30];
    for i in 0..2 {
        for j in 0..3 {
            let pinned = exchange.serialized_plan_for_partition(i * 3 + j);
            assert_eq!(
                pinned.partition_ids_to_execute(),
                &vec![a_ids[i], b_ids[j]]
            );
        }
    }
}

#[test]
fn split_without_index_sources_becomes_empty() {
    let executor = QueryExecutorImpl;
    let plan = PhysicalPlan::Sort {
        children: vec![PhysicalPlan::Empty { schema: vec![col("a", ColumnType::Int, 0)] }],
    };
    let sp = SerializedPlan::new(vec![]);
    let nodes = vec!["node-0".to_string()];
    let routed = executor.get_router_split_plan(plan, &sp, &nodes).unwrap();
    match routed {
        PhysicalPlan::Sort { children } => {
            assert!(matches!(children[0], PhysicalPlan::Empty { .. }));
        },
        _ => panic!("expected the sort to stay"),
    }
}

#[test]
fn cluster_send_is_a_leaf() {
    let exec = ClusterSendExec::new(
        vec![col("a", ColumnType::Int, 0)],
        SerializedPlan::new(vec![]),
        vec!["node-0".to_string()],
        vec![vec![snapshot_with_partitions(&[1])]],
    );
    assert!(exec.children().is_empty());
    assert_eq!(exec.selected_node().as_str(), "node-0");
    let rebuilt = exec.with_new_children(vec![]);
    assert_eq!(rebuilt.output_partitioning(), exec.output_partitioning());
}

#[test]
fn has_node_finds_kinds_depth_first() {
    let executor = QueryExecutorImpl;
    let plan = PhysicalPlan::Sort { children: vec![scan_subtree(&[1])] };
    assert!(executor.has_node(&plan, PlanNodeKind::Sort));
    assert!(executor.has_node(&plan, PlanNodeKind::IndexScan));
    assert!(executor.has_node(&plan, PlanNodeKind::Merge));
    assert!(!executor.has_node(&plan, PlanNodeKind::HashAggregate));

    let snaps = executor.index_snapshots_from_cube_table(&plan);
    assert_eq!(snaps.len(), 1);
}

#[test]
fn with_new_children_checks_arity() {
    let sort = PhysicalPlan::Sort { children: vec![scan_subtree(&[1])] };
    assert!(sort.with_new_children(vec![]).is_err());

    let empty = PhysicalPlan::Empty { schema: vec![col("a", ColumnType::Int, 0)] };
    assert!(empty.with_new_children(vec![]).is_ok());
}
