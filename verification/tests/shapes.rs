use rwasm_trace::air::{CoreAirId, RwasmAirId, NUM_AIRS, NUM_CORE_AIRS};
use rwasm_trace::cluster::{derive_cluster_from_maximal_shape, is_derivable};
use rwasm_trace::config::{CoreShapeConfig, CoreShapeError, ShardHeights, ShardKind};
use rwasm_trace::defaults::{is_usable, PrecompileAir};
use rwasm_trace::maps::NumberMap;
use rwasm_trace::math::{div_ceil, next_power_of_two_log2};
use rwasm_trace::ordered::{generate_all_shapes_from_allowed_log_heights, table_list};
use rwasm_trace::precompile::{get_precompile_shapes, PrecompileHeights, PrecompileLayout};
use rwasm_trace::record::{create_dummy_program, create_dummy_record, ExecutionRecord, Program};
use rwasm_trace::shape::{Shape, ShapeCluster};
use std::sync::Arc;

fn shape(heights: &[(RwasmAirId, usize)]) -> Shape {
    let mut shape = Shape::empty();
    for (air, height) in heights {
        shape.insert(*air, *height);
    }
    shape
}

fn heights(shape: &Shape) -> Vec<(RwasmAirId, usize)> {
    let mut list = Vec::new();
    for i in 0..NUM_AIRS {
        let air = RwasmAirId::from_index(i).unwrap();
        if let Some(height) = shape.log2_height(air) {
            list.push((air, height));
        }
    }
    list
}

fn costs() -> NumberMap {
    let mut costs = NumberMap::empty();
    for i in 0..NUM_AIRS as u32 {
        costs.set(i, 10 + i as u64);
    }
    costs
}

fn sha() -> PrecompileAir {
    PrecompileAir { air: RwasmAirId::ShaExtend, memory_events_per_row: 3, rows_per_event: 2 }
}

fn config() -> CoreShapeConfig {
    let small = vec![
        shape(&[(RwasmAirId::Cpu, 12), (RwasmAirId::AddSub, 12), (RwasmAirId::Global, 8)]),
        shape(&[(RwasmAirId::Cpu, 10), (RwasmAirId::AddSub, 10), (RwasmAirId::Global, 10)]),
    ];
    let maximal = vec![
        (19, vec![shape(&[(RwasmAirId::Cpu, 19), (RwasmAirId::AddSub, 17)])]),
        (
            21,
            vec![
                shape(&[(RwasmAirId::Cpu, 21), (RwasmAirId::AddSub, 20)]),
                shape(&[(RwasmAirId::Cpu, 20), (RwasmAirId::AddSub, 21)]),
            ],
        ),
    ];
    CoreShapeConfig::from_shapes(&maximal, &small, &vec![sha()], costs(), 4)
}

fn shard(kind: ShardKind) -> ShardHeights {
    ShardHeights {
        kind,
        log2_shard_size: 19,
        debug_stats: vec![("Cpu".to_string(), 3)],
        core_heights: vec![],
        memory_heights: vec![],
        precompile_heights: vec![],
    }
}

#[test]
fn tables_are_found_by_position_and_name() {
    for i in 0..NUM_AIRS {
        let air = RwasmAirId::from_index(i).unwrap();
        assert_eq!(air.index(), i);
        assert_eq!(RwasmAirId::from_name(&air.name()), Some(air));
    }
    assert_eq!(RwasmAirId::from_index(NUM_AIRS), None);
    assert_eq!(RwasmAirId::from_name(&"Nothing".to_string()), None);
    assert_eq!(CoreAirId::at(0), Some(CoreAirId::Cpu));
    assert_eq!(CoreAirId::at(1).unwrap().to_air(), RwasmAirId::AddSub);
    assert_eq!(CoreAirId::at(NUM_CORE_AIRS), None);
}

#[test]
fn rounding_and_logarithms() {
    assert_eq!(div_ceil(7, 2), 4);
    assert_eq!(div_ceil(8, 2), 4);
    assert_eq!(div_ceil(0, 5), 0);
    assert_eq!(next_power_of_two_log2(0), 0);
    assert_eq!(next_power_of_two_log2(1), 0);
    assert_eq!(next_power_of_two_log2(5), 3);
    assert_eq!(next_power_of_two_log2(8), 3);
}

#[test]
fn shapes_extend_each_other() {
    let mut base = shape(&[(RwasmAirId::Cpu, 4), (RwasmAirId::Mul, 5)]);
    base.extend(&shape(&[(RwasmAirId::Mul, 9), (RwasmAirId::Lt, 1)]));
    assert_eq!(
        heights(&base),
        vec![(RwasmAirId::Cpu, 4), (RwasmAirId::Mul, 9), (RwasmAirId::Lt, 1)]
    );
    assert_eq!(base.len(), 3);
    assert!(base.contains(RwasmAirId::Lt));
    assert!(!base.contains(RwasmAirId::Jump));
}

#[test]
fn a_cluster_picks_the_first_height_with_room() {
    let mut cluster = ShapeCluster::empty();
    cluster.set(RwasmAirId::Cpu, vec![Some(3), Some(5)]);
    cluster.set(RwasmAirId::Mul, vec![None, Some(4)]);
    let found = cluster.find_shape(&vec![(RwasmAirId::Cpu, 8), (RwasmAirId::Mul, 0)]).unwrap();
    assert_eq!(heights(&found), vec![(RwasmAirId::Cpu, 3)]);
    let found = cluster.find_shape(&vec![(RwasmAirId::Cpu, 9), (RwasmAirId::Mul, 1)]).unwrap();
    assert_eq!(heights(&found), vec![(RwasmAirId::Cpu, 5), (RwasmAirId::Mul, 4)]);
    // Too tall, and not allowed at all.
    assert!(cluster.find_shape(&vec![(RwasmAirId::Cpu, 33)]).is_none());
    assert!(cluster.find_shape(&vec![(RwasmAirId::Lt, 0)]).is_none());
    // The last entry of a table counts.
    let twice = vec![(RwasmAirId::Cpu, 30), (RwasmAirId::Cpu, 2)];
    assert_eq!(heights(&cluster.find_shape(&twice).unwrap()), vec![(RwasmAirId::Cpu, 3)]);
}

#[test]
fn clusters_are_derived_from_maximal_shapes() {
    let maximal = shape(&[
        (RwasmAirId::Cpu, 20),
        (RwasmAirId::AddSub, 19),
        (RwasmAirId::Mul, 18),
        (RwasmAirId::DivRem, 5),
        (RwasmAirId::Branch, 5),
    ]);
    assert!(is_derivable(&maximal));
    let cluster = derive_cluster_from_maximal_shape(&maximal);
    // The threshold is 18 - (21 - 20) = 17.
    assert_eq!(cluster.get(RwasmAirId::Cpu), Some(&vec![Some(20)]));
    assert_eq!(cluster.get(RwasmAirId::AddSub), Some(&vec![Some(19)]));
    assert_eq!(cluster.get(RwasmAirId::Mul), Some(&vec![Some(17), Some(18)]));
    assert_eq!(cluster.get(RwasmAirId::DivRem), Some(&vec![Some(16), Some(16), Some(17)]));
    assert_eq!(cluster.get(RwasmAirId::Branch), Some(&vec![Some(17), Some(17)]));
    assert_eq!(cluster.get(RwasmAirId::Lt), Some(&vec![None, Some(10)]));
    assert_eq!(cluster.get(RwasmAirId::Program), None);
    let full = vec![(RwasmAirId::Cpu, 1 << 20), (RwasmAirId::DivRem, 1 << 5)];
    assert!(cluster.find_shape(&full).is_some());

    assert!(!is_derivable(&shape(&[(RwasmAirId::Cpu, 2)])));
    assert!(!is_derivable(&shape(&[(RwasmAirId::Cpu, 22)])));
    assert!(!is_derivable(&shape(&[(RwasmAirId::AddSub, 10)])));
}

#[test]
fn the_standard_configuration() {
    let config = config();
    assert_eq!(config.partial_core_shapes.len(), 2);
    assert_eq!(config.partial_core_shapes[1].0, 21);
    assert_eq!(config.partial_core_shapes[1].1.len(), 2);
    let cluster = &config.partial_core_shapes[0].1[0];
    // The threshold is 16, so that the call table of height 14 is raised to it.
    assert_eq!(cluster.get(RwasmAirId::Call), Some(&vec![Some(16), Some(16)]));
    assert_eq!(
        config.partial_preprocessed_shapes.get(RwasmAirId::Program),
        Some(&vec![Some(19), Some(20), Some(21), Some(22)])
    );
    assert_eq!(config.partial_preprocessed_shapes.get(RwasmAirId::Byte), Some(&vec![Some(16)]));
    assert_eq!(
        config.partial_memory_shapes.get(RwasmAirId::Global),
        Some(&vec![None, Some(11), Some(17), Some(19), Some(21), Some(22)])
    );
    assert_eq!(
        config.partial_memory_shapes.get(RwasmAirId::MemoryGlobalInit),
        Some(&vec![None, Some(10), Some(16), Some(18), Some(19), Some(20), Some(21)])
    );
    let position = RwasmAirId::ShaExtend.index() as u32;
    let layout = config.partial_precompile_shapes.layout(position).unwrap();
    assert_eq!(layout.log2_heights, (3..21).collect::<Vec<usize>>());
    assert_eq!(config.partial_small_shapes[0].get(RwasmAirId::Cpu), Some(&vec![Some(12)]));
}

#[test]
fn some_maximal_shapes_of_the_largest_size_are_left_out() {
    let shapes = |n: usize| (0..n).map(|_| shape(&[(RwasmAirId::Cpu, 20)])).collect::<Vec<_>>();
    let maximal = vec![(20, shapes(30)), (21, shapes(30))];
    let config = CoreShapeConfig::from_shapes(&maximal, &vec![], &vec![], costs(), 1);
    assert_eq!(config.partial_core_shapes[0].1.len(), 30);
    // The shape at index 27 is not used.
    assert_eq!(config.partial_core_shapes[1].1.len(), 29);
}

#[test]
fn the_cost_of_a_shape() {
    let config = config();
    let shape = shape(&[(RwasmAirId::Cpu, 3), (RwasmAirId::Program, 1)]);
    let cpu = 10 + RwasmAirId::Cpu.index() as usize;
    let program = 10 + RwasmAirId::Program.index() as usize;
    assert_eq!(config.estimate_lde_size(&shape), cpu * 8 + program * 2);
    assert_eq!(config.estimate_lde_size(&Shape::empty()), 0);
}

#[test]
fn the_cheapest_cluster_wins() {
    let config = config();
    let clusters: Vec<(usize, &ShapeCluster)> =
        config.partial_small_shapes.iter().enumerate().collect();
    let small = vec![(RwasmAirId::Cpu, 100), (RwasmAirId::AddSub, 100)];
    let (index, found, area) = config.minimal_cluster_shape(&clusters, &small).unwrap();
    assert_eq!(index, 1);
    assert_eq!(heights(&found), vec![(RwasmAirId::Cpu, 10), (RwasmAirId::AddSub, 10)]);
    assert_eq!(area, config.estimate_lde_size(&found));
    let large = vec![(RwasmAirId::Cpu, 2000)];
    assert_eq!(config.minimal_cluster_shape(&clusters, &large).unwrap().0, 0);
    let huge = vec![(RwasmAirId::Cpu, 5000)];
    assert!(config.minimal_cluster_shape(&clusters, &huge).is_none());
    // Of equally cheap clusters the first one is taken.
    let twice = vec![(7, &config.partial_small_shapes[1]), (8, &config.partial_small_shapes[1])];
    assert_eq!(config.minimal_cluster_shape(&twice, &small).unwrap().0, 7);
}

#[test]
fn packed_shards_take_a_small_shape() {
    let config = config();
    let mut record = shard(ShardKind::PackedCore);
    record.core_heights = vec![(RwasmAirId::Cpu, 1000), (RwasmAirId::AddSub, 1)];
    record.memory_heights = vec![(RwasmAirId::Global, 600)];
    let found = config.find_shape(&record).unwrap();
    assert_eq!(
        heights(&found),
        vec![(RwasmAirId::Cpu, 10), (RwasmAirId::AddSub, 10), (RwasmAirId::Global, 10)]
    );
    record.memory_heights = vec![(RwasmAirId::Global, 5000)];
    match config.find_shape(&record) {
        Err(CoreShapeError::ShapeError(stats)) => assert_eq!(
            stats,
            vec![
                ("Cpu".to_string(), 10),
                ("AddSub".to_string(), 0),
                ("Global".to_string(), 13),
            ]
        ),
        other => panic!("unexpected {other:?}"),
    }
}

#[test]
fn core_shards_take_the_cheapest_shape_of_their_size_or_more() {
    let config = config();
    let mut record = shard(ShardKind::Core);
    record.core_heights = vec![(RwasmAirId::Cpu, 1 << 19), (RwasmAirId::AddSub, 5)];
    let found = config.find_shape(&record).unwrap();
    assert_eq!(heights(&found), vec![(RwasmAirId::Cpu, 19), (RwasmAirId::AddSub, 17)]);
    // Clusters of smaller sizes are not looked at.
    record.log2_shard_size = 20;
    let found = config.find_shape(&record).unwrap();
    assert_eq!(heights(&found), vec![(RwasmAirId::Cpu, 21), (RwasmAirId::AddSub, 20)]);
    record.log2_shard_size = 22;
    match config.find_shape(&record) {
        Err(CoreShapeError::ShapeError(stats)) => assert_eq!(stats, record.debug_stats),
        other => panic!("unexpected {other:?}"),
    }
}

#[test]
fn memory_shards_take_a_memory_shape() {
    let config = config();
    let mut record = shard(ShardKind::GlobalMemory);
    record.memory_heights = vec![
        (RwasmAirId::MemoryGlobalInit, 0),
        (RwasmAirId::MemoryGlobalFinalize, 1025),
        (RwasmAirId::Global, 2048),
    ];
    let found = config.find_shape(&record).unwrap();
    assert_eq!(
        heights(&found),
        vec![(RwasmAirId::MemoryGlobalFinalize, 16), (RwasmAirId::Global, 11)]
    );
    record.memory_heights = vec![(RwasmAirId::Global, (1 << 22) + 1)];
    assert!(matches!(config.find_shape(&record), Err(CoreShapeError::ShapeError(_))));
}

#[test]
fn precompile_shapes_go_by_rows_per_event() {
    let layout = PrecompileLayout {
        memory_events_per_row: 3,
        rows_per_event: 2,
        log2_heights: vec![5],
    };
    let shapes = get_precompile_shapes(RwasmAirId::ShaExtend, &layout, 5, 4);
    // From eight rows an event down to one.
    assert_eq!(shapes.len(), 8);
    // 96 words in 8 rows make 12 words, three rows of words, and 24 + 16 global events.
    assert_eq!((shapes[0].syscall, shapes[0].memory_local, shapes[0].global), (4, 4, 6));
    // 96 words in 1 row make 24 rows of words, and 192 + 16 global events.
    assert_eq!((shapes[7].syscall, shapes[7].memory_local, shapes[7].global), (4, 5, 8));
    // 1024 rows make 512 events.
    let tall = get_precompile_shapes(RwasmAirId::ShaExtend, &layout, 10, 4);
    assert_eq!(tall[0].syscall, 9);
    // A global table of more than 2^22 rows is left out.
    let shapes = get_precompile_shapes(RwasmAirId::ShaExtend, &layout, 20, 4);
    assert!(shapes.iter().all(|s| s.global <= 22));
    assert_eq!(shapes.len(), 7);
}

#[test]
fn precompile_shards_take_a_precompile_shape() {
    let config = config();
    let mut record = shard(ShardKind::Precompile);
    record.precompile_heights = vec![PrecompileHeights {
        air: RwasmAirId::ShaExtend,
        height: 20,
        num_memory_local_events: 10,
        num_global_events: 30,
    }];
    let found = config.find_shape(&record).unwrap();
    assert_eq!(
        heights(&found),
        vec![
            (RwasmAirId::ShaExtend, 5),
            (RwasmAirId::SyscallPrecompile, 4),
            (RwasmAirId::MemoryLocal, 4),
            (RwasmAirId::Global, 6),
        ]
    );
    // More global events than any shape has room for.
    record.precompile_heights[0].num_global_events = (1 << 22) + 1;
    assert!(matches!(config.find_shape(&record), Err(CoreShapeError::ShapeError(_))));
    // A precompile that is not configured.
    record.precompile_heights[0].air = RwasmAirId::ShaCompress;
    match config.find_shape(&record) {
        Err(CoreShapeError::PrecompileNotIncluded(stats)) => {
            assert_eq!(stats, record.debug_stats)
        }
        other => panic!("unexpected {other:?}"),
    }
}

#[test]
fn the_first_configured_precompile_decides() {
    let precompiles = vec![
        PrecompileAir { air: RwasmAirId::ShaCompress, ..sha() },
        sha(),
        PrecompileAir { air: RwasmAirId::EdAddAssign, ..sha() },
    ];
    let config = CoreShapeConfig::from_shapes(&vec![], &vec![], &precompiles, costs(), 4);
    let mut positions: Vec<u32> = precompiles.iter().map(|p| p.air.index() as u32).collect();
    positions.sort();
    assert_eq!(config.partial_precompile_shapes.positions(), positions);
    let entry = |air: RwasmAirId, height: usize| PrecompileHeights {
        air,
        height,
        num_memory_local_events: 1,
        num_global_events: 1,
    };
    let mut record = shard(ShardKind::Precompile);
    record.precompile_heights = vec![
        entry(RwasmAirId::ShaCompress, 8),
        entry(RwasmAirId::ShaExtend, 9),
        entry(RwasmAirId::ShaExtend, 8),
    ];
    let found = config.find_shape(&record).unwrap();
    // The first entry of the precompile with the lower position.
    assert_eq!(found.log2_height(RwasmAirId::ShaExtend), Some(4));
    assert_eq!(found.log2_height(RwasmAirId::ShaCompress), None);
}

#[test]
fn unusable_inputs_are_told_apart() {
    let good = || vec![(19, vec![shape(&[(RwasmAirId::Cpu, 19)])])];
    assert!(is_usable(&good(), &vec![], &vec![sha()], 4));
    assert!(!is_usable(&good(), &vec![], &vec![sha()], 0));
    let mut unordered = good();
    unordered.extend(good());
    assert!(!is_usable(&unordered, &vec![], &vec![], 4));
    let short = vec![(19, vec![shape(&[(RwasmAirId::Cpu, 2)])])];
    assert!(!is_usable(&short, &vec![], &vec![], 4));
    let tall = vec![shape(&[(RwasmAirId::Cpu, 64)])];
    assert!(!is_usable(&good(), &tall, &vec![], 4));
    let wide = PrecompileAir { memory_events_per_row: usize::MAX, ..sha() };
    assert!(!is_usable(&good(), &vec![], &vec![wide], 4));

    let config = config();
    let mut record = shard(ShardKind::Core);
    record.core_heights = vec![(RwasmAirId::Cpu, 1)];
    assert!(config.is_searchable(&record));
    assert!(config.is_estimable(&shape(&[(RwasmAirId::Cpu, 30)])));
    assert!(!config.is_estimable(&shape(&[(RwasmAirId::Cpu, 31)])));
    let free = CoreShapeConfig::from_shapes(&good(), &vec![], &vec![], NumberMap::empty(), 4);
    assert!(!free.is_searchable(&record));
    record.kind = ShardKind::PackedCore;
    assert!(free.is_searchable(&record));
}

#[test]
fn preprocessed_shapes_are_fixed_once() {
    let config = config();
    let rows = vec![(RwasmAirId::Program, 1 << 20), (RwasmAirId::Byte, 1 << 16)];
    let mut program = Program::empty();
    assert!(config.fix_preprocessed_shape(&mut program, &rows).is_ok());
    assert_eq!(
        heights(program.preprocessed_shape.as_ref().unwrap()),
        vec![(RwasmAirId::Program, 20), (RwasmAirId::Byte, 16)]
    );
    assert!(matches!(
        config.fix_preprocessed_shape(&mut program, &rows),
        Err(CoreShapeError::PreprocessedShapeAlreadyFixed)
    ));
    let mut program = Program::empty();
    let rows = vec![(RwasmAirId::Program, (1 << 22) + 1)];
    assert!(matches!(
        config.fix_preprocessed_shape(&mut program, &rows),
        Err(CoreShapeError::PreprocessedShapeError)
    ));
    assert!(program.preprocessed_shape.is_none());
}

#[test]
fn shapes_are_fixed_on_top_of_preprocessed_ones() {
    let config = config();
    let mut record = shard(ShardKind::GlobalMemory);
    record.memory_heights = vec![(RwasmAirId::Global, 1)];
    let mut missing = ExecutionRecord::new(Arc::new(Program::empty()));
    assert!(matches!(
        config.fix_shape(&mut missing, &record),
        Err(CoreShapeError::PreprocessedShapeMissing)
    ));
    // No costs are needed where no shape is looked for.
    let free = CoreShapeConfig::from_shapes(&vec![], &vec![], &vec![], NumberMap::empty(), 4);
    assert!(matches!(
        free.fix_shape(&mut missing, &shard(ShardKind::PackedCore)),
        Err(CoreShapeError::PreprocessedShapeMissing)
    ));
    assert!(missing.shape.is_none());
    let mut taken = create_dummy_record(&shape(&[(RwasmAirId::Program, 19)]));
    assert!(matches!(
        free.fix_shape(&mut taken, &shard(ShardKind::PackedCore)),
        Err(CoreShapeError::ShapeAlreadyFixed)
    ));
    let program = create_dummy_program(&shape(&[(RwasmAirId::Program, 19)]));
    let mut fixed = ExecutionRecord::new(Arc::new(program));
    assert!(config.fix_shape(&mut fixed, &record).is_ok());
    assert_eq!(
        heights(fixed.shape.as_ref().unwrap()),
        vec![(RwasmAirId::Program, 19), (RwasmAirId::Global, 11)]
    );
    assert!(matches!(
        config.fix_shape(&mut fixed, &record),
        Err(CoreShapeError::ShapeAlreadyFixed)
    ));
    // A record for which no shape is found is left with the preprocessed shape.
    record.memory_heights = vec![(RwasmAirId::Global, 1 << 23)];
    let program = create_dummy_program(&shape(&[(RwasmAirId::Program, 19)]));
    let mut failed = ExecutionRecord::new(Arc::new(program));
    assert!(matches!(
        config.fix_shape(&mut failed, &record),
        Err(CoreShapeError::ShapeError(_))
    ));
    assert_eq!(heights(failed.shape.as_ref().unwrap()), vec![(RwasmAirId::Program, 19)]);
}

#[test]
fn dummy_records_have_the_given_shape() {
    let wanted = shape(&[
        (RwasmAirId::Program, 10),
        (RwasmAirId::Byte, 16),
        (RwasmAirId::Cpu, 11),
        (RwasmAirId::DivRem, 11),
        (RwasmAirId::Global, 10),
    ]);
    let program = create_dummy_program(&wanted);
    assert_eq!(heights(program.preprocessed_shape.as_ref().unwrap()), heights(&wanted));
    let record = create_dummy_record(&wanted);
    assert_eq!(heights(record.shape.as_ref().unwrap()), heights(&wanted));
    assert_eq!(
        heights(record.program.preprocessed_shape.as_ref().unwrap()),
        heights(&wanted)
    );
    assert!(record.cpu_events.is_empty());
}

#[test]
fn all_shapes_of_a_cluster() {
    let mut cluster = ShapeCluster::empty();
    cluster.set(RwasmAirId::Cpu, vec![Some(5), Some(6)]);
    cluster.set(RwasmAirId::Mul, vec![None, Some(6)]);
    let shapes = generate_all_shapes_from_allowed_log_heights(&cluster);
    let inner: Vec<Vec<(String, usize)>> = shapes.into_iter().map(|s| s.inner).collect();
    assert_eq!(
        inner,
        vec![
            vec![("Cpu".to_string(), 5)],
            // The taller table comes first.
            vec![("Mul".to_string(), 6), ("Cpu".to_string(), 5)],
            vec![("Cpu".to_string(), 6)],
            // Tables of one height come by name.
            vec![("Cpu".to_string(), 6), ("Mul".to_string(), 6)],
        ]
    );
    assert_eq!(generate_all_shapes_from_allowed_log_heights(&ShapeCluster::empty()).len(), 1);
    assert_eq!(
        table_list(&shape(&[(RwasmAirId::Mul, 2), (RwasmAirId::Cpu, 7)])),
        vec![("Cpu".to_string(), 7), ("Mul".to_string(), 2)]
    );
}

#[test]
fn the_catalogue_has_all_kinds_of_shapes() {
    let maximal = vec![(19, vec![shape(&[(RwasmAirId::Cpu, 19)])])];
    let small = vec![shape(&[(RwasmAirId::Cpu, 12)])];
    let config = CoreShapeConfig::from_shapes(&maximal, &small, &vec![sha()], costs(), 4);
    let shapes = config.all_shapes();
    let cluster = &config.partial_core_shapes[0].1[0];
    let mut core = 4;
    for i in 0..NUM_AIRS {
        if let Some(allowed) = cluster.get(RwasmAirId::from_index(i).unwrap()) {
            core *= allowed.len();
        }
    }
    let layout_position = RwasmAirId::ShaExtend.index() as u32;
    let layout = config.partial_precompile_shapes.layout(layout_position).unwrap();
    let mut precompile = 0;
    for height in 3..21 {
        precompile += get_precompile_shapes(RwasmAirId::ShaExtend, layout, height, 4).len();
    }
    assert_eq!(shapes.len(), core + 4 + 4 * 7 * 7 * 6 + 4 * precompile);
    // The small program with the smallest program table.
    assert_eq!(
        shapes[core].inner,
        vec![("Program".to_string(), 19), ("Byte".to_string(), 16), ("Cpu".to_string(), 12)]
    );
}

#[test]
fn fixed_shapes_are_in_the_catalogue() {
    let maximal = vec![(19, vec![shape(&[(RwasmAirId::Cpu, 19)])])];
    let small = vec![shape(&[(RwasmAirId::Cpu, 12), (RwasmAirId::Mul, 11)])];
    let config = CoreShapeConfig::from_shapes(&maximal, &small, &vec![sha()], costs(), 4);
    let catalogue: Vec<Vec<(String, usize)>> =
        config.all_shapes().into_iter().map(|shape| shape.inner).collect();
    let mut program = Program::empty();
    let rows = vec![(RwasmAirId::Program, (1 << 19) + 1), (RwasmAirId::Byte, 1 << 16)];
    assert!(config.fix_preprocessed_shape(&mut program, &rows).is_ok());
    let program = Arc::new(program);
    let mut records = vec![
        shard(ShardKind::PackedCore),
        shard(ShardKind::Core),
        shard(ShardKind::GlobalMemory),
        shard(ShardKind::Precompile),
    ];
    records[0].core_heights = vec![(RwasmAirId::Cpu, 9), (RwasmAirId::Mul, 2)];
    for position in 0..NUM_CORE_AIRS {
        records[1].core_heights.push((CoreAirId::at(position).unwrap().to_air(), position));
    }
    for air in
        [RwasmAirId::MemoryGlobalInit, RwasmAirId::MemoryGlobalFinalize, RwasmAirId::Global]
    {
        records[2].memory_heights.push((air, 100));
    }
    records[3].precompile_heights.push(PrecompileHeights {
        air: RwasmAirId::ShaExtend,
        height: 100,
        num_memory_local_events: 40,
        num_global_events: 300,
    });
    for heights in &records {
        let mut record = ExecutionRecord::new(program.clone());
        assert!(config.fix_shape(&mut record, heights).is_ok());
        let mut tables = table_list(record.shape.as_ref().unwrap());
        tables.sort_by(|a, b| b.1.cmp(&a.1).then(a.0.cmp(&b.0)));
        assert!(catalogue.contains(&tables), "{tables:?}");
    }
}

#[test]
fn maximal_shapes_take_the_last_heights() {
    let config = config();
    let shapes = config.maximal_core_shapes(10);
    assert_eq!(shapes.len(), 1);
    assert_eq!(shapes[0].log2_height(RwasmAirId::Program), Some(22));
    assert_eq!(shapes[0].log2_height(RwasmAirId::Byte), Some(16));
    assert_eq!(shapes[0].log2_height(RwasmAirId::Cpu), Some(19));
    assert_eq!(shapes[0].log2_height(RwasmAirId::AddSub), Some(17));
    assert_eq!(shapes[0].log2_height(RwasmAirId::Mul), Some(10));
    // The call table is raised to three below the cpu table.
    assert_eq!(shapes[0].log2_height(RwasmAirId::Call), Some(16));
    assert_eq!(config.maximal_core_shapes(21).len(), 2);
    assert_eq!(config.maximal_core_shapes(21)[0].log2_height(RwasmAirId::Call), Some(18));
    // All sizes up to the least one have the same maximal shapes.
    for size in 0..20 {
        let same = config.maximal_core_shapes(size);
        assert_eq!(same.len(), 1);
        assert_eq!(heights(&same[0]), heights(&shapes[0]));
    }
    let low = vec![(10, vec![shape(&[(RwasmAirId::Cpu, 10)])])];
    let low = CoreShapeConfig::from_shapes(&low, &vec![], &vec![], costs(), 4);
    assert_eq!(low.maximal_core_shapes(10)[0].log2_height(RwasmAirId::Call), Some(14));

    // At two rows an event and one word a row, eight to four rows keep the global table below 2^21.
    let light = PrecompileAir { memory_events_per_row: 1, ..sha() };
    let maximal = vec![(19, vec![shape(&[(RwasmAirId::Cpu, 19)])])];
    let config = CoreShapeConfig::from_shapes(&maximal, &vec![], &vec![light], costs(), 4);
    let all = config.maximal_core_plus_precompile_shapes(19);
    assert_eq!(all.len(), 1 + 5);
    for shape in &all[1..] {
        assert_eq!(shape.log2_height(RwasmAirId::ShaExtend), Some(20));
        assert_eq!(shape.log2_height(RwasmAirId::Program), Some(22));
        assert!(shape.log2_height(RwasmAirId::Global).unwrap() < 21);
    }
}

#[test]
fn small_programs_have_the_common_tables() {
    let config = config();
    let shapes = config.small_program_shapes();
    assert_eq!(shapes.len(), 2);
    assert_eq!(
        shapes[1].inner,
        vec![
            ("TableInit".to_string(), 22),
            ("Program".to_string(), 19),
            ("Byte".to_string(), 16),
            ("Call".to_string(), 16),
            ("AddSub".to_string(), 10),
            ("Cpu".to_string(), 10),
            ("Global".to_string(), 10),
        ]
    );
}
