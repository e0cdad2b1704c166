use gaussian_splat::config::{ConfigError, PipelineConfig, NUM_SPLAT_CAP, TILE_SZ, WG_SIZE};
use gaussian_splat::projector::{tile_box, Footprint, TileBox};
use gaussian_splat::schedule::{
    dispatch_for, first_pass, frame_outcome, next_pass, plan_frame, sort_dispatch_args, Dispatch,
    FrameOutcome, IndirectArgs, Pass, PlanError, SORT_BLOCK,
};

fn small() -> PipelineConfig {
    PipelineConfig::configure(64, 48, 8, 100, 64).unwrap()
}

#[test]
fn default_configuration_uses_the_constants() {
    let c = PipelineConfig::new(800, 600).unwrap();
    assert_eq!(c.tile_size, TILE_SZ);
    assert_eq!(c.capacity, NUM_SPLAT_CAP);
    assert_eq!(c.workgroup_size, WG_SIZE);
    assert_eq!(c.tiles_x(), 100);
    assert_eq!(c.tiles_y(), 75);
    assert_eq!(c.num_tiles(), 7500);
}

#[test]
fn grid_rounds_partial_tiles_up() {
    let c = PipelineConfig::new(801, 1).unwrap();
    assert_eq!(c.tiles_x(), 101);
    assert_eq!(c.tiles_y(), 1);
    assert_eq!(c.num_tiles(), 101);
    let c = PipelineConfig::new(1, 1).unwrap();
    assert_eq!(c.num_tiles(), 1);
    let c = PipelineConfig::new(8, 9).unwrap();
    assert_eq!((c.tiles_x(), c.tiles_y()), (1, 2));
}

#[test]
fn tile_ids_are_row_major() {
    let c = small();
    assert_eq!(c.tile_id(0, 0), 0);
    assert_eq!(c.tile_id(7, 0), 7);
    assert_eq!(c.tile_id(0, 1), 8);
    assert_eq!(c.tile_id(7, 5), 47);
}

#[test]
fn invalid_configurations_are_rejected() {
    assert_eq!(PipelineConfig::new(0, 10), Err(ConfigError::EmptyScreen));
    assert_eq!(PipelineConfig::new(10, 0), Err(ConfigError::EmptyScreen));
    assert_eq!(PipelineConfig::configure(10, 10, 0, 1, 1), Err(ConfigError::ZeroTileSize));
    assert_eq!(PipelineConfig::configure(10, 10, 8, 0, 1), Err(ConfigError::ZeroCapacity));
    assert_eq!(PipelineConfig::configure(10, 10, 8, 1, 0), Err(ConfigError::ZeroWorkgroupSize));
    assert_eq!(
        PipelineConfig::configure(u32::MAX, u32::MAX, 1, 1, 1),
        Err(ConfigError::TileGridTooLarge)
    );
    assert_eq!(PipelineConfig::configure(0, 0, 0, 0, 0), Err(ConfigError::EmptyScreen));
    assert!(PipelineConfig::configure(65536, 65535, 1, 1, 1).is_ok());
    assert_eq!(
        PipelineConfig::configure(65536, 65536, 1, 1, 1),
        Err(ConfigError::TileGridTooLarge)
    );
}

fn footprint(min_x: i64, min_y: i64, max_x: i64, max_y: i64) -> Footprint {
    Footprint { visible: true, min_x, min_y, max_x, max_y }
}

const NO_TILES: TileBox = TileBox { min_tx: 0, min_ty: 0, max_tx: 0, max_ty: 0, count: 0 };

#[test]
fn footprint_inside_one_tile() {
    let c = small();
    let tb = tile_box(&c, &footprint(33, 25, 38, 30));
    assert_eq!(tb, TileBox { min_tx: 4, min_ty: 3, max_tx: 4, max_ty: 3, count: 1 });
}

#[test]
fn footprint_across_tiles() {
    let c = small();
    let tb = tile_box(&c, &footprint(30, 7, 33, 24));
    assert_eq!(tb, TileBox { min_tx: 3, min_ty: 0, max_tx: 4, max_ty: 3, count: 8 });
}

#[test]
fn footprint_is_clamped_to_the_screen() {
    let c = small();
    let tb = tile_box(&c, &footprint(-100, -5, 9, 1000));
    assert_eq!(tb, TileBox { min_tx: 0, min_ty: 0, max_tx: 1, max_ty: 5, count: 12 });
    let tb = tile_box(&c, &footprint(i64::MIN, i64::MIN, i64::MAX, i64::MAX));
    assert_eq!(tb, TileBox { min_tx: 0, min_ty: 0, max_tx: 7, max_ty: 5, count: 48 });
}

#[test]
fn culled_and_offscreen_footprints_overlap_nothing() {
    let c = small();
    let culled = Footprint { visible: false, min_x: 10, min_y: 10, max_x: 20, max_y: 20 };
    assert_eq!(tile_box(&c, &culled), NO_TILES);
    assert_eq!(tile_box(&c, &footprint(-20, 10, -1, 20)), NO_TILES);
    assert_eq!(tile_box(&c, &footprint(10, -20, 20, -1)), NO_TILES);
    assert_eq!(tile_box(&c, &footprint(64, 10, 70, 20)), NO_TILES);
    assert_eq!(tile_box(&c, &footprint(10, 48, 20, 50)), NO_TILES);
    assert_eq!(tile_box(&c, &footprint(20, 10, 19, 20)), NO_TILES);
    assert_eq!(tile_box(&c, &footprint(10, 20, 20, 19)), NO_TILES);
    assert_eq!(tile_box(&c, &footprint(63, 47, 63, 47)).count, 1);
    assert_eq!(tile_box(&c, &footprint(-3, -3, 0, 0)).count, 1);
}

#[test]
fn passes_run_in_pipeline_order() {
    let mut order = vec![first_pass()];
    while let Some(p) = next_pass(*order.last().unwrap()) {
        order.push(p);
    }
    assert_eq!(
        order,
        vec![
            Pass::Preprocess,
            Pass::PrefixSum,
            Pass::FinishPrefixSum,
            Pass::CopyKeyValue,
            Pass::Sort,
            Pass::Range,
            Pass::Rasterize,
            Pass::Present,
        ]
    );
}

#[test]
fn plan_sizes_buffers_and_dispatches() {
    let c = PipelineConfig::new(800, 600).unwrap();
    let plan = plan_frame(&c, 1000).unwrap();
    assert_eq!(plan.num_gaussian, 1000);
    assert_eq!(plan.splat_buffer_bytes, 64000);
    assert_eq!(plan.prefix_sum_buffer_bytes, 4000);
    assert_eq!(plan.output_buffer_bytes, 800 * 600 * 16);
    assert_eq!(plan.range_buffer_words, 7500 * 8);
    assert_eq!(plan.splat_groups, 16);
    assert_eq!(plan.scan_groups, 8);
    assert_eq!(dispatch_for(&plan, Pass::Preprocess), Dispatch::Groups { x: 16, y: 1, z: 1 });
    assert_eq!(dispatch_for(&plan, Pass::PrefixSum), Dispatch::Groups { x: 8, y: 1, z: 1 });
    assert_eq!(dispatch_for(&plan, Pass::FinishPrefixSum), Dispatch::Groups { x: 1, y: 1, z: 1 });
    assert_eq!(dispatch_for(&plan, Pass::CopyKeyValue), Dispatch::Groups { x: 16, y: 1, z: 1 });
    assert_eq!(dispatch_for(&plan, Pass::Sort), Dispatch::Indirect);
    assert_eq!(dispatch_for(&plan, Pass::Range), Dispatch::Groups { x: 100, y: 75, z: 1 });
    assert_eq!(dispatch_for(&plan, Pass::Rasterize), Dispatch::Groups { x: 100, y: 75, z: 1 });
    assert_eq!(dispatch_for(&plan, Pass::Present), Dispatch::Draw { vertices: 6, instances: 1 });
}

#[test]
fn plan_group_counts_round_up() {
    let c = PipelineConfig::new(8, 8).unwrap();
    assert_eq!(plan_frame(&c, 0).unwrap().splat_groups, 0);
    assert_eq!(plan_frame(&c, 0).unwrap().scan_groups, 0);
    assert_eq!(plan_frame(&c, 1).unwrap().splat_groups, 1);
    assert_eq!(plan_frame(&c, 64).unwrap().splat_groups, 1);
    assert_eq!(plan_frame(&c, 65).unwrap().splat_groups, 2);
    assert_eq!(plan_frame(&c, 128).unwrap().scan_groups, 1);
    assert_eq!(plan_frame(&c, 129).unwrap().scan_groups, 2);
}

#[test]
fn plan_rejects_buffers_over_the_limit() {
    let c = PipelineConfig::new(800, 600).unwrap();
    assert!(plan_frame(&c, 33554431).is_ok());
    assert_eq!(plan_frame(&c, 33554432), Err(PlanError::SplatBufferTooLarge));
    assert_eq!(plan_frame(&c, u64::MAX), Err(PlanError::SplatBufferTooLarge));
    let wide = PipelineConfig::new(20000, 20000).unwrap();
    assert_eq!(plan_frame(&wide, 10), Err(PlanError::OutputBufferTooLarge));
    let fine = PipelineConfig::configure(11000, 11000, 1, 10, 64).unwrap();
    assert_eq!(plan_frame(&fine, 10), Err(PlanError::RangeBufferTooLarge));
}

#[test]
fn outcome_reports_overflow_past_the_capacity() {
    let c = PipelineConfig::configure(64, 48, 8, 100, 64).unwrap();
    assert_eq!(frame_outcome(&c, 0), FrameOutcome::Complete { instances: 0, unused: 100 });
    assert_eq!(frame_outcome(&c, 99), FrameOutcome::Complete { instances: 99, unused: 1 });
    assert_eq!(frame_outcome(&c, 100), FrameOutcome::Complete { instances: 100, unused: 0 });
    assert_eq!(frame_outcome(&c, 101), FrameOutcome::Overflow { kept: 100, excess: 1 });
    assert_eq!(
        frame_outcome(&c, u32::MAX),
        FrameOutcome::Overflow { kept: 100, excess: u32::MAX - 100 }
    );
}

#[test]
fn sort_launch_follows_the_total() {
    let c = PipelineConfig::configure(64, 48, 8, 10000, 64).unwrap();
    assert_eq!(SORT_BLOCK, 3840);
    assert_eq!(sort_dispatch_args(&c, 0), IndirectArgs { x: 0, y: 1, z: 1 });
    assert_eq!(sort_dispatch_args(&c, 1), IndirectArgs { x: 1, y: 1, z: 1 });
    assert_eq!(sort_dispatch_args(&c, 3840), IndirectArgs { x: 1, y: 1, z: 1 });
    assert_eq!(sort_dispatch_args(&c, 3841), IndirectArgs { x: 2, y: 1, z: 1 });
    assert_eq!(sort_dispatch_args(&c, 10000), IndirectArgs { x: 3, y: 1, z: 1 });
    assert_eq!(sort_dispatch_args(&c, 10001), IndirectArgs { x: 3, y: 1, z: 1 });
    assert_eq!(sort_dispatch_args(&c, u32::MAX), IndirectArgs { x: 3, y: 1, z: 1 });
    let d = PipelineConfig::new(8, 8).unwrap();
    assert_eq!(sort_dispatch_args(&d, 1200000), IndirectArgs { x: 313, y: 1, z: 1 });
    assert_eq!(sort_dispatch_args(&d, u32::MAX).x, 313);
}
