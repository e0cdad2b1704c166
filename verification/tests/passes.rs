use gaussian_splat::bucket::{count_buckets, scan_in_groups, CapacityOverflow};
use gaussian_splat::config::PipelineConfig;
use gaussian_splat::frame::build_frame;
use gaussian_splat::keys::{depth_key, is_sorted, key_depth, key_tile, pack_key, Instance};
use gaussian_splat::materializer::{
    build_instances, entry, materialize, tile_counts, MaterializeError,
};
use gaussian_splat::projector::{project, Footprint, Splat, TileBox};
use gaussian_splat::ranges::{checked_ranges, extract_ranges, TileRange};
use gaussian_splat::rasterizer::{pixel_tile, tile_work};
use gaussian_splat::sorter::sort_instances;

fn small(capacity: u32) -> PipelineConfig {
    PipelineConfig::configure(64, 48, 8, capacity, 64).unwrap()
}

fn splat_at(c: &PipelineConfig, min_x: i64, min_y: i64, max_x: i64, max_y: i64, depth: f32) -> Splat {
    let fp = Footprint { visible: true, min_x, min_y, max_x, max_y };
    project(c, &fp, depth.to_bits())
}

#[test]
fn offsets_are_exclusive_prefix_sums() {
    let counts = vec![2u32, 0, 3, 1, 0, 4];
    let b = count_buckets(&counts, 10).unwrap();
    assert_eq!(b.offsets, vec![0, 2, 2, 5, 6, 6]);
    assert_eq!(b.total, 10);
    assert_eq!(b.offsets[5] + counts[5], b.total);
}

#[test]
fn write_ranges_do_not_overlap() {
    let counts = vec![3u32, 1, 0, 5, 2];
    let b = count_buckets(&counts, 100).unwrap();
    for i in 0..counts.len() {
        for j in (i + 1)..counts.len() {
            assert!(b.offsets[i] + counts[i] <= b.offsets[j]);
        }
    }
}

#[test]
fn empty_counts_have_zero_total() {
    let b = count_buckets(&Vec::new(), 1).unwrap();
    assert_eq!(b.offsets, Vec::<u32>::new());
    assert_eq!(b.total, 0);
}

#[test]
fn capacity_boundary() {
    let counts = vec![4u32, 5];
    assert_eq!(count_buckets(&counts, 10).unwrap().total, 9);
    assert_eq!(count_buckets(&counts, 9).unwrap().total, 9);
    assert_eq!(count_buckets(&counts, 8).err(), Some(CapacityOverflow { splat: 1 }));
    assert_eq!(count_buckets(&counts, 3).err(), Some(CapacityOverflow { splat: 0 }));
    let huge = vec![u32::MAX, u32::MAX, 1];
    assert_eq!(count_buckets(&huge, u32::MAX).err(), Some(CapacityOverflow { splat: 1 }));
}

#[test]
fn scan_in_groups_gives_the_same_offsets() {
    let counts: Vec<u32> = (0..300u32).map(|i| (i * 7 + 3) % 5).collect();
    let total: u32 = counts.iter().sum();
    let plain = count_buckets(&counts, total).unwrap();
    for group in [0usize, 1, 2, 3, 64, 128, 299, 300, 301, usize::MAX] {
        let b = scan_in_groups(&counts, group, total).unwrap();
        assert_eq!(b.offsets, plain.offsets);
        assert_eq!(b.total, total);
    }
    let mut sum = 0u32;
    for (i, c) in counts.iter().enumerate() {
        assert_eq!(plain.offsets[i], sum);
        sum += c;
    }
}

#[test]
fn scan_in_groups_reports_the_first_splat_over_capacity() {
    let counts = vec![3u32, 4, 0, 5, 1, 2];
    for group in [0usize, 1, 2, 4, 128] {
        assert_eq!(scan_in_groups(&counts, group, 15).unwrap().total, 15);
        assert_eq!(scan_in_groups(&counts, group, 16).unwrap().total, 15);
        assert_eq!(scan_in_groups(&counts, group, 14).err(), Some(CapacityOverflow { splat: 5 }));
        assert_eq!(scan_in_groups(&counts, group, 11).err(), Some(CapacityOverflow { splat: 3 }));
        assert_eq!(scan_in_groups(&counts, group, 2).err(), Some(CapacityOverflow { splat: 0 }));
    }
    let huge = vec![u32::MAX, 0, u32::MAX];
    assert_eq!(scan_in_groups(&huge, 2, u32::MAX).err(), Some(CapacityOverflow { splat: 2 }));
    assert_eq!(scan_in_groups(&Vec::new(), 128, 1).unwrap().total, 0);
}

#[test]
fn keys_pack_tile_above_depth() {
    let k = pack_key(3, 7);
    assert_eq!(k, (3u64 << 32) | 7);
    assert_eq!(key_tile(k), 3);
    assert_eq!(key_depth(k), 7);
    assert_eq!(pack_key(u32::MAX, u32::MAX), u64::MAX);
    assert_eq!(pack_key(0, 0), 0);
    assert!(pack_key(1, 0) > pack_key(0, u32::MAX));
    assert!(pack_key(2, 5) < pack_key(2, 6));
}

#[test]
fn depth_keys_follow_depth() {
    let depths = [-1000.0f32, -1.5, -0.0, 0.0, 0.01, 1.0, 1.0000001, 2.0, 1000.0];
    for w in depths.windows(2) {
        assert!(depth_key(w[0].to_bits()) < depth_key(w[1].to_bits()));
    }
    assert_eq!(depth_key(0), 0x8000_0000);
    assert_eq!(depth_key(0x8000_0000), 0x7fff_ffff);
    assert_eq!(depth_key(1.0f32.to_bits()), 0xbf80_0000);
    assert_eq!(depth_key((-1.0f32).to_bits()), 0x407f_ffff);
    assert_eq!(depth_key(u32::MAX), 0);
}

#[test]
fn entries_walk_the_block_row_by_row() {
    let c = small(100);
    let s = Splat { tiles: TileBox { min_tx: 3, min_ty: 1, max_tx: 4, max_ty: 2, count: 4 }, depth: 9 };
    let tiles: Vec<u32> = (0..4).map(|r| key_tile(entry(&c, &s, 5, r).key)).collect();
    assert_eq!(tiles, vec![11, 12, 19, 20]);
    let e = entry(&c, &s, 5, 3);
    assert_eq!(e, Instance { key: pack_key(20, 9), splat: 5 });
}

#[test]
fn materialize_writes_at_offsets() {
    let c = small(100);
    let splats = vec![
        Splat { tiles: TileBox { min_tx: 0, min_ty: 0, max_tx: 1, max_ty: 0, count: 2 }, depth: 30 },
        Splat { tiles: TileBox { min_tx: 0, min_ty: 0, max_tx: 0, max_ty: 0, count: 0 }, depth: 20 },
        Splat { tiles: TileBox { min_tx: 1, min_ty: 0, max_tx: 1, max_ty: 1, count: 2 }, depth: 10 },
    ];
    let counts = tile_counts(&splats);
    assert_eq!(counts, vec![2, 0, 2]);
    let b = count_buckets(&counts, c.capacity).unwrap();
    let list = materialize(&c, &splats, &b);
    assert_eq!(
        list,
        vec![
            Instance { key: pack_key(0, 30), splat: 0 },
            Instance { key: pack_key(1, 30), splat: 0 },
            Instance { key: pack_key(1, 10), splat: 2 },
            Instance { key: pack_key(9, 10), splat: 2 },
        ]
    );
    assert_eq!(build_instances(&c, &splats).unwrap(), list);
}

#[test]
fn instances_over_capacity_are_reported() {
    let splats = vec![
        Splat { tiles: TileBox { min_tx: 0, min_ty: 0, max_tx: 1, max_ty: 1, count: 4 }, depth: 1 },
        Splat { tiles: TileBox { min_tx: 0, min_ty: 0, max_tx: 2, max_ty: 1, count: 6 }, depth: 2 },
    ];
    assert_eq!(build_instances(&small(11), &splats).unwrap().len(), 10);
    assert_eq!(build_instances(&small(10), &splats).unwrap().len(), 10);
    assert_eq!(
        build_instances(&small(9), &splats),
        Err(MaterializeError::Capacity(CapacityOverflow { splat: 1 }))
    );
    assert!(matches!(build_frame(&small(9), &splats), Err(MaterializeError::Capacity(_))));
}

#[test]
fn sort_orders_keys_and_keeps_ties_in_place() {
    let list = vec![
        Instance { key: 5, splat: 0 },
        Instance { key: 1, splat: 1 },
        Instance { key: 5, splat: 2 },
        Instance { key: 0, splat: 3 },
        Instance { key: 1, splat: 4 },
        Instance { key: 5, splat: 5 },
    ];
    assert!(!is_sorted(&list));
    let sorted = sort_instances(list);
    assert!(is_sorted(&sorted));
    assert_eq!(
        sorted,
        vec![
            Instance { key: 0, splat: 3 },
            Instance { key: 1, splat: 1 },
            Instance { key: 1, splat: 4 },
            Instance { key: 5, splat: 0 },
            Instance { key: 5, splat: 2 },
            Instance { key: 5, splat: 5 },
        ]
    );
    assert_eq!(sort_instances(Vec::new()), Vec::new());
}

#[test]
fn is_sorted_accepts_equal_neighbours() {
    assert!(is_sorted(&Vec::new()));
    assert!(is_sorted(&vec![Instance { key: 3, splat: 0 }]));
    assert!(is_sorted(&vec![Instance { key: 3, splat: 0 }, Instance { key: 3, splat: 1 }]));
    assert!(!is_sorted(&vec![
        Instance { key: 3, splat: 0 },
        Instance { key: 4, splat: 1 },
        Instance { key: 2, splat: 2 }
    ]));
}

#[test]
fn ranges_are_exact() {
    let c = PipelineConfig::configure(32, 8, 8, 100, 64).unwrap();
    let list = vec![
        Instance { key: pack_key(1, 5), splat: 0 },
        Instance { key: pack_key(1, 9), splat: 1 },
        Instance { key: pack_key(3, 1), splat: 2 },
    ];
    let ranges = extract_ranges(&c, &list);
    assert_eq!(
        ranges,
        vec![
            TileRange { start: 0, end: 0 },
            TileRange { start: 0, end: 2 },
            TileRange { start: 0, end: 0 },
            TileRange { start: 2, end: 3 },
        ]
    );
    for (t, r) in ranges.iter().enumerate() {
        for (k, e) in list.iter().enumerate() {
            let inside = (r.start as usize) <= k && k < (r.end as usize);
            assert_eq!(inside, key_tile(e.key) as usize == t);
        }
    }
}

#[test]
fn ranges_skip_tiles_outside_the_grid() {
    let c = PipelineConfig::configure(16, 8, 8, 100, 64).unwrap();
    let list = vec![Instance { key: pack_key(1, 5), splat: 0 }, Instance { key: pack_key(7, 5), splat: 1 }];
    let ranges = extract_ranges(&c, &list);
    assert_eq!(ranges, vec![TileRange { start: 0, end: 0 }, TileRange { start: 0, end: 1 }]);
}

#[test]
fn empty_scene_has_empty_ranges() {
    let c = small(100);
    let frame = build_frame(&c, &Vec::new()).unwrap();
    assert!(frame.instances.is_empty());
    assert_eq!(frame.ranges.len(), 48);
    assert!(frame.ranges.iter().all(|r| r.start == 0 && r.end == 0));
}

#[test]
fn single_splat_in_the_center_tile() {
    let c = small(100);
    let splats = vec![splat_at(&c, 33, 25, 38, 30, 1.0)];
    let frame = build_frame(&c, &splats).unwrap();
    assert_eq!(frame.instances, vec![Instance { key: pack_key(28, depth_key(1.0f32.to_bits())), splat: 0 }]);
    for (t, r) in frame.ranges.iter().enumerate() {
        if t == 28 {
            assert_eq!(*r, TileRange { start: 0, end: 1 });
        } else {
            assert_eq!(r.start, r.end);
        }
    }
}

#[test]
fn nearer_splat_comes_first_whatever_the_input_order() {
    let c = small(100);
    let near = splat_at(&c, 33, 25, 38, 30, 1.0);
    let far = splat_at(&c, 33, 25, 38, 30, 2.5);
    let a = build_frame(&c, &vec![near, far]).unwrap();
    let b = build_frame(&c, &vec![far, near]).unwrap();
    let order_a: Vec<u32> = a.instances.iter().map(|e| e.splat).collect();
    let order_b: Vec<u32> = b.instances.iter().map(|e| e.splat).collect();
    assert_eq!(order_a, vec![0, 1]);
    assert_eq!(order_b, vec![1, 0]);
    let depths_a: Vec<u32> = a.instances.iter().map(|e| key_depth(e.key)).collect();
    let depths_b: Vec<u32> = b.instances.iter().map(|e| key_depth(e.key)).collect();
    assert_eq!(depths_a, depths_b);
    assert_eq!(a.ranges, b.ranges);
    assert_eq!(a.ranges[28], TileRange { start: 0, end: 2 });
}

#[test]
fn frame_lists_each_splat_in_each_of_its_tiles() {
    let c = small(100);
    let splats = vec![
        splat_at(&c, 0, 0, 20, 10, 3.0),
        splat_at(&c, 10, 5, 12, 6, 1.0),
        splat_at(&c, -50, -50, -1, -1, 0.5),
        splat_at(&c, 60, 40, 100, 100, 2.0),
    ];
    let frame = build_frame(&c, &splats).unwrap();
    assert!(is_sorted(&frame.instances));
    assert_eq!(frame.instances.len(), 6 + 1 + 0 + 1);
    for (i, s) in splats.iter().enumerate() {
        for ty in 0..c.tiles_y() {
            for tx in 0..c.tiles_x() {
                let held = s.tiles.count > 0
                    && s.tiles.min_tx <= tx
                    && tx <= s.tiles.max_tx
                    && s.tiles.min_ty <= ty
                    && ty <= s.tiles.max_ty;
                let r = frame.ranges[c.tile_id(tx, ty) as usize];
                let listed = frame.instances[r.start as usize..r.end as usize]
                    .iter()
                    .filter(|e| e.splat as usize == i)
                    .count();
                assert_eq!(listed, if held { 1 } else { 0 });
            }
        }
    }
    let r = frame.ranges[1];
    let in_tile: Vec<u32> = frame.instances[r.start as usize..r.end as usize].iter().map(|e| e.splat).collect();
    assert_eq!(in_tile, vec![1, 0]);
}

#[test]
fn pixels_map_to_their_tile() {
    let c = small(100);
    assert_eq!(pixel_tile(&c, 0, 0), 0);
    assert_eq!(pixel_tile(&c, 7, 7), 0);
    assert_eq!(pixel_tile(&c, 8, 7), 1);
    assert_eq!(pixel_tile(&c, 7, 8), 8);
    assert_eq!(pixel_tile(&c, 63, 47), 47);
    assert_eq!(pixel_tile(&c, 32, 24), 28);
}

#[test]
fn work_list_of_a_pixel_is_in_depth_order() {
    let c = small(100);
    let splats = vec![
        splat_at(&c, 30, 20, 40, 30, 5.0),
        splat_at(&c, 32, 24, 33, 25, 0.5),
        splat_at(&c, 0, 0, 63, 47, 2.0),
        Splat { tiles: TileBox { min_tx: 0, min_ty: 0, max_tx: 0, max_ty: 0, count: 0 }, depth: 0 },
    ];
    let frame = build_frame(&c, &splats).unwrap();
    assert_eq!(tile_work(&frame, pixel_tile(&c, 32, 24)), vec![1, 2, 0]);
    assert_eq!(tile_work(&frame, pixel_tile(&c, 30, 20)), vec![2, 0]);
    assert_eq!(tile_work(&frame, pixel_tile(&c, 0, 0)), vec![2]);
    assert_eq!(tile_work(&frame, 48), Vec::<u32>::new());
    assert!(frame.instances.iter().all(|e| e.splat != 3));
}

#[test]
fn frame_at_the_capacity_boundary() {
    let splats = vec![
        Splat { tiles: TileBox { min_tx: 0, min_ty: 0, max_tx: 7, max_ty: 5, count: 48 }, depth: 1 },
        Splat { tiles: TileBox { min_tx: 0, min_ty: 0, max_tx: 0, max_ty: 0, count: 1 }, depth: 2 },
    ];
    assert_eq!(build_frame(&small(50), &splats).unwrap().instances.len(), 49);
    assert_eq!(build_frame(&small(49), &splats).unwrap().instances.len(), 49);
    assert!(matches!(
        build_frame(&small(48), &splats),
        Err(MaterializeError::Capacity(CapacityOverflow { splat: 1 }))
    ));
}

#[test]
fn splats_at_the_same_depth_keep_their_order() {
    let c = small(100);
    let first = splat_at(&c, 33, 25, 38, 30, 1.5);
    let second = splat_at(&c, 32, 24, 39, 31, 1.5);
    let frame = build_frame(&c, &vec![first, second, first]).unwrap();
    assert_eq!(tile_work(&frame, 28), vec![0, 1, 2]);
}

#[test]
fn unsorted_lists_get_no_ranges() {
    let c = PipelineConfig::configure(32, 8, 8, 100, 64).unwrap();
    let sorted = vec![Instance { key: pack_key(0, 5), splat: 0 }, Instance { key: pack_key(2, 1), splat: 1 }];
    let unsorted = vec![Instance { key: pack_key(2, 1), splat: 1 }, Instance { key: pack_key(0, 5), splat: 0 }];
    assert_eq!(checked_ranges(&c, &sorted), Some(extract_ranges(&c, &sorted)));
    assert_eq!(checked_ranges(&c, &unsorted), None);
    assert_eq!(checked_ranges(&c, &Vec::new()), Some(vec![TileRange { start: 0, end: 0 }; 4]));
}
