use fractal_synaesthesia::rendering::fractal_visualiser::{
    boost_quality, improve_quality_plan, initial_render_step, incremental_quality, DynamicQualityManager, MAX_QUALITY,
    MIN_QUALITY,
};
use fractal_synaesthesia::rendering::implementation_map::{
    registered_implementation_map, shared_implementation_map,
};
use fractal_synaesthesia::rendering::layer::{
    layer_step, LayerAlgorithmVariant, LayerError, LayerMappingKind, LayerRange, LayerStep,
};
use fractal_synaesthesia::rendering::layer_manager::{layer_name, layer_names};
use fractal_synaesthesia::rendering::orbit_trap::{OrbitTrapAnalysis, OrbitTrapShape};
use fractal_synaesthesia::rendering::palette::{
    linked_point_order, remove_point, sorted_point_order, unique_point_positions, PaletteMappingType,
};
use fractal_synaesthesia::rendering::reference_orbit::orbit_texture;
use fractal_synaesthesia::rendering::render_task::{
    render_thread_count, render_threads_for_cores, split_rows, thread_region, TaskRegion,
};

#[test]
fn task_region_ends_after_size() {
    let r = TaskRegion::new(10, 5, 2, 7);
    assert_eq!(r.rows(), (10, 15));
    assert_eq!(r.cols(), (2, 9));
}

#[test]
fn thread_regions_chain_over_image() {
    let regions = split_rows(3, 100, 10);
    assert_eq!(regions.len(), 3);
    assert_eq!(regions[0].rows(), (0, 3));
    assert_eq!(regions[1].rows(), (3, 6));
    // the last thread takes the leftover row
    assert_eq!(regions[2].rows(), (6, 10));
    for r in &regions {
        assert_eq!(r.cols(), (0, 100));
    }
    assert_eq!(thread_region(1, 3, 100, 10).rows(), (3, 6));
}

#[test]
fn more_threads_than_rows() {
    let regions = split_rows(4, 1, 2);
    assert_eq!(regions[0].rows(), (0, 0));
    assert_eq!(regions[3].rows(), (0, 2));
}

#[test]
fn render_threads_leave_a_core() {
    assert_eq!(render_threads_for_cores(8), Some(7));
    assert_eq!(render_threads_for_cores(2), Some(1));
    assert_eq!(render_threads_for_cores(1), None);
    assert_eq!(render_threads_for_cores(0), None);
    if let Some(t) = render_thread_count() {
        assert!(t >= 1);
    }
}

#[test]
fn shared_map_reuses_same_kinds() {
    let (reps, map) = shared_implementation_map(&vec![1u64, 2, 1, 3, 2]);
    assert_eq!(reps, vec![0, 1, 3]);
    assert_eq!(map, vec![0, 1, 0, 2, 1]);
}

#[test]
fn shared_map_empty_and_distinct() {
    let (reps, map) = shared_implementation_map::<u8>(&vec![]);
    assert!(reps.is_empty() && map.is_empty());
    let (reps, map) = shared_implementation_map(&vec![5i32, 6, 7]);
    assert_eq!(reps, vec![0, 1, 2]);
    assert_eq!(map, vec![0, 1, 2]);
}

#[test]
fn shared_map_never_reuses_unequal_floats() {
    // NaN is never equal to itself: each NaN layer gets its own implementation
    let (reps, map) = shared_implementation_map(&vec![f64::NAN, f64::NAN, 1.0, 1.0]);
    assert_eq!(reps, vec![0, 1, 2]);
    assert_eq!(map, vec![0, 1, 2, 2]);
}

#[test]
fn registered_map_shares_only_registered_kinds() {
    let (reps, map) = registered_implementation_map(&vec![1u64, 2, 1, 3, 2], &vec![1, 3]);
    assert_eq!(reps, vec![0, 1, 3, 4]);
    assert_eq!(map, vec![0, 1, 0, 2, 3]);
}

#[test]
fn registered_map_with_empty_registry_shares_nothing() {
    let (reps, map) = registered_implementation_map(&vec![4u8, 4, 4], &vec![]);
    assert_eq!(reps, vec![0, 1, 2]);
    assert_eq!(map, vec![0, 1, 2]);
}

#[test]
fn layer_ranges_apply() {
    assert!(LayerRange::InSet.layer_applies(true));
    assert!(!LayerRange::InSet.layer_applies(false));
    assert!(LayerRange::OutSet.layer_applies(false));
    assert!(!LayerRange::OutSet.layer_applies(true));
    assert!(LayerRange::Both.layer_applies(true) && LayerRange::Both.layer_applies(false));
}

#[test]
fn layer_ranges_covered() {
    assert!(LayerRange::Both.layer_covered(true, true));
    assert!(!LayerRange::Both.layer_covered(true, false));
    assert!(LayerRange::InSet.layer_covered(true, false));
    assert!(!LayerRange::OutSet.layer_covered(true, false));
}

#[test]
fn layer_range_labels() {
    assert_eq!(LayerRange::get_variants(), vec![LayerRange::InSet, LayerRange::OutSet, LayerRange::Both]);
    assert_eq!(LayerRange::InSet.get_text(), "In set");
    assert_eq!(LayerRange::OutSet.get_text(), "Out set");
    assert_eq!(LayerRange::Both.get_text(), "Both");
}

#[test]
fn only_shading_3d_shades() {
    for v in LayerAlgorithmVariant::get_variants() {
        let expected = if v == LayerAlgorithmVariant::Shading3D {
            LayerMappingKind::Shade
        } else {
            LayerMappingKind::Blend
        };
        assert_eq!(v.get_mapping_kind(), expected);
    }
    assert_eq!(LayerAlgorithmVariant::TriangleInequality.get_text(), "Triangle Inequality");
    assert_eq!(LayerAlgorithmVariant::OrbitTrap.get_text(), "Orbit Trap");
}

#[test]
fn layer_steps() {
    assert_eq!(layer_step(LayerRange::InSet, LayerMappingKind::Blend, false, true).unwrap(), LayerStep::Keep);
    assert_eq!(layer_step(LayerRange::Both, LayerMappingKind::Blend, false, false).unwrap(), LayerStep::Blend);
    assert_eq!(layer_step(LayerRange::OutSet, LayerMappingKind::Shade, false, true).unwrap(), LayerStep::Shade);
    match layer_step(LayerRange::OutSet, LayerMappingKind::Shade, false, false) {
        Err(LayerError::ShadingError(msg)) => assert_eq!(msg, "No base colour to shade"),
        _ => panic!("shading with no base colour fails"),
    }
    // a layer that does not apply never fails
    assert_eq!(layer_step(LayerRange::InSet, LayerMappingKind::Shade, false, false).unwrap(), LayerStep::Keep);
}

#[test]
fn layer_names_count_from_one() {
    assert_eq!(layer_name(0), "Layer 1");
    assert_eq!(layer_name(9), "Layer 10");
    assert_eq!(layer_names(3), vec!["Layer 1", "Layer 2", "Layer 3"]);
}

#[test]
fn orbit_trap_labels() {
    assert_eq!(
        OrbitTrapAnalysis::get_variants(),
        vec![OrbitTrapAnalysis::Distance, OrbitTrapAnalysis::Real, OrbitTrapAnalysis::Imaginary, OrbitTrapAnalysis::Angle]
    );
    assert_eq!(OrbitTrapAnalysis::Imaginary.get_text(), "Imaginary");
    assert_eq!(OrbitTrapShape::get_variants().len(), 3);
    assert_eq!(OrbitTrapShape::Cross.get_text(), "Cross");
}

#[test]
fn palette_mapping_labels() {
    assert_eq!(PaletteMappingType::get_variants(), vec![PaletteMappingType::Constant, PaletteMappingType::Repeated]);
    assert_eq!(PaletteMappingType::Constant.get_text(), "Percentage");
    assert_eq!(PaletteMappingType::Repeated.get_text(), "Iteration");
}

#[test]
fn unique_positions() {
    assert!(unique_point_positions(&vec![0, 33, 66, 100]));
    assert!(!unique_point_positions(&vec![0, 50, 100, 50]));
    assert!(unique_point_positions(&vec![]));
}

#[test]
fn remove_point_keeps_last_one() {
    let mut points = vec!['a', 'b', 'c'];
    remove_point(&mut points, 1);
    assert_eq!(points, vec!['a', 'c']);
    let mut one = vec!['z'];
    remove_point(&mut one, 5);
    assert_eq!(one, vec!['z']);
}

#[test]
fn orbit_texture_layout() {
    let real = 1.5f64.to_bits();
    let im = (-2.25f64).to_bits();
    let t = orbit_texture(&vec![real, 0], &vec![im, u64::MAX]);
    assert_eq!(t.width, 8);
    assert_eq!(t.bytes.len(), 32);
    assert_eq!(&t.bytes[0..8], &1.5f64.to_le_bytes());
    assert_eq!(&t.bytes[8..16], &(-2.25f64).to_le_bytes());
    assert_eq!(&t.bytes[16..24], &[0u8; 8]);
    assert_eq!(&t.bytes[24..32], &[0xffu8; 8]);
    // reading the bytes back gives the parts back
    let back = f64::from_le_bytes(t.bytes[8..16].try_into().unwrap());
    assert_eq!(back, -2.25);
}

#[test]
fn incremental_quality_steps() {
    // already at the finest quality
    assert_eq!(incremental_quality(1, 0), 1);
    assert_eq!(incremental_quality(0, 0), MIN_QUALITY);
    // very fast: a quarter
    assert_eq!(incremental_quality(64, 10_000_000), 16);
    // fast: a half
    assert_eq!(incremental_quality(64, 60_000_000), 32);
    // slow: one less
    assert_eq!(incremental_quality(64, 200_000_000), 63);
    // never below the finest quality
    assert_eq!(incremental_quality(3, 0), 1);
}

#[test]
fn incremental_quality_reaches_full_quality() {
    for elapsed in [0u128, 60_000_000, 500_000_000] {
        let mut q = 200;
        let mut steps = 0;
        while q > 1 {
            let next = incremental_quality(q, elapsed);
            assert!(next < q);
            q = next;
            steps += 1;
        }
        assert!(steps < 200);
    }
}

#[test]
fn boost_quality_steps() {
    // 0% done: ten steps coarser
    assert_eq!(boost_quality(4, 0), 14);
    // 65% done: four steps coarser (3.5 rounded up)
    assert_eq!(boost_quality(4, 650), 8);
    // capped at the coarsest quality
    assert_eq!(boost_quality(250, 0), MAX_QUALITY);
    assert_eq!(boost_quality(1000, 100), MAX_QUALITY);
}

#[test]
fn quality_plan_without_manager() {
    let mut q = 8;
    assert_eq!(improve_quality_plan(&None, false, 8, &mut q, 100), None);
    assert_eq!(q, 8);
    assert_eq!(improve_quality_plan(&None, true, 8, &mut q, 1000), None);
    assert_eq!(q, 8);
}

#[test]
fn quality_plan_waits_for_other_render() {
    let mut q = 8;
    let manager = Some(DynamicQualityManager::new());
    assert_eq!(improve_quality_plan(&manager, false, 4, &mut q, 0), None);
    assert_eq!(q, 8);
}

#[test]
fn quality_plan_refines_after_finish() {
    let mut q = 8;
    let manager = Some(DynamicQualityManager::new());
    // a render that just started finished very fast: a quarter of 8
    assert_eq!(improve_quality_plan(&manager, true, 8, &mut q, 1000), Some(2));
    assert_eq!(q, 8);
    // at full quality there is nothing to improve
    assert_eq!(improve_quality_plan(&manager, true, 1, &mut q, 1000), None);
}

#[test]
fn quality_plan_initial_render_not_slow_yet() {
    let mut q = 8;
    let manager = Some(DynamicQualityManager::new());
    // just started: not too slow
    assert_eq!(improve_quality_plan(&manager, false, 8, &mut q, 0), None);
    assert_eq!(q, 8);
}

#[test]
fn manager_tracks_incremental_render() {
    let mut m = DynamicQualityManager::new();
    m.start();
    let mut q = 16;
    m.finished_incremental_render(&mut q);
    assert!(q == 4 || q == 8 || q == 15);
    let mut q2 = 16;
    assert!(!m.while_initial_render(700, &mut q2));
    assert_eq!(q2, 16);
}

#[test]
fn colour_points_sort_by_position() {
    assert_eq!(sorted_point_order(&vec![50, 0, 100]), vec![1, 0, 2]);
    assert_eq!(sorted_point_order(&vec![]), Vec::<usize>::new());
    assert_eq!(sorted_point_order(&vec![7]), vec![0]);
    // equal positions keep the order they were listed in
    assert_eq!(sorted_point_order(&vec![30, 10, 30, 10, 20]), vec![1, 3, 4, 0, 2]);
    assert_eq!(sorted_point_order(&vec![5, 4, 3, 2, 1]), vec![4, 3, 2, 1, 0]);
}

#[test]
fn colour_points_link_around() {
    assert_eq!(linked_point_order(&vec![50, 0, 100]), vec![2, 1, 0, 2, 1]);
    assert_eq!(linked_point_order(&vec![40]), vec![0, 0, 0]);
    assert_eq!(linked_point_order(&vec![0, 100]), vec![1, 0, 1, 0]);
}

#[test]
fn slow_initial_render_restarts_coarser() {
    // over 0.3 s with half done: ten steps per remaining whole, rounded up
    assert_eq!(initial_render_step(400_000_000, 500, 4), Some(9));
    assert_eq!(initial_render_step(300_000_001, 0, 1), Some(11));
    // capped at the coarsest quality
    assert_eq!(initial_render_step(400_000_000, 0, 250), Some(MAX_QUALITY));
    // not yet past 1.5 times the target
    assert_eq!(initial_render_step(300_000_000, 500, 4), None);
    assert_eq!(initial_render_step(10_000_000, 0, 4), None);
    // far enough through the render
    assert_eq!(initial_render_step(900_000_000, 700, 4), None);
    assert_eq!(initial_render_step(900_000_000, 699, 4), Some(8));
}

#[test]
fn far_enough_initial_render_is_not_restarted() {
    let manager = Some(DynamicQualityManager::new());
    let mut quality = 4;
    assert_eq!(improve_quality_plan(&manager, false, 4, &mut quality, 700), None);
    assert_eq!(quality, 4);
}
