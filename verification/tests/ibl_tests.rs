use gg_engine::ibl::{
    cubemap_mip_blits, group_count, ibl_dispatch_plan, max_prefilter_mip, prefilter_mip_size, EnvironmentMapState,
    IblSource, IblStage, MipBlit, PREFILTER_SAMPLE_COUNT,
};

#[test]
fn prefilter_mips() {
    assert_eq!(max_prefilter_mip(), 8);
    let sizes: Vec<u32> = (0..9).map(prefilter_mip_size).collect();
    assert_eq!(sizes, vec![1024, 512, 256, 128, 64, 32, 16, 8, 4]);
}

#[test]
fn group_counts_round_up() {
    assert_eq!(group_count(1024, 16), 64);
    assert_eq!(group_count(64, 8), 8);
    assert_eq!(group_count(4, 16), 1);
    assert_eq!(group_count(17, 16), 2);
    assert_eq!(group_count(0, 16), 0);
}

#[test]
fn dispatch_plan_order() {
    let plan = ibl_dispatch_plan();
    assert_eq!(plan.len(), 6 + 6 + 9 * 6);
    assert_eq!(plan[0].stage, IblStage::EquirectToCube);
    assert_eq!((plan[5].face, plan[5].face_size, plan[5].groups), (5, 1024, 64));
    assert_eq!(plan[6].stage, IblStage::Irradiance);
    assert_eq!((plan[11].face, plan[11].face_size, plan[11].groups), (5, 64, 8));
    let last = plan[plan.len() - 1];
    assert_eq!(last.stage, IblStage::Prefilter);
    assert_eq!((last.mip, last.face, last.face_size, last.groups), (8, 5, 4, 1));
    assert_eq!(last.sample_count, PREFILTER_SAMPLE_COUNT);
    let mip3_face2 = plan[12 + 3 * 6 + 2];
    assert_eq!((mip3_face2.mip, mip3_face2.face, mip3_face2.face_size, mip3_face2.groups), (3, 2, 128, 8));
}

#[test]
fn mip_blit_chain() {
    assert!(cubemap_mip_blits(1024, 1).is_empty());
    assert_eq!(
        cubemap_mip_blits(5, 4),
        vec![
            MipBlit { src_mip: 0, dst_mip: 1, src_size: 5, dst_size: 2 },
            MipBlit { src_mip: 1, dst_mip: 2, src_size: 2, dst_size: 1 },
            MipBlit { src_mip: 2, dst_mip: 3, src_size: 1, dst_size: 1 },
        ]
    );
    assert_eq!(cubemap_mip_blits(1024, 11).len(), 10);
}

#[test]
fn environment_source_switches_after_load() {
    let mut env = EnvironmentMapState::new();
    assert!(!env.has_environment());
    assert_eq!(env.active_source(), IblSource::Fallback);
    env.mark_loaded();
    assert!(env.has_environment());
    assert_eq!(env.active_source(), IblSource::Loaded);
}
