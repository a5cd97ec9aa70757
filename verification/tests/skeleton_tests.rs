use gg_engine::skeleton::{blended_joint_count, fk_parents};

#[test]
fn fk_parents_use_only_earlier_joints() {
    assert_eq!(
        fk_parents(&[-1, 0, 1, 5, 4, 2]),
        vec![None, Some(0), Some(1), None, None, Some(2)]
    );
    assert!(fk_parents(&[]).is_empty());
}

#[test]
fn blend_uses_shorter_pose() {
    assert_eq!(blended_joint_count(3, 5), 3);
    assert_eq!(blended_joint_count(7, 2), 2);
}

#[test]
fn blend_pose_different_lengths() {
    // Poses of three and two joints blend into a pose of two joints.
    assert_eq!(blended_joint_count(3, 2), 2);
}
