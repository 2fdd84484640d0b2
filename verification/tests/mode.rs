use cosmic_files::mode::{mode_name_key, get_mode_part, set_mode_part, MODE_SHIFT_GROUP, MODE_SHIFT_OTHER, MODE_SHIFT_USER};

#[test]
fn mode_calculations() {
    for user in 0..=7u32 {
        for group in 0..=7u32 {
            for other in 0..=7u32 {
                let mode = (user << MODE_SHIFT_USER) | (group << MODE_SHIFT_GROUP) | (other << MODE_SHIFT_OTHER);
                assert_eq!(format!("{:03o}", mode), format!("{:o}{:o}{:o}", user, group, other),);
                assert_eq!(get_mode_part(mode, MODE_SHIFT_USER), user);
                assert_eq!(get_mode_part(mode, MODE_SHIFT_GROUP), group);
                assert_eq!(get_mode_part(mode, MODE_SHIFT_OTHER), other);

                let mode_no_user = (group << MODE_SHIFT_GROUP) | (other << MODE_SHIFT_OTHER);
                assert_eq!(format!("{:03o}", mode_no_user), format!("0{:o}{:o}", group, other));
                assert_eq!(set_mode_part(mode_no_user, MODE_SHIFT_USER, user), mode);

                let mode_no_group = (user << MODE_SHIFT_USER) | (other << MODE_SHIFT_OTHER);
                assert_eq!(format!("{:03o}", mode_no_group), format!("{:o}0{:o}", user, other));
                assert_eq!(set_mode_part(mode_no_group, MODE_SHIFT_GROUP, group), mode);

                let mode_no_other = (user << MODE_SHIFT_USER) | (group << MODE_SHIFT_GROUP);
                assert_eq!(format!("{:03o}", mode_no_other), format!("{:o}{:o}0", user, group));
                assert_eq!(set_mode_part(mode_no_other, MODE_SHIFT_OTHER, other), mode);
            }
        }
    }
}

#[test]
fn setting_a_part_keeps_the_other_parts() {
    let mode = 0o754;
    assert_eq!(set_mode_part(mode, MODE_SHIFT_GROUP, 0), 0o704);
    assert_eq!(get_mode_part(set_mode_part(mode, MODE_SHIFT_OTHER, 6), MODE_SHIFT_OTHER), 6);
    assert_eq!(get_mode_part(0o4755, MODE_SHIFT_USER), 7);
}

#[test]
fn permission_parts_are_named() {
    assert_eq!(mode_name_key(0), "none");
    assert_eq!(mode_name_key(5), "read-execute");
    assert_eq!(mode_name_key(7), "read-write-execute");
}
