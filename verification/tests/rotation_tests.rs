use stream_entropy::rotation::RotationState;

#[test]
fn repeated_samples_rotate_to_next_source() {
    let mut st = RotationState::new();
    for _ in 0..5 {
        st.record_sample(42);
    }
    // Five identical samples seen: the sixth fetch must move to entry 1.
    assert_eq!(st.select_source(3), 1);
}

#[test]
fn repeated_samples_wrap_on_single_source() {
    let mut st = RotationState::new();
    for _ in 0..5 {
        st.record_sample(7);
    }
    // 1 mod 1 == 0: with one source the rotation comes back to it.
    assert_eq!(st.select_source(1), 0);
}

#[test]
fn distinct_samples_keep_the_index() {
    let mut st = RotationState::new();
    for v in [1u32, 2, 3, 4, 5] {
        st.record_sample(v);
    }
    assert_eq!(st.select_source(3), 0);
    assert_eq!(st.select_source(3), 0);
}

#[test]
fn short_window_never_rotates() {
    let mut st = RotationState::new();
    for _ in 0..4 {
        st.record_sample(9);
    }
    // Only four samples seen: no degeneracy verdict yet.
    assert_eq!(st.select_source(2), 0);
}

#[test]
fn rotation_walks_the_whole_catalog() {
    let mut st = RotationState::new();
    for _ in 0..5 {
        st.record_sample(3);
    }
    // The stale window keeps rotating until fresh samples displace it.
    assert_eq!(st.select_source(3), 1);
    assert_eq!(st.select_source(3), 2);
    assert_eq!(st.select_source(3), 0);
}

#[test]
fn ring_keeps_the_last_five_samples() {
    let mut st = RotationState::new();
    for v in [1u32, 2, 3, 4, 5, 6, 7] {
        st.record_sample(v);
    }
    assert_eq!(st.values, vec![3u32, 4, 5, 6, 7]);
}

#[test]
fn index_out_of_range_wraps_to_start() {
    let mut st = RotationState::new();
    st.source_index = 5;
    assert_eq!(st.select_source(3), 0);
}
