use perf_grouping::bench::BenchState;
use perf_grouping::bench::FrameInput;
use perf_grouping::bench::BENCH_POINT_COUNT;
use perf_grouping::bench::FRAME_WINDOW;

fn frame(micros: u64) -> FrameInput {
    FrameInput { reset_clicked: false, toggle_pressed: false, alt_held: false, frame_micros: micros }
}

#[test]
fn dataset_is_built_once_at_construction() {
    let st = BenchState::new(BENCH_POINT_COUNT, FRAME_WINDOW);
    assert_eq!(st.points().len(), BENCH_POINT_COUNT);
    assert!(!st.is_grouped());
    assert_eq!(st.current_mean(), 0);
}

#[test]
fn report_carries_the_measured_mode_and_mean() {
    let mut st = BenchState::new(10, FRAME_WINDOW);
    let r1 = st.frame_update(frame(10_000));
    assert!(!r1.grouped);
    assert!(!r1.continuous_repaint);
    assert_eq!(r1.mean_micros, 10_000);
    let r2 = st.frame_update(frame(20_000));
    assert_eq!(r2.mean_micros, 15_000);
}

#[test]
fn alt_forces_continuous_repaint() {
    let mut st = BenchState::new(10, FRAME_WINDOW);
    let mut input = frame(1000);
    input.alt_held = true;
    let r = st.frame_update(input);
    assert!(r.continuous_repaint);
    let r = st.frame_update(frame(1000));
    assert!(!r.continuous_repaint);
}

#[test]
fn toggle_flips_mode_and_resets_average() {
    let mut st = BenchState::new(10, FRAME_WINDOW);
    st.frame_update(frame(5_000));
    st.frame_update(frame(9_000));
    assert_eq!(st.current_mean(), 7_000);
    let mut input = frame(11_000);
    input.toggle_pressed = true;
    let r = st.frame_update(input);
    // The report still describes the mode that was measured, and its mean
    // includes this frame's sample; the state afterwards is the other mode
    // with an empty average, exactly the fresh-state mean.
    assert!(!r.grouped);
    assert_eq!(r.mean_micros, (5_000 + 9_000 + 11_000) / 3);
    assert!(st.is_grouped());
    assert_eq!(st.current_mean(), 0);
    let fresh = BenchState::new(10, FRAME_WINDOW);
    assert_eq!(st.current_mean(), fresh.current_mean());
}

#[test]
fn reset_click_clears_before_the_sample_lands() {
    let mut st = BenchState::new(10, FRAME_WINDOW);
    st.frame_update(frame(100_000));
    st.frame_update(frame(200_000));
    let mut input = frame(4_000);
    input.reset_clicked = true;
    let r = st.frame_update(input);
    assert_eq!(r.mean_micros, 4_000);
    assert_eq!(st.current_mean(), 4_000);
}

#[test]
fn driver_window_matches_the_accumulator() {
    let mut st = BenchState::new(10, 120);
    for v in 1..=200u64 {
        st.frame_update(frame(v * 1000));
    }
    assert_eq!(st.current_mean(), 140_500);
}
