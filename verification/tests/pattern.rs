use pulse_decode::pattern::PeriodPattern;

#[test]
fn new_derives_size_from_first_zero() {
    let p = PeriodPattern::new([360, 1080, 360, 1080, 0, 0, 0, 0], 150);
    assert_eq!(p.size(), 4);
    assert_eq!(p.tolerance_milli(), 150);
    assert_eq!(p.periods(), [360, 1080, 360, 1080, 0, 0, 0, 0]);
    assert_eq!(p.live_periods(), vec![360, 1080, 360, 1080]);
}

#[test]
fn leading_zero_makes_an_empty_template() {
    let p = PeriodPattern::new([0, 360, 1080, 0, 0, 0, 0, 0], 150);
    assert_eq!(p.size(), 0);
    assert!(!p.match_window(&[360, 1080, 360, 1080, 0, 0, 0, 0]));
}

#[test]
fn new_const_is_empty_slot() {
    let p = PeriodPattern::new_const();
    assert_eq!(p.size(), 0);
    assert_eq!(p.live_periods(), Vec::<u16>::new());
}

#[test]
fn default_is_empty_slot() {
    let p: PeriodPattern = Default::default();
    assert_eq!(p.size(), 0);
}

#[test]
fn empty_template_matches_nothing() {
    let p = PeriodPattern::new_const();
    assert!(!p.match_window(&[360, 1080, 360, 1080, 0, 0, 0, 0]));
    assert!(!p.match_window(&[0; 8]));
}

#[test]
fn exact_window_matches() {
    let p = PeriodPattern::new([360, 1080, 360, 1080, 0, 0, 0, 0], 150);
    assert!(p.match_window(&[360, 1080, 360, 1080, 0, 0, 0, 0]));
}

#[test]
fn window_entries_past_template_end_are_dont_care() {
    let p = PeriodPattern::new([360, 1080, 0, 0, 0, 0, 0, 0], 150);
    assert!(p.match_window(&[360, 1080, 999999, 3, 7, 0, 12, 0]));
}

#[test]
fn unwritten_window_slot_within_template_is_a_miss() {
    let p = PeriodPattern::new([360, 1080, 360, 1080, 0, 0, 0, 0], 150);
    assert!(!p.match_window(&[360, 1080, 0, 1080, 0, 0, 0, 0]));
}

#[test]
fn fail_fast_on_first_element() {
    // The first sample is far out of tolerance; the trailing samples are
    // deliberately chosen so they would match, and must not be consulted.
    let p = PeriodPattern::new([360, 1080, 360, 1080, 0, 0, 0, 0], 150);
    assert!(!p.match_window(&[5000, 1080, 360, 1080, 0, 0, 0, 0]));
    // Garbage in the trailing don't-care region changes nothing either.
    assert!(!p.match_window(&[5000, 1080, 360, 1080, 123, 456, 789, 1]));
}

#[test]
fn tolerance_boundary_is_open() {
    // target 1000, tolerance 0.15: the interval is (850, 1150) exclusive.
    let p = PeriodPattern::new([1000, 0, 0, 0, 0, 0, 0, 0], 150);
    assert!(!p.match_window(&[850, 0, 0, 0, 0, 0, 0, 0]));
    assert!(p.match_window(&[851, 0, 0, 0, 0, 0, 0, 0]));
    assert!(p.match_window(&[1149, 0, 0, 0, 0, 0, 0, 0]));
    assert!(!p.match_window(&[1150, 0, 0, 0, 0, 0, 0, 0]));
}

#[test]
fn zero_tolerance_accepts_nothing() {
    // With a zero-width tolerance the open interval is empty: even the
    // exact target is rejected.
    let p = PeriodPattern::new([1000, 0, 0, 0, 0, 0, 0, 0], 0);
    assert!(!p.match_window(&[1000, 0, 0, 0, 0, 0, 0, 0]));
}

#[test]
fn all_zero_window_matches_no_template() {
    // Cold start: even a template with a very wide tolerance must not
    // fire on an all-zero window.
    let wide = PeriodPattern::new([360, 0, 0, 0, 0, 0, 0, 0], 900);
    assert!(!wide.match_window(&[0; 8]));
    let narrow = PeriodPattern::new([360, 1080, 0, 0, 0, 0, 0, 0], 150);
    assert!(!narrow.match_window(&[0; 8]));
}

#[test]
fn full_tolerance_is_still_bounded() {
    // tolerance 1.0: the interval is (0, 2 * target) exclusive.
    let p = PeriodPattern::new([1000, 0, 0, 0, 0, 0, 0, 0], 1000);
    assert!(p.match_window(&[1, 0, 0, 0, 0, 0, 0, 0]));
    assert!(p.match_window(&[1999, 0, 0, 0, 0, 0, 0, 0]));
    assert!(!p.match_window(&[2000, 0, 0, 0, 0, 0, 0, 0]));
}
