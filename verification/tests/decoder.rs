use pulse_decode::decoder::process;
use pulse_decode::pattern::PeriodPattern;
use pulse_decode::settings::Settings;
use pulse_decode::window::SignalWindow;
use pulse_decode::window::WINDOW_SIZE;

fn three_pattern_settings() -> Settings {
    // Slot 0 is the synchronization pattern by convention.
    let sync_bit = PeriodPattern::new([360, 11160, 0, 0, 0, 0, 0, 0], 150);
    let high_bit = PeriodPattern::new([360, 1080, 360, 1080, 0, 0, 0, 0], 150);
    let low_bit = PeriodPattern::new([360, 1080, 1080, 360, 0, 0, 0, 0], 150);
    let mut settings = Settings::default();
    assert!(settings.has_free_slot());
    settings.add_pattern(sync_bit);
    assert!(settings.has_free_slot());
    settings.add_pattern(high_bit);
    settings.add_pattern(low_bit);
    settings
}

#[test]
fn add_pattern_takes_first_free_slot() {
    let settings = three_pattern_settings();
    assert_eq!(settings.pattern_at(0).periods()[1], 11160);
    assert_eq!(settings.pattern_at(1).periods()[1], 1080);
    assert_eq!(settings.pattern_at(2).periods()[2], 1080);
    assert_eq!(settings.pattern_at(3).size(), 0);
}

#[test]
fn clean_window_polls_to_nothing() {
    let settings = three_pattern_settings();
    let mut w = SignalWindow::new_const();
    let matched = process(&settings, &mut w);
    assert!(matched.is_empty());
}

#[test]
fn end_to_end_high_bit() {
    // Push the high-bit pulse sequence (four real values padded with
    // zeros), poll once, and see exactly one match at the template index
    // that carries this pattern.
    let settings = three_pattern_settings();
    let mut w = SignalWindow::new_const();
    for v in [360u32, 1080, 360, 1080, 0, 0, 0, 0] {
        w.push(v);
    }
    let (snapshot, window_start) = w.get_window();
    assert_eq!(snapshot, [360, 1080, 360, 1080, 0, 0, 0, 0]);
    assert_eq!(window_start, 0);

    let matched = process(&settings, &mut w);
    assert_eq!(matched, vec![1]);

    // The matched region was cleared: clearing it again from the
    // reported start changes nothing, and the four slots that held the
    // pattern read zero on a fresh snapshot.
    w.clear_region(window_start, 4);
    let (after, _) = w.get_window();
    assert_eq!(after, [0u32; WINDOW_SIZE]);
    assert!(!w.is_dirty());
}

#[test]
fn matched_region_cannot_trigger_twice() {
    let settings = three_pattern_settings();
    let mut w = SignalWindow::new_const();
    for v in [360u32, 1080, 360, 1080, 0, 0, 0, 0] {
        w.push(v);
    }
    assert_eq!(process(&settings, &mut w), vec![1]);
    // Nothing new was pushed: the next poll reports nothing.
    assert!(process(&settings, &mut w).is_empty());
    // Even pushed anew, the cleared samples are gone: four zero pushes
    // mark the window dirty without restoring the pattern.
    for _ in 0..4 {
        w.push(0);
    }
    assert!(process(&settings, &mut w).is_empty());
}

#[test]
fn sync_pattern_reports_index_zero() {
    let settings = three_pattern_settings();
    let mut w = SignalWindow::new_const();
    for v in [360u32, 11160, 0, 0, 0, 0, 0, 0] {
        w.push(v);
    }
    let matched = process(&settings, &mut w);
    assert_eq!(matched, vec![0]);
}

#[test]
fn overlapping_templates_all_match_one_snapshot() {
    // Two templates that agree on the same leading samples: both are
    // evaluated against the same snapshot, so both fire in one poll even
    // though the first match already cleared the region.
    let a = PeriodPattern::new([500, 700, 0, 0, 0, 0, 0, 0], 150);
    let b = PeriodPattern::new([500, 700, 900, 0, 0, 0, 0, 0], 150);
    let mut settings = Settings::default();
    settings.add_pattern(a);
    settings.add_pattern(b);
    let mut w = SignalWindow::new_const();
    for v in [500u32, 700, 900, 0, 0, 0, 0, 0] {
        w.push(v);
    }
    let matched = process(&settings, &mut w);
    assert_eq!(matched, vec![0, 1]);
    let (after, _) = w.get_window();
    assert_eq!(after, [0u32; WINDOW_SIZE]);
}

#[test]
fn out_of_tolerance_window_polls_to_nothing() {
    let settings = three_pattern_settings();
    let mut w = SignalWindow::new_const();
    for v in [360u32, 2000, 360, 1080, 0, 0, 0, 0] {
        w.push(v);
    }
    let matched = process(&settings, &mut w);
    assert!(matched.is_empty());
    // The window was left untouched apart from the dirty flag.
    let (win, _) = w.get_window();
    assert_eq!(win, [360, 2000, 360, 1080, 0, 0, 0, 0]);
}
