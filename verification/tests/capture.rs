use pulse_decode::capture::InputCapture;
use pulse_decode::capture::corrected_period;
use pulse_decode::window::WINDOW_SIZE;

const MIN_TICKS: u32 = 21;
const MAX_TICKS: u32 = 20000;

#[test]
fn corrected_period_adds_full_wraps() {
    assert_eq!(corrected_period(500, 0), 500);
    assert_eq!(corrected_period(500, 1), 66036);
    assert_eq!(corrected_period(0, 2), 131072);
    // The extreme case lands exactly on the top of the range.
    assert_eq!(corrected_period(u16::MAX, u16::MAX), u32::MAX);
}

#[test]
fn capture_pushes_plausible_period() {
    let mut c = InputCapture::new();
    let r = c.handle_interrupt(false, Some(360), MIN_TICKS, MAX_TICKS);
    assert_eq!(r, Some(360));
    let (win, start) = c.signal_window.get_window();
    assert_eq!(start, 1);
    // One push of 360 at slot 0: the snapshot starts at the unwritten
    // slot 1 and so reads all zero until the ring wraps.
    assert_eq!(win, [0u32; WINDOW_SIZE]);
    assert!(c.signal_window.is_dirty());
}

#[test]
fn capture_filters_noise_and_gaps() {
    let mut c = InputCapture::new();
    // Too short: noise. Reported, not pushed.
    assert_eq!(c.handle_interrupt(false, Some(20), MIN_TICKS, MAX_TICKS), Some(20));
    assert!(!c.signal_window.is_dirty());
    // Too long: a gap. Reported, not pushed.
    let r = c.handle_interrupt(true, Some(0), MIN_TICKS, MAX_TICKS);
    assert_eq!(r, Some(65536));
    assert!(!c.signal_window.is_dirty());
    // Boundary values are inside the plausible range.
    assert_eq!(c.handle_interrupt(false, Some(21), MIN_TICKS, MAX_TICKS), Some(21));
    assert!(c.signal_window.is_dirty());
}

#[test]
fn overflows_accumulate_until_capture() {
    let mut c = InputCapture::new();
    assert_eq!(c.handle_interrupt(true, None, MIN_TICKS, MAX_TICKS), None);
    assert_eq!(c.handle_interrupt(true, None, MIN_TICKS, MAX_TICKS), None);
    // The capture folds both missed wraps into the corrected period and
    // resets the accounting.
    assert_eq!(c.handle_interrupt(false, Some(100), MIN_TICKS, MAX_TICKS), Some(131172));
    assert_eq!(c.handle_interrupt(false, Some(100), MIN_TICKS, MAX_TICKS), Some(100));
}

#[test]
fn overflow_and_capture_in_one_interrupt() {
    let mut c = InputCapture::new();
    // The pending overflow is accounted before the capture is read.
    assert_eq!(c.handle_interrupt(true, Some(40), MIN_TICKS, MAX_TICKS), Some(65576));
}

#[test]
fn saturated_overflow_counter_corrupts_the_cycle() {
    let mut c = InputCapture::new();
    for _ in 0..u16::MAX as u32 {
        assert_eq!(c.handle_interrupt(true, None, MIN_TICKS, MAX_TICKS), None);
    }
    // One overflow beyond the representable count: the cycle is
    // corrupted, its capture is dropped, and the state recovers.
    assert_eq!(c.handle_interrupt(true, None, MIN_TICKS, MAX_TICKS), None);
    assert_eq!(c.handle_interrupt(false, Some(360), MIN_TICKS, MAX_TICKS), None);
    assert!(!c.signal_window.is_dirty());
    assert_eq!(c.handle_interrupt(false, Some(360), MIN_TICKS, MAX_TICKS), Some(360));
}
