use buddhabrot::buddha::{
    channel_for, channel_with_pcts, expected_count, length_bounds, receive_timeout_ms,
    replay_channels, replay_timeout_ms, search_shares, worker_quota, Channel,
};

#[test]
fn low_regime_length_five_is_green() {
    // span 100: red above 10, green above 1, blue up to 1
    assert_eq!(channel_for(5, 0, 100), Channel::Green);
}

#[test]
fn length_at_the_green_threshold_is_blue() {
    assert_eq!(channel_for(1, 0, 100), Channel::Blue);
    assert_eq!(channel_for(300, 200, 1200), Channel::Blue);
}

#[test]
fn low_regime_thresholds() {
    assert_eq!(channel_for(11, 0, 100), Channel::Red);
    assert_eq!(channel_for(10, 0, 100), Channel::Green);
    assert_eq!(channel_for(2, 0, 100), Channel::Green);
    assert_eq!(channel_for(1, 0, 100), Channel::Blue);
    assert_eq!(channel_for(0, 0, 100), Channel::Blue);
}

#[test]
fn high_regime_thresholds() {
    // min 200, max 1200: red above 600, green above 300
    assert_eq!(channel_for(601, 200, 1200), Channel::Red);
    assert_eq!(channel_for(600, 200, 1200), Channel::Green);
    assert_eq!(channel_for(301, 200, 1200), Channel::Green);
    assert_eq!(channel_for(300, 200, 1200), Channel::Blue);
    assert_eq!(channel_for(299, 200, 1200), Channel::Blue);
}

#[test]
fn regime_switches_above_one_hundred() {
    // min 100 stays in the low regime: span 924, red above 192, green above 109
    assert_eq!(channel_for(193, 100, 1024), Channel::Red);
    assert_eq!(channel_for(192, 100, 1024), Channel::Green);
    assert_eq!(channel_for(109, 100, 1024), Channel::Blue);
    // min 101 is high: span 923, red above 470, green above 193
    assert_eq!(channel_for(471, 101, 1024), Channel::Red);
    assert_eq!(channel_for(470, 101, 1024), Channel::Green);
    assert_eq!(channel_for(193, 101, 1024), Channel::Blue);
    assert_eq!(channel_for(192, 101, 1024), Channel::Blue);
}

#[test]
fn thresholds_round_toward_zero() {
    // span 1023 at 10%: 102.3 -> 102; at 1%: 10.23 -> 10
    assert_eq!(channel_for(103, 0, 1023), Channel::Red);
    assert_eq!(channel_for(102, 0, 1023), Channel::Green);
    assert_eq!(channel_for(10, 0, 1023), Channel::Blue);
    // negative spans: min 0, max -50 gives -5 at 10% and -0.5 -> 0 at 1%
    assert_eq!(channel_with_pcts(-4, 0, -50, 10, 1), Channel::Red);
    assert_eq!(channel_with_pcts(-5, 0, -50, 10, 1), Channel::Blue);
    assert_eq!(channel_with_pcts(0, 0, -50, 10, 1), Channel::Red);
}

#[test]
fn replay_channels_cover_equal_lengths_and_regimes() {
    assert_eq!(replay_channels(7, 7, 7), (true, true, true));
    // min 200, max 1200: red above 900, green above 400
    assert_eq!(replay_channels(901, 200, 1200), (true, false, false));
    assert_eq!(replay_channels(900, 200, 1200), (false, true, false));
    assert_eq!(replay_channels(400, 200, 1200), (false, false, true));
    assert_eq!(replay_channels(399, 200, 1200), (false, false, true));
}

#[test]
fn length_bounds_of_lengths() {
    assert_eq!(length_bounds(&vec![]), (0, i64::MAX));
    assert_eq!(length_bounds(&vec![5, 90, 12]), (90, 5));
}

#[test]
fn work_is_shared_evenly() {
    assert_eq!(worker_quota(1000, 3), 333);
    assert_eq!(expected_count(1000, 3), 999);
    assert_eq!(worker_quota(2, 3), 1);
    assert_eq!(expected_count(2, 3), 2);
    assert_eq!(worker_quota(0, 4), 1);
    assert_eq!(expected_count(0, 4), 0);
    assert_eq!(search_shares(1000, 3), (333, 999));
    assert_eq!(search_shares(2, 3), (0, 0));
}

#[test]
fn timeouts_grow_with_iterations() {
    assert_eq!(receive_timeout_ms(0), 250);
    assert_eq!(receive_timeout_ms(64), 6650);
    assert_eq!(replay_timeout_ms(10), 1950);
}
