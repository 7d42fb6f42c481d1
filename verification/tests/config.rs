use fastlane::config::{
    all_frame_sizes, default_frame_size, default_line_rate, default_max_iterations,
    default_trial_duration, validate_settings, BackToBackConfig, ConfigError, OutputFormat,
    PortMode, TestType, TsnConfig, Y1731Config, JUMBO_FRAME_SIZE,
};
use fastlane::pacing::{batch_interval_ns, RateType};
use std::time::Duration;

#[test]
fn test_rate_type_display() {
    assert_eq!(RateType::Cbr.to_string(), "cbr");
    assert_eq!(RateType::Poison.to_string(), "poison");
    assert_eq!(RateType::Hw.to_string(), "hw");
}

#[test]
fn test_test_type_display() {
    assert_eq!(TestType::Throughput.to_string(), "throughput");
    assert_eq!(TestType::Latency.to_string(), "latency");
    assert_eq!(TestType::FrameLoss.to_string(), "frame_loss");
    assert_eq!(TestType::BackToBack.to_string(), "back_to_back");
}

#[test]
fn test_all_frame_sizes() {
    let sizes = all_frame_sizes(&default_frame_size(), false);
    assert!(sizes.contains(&64));
    assert!(sizes.contains(&1518));
}

#[test]
fn test_config_jumbo_inclusion() {
    let sizes = all_frame_sizes(&vec![64, 128], true);
    assert!(sizes.contains(&9000));
}

#[test]
fn frame_sizes_sorted_and_jumbo_once() {
    assert_eq!(all_frame_sizes(&vec![1518, 64, 9000, 128], true), vec![64, 128, 1518, 9000]);
    assert_eq!(all_frame_sizes(&vec![512, 64], false), vec![64, 512]);
    assert_eq!(all_frame_sizes(&vec![], true), vec![JUMBO_FRAME_SIZE]);
    assert_eq!(all_frame_sizes(&vec![128, 128, 64], false), vec![64, 128, 128]);
}

#[test]
fn default_frame_sizes_are_standard() {
    assert_eq!(default_frame_size(), vec![64, 128, 256, 512, 1024, 1280, 1518]);
}

#[test]
fn defaults() {
    assert_eq!(default_line_rate(), 10000);
    assert_eq!(default_max_iterations(), 25);
    assert_eq!(default_trial_duration(), Duration::from_secs(60));
    assert_eq!(TestType::default(), TestType::Throughput);
    assert_eq!(fastlane::config::RateType::default(), fastlane::config::RateType::Cbr);
    assert_eq!(fastlane::config::RateType::Poison.to_string(), "poison");
    assert_eq!(OutputFormat::default(), OutputFormat::Text);
    assert_eq!(PortMode::default(), PortMode::Port);
    let b2b = BackToBackConfig::default();
    assert_eq!((b2b.initial_burst, b2b.trials), (1000, 50));
    let y = Y1731Config::default();
    assert_eq!(y.meg_id, "DEFAULT-MEG");
    assert_eq!(y.meg_level, 4);
    assert_eq!(y.probe_interval, Duration::from_secs(1));
    let t = TsnConfig::default();
    assert_eq!(t.num_classes, 8);
    assert_eq!(t.cycle_time_ns, 1_000_000);
    assert_eq!(t.test_duration, Duration::from_secs(60));
}

#[test]
fn extended_test_type_names() {
    assert_eq!(TestType::Y1731SLM.to_string(), "y1731_slm");
    assert_eq!(TestType::Rfc2889Congestion.to_string(), "rfc2889_congestion");
    assert_eq!(TestType::Tsn.to_string(), "tsn");
}

#[test]
fn validate_settings_errors() {
    let one = Duration::from_secs(1);
    let zero = Duration::from_secs(0);
    assert_eq!(validate_settings(&String::new(), &one), Err(ConfigError::InterfaceRequired));
    assert_eq!(validate_settings(&String::new(), &zero), Err(ConfigError::InterfaceRequired));
    assert_eq!(validate_settings(&"eth0".to_string(), &zero), Err(ConfigError::ZeroTrialDuration));
    assert_eq!(validate_settings(&"eth0".to_string(), &one), Ok(()));
    assert_eq!(
        validate_settings(&"eth0".to_string(), &Duration::from_millis(500)),
        Err(ConfigError::ZeroTrialDuration)
    );
    assert_eq!(ConfigError::InterfaceRequired.to_string(), "interface is required");
}

use fastlane::config::primary_frame_size;

#[test]
fn primary_frame_size_choice() {
    assert_eq!(primary_frame_size(true, &vec![128]), 9000);
    assert_eq!(primary_frame_size(false, &vec![128, 64]), 128);
    assert_eq!(primary_frame_size(false, &vec![]), 64);
}

#[test]
fn frame_size_zero_means_all_standard_sizes_plus_jumbo() {
    let all = vec![64, 128, 256, 512, 1024, 1280, 1518, 9000];
    assert_eq!(all_frame_sizes(&vec![0], true), all);
    assert_eq!(all_frame_sizes(&vec![0], false), all);
    assert_eq!(
        all_frame_sizes(&vec![100, 0], false),
        vec![64, 100, 128, 256, 512, 1024, 1280, 1518, 9000]
    );
}

#[test]
fn batch_interval_splits_pacing_interval() {
    assert_eq!(batch_interval_ns(1000, 64), 15);
    assert_eq!(batch_interval_ns(6400, 64), 100);
    assert_eq!(batch_interval_ns(7, 1), 7);
}
