use desktop_dye::config::{
    describe_issue, invalid_config_report, ColorFormat, ColorSelectionMode, ConfigIssue, DesktopDyeConfig,
    DominantColorAlgorithm, OptionalDesktopDyeConfig,
};

fn complete() -> OptionalDesktopDyeConfig {
    OptionalDesktopDyeConfig {
        screen_id: Some(2),
        ha_endpoint: Some(String::from("http://homeassistant.local:8123")),
        ha_token: Some(String::from("abc")),
        ha_target_entity_id: Some(String::from("input_text.colors")),
        sample_size: Some(5),
        algorithm: Some(DominantColorAlgorithm::Pigmnts),
        capture_interval: Some(1_500_000),
        mode: Some(ColorSelectionMode::HueShift),
        hue_shift: Some(30_000_000),
        color_format: Some(ColorFormat::Hsb),
        brightness_factor: Some(800_000),
    }
}

fn minimal() -> OptionalDesktopDyeConfig {
    OptionalDesktopDyeConfig {
        screen_id: None,
        ha_endpoint: Some(String::from("https://ha.example:443")),
        ha_token: Some(String::from("abc")),
        ha_target_entity_id: Some(String::from("light.desk")),
        sample_size: None,
        algorithm: None,
        capture_interval: None,
        mode: None,
        hue_shift: None,
        color_format: None,
        brightness_factor: None,
    }
}

fn issues_of_endpoint(endpoint: &str) -> Vec<ConfigIssue> {
    let mut settings = minimal();
    settings.ha_endpoint = Some(String::from(endpoint));
    DesktopDyeConfig::find_issues(&settings)
}

#[test]
fn complete_settings_have_no_issue() {
    assert_eq!(DesktopDyeConfig::find_issues(&complete()), Vec::new());
    assert_eq!(DesktopDyeConfig::find_issues(&minimal()), Vec::new());
}

#[test]
fn missing_settings_are_reported_in_order() {
    let mut settings = minimal();
    settings.ha_endpoint = None;
    settings.ha_token = None;
    settings.ha_target_entity_id = None;
    assert_eq!(
        DesktopDyeConfig::find_issues(&settings),
        vec![
            ConfigIssue::MissingEndpoint,
            ConfigIssue::MissingToken,
            ConfigIssue::MissingTargetEntity
        ]
    );
}

#[test]
fn endpoint_needs_a_scheme() {
    assert_eq!(issues_of_endpoint("ftp://host:21"), vec![ConfigIssue::EndpointScheme]);
    assert_eq!(issues_of_endpoint("http:/host:1"), vec![ConfigIssue::EndpointScheme]);
    assert_eq!(issues_of_endpoint("http://h:1"), Vec::new());
    assert_eq!(issues_of_endpoint("https://h:1"), Vec::new());
    assert_eq!(issues_of_endpoint("HTTP://h:1"), vec![ConfigIssue::EndpointScheme]);
}

#[test]
fn endpoint_must_not_end_with_a_slash() {
    assert_eq!(issues_of_endpoint("http://h:1/"), vec![ConfigIssue::EndpointTrailingSlash]);
    assert_eq!(issues_of_endpoint("http://h:1/api"), Vec::new());
}

#[test]
fn endpoint_needs_two_colons() {
    assert_eq!(issues_of_endpoint("http://host"), vec![ConfigIssue::EndpointColons]);
    assert_eq!(issues_of_endpoint("http://host:1:2"), vec![ConfigIssue::EndpointColons]);
}

#[test]
fn endpoint_with_every_issue() {
    assert_eq!(
        issues_of_endpoint("host/"),
        vec![
            ConfigIssue::EndpointScheme,
            ConfigIssue::EndpointTrailingSlash,
            ConfigIssue::EndpointColons
        ]
    );
    assert_eq!(
        issues_of_endpoint(""),
        vec![ConfigIssue::EndpointScheme, ConfigIssue::EndpointColons]
    );
    assert_eq!(
        issues_of_endpoint("h\u{fc}tte:\u{e9}:/"),
        vec![ConfigIssue::EndpointScheme, ConfigIssue::EndpointTrailingSlash]
    );
}

#[test]
fn sample_size_must_lie_between_one_and_ten() {
    for (size, ok) in [(0u8, false), (1, true), (10, true), (11, false), (255, false)] {
        let mut settings = minimal();
        settings.sample_size = Some(size);
        let issues = DesktopDyeConfig::find_issues(&settings);
        if ok {
            assert_eq!(issues, Vec::new());
        } else {
            assert_eq!(issues, vec![ConfigIssue::SampleSizeOutOfRange]);
        }
    }
}

#[test]
fn capture_interval_must_be_positive() {
    for (interval, ok) in [(0i64, false), (-1, false), (i64::MIN, false), (1, true), (i64::MAX, true)] {
        let mut settings = minimal();
        settings.capture_interval = Some(interval);
        let issues = DesktopDyeConfig::find_issues(&settings);
        if ok {
            assert_eq!(issues, Vec::new());
        } else {
            assert_eq!(issues, vec![ConfigIssue::CaptureIntervalNotPositive]);
        }
    }
}

#[test]
fn hue_shift_must_lie_within_the_limit() {
    let limit: i64 = 1_000_000_000_000_000;
    for (shift, ok) in [(limit, true), (-limit, true), (limit + 1, false), (-limit - 1, false)] {
        let mut settings = minimal();
        settings.hue_shift = Some(shift);
        let issues = DesktopDyeConfig::find_issues(&settings);
        if ok {
            assert_eq!(issues, Vec::new());
        } else {
            assert_eq!(issues, vec![ConfigIssue::HueShiftOutOfRange]);
        }
    }
}

#[test]
fn every_kind_of_issue_at_once() {
    let settings = OptionalDesktopDyeConfig {
        screen_id: None,
        ha_endpoint: Some(String::from("x/")),
        ha_token: None,
        ha_target_entity_id: None,
        sample_size: Some(0),
        algorithm: None,
        capture_interval: Some(0),
        mode: None,
        hue_shift: Some(i64::MAX),
        color_format: None,
        brightness_factor: None,
    };
    assert_eq!(
        DesktopDyeConfig::find_issues(&settings),
        vec![
            ConfigIssue::EndpointScheme,
            ConfigIssue::EndpointTrailingSlash,
            ConfigIssue::EndpointColons,
            ConfigIssue::MissingToken,
            ConfigIssue::MissingTargetEntity,
            ConfigIssue::SampleSizeOutOfRange,
            ConfigIssue::CaptureIntervalNotPositive,
            ConfigIssue::HueShiftOutOfRange
        ]
    );
}

#[test]
fn defaults_fill_what_is_missing() {
    let config = DesktopDyeConfig::from_optional(minimal()).ok().unwrap();
    assert_eq!(config.screen_id, None);
    assert_eq!(config.ha_endpoint, "https://ha.example:443");
    assert_eq!(config.ha_token, "abc");
    assert_eq!(config.ha_target_entity_id, "light.desk");
    assert_eq!(config.sample_size, 3);
    assert_eq!(config.algorithm, DominantColorAlgorithm::ColorThief);
    assert_eq!(config.capture_interval, 3_000_000);
    assert_eq!(config.mode, ColorSelectionMode::Default);
    assert_eq!(config.hue_shift, 45_000_000);
    assert_eq!(config.color_format, ColorFormat::Rgb);
    assert_eq!(config.brightness_factor, 1_000_000);
}

#[test]
fn given_settings_are_kept() {
    let config = DesktopDyeConfig::from_optional(complete()).ok().unwrap();
    assert_eq!(config.screen_id, Some(2));
    assert_eq!(config.ha_endpoint, "http://homeassistant.local:8123");
    assert_eq!(config.sample_size, 5);
    assert_eq!(config.algorithm, DominantColorAlgorithm::Pigmnts);
    assert_eq!(config.capture_interval, 1_500_000);
    assert_eq!(config.mode, ColorSelectionMode::HueShift);
    assert_eq!(config.hue_shift, 30_000_000);
    assert_eq!(config.color_format, ColorFormat::Hsb);
    assert_eq!(config.brightness_factor, 800_000);
}

#[test]
fn settings_with_issues_are_refused() {
    let mut settings = complete();
    settings.ha_token = None;
    settings.sample_size = Some(11);
    let issues = DesktopDyeConfig::from_optional(settings).err().unwrap();
    assert_eq!(issues, vec![ConfigIssue::MissingToken, ConfigIssue::SampleSizeOutOfRange]);
}

#[test]
fn settings_are_checked_for_the_pipeline() {
    let mut config = DesktopDyeConfig::from_optional(minimal()).ok().unwrap();
    assert_eq!(config.check(), true);
    config.sample_size = 0;
    assert_eq!(config.check(), false);
    config.sample_size = 11;
    assert_eq!(config.check(), false);
    config.sample_size = 10;
    assert_eq!(config.check(), true);
    config.hue_shift = 1_000_000_000_000_001;
    assert_eq!(config.check(), false);
    config.hue_shift = -1_000_000_000_000_000;
    assert_eq!(config.check(), true);
}

#[test]
fn every_fault_is_reported_in_its_own_line() {
    let settings = OptionalDesktopDyeConfig {
        screen_id: None,
        ha_endpoint: Some(String::from("localhost:8123/")),
        ha_token: None,
        ha_target_entity_id: None,
        sample_size: Some(11),
        algorithm: None,
        capture_interval: Some(0),
        mode: None,
        hue_shift: None,
        color_format: None,
        brightness_factor: None,
    };
    assert_eq!(
        DesktopDyeConfig::validate_optional_config(&settings),
        vec![
            "Home Assistant endpoint must start with http:// or https://. Found \"localhost:8123/\"",
            "Home Assistant endpoint must not end with /. Found \"localhost:8123/\"",
            "Home Assistant endpoint must contain exactly two ':', before the port. Found \"localhost:8123/\"",
            "Missing Home Assistant token in config file",
            "Missing Home Assistant target entity ID in config file",
            "Sample size must be between 1 and 10. Found 11",
            "Capture interval must be greater than 0. Found 0",
        ]
    );
}

#[test]
fn sample_size_out_of_range_is_reported_with_the_size_found() {
    for k in 0..=255u8 {
        let mut settings = minimal();
        settings.sample_size = Some(k);
        let lines = DesktopDyeConfig::validate_optional_config(&settings);
        if k == 0 || k >= 11 {
            assert_eq!(lines, vec![format!("Sample size must be between 1 and 10. Found {}", k)]);
        } else {
            assert!(lines.is_empty());
        }
        assert_eq!(settings.sample_size, Some(k));
    }
}

#[test]
fn missing_endpoint_is_reported() {
    let mut settings = minimal();
    settings.ha_endpoint = None;
    assert_eq!(
        DesktopDyeConfig::validate_optional_config(&settings),
        vec!["Missing Home Assistant endpoint in config file"]
    );
}

#[test]
fn capture_interval_is_reported_as_short_as_it_can_be() {
    for (interval, found) in [
        (0i64, "0"),
        (-1_500_000, "-1.5"),
        (-1, "-0.000001"),
        (-20_000_000, "-20"),
        (-1_050_000, "-1.05"),
        (-123_456_789, "-123.456789"),
        (i64::MIN, "-9223372036854.775808"),
    ] {
        let mut settings = minimal();
        settings.capture_interval = Some(interval);
        assert_eq!(
            DesktopDyeConfig::validate_optional_config(&settings),
            vec![format!("Capture interval must be greater than 0. Found {}", found)]
        );
    }
}

#[test]
fn hue_shift_out_of_range_is_reported() {
    let mut settings = minimal();
    settings.hue_shift = Some(1_000_000_000_500_000);
    assert_eq!(
        DesktopDyeConfig::validate_optional_config(&settings),
        vec!["Hue shift must be between -1000000000 and 1000000000. Found 1000000000.5"]
    );
}

#[test]
fn settings_in_order_give_no_line() {
    assert!(DesktopDyeConfig::validate_optional_config(&minimal()).is_empty());
    assert!(DesktopDyeConfig::validate_optional_config(&complete()).is_empty());
}

#[test]
fn issues_are_described_one_by_one() {
    let settings = complete();
    assert_eq!(
        describe_issue(ConfigIssue::EndpointTrailingSlash, &settings),
        "Home Assistant endpoint must not end with /. Found \"http://homeassistant.local:8123\""
    );
    assert_eq!(
        describe_issue(ConfigIssue::SampleSizeOutOfRange, &settings),
        "Sample size must be between 1 and 10. Found 5"
    );
    assert_eq!(
        describe_issue(ConfigIssue::CaptureIntervalNotPositive, &settings),
        "Capture interval must be greater than 0. Found 1.5"
    );
}

#[test]
fn report_lists_the_lines() {
    let lines = vec![String::from("first"), String::from("second"), String::new()];
    assert_eq!(
        invalid_config_report(&lines),
        "Config file is invalid. Please fix the following errors:\n  - first\n  - second\n  - "
    );
    assert_eq!(
        invalid_config_report(&vec![String::from("only")]),
        "Config file is invalid. Please fix the following errors:\n  - only"
    );
    assert_eq!(
        invalid_config_report(&Vec::new()),
        "Config file is invalid. Please fix the following errors:\n"
    );
}
