use tinyshell::settings::{
    progress_percent,
    cursor_style_key, parse_hour_interval, terminal_display_style_key, title_bar_style_key,
    update_check_mode_key, CursorStyle, DisplayLanguage, MonitoringPosition, ProxyFormValues,
    ProxyKind, TerminalDisplayStyle, TitleBarStyle, UpdateCheckMode, DISPLAY_LANGUAGES,
    MONITORING_POSITIONS,
};

#[test]
fn hour_interval_accepts_supported_range_only() {
    assert_eq!(parse_hour_interval(" 24 "), Some(24));
    assert_eq!(parse_hour_interval("1"), Some(1));
    assert_eq!(parse_hour_interval("8760"), Some(8_760));
    assert_eq!(parse_hour_interval("0"), None);
    assert_eq!(parse_hour_interval("8761"), None);
    assert_eq!(parse_hour_interval("invalid"), None);
}

#[test]
fn hour_interval_reads_numbers_as_str_parse_does() {
    assert_eq!(parse_hour_interval("+12"), Some(12));
    assert_eq!(parse_hour_interval("0012"), Some(12));
    assert_eq!(parse_hour_interval("+"), None);
    assert_eq!(parse_hour_interval("-1"), None);
    assert_eq!(parse_hour_interval(""), None);
    assert_eq!(parse_hour_interval("1 2"), None);
    assert_eq!(parse_hour_interval("4294967296"), None);
    assert_eq!(parse_hour_interval("\t8760\n"), Some(8760));
}

#[test]
fn proxy_form_requires_host_and_valid_port() {
    assert!(ProxyFormValues::parse(ProxyKind::Socks5, "", "1080", "", "").is_none());
    assert!(ProxyFormValues::parse(ProxyKind::Socks5, "localhost", "invalid", "", "").is_none());
    assert!(ProxyFormValues::parse(ProxyKind::Http, "localhost", "0", "", "").is_none());
}

#[test]
fn proxy_form_normalizes_text_values() {
    let values = ProxyFormValues::parse(
        ProxyKind::Http,
        " proxy.example.com ",
        "8080",
        " user ",
        " secret ",
    )
    .expect("valid proxy form");

    assert_eq!(values.kind, ProxyKind::Http);
    assert_eq!(values.host, "proxy.example.com");
    assert_eq!(values.port, 8080);
    assert_eq!(values.user, "user");
    assert_eq!(values.password, " secret ");
}

#[test]
fn proxy_port_must_fit_sixteen_bits() {
    assert!(ProxyFormValues::parse(ProxyKind::Http, "h", "65536", "", "").is_none());
    assert!(ProxyFormValues::parse(ProxyKind::Http, "   ", "80", "", "").is_none());
    let values = ProxyFormValues::parse(ProxyKind::Socks5, "h", " 65535 ", "", "").unwrap();
    assert_eq!(values.port, 65535);
    assert_eq!(values.kind, ProxyKind::Socks5);
}

#[test]
fn proxy_kind_reads_http_and_defaults_to_socks5() {
    assert_eq!(ProxyKind::from_config("http"), ProxyKind::Http);
    assert_eq!(ProxyKind::from_config("HTTP"), ProxyKind::Socks5);
    assert_eq!(ProxyKind::from_config(""), ProxyKind::Socks5);
    for kind in [ProxyKind::Socks5, ProxyKind::Http] {
        assert_eq!(ProxyKind::from_config(kind.config_value()), kind);
    }
    assert_eq!(ProxyKind::Socks5.config_value(), "socks5");
}

#[test]
fn monitoring_position_normalizes_unknown_values() {
    assert_eq!(
        MonitoringPosition::from_config("Sidebar"),
        MonitoringPosition::Sidebar
    );
    assert_eq!(
        MonitoringPosition::from_config("unknown"),
        MonitoringPosition::Bottom
    );
}

#[test]
fn display_language_normalizes_unknown_values() {
    assert_eq!(DisplayLanguage::from_config("en"), DisplayLanguage::English);
    assert_eq!(
        DisplayLanguage::from_config("zh-CN"),
        DisplayLanguage::Chinese
    );
    assert_eq!(
        DisplayLanguage::from_config("unknown"),
        DisplayLanguage::System
    );
}

#[test]
fn typed_options_round_trip_to_config_values() {
    for position in MONITORING_POSITIONS {
        assert_eq!(
            MonitoringPosition::from_config(position.config_value()),
            position
        );
    }
    for language in DISPLAY_LANGUAGES {
        assert_eq!(
            DisplayLanguage::from_config(language.config_value()),
            language
        );
    }
}

#[test]
fn labels_have_their_translation_keys() {
    assert_eq!(MonitoringPosition::Hidden.translation_key(), "position_hidden");
    assert_eq!(MonitoringPosition::default(), MonitoringPosition::Bottom);
    assert_eq!(DisplayLanguage::System.translation_key(), "follow_system");
    assert_eq!(DisplayLanguage::default(), DisplayLanguage::System);
    assert_eq!(
        terminal_display_style_key(TerminalDisplayStyle::Compact),
        "terminal_display_style_compact"
    );
    assert_eq!(cursor_style_key(CursorStyle::BeamBlink), "cursor_style_beam_blink");
    assert_eq!(title_bar_style_key(TitleBarStyle::Native), "title_bar_native");
    assert_eq!(update_check_mode_key(UpdateCheckMode::Interval), "update_frequency_interval");
}

#[test]
fn update_progress_uses_percentage_scale() {
    assert_eq!(progress_percent(0, 0), 0);
    assert_eq!(progress_percent(50, 100), 50);
    assert_eq!(progress_percent(200, 100), 100);
    assert_eq!(progress_percent(1, 4) as f32, 25.0);
    assert_eq!(progress_percent(u64::MAX, u64::MAX), 1);
    assert_eq!(progress_percent(u64::MAX / 50, u64::MAX), 1);
}

#[test]
fn proxy_url_schemes_name_the_protocol() {
    assert_eq!(ProxyKind::from_url_scheme("http"), ProxyKind::Http);
    assert_eq!(ProxyKind::from_url_scheme("https"), ProxyKind::Http);
    assert_eq!(ProxyKind::from_url_scheme("socks5"), ProxyKind::Socks5);
    assert_eq!(ProxyKind::from_url_scheme("socks5h"), ProxyKind::Socks5);
    assert_eq!(ProxyKind::from_url_scheme("ftp"), ProxyKind::Socks5);
}
