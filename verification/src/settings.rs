//! Typed settings values, their configuration strings, and the checks on the
//! values typed into the settings forms.
use vstd::prelude::*;

use crate::decimal::{parse_unsigned, parsed_unsigned};
use crate::text::{str_eq, string_of, trim, trimmed};

verus! {

/// The largest update interval, in hours: one year.
pub const MAX_HOUR_INTERVAL: u32 = 8760;

/// The update interval that `value` gives, in hours: a whole number from 1
/// to a year once surrounding whitespace is removed.
pub open spec fn hour_interval(value: Seq<char>) -> Option<nat> {
    match parsed_unsigned(trim(value), u32::MAX as nat) {
        Some(h) => if 1 <= h <= MAX_HOUR_INTERVAL {
            Some(h)
        } else {
            None
        },
        None => None,
    }
}

/// Reads an update interval in hours.
pub fn parse_hour_interval(value: &str) -> (r: Option<u32>)
    ensures
        match hour_interval(value@) {
            Some(h) => r == Some(h as u32),
            None => r is None,
        },
{
    let t = trimmed(value);
    match parse_unsigned(t.as_str(), 0xffff_ffff) {
        Some(h) => {
            if 1 <= h && h <= 8760 {
                Some(h as u32)
            } else {
                None
            }
        },
        None => None,
    }
}

/// The protocol of the global proxy.
#[derive(Clone, Copy, Debug, PartialEq, Eq, Structural)]
pub enum ProxyKind {
    Socks5,
    Http,
}

/// The proxy protocol that a configuration string names; anything but
/// `http` is SOCKS5.
pub open spec fn proxy_kind_of(value: Seq<char>) -> ProxyKind {
    if value == "http"@ {
        ProxyKind::Http
    } else {
        ProxyKind::Socks5
    }
}

/// The configuration string of a proxy protocol.
pub open spec fn proxy_kind_value(kind: ProxyKind) -> Seq<char> {
    match kind {
        ProxyKind::Socks5 => "socks5"@,
        ProxyKind::Http => "http"@,
    }
}

/// The proxy protocol for a proxy URL's scheme: HTTP for `http` and
/// `https`, SOCKS5 for `socks5`, `socks5h` and any other scheme.
pub open spec fn proxy_kind_of_scheme(scheme: Seq<char>) -> ProxyKind {
    if scheme == "http"@ || scheme == "https"@ {
        ProxyKind::Http
    } else {
        ProxyKind::Socks5
    }
}

impl ProxyKind {
    /// The protocol of a proxy given by a URL with scheme `scheme`, as the
    /// proxy variables of the environment name one.
    pub fn from_url_scheme(scheme: &str) -> (r: Self)
        ensures
            r == proxy_kind_of_scheme(scheme@),
    {
        if str_eq(scheme, "http") || str_eq(scheme, "https") {
            ProxyKind::Http
        } else {
            ProxyKind::Socks5
        }
    }

    /// The protocol that a configuration string names.
    pub fn from_config(value: &str) -> (r: Self)
        ensures
            r == proxy_kind_of(value@),
    {
        if str_eq(value, "http") {
            ProxyKind::Http
        } else {
            ProxyKind::Socks5
        }
    }

    /// The configuration string of the protocol.
    pub fn config_value(self) -> (r: &'static str)
        ensures
            r@ == proxy_kind_value(self),
    {
        match self {
            ProxyKind::Socks5 => "socks5",
            ProxyKind::Http => "http",
        }
    }
}

/// The values of the proxy form once checked.
#[derive(Debug, PartialEq, Eq)]
pub struct ProxyFormValues {
    pub kind: ProxyKind,
    pub host: String,
    pub port: u16,
    pub user: String,
    pub password: String,
}

/// The checked proxy form: protocol, host, port, user and password. The host
/// must not be blank and the port must be a number from 1 to 65535; host,
/// port and user are trimmed, the password is kept as typed.
pub open spec fn proxy_form(
    kind: ProxyKind,
    host: Seq<char>,
    port: Seq<char>,
    user: Seq<char>,
    password: Seq<char>,
) -> Option<(ProxyKind, Seq<char>, nat, Seq<char>, Seq<char>)> {
    if trim(host).len() == 0 {
        None
    } else {
        match parsed_unsigned(trim(port), u16::MAX as nat) {
            Some(p) => if p == 0 {
                None
            } else {
                Some((kind, trim(host), p, trim(user), password))
            },
            None => None,
        }
    }
}

impl ProxyFormValues {
    /// Checks the typed proxy form.
    pub fn parse(kind: ProxyKind, host: &str, port: &str, user: &str, password: &str) -> (r:
        Option<Self>)
        ensures
            match proxy_form(kind, host@, port@, user@, password@) {
                Some(v) => r matches Some(p) && p.kind == v.0 && p.host@ == v.1 && p.port == v.2
                    && p.user@ == v.3 && p.password@ == v.4,
                None => r is None,
            },
    {
        let host = trimmed(host);
        if host.as_str().unicode_len() == 0 {
            return None;
        }
        let port_text = trimmed(port);
        let port = match parse_unsigned(port_text.as_str(), 0xffff) {
            Some(p) => p as u16,
            None => {
                return None;
            },
        };
        if port == 0 {
            return None;
        }
        Some(ProxyFormValues {
            kind,
            host,
            port,
            user: trimmed(user),
            password: string_of(password),
        })
    }
}

/// Where the monitoring strip is shown.
#[derive(Clone, Copy, Debug, PartialEq, Eq, Structural)]
pub enum MonitoringPosition {
    Bottom,
    Sidebar,
    Hidden,
}

/// The positions offered in the settings, in the order shown.
pub const MONITORING_POSITIONS: [MonitoringPosition; 3] = [
    MonitoringPosition::Bottom,
    MonitoringPosition::Sidebar,
    MonitoringPosition::Hidden,
];

/// The position that a configuration string names; unknown strings give the
/// bottom strip.
pub open spec fn monitoring_position_of(value: Seq<char>) -> MonitoringPosition {
    if value == "Sidebar"@ {
        MonitoringPosition::Sidebar
    } else if value == "Hidden"@ {
        MonitoringPosition::Hidden
    } else {
        MonitoringPosition::Bottom
    }
}

/// The configuration string of a position.
pub open spec fn monitoring_position_value(p: MonitoringPosition) -> Seq<char> {
    match p {
        MonitoringPosition::Bottom => "Bottom"@,
        MonitoringPosition::Sidebar => "Sidebar"@,
        MonitoringPosition::Hidden => "Hidden"@,
    }
}

impl Default for MonitoringPosition {
    /// The bottom strip.
    fn default() -> (r: Self)
        ensures
            r == MonitoringPosition::Bottom,
    {
        MonitoringPosition::Bottom
    }
}

impl MonitoringPosition {
    /// The position that a configuration string names.
    pub fn from_config(value: &str) -> (r: Self)
        ensures
            r == monitoring_position_of(value@),
    {
        if str_eq(value, "Sidebar") {
            MonitoringPosition::Sidebar
        } else if str_eq(value, "Hidden") {
            MonitoringPosition::Hidden
        } else {
            MonitoringPosition::Bottom
        }
    }

    /// The configuration string of the position.
    pub fn config_value(self) -> (r: &'static str)
        ensures
            r@ == monitoring_position_value(self),
    {
        match self {
            MonitoringPosition::Bottom => "Bottom",
            MonitoringPosition::Sidebar => "Sidebar",
            MonitoringPosition::Hidden => "Hidden",
        }
    }

    /// The key of the position's label among the translations.
    pub fn translation_key(self) -> (r: &'static str)
        ensures
            r@ == match self {
                MonitoringPosition::Bottom => "position_bottom"@,
                MonitoringPosition::Sidebar => "position_sidebar"@,
                MonitoringPosition::Hidden => "position_hidden"@,
            },
    {
        match self {
            MonitoringPosition::Bottom => "position_bottom",
            MonitoringPosition::Sidebar => "position_sidebar",
            MonitoringPosition::Hidden => "position_hidden",
        }
    }
}

/// The language of the interface.
#[derive(Clone, Copy, Debug, PartialEq, Eq, Structural)]
pub enum DisplayLanguage {
    System,
    English,
    Chinese,
}

/// The languages offered in the settings, in the order shown.
pub const DISPLAY_LANGUAGES: [DisplayLanguage; 3] = [
    DisplayLanguage::System,
    DisplayLanguage::English,
    DisplayLanguage::Chinese,
];

/// The language that a configuration string names; unknown strings follow
/// the system.
pub open spec fn display_language_of(value: Seq<char>) -> DisplayLanguage {
    if value == "en"@ {
        DisplayLanguage::English
    } else if value == "zh-CN"@ {
        DisplayLanguage::Chinese
    } else {
        DisplayLanguage::System
    }
}

/// The configuration string of a language.
pub open spec fn display_language_value(l: DisplayLanguage) -> Seq<char> {
    match l {
        DisplayLanguage::System => "system"@,
        DisplayLanguage::English => "en"@,
        DisplayLanguage::Chinese => "zh-CN"@,
    }
}

impl Default for DisplayLanguage {
    /// Following the system.
    fn default() -> (r: Self)
        ensures
            r == DisplayLanguage::System,
    {
        DisplayLanguage::System
    }
}

impl DisplayLanguage {
    /// The language that a configuration string names.
    pub fn from_config(value: &str) -> (r: Self)
        ensures
            r == display_language_of(value@),
    {
        if str_eq(value, "en") {
            DisplayLanguage::English
        } else if str_eq(value, "zh-CN") {
            DisplayLanguage::Chinese
        } else {
            DisplayLanguage::System
        }
    }

    /// The configuration string of the language.
    pub fn config_value(self) -> (r: &'static str)
        ensures
            r@ == display_language_value(self),
    {
        match self {
            DisplayLanguage::System => "system",
            DisplayLanguage::English => "en",
            DisplayLanguage::Chinese => "zh-CN",
        }
    }

    /// The key of the language's label among the translations.
    pub fn translation_key(self) -> (r: &'static str)
        ensures
            r@ == match self {
                DisplayLanguage::System => "follow_system"@,
                DisplayLanguage::English => "english"@,
                DisplayLanguage::Chinese => "chinese"@,
            },
    {
        match self {
            DisplayLanguage::System => "follow_system",
            DisplayLanguage::English => "english",
            DisplayLanguage::Chinese => "chinese",
        }
    }
}

/// Reading back the configuration string of a monitoring position gives
/// that position.
pub proof fn monitoring_position_round_trip(p: MonitoringPosition)
    ensures
        monitoring_position_of(monitoring_position_value(p)) == p,
{
    reveal_strlit("Bottom");
    reveal_strlit("Sidebar");
    reveal_strlit("Hidden");
    assert("Bottom"@.len() != "Sidebar"@.len() && "Hidden"@.len() != "Sidebar"@.len());
    assert("Bottom"@[0] != "Hidden"@[0]);
}

/// Reading back the configuration string of a display language gives that
/// language.
pub proof fn display_language_round_trip(l: DisplayLanguage)
    ensures
        display_language_of(display_language_value(l)) == l,
{
    reveal_strlit("system");
    reveal_strlit("en");
    reveal_strlit("zh-CN");
    assert("system"@.len() != "en"@.len() && "system"@.len() != "zh-CN"@.len());
    assert("zh-CN"@.len() != "en"@.len());
}

/// Reading back the configuration string of a proxy protocol gives that
/// protocol.
pub proof fn proxy_kind_round_trip(k: ProxyKind)
    ensures
        proxy_kind_of(proxy_kind_value(k)) == k,
{
    reveal_strlit("socks5");
    reveal_strlit("http");
    assert("socks5"@.len() != "http"@.len());
}

/// How densely the terminal draws its text.
#[derive(Clone, Copy, Debug, PartialEq, Eq, Structural)]
pub enum TerminalDisplayStyle {
    Standard,
    Compact,
}

/// The shape and blinking of the terminal cursor.
#[derive(Clone, Copy, Debug, PartialEq, Eq, Structural)]
pub enum CursorStyle {
    Default,
    Blink,
    Beam,
    BeamBlink,
}

/// Whether the window uses the system title bar.
#[derive(Clone, Copy, Debug, PartialEq, Eq, Structural)]
pub enum TitleBarStyle {
    Native,
    Integrated,
}

/// When updates are looked for.
#[derive(Clone, Copy, Debug, PartialEq, Eq, Structural)]
pub enum UpdateCheckMode {
    Startup,
    Interval,
    Disabled,
}

/// The key of a display style's label among the translations.
pub fn terminal_display_style_key(style: TerminalDisplayStyle) -> (r: &'static str)
    ensures
        r@ == match style {
            TerminalDisplayStyle::Standard => "terminal_display_style_standard"@,
            TerminalDisplayStyle::Compact => "terminal_display_style_compact"@,
        },
{
    match style {
        TerminalDisplayStyle::Standard => "terminal_display_style_standard",
        TerminalDisplayStyle::Compact => "terminal_display_style_compact",
    }
}

/// The key of a cursor style's label among the translations.
pub fn cursor_style_key(style: CursorStyle) -> (r: &'static str)
    ensures
        r@ == match style {
            CursorStyle::Default => "cursor_style_default"@,
            CursorStyle::Blink => "cursor_style_blink"@,
            CursorStyle::Beam => "cursor_style_beam"@,
            CursorStyle::BeamBlink => "cursor_style_beam_blink"@,
        },
{
    match style {
        CursorStyle::Default => "cursor_style_default",
        CursorStyle::Blink => "cursor_style_blink",
        CursorStyle::Beam => "cursor_style_beam",
        CursorStyle::BeamBlink => "cursor_style_beam_blink",
    }
}

/// The key of a title bar style's label among the translations.
pub fn title_bar_style_key(style: TitleBarStyle) -> (r: &'static str)
    ensures
        r@ == match style {
            TitleBarStyle::Native => "title_bar_native"@,
            TitleBarStyle::Integrated => "title_bar_integrated"@,
        },
{
    match style {
        TitleBarStyle::Native => "title_bar_native",
        TitleBarStyle::Integrated => "title_bar_integrated",
    }
}

/// The key of an update mode's label among the translations.
pub fn update_check_mode_key(mode: UpdateCheckMode) -> (r: &'static str)
    ensures
        r@ == match mode {
            UpdateCheckMode::Startup => "update_frequency_startup"@,
            UpdateCheckMode::Interval => "update_frequency_interval"@,
            UpdateCheckMode::Disabled => "update_frequency_disabled"@,
        },
{
    match mode {
        UpdateCheckMode::Startup => "update_frequency_startup",
        UpdateCheckMode::Interval => "update_frequency_interval",
        UpdateCheckMode::Disabled => "update_frequency_disabled",
    }
}

/// The share of a download that is done, in whole percent: `done * 100 /
/// total`, the product saturating at `u64::MAX`, capped at 100, and 0 when
/// the total is unknown.
pub open spec fn download_percent(done: u64, total: u64) -> nat {
    if total == 0 {
        0
    } else {
        let scaled = if done * 100 > u64::MAX {
            u64::MAX as nat
        } else {
            (done * 100) as nat
        };
        if scaled / (total as nat) > 100 {
            100
        } else {
            scaled / (total as nat)
        }
    }
}

/// The share of a download that is done, in whole percent.
pub fn progress_percent(done: u64, total: u64) -> (r: u64)
    ensures
        r == download_percent(done, total),
        r <= 100,
{
    if total == 0 {
        0
    } else {
        let scaled = if done > u64::MAX / 100 {
            u64::MAX
        } else {
            done * 100
        };
        let q = scaled / total;
        if q > 100 {
            100
        } else {
            q
        }
    }
}

} // verus!
