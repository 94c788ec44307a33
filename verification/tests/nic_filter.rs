use istat::bar_items::nic::{disconnected_item, interface_item, Nic};
use istat::color::Rgb;
use istat::net::{Interface, InterfaceFilter, InterfaceKind, WirelessInfo};
use istat::theme::{PowerlineBand, Theme};

use InterfaceFilter as F;

#[test]
fn interface_filter_to_string() {
    assert_eq!(F::new("foo", None).to_string(), "foo");
    assert_eq!(F::new("bar", Some(InterfaceKind::V4)).to_string(), "bar:v4");
    assert_eq!(F::new("baz", Some(InterfaceKind::V6)).to_string(), "baz:v6");
    assert_eq!(F::new("", None).to_string(), "");
    assert_eq!(F::new("", Some(InterfaceKind::V4)).to_string(), ":v4");
    assert_eq!(F::new("", Some(InterfaceKind::V6)).to_string(), ":v6");
}

#[test]
fn interface_filter_from_str() {
    let p = |s: &str| F::from_str(s).unwrap();
    assert_eq!(p("foo"), F::new("foo", None));
    assert_eq!(p("bar:v4"), F::new("bar", Some(InterfaceKind::V4)));
    assert_eq!(p("baz:v6"), F::new("baz", Some(InterfaceKind::V6)));
    assert_eq!(p(""), F::new("", None));
    assert_eq!(p(":v4"), F::new("", Some(InterfaceKind::V4)));
    assert_eq!(p(":v6"), F::new("", Some(InterfaceKind::V6)));
}

#[test]
fn interface_filter_from_str_rejects_unknown_kind() {
    assert!(InterfaceFilter::from_str("eth0:v5").is_err());
    assert!(InterfaceFilter::from_str("eth0:ipv4").is_err());
    assert!(InterfaceFilter::from_str(":").is_err());
    assert_eq!(
        InterfaceFilter::from_str("x:y").unwrap_err().message(),
        "invalid interface kind"
    );
}

fn nic_test_theme() -> Theme {
    Theme {
        bg: Rgb { r: 0, g: 0, b: 0 },
        fg: Rgb { r: 255, g: 255, b: 255 },
        dim: Rgb { r: 128, g: 128, b: 128 },
        red: Rgb { r: 255, g: 0, b: 0 },
        orange: Rgb { r: 255, g: 128, b: 0 },
        yellow: Rgb { r: 10, g: 20, b: 30 },
        green: Rgb { r: 0, g: 255, b: 0 },
        powerline_enable: false,
        powerline: vec![PowerlineBand {
            fg: Rgb { r: 1, g: 1, b: 1 },
            bg: Rgb { r: 2, g: 2, b: 2 },
        }],
        powerline_separator: String::from("|"),
    }
}

fn wlan(name: &str, quality: u8) -> Interface {
    Interface {
        name: String::from(name),
        addr: String::from("192.168.1.2"),
        kind: InterfaceKind::V4,
        wireless: Some(WirelessInfo { quality, essid: String::from("net") }),
    }
}

fn wired(name: &str, kind: InterfaceKind) -> Interface {
    Interface {
        name: String::from(name),
        addr: String::from("10.0.0.1"),
        kind,
        wireless: None,
    }
}

#[test]
fn interface_filter_matches_name_and_kind() {
    let eth = wired("eth0", InterfaceKind::V4);
    let eth6 = wired("eth0", InterfaceKind::V6);
    let wl = wired("wlan0", InterfaceKind::V4);

    assert!(InterfaceFilter::new("", None).matches(&eth));
    assert!(InterfaceFilter::new("eth0", None).matches(&eth));
    assert!(!InterfaceFilter::new("eth1", None).matches(&eth));
    assert!(InterfaceFilter::new("", Some(InterfaceKind::V4)).matches(&eth));
    assert!(!InterfaceFilter::new("", Some(InterfaceKind::V4)).matches(&eth6));
    assert!(InterfaceFilter::new("wlan0", Some(InterfaceKind::V4)).matches(&wl));
    assert!(!InterfaceFilter::new("wlan0", Some(InterfaceKind::V6)).matches(&wl));
}

#[test]
fn nic_matching_interfaces_filters_in_order() {
    let all = vec![
        wired("eth0", InterfaceKind::V4),
        wired("wlan0", InterfaceKind::V4),
        wired("eth0", InterfaceKind::V6),
    ];

    let nic_all = Nic { interval_ms: None, filter: vec![] };
    let got = nic_all.matching_interfaces(all.clone());
    assert_eq!(got.len(), 3);

    let nic_eth = Nic {
        interval_ms: None,
        filter: vec![InterfaceFilter::new("eth0", None)],
    };
    let got = nic_eth.matching_interfaces(all.clone());
    assert_eq!(got.len(), 2);
    assert_eq!(got[0].name, "eth0");
    assert_eq!(got[0].kind, InterfaceKind::V4);
    assert_eq!(got[1].kind, InterfaceKind::V6);

    let nic_v6 = Nic {
        interval_ms: None,
        filter: vec![InterfaceFilter::new("", Some(InterfaceKind::V6))],
    };
    let got = nic_v6.matching_interfaces(all);
    assert_eq!(got.len(), 1);
    assert_eq!(got[0].kind, InterfaceKind::V6);
}

#[test]
fn interface_format_wireless_span() {
    let theme = nic_test_theme();
    let iface = wlan("wlan0", 70);
    let (full, short) = iface.format(&theme);
    // quality 70 grades yellow (#0A141E in this palette)
    assert_eq!(
        full,
        "<span foreground=\"#0A141E\">wlan0(192.168.1.2) 70% at net</span>"
    );
    assert_eq!(short, "<span foreground=\"#0A141E\">wlan0</span>");
}

#[test]
fn interface_format_wired_span() {
    let theme = nic_test_theme();
    let iface = wired("eth0", InterfaceKind::V4);
    let (full, short) = iface.format(&theme);
    assert_eq!(full, "<span foreground=\"#00FF00\">eth0(10.0.0.1)</span>");
    assert_eq!(short, "<span foreground=\"#00FF00\">eth0</span>");
}

#[test]
fn nic_items() {
    let theme = nic_test_theme();
    let d = disconnected_item(&theme);
    assert_eq!(d.full_text, "disconnected");
    assert_eq!(d.color, Some(Rgb { r: 255, g: 0, b: 0 }));

    // one of three pages: the full text carries a dim pagination marker
    let item = interface_item(&theme, &wired("eth0", InterfaceKind::V4), 1, 3);
    assert_eq!(
        item.full_text,
        "<span foreground=\"#00FF00\">eth0(10.0.0.1)</span> <span foreground=\"#808080\">2/3</span>"
    );
    assert_eq!(
        item.short_text.as_deref(),
        Some("<span foreground=\"#00FF00\">eth0</span>")
    );

    // a single page shows no marker
    let item = interface_item(&theme, &wired("eth0", InterfaceKind::V4), 0, 1);
    assert_eq!(item.full_text, "<span foreground=\"#00FF00\">eth0(10.0.0.1)</span>");
}
