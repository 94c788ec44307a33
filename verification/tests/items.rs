use istat::bar_items::cpu::Cpu;
use istat::color::{make_color_adjuster, Rgb};
use istat::i3::{I3Item, I3Markup};
use istat::text::{replace_all, u64_to_string};
use istat::theme::{PowerlineBand, Theme};

fn cpu_test_theme() -> Theme {
    Theme {
        bg: Rgb { r: 0, g: 0, b: 0 },
        fg: Rgb { r: 255, g: 255, b: 255 },
        dim: Rgb { r: 128, g: 128, b: 128 },
        red: Rgb { r: 255, g: 0, b: 0 },
        orange: Rgb { r: 255, g: 128, b: 0 },
        yellow: Rgb { r: 255, g: 255, b: 0 },
        green: Rgb { r: 0, g: 255, b: 0 },
        powerline_enable: false,
        powerline: vec![PowerlineBand {
            fg: Rgb { r: 1, g: 1, b: 1 },
            bg: Rgb { r: 2, g: 2, b: 2 },
        }],
        powerline_separator: String::from("|"),
    }
}

#[test]
fn cpu_full_text_formats_percentage() {
    let cpu = Cpu { interval_ms: 1000 };
    let theme = cpu_test_theme();
    assert_eq!(cpu.get_full_text(&theme, 0), " 0%");
    assert_eq!(cpu.get_full_text(&theme, 42), " 42%");
    assert_eq!(cpu.get_full_text(&theme, 100), " 100%");
}

#[test]
fn cpu_color_bands() {
    let cpu = Cpu { interval_ms: 1000 };
    let theme = cpu_test_theme();
    assert_eq!(cpu.get_color(&theme, 0), None);
    assert_eq!(cpu.get_color(&theme, 39), None);
    assert_eq!(cpu.get_color(&theme, 40), Some(theme.yellow));
    assert_eq!(cpu.get_color(&theme, 59), Some(theme.yellow));
    assert_eq!(cpu.get_color(&theme, 60), Some(theme.orange));
    assert_eq!(cpu.get_color(&theme, 79), Some(theme.orange));
    assert_eq!(cpu.get_color(&theme, 80), Some(theme.red));
    assert_eq!(cpu.get_color(&theme, 100), Some(theme.red));
    assert_eq!(cpu.get_color(&theme, 101), None);
}

#[test]
fn cpu_item_combines_text_and_color() {
    let cpu = Cpu { interval_ms: 1000 };
    let theme = cpu_test_theme();
    let item = cpu.item(&theme, 85);
    assert_eq!(item.full_text, " 85%");
    assert_eq!(item.color, Some(theme.red));
    assert_eq!(item.markup, I3Markup::Pango);
    let calm = cpu.item(&theme, 10);
    assert_eq!(calm.color, None);
}

#[test]
fn item_builders_compose() {
    let item = I3Item::new(String::from("hello"))
        .color(Rgb { r: 1, g: 2, b: 3 })
        .urgent(true)
        .separator(false)
        .separator_block_width_px(0)
        .markup(I3Markup::Pango)
        .instance(String::from("7"))
        .with_data(String::from("k"), true);
    assert_eq!(item.full_text, "hello");
    assert_eq!(item.color, Some(Rgb { r: 1, g: 2, b: 3 }));
    assert!(item.urgent);
    assert!(!item.separator);
    assert_eq!(item.separator_block_width_px, Some(0));
    assert_eq!(item.markup, I3Markup::Pango);
    assert_eq!(item.instance.as_deref(), Some("7"));
    assert_eq!(item.extra, vec![(String::from("k"), true)]);
    assert!(I3Item::empty().is_empty());
    assert!(!item.is_empty());
}

#[test]
fn color_adjuster_saturates_per_channel() {
    let bg = Rgb { r: 10, g: 10, b: 10 };
    let dim = Rgb { r: 200, g: 110, b: 10 };
    let adjuster = make_color_adjuster(&bg, &dim);
    // deltas are 190, 100, 0
    let adjusted = adjuster.adjust(&Rgb { r: 100, g: 200, b: 30 });
    assert_eq!(adjusted, Rgb { r: 255, g: 255, b: 30 });
    let adjusted = adjuster.adjust(&Rgb { r: 50, g: 50, b: 50 });
    assert_eq!(adjusted, Rgb { r: 240, g: 150, b: 50 });
}

#[test]
fn decimal_and_replace_helpers() {
    assert_eq!(u64_to_string(0), "0");
    assert_eq!(u64_to_string(907), "907");
    assert_eq!(u64_to_string(u64::MAX), "18446744073709551615");

    let s: Vec<char> = "ababab".chars().collect();
    let pat: Vec<char> = "ab".chars().collect();
    let rep: Vec<char> = "xyz".chars().collect();
    let out: String = replace_all(&s, &pat, &rep).into_iter().collect();
    assert_eq!(out, "xyzxyzxyz");

    let s: Vec<char> = "aaa".chars().collect();
    let pat: Vec<char> = "aa".chars().collect();
    let rep: Vec<char> = "b".chars().collect();
    let out: String = replace_all(&s, &pat, &rep).into_iter().collect();
    assert_eq!(out, "ba");
}
