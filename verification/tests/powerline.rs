use istat::bar::Bar;
use istat::color::Rgb;
use istat::i3::{I3Item, I3Markup};
use istat::theme::{PowerlineBand, Theme};

fn pl_theme(enable: bool) -> Theme {
    Theme {
        bg: Rgb { r: 0, g: 0, b: 0 },
        fg: Rgb { r: 255, g: 255, b: 255 },
        dim: Rgb { r: 128, g: 128, b: 128 },
        red: Rgb { r: 255, g: 0, b: 0 },
        orange: Rgb { r: 255, g: 128, b: 0 },
        yellow: Rgb { r: 255, g: 255, b: 0 },
        green: Rgb { r: 0, g: 255, b: 0 },
        powerline_enable: enable,
        powerline: vec![
            PowerlineBand { fg: Rgb { r: 1, g: 1, b: 1 }, bg: Rgb { r: 2, g: 2, b: 2 } },
            PowerlineBand { fg: Rgb { r: 3, g: 3, b: 3 }, bg: Rgb { r: 4, g: 4, b: 4 } },
        ],
        powerline_separator: String::from("|"),
    }
}

fn lookup(item: &I3Item, key: &str) -> Option<bool> {
    item.extra.iter().rev().find(|p| p.0 == key).map(|p| p.1)
}

/// Three slots, slot 0 empty, slot 1 = "A", slot 2 = "B" urgent.
fn sample_bar() -> Bar {
    let mut bar = Bar::new(3);
    bar.set(1, I3Item::new(String::from("A")));
    bar.set(2, I3Item::new(String::from("B")).urgent(true));
    bar
}

#[test]
fn powerline_renders_sep_and_content_pairs() {
    let theme = pl_theme(true);
    let bar = sample_bar();
    let out = bar.create_powerline(&theme);
    assert_eq!(out.len(), 4);

    // two visible items over two bands: the cursor starts at 2, so "A"
    // takes band 1 and the last item "B" takes band 0
    let sep_a = &out[0];
    assert_eq!(sep_a.full_text, "|");
    assert_eq!(sep_a.color, Some(Rgb { r: 4, g: 4, b: 4 }));
    assert_eq!(sep_a.background_color, None);
    assert_eq!(sep_a.markup, I3Markup::Pango);
    assert!(!sep_a.separator);
    assert_eq!(sep_a.separator_block_width_px, Some(0));
    assert_eq!(sep_a.instance.as_deref(), Some("1"));
    assert_eq!(lookup(sep_a, "powerline_sep"), Some(true));

    let a = &out[1];
    assert_eq!(a.full_text, " A ");
    assert_eq!(a.color, Some(Rgb { r: 3, g: 3, b: 3 }));
    assert_eq!(a.background_color, Some(Rgb { r: 4, g: 4, b: 4 }));
    assert!(!a.urgent);
    assert_eq!(a.instance.as_deref(), Some("1"));
    assert_eq!(lookup(a, "urgent"), Some(false));

    // the separator before "B" blends into "A"'s background
    let sep_b = &out[2];
    assert_eq!(sep_b.color, Some(Rgb { r: 255, g: 0, b: 0 }));
    assert_eq!(sep_b.background_color, Some(Rgb { r: 4, g: 4, b: 4 }));
    assert_eq!(sep_b.instance.as_deref(), Some("2"));

    // urgency is folded into the colours and kept in the extra data
    let b = &out[3];
    assert_eq!(b.full_text, " B ");
    assert_eq!(b.color, Some(Rgb { r: 0, g: 0, b: 0 }));
    assert_eq!(b.background_color, Some(Rgb { r: 255, g: 0, b: 0 }));
    assert!(!b.urgent);
    assert_eq!(b.instance.as_deref(), Some("2"));
    assert_eq!(lookup(b, "urgent"), Some(true));
}

#[test]
fn powerline_last_item_band_is_stable() {
    let theme = pl_theme(true);
    for n in 1usize..=4 {
        let mut bar = Bar::new(n);
        for i in 0..n {
            bar.set(i, I3Item::new(String::from("x")));
        }
        let out = bar.create_powerline(&theme);
        assert_eq!(out.len(), 2 * n);
        // whatever the visible count, the rightmost item gets band 0
        let last = &out[2 * n - 1];
        assert_eq!(last.background_color, Some(Rgb { r: 2, g: 2, b: 2 }));
    }
}

#[test]
fn powerline_readjusts_dim_text() {
    let theme = pl_theme(true);
    let mut bar = Bar::new(1);
    bar.set(
        0,
        I3Item::new(String::from("x<span foreground=\"#808080\">y</span>"))
            .color(Rgb { r: 128, g: 128, b: 128 }),
    );
    let out = bar.create_powerline(&theme);
    // one visible item over two bands takes band 0 (#020202); the dim
    // deltas against the black theme background are 128 per channel
    let adjusted = Rgb { r: 130, g: 130, b: 130 };
    assert_eq!(out[1].color, Some(adjusted));
    assert_ne!(out[1].color, Some(theme.dim));
    assert_eq!(out[1].full_text, " x<span foreground=\"#828282\">y</span> ");
}

#[test]
fn powerline_respects_item_background() {
    let theme = pl_theme(true);
    let mut bar = Bar::new(1);
    bar.set(
        0,
        I3Item::new(String::from("x")).background_color(Rgb { r: 9, g: 9, b: 9 }),
    );
    let out = bar.create_powerline(&theme);
    assert_eq!(out[0].color, Some(Rgb { r: 9, g: 9, b: 9 }));
    assert_eq!(out[1].background_color, Some(Rgb { r: 9, g: 9, b: 9 }));
}

#[test]
fn serialize_raw_bar_exactly() {
    let theme = pl_theme(false);
    let bar = sample_bar();
    let json = bar.to_json(&theme);
    let expected = String::from("[{\"full_text\":\"\",\"separator\":true,\"urgent\":false},")
        + "{\"full_text\":\"A\",\"separator\":true,\"urgent\":false,\"instance\":\"1\"},"
        + "{\"full_text\":\"B\",\"separator\":true,\"urgent\":true,\"instance\":\"2\"}]";
    assert_eq!(json, expected);
}

#[test]
fn serialize_powerline_bar_exactly() {
    let theme = pl_theme(true);
    let bar = sample_bar();
    let json = bar.to_json(&theme);
    let expected = String::from("[{\"full_text\":\"|\",\"color\":\"#040404\",\"markup\":\"pango\",")
        + "\"separator\":false,\"separator_block_width\":0,\"urgent\":false,"
        + "\"instance\":\"1\",\"_powerline_sep\":true},"
        + "{\"full_text\":\" A \",\"color\":\"#030303\",\"background\":\"#040404\","
        + "\"separator\":false,\"separator_block_width\":0,\"urgent\":false,"
        + "\"instance\":\"1\",\"_urgent\":false},"
        + "{\"full_text\":\"|\",\"color\":\"#FF0000\",\"background\":\"#040404\","
        + "\"markup\":\"pango\",\"separator\":false,\"separator_block_width\":0,"
        + "\"urgent\":false,\"instance\":\"2\",\"_powerline_sep\":true},"
        + "{\"full_text\":\" B \",\"color\":\"#000000\",\"background\":\"#FF0000\","
        + "\"separator\":false,\"separator_block_width\":0,\"urgent\":false,"
        + "\"instance\":\"2\",\"_urgent\":true}]";
    assert_eq!(json, expected);
}

#[test]
fn serialize_twice_is_identical() {
    for enable in [false, true] {
        let theme = pl_theme(enable);
        let bar = sample_bar();
        assert_eq!(bar.to_json(&theme), bar.to_json(&theme));
    }
}

#[test]
fn serialize_escapes_json_strings() {
    let theme = pl_theme(false);
    let mut bar = Bar::new(1);
    bar.set(0, I3Item::new(String::from("a\"b\\c\nd")));
    let json = bar.to_json(&theme);
    assert_eq!(
        json,
        "[{\"full_text\":\"a\\\"b\\\\c\\nd\",\"separator\":true,\"urgent\":false,\"instance\":\"0\"}]"
    );
}
