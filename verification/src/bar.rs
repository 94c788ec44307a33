//! The shared bar state: the latest item per slot, the powerline
//! transform, and the serialization of whole-bar snapshots.

use vstd::prelude::*;
use vstd::arithmetic::div_mod::{lemma_fundamental_div_mod, lemma_mod_multiples_basic};
use vstd::string::StringExecFns;
use crate::color::{hex_chars, hex_of, make_color_adjuster, spec_adjusted, spec_adjuster, Rgb};
use crate::i3::{
    clone_extra, clone_opt_string, extra_lookup, extra_view, new_item_model, I3Item, I3Markup,
    ItemModel,
};
use crate::json::{items_json, items_to_json};
use crate::text::{
    chars_of, dec_digits, replace_all, spec_replace, string_from_chars, u64_to_string,
};
use crate::theme::{PowerlineBand, Theme, ThemeModel};

verus! {

/// The items that rendering shows: those with non-empty text, in slot
/// order.
pub open spec fn visible_models(items: Seq<ItemModel>) -> Seq<ItemModel>
    decreases items.len(),
{
    if items.len() == 0 {
        Seq::empty()
    } else if items[0].full_text.len() > 0 {
        seq![items[0]] + visible_models(items.drop_first())
    } else {
        visible_models(items.drop_first())
    }
}

/// Where the band cursor starts for `visible` visible items over `bands`
/// bands: offset so that the band of the rightmost item stays stable as
/// the visible count changes.
pub open spec fn band_start(visible: nat, bands: nat) -> int {
    bands - (visible % bands)
}

/// The palette index assigned to the `k`-th visible item.
pub open spec fn band_index(visible: nat, k: int, bands: nat) -> int {
    (band_start(visible, bands) + k + 1) % (bands as int)
}

/// The band assigned to the `k`-th of `n` visible items.
pub open spec fn band_at(t: ThemeModel, n: nat, k: int) -> PowerlineBand {
    t.powerline[band_index(n, k, t.powerline.len())]
}

/// The background a rendered item gets: urgency wins, then the item's
/// own background, then the band's.
pub open spec fn powerline_bg(t: ThemeModel, m: ItemModel, band: PowerlineBand) -> Rgb {
    if m.urgent {
        t.red
    } else {
        match m.background_color {
            Some(c) => c,
            None => band.bg,
        }
    }
}

/// The background of the `k`-th visible item.
pub open spec fn item_bg_at(t: ThemeModel, vis: Seq<ItemModel>, k: int) -> Rgb {
    powerline_bg(t, vis[k], band_at(t, vis.len(), k))
}

/// The dim colour re-coloured for legibility over background `bg`,
/// using the contrast deltas of dim against the theme background.
pub open spec fn adjusted_dim(t: ThemeModel, bg: Rgb) -> Rgb {
    spec_adjusted(spec_adjuster(t.bg, t.dim), bg)
}

/// The chevron separator emitted before the `k`-th visible item: the
/// separator glyph in the item's background colour, blending into the
/// previous visible item's background (none before the first).
pub open spec fn sep_model(t: ThemeModel, vis: Seq<ItemModel>, k: int) -> ItemModel {
    ItemModel {
        full_text: t.powerline_separator,
        short_text: None,
        color: Some(item_bg_at(t, vis, k)),
        background_color: if k == 0 {
            None
        } else {
            Some(item_bg_at(t, vis, k - 1))
        },
        markup: I3Markup::Pango,
        separator: false,
        separator_block_width_px: Some(0),
        urgent: false,
        instance: vis[k].instance,
        extra: seq![("powerline_sep"@, true)],
    }
}

/// The resolved foreground of the `k`-th visible item's content.
pub open spec fn content_color(t: ThemeModel, vis: Seq<ItemModel>, k: int) -> Rgb {
    let m = vis[k];
    let band = band_at(t, vis.len(), k);
    if m.urgent {
        t.bg
    } else if m.color == Some(t.dim) {
        adjusted_dim(t, item_bg_at(t, vis, k))
    } else {
        match m.color {
            Some(c) => c,
            None => band.fg,
        }
    }
}

/// The `k`-th visible item rendered for the powerline: text padded and
/// with literal dim colour codes re-coloured, backgrounds and colours
/// resolved, urgency moved into the extra data.
pub open spec fn content_model(t: ThemeModel, vis: Seq<ItemModel>, k: int) -> ItemModel {
    let m = vis[k];
    let bg = item_bg_at(t, vis, k);
    ItemModel {
        full_text: seq![' '] + spec_replace(m.full_text, hex_of(t.dim), hex_of(adjusted_dim(t, bg)))
            + seq![' '],
        short_text: m.short_text,
        color: Some(content_color(t, vis, k)),
        background_color: Some(bg),
        markup: m.markup,
        separator: false,
        separator_block_width_px: Some(0),
        urgent: false,
        instance: m.instance,
        extra: m.extra.push(("urgent"@, m.urgent)),
    }
}

/// The whole powerline: a separator followed by the rendered content,
/// for each visible item in order.
pub open spec fn powerline_models(items: Seq<ItemModel>, t: ThemeModel) -> Seq<ItemModel> {
    let vis = visible_models(items);
    Seq::new(
        2 * vis.len(),
        |j: int|
            if j % 2 == 0 {
                sep_model(t, vis, j / 2)
            } else {
                content_model(t, vis, j / 2)
            },
    )
}

/// What serializing the bar yields: the powerline when enabled, the raw
/// slot sequence (empty placeholders included) otherwise.
pub open spec fn bar_json(items: Seq<ItemModel>, t: ThemeModel) -> Seq<char> {
    if t.powerline_enable {
        items_json(powerline_models(items, t))
    } else {
        items_json(items)
    }
}

/// The latest state of each bar slot.
#[derive(Debug)]
pub struct Bar {
    pub items: Vec<I3Item>,
}

impl View for Bar {
    type V = Seq<ItemModel>;

    open spec fn view(&self) -> Seq<ItemModel> {
        self.items.deep_view()
    }
}

impl Bar {
    /// Every non-empty slot carries its own decimal index as instance:
    /// the channel by which events come back to the slot.
    pub open spec fn wf(self) -> bool {
        forall|i: int|
            0 <= i < self@.len() ==> match (#[trigger] self@[i]).instance {
                Some(s) => s == dec_digits(i as nat),
                None => true,
            }
    }

    /// A bar of `item_count` empty slots.
    pub fn new(item_count: usize) -> (r: Bar)
        ensures
            r@.len() == item_count,
            forall|i: int| 0 <= i < item_count ==> r@[i] == new_item_model(Seq::<char>::empty()),
            r.wf(),
    {
        let mut items: Vec<I3Item> = Vec::new();
        let mut i: usize = 0;
        while i < item_count
            invariant
                i <= item_count,
                items@.len() == i,
                forall|j: int|
                    0 <= j < i ==> items@[j].deep_view() == new_item_model(Seq::<char>::empty()),
            decreases item_count - i,
        {
            items.push(I3Item::empty());
            i += 1;
        }
        Bar { items }
    }

    /// How many slots the bar has.
    pub fn len(&self) -> (n: usize)
        ensures
            n == self@.len(),
    {
        self.items.len()
    }

    /// The current item of slot `index`.
    pub fn get(&self, index: usize) -> (r: &I3Item)
        requires
            index < self@.len(),
        ensures
            r@ == self@[index as int],
    {
        &self.items[index]
    }

    /// Replace slot `index`; the stored item's instance is set to the
    /// slot's decimal index, the only channel that routes events back.
    pub fn set(&mut self, index: usize, item: I3Item)
        requires
            index < old(self)@.len(),
        ensures
            final(self)@ == old(self)@.update(
                index as int,
                ItemModel { instance: Some(dec_digits(index as nat)), ..item@ },
            ),
            old(self).wf() ==> final(self).wf(),
    {
        let tagged = item.instance(u64_to_string(index as u64));
        self.items[index] = tagged;
        proof {
            assert(final(self)@ =~= old(self)@.update(
                index as int,
                ItemModel { instance: Some(dec_digits(index as nat)), ..item@ },
            ));
        }
    }

    /// Render the bar as a powerline: for each visible item a chevron
    /// separator and the item itself, with cyclically assigned band
    /// colours, urgency folded into the colours, and dim text
    /// re-coloured against its new background.
    pub fn create_powerline(&self, theme: &Theme) -> (r: Vec<I3Item>)
        requires
            theme@.wf(),
        ensures
            r.deep_view() == powerline_models(self@, theme@),
    {
        let ghost t = theme@;
        let ghost models = self@;
        let ghost vis = visible_models(models);
        let l = theme.powerline.len();

        let mut visible_count: usize = 0;
        let mut i: usize = 0;
        proof {
            assert(models.skip(0) =~= models);
        }
        while i < self.items.len()
            invariant
                models == self@,
                models.len() == self.items@.len(),
                forall|j: int|
                    0 <= j < models.len() ==> #[trigger] models[j] == self.items@[j].deep_view(),
                i <= self.items@.len(),
                visible_count <= i,
                visible_count + visible_models(models.skip(i as int)).len() == vis.len(),
            decreases self.items@.len() - i,
        {
            let ghost rest = models.skip(i as int);
            proof {
                assert(rest[0] == models[i as int]);
                assert(rest.drop_first() =~= models.skip(i + 1));
            }
            if !self.items[i].is_empty() {
                visible_count += 1;
            }
            i += 1;
        }
        proof {
            assert(models.skip(models.len() as int) =~= Seq::<ItemModel>::empty());
            assert(visible_count == vis.len());
        }

        let base: u64 = (l - visible_count % l) as u64;
        let mut r: Vec<I3Item> = Vec::new();
        let mut k: usize = 0;
        let mut prev_bg = Rgb { r: 0, g: 0, b: 0 };
        let mut i: usize = 0;
        proof {
            assert(models.skip(0) =~= models);
            assert(vis.skip(0) =~= vis);
        }
        while i < self.items.len()
            invariant
                theme@ == t,
                t.wf(),
                models == self@,
                models.len() == self.items@.len(),
                forall|j: int|
                    0 <= j < models.len() ==> #[trigger] models[j] == self.items@[j].deep_view(),
                i <= self.items@.len(),
                vis == visible_models(models),
                l == t.powerline.len(),
                l > 0,
                visible_count == vis.len(),
                base == band_start(vis.len() as nat, l as nat),
                k <= vis.len(),
                visible_models(models.skip(i as int)) == vis.skip(k as int),
                r.deep_view().len() == 2 * k,
                forall|j: int|
                    0 <= j < 2 * k ==> #[trigger] r.deep_view()[j] == powerline_models(models, t)[j],
                k > 0 ==> prev_bg == item_bg_at(t, vis, k as int - 1),
            decreases self.items@.len() - i,
        {
            let ghost rest = models.skip(i as int);
            proof {
                assert(rest[0] == models[i as int]);
                assert(rest.drop_first() =~= models.skip(i + 1));
            }
            let item = &self.items[i];
            if item.is_empty() {
                i += 1;
                continue ;
            }
            proof {
                assert(visible_models(rest) == seq![models[i as int]] + visible_models(
                    models.skip(i + 1),
                ));
                assert(vis.skip(k as int)[0] == vis[k as int]);
                assert(vis[k as int] == models[i as int]);
                assert(visible_models(models.skip(i + 1)) =~= vis.skip(k as int).drop_first());
                assert(vis.skip(k as int).drop_first() =~= vis.skip(k as int + 1));
                assert(k < vis.len());
            }
            let bi: usize = ((base as u128 + k as u128 + 1) % (l as u128)) as usize;
            proof {
                assert(bi as int == band_index(vis.len() as nat, k as int, l as nat));
            }
            let this_band = theme.powerline[bi];
            let is_urgent = item.urgent;
            let item_bg = if is_urgent {
                theme.red
            } else {
                match &item.background_color {
                    Some(c) => *c,
                    None => this_band.bg,
                }
            };
            proof {
                assert(this_band == band_at(t, vis.len() as nat, k as int));
                assert(item_bg == item_bg_at(t, vis, k as int));
            }

            let sep = make_sep_item(
                theme,
                item,
                item_bg,
                if k == 0 {
                    None
                } else {
                    Some(prev_bg)
                },
            );
            proof {
                assert(sep@ =~= sep_model(t, vis, k as int));
            }
            let content = make_content_item(theme, item, item_bg, this_band.fg);
            proof {
                assert(content@ =~= content_model(t, vis, k as int));
            }
            let ghost r_old = r.deep_view();
            r.push(sep);
            r.push(content);
            proof {
                let pm = powerline_models(models, t);
                assert((2 * k as int) % 2 == 0 && (2 * k as int) / 2 == k as int) by (nonlinear_arith);
                assert((2 * k as int + 1) % 2 == 1 && (2 * k as int + 1) / 2 == k as int)
                    by (nonlinear_arith);
                assert(pm[2 * k as int] == sep_model(t, vis, k as int));
                assert(pm[2 * k as int + 1] == content_model(t, vis, k as int));
                assert(r.deep_view().len() == 2 * (k + 1));
                assert forall|j: int| 0 <= j < 2 * (k + 1) implies #[trigger] r.deep_view()[j]
                    == pm[j] by {
                    if j < 2 * k {
                        assert(r.deep_view()[j] == r_old[j]);
                    } else if j == 2 * k {
                        assert(r.deep_view()[j] == sep@);
                    } else {
                        assert(r.deep_view()[j] == content@);
                    }
                }
            }
            prev_bg = item_bg;
            k += 1;
            i += 1;
        }
        proof {
            assert(models.skip(models.len() as int) =~= Seq::<ItemModel>::empty());
            assert(vis.skip(k as int).len() == 0);
            assert(k == vis.len());
            assert(r.deep_view() =~= powerline_models(models, t));
        }
        r
    }

    /// Serialize the bar for the host: the powerline rendering when the
    /// theme enables it, the raw slot sequence (empty placeholders
    /// included) otherwise.  Equal states yield equal output.
    pub fn to_json(&self, theme: &Theme) -> (r: String)
        requires
            theme@.wf(),
        ensures
            r@ == bar_json(self@, theme@),
    {
        if theme.powerline_enable {
            let items = self.create_powerline(theme);
            items_to_json(&items)
        } else {
            items_to_json(&self.items)
        }
    }
}

/// Build the chevron separator standing before a visible item.
fn make_sep_item(theme: &Theme, src: &I3Item, item_bg: Rgb, prev_bg: Option<Rgb>) -> (r: I3Item)
    ensures
        r@ == (ItemModel {
            full_text: theme@.powerline_separator,
            short_text: None,
            color: Some(item_bg),
            background_color: prev_bg,
            markup: I3Markup::Pango,
            separator: false,
            separator_block_width_px: Some(0),
            urgent: false,
            instance: src@.instance,
            extra: seq![("powerline_sep"@, true)],
        }),
{
    let mut extra: Vec<(String, bool)> = Vec::new();
    extra.push(("powerline_sep".to_owned(), true));
    let r = I3Item {
        full_text: theme.powerline_separator.clone(),
        short_text: None,
        color: Some(item_bg),
        background_color: prev_bg,
        markup: I3Markup::Pango,
        separator: false,
        separator_block_width_px: Some(0),
        urgent: false,
        instance: clone_opt_string(&src.instance),
        extra,
    };
    proof {
        assert(extra_view(r.extra@) =~= seq![("powerline_sep"@, true)]);
        assert(r@ =~= (ItemModel {
            full_text: theme@.powerline_separator,
            short_text: None,
            color: Some(item_bg),
            background_color: prev_bg,
            markup: I3Markup::Pango,
            separator: false,
            separator_block_width_px: Some(0),
            urgent: false,
            instance: src@.instance,
            extra: seq![("powerline_sep"@, true)],
        }));
    }
    r
}

/// Render a visible item's content for the powerline over `item_bg`.
fn make_content_item(theme: &Theme, src: &I3Item, item_bg: Rgb, band_fg: Rgb) -> (r: I3Item)
    ensures
        r@ == (ItemModel {
            full_text: seq![' '] + spec_replace(
                src@.full_text,
                hex_of(theme@.dim),
                hex_of(adjusted_dim(theme@, item_bg)),
            ) + seq![' '],
            short_text: src@.short_text,
            color: Some(
                if src@.urgent {
                    theme@.bg
                } else if src@.color == Some(theme@.dim) {
                    adjusted_dim(theme@, item_bg)
                } else {
                    match src@.color {
                        Some(c) => c,
                        None => band_fg,
                    }
                },
            ),
            background_color: Some(item_bg),
            markup: src@.markup,
            separator: false,
            separator_block_width_px: Some(0),
            urgent: false,
            instance: src@.instance,
            extra: src@.extra.push(("urgent"@, src@.urgent)),
        }),
{
    let adjuster = make_color_adjuster(&theme.bg, &theme.dim);
    let adjusted = adjuster.adjust(&item_bg);
    let dim_pat = hex_chars(theme.dim);
    let adj_rep = hex_chars(adjusted);
    let src_chars = chars_of(src.full_text.as_str());
    let replaced = replace_all(&src_chars, &dim_pat, &adj_rep);
    let mut full_text = String::new();
    full_text.push(' ');
    let mid = string_from_chars(&replaced);
    full_text.append(mid.as_str());
    full_text.push(' ');
    proof {
        assert(full_text@ =~= seq![' '] + replaced@ + seq![' ']);
    }
    let color = if src.urgent {
        theme.bg
    } else {
        match &src.color {
            Some(c) => {
                if c.r == theme.dim.r && c.g == theme.dim.g && c.b == theme.dim.b {
                    adjusted
                } else {
                    *c
                }
            },
            None => band_fg,
        }
    };
    let mut extra = clone_extra(&src.extra);
    extra.push(("urgent".to_owned(), src.urgent));
    let r = I3Item {
        full_text,
        short_text: clone_opt_string(&src.short_text),
        color: Some(color),
        background_color: Some(item_bg),
        markup: src.markup,
        separator: false,
        separator_block_width_px: Some(0),
        urgent: false,
        instance: clone_opt_string(&src.instance),
        extra,
    };
    proof {
        assert(extra_view(r.extra@) =~= src@.extra.push(("urgent"@, src@.urgent)));
        assert(r@.full_text =~= seq![' '] + spec_replace(
            src@.full_text,
            hex_of(theme@.dim),
            hex_of(adjusted_dim(theme@, item_bg)),
        ) + seq![' ']);
        assert(r@ =~= (ItemModel {
            full_text: seq![' '] + spec_replace(
                src@.full_text,
                hex_of(theme@.dim),
                hex_of(adjusted_dim(theme@, item_bg)),
            ) + seq![' '],
            short_text: src@.short_text,
            color: Some(
                if src@.urgent {
                    theme@.bg
                } else if src@.color == Some(theme@.dim) {
                    adjusted_dim(theme@, item_bg)
                } else {
                    match src@.color {
                        Some(c) => c,
                        None => band_fg,
                    }
                },
            ),
            background_color: Some(item_bg),
            markup: src@.markup,
            separator: false,
            separator_block_width_px: Some(0),
            urgent: false,
            instance: src@.instance,
            extra: src@.extra.push(("urgent"@, src@.urgent)),
        }));
    }
    r
}

/// Serialization is a function of the bar state and theme alone:
/// serializing an unchanged bar twice with the same theme yields
/// identical output.
pub proof fn lemma_serialize_idempotent(
    items: Seq<ItemModel>,
    t: ThemeModel,
    s1: Seq<char>,
    s2: Seq<char>,
)
    requires
        s1 == bar_json(items, t),
        s2 == bar_json(items, t),
    ensures
        s1 == s2,
{
}

/// The band cursor start keeps the rightmost item stable: for any count
/// `n >= 1` of visible items, the last one is always assigned band 0.
pub proof fn lemma_last_band_stable(n: nat, l: nat)
    requires
        n >= 1,
        l >= 1,
    ensures
        band_index(n, n as int - 1, l) == 0,
{
    let li = l as int;
    let ni = n as int;
    let q = ni / li;
    lemma_fundamental_div_mod(ni, li);
    assert(li * (1 + q) == li + li * q && li * (1 + q) == (1 + q) * li) by (nonlinear_arith);
    assert(band_start(n, l) + (ni - 1) + 1 == li * (1 + q));
    lemma_mod_multiples_basic(1 + q, li);
}

/// A visible item in the dim colour is rendered in the adjusted colour,
/// never in dim itself: when dim is at least as bright as the theme
/// background in every channel, no channel sum clamps for this item's
/// background, and that background differs from the theme background,
/// the substitution cannot be a no-op.
pub proof fn lemma_dim_rendering(items: Seq<ItemModel>, t: ThemeModel, k: int)
    requires
        t.wf(),
        0 <= k < visible_models(items).len(),
        !visible_models(items)[k].urgent,
        visible_models(items)[k].color == Some(t.dim),
        t.bg.r <= t.dim.r,
        t.bg.g <= t.dim.g,
        t.bg.b <= t.dim.b,
        item_bg_at(t, visible_models(items), k).r + crate::color::abs_diff(t.dim.r, t.bg.r) <= 255,
        item_bg_at(t, visible_models(items), k).g + crate::color::abs_diff(t.dim.g, t.bg.g) <= 255,
        item_bg_at(t, visible_models(items), k).b + crate::color::abs_diff(t.dim.b, t.bg.b) <= 255,
        item_bg_at(t, visible_models(items), k) != t.bg,
    ensures
        powerline_models(items, t)[2 * k + 1].color == Some(
            adjusted_dim(t, item_bg_at(t, visible_models(items), k)),
        ),
        powerline_models(items, t)[2 * k + 1].color != Some(t.dim),
{
    let vis = visible_models(items);
    let pm = powerline_models(items, t);
    assert((2 * k + 1) % 2 == 1 && (2 * k + 1) / 2 == k) by (nonlinear_arith);
    assert(pm[2 * k + 1] == content_model(t, vis, k));
    crate::color::lemma_adjusted_dim_differs(t.bg, t.dim, item_bg_at(t, vis, k));
}

/// An urgent visible item is rendered with the theme background as its
/// foreground and the theme red as its background, its urgency is kept
/// retrievable in the extra data, and the urgent flag itself is cleared.
pub proof fn lemma_urgent_powerline(items: Seq<ItemModel>, t: ThemeModel, k: int)
    requires
        t.wf(),
        0 <= k < visible_models(items).len(),
        visible_models(items)[k].urgent,
    ensures
        powerline_models(items, t)[2 * k + 1].color == Some(t.bg),
        powerline_models(items, t)[2 * k + 1].background_color == Some(t.red),
        extra_lookup(powerline_models(items, t)[2 * k + 1].extra, "urgent"@) == Some(true),
        !powerline_models(items, t)[2 * k + 1].urgent,
{
    let vis = visible_models(items);
    let pm = powerline_models(items, t);
    assert((2 * k + 1) % 2 == 1 && (2 * k + 1) / 2 == k) by (nonlinear_arith);
    assert(pm[2 * k + 1] == content_model(t, vis, k));
    let m = content_model(t, vis, k);
    assert(m.extra.last() == ("urgent"@, true));
}

} // verus!
