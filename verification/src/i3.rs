//! The renderable state of one bar slot: text, colours and flags, in the
//! shape the i3/sway bar protocol expects.

use vstd::prelude::*;
use crate::color::Rgb;

verus! {

/// How the bar host should interpret the item's text.
#[derive(Clone, Copy, Debug, PartialEq, Eq, Structural)]
pub enum I3Markup {
    Plain,
    Pango,
}

/// The mathematical shape of an item: every text field as a character
/// sequence.  Contracts speak of this model.
#[verifier::ext_equal]
pub struct ItemModel {
    pub full_text: Seq<char>,
    pub short_text: Option<Seq<char>>,
    pub color: Option<Rgb>,
    pub background_color: Option<Rgb>,
    pub markup: I3Markup,
    pub separator: bool,
    pub separator_block_width_px: Option<u32>,
    pub urgent: bool,
    pub instance: Option<Seq<char>>,
    pub extra: Seq<(Seq<char>, bool)>,
}

/// The view of an optional string.
pub open spec fn opt_view(o: Option<String>) -> Option<Seq<char>> {
    match o {
        Some(s) => Some(s@),
        None => None,
    }
}

/// The view of the extra-data entries.
pub open spec fn extra_view(v: Seq<(String, bool)>) -> Seq<(Seq<char>, bool)> {
    Seq::new(v.len(), |i: int| (v[i].0@, v[i].1))
}

/// The value stored under `key`, the latest entry winning.
pub open spec fn extra_lookup(extra: Seq<(Seq<char>, bool)>, key: Seq<char>) -> Option<bool>
    decreases extra.len(),
{
    if extra.len() == 0 {
        None
    } else if extra.last().0 == key {
        Some(extra.last().1)
    } else {
        extra_lookup(extra.drop_last(), key)
    }
}

/// One rendered segment of the bar.
#[derive(Debug)]
pub struct I3Item {
    pub full_text: String,
    pub short_text: Option<String>,
    pub color: Option<Rgb>,
    pub background_color: Option<Rgb>,
    pub markup: I3Markup,
    pub separator: bool,
    pub separator_block_width_px: Option<u32>,
    pub urgent: bool,
    /// When the item is held by a `Bar`, this is the decimal string of its
    /// slot index; events are attributed back to the slot through it.
    pub instance: Option<String>,
    /// Implementation metadata, kept out of the host's way.
    pub extra: Vec<(String, bool)>,
}

impl View for I3Item {
    type V = ItemModel;

    open spec fn view(&self) -> ItemModel {
        ItemModel {
            full_text: self.full_text@,
            short_text: opt_view(self.short_text),
            color: self.color,
            background_color: self.background_color,
            markup: self.markup,
            separator: self.separator,
            separator_block_width_px: self.separator_block_width_px,
            urgent: self.urgent,
            instance: opt_view(self.instance),
            extra: extra_view(self.extra@),
        }
    }
}

impl DeepView for I3Item {
    type V = ItemModel;

    open spec fn deep_view(&self) -> ItemModel {
        self.view()
    }
}

/// The model of a freshly made item showing `full_text`.
pub open spec fn new_item_model(full_text: Seq<char>) -> ItemModel {
    ItemModel {
        full_text,
        short_text: None,
        color: None,
        background_color: None,
        markup: I3Markup::Plain,
        separator: true,
        separator_block_width_px: None,
        urgent: false,
        instance: None,
        extra: Seq::empty(),
    }
}

/// Copy an optional string.
pub fn clone_opt_string(o: &Option<String>) -> (r: Option<String>)
    ensures
        opt_view(r) == opt_view(*o),
{
    match o {
        Some(s) => Some(s.clone()),
        None => None,
    }
}

/// Copy the extra-data entries.
pub fn clone_extra(v: &Vec<(String, bool)>) -> (r: Vec<(String, bool)>)
    ensures
        extra_view(r@) == extra_view(v@),
{
    let mut r: Vec<(String, bool)> = Vec::new();
    let mut i: usize = 0;
    while i < v.len()
        invariant
            i <= v@.len(),
            r@.len() == i,
            forall|j: int|
                0 <= j < i ==> (#[trigger] r@[j]).0@ == v@[j].0@ && r@[j].1 == v@[j].1,
        decreases v@.len() - i,
    {
        let key = v[i].0.clone();
        let val = v[i].1;
        r.push((key, val));
        i += 1;
    }
    proof {
        assert forall|j: int| 0 <= j < v@.len() implies extra_view(r@)[j] == extra_view(
            v@,
        )[j] by {
            assert(r@[j].0@ == v@[j].0@ && r@[j].1 == v@[j].1);
        }
        assert(extra_view(r@) =~= extra_view(v@));
    }
    r
}

impl I3Item {
    /// A fresh item showing `full_text`, everything else at its default.
    pub fn new(full_text: String) -> (r: I3Item)
        ensures
            r@ == new_item_model(full_text@),
    {
        let r = I3Item {
            full_text,
            short_text: None,
            color: None,
            background_color: None,
            markup: I3Markup::Plain,
            separator: true,
            separator_block_width_px: None,
            urgent: false,
            instance: None,
            extra: Vec::new(),
        };
        proof {
            assert(extra_view(r.extra@) =~~= Seq::<(Seq<char>, bool)>::empty());
            assert(r@ =~~= new_item_model(r.full_text@));
        }
        r
    }

    /// The placeholder for a slot whose task has not rendered yet.
    pub fn empty() -> (r: I3Item)
        ensures
            r@ == new_item_model(Seq::<char>::empty()),
    {
        I3Item::new(String::new())
    }

    /// Empty items occupy a slot but are excluded from rendering.
    pub fn is_empty(&self) -> (b: bool)
        ensures
            b == (self@.full_text.len() == 0),
    {
        self.full_text.as_str().is_empty()
    }

    pub fn short_text(self, short_text: String) -> (r: I3Item)
        ensures
            r@ == (ItemModel { short_text: Some(short_text@), ..self@ }),
    {
        I3Item { short_text: Some(short_text), ..self }
    }

    pub fn color(self, color: Rgb) -> (r: I3Item)
        ensures
            r@ == (ItemModel { color: Some(color), ..self@ }),
    {
        I3Item { color: Some(color), ..self }
    }

    pub fn background_color(self, background_color: Rgb) -> (r: I3Item)
        ensures
            r@ == (ItemModel { background_color: Some(background_color), ..self@ }),
    {
        I3Item { background_color: Some(background_color), ..self }
    }

    pub fn markup(self, markup: I3Markup) -> (r: I3Item)
        ensures
            r@ == (ItemModel { markup, ..self@ }),
    {
        I3Item { markup, ..self }
    }

    pub fn separator(self, separator: bool) -> (r: I3Item)
        ensures
            r@ == (ItemModel { separator, ..self@ }),
    {
        I3Item { separator, ..self }
    }

    pub fn separator_block_width_px(self, px: u32) -> (r: I3Item)
        ensures
            r@ == (ItemModel { separator_block_width_px: Some(px), ..self@ }),
    {
        I3Item { separator_block_width_px: Some(px), ..self }
    }

    pub fn urgent(self, urgent: bool) -> (r: I3Item)
        ensures
            r@ == (ItemModel { urgent, ..self@ }),
    {
        I3Item { urgent, ..self }
    }

    pub fn instance(self, instance: String) -> (r: I3Item)
        ensures
            r@ == (ItemModel { instance: Some(instance@), ..self@ }),
    {
        I3Item { instance: Some(instance), ..self }
    }

    /// Record a metadata entry; a later entry for the same key wins.
    pub fn with_data(self, key: String, value: bool) -> (r: I3Item)
        ensures
            r@ == (ItemModel { extra: self@.extra.push((key@, value)), ..self@ }),
    {
        let ghost old_extra = self.extra@;
        let mut extra = self.extra;
        extra.push((key, value));
        let r = I3Item { extra, ..self };
        proof {
            assert(extra_view(r.extra@) =~~= extra_view(old_extra).push((r.extra@.last().0@, value)));
        }
        r
    }
}

} // verus!
