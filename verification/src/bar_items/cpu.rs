//! The CPU load item: renders a sampled usage percentage.  Sampling
//! itself (and the rounding of the raw reading to a whole percentage)
//! happens outside this crate.

use vstd::prelude::*;
use crate::color::Rgb;
use crate::i3::{I3Item, I3Markup};
use crate::text::{dec_digits, u64_to_string};
use crate::theme::{Theme, ThemeModel};
use vstd::string::StringExecFns;

verus! {

/// Shows the global CPU usage, refreshed on a fixed interval.
#[derive(Clone, Copy, Debug)]
pub struct Cpu {
    /// How long the item sleeps between samples.
    pub interval_ms: u64,
}

/// The text the item shows for a usage percentage.
pub open spec fn cpu_text(pct: nat) -> Seq<char> {
    seq![' '] + dec_digits(pct) + seq!['%']
}

/// The warning colour for a usage percentage: red, orange and yellow
/// bands above 40%, none below.
pub open spec fn cpu_color(t: ThemeModel, pct: u64) -> Option<Rgb> {
    if 80 <= pct <= 100 {
        Some(t.red)
    } else if 60 <= pct <= 79 {
        Some(t.orange)
    } else if 40 <= pct <= 59 {
        Some(t.yellow)
    } else {
        None
    }
}

impl Cpu {
    /// The text shown for a whole usage percentage.
    pub fn get_full_text(&self, _theme: &Theme, pct: u64) -> (r: String)
        ensures
            r@ == cpu_text(pct as nat),
    {
        let mut s = String::new();
        s.push(' ');
        let digits = u64_to_string(pct);
        s.append(digits.as_str());
        s.push('%');
        proof {
            assert(s@ =~= cpu_text(pct as nat));
        }
        s
    }

    /// The warning colour for a usage percentage, if any.
    pub fn get_color(&self, theme: &Theme, pct: u64) -> (r: Option<Rgb>)
        ensures
            r == cpu_color(theme@, pct),
    {
        if 80 <= pct && pct <= 100 {
            Some(theme.red)
        } else if 60 <= pct && pct <= 79 {
            Some(theme.orange)
        } else if 40 <= pct && pct <= 59 {
            Some(theme.yellow)
        } else {
            None
        }
    }

    /// The item shown for one sample: the percentage text, pango markup,
    /// and the warning colour when usage is high.
    pub fn item(&self, theme: &Theme, pct: u64) -> (r: I3Item)
        ensures
            r@.full_text == cpu_text(pct as nat),
            r@.markup == I3Markup::Pango,
            r@.color == cpu_color(theme@, pct),
            r@.urgent == false,
            r@.background_color is None,
            r@.instance is None,
    {
        let item = I3Item::new(self.get_full_text(theme, pct)).markup(I3Markup::Pango);
        match self.get_color(theme, pct) {
            Some(fg) => item.color(fg),
            None => item,
        }
    }
}

} // verus!
