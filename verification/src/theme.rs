//! The colour palette and powerline configuration of the bar, read-only
//! after load.

use vstd::prelude::*;
use crate::color::Rgb;

verus! {

/// One `{fg, bg}` pair of the powerline's cyclic palette.
#[derive(Clone, Copy, Debug, PartialEq, Eq, Structural)]
pub struct PowerlineBand {
    pub fg: Rgb,
    pub bg: Rgb,
}

/// The mathematical shape of a theme.
#[verifier::ext_equal]
pub struct ThemeModel {
    pub bg: Rgb,
    pub fg: Rgb,
    pub dim: Rgb,
    pub red: Rgb,
    pub orange: Rgb,
    pub yellow: Rgb,
    pub green: Rgb,
    pub powerline_enable: bool,
    pub powerline: Seq<PowerlineBand>,
    pub powerline_separator: Seq<char>,
}

impl ThemeModel {
    /// A usable theme has at least one powerline band.
    pub open spec fn wf(self) -> bool {
        self.powerline.len() >= 1
    }
}

/// Palette and powerline configuration; immutable after load and shared
/// by every task.
#[derive(Debug)]
pub struct Theme {
    pub bg: Rgb,
    pub fg: Rgb,
    pub dim: Rgb,
    pub red: Rgb,
    pub orange: Rgb,
    pub yellow: Rgb,
    pub green: Rgb,
    pub powerline_enable: bool,
    pub powerline: Vec<PowerlineBand>,
    pub powerline_separator: String,
}

impl View for Theme {
    type V = ThemeModel;

    open spec fn view(&self) -> ThemeModel {
        ThemeModel {
            bg: self.bg,
            fg: self.fg,
            dim: self.dim,
            red: self.red,
            orange: self.orange,
            yellow: self.yellow,
            green: self.green,
            powerline_enable: self.powerline_enable,
            powerline: self.powerline@,
            powerline_separator: self.powerline_separator@,
        }
    }
}

} // verus!
