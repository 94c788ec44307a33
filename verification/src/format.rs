//! Small text formatting helpers shared by bar items.

use vstd::prelude::*;
use vstd::string::StringExecFns;
use crate::color::{hex_chars, hex_of};
use crate::text::{dec_digits, push_u64, string_from_chars};
use crate::theme::{Theme, ThemeModel};

verus! {

/// A pagination marker like `2/5`, dimly coloured, with a leading
/// space; empty when there is at most one page.
pub open spec fn spec_fraction(t: ThemeModel, num: nat, den: nat) -> Seq<char> {
    if den <= 1 {
        Seq::empty()
    } else {
        " <span foreground=\""@ + hex_of(t.dim) + "\">"@ + dec_digits(num) + seq!['/'] + dec_digits(
            den,
        ) + "</span>"@
    }
}

/// Render the `num/den` pagination marker in the theme's dim colour.
pub fn fraction(theme: &Theme, num: usize, den: usize) -> (r: String)
    ensures
        r@ == spec_fraction(theme@, num as nat, den as nat),
{
    let mut r = String::new();
    if den <= 1 {
        return r;
    }
    r.append(" <span foreground=\"");
    let hex = string_from_chars(&hex_chars(theme.dim));
    r.append(hex.as_str());
    r.append("\">");
    push_u64(&mut r, num as u64);
    r.push('/');
    push_u64(&mut r, den as u64);
    r.append("</span>");
    proof {
        assert(r@ =~= spec_fraction(theme@, num as nat, den as nat));
    }
    r
}

} // verus!
