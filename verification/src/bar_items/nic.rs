//! The network item: cycles through the active interfaces that pass its
//! filters, one per page, and falls back to a `disconnected` notice.
//! Enumerating interfaces and watching the network manager happen
//! outside this crate; each cycle hands the current interface list in.

use vstd::prelude::*;
use vstd::string::StringExecFns;
use crate::format::{fraction, spec_fraction};
use crate::i3::{I3Item, I3Markup};
use crate::net::{filter_matches, Interface, InterfaceFilter};
use crate::theme::Theme;

verus! {

/// Shows the active network interfaces, filtered and paginated.
#[derive(Clone, Debug)]
pub struct Nic {
    /// How long the item sleeps between refreshes; absent means it waits
    /// for events alone.
    pub interval_ms: Option<u64>,
    /// Which interfaces to show, as `name`/`name:kind` selectors; empty
    /// means all.
    pub filter: Vec<InterfaceFilter>,
}

/// Whether an interface passes the configured filters: all pass when no
/// filter is set, otherwise any filter may select it.
pub open spec fn keep_interface(filters: Seq<InterfaceFilter>, i: Interface) -> bool {
    filters.len() == 0 || exists|j: int| 0 <= j < filters.len() && filter_matches(filters[j], i)
}

/// The interfaces that pass the filters, in their given order.
pub open spec fn filtered_interfaces(filters: Seq<InterfaceFilter>, s: Seq<Interface>) -> Seq<
    Interface,
>
    decreases s.len(),
{
    if s.len() == 0 {
        Seq::empty()
    } else if keep_interface(filters, s[0]) {
        seq![s[0]] + filtered_interfaces(filters, s.drop_first())
    } else {
        filtered_interfaces(filters, s.drop_first())
    }
}

fn matches_any(filters: &Vec<InterfaceFilter>, i: &Interface) -> (b: bool)
    ensures
        b == keep_interface(filters@, *i),
{
    if filters.len() == 0 {
        return true;
    }
    let mut j: usize = 0;
    while j < filters.len()
        invariant
            j <= filters@.len(),
            forall|x: int| 0 <= x < j ==> !filter_matches(filters@[x], *i),
        decreases filters@.len() - j,
    {
        if filters[j].matches(i) {
            return true;
        }
        j += 1;
    }
    false
}

impl Nic {
    /// The interfaces this item shows, in order: those passing its
    /// filters, or all of them when no filter is configured.
    pub fn matching_interfaces(&self, all: Vec<Interface>) -> (r: Vec<Interface>)
        ensures
            r@ == filtered_interfaces(self.filter@, all@),
    {
        let mut rest = all;
        let ghost orig = rest@;
        let mut r: Vec<Interface> = Vec::new();
        proof {
            assert(r@ + filtered_interfaces(self.filter@, orig) =~= filtered_interfaces(
                self.filter@,
                orig,
            ));
        }
        while rest.len() > 0
            invariant
                filtered_interfaces(self.filter@, orig) == r@ + filtered_interfaces(
                    self.filter@,
                    rest@,
                ),
            decreases rest@.len(),
        {
            let ghost before = rest@;
            let head = rest.remove(0);
            proof {
                assert(rest@ =~= before.drop_first());
                assert(head == before[0]);
            }
            if matches_any(&self.filter, &head) {
                r.push(head);
                proof {
                    assert(r@ + filtered_interfaces(self.filter@, rest@) =~= r@.drop_last()
                        + filtered_interfaces(self.filter@, before));
                }
            }
            proof {
                assert(filtered_interfaces(self.filter@, orig) == r@ + filtered_interfaces(
                    self.filter@,
                    rest@,
                ));
            }
        }
        proof {
            assert(filtered_interfaces(self.filter@, rest@) =~= Seq::<Interface>::empty());
            assert(filtered_interfaces(self.filter@, orig) =~= r@);
        }
        r
    }
}

/// The notice shown when no interface passes the filters.
pub fn disconnected_item(theme: &Theme) -> (r: I3Item)
    ensures
        r@.full_text == "disconnected"@,
        r@.color == Some(theme@.red),
        r@.urgent == false,
        r@.instance is None,
{
    I3Item::new("disconnected".to_owned()).color(theme.red)
}

/// The item for the interface currently paged in: its full span with a
/// pagination marker, its short span, pango markup.
pub fn interface_item(theme: &Theme, interface: &Interface, idx: usize, len: usize) -> (r: I3Item)
    requires
        idx < len,
    ensures
        r@.full_text == crate::net::interface_span_full(*interface, theme@) + spec_fraction(
            theme@,
            idx as nat + 1,
            len as nat,
        ),
        r@.short_text == Some(crate::net::interface_span_short(*interface, theme@)),
        r@.markup == I3Markup::Pango,
        r@.color is None,
        r@.urgent == false,
        r@.instance is None,
{
    let (full_span, short_span) = interface.format(theme);
    let marker = fraction(theme, idx + 1, len);
    let mut full = full_span;
    full.append(marker.as_str());
    I3Item::new(full).short_text(short_span).markup(I3Markup::Pango)
}

} // verus!
