//! Network interface state as plain values, and the pango rendering the
//! network item shows.  Probing the system for interfaces and wireless
//! quality happens outside this crate; the results are handed in here.

use vstd::prelude::*;
use vstd::string::StringExecFns;
use crate::color::{hex_chars, hex_of, Rgb};
use crate::text::{chars_of, dec_digits, push_u64, string_from_chars};
use crate::theme::{Theme, ThemeModel};

verus! {

/// Which address family an interface address belongs to.
#[derive(Clone, Copy, Debug, PartialEq, Eq, Structural)]
pub enum InterfaceKind {
    V4,
    V6,
}

/// The text form of an address kind.
pub open spec fn kind_str(k: InterfaceKind) -> Seq<char> {
    match k {
        InterfaceKind::V4 => "v4"@,
        InterfaceKind::V6 => "v6"@,
    }
}

impl InterfaceKind {
    pub fn as_str(&self) -> (r: &'static str)
        ensures
            r@ == kind_str(*self),
    {
        match self {
            InterfaceKind::V4 => "v4",
            InterfaceKind::V6 => "v6",
        }
    }
}

/// What a wireless probe reports: link quality and network name.
#[derive(Clone, Debug)]
pub struct WirelessInfo {
    pub quality: u8,
    pub essid: String,
}

/// One network interface with one of its addresses, plus the wireless
/// state of the underlying device if it has any.
#[derive(Clone, Debug)]
pub struct Interface {
    pub name: String,
    pub addr: String,
    pub kind: InterfaceKind,
    pub wireless: Option<WirelessInfo>,
}

/// The colour grading of wireless link quality.
pub open spec fn quality_color(t: ThemeModel, q: u8) -> Rgb {
    if q >= 80 {
        t.green
    } else if q >= 60 {
        t.yellow
    } else if q >= 40 {
        t.orange
    } else {
        t.red
    }
}

/// The wireless status text: `(addr) q% at essid`.
pub open spec fn wireless_text(addr: Seq<char>, q: u8, essid: Seq<char>) -> Seq<char> {
    seq!['('] + addr + ") "@ + dec_digits(q as nat) + "% at "@ + essid
}

/// The wired status text: `(addr)`.
pub open spec fn normal_text(addr: Seq<char>) -> Seq<char> {
    seq!['('] + addr + seq![')']
}

/// The pango foreground attribute for a colour.
pub open spec fn fg_attr(c: Rgb) -> Seq<char> {
    " foreground=\""@ + hex_of(c) + seq!['"']
}

/// The foreground an interface is shown with.
pub open spec fn interface_color(i: Interface, t: ThemeModel) -> Rgb {
    match i.wireless {
        Some(w) => quality_color(t, w.quality),
        None => t.green,
    }
}

/// The status text of an interface (without markup).
pub open spec fn interface_text(i: Interface) -> Seq<char> {
    match i.wireless {
        Some(w) => wireless_text(i.addr@, w.quality, w.essid@),
        None => normal_text(i.addr@),
    }
}

/// The full pango span: name and status, coloured by link state.
pub open spec fn interface_span_full(i: Interface, t: ThemeModel) -> Seq<char> {
    "<span"@ + fg_attr(interface_color(i, t)) + seq!['>'] + i.name@ + interface_text(i)
        + "</span>"@
}

/// The short pango span: the name alone, in the same colour.
pub open spec fn interface_span_short(i: Interface, t: ThemeModel) -> Seq<char> {
    "<span"@ + fg_attr(interface_color(i, t)) + seq!['>'] + i.name@ + "</span>"@
}

impl Interface {
    /// The status text and colour for a wireless interface.
    pub fn format_wireless(&self, w: &WirelessInfo, theme: &Theme) -> (r: (String, Option<Rgb>))
        ensures
            r.0@ == wireless_text(self.addr@, w.quality, w.essid@),
            r.1 == Some(quality_color(theme@, w.quality)),
    {
        let fg = if w.quality >= 80 {
            theme.green
        } else if w.quality >= 60 {
            theme.yellow
        } else if w.quality >= 40 {
            theme.orange
        } else {
            theme.red
        };
        let mut s = String::new();
        s.push('(');
        s.append(self.addr.as_str());
        s.append(") ");
        push_u64(&mut s, w.quality as u64);
        s.append("% at ");
        s.append(w.essid.as_str());
        proof {
            assert(s@ =~= wireless_text(self.addr@, w.quality, w.essid@));
        }
        (s, Some(fg))
    }

    /// The status text and colour for a wired interface.
    pub fn format_normal(&self, theme: &Theme) -> (r: (String, Option<Rgb>))
        ensures
            r.0@ == normal_text(self.addr@),
            r.1 == Some(theme@.green),
    {
        let mut s = String::new();
        s.push('(');
        s.append(self.addr.as_str());
        s.push(')');
        proof {
            assert(s@ =~= normal_text(self.addr@));
        }
        (s, Some(theme.green))
    }

    /// The full and short pango spans this interface is shown as.
    pub fn format(&self, theme: &Theme) -> (r: (String, String))
        ensures
            r.0@ == interface_span_full(*self, theme@),
            r.1@ == interface_span_short(*self, theme@),
    {
        let (addr, fg) = match &self.wireless {
            Some(w) => self.format_wireless(w, theme),
            None => self.format_normal(theme),
        };
        let mut attr = String::new();
        match fg {
            Some(c) => {
                attr.append(" foreground=\"");
                let hex = string_from_chars(&hex_chars(c));
                attr.append(hex.as_str());
                attr.push('"');
            },
            None => {},
        }
        proof {
            assert(attr@ =~= fg_attr(interface_color(*self, theme@)));
        }
        let mut full = String::new();
        full.append("<span");
        full.append(attr.as_str());
        full.push('>');
        full.append(self.name.as_str());
        full.append(addr.as_str());
        full.append("</span>");
        proof {
            assert(full@ =~= interface_span_full(*self, theme@));
        }
        let mut short = String::new();
        short.append("<span");
        short.append(attr.as_str());
        short.push('>');
        short.append(self.name.as_str());
        short.append("</span>");
        proof {
            assert(short@ =~= interface_span_short(*self, theme@));
        }
        (full, short)
    }
}

/// Selects interfaces by name and, optionally, address kind.  An empty
/// name matches every interface.
#[derive(Clone, Debug, PartialEq, Eq)]
pub struct InterfaceFilter {
    pub name: String,
    pub kind: Option<InterfaceKind>,
}

/// Whether a filter selects an interface.
pub open spec fn filter_matches(f: InterfaceFilter, i: Interface) -> bool {
    (f.name@.len() == 0 || f.name@ == i.name@) && (match f.kind {
        None => true,
        Some(k) => k == i.kind,
    })
}

/// The text form of a filter: `name` or `name:kind`.
pub open spec fn filter_str(f: InterfaceFilter) -> Seq<char> {
    match f.kind {
        Some(k) => f.name@ + seq![':'] + kind_str(k),
        None => f.name@,
    }
}

/// The index of the first `:`, or `-1` when there is none.
pub open spec fn find_colon(s: Seq<char>) -> int
    decreases s.len(),
{
    if s.len() == 0 {
        -1
    } else if s[0] == ':' {
        0
    } else {
        let r = find_colon(s.drop_first());
        if r < 0 {
            -1
        } else {
            r + 1
        }
    }
}

/// The failure of reading a filter from text: the part after the `:`
/// names no known address kind.
#[derive(Clone, Copy, Debug, PartialEq, Eq, Structural)]
pub enum FilterParseError {
    UnknownKind,
}

impl FilterParseError {
    /// A human-readable description of the failure.
    pub fn message(&self) -> (r: &'static str)
        ensures
            r@ == "invalid interface kind"@,
    {
        "invalid interface kind"
    }
}

impl InterfaceFilter {
    /// A filter for `name` (empty: any interface) and optionally a kind.
    pub fn new(name: &str, kind: Option<InterfaceKind>) -> (r: InterfaceFilter)
        ensures
            r.name@ == name@,
            r.kind == kind,
    {
        InterfaceFilter { name: name.to_owned(), kind }
    }

    /// Does this filter select `interface`?
    pub fn matches(&self, interface: &Interface) -> (b: bool)
        ensures
            b == filter_matches(*self, *interface),
    {
        let name_match = if self.name.as_str().is_empty() {
            true
        } else {
            self.name == interface.name
        };
        match self.kind {
            None => name_match,
            Some(k) => name_match && match interface.kind {
                InterfaceKind::V4 => k == InterfaceKind::V4,
                InterfaceKind::V6 => k == InterfaceKind::V6,
            },
        }
    }

    /// The text form: `name`, or `name:kind` when a kind is set.
    pub fn to_string(&self) -> (r: String)
        ensures
            r@ == filter_str(*self),
    {
        let mut s = self.name.clone();
        match self.kind {
            Some(k) => {
                s.push(':');
                s.append(k.as_str());
                proof {
                    assert(s@ =~= filter_str(*self));
                }
            },
            None => {},
        }
        s
    }

    /// Read a filter back from its text form: everything before the
    /// first `:` is the name; after it, only `v4` and `v6` are kinds.
    /// Without a `:` the whole text is the name, with no kind.
    pub fn from_str(s: &str) -> (r: Result<InterfaceFilter, FilterParseError>)
        ensures
            match r {
                Ok(f) => {
                    if find_colon(s@) < 0 {
                        f.name@ == s@ && f.kind is None
                    } else {
                        let ci = find_colon(s@);
                        let rest = s@.skip(ci + 1);
                        &&& f.name@ == s@.subrange(0, ci)
                        &&& ((rest == "v4"@ && f.kind == Some(InterfaceKind::V4)) || (rest == "v6"@
                            && f.kind == Some(InterfaceKind::V6)))
                    }
                },
                Err(e) => {
                    &&& find_colon(s@) >= 0
                    &&& s@.skip(find_colon(s@) + 1) != "v4"@
                    &&& s@.skip(find_colon(s@) + 1) != "v6"@
                    &&& e == FilterParseError::UnknownKind
                },
            },
    {
        let v = chars_of(s);
        let n = v.len();
        let mut i: usize = 0;
        loop
            invariant
                n == v@.len(),
                v@ == s@,
                i <= n,
                forall|j: int| 0 <= j < i ==> s@[j] != ':',
            ensures
                i <= n,
                forall|j: int| 0 <= j < i ==> s@[j] != ':',
                i < n ==> s@[i as int] == ':',
            decreases n - i,
        {
            if i >= n {
                break ;
            }
            if v[i] == ':' {
                break ;
            }
            i += 1;
        }
        proof {
            lemma_find_colon_at(s@, i as int);
        }
        if i == n {
            // no delimiter: the whole text is the name
            return Ok(InterfaceFilter { name: s.to_owned(), kind: None });
        }
        let ghost ci = i as int;
        let mut name_chars: Vec<char> = Vec::new();
        let mut j: usize = 0;
        while j < i
            invariant
                j <= i,
                i < n,
                n == v@.len(),
                v@ == s@,
                name_chars@ == s@.subrange(0, j as int),
            decreases i - j,
        {
            name_chars.push(v[j]);
            proof {
                assert(name_chars@ =~= s@.subrange(0, j + 1 as int));
            }
            j += 1;
        }
        let name = string_from_chars(&name_chars);
        let rem = n - i - 1;
        proof {
            reveal_strlit("v4");
            reveal_strlit("v6");
        }
        let kind = if rem == 2 && v[i + 1] == 'v' && v[i + 2] == '4' {
            proof {
                assert(s@.skip(ci + 1) =~= "v4"@);
            }
            InterfaceKind::V4
        } else if rem == 2 && v[i + 1] == 'v' && v[i + 2] == '6' {
            proof {
                assert(s@.skip(ci + 1) =~= "v6"@);
            }
            InterfaceKind::V6
        } else {
            proof {
                let rest = s@.skip(ci + 1);
                assert(rest.len() == rem);
                if rest == "v4"@ || rest == "v6"@ {
                    assert(rest.len() == 2);
                    assert(rest[0] == s@[ci + 1] && rest[1] == s@[ci + 2]);
                    assert(false);
                }
            }
            return Err(FilterParseError::UnknownKind);
        };
        Ok(InterfaceFilter { name, kind: Some(kind) })
    }
}

/// Pin down `find_colon` from what a left-to-right scan saw: no colon
/// among the first `i` characters, and one at `i` unless the text ended.
proof fn lemma_find_colon_at(s: Seq<char>, i: int)
    requires
        0 <= i <= s.len(),
        forall|j: int| 0 <= j < i ==> s[j] != ':',
        i < s.len() ==> s[i] == ':',
    ensures
        i < s.len() ==> find_colon(s) == i,
        i == s.len() ==> find_colon(s) < 0,
    decreases s.len(),
{
    if s.len() == 0 {
    } else if s[0] == ':' {
    } else {
        assert(i >= 1);
        lemma_find_colon_at(s.drop_first(), i - 1);
    }
}

} // verus!
