//! Text utilities shared by the rendering code: character extraction,
//! string building, decimal formatting and parsing, and substring
//! replacement.

use vstd::prelude::*;
use vstd::std_specs::iter::IteratorSpec;
use vstd::string::StringExecFns;

verus! {

/// Concatenation of sequences associates.
pub proof fn lemma_seq_add_assoc<A>(a: Seq<A>, b: Seq<A>, c: Seq<A>)
    ensures
        (a + b) + c == a + (b + c),
{
    assert((a + b) + c =~= a + (b + c));
}

/// The empty sequence is a right identity of concatenation.
pub proof fn lemma_seq_add_empty<A>(a: Seq<A>)
    ensures
        a + Seq::<A>::empty() == a,
{
    assert(a + Seq::<A>::empty() =~= a);
}

/// Relies on `String::push`: appends the given character to the string.
pub assume_specification[ String::push ](s: &mut String, c: char)
    ensures
        final(s)@ == old(s)@.push(c),
;

/// The characters of a string slice, in order.
pub fn chars_of(s: &str) -> (r: Vec<char>)
    ensures
        r@ == s@,
{
    broadcast use vstd::string::group_string_axioms;

    let mut it = s.chars();
    let mut r: Vec<char> = Vec::new();
    loop
        invariant
            it.obeys_prophetic_iter_laws(),
            it.decrease() is Some,
            r@ + it.remaining() == s@,
        ensures
            r@ == s@,
        decreases it.decrease()->0,
    {
        match it.next() {
            Some(c) => {
                r.push(c);
            },
            None => {
                proof {
                    assert(r@ =~= s@);
                }
                break ;
            },
        }
    }
    r
}

/// A string holding exactly the given characters.
pub fn string_from_chars(v: &Vec<char>) -> (s: String)
    ensures
        s@ == v@,
{
    let mut s = String::new();
    let mut i: usize = 0;
    while i < v.len()
        invariant
            i <= v@.len(),
            s@ == v@.subrange(0, i as int),
        decreases v@.len() - i,
    {
        s.push(v[i]);
        proof {
            assert(s@ =~= v@.subrange(0, i + 1 as int));
        }
        i += 1;
    }
    proof {
        assert(s@ =~= v@);
    }
    s
}

/// The character for one decimal digit.
pub open spec fn dec_digit(n: int) -> char {
    if n == 0 {
        '0'
    } else if n == 1 {
        '1'
    } else if n == 2 {
        '2'
    } else if n == 3 {
        '3'
    } else if n == 4 {
        '4'
    } else if n == 5 {
        '5'
    } else if n == 6 {
        '6'
    } else if n == 7 {
        '7'
    } else if n == 8 {
        '8'
    } else {
        '9'
    }
}

/// The decimal digits of `n`, most significant first, no leading zeros
/// (a single `0` for zero).
pub open spec fn dec_digits(n: nat) -> Seq<char>
    decreases n,
{
    if n < 10 {
        seq![dec_digit(n as int)]
    } else {
        dec_digits(n / 10) + seq![dec_digit((n % 10) as int)]
    }
}

fn dec_digit_char(n: u64) -> (c: char)
    requires
        n < 10,
    ensures
        c == dec_digit(n as int),
{
    match n {
        0 => '0',
        1 => '1',
        2 => '2',
        3 => '3',
        4 => '4',
        5 => '5',
        6 => '6',
        7 => '7',
        8 => '8',
        _ => '9',
    }
}

/// Append the decimal form of `n`.
pub fn push_u64(s: &mut String, n: u64)
    ensures
        final(s)@ == old(s)@ + dec_digits(n as nat),
    decreases n,
{
    if n >= 10 {
        push_u64(s, n / 10);
    }
    s.push(dec_digit_char(n % 10));
    proof {
        assert(final(s)@ =~= old(s)@ + dec_digits(n as nat));
    }
}

/// The decimal form of `n` as a string.
pub fn u64_to_string(n: u64) -> (s: String)
    ensures
        s@ == dec_digits(n as nat),
{
    let mut s = String::new();
    push_u64(&mut s, n);
    proof {
        assert(s@ =~= dec_digits(n as nat));
    }
    s
}

/// The value of a decimal digit character, `-1` for any other character.
pub open spec fn digit_val(c: char) -> int {
    if c == '0' {
        0
    } else if c == '1' {
        1
    } else if c == '2' {
        2
    } else if c == '3' {
        3
    } else if c == '4' {
        4
    } else if c == '5' {
        5
    } else if c == '6' {
        6
    } else if c == '7' {
        7
    } else if c == '8' {
        8
    } else if c == '9' {
        9
    } else {
        -1
    }
}

/// Every character is a decimal digit.
pub open spec fn all_digits(s: Seq<char>) -> bool {
    forall|i: int| 0 <= i < s.len() ==> digit_val(s[i]) >= 0
}

/// The numeric value of a digit string (unspecified mixture for
/// non-digit characters).
pub open spec fn dec_value(s: Seq<char>) -> int
    decreases s.len(),
{
    if s.len() == 0 {
        0
    } else {
        dec_value(s.drop_last()) * 10 + digit_val(s.last())
    }
}

/// What parsing a decimal string yields: the value when the string is
/// non-empty, all digits, and the value fits in `usize`; nothing
/// otherwise.
pub open spec fn spec_parse_usize(s: Seq<char>) -> Option<int> {
    if s.len() > 0 && all_digits(s) && dec_value(s) <= usize::MAX {
        Some(dec_value(s))
    } else {
        None
    }
}

proof fn lemma_dec_value_nonneg(s: Seq<char>)
    requires
        all_digits(s),
    ensures
        dec_value(s) >= 0,
    decreases s.len(),
{
    if s.len() > 0 {
        assert(all_digits(s.drop_last()));
        lemma_dec_value_nonneg(s.drop_last());
    }
}

proof fn lemma_dec_value_prefix_le(s: Seq<char>, i: int)
    requires
        all_digits(s),
        0 <= i <= s.len(),
    ensures
        dec_value(s.subrange(0, i)) <= dec_value(s),
    decreases s.len() - i,
{
    if i < s.len() {
        lemma_dec_value_prefix_le(s, i + 1);
        let p = s.subrange(0, i);
        let q = s.subrange(0, i + 1);
        assert(q.drop_last() =~= p);
        assert(all_digits(p));
        lemma_dec_value_nonneg(p);
        assert(dec_value(q) == dec_value(p) * 10 + digit_val(q.last()));
        assert(dec_value(p) * 10 >= dec_value(p)) by (nonlinear_arith)
            requires
                dec_value(p) >= 0,
        ;
    } else {
        assert(s.subrange(0, i) =~= s);
    }
}

/// Parse a decimal string; yields the value exactly when the characters
/// are all digits, there is at least one, and the value fits.
pub fn parse_usize(v: &Vec<char>) -> (r: Option<usize>)
    ensures
        match r {
            Some(n) => spec_parse_usize(v@) == Some(n as int),
            None => spec_parse_usize(v@) is None,
        },
{
    if v.len() == 0 {
        return None;
    }
    let mut acc: usize = 0;
    let mut i: usize = 0;
    while i < v.len()
        invariant
            0 < v@.len(),
            i <= v@.len(),
            all_digits(v@.subrange(0, i as int)),
            acc as int == dec_value(v@.subrange(0, i as int)),
        decreases v@.len() - i,
    {
        let d: u64 = match v[i] {
            '0' => 0,
            '1' => 1,
            '2' => 2,
            '3' => 3,
            '4' => 4,
            '5' => 5,
            '6' => 6,
            '7' => 7,
            '8' => 8,
            '9' => 9,
            _ => {
                assert(digit_val(v@[i as int]) < 0);
                return None;
            },
        };
        assert(digit_val(v@[i as int]) == d);
        let ghost p = v@.subrange(0, i as int);
        let ghost q = v@.subrange(0, i + 1 as int);
        proof {
            assert(q.drop_last() =~= p);
            assert(dec_value(q) == dec_value(p) * 10 + d);
        }
        if acc > (usize::MAX - d as usize) / 10 {
            // the running value already exceeds what fits
            proof {
                assert(acc as int * 10 + d > usize::MAX) by (nonlinear_arith)
                    requires
                        acc as int > (usize::MAX as int - d) / 10,
                        0 <= d < 10,
                        usize::MAX >= 9,
                ;
                if all_digits(v@) {
                    lemma_dec_value_prefix_le(v@, i + 1);
                    assert(dec_value(v@) > usize::MAX);
                }
            }
            return None;
        }
        proof {
            assert(acc as int * 10 + d <= usize::MAX) by (nonlinear_arith)
                requires
                    acc as int <= (usize::MAX as int - d) / 10,
                    0 <= d < 10,
                    acc >= 0,
            ;
        }
        acc = acc * 10 + d as usize;
        i += 1;
    }
    proof {
        assert(v@.subrange(0, v@.len() as int) =~= v@);
    }
    Some(acc)
}

proof fn lemma_dec_digits_value(n: nat)
    ensures
        all_digits(dec_digits(n)),
        dec_value(dec_digits(n)) == n,
        dec_digits(n).len() >= 1,
    decreases n,
{
    if n < 10 {
        assert(dec_value(seq![dec_digit(n as int)].drop_last()) == 0);
    } else {
        lemma_dec_digits_value(n / 10);
        let a = dec_digits(n / 10);
        let d = dec_digit((n % 10) as int);
        assert((a + seq![d]).drop_last() =~= a);
        assert((a + seq![d]).last() == d);
        assert(digit_val(d) == n % 10);
        vstd::arithmetic::div_mod::lemma_fundamental_div_mod(n as int, 10);
        assert forall|i: int| 0 <= i < (a + seq![d]).len() implies digit_val(
            #[trigger] (a + seq![d])[i],
        ) >= 0 by {
            if i < a.len() {
                assert((a + seq![d])[i] == a[i]);
            }
        }
    }
}

/// Decimal formatting and parsing are inverse: the digit string of any
/// index that fits parses back to that index.
pub proof fn lemma_decimal_roundtrip(n: nat)
    requires
        n <= usize::MAX,
    ensures
        spec_parse_usize(dec_digits(n)) == Some(n as int),
{
    lemma_dec_digits_value(n);
}

/// Does `s` hold `pat` starting at `at`?
fn matches_at(s: &Vec<char>, pat: &Vec<char>, at: usize) -> (b: bool)
    requires
        at + pat@.len() <= s@.len(),
    ensures
        b == (s@.subrange(at as int, at + pat@.len()) == pat@),
{
    let n = s.len();
    let mut j: usize = 0;
    while j < pat.len()
        invariant
            n == s@.len(),
            at + pat@.len() <= s@.len(),
            j <= pat@.len(),
            forall|k: int| 0 <= k < j ==> s@[at + k] == pat@[k],
        decreases pat@.len() - j,
    {
        if s[at + j] != pat[j] {
            proof {
                assert(s@.subrange(at as int, at + pat@.len())[j as int] != pat@[j as int]);
            }
            return false;
        }
        j += 1;
    }
    proof {
        assert(s@.subrange(at as int, at + pat@.len()) =~= pat@);
    }
    true
}

/// `s` with every occurrence of `pat` replaced by `rep`, scanning left to
/// right and never revisiting replaced text.
pub open spec fn spec_replace(s: Seq<char>, pat: Seq<char>, rep: Seq<char>) -> Seq<char>
    decreases s.len(),
{
    if s.len() == 0 {
        Seq::empty()
    } else if 0 < pat.len() <= s.len() && s.subrange(0, pat.len() as int) == pat {
        rep + spec_replace(s.skip(pat.len() as int), pat, rep)
    } else {
        seq![s[0]] + spec_replace(s.drop_first(), pat, rep)
    }
}

/// Replace every occurrence of `pat` in `s` by `rep`.
pub fn replace_all(s: &Vec<char>, pat: &Vec<char>, rep: &Vec<char>) -> (r: Vec<char>)
    requires
        pat@.len() > 0,
    ensures
        r@ == spec_replace(s@, pat@, rep@),
{
    let mut r: Vec<char> = Vec::new();
    let mut i: usize = 0;
    proof {
        assert(s@.skip(0) =~= s@);
        assert(r@ + spec_replace(s@, pat@, rep@) =~= spec_replace(s@, pat@, rep@));
    }
    while i < s.len()
        invariant
            pat@.len() > 0,
            i <= s@.len(),
            spec_replace(s@, pat@, rep@) == r@ + spec_replace(s@.skip(i as int), pat@, rep@),
        decreases s@.len() - i,
    {
        let ghost rest = s@.skip(i as int);
        if pat.len() <= s.len() - i && matches_at(s, pat, i) {
            proof {
                assert(rest.subrange(0, pat@.len() as int) =~= s@.subrange(
                    i as int,
                    i + pat@.len(),
                ));
                assert(rest.skip(pat@.len() as int) =~= s@.skip(i + pat@.len()));
                assert(spec_replace(rest, pat@, rep@) == rep@ + spec_replace(
                    s@.skip(i + pat@.len()),
                    pat@,
                    rep@,
                ));
            }
            let mut j: usize = 0;
            let ghost r0 = r@;
            while j < rep.len()
                invariant
                    j <= rep@.len(),
                    r@ == r0 + rep@.subrange(0, j as int),
                decreases rep@.len() - j,
            {
                r.push(rep[j]);
                proof {
                    assert(r@ =~= r0 + rep@.subrange(0, j + 1 as int));
                }
                j += 1;
            }
            proof {
                assert(rep@.subrange(0, rep@.len() as int) =~= rep@);
                assert(r@ + spec_replace(s@.skip(i + pat@.len()), pat@, rep@) =~= r0 + spec_replace(
                    rest,
                    pat@,
                    rep@,
                ));
            }
            i += pat.len();
        } else {
            proof {
                assert(rest.len() > 0);
                assert(rest[0] == s@[i as int]);
                if 0 < pat@.len() <= rest.len() {
                    assert(rest.subrange(0, pat@.len() as int) =~= s@.subrange(
                        i as int,
                        i + pat@.len(),
                    ));
                }
                assert(spec_replace(rest, pat@, rep@) == seq![s@[i as int]] + spec_replace(
                    rest.drop_first(),
                    pat@,
                    rep@,
                ));
                assert(rest.drop_first() =~= s@.skip(i + 1));
            }
            r.push(s[i]);
            proof {
                assert(r@ + spec_replace(s@.skip(i + 1), pat@, rep@) =~= (r@.drop_last()
                    + spec_replace(rest, pat@, rep@)));
            }
            i += 1;
        }
    }
    proof {
        assert(s@.skip(s@.len() as int) =~= Seq::<char>::empty());
        assert(r@ =~= spec_replace(s@, pat@, rep@));
    }
    r
}

} // verus!
