//! Protocol versioning.

use core::str::FromStr;
use vstd::prelude::*;

use crate::text::{
    all_digits, append_decimal, decimal, digit_char, digit_value, digits_value, is_digit,
    debug_str, debug_text, lemma_decimal_reads_back, owned, push_str,
};

verus! {

/// Semantic version of the client protocol, written as `"MAJOR.MINOR.PATCH"`.
#[derive(Debug, Clone, Copy, PartialEq, Eq, PartialOrd, Ord, Hash, Structural)]
pub struct ProtocolVersion {
    pub major: u64,
    pub minor: u64,
    pub patch: u64,
}

/// The protocol version implemented by this crate: 0.1.0.
pub open spec fn spec_protocol_version() -> ProtocolVersion {
    ProtocolVersion { major: 0, minor: 1, patch: 0 }
}

/// The protocol version implemented by this crate: 0.1.0.
pub fn protocol_version() -> (v: ProtocolVersion)
    ensures
        v == spec_protocol_version(),
{
    ProtocolVersion { major: 0, minor: 1, patch: 0 }
}

/// A string that is not `MAJOR.MINOR.PATCH` with decimal components.
#[derive(Debug, Clone, PartialEq, Eq)]
pub struct InvalidVersion(pub String);

impl InvalidVersion {
    /// The human-readable description of this error, with the text quoted.
    pub fn message(&self) -> (text: String)
        ensures
            text@ == "invalid protocol version "@ + debug_str(self.0@)
                + "; expected MAJOR.MINOR.PATCH"@,
    {
        let mut text = owned("invalid protocol version ");
        push_str(&mut text, debug_text(self.0.as_str()).as_str());
        push_str(&mut text, "; expected MAJOR.MINOR.PATCH");
        text
    }
}

/// `s` split at every `'.'`, as `str::split('.')` splits it: `n` dots give `n + 1` parts.
pub open spec fn split_dots(s: Seq<char>) -> Seq<Seq<char>>
    decreases s.len(),
{
    if s.len() == 0 {
        seq![Seq::<char>::empty()]
    } else {
        let parts = split_dots(s.drop_last());
        if s.last() == '.' {
            parts.push(Seq::<char>::empty())
        } else {
            parts.update(parts.len() - 1, parts.last().push(s.last()))
        }
    }
}

/// A semver core component: decimal digits, no sign, and no leading zeros.
pub open spec fn canonical_component(p: Seq<char>) -> bool {
    &&& p.len() > 0
    &&& all_digits(p)
    &&& (p == seq!['0'] || p[0] != '0')
}

/// The value of a component, if it is canonical and fits in a `u64`.
pub open spec fn component_value(p: Seq<char>) -> Option<u64> {
    if canonical_component(p) && digits_value(p) <= u64::MAX {
        Some(digits_value(p) as u64)
    } else {
        None
    }
}

/// The version that `s` denotes, if it is exactly three valid components joined by dots.
pub open spec fn parse_version(s: Seq<char>) -> Option<ProtocolVersion> {
    let parts = split_dots(s);
    if parts.len() == 3 && component_value(parts[0]) is Some && component_value(parts[1]) is Some
        && component_value(parts[2]) is Some {
        Some(
            ProtocolVersion {
                major: component_value(parts[0])->0,
                minor: component_value(parts[1])->0,
                patch: component_value(parts[2])->0,
            },
        )
    } else {
        None
    }
}

/// The text of a version: `MAJOR.MINOR.PATCH` in decimal.
pub open spec fn version_text(v: ProtocolVersion) -> Seq<char> {
    decimal(v.major as nat) + seq!['.'] + decimal(v.minor as nat) + seq!['.'] + decimal(
        v.patch as nat,
    )
}

/// What the parser knows of the component it is reading: its length, whether it is all
/// digits, whether it starts with `'0'`, and its value while that fits in a `u64`.
spec fn scan_state(p: Seq<char>, len: usize, digits: bool, lead_zero: bool, value: Option<u64>) -> bool {
    &&& len == p.len()
    &&& digits == all_digits(p)
    &&& lead_zero == (p.len() > 0 && p[0] == '0')
    &&& value == if all_digits(p) && digits_value(p) <= u64::MAX {
        Some(digits_value(p) as u64)
    } else {
        None::<u64>
    }
}

proof fn lemma_split_step(s: Seq<char>, i: int)
    requires
        0 <= i < s.len(),
    ensures
        s.take(i + 1).drop_last() == s.take(i),
        s.take(i + 1).last() == s[i],
        split_dots(s.take(i + 1)) == if s[i] == '.' {
            split_dots(s.take(i)).push(Seq::<char>::empty())
        } else {
            split_dots(s.take(i)).update(
                split_dots(s.take(i)).len() - 1,
                split_dots(s.take(i)).last().push(s[i]),
            )
        },
{
    assert(s.take(i + 1).drop_last() =~= s.take(i));
}

proof fn lemma_split_nonempty(s: Seq<char>)
    ensures
        split_dots(s).len() >= 1,
    decreases s.len(),
{
    if s.len() > 0 {
        lemma_split_nonempty(s.drop_last());
    }
}

proof fn lemma_finish_component(p: Seq<char>, len: usize, digits: bool, lead_zero: bool, value: Option<u64>)
    requires
        scan_state(p, len, digits, lead_zero, value),
    ensures
        component_value(p) == (if len > 0 && digits && (!lead_zero || len == 1) {
            value
        } else {
            None::<u64>
        }),
{
    if len == 1 && lead_zero {
        assert(p =~= seq!['0']);
    }
    if p == seq!['0'] {
        assert(p[0] == '0');
    }
}

proof fn lemma_digits_push(p: Seq<char>, c: char)
    ensures
        digits_value(p.push(c)) == digits_value(p) * 10 + digit_value(c),
        all_digits(p.push(c)) == (all_digits(p) && is_digit(c)),
{
    assert(p.push(c).drop_last() =~= p);
    if all_digits(p) && is_digit(c) {
        assert forall|i: int| 0 <= i < p.push(c).len() implies is_digit(#[trigger] p.push(c)[i]) by {
            if i < p.len() {
                assert(p.push(c)[i] == p[i]);
            }
        }
    }
    if all_digits(p.push(c)) {
        assert(is_digit(p.push(c)[p.len() as int]));
        assert forall|i: int| 0 <= i < p.len() implies is_digit(#[trigger] p[i]) by {
            assert(is_digit(p.push(c)[i]));
        }
    }
}

/// `split_dots` of a string extended by dot-free characters extends its last part.
proof fn lemma_split_append_free(x: Seq<char>, y: Seq<char>)
    requires
        forall|i: int| 0 <= i < y.len() ==> y[i] != '.',
    ensures
        split_dots(x + y) == split_dots(x).update(
            split_dots(x).len() - 1,
            split_dots(x).last() + y,
        ),
    decreases y.len(),
{
    lemma_split_nonempty(x);
    if y.len() == 0 {
        assert(x + y =~= x);
        assert(split_dots(x).last() + y =~= split_dots(x).last());
        assert(split_dots(x).update(split_dots(x).len() - 1, split_dots(x).last())
            =~= split_dots(x));
    } else {
        let y0 = y.drop_last();
        lemma_split_append_free(x, y0);
        assert((x + y).drop_last() =~= x + y0);
        assert((x + y).last() == y.last());
        let px = split_dots(x);
        let p0 = px.update(px.len() - 1, px.last() + y0);
        assert(split_dots(x + y) == p0.update(p0.len() - 1, p0.last().push(y.last())));
        assert(p0.last().push(y.last()) =~= px.last() + y);
        assert(p0.update(p0.len() - 1, p0.last().push(y.last())) =~= px.update(
            px.len() - 1,
            px.last() + y,
        ));
    }
}

proof fn lemma_decimal_dot_free(n: nat)
    ensures
        forall|i: int| 0 <= i < decimal(n).len() ==> decimal(n)[i] != '.',
{
    lemma_decimal_reads_back(n);
    assert forall|i: int| 0 <= i < decimal(n).len() implies decimal(n)[i] != '.' by {
        assert(is_digit(decimal(n)[i]));
    }
}

proof fn lemma_decimal_component(n: u64)
    ensures
        component_value(decimal(n as nat)) == Some(n),
{
    lemma_decimal_reads_back(n as nat);
}

impl ProtocolVersion {
    pub fn new(major: u64, minor: u64, patch: u64) -> (v: ProtocolVersion)
        ensures
            v == (ProtocolVersion { major, minor, patch }),
    {
        ProtocolVersion { major, minor, patch }
    }

    /// Whether a peer using `other` may communicate with this version.
    ///
    /// Only an exact match is accepted for now. Semver-based compatibility applies after 1.0.0.
    pub fn is_compatible_with(self, other: ProtocolVersion) -> (ok: bool)
        ensures
            ok == (self == other),
    {
        self.major == other.major && self.minor == other.minor && self.patch == other.patch
    }

    /// The version as `MAJOR.MINOR.PATCH`.
    pub fn to_version_string(&self) -> (s: String)
        ensures
            s@ == version_text(*self),
    {
        let mut s = String::new();
        append_decimal(&mut s, self.major);
        push_str(&mut s, ".");
        append_decimal(&mut s, self.minor);
        push_str(&mut s, ".");
        append_decimal(&mut s, self.patch);
        proof {
            reveal_strlit(".");
            assert(s@ =~= version_text(*self));
        }
        s
    }

    /// Parse `MAJOR.MINOR.PATCH`: exactly three dot-separated components, each a decimal
    /// integer with no sign and no leading zeros that fits in a `u64`.
    pub fn parse(s: &str) -> (result: Result<ProtocolVersion, InvalidVersion>)
        ensures
            parse_version(s@) matches Some(v) ==> result == Ok::<ProtocolVersion, InvalidVersion>(v),
            parse_version(s@) is None ==> (result matches Err(e) && e.0@ == s@),
    {
        let n = s.unicode_len();
        let mut dots: usize = 0;
        let mut first: Option<u64> = None;
        let mut second: Option<u64> = None;
        let mut len: usize = 0;
        let mut digits: bool = true;
        let mut lead_zero: bool = false;
        let mut value: Option<u64> = Some(0);
        let mut i: usize = 0;
        proof {
            assert(s@.take(0) =~= Seq::<char>::empty());
            assert(all_digits(Seq::<char>::empty()));
            assert(digits_value(Seq::<char>::empty()) == 0);
        }
        while i < n
            invariant
                n == s@.len(),
                i <= n,
                dots <= i,
                len <= i,
                split_dots(s@.take(i as int)).len() == dots + 1,
                dots >= 1 ==> first == component_value(split_dots(s@.take(i as int))[0]),
                dots >= 2 ==> second == component_value(split_dots(s@.take(i as int))[1]),
                scan_state(split_dots(s@.take(i as int)).last(), len, digits, lead_zero, value),
            decreases n - i,
        {
            let c = s.get_char(i);
            let ghost parts = split_dots(s@.take(i as int));
            proof {
                lemma_split_step(s@, i as int);
            }
            if c == '.' {
                proof {
                    lemma_finish_component(parts.last(), len, digits, lead_zero, value);
                }
                let component = if len > 0 && digits && (!lead_zero || len == 1) {
                    value
                } else {
                    None
                };
                if dots == 0 {
                    first = component;
                } else if dots == 1 {
                    second = component;
                }
                dots = dots + 1;
                len = 0;
                digits = true;
                lead_zero = false;
                value = Some(0);
                proof {
                    assert(all_digits(Seq::<char>::empty()));
                    assert(digits_value(Seq::<char>::empty()) == 0);
                }
            } else {
                let ghost p = parts.last();
                proof {
                    lemma_digits_push(p, c);
                    assert(p.push(c)[0] == if p.len() > 0 { p[0] } else { c });
                }
                let is_digit_char = '0' <= c && c <= '9';
                if len == 0 {
                    lead_zero = c == '0';
                }
                len = len + 1;
                digits = digits && is_digit_char;
                value = if digits {
                    match value {
                        Some(v) => {
                            let d = (c as u32 - '0' as u32) as u64;
                            assert(d == digit_value(c));
                            match v.checked_mul(10) {
                                Some(t) => t.checked_add(d),
                                None => None,
                            }
                        },
                        None => None,
                    }
                } else {
                    None
                };
                proof {
                    assert(parts.update(parts.len() - 1, p.push(c)).last() == p.push(c));
                }
            }
            i = i + 1;
        }
        proof {
            assert(s@.take(n as int) =~= s@);
            lemma_finish_component(split_dots(s@).last(), len, digits, lead_zero, value);
        }
        let third = if len > 0 && digits && (!lead_zero || len == 1) {
            value
        } else {
            None
        };
        if dots != 2 {
            return Err(InvalidVersion(s.to_owned()));
        }
        match (first, second, third) {
            (Some(major), Some(minor), Some(patch)) => Ok(ProtocolVersion { major, minor, patch }),
            _ => Err(InvalidVersion(s.to_owned())),
        }
    }
}

impl FromStr for ProtocolVersion {
    type Err = InvalidVersion;

    fn from_str(s: &str) -> (result: Result<ProtocolVersion, InvalidVersion>)
        ensures
            parse_version(s@) matches Some(v) ==> result == Ok::<ProtocolVersion, InvalidVersion>(v),
            parse_version(s@) is None ==> (result matches Err(e) && e.0@ == s@),
    {
        ProtocolVersion::parse(s)
    }
}

/// Writing a version and parsing the text gives the same version back.
pub proof fn lemma_version_text_parses_back(v: ProtocolVersion)
    ensures
        parse_version(version_text(v)) == Some(v),
{
    let a = decimal(v.major as nat);
    let b = decimal(v.minor as nat);
    let c = decimal(v.patch as nat);
    lemma_decimal_dot_free(v.major as nat);
    lemma_decimal_dot_free(v.minor as nat);
    lemma_decimal_dot_free(v.patch as nat);
    lemma_decimal_component(v.major);
    lemma_decimal_component(v.minor);
    lemma_decimal_component(v.patch);
    let e = Seq::<char>::empty();
    lemma_split_append_free(e, a);
    assert(split_dots(e) == seq![e]);
    assert(e + a =~= a);
    assert(split_dots(a) =~= seq![a]);
    let a1 = a + seq!['.'];
    assert(a1.drop_last() =~= a);
    assert(split_dots(a1) =~= seq![a, e]);
    lemma_split_append_free(a1, b);
    assert(e + b =~= b);
    assert(split_dots(a1 + b) =~= seq![a, b]);
    let b1 = a1 + b + seq!['.'];
    assert(b1.drop_last() =~= a1 + b);
    assert(split_dots(b1) =~= seq![a, b, e]);
    lemma_split_append_free(b1, c);
    assert(e + c =~= c);
    assert(split_dots(b1 + c) =~= seq![a, b, c]);
    assert(version_text(v) =~= b1 + c);
}

/// The parts of a split string joined again with dots.
spec fn join_dots(parts: Seq<Seq<char>>) -> Seq<char>
    decreases parts.len(),
{
    if parts.len() <= 1 {
        if parts.len() == 0 { Seq::empty() } else { parts[0] }
    } else {
        join_dots(parts.drop_last()) + seq!['.'] + parts.last()
    }
}

/// Replacing the last part replaces the text after the last dot.
proof fn lemma_join_last(parts: Seq<Seq<char>>, x: Seq<char>)
    requires
        parts.len() >= 1,
    ensures
        join_dots(parts.update(parts.len() - 1, x)) == join_dots(parts.drop_last())
            + (if parts.len() == 1 { Seq::<char>::empty() } else { seq!['.'] }) + x,
{
    let q = parts.update(parts.len() - 1, x);
    assert(q.drop_last() =~= parts.drop_last());
    if parts.len() == 1 {
        assert(join_dots(parts.drop_last()) =~= Seq::<char>::empty());
        assert(Seq::<char>::empty() + Seq::<char>::empty() + x =~= x);
    }
}

/// Splitting at the dots and joining with dots gives the text back.
proof fn lemma_split_joins_back(s: Seq<char>)
    ensures
        join_dots(split_dots(s)) == s,
    decreases s.len(),
{
    if s.len() > 0 {
        let t = s.drop_last();
        lemma_split_joins_back(t);
        lemma_split_nonempty(t);
        let ps = split_dots(t);
        if s.last() == '.' {
            assert(ps.push(Seq::<char>::empty()).drop_last() =~= ps);
            assert(t + seq!['.'] + Seq::<char>::empty() =~= s);
        } else {
            lemma_join_last(ps, ps.last().push(s.last()));
            lemma_join_last(ps, ps.last());
            assert(ps.update(ps.len() - 1, ps.last()) =~= ps);
            let sep = if ps.len() == 1 { Seq::<char>::empty() } else { seq!['.'] };
            assert(join_dots(ps.drop_last()) + sep + ps.last().push(s.last()) =~= (join_dots(
                ps.drop_last(),
            ) + sep + ps.last()).push(s.last()));
            assert(t.push(s.last()) =~= s);
        }
    }
}

/// A digit string with no leading zero (other than `"0"` itself) is the numeral of its value.
proof fn lemma_canonical_is_decimal(p: Seq<char>)
    requires
        canonical_component(p),
    ensures
        decimal(digits_value(p)) == p,
    decreases p.len(),
{
    if p.len() == 1 {
        assert(p.drop_last() =~= Seq::<char>::empty());
        assert(digits_value(p.drop_last()) == 0);
        assert(p.last() == p[0]);
        assert(digits_value(p) == digit_value(p[0]));
        assert(digit_char(digit_value(p[0])) == p[0]);
        assert(decimal(digits_value(p)) =~= p);
    } else {
        let q = p.drop_last();
        assert(q[0] == p[0]);
        assert(all_digits(q)) by {
            assert forall|i: int| 0 <= i < q.len() implies is_digit(#[trigger] q[i]) by {
                assert(q[i] == p[i]);
            }
        }
        assert(canonical_component(q)) by {
            if q == seq!['0'] {
                assert(p[0] == '0');
                assert(p[0] == q[0]);
                assert(p.len() > 1);
                assert(p != seq!['0']);
            }
        }
        lemma_canonical_is_decimal(q);
        lemma_leading_nonzero_positive(q);
        let d = digit_value(p.last());
        assert(is_digit(p[p.len() - 1]));
        assert(d < 10);
        let n = digits_value(p);
        assert(n == digits_value(q) * 10 + d);
        assert(n / 10 == digits_value(q) && n % 10 == d) by (nonlinear_arith)
            requires
                n == digits_value(q) * 10 + d,
                d < 10,
        ;
        assert(n >= 10);
        assert(digit_char(d) == p.last());
        assert(decimal(n) == q.push(p.last()));
        assert(q.push(p.last()) =~= p);
    }
}

/// A digit string that does not start with `'0'` has a positive value.
proof fn lemma_leading_nonzero_positive(p: Seq<char>)
    requires
        p.len() > 0,
        all_digits(p),
        p[0] != '0',
    ensures
        digits_value(p) >= 1,
    decreases p.len(),
{
    if p.len() == 1 {
        assert(is_digit(p[0]));
        assert(p.drop_last() =~= Seq::<char>::empty());
    } else {
        let q = p.drop_last();
        assert(q[0] == p[0]);
        assert forall|i: int| 0 <= i < q.len() implies is_digit(#[trigger] q[i]) by {
            assert(q[i] == p[i]);
        }
        lemma_leading_nonzero_positive(q);
    }
}

/// A text that parses as a version is exactly that version's text: parsing accepts only the
/// canonical form, with no leading zeros.
pub proof fn lemma_parsed_text_is_canonical(s: Seq<char>)
    requires
        parse_version(s) is Some,
    ensures
        version_text(parse_version(s)->0) == s,
{
    let parts = split_dots(s);
    let v = parse_version(s)->0;
    lemma_canonical_is_decimal(parts[0]);
    lemma_canonical_is_decimal(parts[1]);
    lemma_canonical_is_decimal(parts[2]);
    lemma_split_joins_back(s);
    assert(parts.drop_last().drop_last().len() == 1);
    assert(join_dots(parts.drop_last().drop_last()) == parts[0]);
    assert(join_dots(parts.drop_last()) == parts[0] + seq!['.'] + parts[1]);
    assert(version_text(v) =~= parts[0] + seq!['.'] + parts[1] + seq!['.'] + parts[2]);
}

} // verus!
