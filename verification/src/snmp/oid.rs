//! Object identifiers: the canned OID of the PDU template, their ordering,
//! and parsing of dotted OID strings.

use crate::snmp::store::OidValues;
use vstd::prelude::*;

verus! {

/// input_current OID components (1.3.6.1.4.1.1718.4.1.3.3.1.7).
pub const OID_INPUT_CURRENT: [u32; 13] = [1, 3, 6, 1, 4, 1, 1718, 4, 1, 3, 3, 1, 7];

/// The input-current OID of the intelligent PDU template,
/// 1.3.6.1.4.1.1718.4.1.3.3.1.7 (deci-amps).
pub open spec fn input_current_oid() -> Seq<u32> {
    seq![1u32, 3, 6, 1, 4, 1, 1718, 4, 1, 3, 3, 1, 7]
}

/// The input-current OID as a vector of components.
pub fn oid_input_current() -> (oid: Vec<u32>)
    ensures
        oid@ == input_current_oid(),
{
    let arcs = OID_INPUT_CURRENT;
    let mut oid: Vec<u32> = Vec::new();
    let mut i: usize = 0;
    while i < 13
        invariant
            i <= 13,
            arcs@ == input_current_oid(),
            oid@ =~= input_current_oid().take(i as int),
        decreases 13 - i,
    {
        oid.push(arcs[i]);
        i = i + 1;
    }
    proof {
        assert(input_current_oid().take(13) =~= input_current_oid());
    }
    oid
}

/// The initial OID values: the input current at 100.
pub fn initial_values() -> (m: OidValues)
    ensures
        m.view() == map![input_current_oid() => 100i64],
{
    let mut m = OidValues::new();
    m.insert(oid_input_current(), 100);
    proof {
        assert(m.view() =~= map![input_current_oid() => 100i64]);
    }
    m
}

/// Lexicographic order of OIDs, component by component; a proper prefix
/// comes first.
pub open spec fn oid_lt(a: Seq<u32>, b: Seq<u32>) -> bool
    decreases a.len(),
{
    if a.len() == 0 {
        b.len() > 0
    } else if b.len() == 0 {
        false
    } else if a[0] != b[0] {
        a[0] < b[0]
    } else {
        oid_lt(a.drop_first(), b.drop_first())
    }
}

/// No OID precedes itself.
pub proof fn oid_lt_irreflexive(a: Seq<u32>)
    ensures
        !oid_lt(a, a),
    decreases a.len(),
{
    if a.len() > 0 {
        oid_lt_irreflexive(a.drop_first());
    }
}

/// The OID order is transitive.
pub proof fn oid_lt_transitive(a: Seq<u32>, b: Seq<u32>, c: Seq<u32>)
    requires
        oid_lt(a, b),
        oid_lt(b, c),
    ensures
        oid_lt(a, c),
    decreases a.len(),
{
    if a.len() > 0 && b.len() > 0 && c.len() > 0 && a[0] == b[0] && b[0] == c[0] {
        oid_lt_transitive(a.drop_first(), b.drop_first(), c.drop_first());
    }
}

/// Any two distinct OIDs are ordered one way or the other.
pub proof fn oid_lt_total(a: Seq<u32>, b: Seq<u32>)
    requires
        a != b,
    ensures
        oid_lt(a, b) || oid_lt(b, a),
    decreases a.len(),
{
    if a.len() == 0 {
        assert(b.len() > 0) by {
            if b.len() == 0 {
                assert(a =~= b);
            }
        }
    } else if b.len() > 0 && a[0] == b[0] {
        if a.drop_first() == b.drop_first() {
            assert(a =~= seq![a[0]] + a.drop_first());
            assert(b =~= seq![b[0]] + b.drop_first());
        }
        oid_lt_total(a.drop_first(), b.drop_first());
    }
}

/// Whether `a` comes strictly before `b` in OID order.
pub fn oid_less(a: &Vec<u32>, b: &Vec<u32>) -> (r: bool)
    ensures
        r == oid_lt(a@, b@),
{
    let mut i: usize = 0;
    proof {
        assert(a@.skip(0) =~= a@);
        assert(b@.skip(0) =~= b@);
    }
    while i < a.len() && i < b.len() && a[i] == b[i]
        invariant
            i <= a.len(),
            i <= b.len(),
            oid_lt(a@, b@) == oid_lt(a@.skip(i as int), b@.skip(i as int)),
        decreases a.len() - i,
    {
        proof {
            assert(a@.skip(i as int).drop_first() =~= a@.skip(i as int + 1));
            assert(b@.skip(i as int).drop_first() =~= b@.skip(i as int + 1));
        }
        i = i + 1;
    }
    if i == a.len() {
        i < b.len()
    } else if i == b.len() {
        false
    } else {
        a[i] < b[i]
    }
}

/// Value of a decimal digit character.
pub open spec fn digit_value(c: char) -> int {
    (c as int) - ('0' as int)
}

/// Whether a character is a decimal digit.
pub open spec fn is_digit(c: char) -> bool {
    '0' <= c && c <= '9'
}

/// Value of a string of decimal digits.
pub open spec fn decimal_value(d: Seq<char>) -> int
    decreases d.len(),
{
    if d.len() == 0 {
        0
    } else {
        decimal_value(d.drop_last()) * 10 + digit_value(d.last())
    }
}

/// The digits of an unsigned integer literal: an optional leading `+`
/// is dropped.
pub open spec fn unsigned_digits(p: Seq<char>) -> Seq<char> {
    if p.len() > 0 && p[0] == '+' {
        p.drop_first()
    } else {
        p
    }
}

/// How a `u32` is read from a decimal string: an optional `+`, then one
/// or more digits, with a value that fits in 32 bits.
pub open spec fn parse_u32_spec(p: Seq<char>) -> Option<u32> {
    let d = unsigned_digits(p);
    if d.len() == 0 || exists|i: int| 0 <= i < d.len() && !is_digit(#[trigger] d[i]) {
        None
    } else if decimal_value(d) > u32::MAX {
        None
    } else {
        Some(decimal_value(d) as u32)
    }
}

/// The pieces of `s` between dots, in order (`n` dots give `n + 1`
/// pieces, possibly empty).
pub open spec fn split_dots(s: Seq<char>) -> Seq<Seq<char>>
    decreases s.len(),
{
    if s.len() == 0 {
        seq![Seq::<char>::empty()]
    } else {
        let p = split_dots(s.drop_last());
        if s.last() == '.' {
            p.push(Seq::<char>::empty())
        } else {
            p.update(p.len() - 1, p.last().push(s.last()))
        }
    }
}

/// A dotted OID string's components, when every piece reads as a `u32`.
pub open spec fn parse_oid_spec(s: Seq<char>) -> Option<Seq<u32>> {
    let parts = split_dots(s);
    if forall|i: int| 0 <= i < parts.len() ==> #[trigger] parse_u32_spec(parts[i]) is Some {
        Some(parts.map_values(|p: Seq<char>| parse_u32_spec(p)->0))
    } else {
        None
    }
}

proof fn lemma_decimal_monotone(d: Seq<char>, j: int, k: int)
    requires
        0 <= j <= k <= d.len(),
        forall|i: int| 0 <= i < d.len() ==> is_digit(#[trigger] d[i]),
    ensures
        decimal_value(d.take(j)) <= decimal_value(d.take(k)),
    decreases k - j,
{
    if j < k {
        lemma_decimal_monotone(d, j, k - 1);
        assert(d.take(k).drop_last() =~= d.take(k - 1));
        assert(decimal_value(d.take(k - 1)) >= 0) by {
            lemma_decimal_nonneg(d.take(k - 1));
        }
    }
}

proof fn lemma_decimal_nonneg(d: Seq<char>)
    requires
        forall|i: int| 0 <= i < d.len() ==> is_digit(#[trigger] d[i]),
    ensures
        decimal_value(d) >= 0,
    decreases d.len(),
{
    if d.len() > 0 {
        lemma_decimal_nonneg(d.drop_last());
    }
}

/// Read a `u32` from a decimal string, as `str::parse::<u32>` does.
pub fn parse_u32(p: &Vec<char>) -> (r: Option<u32>)
    ensures
        r == parse_u32_spec(p@),
{
    let ghost d = unsigned_digits(p@);
    let start: usize = if p.len() > 0 && p[0] == '+' {
        1
    } else {
        0
    };
    proof {
        assert(d =~= p@.skip(start as int));
    }
    if start == p.len() {
        return None;
    }
    let mut acc: u64 = 0;
    let mut i: usize = start;
    while i < p.len()
        invariant
            start <= i <= p.len(),
            d == unsigned_digits(p@),
            d =~= p@.skip(start as int),
            d.len() > 0,
            forall|j: int| 0 <= j < i - start ==> is_digit(#[trigger] d[j]),
            acc == decimal_value(d.take(i - start)),
            acc <= u32::MAX,
        decreases p.len() - i,
    {
        let c = p[i];
        if !('0' <= c && c <= '9') {
            proof {
                assert(!is_digit(d[i - start]));
                assert(exists|j: int| 0 <= j < d.len() && !is_digit(#[trigger] d[j]));
            }
            return None;
        }
        let digit = (c as u32) - ('0' as u32);
        proof {
            assert(d.take(i - start + 1).drop_last() =~= d.take(i - start));
            assert(d.take(i - start + 1).last() == c);
        }
        acc = acc * 10 + digit as u64;
        if acc > 0xFFFF_FFFF {
            proof {
                assert(acc == decimal_value(d.take(i - start + 1)));
                if forall|j: int| 0 <= j < d.len() ==> is_digit(#[trigger] d[j]) {
                    lemma_decimal_monotone(d, i - start + 1, d.len() as int);
                    assert(d.take(d.len() as int) =~= d);
                } else {
                    let j = choose|j: int| 0 <= j < d.len() && !is_digit(#[trigger] d[j]);
                    assert(!is_digit(d[j]));
                }
            }
            return None;
        }
        i = i + 1;
    }
    proof {
        assert(d.take(d.len() as int) =~= d);
    }
    Some(acc as u32)
}

/// Split a string at its dots into pieces of characters.
pub fn split_at_dots(dotted: &str) -> (parts: Vec<Vec<char>>)
    ensures
        parts@.len() == split_dots(dotted@).len(),
        forall|i: int| 0 <= i < parts@.len() ==> (#[trigger] parts@[i])@ == split_dots(dotted@)[i],
{
    let mut parts: Vec<Vec<char>> = Vec::new();
    let mut current: Vec<char> = Vec::new();
    let ghost s = dotted@;
    for c in it: dotted.chars()
        invariant
            it.seq() == s,
            split_dots(s.take(it.index())).len() == parts@.len() + 1,
            forall|i: int| 0 <= i < parts@.len() ==> (#[trigger] parts@[i])@ == split_dots(
                s.take(it.index()),
            )[i],
            current@ == split_dots(s.take(it.index())).last(),
    {
        proof {
            assert(s.take(it.index() + 1).drop_last() =~= s.take(it.index()));
            assert(s.take(it.index() + 1).last() == c);
        }
        if c == '.' {
            parts.push(current);
            current = Vec::new();
        } else {
            current.push(c);
        }
    }
    proof {
        assert(s.take(s.len() as int) =~= s);
    }
    parts.push(current);
    parts
}

/// Parse a dotted OID string into components; `None` when any piece
/// between dots is not a `u32`.
pub fn parse_oid(dotted: &str) -> (r: Option<Vec<u32>>)
    ensures
        r matches Some(oid) ==> parse_oid_spec(dotted@) == Some(oid@),
        r is None ==> parse_oid_spec(dotted@) is None,
{
    let parts = split_at_dots(dotted);
    let ghost sp = split_dots(dotted@);
    let mut out: Vec<u32> = Vec::new();
    let mut i: usize = 0;
    while i < parts.len()
        invariant
            i <= parts@.len(),
            parts@.len() == sp.len(),
            sp == split_dots(dotted@),
            forall|j: int| 0 <= j < parts@.len() ==> (#[trigger] parts@[j])@ == sp[j],
            out@.len() == i,
            forall|j: int| 0 <= j < i ==> parse_u32_spec(#[trigger] sp[j]) is Some,
            forall|j: int| 0 <= j < i ==> out@[j] == parse_u32_spec(#[trigger] sp[j])->0,
        decreases parts@.len() - i,
    {
        match parse_u32(&parts[i]) {
            Some(v) => {
                out.push(v);
            },
            None => {
                return None;
            },
        }
        i = i + 1;
    }
    proof {
        assert(out@ =~= sp.map_values(|p: Seq<char>| parse_u32_spec(p)->0));
    }
    Some(out)
}

} // verus!
