//! Deciding whether a candidate's two addresses satisfy the active patterns.
use vstd::prelude::*;

verus! {

/// Leading characters shared by every main-network taproot address: the
/// human-readable part, the separator and the witness version.
pub const ADDRESS_PREFIX: &'static str = "bc1p";

pub open spec fn address_prefix() -> Seq<char> {
    seq!['b', 'c', '1', 'p']
}

pub open spec fn starts_with(a: Seq<char>, p: Seq<char>) -> bool {
    p.len() <= a.len() && a.subrange(0, p.len() as int) == p
}

pub open spec fn ends_with(a: Seq<char>, p: Seq<char>) -> bool {
    p.len() <= a.len() && a.subrange(a.len() - p.len(), a.len() as int) == p
}

/// Suffix mode: `addr` ends with `pat`. Prefix mode: `addr` starts with the
/// shared address prefix followed by `pat`.
pub open spec fn pattern_matches(addr: Seq<char>, pat: Seq<char>, suffix: bool) -> bool {
    if suffix {
        ends_with(addr, pat)
    } else {
        starts_with(addr, address_prefix() + pat)
    }
}

/// Some pattern of `pats` matches `addr`.
pub open spec fn any_match(addr: Seq<char>, pats: Seq<Seq<char>>, suffix: bool) -> bool {
    exists|j: int| 0 <= j < pats.len() && pattern_matches(addr, #[trigger] pats[j], suffix)
}

/// The payment address is accepted: no payment patterns are given, or one matches.
pub open spec fn corroborated(pay_addr: Seq<char>, pay: Seq<Seq<char>>, suffix: bool) -> bool {
    pay.len() == 0 || any_match(pay_addr, pay, suffix)
}

/// The candidate is a hit for the primary pattern at index `i`.
pub open spec fn hit_at(
    main_addr: Seq<char>,
    pay_addr: Seq<char>,
    primary: Seq<Seq<char>>,
    pay: Seq<Seq<char>>,
    suffix: bool,
    i: int,
) -> bool {
    pattern_matches(main_addr, primary[i], suffix) && corroborated(pay_addr, pay, suffix)
}

/// Index of the first primary pattern, from `i` on, that the candidate hits.
pub open spec fn first_hit_from(
    main_addr: Seq<char>,
    pay_addr: Seq<char>,
    primary: Seq<Seq<char>>,
    pay: Seq<Seq<char>>,
    suffix: bool,
    i: int,
) -> Option<int>
    decreases primary.len() - i,
{
    if i < 0 || i >= primary.len() {
        None
    } else if hit_at(main_addr, pay_addr, primary, pay, suffix, i) {
        Some(i)
    } else {
        first_hit_from(main_addr, pay_addr, primary, pay, suffix, i + 1)
    }
}

/// Index of the first primary pattern that the candidate hits.
pub open spec fn first_hit(
    main_addr: Seq<char>,
    pay_addr: Seq<char>,
    primary: Seq<Seq<char>>,
    pay: Seq<Seq<char>>,
    suffix: bool,
) -> Option<int> {
    first_hit_from(main_addr, pay_addr, primary, pay, suffix, 0)
}

pub fn text_starts_with(a: &str, p: &str) -> (r: bool)
    ensures
        r == starts_with(a@, p@),
{
    let n = a.unicode_len();
    let m = p.unicode_len();
    if m > n {
        return false;
    }
    let mut i: usize = 0;
    while i < m
        invariant
            n == a@.len(),
            m == p@.len(),
            m <= n,
            i <= m,
            forall|k: int| 0 <= k < i ==> a@[k] == p@[k],
        decreases m - i,
    {
        if a.get_char(i) != p.get_char(i) {
            assert(a@.subrange(0, m as int)[i as int] != p@[i as int]);
            return false;
        }
        i = i + 1;
    }
    assert(a@.subrange(0, m as int) =~= p@);
    true
}

pub fn text_ends_with(a: &str, p: &str) -> (r: bool)
    ensures
        r == ends_with(a@, p@),
{
    let n = a.unicode_len();
    let m = p.unicode_len();
    if m > n {
        return false;
    }
    let d = n - m;
    let mut i: usize = 0;
    while i < m
        invariant
            n == a@.len(),
            m == p@.len(),
            d == n - m,
            i <= m,
            forall|k: int| 0 <= k < i ==> a@[d + k] == p@[k],
        decreases m - i,
    {
        if a.get_char(d + i) != p.get_char(i) {
            assert(a@.subrange(d as int, n as int)[i as int] != p@[i as int]);
            return false;
        }
        i = i + 1;
    }
    assert(a@.subrange(d as int, n as int) =~= p@);
    true
}

/// Whether `pat` matches `addr` in the given mode.
pub fn matches_pattern(addr: &str, pat: &str, suffix: bool) -> (r: bool)
    ensures
        r == pattern_matches(addr@, pat@, suffix),
{
    if suffix {
        text_ends_with(addr, pat)
    } else {
        let mut needle = String::from_str(ADDRESS_PREFIX);
        needle.append(pat);
        proof {
            reveal_strlit("bc1p");
            assert(ADDRESS_PREFIX@ =~= address_prefix());
        }
        text_starts_with(addr, needle.as_str())
    }
}

/// Whether some pattern of `pats` matches `addr`.
pub fn matches_any(addr: &str, pats: &Vec<String>, suffix: bool) -> (r: bool)
    ensures
        r == any_match(addr@, pats.deep_view(), suffix),
{
    let ghost v = pats.deep_view();
    let mut j: usize = 0;
    while j < pats.len()
        invariant
            v == pats.deep_view(),
            j <= v.len(),
            forall|k: int| 0 <= k < j ==> !pattern_matches(addr@, #[trigger] v[k], suffix),
        decreases v.len() - j,
    {
        if matches_pattern(addr, pats[j].as_str(), suffix) {
            assert(pattern_matches(addr@, v[j as int], suffix));
            return true;
        }
        j = j + 1;
    }
    false
}

/// Index of the first primary pattern that the candidate with main address
/// `main_addr` and payment address `pay_addr` satisfies: its main address
/// matches the pattern, and, where payment patterns are given, its payment
/// address matches one of them.
pub fn find_hit(
    main_addr: &str,
    pay_addr: &str,
    primary: &Vec<String>,
    pay: &Vec<String>,
    suffix: bool,
) -> (r: Option<usize>)
    ensures
        r is None <==> first_hit(main_addr@, pay_addr@, primary.deep_view(), pay.deep_view(), suffix) is None,
        r matches Some(i) ==> i < primary.len()
            && first_hit(main_addr@, pay_addr@, primary.deep_view(), pay.deep_view(), suffix) == Some(i as int),
{
    let ghost pv = primary.deep_view();
    let ghost qv = pay.deep_view();
    let mut i: usize = 0;
    while i < primary.len()
        invariant
            pv == primary.deep_view(),
            qv == pay.deep_view(),
            i <= pv.len(),
            first_hit(main_addr@, pay_addr@, pv, qv, suffix)
                == first_hit_from(main_addr@, pay_addr@, pv, qv, suffix, i as int),
        decreases pv.len() - i,
    {
        if matches_pattern(main_addr, primary[i].as_str(), suffix) {
            if pay.len() == 0 || matches_any(pay_addr, pay, suffix) {
                return Some(i);
            }
        }
        i = i + 1;
    }
    None
}

proof fn lemma_no_hit_from(
    main_addr: Seq<char>,
    pay_addr: Seq<char>,
    primary: Seq<Seq<char>>,
    pay: Seq<Seq<char>>,
    suffix: bool,
    i: int,
)
    requires
        0 <= i,
        forall|k: int| i <= k < primary.len() ==> !hit_at(main_addr, pay_addr, primary, pay, suffix, k),
    ensures
        first_hit_from(main_addr, pay_addr, primary, pay, suffix, i) is None,
    decreases primary.len() - i,
{
    if i < primary.len() {
        lemma_no_hit_from(main_addr, pay_addr, primary, pay, suffix, i + 1);
    }
}

proof fn lemma_hit_from(
    main_addr: Seq<char>,
    pay_addr: Seq<char>,
    primary: Seq<Seq<char>>,
    pay: Seq<Seq<char>>,
    suffix: bool,
    i: int,
    k: int,
)
    requires
        0 <= i <= k < primary.len(),
        hit_at(main_addr, pay_addr, primary, pay, suffix, k),
    ensures
        first_hit_from(main_addr, pay_addr, primary, pay, suffix, i) is Some,
    decreases k - i,
{
    if !hit_at(main_addr, pay_addr, primary, pay, suffix, i) {
        lemma_hit_from(main_addr, pay_addr, primary, pay, suffix, i + 1, k);
    }
}

/// Payment gating is mandatory: with payment patterns given, a candidate whose
/// payment address matches none of them is no hit, whatever its main address.
pub proof fn lemma_payment_gate(
    main_addr: Seq<char>,
    pay_addr: Seq<char>,
    primary: Seq<Seq<char>>,
    pay: Seq<Seq<char>>,
    suffix: bool,
)
    requires
        pay.len() > 0,
        !any_match(pay_addr, pay, suffix),
    ensures
        first_hit(main_addr, pay_addr, primary, pay, suffix) is None,
{
    lemma_no_hit_from(main_addr, pay_addr, primary, pay, suffix, 0);
}

/// Without payment patterns, a main address that matches any primary pattern
/// makes the candidate a hit, for the first primary pattern it matches.
pub proof fn lemma_no_gate(
    main_addr: Seq<char>,
    pay_addr: Seq<char>,
    primary: Seq<Seq<char>>,
    pay: Seq<Seq<char>>,
    suffix: bool,
)
    requires
        pay.len() == 0,
        any_match(main_addr, primary, suffix),
    ensures
        first_hit(main_addr, pay_addr, primary, pay, suffix) is Some,
        first_hit(main_addr, pay_addr, primary, pay, suffix) matches Some(i)
            && pattern_matches(main_addr, primary[i], suffix)
            && forall|k: int| 0 <= k < i ==> !pattern_matches(main_addr, #[trigger] primary[k], suffix),
{
    let k = choose|k: int| 0 <= k < primary.len() && pattern_matches(main_addr, #[trigger] primary[k], suffix);
    assert(hit_at(main_addr, pay_addr, primary, pay, suffix, k));
    lemma_hit_from(main_addr, pay_addr, primary, pay, suffix, 0, k);
    lemma_first_hit_is_first(main_addr, pay_addr, primary, pay, suffix, 0);
    let i = first_hit(main_addr, pay_addr, primary, pay, suffix)->0;
    assert forall|k: int| 0 <= k < i implies !pattern_matches(main_addr, #[trigger] primary[k], suffix) by {
        assert(!hit_at(main_addr, pay_addr, primary, pay, suffix, k));
    }
}

proof fn lemma_first_hit_is_first(
    main_addr: Seq<char>,
    pay_addr: Seq<char>,
    primary: Seq<Seq<char>>,
    pay: Seq<Seq<char>>,
    suffix: bool,
    i: int,
)
    requires
        0 <= i,
    ensures
        first_hit_from(main_addr, pay_addr, primary, pay, suffix, i) matches Some(j) ==> {
            &&& i <= j < primary.len()
            &&& hit_at(main_addr, pay_addr, primary, pay, suffix, j)
            &&& forall|k: int| i <= k < j ==> !hit_at(main_addr, pay_addr, primary, pay, suffix, k)
        },
    decreases primary.len() - i,
{
    if i < primary.len() {
        lemma_first_hit_is_first(main_addr, pay_addr, primary, pay, suffix, i + 1);
    }
}

} // verus!
