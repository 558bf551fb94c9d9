//! Port strings of a patch: `name` or `name:channel`.
use vstd::prelude::*;
use vstd::string::*;

verus! {

pub open spec fn is_digit(c: char) -> bool {
    '0' <= c && c <= '9'
}

/// Value of a run of decimal digits, most significant first.
pub open spec fn digits_value(t: Seq<char>) -> nat
    decreases t.len(),
{
    if t.len() == 0 {
        0
    } else {
        digits_value(t.drop_last()) * 10 + ((t.last() as u32) - ('0' as u32)) as nat
    }
}

/// The text of a number without its optional leading `+`.
pub open spec fn unsigned_part(t: Seq<char>) -> Seq<char> {
    if t.len() > 0 && t[0] == '+' {
        t.skip(1)
    } else {
        t
    }
}

/// `t` is the decimal text of a `usize`: an optional `+`, then at least one
/// digit, and a value that fits.
pub open spec fn is_usize_text(t: Seq<char>) -> bool {
    let d = unsigned_part(t);
    &&& d.len() > 0
    &&& forall|j: int| 0 <= j < d.len() ==> is_digit(#[trigger] d[j])
    &&& digits_value(d) <= usize::MAX
}

/// `k` is the position of the first `:` in `s`.
pub open spec fn first_colon_at(s: Seq<char>, k: int) -> bool {
    &&& 0 <= k < s.len()
    &&& s[k] == ':'
    &&& forall|j: int| 0 <= j < k ==> s[j] != ':'
}

/// The node name and channel that a port string denotes, or `None` when
/// the text after the first `:` is not a channel number.
pub open spec fn port_of(s: Seq<char>) -> Option<(Seq<char>, nat)> {
    if exists|k: int| first_colon_at(s, k) {
        let k = choose|k: int| first_colon_at(s, k);
        let t = s.skip(k + 1);
        if is_usize_text(t) {
            Some((s.take(k), digits_value(unsigned_part(t))))
        } else {
            None
        }
    } else {
        Some((s, 0))
    }
}

proof fn lemma_digits_monotone(d: Seq<char>, m: int, n: int)
    requires
        0 <= m <= n <= d.len(),
        forall|j: int| 0 <= j < d.len() ==> is_digit(#[trigger] d[j]),
    ensures
        digits_value(d.take(m)) <= digits_value(d.take(n)),
    decreases n - m,
{
    if m < n {
        lemma_digits_monotone(d, m, n - 1);
        assert(d.take(n).drop_last() =~= d.take(n - 1));
        assert(is_digit(d[n - 1]));
    }
}

/// Parses the decimal text of a `usize` (an optional `+`, then digits).
pub fn parse_usize(t: &str) -> (r: Option<usize>)
    ensures
        r.is_some() == is_usize_text(t@),
        r.is_some() ==> r.unwrap() as nat == digits_value(unsigned_part(t@)),
{
    let n = t.unicode_len();
    let mut i: usize = 0;
    if n > 0 && t.get_char(0) == '+' {
        i = 1;
    }
    let start = i;
    let ghost d = unsigned_part(t@);
    assert(d =~= t@.skip(start as int));
    if i == n {
        return None;
    }
    let mut v: usize = 0;
    while i < n
        invariant
            start <= i <= n,
            n == t@.len(),
            d == t@.skip(start as int),
            d == unsigned_part(t@),
            forall|j: int| 0 <= j < i - start ==> is_digit(#[trigger] d[j]),
            v as nat == digits_value(d.take(i - start)),
        decreases n - i,
    {
        let c = t.get_char(i);
        assert(d[i - start] == c);
        if !('0' <= c && c <= '9') {
            assert(!is_digit(d[i - start]));
            return None;
        }
        let digit = (c as u32 - '0' as u32) as usize;
        assert(d.take(i + 1 - start).drop_last() =~= d.take(i - start));
        if v > (usize::MAX - digit) / 10 {
            proof {
                assert(digits_value(d.take(i + 1 - start)) > usize::MAX) by (nonlinear_arith)
                    requires
                        digits_value(d.take(i + 1 - start)) == v * 10 + digit,
                        v > (usize::MAX - digit) / 10,
                        digit <= 9;
                if forall|j: int| 0 <= j < d.len() ==> is_digit(#[trigger] d[j]) {
                    lemma_digits_monotone(d, i + 1 - start, d.len() as int);
                    assert(d.take(d.len() as int) =~= d);
                }
            }
            return None;
        }
        v = v * 10 + digit;
        i = i + 1;
    }
    assert(d.take(n - start) =~= d);
    Some(v)
}

/// Splits a port string into its node name and channel; the channel is 0
/// when there is no `:`.
pub fn parse_port(s: &str) -> (r: Option<(String, usize)>)
    ensures
        r.is_some() == port_of(s@).is_some(),
        r.is_some() ==> r.unwrap().0@ == port_of(s@).unwrap().0
            && r.unwrap().1 as nat == port_of(s@).unwrap().1,
{
    let n = s.unicode_len();
    let mut k: usize = 0;
    let mut found = false;
    while !found && k < n
        invariant
            k <= n,
            n == s@.len(),
            forall|j: int| 0 <= j < k ==> s@[j] != ':',
            found ==> k < n && s@[k as int] == ':',
        decreases n - k, if found { 0int } else { 1int },
    {
        if s.get_char(k) == ':' {
            found = true;
        } else {
            k = k + 1;
        }
    }
    if !found {
        assert(!exists|k: int| first_colon_at(s@, k));
        Some((String::from_str(s), 0))
    } else {
        assert(first_colon_at(s@, k as int));
        assert forall|k2: int| first_colon_at(s@, k2) implies k2 == k by {
            if k2 < k { assert(s@[k2] == ':'); }
            if k2 > k { assert(s@[k as int] != ':'); }
        }
        let name = s.substring_char(0, k);
        let text = s.substring_char(k + 1, n);
        assert(name@ =~= s@.take(k as int));
        assert(text@ =~= s@.skip(k + 1));
        match parse_usize(text) {
            Some(ch) => Some((String::from_str(name), ch)),
            None => None,
        }
    }
}

} // verus!
