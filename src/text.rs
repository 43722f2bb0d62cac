//! Character-level helpers: decimal numbers, the port after the last colon of
//! an address, and the search for a marker word.

use vstd::prelude::*;
use vstd::string::*;
use vstd::std_specs::iter::IteratorSpec;

verus! {

/// Whether `c` is an ASCII decimal digit.
pub open spec fn is_digit(c: char) -> bool {
    '0' <= c && c <= '9'
}

/// The value of one ASCII decimal digit.
pub open spec fn digit_value(c: char) -> nat {
    (c as nat - '0' as nat) as nat
}

/// Whether `s` is a non-empty run of ASCII decimal digits.
pub open spec fn all_digits(s: Seq<char>) -> bool {
    s.len() > 0 && forall|i: int| 0 <= i < s.len() ==> is_digit(#[trigger] s[i])
}

/// The number that the digits of `s` spell, most significant first.
pub open spec fn digits_value(s: Seq<char>) -> nat
    decreases s.len(),
{
    if s.len() == 0 {
        0
    } else {
        10 * digits_value(s.drop_last()) + digit_value(s.last())
    }
}

/// `s` read as a decimal number no larger than `max`, if it is one.
pub open spec fn decimal_at_most(s: Seq<char>, max: nat) -> Option<nat> {
    if all_digits(s) && digits_value(s) <= max {
        Some(digits_value(s))
    } else {
        None
    }
}

proof fn lemma_digits_value_grows(s: Seq<char>, i: int, j: int)
    requires
        0 <= i <= j <= s.len(),
        forall|k: int| 0 <= k < s.len() ==> is_digit(#[trigger] s[k]),
    ensures
        digits_value(s.subrange(0, i)) <= digits_value(s.subrange(0, j)),
    decreases j - i,
{
    if i < j {
        lemma_digits_value_grows(s, i, j - 1);
        assert(s.subrange(0, j).drop_last() =~= s.subrange(0, j - 1));
    }
}

/// Reads `s` as a decimal number of at most `max`.
pub fn parse_decimal(s: &str, max: u64) -> (r: Option<u64>)
    ensures
        match decimal_at_most(s@, max as nat) {
            Some(v) => r == Some(v as u64),
            None => r is None,
        },
{
    let n = s.unicode_len();
    if n == 0 {
        return None;
    }
    let mut i: usize = 0;
    while i < n
        invariant
            n == s@.len(),
            i <= n,
            forall|k: int| 0 <= k < i ==> is_digit(#[trigger] s@[k]),
        decreases n - i,
    {
        let c = s.get_char(i);
        if !('0' <= c && c <= '9') {
            assert(!is_digit(s@[i as int]));
            return None;
        }
        i = i + 1;
    }
    let mut value: u64 = 0;
    let mut j: usize = 0;
    while j < n
        invariant
            n == s@.len(),
            j <= n,
            all_digits(s@),
            value as nat == digits_value(s@.subrange(0, j as int)),
            value <= max,
        decreases n - j,
    {
        let c = s.get_char(j);
        let d = (c as u32 - '0' as u32) as u64;
        assert(s@.subrange(0, j + 1).drop_last() =~= s@.subrange(0, j as int));
        assert(is_digit(s@[j as int]));
        if d > max || value > (max - d) / 10 {
            proof {
                if d <= max {
                    assert(10 * value + d > max) by (nonlinear_arith)
                        requires
                            value > (max - d) / 10,
                            d <= max,
                    ;
                }
                lemma_digits_value_grows(s@, j + 1, n as int);
                assert(s@.subrange(0, n as int) =~= s@);
            }
            return None;
        }
        assert(10 * value + d <= max) by (nonlinear_arith)
            requires
                value <= (max - d) / 10,
                d <= max,
        ;
        value = 10 * value + d;
        j = j + 1;
    }
    assert(s@.subrange(0, n as int) =~= s@);
    Some(value)
}

/// Whether `k` is the position of the last `:` in `s`.
pub open spec fn is_last_colon(s: Seq<char>, k: int) -> bool {
    0 <= k < s.len() && s[k] == ':' && forall|j: int| k < j < s.len() ==> s[j] != ':'
}

/// The text after the last `:` of `s`, or `None` where `s` holds no `:`.
pub open spec fn after_last_colon(s: Seq<char>) -> Option<Seq<char>> {
    if exists|k: int| is_last_colon(s, k) {
        let k = choose|k: int| is_last_colon(s, k);
        Some(s.subrange(k + 1, s.len() as int))
    } else {
        None
    }
}

/// The port that an `address:port` text names: the decimal number after its
/// last colon, where that is a number of 16 bits.
pub open spec fn port_of(addr: Seq<char>) -> Option<nat> {
    match after_last_colon(addr) {
        Some(t) => decimal_at_most(t, 65535),
        None => None,
    }
}

/// Reads the port after the last colon of an `address:port` text.
pub fn port_number(addr: &str) -> (r: Option<u16>)
    ensures
        match port_of(addr@) {
            Some(v) => r == Some(v as u16),
            None => r is None,
        },
{
    let n = addr.unicode_len();
    let mut i: usize = n;
    while i > 0
        invariant
            n == addr@.len(),
            i <= n,
            forall|j: int| i <= j < n ==> addr@[j] != ':',
        decreases i,
    {
        if addr.get_char(i - 1) == ':' {
            let k = i - 1;
            assert(is_last_colon(addr@, k as int));
            let digits = addr.substring_char(i, n);
            let v = parse_decimal(digits, 65535);
            return match v {
                Some(p) => Some(p as u16),
                None => None,
            };
        }
        i = i - 1;
    }
    None
}

/// Whether `w` occurs in `s` starting at position `i`.
pub open spec fn occurs_at(s: Seq<char>, w: Seq<char>, i: int) -> bool {
    0 <= i && i + w.len() <= s.len() && s.subrange(i, i + w.len()) == w
}

/// Whether `w` occurs anywhere in `s`.
pub open spec fn contains_seq(s: Seq<char>, w: Seq<char>) -> bool {
    exists|i: int| occurs_at(s, w, i)
}

/// The characters of `s`, one by one.
pub fn chars_of(s: &str) -> (r: Vec<char>)
    ensures
        r@ == s@,
{
    broadcast use vstd::string::axiom_spec_iter, vstd::string::next_postcondition;
    let mut r: Vec<char> = Vec::new();
    let mut chars = s.chars();
    loop
        invariant
            s@ == r@ + chars.remaining(),
        ensures
            r@ == s@,
        decreases s@.len() - r@.len(),
    {
        match chars.next() {
            Some(c) => {
                r.push(c);
            },
            None => {
                assert(r@ =~= s@);
                break;
            },
        }
    }
    r
}

/// Whether the word `w` occurs in `s`.
pub fn contains_chars(s: &Vec<char>, w: &Vec<char>) -> (r: bool)
    ensures
        r == contains_seq(s@, w@),
{
    let n = s.len();
    let m = w.len();
    if m > n {
        return false;
    }
    let mut i: usize = 0;
    while i <= n - m
        invariant
            n == s@.len(),
            m == w@.len(),
            m <= n,
            i <= n - m + 1,
            forall|p: int| 0 <= p < i ==> !occurs_at(s@, w@, p),
        decreases n - m + 1 - i,
    {
        let mut j: usize = 0;
        let mut same = true;
        while j < m
            invariant
                n == s@.len(),
                m == w@.len(),
                i + m <= n,
                j <= m,
                same ==> forall|q: int| 0 <= q < j ==> s@[i + q] == w@[q],
                !same ==> exists|q: int| 0 <= q < m && s@[i + q] != w@[q],
            decreases m - j,
        {
            if s[i + j] != w[j] {
                same = false;
            }
            j = j + 1;
        }
        if same {
            assert(s@.subrange(i as int, i + m) =~= w@);
            assert(occurs_at(s@, w@, i as int));
            return true;
        }
        proof {
            let q = choose|q: int| 0 <= q < m && s@[i + q] != w@[q];
            if occurs_at(s@, w@, i as int) {
                assert(s@.subrange(i as int, i + m)[q] == s@[i + q]);
            }
        }
        i = i + 1;
    }
    false
}

} // verus!
