//! Decimal numbers as text: the digits that an unsigned integer prints as,
//! and reading an unsigned integer back from its digits.
use vstd::prelude::*;
use vstd::string::*;

verus! {

/// The character of the digit `d` (0 to 9).
pub open spec fn digit_char(d: int) -> char {
    (48 + d) as char
}

/// Whether `c` is one of the ten digit characters.
pub open spec fn is_digit(c: char) -> bool {
    '0' <= c && c <= '9'
}

/// The decimal digits of `n`, most significant first, without leading zeros.
pub open spec fn decimal(n: nat) -> Seq<char>
    decreases n,
{
    if n < 10 {
        seq![digit_char(n as int)]
    } else {
        decimal(n / 10).push(digit_char((n % 10) as int))
    }
}

/// The text of one digit.
fn digit_text(d: u64) -> (r: &'static str)
    requires
        d < 10,
    ensures
        r@ == seq![digit_char(d as int)],
{
    proof {
        reveal_strlit("0");
        reveal_strlit("1");
        reveal_strlit("2");
        reveal_strlit("3");
        reveal_strlit("4");
        reveal_strlit("5");
        reveal_strlit("6");
        reveal_strlit("7");
        reveal_strlit("8");
        reveal_strlit("9");
    }
    if d == 0 {
        assert("0"@ =~= seq!['0']);
        "0"
    } else if d == 1 {
        assert("1"@ =~= seq!['1']);
        "1"
    } else if d == 2 {
        assert("2"@ =~= seq!['2']);
        "2"
    } else if d == 3 {
        assert("3"@ =~= seq!['3']);
        "3"
    } else if d == 4 {
        assert("4"@ =~= seq!['4']);
        "4"
    } else if d == 5 {
        assert("5"@ =~= seq!['5']);
        "5"
    } else if d == 6 {
        assert("6"@ =~= seq!['6']);
        "6"
    } else if d == 7 {
        assert("7"@ =~= seq!['7']);
        "7"
    } else if d == 8 {
        assert("8"@ =~= seq!['8']);
        "8"
    } else {
        assert("9"@ =~= seq!['9']);
        "9"
    }
}

/// The digits of `n` when it is not zero, and nothing for zero.
pub open spec fn digits_or_empty(n: nat) -> Seq<char> {
    if n == 0 { Seq::empty() } else { decimal(n) }
}

/// The decimal text of `n`, as `to_string` prints it.
pub fn decimal_string(n: u64) -> (r: String)
    ensures
        r@ == decimal(n as nat),
{
    if n == 0 {
        let r = String::from_str(digit_text(0));
        return r;
    }
    // digits, least significant first
    let mut digits: Vec<u64> = Vec::new();
    let mut m: u64 = n;
    let ghost mut tail: Seq<char> = Seq::empty();
    while m > 0
        invariant
            decimal(n as nat) == digits_or_empty(m as nat) + tail,
            tail.len() == digits@.len(),
            forall|i: int| 0 <= i < digits@.len() ==> (#[trigger] digits@[i]) < 10
                && tail[digits@.len() - 1 - i] == digit_char(digits@[i] as int),
        decreases m,
    {
        let d = m % 10;
        proof {
            let t2 = seq![digit_char(d as int)] + tail;
            assert(digits_or_empty(m as nat) == digits_or_empty((m / 10) as nat).push(digit_char(d as int)));
            assert(digits_or_empty((m / 10) as nat).push(digit_char(d as int)) + tail
                =~= digits_or_empty((m / 10) as nat) + t2);
            assert forall|i: int| 0 <= i < digits@.len() + 1 implies
                (#[trigger] digits@.push(d)[i]) < 10 && t2[digits@.len() + 1 - 1 - i] == digit_char(digits@.push(d)[i] as int) by {
                if i < digits@.len() {
                    assert(t2[digits@.len() - i] == tail[digits@.len() - 1 - i]);
                }
            }
            tail = t2;
        }
        digits.push(d);
        m = m / 10;
    }
    assert(tail =~= decimal(n as nat));
    let mut r = String::new();
    let mut i: usize = digits.len();
    while i > 0
        invariant
            i <= digits@.len(),
            tail.len() == digits@.len(),
            forall|k: int| 0 <= k < digits@.len() ==> (#[trigger] digits@[k]) < 10
                && tail[digits@.len() - 1 - k] == digit_char(digits@[k] as int),
            r@ == tail.subrange(0, (digits@.len() - i) as int),
        decreases i,
    {
        i = i - 1;
        let t = digit_text(digits[i]);
        let ghost before = r@;
        r.append(t);
        proof {
            assert(r@ =~= tail.subrange(0, (digits@.len() - i) as int));
        }
    }
    assert(r@ =~= tail);
    r
}

/// The value of a string of digits.
pub open spec fn digits_value(s: Seq<char>) -> nat
    decreases s.len(),
{
    if s.len() == 0 {
        0
    } else {
        digits_value(s.drop_last()) * 10 + ((s.last() as int - 48) as nat)
    }
}

/// Whether every character is a digit.
pub open spec fn all_digits(s: Seq<char>) -> bool {
    forall|i: int| 0 <= i < s.len() ==> is_digit(#[trigger] s[i])
}

/// The unsigned integer that `s` holds as `str::parse::<usize>` reads it:
/// an optional `+`, then one or more digits, with a value that fits in
/// `usize`.
pub open spec fn parse_usize_spec(s: Seq<char>) -> Option<usize> {
    let d = if s.len() > 0 && s[0] == '+' { s.drop_first() } else { s };
    if d.len() > 0 && all_digits(d) && digits_value(d) <= usize::MAX {
        Some(digits_value(d) as usize)
    } else {
        None
    }
}

/// Reading more digits never makes the value smaller.
proof fn lemma_digits_value_grows(s: Seq<char>, k: int)
    requires
        0 <= k <= s.len(),
        all_digits(s),
    ensures
        digits_value(s.subrange(0, k)) <= digits_value(s),
    decreases s.len() - k,
{
    if k < s.len() {
        lemma_digits_value_grows(s, k + 1);
        assert(s.subrange(0, k + 1).drop_last() =~= s.subrange(0, k));
    } else {
        assert(s.subrange(0, k) =~= s);
    }
}

/// Reads an unsigned integer from `s`, as `str::parse::<usize>` does.
pub fn parse_usize(s: &str) -> (r: Option<usize>)
    ensures
        r == parse_usize_spec(s@),
{
    let n = s.unicode_len();
    let mut i: usize = 0;
    if n > 0 && s.get_char(0) == '+' {
        i = 1;
    }
    let start = i;
    let ghost d = if s@.len() > 0 && s@[0] == '+' { s@.drop_first() } else { s@ };
    proof {
        assert(d =~= s@.subrange(start as int, n as int));
    }
    if start == n {
        return None;
    }
    let mut value: usize = 0;
    while i < n
        invariant
            n == s@.len(),
            start <= i <= n,
            d == s@.subrange(start as int, n as int),
            d == (if s@.len() > 0 && s@[0] == '+' { s@.drop_first() } else { s@ }),
            all_digits(s@.subrange(start as int, i as int)),
            value as nat == digits_value(s@.subrange(start as int, i as int)),
        decreases n - i,
    {
        let c = s.get_char(i);
        proof {
            assert(s@.subrange(start as int, i + 1).drop_last() =~= s@.subrange(start as int, i as int));
        }
        proof {
            assert(d[i - start] == s@[i as int]);
        }
        if c < '0' || c > '9' {
            proof {
                assert(!is_digit(d[i - start]));
                assert(!all_digits(d));
            }
            return None;
        }
        let dv: usize = (c as u32 - 48) as usize;
        proof {
            let next = s@.subrange(start as int, i + 1);
            assert(next.last() == c);
            assert(digits_value(next) == digits_value(next.drop_last()) * 10 + ((c as int - 48) as nat));
            assert(digits_value(next) == value * 10 + dv);
        }
        match value.checked_mul(10) {
            None => {
                proof {
                    if all_digits(d) {
                        lemma_digits_value_grows(d, i + 1 - start);
                        assert(d.subrange(0, i + 1 - start) =~= s@.subrange(start as int, i + 1));
                    }
                }
                return None;
            },
            Some(t) => match t.checked_add(dv) {
                None => {
                    proof {
                        if all_digits(d) {
                            lemma_digits_value_grows(d, i + 1 - start);
                            assert(d.subrange(0, i + 1 - start) =~= s@.subrange(start as int, i + 1));
                        }
                    }
                    return None;
                },
                Some(v) => {
                    value = v;
                },
            },
        }
        i = i + 1;
    }
    Some(value)
}

/// The position of the only `sep` in `s`, if it occurs exactly once.
pub open spec fn single_separator(s: Seq<char>, sep: char) -> Option<int> {
    if exists|p: int| 0 <= p < s.len() && s[p] == sep && (forall|q: int| 0 <= q < s.len() && s[q] == sep ==> q == p) {
        Some(choose|p: int| 0 <= p < s.len() && s[p] == sep && (forall|q: int| 0 <= q < s.len() && s[q] == sep ==> q == p))
    } else {
        None
    }
}

/// A resolution written as `WIDTHxHEIGHT`: exactly one `x`, and an unsigned
/// integer on each side of it.
pub open spec fn resolution_spec(s: Seq<char>) -> Option<(usize, usize)> {
    match single_separator(s, 'x') {
        Some(p) => match (parse_usize_spec(s.subrange(0, p)), parse_usize_spec(s.subrange(p + 1, s.len() as int))) {
            (Some(w), Some(h)) => Some((w, h)),
            _ => None,
        },
        None => None,
    }
}

/// Reads a resolution written as `WIDTHxHEIGHT`.
pub fn parse_resolution(s: &str) -> (r: Option<(usize, usize)>)
    ensures
        r == resolution_spec(s@),
{
    let n = s.unicode_len();
    let mut count: usize = 0;
    let mut pos: usize = 0;
    let mut i: usize = 0;
    while i < n
        invariant
            n == s@.len(),
            i <= n,
            count <= i,
            count == 0 ==> forall|q: int| 0 <= q < i ==> s@[q] != 'x',
            count >= 1 ==> pos < i && s@[pos as int] == 'x',
            count == 1 ==> forall|q: int| 0 <= q < i && s@[q] == 'x' ==> q == pos,
            count >= 2 ==> exists|q: int| 0 <= q < i && s@[q] == 'x' && q != pos,
        decreases n - i,
    {
        if s.get_char(i) == 'x' {
            if count == 0 {
                pos = i;
            }
            count = count + 1;
        }
        i = i + 1;
    }
    if count != 1 {
        proof {
            if count >= 2 {
                let q = choose|q: int| 0 <= q < n && s@[q] == 'x' && q != pos;
                assert(!(exists|p: int| 0 <= p < s@.len() && s@[p] == 'x'
                    && (forall|q2: int| 0 <= q2 < s@.len() && s@[q2] == 'x' ==> q2 == p))) by {
                    if exists|p: int| 0 <= p < s@.len() && s@[p] == 'x'
                        && (forall|q2: int| 0 <= q2 < s@.len() && s@[q2] == 'x' ==> q2 == p) {
                        let p = choose|p: int| 0 <= p < s@.len() && s@[p] == 'x'
                            && (forall|q2: int| 0 <= q2 < s@.len() && s@[q2] == 'x' ==> q2 == p);
                        assert(q == p);
                        assert(pos as int == p);
                    }
                }
            }
        }
        return None;
    }
    proof {
        assert(0 <= pos < s@.len() && s@[pos as int] == 'x'
            && (forall|q: int| 0 <= q < s@.len() && s@[q] == 'x' ==> q == pos));
        let p = choose|p: int| 0 <= p < s@.len() && s@[p] == 'x'
            && (forall|q: int| 0 <= q < s@.len() && s@[q] == 'x' ==> q == p);
        assert(p == pos);
    }
    let w = parse_usize(s.substring_char(0, pos));
    let h = parse_usize(s.substring_char(pos + 1, n));
    match (w, h) {
        (Some(w), Some(h)) => Some((w, h)),
        _ => None,
    }
}

/// The digits of a number are all digits and have its value.
proof fn lemma_decimal_digits(n: nat)
    ensures
        all_digits(decimal(n)),
        decimal(n).len() > 0,
        digits_value(decimal(n)) == n,
    decreases n,
{
    if n >= 10 {
        lemma_decimal_digits(n / 10);
        let d = decimal(n / 10);
        assert(decimal(n).drop_last() =~= d);
        let c = digit_char((n % 10) as int);
        assert(decimal(n).last() == c);
        assert(c as int - 48 == n % 10);
        assert((n / 10) * 10 + n % 10 == n);
        assert(digits_value(decimal(n)) == digits_value(decimal(n).drop_last()) * 10 + ((decimal(n).last() as int - 48) as nat));
        assert(digits_value(decimal(n)) == digits_value(d) * 10 + n % 10);
        assert forall|i: int| 0 <= i < decimal(n).len() implies is_digit(#[trigger] decimal(n)[i]) by {
            if i < d.len() {
                assert(decimal(n)[i] == d[i]);
            }
        }
    } else {
        let c = digit_char(n as int);
        assert(decimal(n).drop_last() =~= Seq::<char>::empty());
        assert(c as int - 48 == n);
        assert(digits_value(decimal(n)) == digits_value(decimal(n).drop_last()) * 10 + ((decimal(n).last() as int - 48) as nat));
    }
}

/// Reading the decimal text of a number gives the number back.
pub proof fn law_decimal_round_trip(n: usize)
    ensures
        parse_usize_spec(decimal(n as nat)) == Some(n),
{
    lemma_decimal_digits(n as nat);
    let s = decimal(n as nat);
    assert(is_digit(s[0]));
}

} // verus!
