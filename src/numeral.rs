//! Integer literals as `str::parse` and `from_str_radix` read them.
use vstd::prelude::*;

verus! {

/// The value of `c` as a digit of the given radix (10 or 16), if it is one.
pub open spec fn digit_of(c: char, radix: nat) -> Option<nat> {
    if '0' <= c && c <= '9' {
        Some((c as nat - '0' as nat) as nat)
    } else if radix == 16 && 'a' <= c && c <= 'f' {
        Some((c as nat - 'a' as nat + 10) as nat)
    } else if radix == 16 && 'A' <= c && c <= 'F' {
        Some((c as nat - 'A' as nat + 10) as nat)
    } else {
        None
    }
}

pub open spec fn all_digits(s: Seq<char>, radix: nat) -> bool {
    forall|i: int| 0 <= i < s.len() ==> (#[trigger] digit_of(s[i], radix)).is_some()
}

/// The number that the digits of `s` spell, most significant first.
pub open spec fn digits_value(s: Seq<char>, radix: nat) -> nat
    decreases s.len(),
{
    if s.len() == 0 {
        0
    } else {
        digits_value(s.drop_last(), radix) * radix + digit_of(s.last(), radix).unwrap()
    }
}

/// Some(value) when `s` is one or more digits whose value is at most `max`.
pub open spec fn bounded_digits(s: Seq<char>, radix: nat, max: nat) -> Option<nat> {
    if s.len() > 0 && all_digits(s, radix) && digits_value(s, radix) <= max {
        Some(digits_value(s, radix))
    } else {
        None
    }
}

/// An unsigned literal: an optional `+` and then digits, at most `max`.
pub open spec fn unsigned_value(s: Seq<char>, radix: nat, max: nat) -> Option<nat> {
    if s.len() > 0 && s[0] == '+' {
        bounded_digits(s.subrange(1, s.len() as int), radix, max)
    } else {
        bounded_digits(s, radix, max)
    }
}

/// A decimal `i32` literal: an optional sign and then digits.
pub open spec fn i32_value(s: Seq<char>) -> Option<int> {
    if s.len() > 0 && s[0] == '-' {
        match bounded_digits(s.subrange(1, s.len() as int), 10, 0x8000_0000) {
            Some(v) => Some(-v),
            None => None,
        }
    } else {
        match unsigned_value(s, 10, 0x7fff_ffff) {
            Some(v) => Some(v as int),
            None => None,
        }
    }
}

/// A `u32` as a table cell holds it: `0x` and hexadecimal digits, or decimal.
pub open spec fn u32_cell_value(s: Seq<char>) -> Option<nat> {
    if s.len() >= 2 && s[0] == '0' && s[1] == 'x' {
        unsigned_value(s.subrange(2, s.len() as int), 16, 0xffff_ffff)
    } else {
        unsigned_value(s, 10, 0xffff_ffff)
    }
}

proof fn lemma_digits_value_grows(s: Seq<char>, radix: nat, k: int)
    requires
        radix >= 1,
        0 <= k <= s.len(),
        all_digits(s, radix),
    ensures
        digits_value(s.subrange(0, k), radix) <= digits_value(s, radix),
    decreases s.len(),
{
    if k < s.len() {
        let t = s.drop_last();
        assert(all_digits(t, radix)) by {
            assert forall|i: int| 0 <= i < t.len() implies (#[trigger] digit_of(t[i], radix)).is_some() by {
                assert(t[i] == s[i]);
            }
        }
        lemma_digits_value_grows(t, radix, k);
        assert(t.subrange(0, k) =~= s.subrange(0, k));
        assert(digits_value(t, radix) <= digits_value(t, radix) * radix) by (nonlinear_arith)
            requires radix >= 1;
    } else {
        assert(s.subrange(0, k) =~= s);
    }
}

fn digit_exec(c: char, radix: u32) -> (r: Option<u32>)
    requires
        radix == 10 || radix == 16,
    ensures
        r.is_some() == digit_of(c, radix as nat).is_some(),
        r.is_some() ==> r.unwrap() as nat == digit_of(c, radix as nat).unwrap(),
        r.is_some() ==> r.unwrap() < radix,
{
    if '0' <= c && c <= '9' {
        Some((c as u32) - ('0' as u32))
    } else if radix == 16 && 'a' <= c && c <= 'f' {
        Some((c as u32) - ('a' as u32) + 10)
    } else if radix == 16 && 'A' <= c && c <= 'F' {
        Some((c as u32) - ('A' as u32) + 10)
    } else {
        None
    }
}

/// Reads the digits of `s` from `start` to its end.
fn read_digits(s: &str, start: usize, radix: u32, max: u64) -> (r: Option<u64>)
    requires
        start <= s@.len(),
        radix == 10 || radix == 16,
        max <= 0x1_0000_0000,
    ensures
        r.is_some() == bounded_digits(s@.subrange(start as int, s@.len() as int), radix as nat, max as nat).is_some(),
        r.is_some() ==> r.unwrap() as nat == bounded_digits(s@.subrange(start as int, s@.len() as int), radix as nat, max as nat).unwrap(),
{
    let n = s.unicode_len();
    if start >= n {
        return None;
    }
    let ghost body = s@.subrange(start as int, n as int);
    let mut v: u64 = 0;
    let mut i: usize = start;
    while i < n
        invariant
            start <= i <= n,
            n == s@.len(),
            body == s@.subrange(start as int, n as int),
            radix == 10 || radix == 16,
            max <= 0x1_0000_0000,
            all_digits(body.subrange(0, i - start), radix as nat),
            v as nat == digits_value(body.subrange(0, i - start), radix as nat),
            v <= max,
        decreases n - i,
    {
        let c = s.get_char(i);
        let ghost pre = body.subrange(0, i - start);
        let ghost next = body.subrange(0, i + 1 - start);
        assert(next.drop_last() =~= pre);
        assert(next.last() == c);
        match digit_exec(c, radix) {
            None => {
                assert(!all_digits(body, radix as nat)) by {
                    assert(body[i - start] == c);
                }
                return None;
            },
            Some(d) => {
                assert(all_digits(next, radix as nat)) by {
                    assert forall|j: int| 0 <= j < next.len() implies (#[trigger] digit_of(next[j], radix as nat)).is_some() by {
                        if j < pre.len() {
                            assert(next[j] == pre[j]);
                        }
                    }
                }
                assert(v * (radix as u64) <= 0x1_0000_0000 * 16) by (nonlinear_arith)
                    requires v <= 0x1_0000_0000, radix <= 16;
                let w: u64 = v * (radix as u64) + (d as u64);
                if w > max {
                    proof {
                        if all_digits(body, radix as nat) {
                            lemma_digits_value_grows(body, radix as nat, i + 1 - start);
                        }
                    }
                    return None;
                }
                v = w;
            },
        }
        i = i + 1;
    }
    assert(body.subrange(0, n - start) =~= body);
    Some(v)
}

/// Reads an unsigned literal (`+` allowed) from `start` to the end of `s`.
fn read_unsigned(s: &str, start: usize, radix: u32, max: u64) -> (r: Option<u64>)
    requires
        start <= s@.len(),
        radix == 10 || radix == 16,
        max <= 0x1_0000_0000,
    ensures
        r.is_some() == unsigned_value(s@.subrange(start as int, s@.len() as int), radix as nat, max as nat).is_some(),
        r.is_some() ==> r.unwrap() as nat == unsigned_value(s@.subrange(start as int, s@.len() as int), radix as nat, max as nat).unwrap(),
{
    let n = s.unicode_len();
    let ghost body = s@.subrange(start as int, n as int);
    if start < n && s.get_char(start) == '+' {
        assert(body.subrange(1, body.len() as int) =~= s@.subrange(start + 1, n as int));
        read_digits(s, start + 1, radix, max)
    } else {
        read_digits(s, start, radix, max)
    }
}

/// `s.parse::<i32>()`, as a value that is `None` where the parse fails.
pub fn parse_i32(s: &str) -> (r: Option<i32>)
    ensures
        r.is_some() == i32_value(s@).is_some(),
        r.is_some() ==> r.unwrap() as int == i32_value(s@).unwrap(),
{
    let n = s.unicode_len();
    assert(s@.subrange(0, n as int) =~= s@);
    if n > 0 && s.get_char(0) == '-' {
        match read_digits(s, 1, 10, 0x8000_0000) {
            Some(v) => Some((0 - (v as i64)) as i32),
            None => None,
        }
    } else {
        match read_unsigned(s, 0, 10, 0x7fff_ffff) {
            Some(v) => Some(v as i32),
            None => None,
        }
    }
}

/// Reads a `u32` table cell: `0x` and hexadecimal digits, or a decimal literal.
pub fn parse_u32_cell(s: &str) -> (r: Option<u32>)
    ensures
        r.is_some() == u32_cell_value(s@).is_some(),
        r.is_some() ==> r.unwrap() as nat == u32_cell_value(s@).unwrap(),
{
    let n = s.unicode_len();
    assert(s@.subrange(0, n as int) =~= s@);
    let r = if n >= 2 && s.get_char(0) == '0' && s.get_char(1) == 'x' {
        read_unsigned(s, 2, 16, 0xffff_ffff)
    } else {
        read_unsigned(s, 0, 10, 0xffff_ffff)
    };
    match r {
        Some(v) => Some(v as u32),
        None => None,
    }
}

} // verus!
