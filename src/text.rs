use vstd::prelude::*;

verus! {

/// Relies on `String::push`: appends the character to the end.
pub assume_specification[ String::push ](s: &mut String, ch: char)
    ensures
        final(s)@ == old(s)@.push(ch),
;

pub open spec fn is_digit_char(c: char) -> bool {
    '0' <= c && c <= '9'
}

pub open spec fn digit_value(c: char) -> int {
    c as int - '0' as int
}

pub open spec fn digit_char(d: nat) -> char {
    ((d + 48) as u8) as char
}

/// `n` in decimal, without leading zeros.
pub open spec fn decimal_text(n: nat) -> Seq<char>
    decreases n,
{
    if n < 10 {
        seq![digit_char(n)]
    } else {
        decimal_text(n / 10).push(digit_char(n % 10))
    }
}

/// A run of decimal digits read as a number, most significant digit first.
pub open spec fn decimal_value(s: Seq<char>) -> int
    decreases s.len(),
{
    if s.len() == 0 {
        0
    } else {
        decimal_value(s.drop_last()) * 10 + digit_value(s.last())
    }
}

pub fn push_digit(out: &mut String, d: u32)
    requires
        d < 10,
    ensures
        final(out)@ == old(out)@.push(digit_char(d as nat)),
{
    out.push((d as u8 + 48) as char);
}

/// Appends `n` in decimal.
pub fn push_decimal(out: &mut String, n: u64)
    ensures
        final(out)@ == old(out)@ + decimal_text(n as nat),
    decreases n,
{
    if n >= 10 {
        push_decimal(out, n / 10);
    }
    push_digit(out, (n % 10) as u32);
    assert(n < 10 ==> decimal_text(n as nat) == seq![digit_char(n as nat)]);
}

/// Every character of `s` is a decimal digit.
pub open spec fn all_digits(s: Seq<char>) -> bool {
    forall|i: int| 0 <= i < s.len() ==> is_digit_char(#[trigger] s[i])
}

/// What `usize`'s `from_str` gives for `t`: an optional `+`, then one or
/// more decimal digits whose value fits.
pub open spec fn parse_usize_text(t: Seq<char>) -> Option<nat> {
    let digits = if t.len() > 0 && t[0] == '+' {
        t.skip(1)
    } else {
        t
    };
    if digits.len() > 0 && all_digits(digits) && decimal_value(digits) <= usize::MAX {
        Some(decimal_value(digits) as nat)
    } else {
        None
    }
}

/// `s` without the leading `prefix`, or `s` itself where it does not start so.
pub open spec fn without_prefix(s: Seq<char>, prefix: Seq<char>) -> Seq<char> {
    if prefix.len() <= s.len() && s.subrange(0, prefix.len() as int) == prefix {
        s.subrange(prefix.len() as int, s.len() as int)
    } else {
        s
    }
}

pub proof fn lemma_prefix_step<A>(s: Seq<A>, i: int)
    requires
        0 <= i < s.len(),
    ensures
        s.subrange(0, i + 1).drop_last() == s.subrange(0, i),
        s.subrange(0, i + 1).last() == s[i],
{
    assert(s.subrange(0, i + 1).drop_last() =~= s.subrange(0, i));
}

proof fn lemma_decimal_value_nonneg(s: Seq<char>)
    requires
        all_digits(s),
    ensures
        decimal_value(s) >= 0,
    decreases s.len(),
{
    if s.len() > 0 {
        lemma_decimal_value_nonneg(s.drop_last());
    }
}

/// A digit run is worth at least as much as any of its prefixes.
proof fn lemma_decimal_value_monotone(s: Seq<char>, i: int)
    requires
        0 <= i <= s.len(),
        all_digits(s),
    ensures
        decimal_value(s.subrange(0, i)) <= decimal_value(s),
    decreases s.len() - i,
{
    if i < s.len() {
        lemma_decimal_value_monotone(s, i + 1);
        lemma_prefix_step(s, i);
        lemma_decimal_value_nonneg(s.subrange(0, i));
    } else {
        assert(s.subrange(0, i) =~= s);
    }
}

/// Reads `s[from..to]` as `usize`'s `from_str` does.
pub fn parse_usize_at(s: &str, from: usize, to: usize) -> (r: Option<usize>)
    requires
        from <= to <= s@.len(),
    ensures
        match r {
            Some(n) => parse_usize_text(s@.subrange(from as int, to as int)) == Some(n as nat),
            None => parse_usize_text(s@.subrange(from as int, to as int)) is None,
        },
{
    let ghost t = s@.subrange(from as int, to as int);
    let mut i = from;
    if from < to && s.get_char(from) == '+' {
        i = from + 1;
    }
    let ghost digits = s@.subrange(i as int, to as int);
    assert(digits =~= (if t.len() > 0 && t[0] == '+' {
        t.skip(1)
    } else {
        t
    }));
    if i == to {
        return None;
    }
    let start = i;
    let mut value: usize = 0;
    while i < to
        invariant
            start <= i <= to,
            start < to,
            to <= s@.len(),
            t == s@.subrange(from as int, to as int),
            digits == s@.subrange(start as int, to as int),
            digits == (if t.len() > 0 && t[0] == '+' {
                t.skip(1)
            } else {
                t
            }),
            forall|j: int| 0 <= j < i - start ==> is_digit_char(#[trigger] digits[j]),
            value == decimal_value(digits.subrange(0, i - start)),
        decreases to - i,
    {
        let c = s.get_char(i);
        if !(c >= '0' && c <= '9') {
            assert(digits[i - start] == c);
            return None;
        }
        proof {
            lemma_prefix_step(digits, i - start);
        }
        let d = (c as u32 - 48) as usize;
        let next = match value.checked_mul(10) {
            Some(m) => m.checked_add(d),
            None => None,
        };
        match next {
            Some(v) => {
                value = v;
            },
            None => {
                proof {
                    if all_digits(digits) {
                        lemma_decimal_value_monotone(digits, i - start + 1);
                        lemma_decimal_value_nonneg(digits.subrange(0, i - start));
                    }
                }
                return None;
            },
        }
        i = i + 1;
    }
    assert(digits.subrange(0, to - start) =~= digits);
    Some(value)
}

/// `s` without the leading `prefix`, or `s` itself where it does not start so.
pub fn strip_prefix(s: String, prefix: &str) -> (r: String)
    ensures
        r@ == without_prefix(s@, prefix@),
{
    let n = prefix.unicode_len();
    let len = s.as_str().unicode_len();
    if n <= len {
        let head = String::from_str(s.as_str().substring_char(0, n));
        if head == String::from_str(prefix) {
            return String::from_str(s.as_str().substring_char(n, len));
        }
    }
    s
}

} // verus!
