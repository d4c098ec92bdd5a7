use vstd::prelude::*;

use crate::text::{digit_char, digit_value, is_digit_char, lemma_prefix_step, push_digit};

verus! {

/// Numbers per letter step: the decimal segment takes the values `1..=9999`.
pub const LO_SPAN: u32 = 9999;

/// A novel identifier, such as `n4830bu`, held as the number it stands for.
#[derive(Clone, Copy, Debug, PartialEq, Eq, Structural, PartialOrd, Ord, Hash)]
pub struct Ncode(pub u32);

/// Returned when a string is not a well-formed identifier.
#[derive(Clone, Copy, Debug, PartialEq, Eq, Structural)]
pub struct NcodeParseError;

pub open spec fn is_lower_char(c: char) -> bool {
    'a' <= c && c <= 'z'
}

pub open spec fn is_upper_char(c: char) -> bool {
    'A' <= c && c <= 'Z'
}

pub open spec fn is_alpha_char(c: char) -> bool {
    is_lower_char(c) || is_upper_char(c)
}

/// The value of a letter, `a` (or `A`) being 0 and `z` (or `Z`) 25.
pub open spec fn letter_value(c: char) -> int {
    if is_upper_char(c) {
        c as int - 'A' as int
    } else {
        c as int - 'a' as int
    }
}

pub open spec fn letter_char(d: nat) -> char {
    ((d + 97) as u8) as char
}

/// The letter run read as a base-26 number, most significant letter first.
pub open spec fn letters_value(s: Seq<char>) -> int
    decreases s.len(),
{
    if s.len() == 0 {
        0
    } else {
        letters_value(s.drop_last()) * 26 + letter_value(s.last())
    }
}

/// The four-digit decimal segment of `s` (its characters 1 to 4) as a number.
pub open spec fn lo_value(s: Seq<char>) -> int {
    1000 * digit_value(s[1]) + 100 * digit_value(s[2]) + 10 * digit_value(s[3]) + digit_value(s[4])
}

/// `s` is `n` or `N`, four ASCII digits, then ASCII letters only.
pub open spec fn has_ncode_shape(s: Seq<char>) -> bool {
    &&& s.len() >= 5
    &&& (s[0] == 'n' || s[0] == 'N')
    &&& forall|i: int| 1 <= i < 5 ==> is_digit_char(#[trigger] s[i])
    &&& forall|i: int| 5 <= i < s.len() ==> is_alpha_char(#[trigger] s[i])
}

/// The number that a well-shaped identifier string stands for.
pub open spec fn ncode_number(s: Seq<char>) -> int {
    letters_value(s.skip(5)) * LO_SPAN + lo_value(s)
}

/// What a string decodes to: the number it stands for, where it has the shape
/// of an identifier and that number fits in a `u32`.
pub open spec fn decode_ncode(s: Seq<char>) -> Option<u32> {
    if has_ncode_shape(s) && ncode_number(s) <= u32::MAX {
        Some(ncode_number(s) as u32)
    } else {
        None
    }
}

/// `x` in base 26 with the letters `a` to `z`, at least one letter.
pub open spec fn letters_text(x: nat) -> Seq<char>
    decreases x,
{
    if x < 26 {
        seq![letter_char(x)]
    } else {
        letters_text(x / 26).push(letter_char(x % 26))
    }
}

/// `lo` written with exactly four decimal digits.
pub open spec fn lo_text(lo: nat) -> Seq<char> {
    seq![
        digit_char(lo / 1000),
        digit_char((lo / 100) % 10),
        digit_char((lo / 10) % 10),
        digit_char(lo % 10),
    ]
}

/// The letter segment's value in the canonical form of `n`.
pub open spec fn hi_part(n: nat) -> nat {
    if n == 0 {
        0
    } else {
        ((n - 1) / LO_SPAN as int) as nat
    }
}

/// The decimal segment's value in the canonical form of `n`: `1..=9999`, or
/// `0` for the zero identifier.
pub open spec fn lo_part(n: nat) -> nat {
    if n == 0 {
        0
    } else {
        ((n - 1) % LO_SPAN as int + 1) as nat
    }
}

/// The canonical text of the identifier `n`.
pub open spec fn encode_ncode(n: nat) -> Seq<char> {
    seq!['n'] + lo_text(lo_part(n)) + letters_text(hi_part(n))
}

/// `s` is the canonical text of some identifier.
pub open spec fn is_canonical(s: Seq<char>) -> bool {
    exists|n: u32| encode_ncode(n as nat) == s
}

proof fn lemma_letters_value_nonneg(s: Seq<char>)
    requires
        forall|i: int| 0 <= i < s.len() ==> is_alpha_char(#[trigger] s[i]),
    ensures
        letters_value(s) >= 0,
    decreases s.len(),
{
    if s.len() > 0 {
        lemma_letters_value_nonneg(s.drop_last());
    }
}

/// A letter run is worth at least as much as any of its prefixes.
proof fn lemma_letters_value_monotone(s: Seq<char>, i: int)
    requires
        0 <= i <= s.len(),
        forall|k: int| 0 <= k < s.len() ==> is_alpha_char(#[trigger] s[k]),
    ensures
        letters_value(s.subrange(0, i)) <= letters_value(s),
    decreases s.len() - i,
{
    if i < s.len() {
        lemma_letters_value_monotone(s, i + 1);
        lemma_prefix_step(s, i);
        lemma_letters_value_nonneg(s.subrange(0, i));
    } else {
        assert(s.subrange(0, i) =~= s);
    }
}

proof fn lemma_letters_text(x: nat)
    ensures
        letters_text(x).len() >= 1,
        forall|i: int| 0 <= i < letters_text(x).len() ==> is_lower_char(#[trigger] letters_text(x)[i]),
        letters_value(letters_text(x)) == x,
    decreases x,
{
    let d = x % 26;
    assert(letter_value(letter_char(d)) == d);
    if x >= 26 {
        lemma_letters_text(x / 26);
        let t = letters_text(x / 26);
        assert(letters_text(x).drop_last() =~= t);
        assert(letters_text(x).last() == letter_char(d));
        assert(letters_value(letters_text(x)) == letters_value(t) * 26 + letter_value(
            letter_char(d),
        ));
        assert(x == (x / 26) * 26 + d);
    } else {
        assert(letters_text(x).drop_last() =~= Seq::<char>::empty());
        assert(letters_value(Seq::<char>::empty()) == 0);
        assert(letters_value(letters_text(x)) == letter_value(letter_char(d)));
    }
}

proof fn lemma_lo_text(lo: nat)
    requires
        lo <= 9999,
    ensures
        forall|i: int| 0 <= i < 4 ==> is_digit_char(#[trigger] lo_text(lo)[i]),
        1000 * digit_value(lo_text(lo)[0]) + 100 * digit_value(lo_text(lo)[1]) + 10 * digit_value(
            lo_text(lo)[2],
        ) + digit_value(lo_text(lo)[3]) == lo,
{
    assert(1000 * (lo / 1000) + 100 * ((lo / 100) % 10) + 10 * ((lo / 10) % 10) + lo % 10 == lo)
        by (nonlinear_arith)
        requires
            lo <= 9999,
    ;
}

/// Decoding the canonical text of `n` gives `n` back.
pub proof fn lemma_decode_encode(n: u32)
    ensures
        decode_ncode(encode_ncode(n as nat)) == Some(n),
{
    let hi = hi_part(n as nat);
    let lo = lo_part(n as nat);
    let s = encode_ncode(n as nat);
    lemma_lo_text(lo);
    lemma_letters_text(hi);
    assert(s.skip(5) =~= letters_text(hi));
    assert(forall|i: int| 1 <= i < 5 ==> s[i] == lo_text(lo)[i - 1]);
    assert(forall|i: int| 5 <= i < s.len() ==> s[i] == letters_text(hi)[i - 5]);
    assert(has_ncode_shape(s));
    assert(lo_value(s) == lo);
    if n > 0 {
        assert(hi * 9999 + lo == n) by (nonlinear_arith)
            requires
                n > 0,
                hi == (n - 1) / 9999,
                lo == (n - 1) % 9999 + 1,
        ;
    }
}

/// Every canonical identifier text survives a decode followed by an encode.
pub proof fn lemma_round_trip(s: Seq<char>)
    requires
        is_canonical(s),
    ensures
        decode_ncode(s) is Some,
        encode_ncode(decode_ncode(s)->0 as nat) == s,
{
    let n = choose|n: u32| encode_ncode(n as nat) == s;
    lemma_decode_encode(n);
}

/// Any text that decodes, canonical or not, names the same identifier as its
/// canonical form, which is the encoding of the decoded value.
pub proof fn lemma_normalize(s: Seq<char>)
    requires
        decode_ncode(s) is Some,
    ensures
        is_canonical(encode_ncode(decode_ncode(s)->0 as nat)),
        decode_ncode(encode_ncode(decode_ncode(s)->0 as nat)) == decode_ncode(s),
{
    let n = decode_ncode(s)->0;
    lemma_decode_encode(n);
    assert(encode_ncode(n as nat) == encode_ncode(n as nat));
}

fn push_letters(out: &mut String, x: u32)
    ensures
        final(out)@ == old(out)@ + letters_text(x as nat),
    decreases x,
{
    if x >= 26 {
        push_letters(out, x / 26);
    }
    out.push(((x % 26) as u8 + 97) as char);
    assert(x < 26 ==> letters_text(x as nat) == seq![letter_char(x as nat)]);
}

impl NcodeParseError {
    /// The message that describes this error.
    pub fn to_string(&self) -> (r: String)
        ensures
            r@ == "Invalid ncode"@,
    {
        String::from_str("Invalid ncode")
    }
}

impl Ncode {
    /// The identifier that `s` spells: `n` or `N`, four decimal digits, then any
    /// number of letters of either case.
    pub fn parse(s: &str) -> (r: Result<Ncode, NcodeParseError>)
        ensures
            match r {
                Ok(n) => decode_ncode(s@) == Some(n.0),
                Err(_) => decode_ncode(s@) is None,
            },
    {
        let len = s.unicode_len();
        if len < 5 {
            return Err(NcodeParseError);
        }
        let c0 = s.get_char(0);
        if !(c0 == 'n' || c0 == 'N') {
            return Err(NcodeParseError);
        }
        let mut lo: u32 = 0;
        let mut i: usize = 1;
        while i < 5
            invariant
                1 <= i <= 5,
                len == s@.len(),
                len >= 5,
                forall|j: int| 1 <= j < i ==> is_digit_char(#[trigger] s@[j]),
                lo <= 9999,
                i == 1 ==> lo == 0,
                i == 2 ==> lo == digit_value(s@[1]),
                i == 3 ==> lo == 10 * digit_value(s@[1]) + digit_value(s@[2]),
                i == 4 ==> lo == 100 * digit_value(s@[1]) + 10 * digit_value(s@[2]) + digit_value(
                    s@[3],
                ),
                i == 5 ==> lo == lo_value(s@),
                i <= 2 ==> lo <= 9,
                i <= 3 ==> lo <= 99,
                i <= 4 ==> lo <= 999,
            decreases 5 - i,
        {
            let c = s.get_char(i);
            if !(c >= '0' && c <= '9') {
                return Err(NcodeParseError);
            }
            lo = lo * 10 + (c as u32 - 48);
            i = i + 1;
        }
        let mut hi: u32 = 0;
        let mut i: usize = 5;
        let ghost tail = s@.skip(5);
        while i < len
            invariant
                5 <= i <= len,
                len == s@.len(),
                tail == s@.skip(5),
                forall|j: int| 5 <= j < i ==> is_alpha_char(#[trigger] s@[j]),
                hi == letters_value(tail.subrange(0, i - 5)),
            decreases len - i,
        {
            let c = s.get_char(i);
            let upper = c >= 'A' && c <= 'Z';
            if !(upper || (c >= 'a' && c <= 'z')) {
                return Err(NcodeParseError);
            }
            let d: u32 = if upper {
                c as u32 - 65
            } else {
                c as u32 - 97
            };
            proof {
                lemma_prefix_step(tail, i - 5);
            }
            let next = match hi.checked_mul(26) {
                Some(m) => m.checked_add(d),
                None => None,
            };
            match next {
                Some(v) => {
                    hi = v;
                },
                None => {
                    proof {
                        if has_ncode_shape(s@) {
                            assert forall|k: int| 0 <= k < tail.len() implies is_alpha_char(
                                #[trigger] tail[k],
                            ) by {
                                assert(tail[k] == s@[k + 5]);
                            }
                            lemma_letters_value_monotone(tail, i - 4);
                            lemma_letters_value_nonneg(tail.subrange(0, i - 4));
                        }
                    }
                    return Err(NcodeParseError);
                },
            }
            i = i + 1;
        }
        assert(tail.subrange(0, len - 5) =~= tail);
        match hi.checked_mul(LO_SPAN) {
            Some(m) => match m.checked_add(lo) {
                Some(num) => Ok(Ncode(num)),
                None => Err(NcodeParseError),
            },
            None => Err(NcodeParseError),
        }
    }

    /// The canonical text of this identifier: `n`, the decimal segment padded
    /// to four digits, then the letter segment in lower case.
    pub fn to_string(&self) -> (r: String)
        ensures
            r@ == encode_ncode(self.0 as nat),
    {
        let (lo, hi) = if self.0 == 0 {
            (0u32, 0u32)
        } else {
            ((self.0 - 1) % LO_SPAN + 1, (self.0 - 1) / LO_SPAN)
        };
        let mut out = String::new();
        out.push('n');
        push_digit(&mut out, lo / 1000);
        push_digit(&mut out, (lo / 100) % 10);
        push_digit(&mut out, (lo / 10) % 10);
        push_digit(&mut out, lo % 10);
        push_letters(&mut out, hi);
        assert(out@ =~= encode_ncode(self.0 as nat));
        out
    }
}

impl std::str::FromStr for Ncode {
    type Err = NcodeParseError;

    fn from_str(s: &str) -> Result<Ncode, NcodeParseError> {
        Ncode::parse(s)
    }
}

} // verus!
