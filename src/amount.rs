//! Amounts as typed on a command line: decimal digits with an optional
//! fraction and an optional magnitude letter (`k`, `m`, `b`, `t`, either case).
//! An amount is kept exactly, as its digits, the number of fraction digits
//! and the power of one thousand that the letter stands for.

use vstd::arithmetic::power::pow;
use vstd::prelude::*;
use vstd::string::is_ascii;

verus! {

broadcast use vstd::string::group_string_axioms;

/// Why a string is not an amount.
#[derive(Clone, Copy, Debug, PartialEq, Eq, Structural)]
pub enum ParseNumError {
    /// The numeral could not be read as a number.
    InvalidNumber,
    /// A trailing letter is not a magnitude letter.
    InvalidSuffix,
    /// The string does not have the shape of an amount.
    InvalidFormat,
}

pub open spec fn is_digit(c: char) -> bool {
    '0' <= c <= '9'
}

/// The power of one thousand that a magnitude letter stands for; 0 for any
/// other character.
pub open spec fn suffix_magnitude(c: char) -> nat {
    if c == 'k' || c == 'K' {
        1
    } else if c == 'm' || c == 'M' {
        2
    } else if c == 'b' || c == 'B' {
        3
    } else if c == 't' || c == 'T' {
        4
    } else {
        0
    }
}

pub open spec fn has_suffix(s: Seq<char>) -> bool {
    s.len() > 0 && suffix_magnitude(s.last()) > 0
}

/// The string without its magnitude letter.
pub open spec fn numeral(s: Seq<char>) -> Seq<char> {
    if has_suffix(s) {
        s.drop_last()
    } else {
        s
    }
}

/// The power of one thousand that the string's magnitude letter stands for.
pub open spec fn magnitude_of(s: Seq<char>) -> nat {
    if has_suffix(s) {
        suffix_magnitude(s.last())
    } else {
        0
    }
}

/// One or more digits, then optionally a point and one or more digits.
pub open spec fn is_numeral(t: Seq<char>) -> bool {
    &&& t.len() > 0
    &&& is_digit(t[0])
    &&& is_digit(t.last())
    &&& forall|i: int| 0 <= i < t.len() ==> is_digit(#[trigger] t[i]) || t[i] == '.'
    &&& forall|i: int, j: int|
        0 <= i < j < t.len() && #[trigger] t[i] == '.' ==> #[trigger] t[j] != '.'
}

/// The grammar of an amount: a numeral, then at most one magnitude letter.
pub open spec fn is_amount(s: Seq<char>) -> bool {
    is_numeral(numeral(s))
}

pub open spec fn point_at(t: Seq<char>, i: int) -> bool {
    0 <= i < t.len() && t[i] == '.'
}

/// The number of digits after the point; 0 where there is none.
pub open spec fn fraction_len(t: Seq<char>) -> nat {
    if exists|i: int| point_at(t, i) {
        (t.len() - 1 - choose|i: int| point_at(t, i)) as nat
    } else {
        0
    }
}

/// The numeral's characters without the point, as ASCII bytes.
pub open spec fn digit_bytes(t: Seq<char>) -> Seq<u8>
    decreases t.len(),
{
    if t.len() == 0 {
        Seq::empty()
    } else if t.last() == '.' {
        digit_bytes(t.drop_last())
    } else {
        digit_bytes(t.drop_last()).push(t.last() as u8)
    }
}

/// The natural number that a string of ASCII digits spells.
pub open spec fn decimal_value(d: Seq<u8>) -> nat
    decreases d.len(),
{
    if d.len() == 0 {
        0
    } else {
        decimal_value(d.drop_last()) * 10 + (d.last() - 48) as nat
    }
}

/// The factor of a magnitude: 1, one thousand, a million, a billion, a trillion.
pub open spec fn magnitude_factor(m: nat) -> nat {
    pow(1000, m) as nat
}

/// What a string reads as: the amount's digits, fraction length and magnitude,
/// or the error.
pub open spec fn parse_spec(s: Seq<char>) -> Result<(Seq<u8>, nat, nat), ParseNumError> {
    if is_amount(s) {
        Ok((digit_bytes(numeral(s)), fraction_len(numeral(s)), magnitude_of(s)))
    } else {
        Err(ParseNumError::InvalidFormat)
    }
}

/// A reading's result, with the amount in its view.
pub open spec fn parse_view(r: Result<Amount, ParseNumError>) -> Result<
    (Seq<u8>, nat, nat),
    ParseNumError,
> {
    match r {
        Ok(a) => Ok(a@),
        Err(e) => Err(e),
    }
}

/// Reading is pure: two readings of one string give the same amount, or the
/// same error.
pub proof fn lemma_parse_amount_pure(
    s: Seq<char>,
    r1: Result<Amount, ParseNumError>,
    r2: Result<Amount, ParseNumError>,
)
    requires
        parse_view(r1) == parse_spec(s),
        parse_view(r2) == parse_spec(s),
    ensures
        parse_view(r1) == parse_view(r2),
        r1 is Ok <==> r2 is Ok,
        r1 matches Ok(a1) ==> r2 matches Ok(a2) && a1.numerator() == a2.numerator()
            && a1.denominator() == a2.denominator(),
{
}

/// An exact non-negative decimal amount: `mantissa / 10^scale * 1000^magnitude`.
pub struct Amount {
    digits: Vec<u8>,
    scale: usize,
    magnitude: u8,
}

impl View for Amount {
    type V = (Seq<u8>, nat, nat);

    /// The mantissa's ASCII digits, the fraction length and the magnitude.
    closed spec fn view(&self) -> (Seq<u8>, nat, nat) {
        (self.digits@, self.scale as nat, self.magnitude as nat)
    }
}

impl Amount {
    /// The ASCII digits of the mantissa.
    pub open spec fn spec_digits(&self) -> Seq<u8> {
        self@.0
    }

    pub open spec fn spec_scale(&self) -> nat {
        self@.1
    }

    pub open spec fn spec_magnitude(&self) -> nat {
        self@.2
    }

    /// At least one ASCII digit, fewer fraction digits than digits, and one of
    /// the five magnitudes.
    pub open spec fn wf(&self) -> bool {
        &&& self.spec_digits().len() > 0
        &&& forall|i: int|
            0 <= i < self.spec_digits().len() ==> 0x30 <= #[trigger] self.spec_digits()[i] <= 0x39
        &&& self.spec_scale() < self.spec_digits().len()
        &&& self.spec_magnitude() <= 4
    }

    pub open spec fn mantissa(&self) -> nat {
        decimal_value(self.spec_digits())
    }

    /// The amount's numerator over `10^scale`.
    pub open spec fn numerator(&self) -> nat {
        self.mantissa() * magnitude_factor(self.spec_magnitude())
    }

    pub open spec fn denominator(&self) -> nat {
        pow(10, self.spec_scale()) as nat
    }

    /// The mantissa's ASCII digits, most significant first.
    pub fn digits(&self) -> (r: &Vec<u8>)
        ensures
            r@ == self.spec_digits(),
    {
        &self.digits
    }

    /// How many of the mantissa's digits stand after the point.
    pub fn scale(&self) -> (r: usize)
        ensures
            r == self.spec_scale(),
    {
        self.scale
    }

    /// The power of one thousand that multiplies the numeral.
    pub fn magnitude(&self) -> (r: u8)
        ensures
            r == self.spec_magnitude(),
    {
        self.magnitude
    }

    /// The power of ten that multiplies the mantissa: the amount is
    /// `mantissa * 10^exponent`.
    pub fn exponent(&self) -> (r: i128)
        ensures
            r == 3 * self.spec_magnitude() - self.spec_scale(),
    {
        3 * (self.magnitude as i128) - (self.scale as i128)
    }
}

/// The magnitude that a byte stands for as a suffix letter; 0 for any other byte.
fn suffix_byte_magnitude(b: u8) -> (r: u8)
    ensures
        r as nat == suffix_magnitude(b as char),
{
    if b == 0x6b || b == 0x4b {
        1
    } else if b == 0x6d || b == 0x4d {
        2
    } else if b == 0x62 || b == 0x42 {
        3
    } else if b == 0x74 || b == 0x54 {
        4
    } else {
        0
    }
}

fn is_digit_byte(b: u8) -> (r: bool)
    ensures
        r == is_digit(b as char),
{
    0x30 <= b && b <= 0x39
}

/// Reads an amount: a numeral of ASCII digits with an optional fraction,
/// then at most one magnitude letter. Every string of that shape is an
/// amount, kept exactly; every other string is `InvalidFormat`.
pub fn parse_amount(s: &str) -> (r: Result<Amount, ParseNumError>)
    ensures
        parse_view(r) == parse_spec(s@),
        r is Ok <==> is_amount(s@),
        r is Err ==> r == Err::<Amount, ParseNumError>(ParseNumError::InvalidFormat),
        r matches Ok(a) ==> {
            &&& a.wf()
            &&& a.spec_digits() == digit_bytes(numeral(s@))
            &&& a.spec_scale() == fraction_len(numeral(s@))
            &&& a.spec_magnitude() == magnitude_of(s@)
            &&& a.numerator() == decimal_value(digit_bytes(numeral(s@))) * magnitude_factor(
                magnitude_of(s@),
            )
            &&& a.denominator() == pow(10, fraction_len(numeral(s@))) as nat
        },
{
    if !s.is_ascii() {
        proof {
            let t = numeral(s@);
            if is_numeral(t) {
                assert forall|k: int| 0 <= k < s@.len() implies '\0' <= #[trigger] s@[k] <= '\u{7f}' by {
                    if k < t.len() {
                        assert(t[k] == s@[k]);
                        assert(is_digit(t[k]) || t[k] == '.');
                    } else {
                        assert(has_suffix(s@) && k == s@.len() - 1);
                    }
                }
                assert(is_ascii(s));
            }
        }
        return Err(ParseNumError::InvalidFormat);
    }
    let bytes = s.as_bytes();
    let n = bytes.len();
    assert(bytes@.len() == s@.len());
    assert(forall|i: int| 0 <= i < n ==> bytes@[i] == s@[i] as u8);
    let mut end: usize = n;
    let mut magnitude: u8 = 0;
    if n > 0 {
        let m = suffix_byte_magnitude(bytes[n - 1]);
        if m > 0 {
            end = n - 1;
            magnitude = m;
        }
    }
    let ghost t = numeral(s@);
    assert(t =~= s@.subrange(0, end as int));
    if end == 0 || !is_digit_byte(bytes[0]) || !is_digit_byte(bytes[end - 1]) {
        return Err(ParseNumError::InvalidFormat);
    }
    let mut digits: Vec<u8> = Vec::new();
    let mut point: Option<usize> = None;
    let mut i: usize = 0;
    while i < end
        invariant
            end <= n == bytes@.len() == s@.len(),
            t == s@.subrange(0, end as int),
            t == numeral(s@),
            forall|k: int| 0 <= k < n ==> bytes@[k] == s@[k] as u8,
            s.is_ascii(),
            i <= end,
            digits@ == digit_bytes(t.subrange(0, i as int)),
            forall|k: int| 0 <= k < digits@.len() ==> 0x30 <= #[trigger] digits@[k] <= 0x39,
            digits@.len() + (if point is Some { 1int } else { 0int }) == i,
            point is None ==> forall|k: int| 0 <= k < i ==> is_digit(#[trigger] t[k]),
            point matches Some(d) ==> {
                &&& d < i
                &&& t[d as int] == '.'
                &&& forall|k: int| 0 <= k < i && k != d ==> is_digit(#[trigger] t[k])
            },
        decreases end - i,
    {
        let b = bytes[i];
        assert(t.subrange(0, i + 1).drop_last() =~= t.subrange(0, i as int));
        if is_digit_byte(b) {
            digits.push(b);
        } else if b == 0x2e && point.is_none() {
            point = Some(i);
        } else {
            proof {
                if b == 0x2e {
                    let d = point->0;
                    assert(t[d as int] == '.' && t[i as int] == '.');
                    assert(!is_numeral(t));
                } else {
                    assert(!(is_digit(t[i as int]) || t[i as int] == '.'));
                    assert(!is_numeral(t));
                }
                assert(!is_amount(s@));
            }
            return Err(ParseNumError::InvalidFormat);
        }
        i += 1;
    }
    assert(t.subrange(0, end as int) =~= t);
    let scale: usize = match point {
        Some(d) => {
            proof {
                assert(point_at(t, d as int));
                let c = choose|k: int| point_at(t, k);
                assert(c == d);
            }
            end - 1 - d
        },
        None => 0,
    };
    proof {
        if point is None {
            assert(!exists|k: int| point_at(t, k));
        }
    }
    Ok(Amount { digits, scale, magnitude })
}

} // verus!
