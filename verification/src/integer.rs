//! Integers of any size, kept as a sign and decimal digits.

use vstd::prelude::*;

verus! {

/// The number that the decimal digits `digits` write, most significant first.
pub open spec fn digits_value(digits: Seq<u8>) -> nat
    decreases digits.len(),
{
    if digits.len() == 0 {
        0
    } else {
        digits_value(digits.drop_last()) * 10 + digits.last() as nat
    }
}

/// Whether a sign and digits are the one way to write their number: at least
/// one digit, each below ten, no leading zero on a longer numeral, and no
/// sign on zero.
pub open spec fn canonical(negative: bool, digits: Seq<u8>) -> bool {
    &&& digits.len() >= 1
    &&& forall|i: int| 0 <= i < digits.len() ==> digits[i] < 10
    &&& digits.len() > 1 ==> digits[0] != 0
    &&& negative ==> digits[0] != 0
}

/// The character that writes the decimal digit `d`.
pub open spec fn digit_char(d: u8) -> char {
    seq!['0', '1', '2', '3', '4', '5', '6', '7', '8', '9'][d as int]
}

/// The decimal numeral of `n`, without leading zeros.
pub open spec fn nat_text(n: nat) -> Seq<char>
    decreases n,
{
    if n < 10 {
        seq![digit_char(n as u8)]
    } else {
        nat_text(n / 10).push(digit_char((n % 10) as u8))
    }
}

/// The canonical decimal text of `i`: a minus sign if it is negative, then
/// the numeral of its magnitude.
pub open spec fn decimal_text(i: int) -> Seq<char> {
    if i < 0 {
        seq!['-'] + nat_text((-i) as nat)
    } else {
        nat_text(i as nat)
    }
}

/// A longer numeral without a leading zero writes a number of at least as
/// many digits.
proof fn lemma_digits_value_positive(digits: Seq<u8>)
    requires
        digits.len() >= 1,
        digits[0] != 0,
    ensures
        digits_value(digits) >= 1,
        digits.len() >= 2 ==> digits_value(digits) >= 10,
    decreases digits.len(),
{
    if digits.len() >= 2 {
        lemma_digits_value_positive(digits.drop_last());
    } else {
        assert(digits.drop_last().len() == 0);
    }
}

/// The numeral of the number that canonical digits write is those digits.
proof fn lemma_nat_text_of_digits(digits: Seq<u8>)
    requires
        canonical(false, digits),
    ensures
        nat_text(digits_value(digits)) == digits.map_values(|d: u8| digit_char(d)),
    decreases digits.len(),
{
    let front = digits.drop_last();
    let chars = digits.map_values(|d: u8| digit_char(d));
    if digits.len() == 1 {
        assert(front.len() == 0);
        assert(digits_value(digits) == digits[0]);
        assert(nat_text(digits_value(digits)) =~= chars);
    } else {
        lemma_digits_value_positive(front);
        lemma_nat_text_of_digits(front);
        let n = digits_value(digits);
        assert(n / 10 == digits_value(front) && n % 10 == digits.last());
        assert(n >= 10);
        assert(front.map_values(|d: u8| digit_char(d)).push(digit_char(digits.last())) =~= chars);
    }
}

/// An integer of any size.
#[derive(Debug, PartialEq, Eq)]
pub struct Integer {
    negative: bool,
    digits: Vec<u8>,
}

impl View for Integer {
    type V = int;

    closed spec fn view(&self) -> int {
        if self.negative {
            -(digits_value(self.digits@) as int)
        } else {
            digits_value(self.digits@) as int
        }
    }
}

impl Clone for Integer {
    fn clone(&self) -> (copy: Self)
        ensures
            copy@ == self@,
            copy.spec_digits() == self.spec_digits(),
    {
        proof {
            use_type_invariant(self);
        }
        let digits = self.digits.clone();
        assert(digits@ =~= self.digits@);
        Integer { negative: self.negative, digits }
    }
}

/// The text of one decimal digit.
fn digit_str(d: u8) -> (s: &'static str)
    requires
        d < 10,
    ensures
        s@ == seq![digit_char(d)],
{
    proof {
        reveal_strlit("0");
        reveal_strlit("1");
        reveal_strlit("2");
        reveal_strlit("3");
        reveal_strlit("4");
        reveal_strlit("5");
        reveal_strlit("6");
        reveal_strlit("7");
        reveal_strlit("8");
        reveal_strlit("9");
    }
    let s = match d {
        0 => "0",
        1 => "1",
        2 => "2",
        3 => "3",
        4 => "4",
        5 => "5",
        6 => "6",
        7 => "7",
        8 => "8",
        _ => "9",
    };
    assert(s@ =~= seq![digit_char(d)]);
    s
}

impl Integer {
    #[verifier::type_invariant]
    closed spec fn well_formed(&self) -> bool {
        canonical(self.negative, self.digits@)
    }

    /// The digits of the magnitude, most significant first.
    pub closed spec fn spec_digits(&self) -> Seq<u8> {
        self.digits@
    }

    /// The integer with the given sign and decimal digits, most significant
    /// first, if they are its canonical writing.
    pub fn new(negative: bool, digits: Vec<u8>) -> (made: Option<Integer>)
        ensures
            made is Some <==> canonical(negative, digits@),
            made matches Some(i) ==> {
                &&& i@ == if negative { -(digits_value(digits@) as int) } else { digits_value(digits@) as int }
                &&& i.spec_digits() == digits@
            },
    {
        let n = digits.len();
        if n == 0 {
            return None;
        }
        if digits[0] == 0 && (n > 1 || negative) {
            return None;
        }
        let mut i: usize = 0;
        while i < n
            invariant
                n == digits.len(),
                i <= n,
                forall|j: int| 0 <= j < i ==> digits[j] < 10,
            decreases n - i,
        {
            if digits[i] >= 10 {
                return None;
            }
            i = i + 1;
        }
        Some(Integer { negative, digits })
    }

    /// Whether the integer is below zero.
    pub fn is_negative(&self) -> (negative: bool)
        ensures
            negative == (self@ < 0),
    {
        proof {
            use_type_invariant(self);
            if self.negative {
                lemma_digits_value_positive(self.digits@);
            }
        }
        self.negative
    }

    /// The decimal digits of the magnitude, most significant first.
    pub fn digits(&self) -> (digits: &Vec<u8>)
        ensures
            digits@ == self.spec_digits(),
            canonical(self@ < 0, digits@),
            digits_value(digits@) == if self@ < 0 { -self@ } else { self@ },
    {
        proof {
            use_type_invariant(self);
            if self.negative {
                lemma_digits_value_positive(self.digits@);
            }
        }
        &self.digits
    }

    /// The canonical decimal text of the integer.
    pub fn to_decimal(&self) -> (text: String)
        ensures
            text@ == decimal_text(self@),
    {
        proof {
            use_type_invariant(self);
            lemma_nat_text_of_digits(self.digits@);
            if self.negative {
                lemma_digits_value_positive(self.digits@);
            }
        }
        let mut text = if self.negative {
            proof {
                reveal_strlit("-");
            }
            String::from_str("-")
        } else {
            String::new()
        };
        let ghost sign = text@;
        let mut i: usize = 0;
        while i < self.digits.len()
            invariant
                i <= self.digits.len(),
                forall|j: int| 0 <= j < self.digits.len() ==> self.digits[j] < 10,
                text@ == sign + self.digits@.take(i as int).map_values(|d: u8| digit_char(d)),
            decreases self.digits.len() - i,
        {
            text.append(digit_str(self.digits[i]));
            proof {
                let done = self.digits@.take(i as int).map_values(|d: u8| digit_char(d));
                let next = self.digits@.take(i + 1).map_values(|d: u8| digit_char(d));
                assert(next =~= done.push(digit_char(self.digits[i as int])));
                assert(sign + done + seq![digit_char(self.digits[i as int])] =~= sign + next);
            }
            i = i + 1;
        }
        assert(self.digits@.take(self.digits.len() as int) =~= self.digits@);
        assert(sign =~= if self.negative { seq!['-'] } else { Seq::<char>::empty() });
        assert(Seq::<char>::empty() + nat_text(digits_value(self.digits@)) =~= nat_text(digits_value(self.digits@)));
        text
    }
}

} // verus!
