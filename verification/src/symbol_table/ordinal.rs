use vstd::prelude::*;
use vstd::string::StringExecFns;

verus! {

/// The character for a decimal digit.
pub open spec fn digit_char(digit: nat) -> char {
    if digit == 0 {
        '0'
    } else if digit == 1 {
        '1'
    } else if digit == 2 {
        '2'
    } else if digit == 3 {
        '3'
    } else if digit == 4 {
        '4'
    } else if digit == 5 {
        '5'
    } else if digit == 6 {
        '6'
    } else if digit == 7 {
        '7'
    } else if digit == 8 {
        '8'
    } else {
        '9'
    }
}

/// A natural number written in decimal, without leading zeros.
pub open spec fn decimal(n: nat) -> Seq<char>
    decreases n,
{
    if n < 10 {
        seq![digit_char(n)]
    } else {
        decimal(n / 10).push(digit_char(n % 10))
    }
}

/// The name under which the closure with this ordinal is recorded.
pub open spec fn closure_name(ordinal: nat) -> Seq<char> {
    "<closure"@ + decimal(ordinal) + ">"@
}

/// The number that a list of decimal digits stands for, least significant
/// digit first.
pub open spec fn digits_value(digits: Seq<u8>) -> nat
    decreases digits.len(),
{
    if digits.len() == 0 {
        0
    } else {
        digits[0] as nat + 10 * digits_value(digits.drop_first())
    }
}

/// The digits, most significant first, as characters.
pub open spec fn digits_text(digits: Seq<u8>) -> Seq<char>
    decreases digits.len(),
{
    if digits.len() == 0 {
        Seq::empty()
    } else {
        digits_text(digits.drop_first()).push(digit_char(digits[0] as nat))
    }
}

/// Every item is a decimal digit, and the most significant one is not zero.
pub open spec fn is_canonical(digits: Seq<u8>) -> bool {
    &&& forall|i: int| 0 <= i < digits.len() ==> #[trigger] digits[i] < 10
    &&& digits.len() > 0 ==> digits.last() != 0
}

/// The first `i` digits were nines and are zeros now; the others are as they
/// were.
spec fn carried(before: Seq<u8>, now: Seq<u8>, i: int) -> bool {
    &&& now.len() == before.len()
    &&& forall|j: int| 0 <= j < i ==> before[j] == 9 && now[j] == 0
    &&& forall|j: int| i <= j < before.len() ==> now[j] == before[j]
}

proof fn lemma_carry(before: Seq<u8>, after: Seq<u8>, i: int)
    requires
        0 <= i <= before.len(),
        after.len() >= i,
        forall|j: int| 0 <= j < i ==> before[j] == 9 && after[j] == 0,
        i < before.len() ==> {
            &&& after.len() == before.len()
            &&& after[i] == before[i] + 1
            &&& forall|j: int| i < j < before.len() ==> after[j] == before[j]
        },
        i == before.len() ==> after.len() == before.len() + 1 && after[i] == 1,
    ensures
        digits_value(after) == digits_value(before) + 1,
    decreases i,
{
    if i == 0 {
        if before.len() > 0 {
            assert(after.drop_first() =~= before.drop_first());
        } else {
            assert(after.drop_first() =~= Seq::<u8>::empty());
            assert(digits_value(after.drop_first()) == 0);
        }
    } else {
        lemma_carry(before.drop_first(), after.drop_first(), i - 1);
    }
}

proof fn lemma_canonical_positive(digits: Seq<u8>)
    requires
        is_canonical(digits),
        digits.len() > 0,
    ensures
        digits_value(digits) > 0,
    decreases digits.len(),
{
    if digits.len() > 1 {
        let rest = digits.drop_first();
        assert(rest.last() == digits.last());
        assert(is_canonical(rest)) by {
            assert forall|i: int| 0 <= i < rest.len() implies #[trigger] rest[i] < 10 by {
                assert(rest[i] == digits[i + 1]);
            }
        }
        lemma_canonical_positive(rest);
    }
}

proof fn lemma_digits_text(digits: Seq<u8>)
    requires
        is_canonical(digits),
        digits.len() > 0,
    ensures
        digits_text(digits) == decimal(digits_value(digits)),
    decreases digits.len(),
{
    let rest = digits.drop_first();
    assert(digits[0] < 10);
    if digits.len() == 1 {
        assert(rest.len() == 0);
        assert(digits_value(rest) == 0);
        assert(digits_text(rest) =~= Seq::<char>::empty());
        assert(digits_text(digits) =~= seq![digit_char(digits[0] as nat)]);
    } else {
        assert(rest.last() == digits.last());
        assert(is_canonical(rest)) by {
            assert forall|i: int| 0 <= i < rest.len() implies #[trigger] rest[i] < 10 by {
                assert(rest[i] == digits[i + 1]);
            }
        }
        lemma_canonical_positive(rest);
        lemma_digits_text(rest);
        let value = digits_value(digits);
        assert(value == digits[0] as nat + 10 * digits_value(rest));
        assert(value >= 10);
        assert(value / 10 == digits_value(rest));
        assert(value % 10 == digits[0] as nat);
    }
}

/// The text of one decimal digit.
fn digit_text(digit: u8) -> (text: &'static str)
    requires
        digit < 10,
    ensures
        text@ == seq![digit_char(digit as nat)],
{
    proof {
        reveal_strlit("0");
        reveal_strlit("1");
        reveal_strlit("2");
        reveal_strlit("3");
        reveal_strlit("4");
        reveal_strlit("5");
        reveal_strlit("6");
        reveal_strlit("7");
        reveal_strlit("8");
        reveal_strlit("9");
    }
    let text = if digit == 0 {
        "0"
    } else if digit == 1 {
        "1"
    } else if digit == 2 {
        "2"
    } else if digit == 3 {
        "3"
    } else if digit == 4 {
        "4"
    } else if digit == 5 {
        "5"
    } else if digit == 6 {
        "6"
    } else if digit == 7 {
        "7"
    } else if digit == 8 {
        "8"
    } else {
        "9"
    };
    assert(text@ =~= seq![digit_char(digit as nat)]);
    text
}

/// A count that never overflows: a natural number kept as its decimal digits.
#[derive(Debug)]
pub struct Ordinal {
    digits: Vec<u8>,
}

impl View for Ordinal {
    type V = nat;

    closed spec fn view(&self) -> nat {
        digits_value(self.digits@)
    }
}

impl Clone for Ordinal {
    fn clone(&self) -> (copy: Self)
        ensures
            copy@ == self@,
    {
        proof {
            use_type_invariant(self);
        }
        let mut digits: Vec<u8> = Vec::new();
        let mut i: usize = 0;
        while i < self.digits.len()
            invariant
                i <= self.digits.len(),
                digits@ == self.digits@.take(i as int),
            decreases self.digits.len() - i,
        {
            digits.push(self.digits[i]);
            assert(digits@ =~= self.digits@.take(i as int + 1));
            i += 1;
        }
        assert(digits@ =~= self.digits@);
        Ordinal { digits }
    }
}

impl Ordinal {
    #[verifier::type_invariant]
    spec fn canonical(self) -> bool {
        is_canonical(self.digits@)
    }

    /// Zero.
    pub fn new() -> (zero: Self)
        ensures
            zero@ == 0,
    {
        Ordinal { digits: Vec::new() }
    }

    /// Adds one.
    pub fn increment(&mut self)
        ensures
            final(self)@ == old(self)@ + 1,
    {
        proof {
            use_type_invariant(&*self);
        }
        let mut digits: Vec<u8> = Vec::new();
        core::mem::swap(&mut self.digits, &mut digits);
        let ghost before = digits@;
        let mut i: usize = 0;
        while i < digits.len() && digits[i] == 9
            invariant
                i <= digits.len(),
                is_canonical(before),
                carried(before, digits@, i as int),
            decreases digits.len() - i,
        {
            digits.set(i, 0);
            i += 1;
        }
        let ghost zeroed = digits@;
        if i < digits.len() {
            let digit = digits[i];
            assert(before[i as int] < 10);
            digits.set(i, digit + 1);
        } else {
            digits.push(1);
        }
        proof {
            assert forall|j: int| 0 <= j < i implies before[j] == 9 && digits@[j] == 0 by {
                assert(zeroed[j] == 0);
            }
            assert forall|j: int| i < j < before.len() implies digits@[j] == before[j] by {
                assert(zeroed[j] == before[j]);
            }
            lemma_carry(before, digits@, i as int);
            assert(is_canonical(digits@)) by {
                assert forall|j: int| 0 <= j < digits@.len() implies #[trigger] digits@[j] < 10 by {
                    if j > i {
                        assert(before[j] < 10);
                    } else if j == i && i < before.len() {
                        assert(before[j] < 10);
                    }
                }
                if i < before.len() && i + 1 < before.len() {
                    assert(digits@.last() == before.last());
                }
            }
        }
        core::mem::swap(&mut self.digits, &mut digits);
    }

    /// The count in decimal.
    pub fn text(&self) -> (text: String)
        ensures
            text@ == decimal(self@),
    {
        proof {
            use_type_invariant(self);
        }
        if self.digits.len() == 0 {
            proof {
                reveal_strlit("0");
                assert("0"@ =~= seq![digit_char(0)]);
            }
            return String::from_str("0");
        }
        let mut text = String::new();
        let mut i: usize = self.digits.len();
        proof {
            assert(self.digits@.skip(i as int) =~= Seq::<u8>::empty());
        }
        while i > 0
            invariant
                i <= self.digits.len(),
                is_canonical(self.digits@),
                text@ == digits_text(self.digits@.skip(i as int)),
            decreases i,
        {
            i -= 1;
            let ghost rest = self.digits@.skip(i as int);
            proof {
                assert(rest.drop_first() =~= self.digits@.skip(i as int + 1));
                assert(rest[0] == self.digits@[i as int]);
                assert(self.digits@[i as int] < 10);
            }
            let digit = digit_text(self.digits[i]);
            text.append(digit);
            proof {
                assert(text@ =~= digits_text(rest.drop_first()).push(digit_char(rest[0] as nat)));
            }
        }
        proof {
            assert(self.digits@.skip(0) =~= self.digits@);
            lemma_digits_text(self.digits@);
        }
        text
    }

    /// The name under which the closure with this ordinal is recorded.
    pub fn closure_name(&self) -> (name: String)
        ensures
            name@ == closure_name(self@),
    {
        let mut name = String::from_str("<closure");
        let number = self.text();
        name.append(number.as_str());
        name.append(">");
        name
    }
}

/// A number in decimal has at least one digit.
pub proof fn lemma_decimal_len(n: nat)
    ensures
        decimal(n).len() >= 1,
        n >= 10 ==> decimal(n).len() >= 2,
    decreases n,
{
    if n >= 10 {
        lemma_decimal_len(n / 10);
    }
}

/// Different numbers are written differently.
pub proof fn lemma_decimal_injective(a: nat, b: nat)
    requires
        decimal(a) == decimal(b),
    ensures
        a == b,
    decreases a,
{
    lemma_decimal_len(a);
    lemma_decimal_len(b);
    if a < 10 || b < 10 {
        assert(a < 10 && b < 10);
        assert(decimal(a)[0] == digit_char(a));
        assert(decimal(b)[0] == digit_char(b));
    } else {
        let front_a = decimal(a / 10);
        let front_b = decimal(b / 10);
        assert(decimal(a).last() == digit_char(a % 10));
        assert(decimal(b).last() == digit_char(b % 10));
        assert(front_a =~= decimal(a).drop_last());
        assert(front_b =~= decimal(b).drop_last());
        lemma_decimal_injective(a / 10, b / 10);
    }
}

/// Closures with different ordinals are recorded under different names.
pub proof fn lemma_closure_names_distinct(a: nat, b: nat)
    requires
        a != b,
    ensures
        closure_name(a) != closure_name(b),
{
    if closure_name(a) == closure_name(b) {
        let front = "<closure"@;
        let back = ">"@;
        let left = decimal(a);
        let right = decimal(b);
        assert((front + left + back).len() == (front + right + back).len());
        assert(left.len() == right.len());
        assert forall|i: int| 0 <= i < left.len() implies left[i] == right[i] by {
            assert((front + left + back)[front.len() + i] == left[i]);
            assert((front + right + back)[front.len() + i] == right[i]);
        }
        assert(left =~= right);
        lemma_decimal_injective(a, b);
    }
}

/// The first two ordinals make the names `<closure1>` and `<closure2>`.
pub proof fn lemma_closure_name_literals()
    ensures
        closure_name(1) == "<closure1>"@,
        closure_name(2) == "<closure2>"@,
{
    reveal_strlit("<closure");
    reveal_strlit(">");
    reveal_strlit("<closure1>");
    reveal_strlit("<closure2>");
    assert(decimal(1) =~= seq!['1']);
    assert(decimal(2) =~= seq!['2']);
    assert(closure_name(1) =~= "<closure1>"@);
    assert(closure_name(2) =~= "<closure2>"@);
}

} // verus!
