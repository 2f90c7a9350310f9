//! Decimal numerals: what number a text stands for, and the text of a number.

use vstd::arithmetic::power::pow;
use vstd::prelude::*;
use vstd::string::StringExecFns;

use crate::text::chars_of;

verus! {

pub open spec fn is_digit(c: char) -> bool {
    '0' <= c <= '9'
}

/// The number a digit stands for; zero for any other character.
pub open spec fn digit_value(c: char) -> nat {
    if is_digit(c) {
        (c as nat - '0' as nat) as nat
    } else {
        0
    }
}

/// One or more digits.
pub open spec fn is_decimal(digits: Seq<char>) -> bool {
    &&& digits.len() > 0
    &&& forall|i: int| 0 <= i < digits.len() ==> is_digit(#[trigger] digits[i])
}

/// The number that a run of digits stands for.
pub open spec fn decimal_value(digits: Seq<char>) -> nat
    decreases digits.len(),
{
    if digits.len() == 0 {
        0
    } else {
        decimal_value(digits.drop_last()) * 10 + digit_value(digits.last())
    }
}

/// Whether a text starts with a sign that counts as one: a minus counts only
/// where the numeral may be negative.
pub open spec fn has_sign(text: Seq<char>, signed: bool) -> bool {
    text.len() > 0 && (text[0] == '+' || (signed && text[0] == '-'))
}

/// The number a numeral stands for: an optional sign and one or more digits,
/// nothing else.
pub open spec fn integer_value(text: Seq<char>, signed: bool) -> Option<int> {
    let digits = if has_sign(text, signed) {
        text.drop_first()
    } else {
        text
    };
    if !is_decimal(digits) {
        None
    } else if has_sign(text, signed) && text[0] == '-' {
        Some(-(decimal_value(digits) as int))
    } else {
        Some(decimal_value(digits) as int)
    }
}

/// The number a numeral stands for, if it lies between `min` and `max`.
pub open spec fn integer_within(text: Seq<char>, signed: bool, min: int, max: int) -> Option<int> {
    match integer_value(text, signed) {
        Some(value) => if min <= value <= max {
            Some(value)
        } else {
            None
        },
        None => None,
    }
}

pub open spec fn digit_char(d: nat) -> char {
    ('0' as nat + d) as char
}

/// The digits of a number, without leading zeros.
pub open spec fn decimal_digits(n: nat) -> Seq<char>
    decreases n,
{
    if n < 10 {
        seq![digit_char(n)]
    } else {
        decimal_digits(n / 10).push(digit_char(n % 10))
    }
}

/// The shortest numeral that stands for a number.
pub open spec fn decimal(value: int) -> Seq<char> {
    if value < 0 {
        seq!['-'] + decimal_digits((-value) as nat)
    } else {
        decimal_digits(value as nat)
    }
}

proof fn lemma_prefix_value(digits: Seq<char>, n: int)
    requires
        0 <= n <= digits.len(),
    ensures
        decimal_value(digits.take(n)) <= decimal_value(digits),
    decreases digits.len(),
{
    if n == digits.len() {
        assert(digits.take(n) =~= digits);
    } else {
        lemma_prefix_value(digits.drop_last(), n);
        assert(digits.drop_last().take(n) =~= digits.take(n));
    }
}

/// Reads the digits of `text` from position `from` on.
fn parse_digits(text: &Vec<char>, from: usize) -> (res: Option<u128>)
    requires
        from <= text.len(),
    ensures
        match res {
            Some(value) => is_decimal(text@.skip(from as int)) && value == decimal_value(
                text@.skip(from as int),
            ),
            None => !is_decimal(text@.skip(from as int)) || decimal_value(text@.skip(from as int))
                > u128::MAX,
        },
{
    let ghost digits = text@.skip(from as int);
    if from == text.len() {
        return None;
    }
    let mut value: u128 = 0;
    let mut i: usize = from;
    assert(digits.take(0) =~= seq![]);
    while i < text.len()
        invariant
            from <= i <= text.len(),
            digits == text@.skip(from as int),
            value == decimal_value(digits.take(i - from)),
            forall|j: int| 0 <= j < i - from ==> is_digit(#[trigger] digits[j]),
        decreases text.len() - i,
    {
        let c = text[i];
        assert(digits[i - from] == c);
        if !('0' <= c && c <= '9') {
            return None;
        }
        let digit: u128 = (c as u32 - '0' as u32) as u128;
        proof {
            assert(digits.take(i - from + 1).drop_last() =~= digits.take(i - from));
            assert(digits.take(i - from + 1).last() == c);
            lemma_prefix_value(digits, i - from + 1);
        }
        let shifted: u128 = match value.checked_mul(10) {
            Some(shifted) => shifted,
            None => return None,
        };
        value = match shifted.checked_add(digit) {
            Some(sum) => sum,
            None => return None,
        };
        i += 1;
    }
    assert(digits.take(text.len() - from) =~= digits);
    Some(value)
}

/// Reads a numeral; gives whether it has a minus sign, and its digits' value.
fn parse_numeral(text: &str, signed: bool) -> (res: Option<(bool, u128)>)
    ensures
        match res {
            Some((negative, magnitude)) => {
                &&& negative ==> signed
                &&& integer_value(text@, signed) == Some(
                    if negative {
                        -(magnitude as int)
                    } else {
                        magnitude as int
                    },
                )
            },
            None => match integer_value(text@, signed) {
                Some(value) => value < -u128::MAX || value > u128::MAX,
                None => true,
            },
        },
{
    let chars = chars_of(text);
    let mut negative: bool = false;
    let mut from: usize = 0;
    if chars.len() > 0 && (chars[0] == '+' || (signed && chars[0] == '-')) {
        negative = chars[0] == '-';
        from = 1;
    }
    proof {
        assert(text@.skip(0) =~= text@);
        if text@.len() > 0 {
            assert(text@.skip(1) =~= text@.drop_first());
        }
    }
    match parse_digits(&chars, from) {
        Some(magnitude) => Some((negative, magnitude)),
        None => None,
    }
}

/// Appends the digits of `n`.
fn push_digits(text: &mut String, n: u128)
    ensures
        final(text)@ == old(text)@ + decimal_digits(n as nat),
    decreases n,
{
    if n >= 10 {
        push_digits(text, n / 10);
    }
    let digit: u8 = (n % 10) as u8;
    text.push((48 + digit) as char);
    assert(text@ =~= old(text)@ + decimal_digits(n as nat));
}

/// The shortest numeral for a number given by its sign and magnitude.
fn decimal_text(negative: bool, magnitude: u128) -> (text: String)
    ensures
        text@ == decimal(
            if negative {
                -(magnitude as int)
            } else {
                magnitude as int
            },
        ),
{
    let mut text = String::new();
    if negative && magnitude > 0 {
        text.push('-');
    }
    push_digits(&mut text, magnitude);
    assert(text@ =~= decimal(
        if negative {
            -(magnitude as int)
        } else {
            magnitude as int
        },
    ));
    text
}

/// The shortest numeral for a number.
pub fn u32_text(n: u32) -> (text: String)
    ensures
        text@ == decimal(n as int),
{
    decimal_text(false, n as u128)
}

/// The text of an integer literal without a suffix: the number that `n` stands
/// for, which has to fit in an `i128` or in a `u128`.
pub open spec fn integer_literal(n: Seq<char>) -> Option<Seq<char>> {
    match integer_within(n, true, i128::MIN as int, i128::MAX as int) {
        Some(value) => Some(decimal(value)),
        None => match integer_within(n, false, 0, u128::MAX as int) {
            Some(value) => Some(decimal(value)),
            None => None,
        },
    }
}

/// Writes the number that `n` stands for as the text of an integer literal.
pub fn integer_text(n: &str) -> (res: Option<String>)
    ensures
        match res {
            Some(text) => integer_literal(n@) == Some(text@),
            None => integer_literal(n@) is None,
        },
{
    match parse_numeral(n, true) {
        Some((negative, magnitude)) => {
            if negative && magnitude > 0x8000_0000_0000_0000_0000_0000_0000_0000u128 {
                return None;
            }
            Some(decimal_text(negative, magnitude))
        },
        None => None,
    }
}

/// The integer types that a literal's suffix can name.
#[derive(Debug, Clone, Copy, PartialEq, Eq, Hash, Structural)]
pub enum IntegerKind {
    U8,
    U16,
    U32,
    U64,
    U128,
    Usize,
    I8,
    I16,
    I32,
    I64,
    I128,
    Isize,
}

/// The integer type of a given name.
pub open spec fn integer_kind(name: Seq<char>) -> Option<IntegerKind> {
    if name == "u8"@ {
        Some(IntegerKind::U8)
    } else if name == "u16"@ {
        Some(IntegerKind::U16)
    } else if name == "u32"@ {
        Some(IntegerKind::U32)
    } else if name == "u64"@ {
        Some(IntegerKind::U64)
    } else if name == "u128"@ {
        Some(IntegerKind::U128)
    } else if name == "usize"@ {
        Some(IntegerKind::Usize)
    } else if name == "i8"@ {
        Some(IntegerKind::I8)
    } else if name == "i16"@ {
        Some(IntegerKind::I16)
    } else if name == "i32"@ {
        Some(IntegerKind::I32)
    } else if name == "i64"@ {
        Some(IntegerKind::I64)
    } else if name == "i128"@ {
        Some(IntegerKind::I128)
    } else if name == "isize"@ {
        Some(IntegerKind::Isize)
    } else {
        None
    }
}

impl IntegerKind {
    /// The least number of this type.
    pub open spec fn least(self) -> int {
        match self {
            IntegerKind::I8 => i8::MIN as int,
            IntegerKind::I16 => i16::MIN as int,
            IntegerKind::I32 => i32::MIN as int,
            IntegerKind::I64 => i64::MIN as int,
            IntegerKind::I128 => i128::MIN as int,
            IntegerKind::Isize => isize::MIN as int,
            _ => 0,
        }
    }

    /// The greatest number of this type.
    pub open spec fn greatest(self) -> int {
        match self {
            IntegerKind::U8 => u8::MAX as int,
            IntegerKind::U16 => u16::MAX as int,
            IntegerKind::U32 => u32::MAX as int,
            IntegerKind::U64 => u64::MAX as int,
            IntegerKind::U128 => u128::MAX as int,
            IntegerKind::Usize => usize::MAX as int,
            IntegerKind::I8 => i8::MAX as int,
            IntegerKind::I16 => i16::MAX as int,
            IntegerKind::I32 => i32::MAX as int,
            IntegerKind::I64 => i64::MAX as int,
            IntegerKind::I128 => i128::MAX as int,
            IntegerKind::Isize => isize::MAX as int,
        }
    }

    /// The integer type of a given name.
    pub fn from_name(name: &str) -> (kind: Option<IntegerKind>)
        ensures
            kind == integer_kind(name@),
    {
        let name = name.to_owned();
        if name == "u8".to_owned() {
            Some(IntegerKind::U8)
        } else if name == "u16".to_owned() {
            Some(IntegerKind::U16)
        } else if name == "u32".to_owned() {
            Some(IntegerKind::U32)
        } else if name == "u64".to_owned() {
            Some(IntegerKind::U64)
        } else if name == "u128".to_owned() {
            Some(IntegerKind::U128)
        } else if name == "usize".to_owned() {
            Some(IntegerKind::Usize)
        } else if name == "i8".to_owned() {
            Some(IntegerKind::I8)
        } else if name == "i16".to_owned() {
            Some(IntegerKind::I16)
        } else if name == "i32".to_owned() {
            Some(IntegerKind::I32)
        } else if name == "i64".to_owned() {
            Some(IntegerKind::I64)
        } else if name == "i128".to_owned() {
            Some(IntegerKind::I128)
        } else if name == "isize".to_owned() {
            Some(IntegerKind::Isize)
        } else {
            None
        }
    }

    /// How far below zero the type reaches.
    fn depth(self) -> (depth: u128)
        ensures
            depth == -self.least(),
    {
        match self {
            IntegerKind::I8 => 0x80,
            IntegerKind::I16 => 0x8000,
            IntegerKind::I32 => 0x8000_0000,
            IntegerKind::I64 => 0x8000_0000_0000_0000,
            IntegerKind::I128 => 0x8000_0000_0000_0000_0000_0000_0000_0000,
            IntegerKind::Isize => isize::MAX as u128 + 1,
            _ => 0,
        }
    }

    /// How far above zero the type reaches.
    fn height(self) -> (height: u128)
        ensures
            height == self.greatest(),
    {
        match self {
            IntegerKind::U8 => u8::MAX as u128,
            IntegerKind::U16 => u16::MAX as u128,
            IntegerKind::U32 => u32::MAX as u128,
            IntegerKind::U64 => u64::MAX as u128,
            IntegerKind::U128 => u128::MAX,
            IntegerKind::Usize => usize::MAX as u128,
            IntegerKind::I8 => i8::MAX as u128,
            IntegerKind::I16 => i16::MAX as u128,
            IntegerKind::I32 => i32::MAX as u128,
            IntegerKind::I64 => i64::MAX as u128,
            IntegerKind::I128 => i128::MAX as u128,
            IntegerKind::Isize => isize::MAX as u128,
        }
    }
}

/// The text of an integer literal with the suffix `kind`: the number that `n`
/// stands for, which has to fit in the type of that name, and then the name.
pub open spec fn typed_integer_literal(n: Seq<char>, kind: Seq<char>) -> Option<Seq<char>> {
    match integer_kind(kind) {
        Some(ty) => match integer_within(n, ty.least() < 0, ty.least(), ty.greatest()) {
            Some(value) => Some(decimal(value) + kind),
            None => None,
        },
        None => None,
    }
}

/// Writes the number that `n` stands for as the text of an integer literal of
/// the type that `kind` names.
pub fn typed_integer_text(n: &str, kind: &str) -> (res: Option<String>)
    ensures
        match res {
            Some(text) => typed_integer_literal(n@, kind@) == Some(text@),
            None => typed_integer_literal(n@, kind@) is None,
        },
{
    let ty = match IntegerKind::from_name(kind) {
        Some(ty) => ty,
        None => return None,
    };
    let depth = ty.depth();
    match parse_numeral(n, depth > 0) {
        Some((negative, magnitude)) => {
            if magnitude > (if negative {
                depth
            } else {
                ty.height()
            }) {
                return None;
            }
            let mut text = decimal_text(negative, magnitude);
            text.append(kind);
            Some(text)
        },
        None => None,
    }
}

proof fn lemma_digits_are_decimal(n: nat)
    ensures
        is_decimal(decimal_digits(n)),
    decreases n,
{
    if n >= 10 {
        lemma_digits_are_decimal(n / 10);
    }
}

proof fn lemma_digits_value(n: nat)
    ensures
        decimal_value(decimal_digits(n)) == n,
    decreases n,
{
    let digits = decimal_digits(n);
    if n < 10 {
        assert(digits.drop_last() =~= seq![]);
    } else {
        lemma_digits_value(n / 10);
        assert(digits.drop_last() =~= decimal_digits(n / 10));
    }
    assert(digits.last() == digit_char(n % 10));
    assert(digit_value(digits.last()) == n % 10);
    assert(decimal_value(digits.drop_last()) == n / 10);
}

/// The numeral written for a number stands for that number.
pub proof fn decimal_reads_back(value: int)
    ensures
        integer_value(decimal(value), true) == Some(value),
        value >= 0 ==> integer_value(decimal(value), false) == Some(value),
{
    let magnitude = (if value < 0 {
        -value
    } else {
        value
    }) as nat;
    lemma_digits_are_decimal(magnitude);
    lemma_digits_value(magnitude);
    let digits = decimal_digits(magnitude);
    assert(is_digit(digits[0]));
    if value < 0 {
        assert(decimal(value).drop_first() =~= digits);
    }
}

/// Different numbers are written differently.
pub proof fn decimal_is_injective(a: int, b: int)
    requires
        decimal(a) == decimal(b),
    ensures
        a == b,
{
    decimal_reads_back(a);
    decimal_reads_back(b);
}

/// An integer literal is a normal form: it stands for the number that was
/// asked for, and making a literal of it again changes nothing.
pub proof fn integer_literal_is_normal_form(n: Seq<char>)
    requires
        integer_literal(n) is Some,
    ensures
        integer_value(integer_literal(n)->0, true) == integer_value(n, true),
        integer_literal(integer_literal(n)->0) == integer_literal(n),
{
    let value = integer_value(n, true)->0;
    decimal_reads_back(value);
}

/// A text makes an integer literal exactly where it stands for a number from
/// the least `i128` to the greatest `u128`.
pub proof fn integer_literal_range(n: Seq<char>)
    ensures
        integer_literal(n) is Some <==> (integer_value(n, true) matches Some(value)
            && i128::MIN <= value <= u128::MAX),
{
}

/// Digits are the ten characters from zero to nine, each standing for its
/// distance from zero.
pub proof fn digits_are_ascii(c: char)
    ensures
        is_digit(c) <==> 0x30 <= c as int <= 0x39,
        is_digit(c) ==> digit_value(c) == c as int - 0x30,
        is_digit(c) ==> decimal_value(seq![c]) == c as int - 0x30,
        decimal_value(Seq::<char>::empty()) == 0,
{
    assert(seq![c].drop_last() =~= Seq::<char>::empty());
    assert(decimal_value(seq![c].drop_last()) == 0);
    assert(seq![c].last() == c);
}

/// Digits count by their place: those before others count ten times as much for
/// each that follows.
pub proof fn decimal_value_is_positional(a: Seq<char>, b: Seq<char>)
    ensures
        decimal_value(a + b) == decimal_value(a) * pow(10, b.len()) + decimal_value(b),
    decreases b.len(),
{
    reveal(pow);
    if b.len() == 0 {
        assert(a + b =~= a);
    } else {
        let rest = b.drop_last();
        decimal_value_is_positional(a, rest);
        assert((a + b).drop_last() =~= a + rest);
        assert((a + b).last() == b.last());
        let high = decimal_value(a) as int;
        let unit = pow(10, rest.len());
        assert(pow(10, b.len()) == 10 * unit);
        assert((high * unit) * 10 == high * (10 * unit)) by (nonlinear_arith);
    }
}

/// What a numeral is, read from its parts: digits alone or behind a plus stand
/// for their value, behind a minus for its negative, and for nothing where no
/// negative is asked for.
pub proof fn numeral_of_parts(digits: Seq<char>, signed: bool)
    requires
        digits.len() > 0,
        forall|i: int| 0 <= i < digits.len() ==> '0' <= #[trigger] digits[i] <= '9',
    ensures
        integer_value(digits, signed) == Some(decimal_value(digits) as int),
        integer_value(seq!['+'] + digits, signed) == Some(decimal_value(digits) as int),
        integer_value(seq!['-'] + digits, true) == Some(-(decimal_value(digits) as int)),
        integer_value(seq!['-'] + digits, false) is None,
{
    assert('0' <= digits[0] <= '9');
    assert((seq!['+'] + digits).drop_first() =~= digits);
    assert((seq!['-'] + digits).drop_first() =~= digits);
    assert(!is_digit((seq!['-'] + digits)[0]));
}

/// Nothing else is a numeral: one is digits, with at most a sign before them, and
/// a minus only where a negative is asked for.
pub proof fn numeral_has_parts(text: Seq<char>, signed: bool)
    requires
        integer_value(text, signed) is Some,
    ensures
        ({
            let sign: int = if text[0] == '+' || text[0] == '-' {
                1
            } else {
                0
            };
            &&& text.len() > sign
            &&& forall|i: int| sign <= i < text.len() ==> '0' <= #[trigger] text[i] <= '9'
            &&& text[0] == '-' ==> signed
        }),
{
    let signs = has_sign(text, signed);
    let digits = if signs {
        text.drop_first()
    } else {
        text
    };
    assert(is_decimal(digits));
    assert(is_digit(digits[0]));
    assert forall|i: int| (if signs { 1int } else { 0int }) <= i < text.len() implies '0'
        <= #[trigger] text[i] <= '9' by {
        assert(is_digit(digits[i - (if signs { 1int } else { 0int })]));
    }
}

/// The numeral written for a number is the shortest: a minus exactly where the
/// number is negative, no plus, no zero in front of other digits, and digits
/// whose value is the number's magnitude.
pub proof fn decimal_is_shortest(value: int)
    ensures
        ({
            let sign: int = if value < 0 {
                1
            } else {
                0
            };
            let text = decimal(value);
            &&& text.len() > sign
            &&& text[0] == '-' <==> value < 0
            &&& forall|i: int| sign <= i < text.len() ==> '0' <= #[trigger] text[i] <= '9'
            &&& text[sign] == '0' ==> value == 0 && text == seq!['0']
            &&& decimal_value(text.skip(sign)) == (if value < 0 {
                -value
            } else {
                value
            })
        }),
{
    let magnitude = (if value < 0 {
        -value
    } else {
        value
    }) as nat;
    let digits = decimal_digits(magnitude);
    lemma_digits_are_decimal(magnitude);
    lemma_digits_value(magnitude);
    lemma_no_leading_zero(magnitude);
    assert(is_digit(digits[0]));
    let sign: int = if value < 0 {
        1
    } else {
        0
    };
    assert(decimal(value).skip(sign) =~= digits);
    assert forall|i: int| sign <= i < decimal(value).len() implies '0' <= #[trigger] decimal(
        value,
    )[i] <= '9' by {
        assert(is_digit(digits[i - sign]));
    }
}

proof fn lemma_no_leading_zero(n: nat)
    ensures
        n > 0 ==> decimal_digits(n)[0] != '0',
        n == 0 ==> decimal_digits(n) == seq!['0'],
        decimal_digits(n).len() > 0,
    decreases n,
{
    if n >= 10 {
        lemma_no_leading_zero(n / 10);
    }
}

/// A number is within a range exactly where it lies in it.
pub proof fn within_is_a_range(text: Seq<char>, signed: bool, min: int, max: int, value: int)
    ensures
        integer_within(text, signed, min, max) == Some(value) <==> (integer_value(text, signed)
            == Some(value) && min <= value && value <= max),
{
}

/// An integer literal is the shortest numeral of the number that was asked for.
pub proof fn integer_literal_is_decimal(n: Seq<char>, value: int)
    requires
        integer_value(n, true) == Some(value),
    ensures
        -0x8000_0000_0000_0000_0000_0000_0000_0000 <= value
            <= 0xffff_ffff_ffff_ffff_ffff_ffff_ffff_ffff ==> integer_literal(n) == Some(
            decimal(value),
        ),
        !(-0x8000_0000_0000_0000_0000_0000_0000_0000 <= value
            <= 0xffff_ffff_ffff_ffff_ffff_ffff_ffff_ffff) ==> integer_literal(n) is None,
{
}

/// The names of the integer types are no others than these twelve.
pub proof fn integer_kinds_are_twelve(n: Seq<char>, kind: Seq<char>)
    ensures
        typed_integer_literal(n, kind) is Some ==> ({
            ||| kind == "u8"@
            ||| kind == "u16"@
            ||| kind == "u32"@
            ||| kind == "u64"@
            ||| kind == "u128"@
            ||| kind == "usize"@
            ||| kind == "i8"@
            ||| kind == "i16"@
            ||| kind == "i32"@
            ||| kind == "i64"@
            ||| kind == "i128"@
            ||| kind == "isize"@
        }),
{
}

/// A suffixed literal is owed exactly where the number lies in the range of the
/// type that the suffix names, and is then the shortest numeral and the suffix.
/// A minus sign counts only for the signed types.
pub proof fn typed_integer_literal_by_range(
    n: Seq<char>,
    kind: Seq<char>,
    signed: bool,
    min: int,
    max: int,
)
    requires
        ({
            ||| kind == "u8"@ && !signed && min == 0 && max == 0xff
            ||| kind == "u16"@ && !signed && min == 0 && max == 0xffff
            ||| kind == "u32"@ && !signed && min == 0 && max == 0xffff_ffff
            ||| kind == "u64"@ && !signed && min == 0 && max == 0xffff_ffff_ffff_ffff
            ||| kind == "u128"@ && !signed && min == 0 && max
                == 0xffff_ffff_ffff_ffff_ffff_ffff_ffff_ffff
            ||| kind == "usize"@ && !signed && min == 0 && max == usize::MAX
            ||| kind == "i8"@ && signed && min == -0x80 && max == 0x7f
            ||| kind == "i16"@ && signed && min == -0x8000 && max == 0x7fff
            ||| kind == "i32"@ && signed && min == -0x8000_0000 && max == 0x7fff_ffff
            ||| kind == "i64"@ && signed && min == -0x8000_0000_0000_0000 && max
                == 0x7fff_ffff_ffff_ffff
            ||| kind == "i128"@ && signed && min == -0x8000_0000_0000_0000_0000_0000_0000_0000
                && max == 0x7fff_ffff_ffff_ffff_ffff_ffff_ffff_ffff
            ||| kind == "isize"@ && signed && min == isize::MIN && max == isize::MAX
        }),
    ensures
        typed_integer_literal(n, kind) is Some <==> (integer_value(n, signed) matches Some(value)
            && min <= value && value <= max),
        typed_integer_literal(n, kind) matches Some(text) ==> text == decimal(
            integer_value(n, signed)->0,
        ) + kind,
{
    integer_kind_by_name(kind);
}

/// Each integer type is found by its own name and by no other.
pub proof fn integer_kind_by_name(name: Seq<char>)
    ensures
        integer_kind(name) == Some(IntegerKind::U8) <==> name == "u8"@,
        integer_kind(name) == Some(IntegerKind::U16) <==> name == "u16"@,
        integer_kind(name) == Some(IntegerKind::U32) <==> name == "u32"@,
        integer_kind(name) == Some(IntegerKind::U64) <==> name == "u64"@,
        integer_kind(name) == Some(IntegerKind::U128) <==> name == "u128"@,
        integer_kind(name) == Some(IntegerKind::Usize) <==> name == "usize"@,
        integer_kind(name) == Some(IntegerKind::I8) <==> name == "i8"@,
        integer_kind(name) == Some(IntegerKind::I16) <==> name == "i16"@,
        integer_kind(name) == Some(IntegerKind::I32) <==> name == "i32"@,
        integer_kind(name) == Some(IntegerKind::I64) <==> name == "i64"@,
        integer_kind(name) == Some(IntegerKind::I128) <==> name == "i128"@,
        integer_kind(name) == Some(IntegerKind::Isize) <==> name == "isize"@,
{
    reveal_strlit("u8");
    reveal_strlit("u16");
    reveal_strlit("u32");
    reveal_strlit("u64");
    reveal_strlit("u128");
    reveal_strlit("usize");
    reveal_strlit("i8");
    reveal_strlit("i16");
    reveal_strlit("i32");
    reveal_strlit("i64");
    reveal_strlit("i128");
    reveal_strlit("isize");
    assert("u8"@.len() == 2 && "u16"@.len() == 3 && "u32"@.len() == 3 && "u64"@.len() == 3);
    assert("i8"@.len() == 2 && "i16"@.len() == 3 && "i32"@.len() == 3 && "i64"@.len() == 3);
    assert("u128"@.len() == 4 && "usize"@.len() == 5);
    assert("i128"@.len() == 4 && "isize"@.len() == 5);
    assert("u8"@[0] == 'u' && "u16"@[0] == 'u' && "u32"@[0] == 'u' && "u64"@[0] == 'u');
    assert("i8"@[0] == 'i' && "i16"@[0] == 'i' && "i32"@[0] == 'i' && "i64"@[0] == 'i');
    assert("u128"@[0] == 'u' && "usize"@[0] == 'u' && "i128"@[0] == 'i' && "isize"@[0] == 'i');
    assert("u16"@[1] == '1' && "u32"@[1] == '3' && "u64"@[1] == '6');
    assert("i16"@[1] == '1' && "i32"@[1] == '3' && "i64"@[1] == '6');
}

} // verus!
