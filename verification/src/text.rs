//! Decimal text of numbers, as the user interface and the encoder
//! command line show them.
use vstd::prelude::*;
use vstd::string::StrSliceExecFns;
use vstd::string::StringExecFns;

verus! {

/// The character of decimal digit `d`.
pub open spec fn digit_char(d: nat) -> char {
    (48 + d) as char
}

/// The decimal text of `n`, without leading zeros (`"0"` for zero).
pub open spec fn decimal(n: nat) -> Seq<char>
    decreases n,
{
    if n < 10 {
        seq![digit_char(n)]
    } else {
        decimal(n / 10).push(digit_char(n % 10))
    }
}

/// The decimal text of `n`, padded with a leading zero to at least two
/// digits (as `{:02}` formats).
pub open spec fn decimal_two(n: nat) -> Seq<char> {
    if n < 10 { seq!['0'] + decimal(n) } else { decimal(n) }
}

/// The text of a single decimal digit.
fn digit_text(d: u64) -> (text: &'static str)
    requires
        d < 10,
    ensures
        text@ == seq![digit_char(d as nat)],
{
    proof {
        reveal_strlit("0");
        reveal_strlit("1");
        reveal_strlit("2");
        reveal_strlit("3");
        reveal_strlit("4");
        reveal_strlit("5");
        reveal_strlit("6");
        reveal_strlit("7");
        reveal_strlit("8");
        reveal_strlit("9");
    }
    match d {
        0 => "0",
        1 => "1",
        2 => "2",
        3 => "3",
        4 => "4",
        5 => "5",
        6 => "6",
        7 => "7",
        8 => "8",
        _ => "9",
    }
}

/// The decimal text of `n`.
pub fn to_decimal(n: u64) -> (text: String)
    ensures
        text@ == decimal(n as nat),
    decreases n,
{
    if n < 10 {
        digit_text(n).to_owned()
    } else {
        let mut text = to_decimal(n / 10);
        text.append(digit_text(n % 10));
        text
    }
}

/// The decimal text of `n`, at least two digits long.
pub fn to_decimal_two(n: u64) -> (text: String)
    ensures
        text@ == decimal_two(n as nat),
{
    if n < 10 {
        proof {
            reveal_strlit("0");
        }
        let mut text = "0".to_owned();
        text.append(digit_text(n));
        text
    } else {
        to_decimal(n)
    }
}

/// `minutes:seconds` for a position of `total_seconds` whole seconds, each
/// part at least two digits (`"03:07"`).
pub open spec fn minutes_seconds(total_seconds: nat) -> Seq<char> {
    decimal_two(total_seconds / 60) + seq![':'] + decimal_two(total_seconds % 60)
}

/// Formats a playback position or duration of `total_seconds` whole
/// seconds as [`minutes_seconds`].
pub fn format_minutes_seconds(total_seconds: u64) -> (text: String)
    ensures
        text@ == minutes_seconds(total_seconds as nat),
{
    let mut text = to_decimal_two(total_seconds / 60);
    proof {
        reveal_strlit(":");
    }
    text.append(":");
    let seconds = to_decimal_two(total_seconds % 60);
    text.append(seconds.as_str());
    text
}

/// The decimal text of `n`, padded with leading zeros to at least `width`
/// characters (as `{:0width$}` formats).
pub open spec fn zero_padded(n: nat, width: nat) -> Seq<char> {
    let digits = decimal(n);
    if digits.len() < width {
        Seq::new((width - digits.len()) as nat, |_i: int| '0') + digits
    } else {
        digits
    }
}

/// The decimal text of `n`, padded with leading zeros to at least `width`
/// characters.
pub fn to_decimal_padded(n: u64, width: usize) -> (text: String)
    ensures
        text@ == zero_padded(n as nat, width as nat),
{
    let digits = to_decimal(n);
    let len = digits.as_str().unicode_len();
    proof {
        reveal_strlit("");
    }
    let mut text = "".to_owned();
    let mut k: usize = len;
    while k < width
        invariant
            len == decimal(n as nat).len(),
            len <= k,
            k <= width || k == len,
            text@ == Seq::new((k - len) as nat, |_i: int| '0'),
        decreases width - k,
    {
        proof {
            reveal_strlit("0");
        }
        text.append("0");
        k = k + 1;
        assert(text@ =~= Seq::new((k - len) as nat, |_i: int| '0'));
    }
    text.append(digits.as_str());
    if len >= width {
        assert(text@ =~= decimal(n as nat));
    }
    text
}

/// A decimal text has at least one character, and every character is a
/// digit.
pub proof fn lemma_decimal_digits(n: nat)
    ensures
        decimal(n).len() >= 1,
        forall|i: int| 0 <= i < decimal(n).len() ==> '0' <= #[trigger] decimal(n)[i] <= '9',
    decreases n,
{
    if n >= 10 {
        lemma_decimal_digits(n / 10);
    }
}

/// Different numbers have different decimal texts.
pub proof fn lemma_decimal_injective(a: nat, b: nat)
    requires
        decimal(a) == decimal(b),
    ensures
        a == b,
    decreases a,
{
    lemma_decimal_digits(a / 10);
    lemma_decimal_digits(b / 10);
    if a < 10 && b < 10 {
        assert(decimal(a)[0] == digit_char(a));
        assert(decimal(b)[0] == digit_char(b));
    } else if a < 10 {
        assert(decimal(b).len() >= 2);
    } else if b < 10 {
        assert(decimal(a).len() >= 2);
    } else {
        assert(decimal(a).drop_last() =~= decimal(a / 10));
        assert(decimal(b).drop_last() =~= decimal(b / 10));
        lemma_decimal_injective(a / 10, b / 10);
        assert(decimal(a).last() == digit_char(a % 10));
        assert(decimal(b).last() == digit_char(b % 10));
    }
}

/// Only zero's decimal text starts with the digit zero.
pub proof fn lemma_decimal_leading_zero(n: nat)
    requires
        decimal(n)[0] == '0',
    ensures
        n == 0,
    decreases n,
{
    if n >= 10 {
        lemma_decimal_digits(n / 10);
        assert(decimal(n)[0] == decimal(n / 10)[0]);
        lemma_decimal_leading_zero(n / 10);
    }
}

/// Different numbers have different zero-padded texts, whatever the width.
pub proof fn lemma_zero_padded_injective(a: nat, b: nat, width: nat)
    requires
        zero_padded(a, width) == zero_padded(b, width),
    ensures
        a == b,
{
    lemma_decimal_digits(a);
    lemma_decimal_digits(b);
    let da = decimal(a);
    let db = decimal(b);
    if da.len() == db.len() {
        let pa = zero_padded(a, width);
        let k = pa.len() - da.len();
        assert(da =~= pa.subrange(k, pa.len() as int));
        assert(db =~= zero_padded(b, width).subrange(k, pa.len() as int));
        lemma_decimal_injective(a, b);
    } else if da.len() < db.len() {
        // the first digit of `b` stands where `a` is padded with zeros
        let k = width - db.len();
        assert(zero_padded(b, width)[k] == db[0]);
        assert(zero_padded(a, width)[k] == '0');
        lemma_decimal_leading_zero(b);
    } else {
        let k = width - da.len();
        assert(zero_padded(a, width)[k] == da[0]);
        assert(zero_padded(b, width)[k] == '0');
        lemma_decimal_leading_zero(a);
    }
}

} // verus!
