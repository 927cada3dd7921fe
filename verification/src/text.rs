use vstd::prelude::*;
use vstd::string::*;

verus! {

/// The character that writes the decimal digit `d` (`d < 10`).
pub open spec fn digit_char(d: nat) -> char {
    if d == 0 {
        '0'
    } else if d == 1 {
        '1'
    } else if d == 2 {
        '2'
    } else if d == 3 {
        '3'
    } else if d == 4 {
        '4'
    } else if d == 5 {
        '5'
    } else if d == 6 {
        '6'
    } else if d == 7 {
        '7'
    } else if d == 8 {
        '8'
    } else {
        '9'
    }
}

/// The decimal writing of `n`, without sign or leading zeros ("0" for zero).
pub open spec fn decimal(n: nat) -> Seq<char>
    decreases n,
{
    if n < 10 {
        seq![digit_char(n)]
    } else {
        decimal(n / 10).push(digit_char(n % 10))
    }
}

/// `s` with every `c` taken out.
pub open spec fn without_char(s: Seq<char>, c: char) -> Seq<char> {
    s.filter(not_char(c))
}

/// Holds of the characters other than `c`.
pub open spec fn not_char(c: char) -> spec_fn(char) -> bool {
    |x: char| x != c
}

/// Appends one character: `String::push`.
#[verifier::external_body]
pub(crate) fn push_char(s: &mut String, c: char)
    ensures
        final(s)@ == old(s)@.push(c),
{
    s.push(c);
}

fn digit(d: u64) -> (c: char)
    requires
        d < 10,
    ensures
        c == digit_char(d as nat),
{
    if d == 0 {
        '0'
    } else if d == 1 {
        '1'
    } else if d == 2 {
        '2'
    } else if d == 3 {
        '3'
    } else if d == 4 {
        '4'
    } else if d == 5 {
        '5'
    } else if d == 6 {
        '6'
    } else if d == 7 {
        '7'
    } else if d == 8 {
        '8'
    } else {
        '9'
    }
}

/// Appends the decimal writing of `n` to `s`.
pub fn push_decimal(s: &mut String, n: u64)
    ensures
        final(s)@ == old(s)@ + decimal(n as nat),
    decreases n,
{
    if n >= 10 {
        push_decimal(s, n / 10);
    }
    push_char(s, digit(n % 10));
    assert(old(s)@ + decimal(n as nat) =~= final(s)@);
}

/// The decimal writing of `n`, as `n.to_string()` gives it.
pub fn decimal_string(n: u64) -> (s: String)
    ensures
        s@ == decimal(n as nat),
{
    let mut s = String::new();
    push_decimal(&mut s, n);
    assert(s@ =~= decimal(n as nat));
    s
}

/// A mention of the user `id`, as Discord writes it.
pub open spec fn mention(id: u64) -> Seq<char> {
    "<@"@ + decimal(id as nat) + ">"@
}

pub fn push_mention(s: &mut String, id: u64)
    ensures
        final(s)@ == old(s)@ + mention(id),
{
    s.append("<@");
    push_decimal(s, id);
    s.append(">");
    assert(final(s)@ =~= old(s)@ + mention(id));
}

/// `c` is one of the ten decimal digits.
pub open spec fn is_digit(c: char) -> bool {
    c == '0' || c == '1' || c == '2' || c == '3' || c == '4' || c == '5' || c == '6' || c == '7'
        || c == '8' || c == '9'
}

/// The decimal writing of a number is a non-empty run of digits, of one
/// digit exactly for the numbers below ten.
pub proof fn lemma_decimal_digits(n: nat)
    ensures
        decimal(n).len() >= 1,
        (decimal(n).len() == 1) == (n < 10),
        forall|i: int| 0 <= i < decimal(n).len() ==> is_digit(#[trigger] decimal(n)[i]),
    decreases n,
{
    if n >= 10 {
        lemma_decimal_digits(n / 10);
    }
}

proof fn lemma_digit_char_injective(x: nat, y: nat)
    requires
        x < 10,
        y < 10,
        digit_char(x) == digit_char(y),
    ensures
        x == y,
{
}

/// Different numbers are written differently.
pub proof fn lemma_decimal_injective(a: nat, b: nat)
    requires
        decimal(a) == decimal(b),
    ensures
        a == b,
    decreases a,
{
    lemma_decimal_digits(a);
    lemma_decimal_digits(b);
    if a >= 10 && b >= 10 {
        assert(decimal(a).last() == digit_char(a % 10));
        assert(decimal(b).last() == digit_char(b % 10));
        assert(decimal(a).drop_last() =~= decimal(a / 10));
        assert(decimal(b).drop_last() =~= decimal(b / 10));
        lemma_decimal_injective(a / 10, b / 10);
        lemma_digit_char_injective(a % 10, b % 10);
        assert(a == (a / 10) * 10 + a % 10);
        assert(b == (b / 10) * 10 + b % 10);
    } else {
        assert(a < 10 && b < 10);
        assert(decimal(a) == seq![digit_char(a)]);
        assert(decimal(b) == seq![digit_char(b)]);
        assert(decimal(a)[0] == digit_char(a));
        assert(decimal(b)[0] == digit_char(b));
        lemma_digit_char_injective(a, b);
    }
}

/// A number written in decimal and followed by text that does not start
/// with a digit can be read back: both the number and the text are fixed.
pub proof fn lemma_decimal_prefix(a: nat, b: nat, r1: Seq<char>, r2: Seq<char>)
    requires
        decimal(a) + r1 == decimal(b) + r2,
        r1.len() == 0 || !is_digit(r1[0]),
        r2.len() == 0 || !is_digit(r2[0]),
    ensures
        a == b,
        r1 == r2,
{
    lemma_decimal_digits(a);
    lemma_decimal_digits(b);
    let la = decimal(a).len();
    let lb = decimal(b).len();
    let whole = decimal(a) + r1;
    if la < lb {
        assert(whole[la as int] == decimal(b)[la as int]);
        assert(false);
    } else if lb < la {
        assert(whole[lb as int] == decimal(a)[lb as int]);
        assert(false);
    }
    assert(decimal(a) =~= whole.subrange(0, la as int));
    assert(decimal(b) =~= (decimal(b) + r2).subrange(0, lb as int));
    lemma_decimal_injective(a, b);
    assert(r1 =~= whole.subrange(la as int, whole.len() as int));
    assert(r2 =~= (decimal(b) + r2).subrange(lb as int, whole.len() as int));
}

/// A text that starts with a mention reads back to the user mentioned:
/// texts that start with mentions and are equal mention the same user and
/// go on alike.
pub proof fn mention_reads_back(u: u64, v: u64, r1: Seq<char>, r2: Seq<char>)
    requires
        mention(u) + r1 == mention(v) + r2,
    ensures
        u == v,
        r1 == r2,
{
    reveal_strlit("<@");
    reveal_strlit(">");
    let t1 = ">"@ + r1;
    let t2 = ">"@ + r2;
    assert(mention(u) + r1 =~= "<@"@ + (decimal(u as nat) + t1));
    assert(mention(v) + r2 =~= "<@"@ + (decimal(v as nat) + t2));
    assert(decimal(u as nat) + t1 =~= (mention(u) + r1).subrange(2, (mention(u) + r1).len() as int));
    assert(decimal(v as nat) + t2 =~= (mention(v) + r2).subrange(2, (mention(v) + r2).len() as int));
    assert(t1[0] == '>');
    assert(t2[0] == '>');
    lemma_decimal_prefix(u as nat, v as nat, t1, t2);
    assert(r1 =~= t1.subrange(1, t1.len() as int));
    assert(r2 =~= t2.subrange(1, t2.len() as int));
}

/// A text that starts with the mention of `u` begins with "<@", the whole
/// decimal writing of `u`, and ">".
pub proof fn mention_leads(u: u64, r: Seq<char>)
    ensures
        (mention(u) + r).take(("<@"@ + decimal(u as nat) + ">"@).len() as int) == "<@"@ + decimal(
            u as nat,
        ) + ">"@,
{
    assert((mention(u) + r).take(("<@"@ + decimal(u as nat) + ">"@).len() as int) =~= "<@"@
        + decimal(u as nat) + ">"@);
}

} // verus!
