//! Synthetic names: `prefix$counter`, for bindings that the source gives no
//! name to.
use vstd::prelude::*;

verus! {

/// The character of one decimal digit.
pub open spec fn digit(d: nat) -> char {
    if d == 0 {
        '0'
    } else if d == 1 {
        '1'
    } else if d == 2 {
        '2'
    } else if d == 3 {
        '3'
    } else if d == 4 {
        '4'
    } else if d == 5 {
        '5'
    } else if d == 6 {
        '6'
    } else if d == 7 {
        '7'
    } else if d == 8 {
        '8'
    } else {
        '9'
    }
}

/// `n` in decimal, without sign or leading zeros.
pub open spec fn decimal(n: nat) -> Seq<char>
    decreases n,
{
    if n < 10 {
        seq![digit(n)]
    } else {
        decimal(n / 10).push(digit(n % 10))
    }
}

/// The rendered name of the synthetic identifier `{ prefix, counter }`.
pub open spec fn synthetic_name(prefix: Seq<char>, counter: nat) -> Seq<char> {
    prefix + seq!['$'] + decimal(counter)
}

/// Formats `n` with `{}`. For an unsigned integer std writes the decimal
/// digits, most significant first, with no sign and no padding.
#[verifier::external_body]
fn decimal_string(n: u128) -> (s: String)
    ensures
        s@ == decimal(n as nat),
{
    format!("{}", n)
}

/// Renders the synthetic identifier `{ prefix, counter }`.
pub fn synthetic_ident(prefix: &str, counter: u128) -> (s: String)
    ensures
        s@ == synthetic_name(prefix@, counter as nat),
{
    proof {
        reveal_strlit("$");
    }
    let mut s = String::from_str(prefix);
    s.append("$");
    let digits = decimal_string(counter);
    s.append(digits.as_str());
    assert("$"@ =~= seq!['$']);
    s
}

/// A decimal digit.
pub open spec fn is_digit(c: char) -> bool {
    c == '0' || c == '1' || c == '2' || c == '3' || c == '4' || c == '5' || c == '6' || c == '7'
        || c == '8' || c == '9'
}

/// The decimal form of a number is made of digits, at least one, and of two
/// or more from ten on.
pub proof fn lemma_decimal_is_digits(n: nat)
    ensures
        decimal(n).len() >= 1,
        n >= 10 ==> decimal(n).len() >= 2,
        forall|i: int| 0 <= i < decimal(n).len() ==> is_digit(#[trigger] decimal(n)[i]),
    decreases n,
{
    if n >= 10 {
        lemma_decimal_is_digits(n / 10);
    }
}

/// Different numbers have different decimal forms.
pub proof fn lemma_decimal_is_injective(a: nat, b: nat)
    requires
        decimal(a) == decimal(b),
    ensures
        a == b,
    decreases a,
{
    lemma_decimal_is_digits(a);
    lemma_decimal_is_digits(b);
    if a >= 10 {
        let x = decimal(a / 10);
        let y = decimal(b / 10);
        assert(b >= 10);
        assert(decimal(a).last() == digit(a % 10));
        assert(decimal(b).last() == digit(b % 10));
        assert(decimal(a).drop_last() =~= x);
        assert(decimal(b).drop_last() =~= y);
        lemma_decimal_is_injective(a / 10, b / 10);
        assert(a % 10 == b % 10);
    } else {
        assert(b < 10);
        assert(decimal(a)[0] == digit(a));
        assert(decimal(b)[0] == digit(b));
    }
}

/// Synthetic names with different counters are different names, whatever
/// their prefixes: within one pass no synthetic name is issued twice.
pub proof fn law_synthetic_names_differ(
    prefix: Seq<char>,
    counter: nat,
    other_prefix: Seq<char>,
    other_counter: nat,
)
    requires
        counter != other_counter,
    ensures
        synthetic_name(prefix, counter) != synthetic_name(other_prefix, other_counter),
{
    let a = synthetic_name(prefix, counter);
    let b = synthetic_name(other_prefix, other_counter);
    lemma_decimal_is_digits(counter);
    lemma_decimal_is_digits(other_counter);
    if a == b {
        let head = prefix + seq!['$'];
        let other_head = other_prefix + seq!['$'];
        assert(a == head + decimal(counter));
        assert(b == other_head + decimal(other_counter));
        assert(head[prefix.len() as int] == '$');
        assert(other_head[other_prefix.len() as int] == '$');
        assert(a.len() == b.len());
        if prefix.len() < other_prefix.len() {
            let at = other_prefix.len() as int;
            assert(b[at] == other_head[at]);
            assert(a[at] == decimal(counter)[at - head.len()]);
            assert(is_digit(decimal(counter)[at - head.len()]));
        } else if other_prefix.len() < prefix.len() {
            let at = prefix.len() as int;
            assert(a[at] == head[at]);
            assert(b[at] == decimal(other_counter)[at - other_head.len()]);
            assert(is_digit(decimal(other_counter)[at - other_head.len()]));
        } else {
            assert(decimal(counter) =~= a.subrange(head.len() as int, a.len() as int));
            assert(decimal(other_counter) =~= b.subrange(other_head.len() as int, b.len() as int));
            lemma_decimal_is_injective(counter, other_counter);
        }
    }
}

} // verus!
