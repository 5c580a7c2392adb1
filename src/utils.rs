//! Phone numbers in international form and amounts for display.

use vstd::prelude::*;
use vstd::string::*;

use crate::text::{chars_of, decimal, padded_decimal, push_char, push_decimal, zero_padded};

verus! {

/// Characters dropped from phone numbers before normalising.
pub open spec fn is_separator(c: char) -> bool {
    c == ' ' || c == '-' || c == '+'
}

/// The characters of `s` that are not separators, in order.
pub open spec fn strip_separators(s: Seq<char>) -> Seq<char> {
    s.filter(|c: char| !is_separator(c))
}

/// A phone number in international form: separators removed, a leading `0` replaced by the
/// `+234` country code, and `+` put in front of anything else.
pub open spec fn normalized_phone(s: Seq<char>) -> Seq<char> {
    let c = strip_separators(s);
    if c.len() > 0 && c[0] == '0' {
        seq!['+', '2', '3', '4'] + c.drop_first()
    } else {
        seq!['+'] + c
    }
}

/// Brings a phone number to international form.
pub fn normalize_phone(phone: &str) -> (r: String)
    ensures
        r@ == normalized_phone(phone@),
{
    let chars = chars_of(phone);
    let mut cleaned: Vec<char> = Vec::new();
    let mut i: usize = 0;
    while i < chars.len()
        invariant
            chars@ == phone@,
            i <= chars@.len(),
            cleaned@ == strip_separators(chars@.subrange(0, i as int)),
        decreases chars@.len() - i,
    {
        let c = chars[i];
        if c != ' ' && c != '-' && c != '+' {
            cleaned.push(c);
        }
        proof {
            let s1 = chars@.subrange(0, i + 1);
            assert(s1.drop_last() =~= chars@.subrange(0, i as int));
            assert(s1.last() == c);
            reveal(Seq::filter);
            assert(strip_separators(s1) == if !is_separator(s1.last()) {
                strip_separators(s1.drop_last()).push(s1.last())
            } else {
                strip_separators(s1.drop_last())
            });
        }
        i = i + 1;
    }
    assert(chars@.subrange(0, i as int) =~= chars@);
    let mut out = String::new();
    let start: usize;
    if cleaned.len() > 0 && cleaned[0] == '0' {
        push_char(&mut out, '+');
        push_char(&mut out, '2');
        push_char(&mut out, '3');
        push_char(&mut out, '4');
        start = 1;
    } else {
        push_char(&mut out, '+');
        start = 0;
    }
    let ghost head = out@;
    let mut k: usize = start;
    while k < cleaned.len()
        invariant
            start <= k <= cleaned@.len(),
            start <= cleaned@.len(),
            out@ == head + cleaned@.subrange(start as int, k as int),
        decreases cleaned@.len() - k,
    {
        push_char(&mut out, cleaned[k]);
        k = k + 1;
        assert(out@ =~= head + cleaned@.subrange(start as int, k as int));
    }
    assert(cleaned@.subrange(1, cleaned@.len() as int) =~= cleaned@.drop_first());
    assert(cleaned@.subrange(0, cleaned@.len() as int) =~= cleaned@);
    assert(out@ =~= normalized_phone(phone@));
    out
}

/// `amount` hundredths written with two decimals.
pub open spec fn hundredths(amount: u64) -> Seq<char> {
    decimal((amount / 100) as nat) + seq!['.'] + zero_padded((amount % 100) as nat, 2)
}

/// An amount in the smallest unit, for display: naira and dollars as major units with two
/// decimals behind their sign, other currencies as the plain number and the currency code.
pub open spec fn formatted_amount(amount: u64, currency: Seq<char>) -> Seq<char> {
    if currency == seq!['N', 'G', 'N'] {
        seq!['\u{20A6}'] + hundredths(amount)
    } else if currency == seq!['U', 'S', 'D'] {
        seq!['$'] + hundredths(amount)
    } else {
        decimal(amount as nat) + seq![' '] + currency
    }
}

fn push_hundredths(s: &mut String, amount: u64)
    ensures
        final(s)@ == old(s)@ + hundredths(amount),
{
    push_decimal(s, amount / 100);
    push_char(s, '.');
    let cents = padded_decimal(amount % 100, 2);
    s.append(cents.as_str());
    assert(final(s)@ =~= old(s)@ + hundredths(amount));
}

/// Formats an amount given in the smallest unit of `currency` for display.
pub fn format_amount(amount: u64, currency: &str) -> (r: String)
    ensures
        r@ == formatted_amount(amount, currency@),
{
    let code = String::from_str(currency);
    let ngn = String::from_str("NGN");
    let usd = String::from_str("USD");
    proof {
        reveal_strlit("NGN");
        reveal_strlit("USD");
    }
    assert(ngn@ =~= seq!['N', 'G', 'N']);
    assert(usd@ =~= seq!['U', 'S', 'D']);
    let mut out = String::new();
    if code == ngn {
        push_char(&mut out, '\u{20A6}');
        push_hundredths(&mut out, amount);
    } else if code == usd {
        push_char(&mut out, '$');
        push_hundredths(&mut out, amount);
    } else {
        push_decimal(&mut out, amount);
        push_char(&mut out, ' ');
        out.append(currency);
    }
    assert(out@ =~= formatted_amount(amount, currency@));
    out
}

} // verus!
