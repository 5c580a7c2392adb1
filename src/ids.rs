//! Escrow, transaction and deposit-address identifiers.

use vstd::prelude::*;
use vstd::string::*;

use crate::text::{lemma_value_of_zero_padded, padded_decimal, zero_padded};
use crate::types::Currency;

verus! {

/// What `str::to_lowercase` makes of a string.
pub uninterp spec fn lower_of(s: Seq<char>) -> Seq<char>;

/// Relies on `str::to_lowercase`: the result depends on the characters alone.
#[verifier::external_body]
fn lowercase(s: &str) -> (r: String)
    ensures
        r@ == lower_of(s@),
{
    s.to_lowercase()
}

/// Width of the zero-padded sequence number in generated identifiers.
pub const ID_DIGITS: usize = 10;

/// The identifier of the `n`-th escrow: `ESC-` and `n` in ten or more digits.
pub open spec fn escrow_id_of(n: nat) -> Seq<char> {
    seq!['E', 'S', 'C', '-'] + zero_padded(n, ID_DIGITS as nat)
}

/// The identifier of the `n`-th wallet transaction: `TX-` and `n` in ten or more digits.
pub open spec fn tx_id_of(n: nat) -> Seq<char> {
    seq!['T', 'X', '-'] + zero_padded(n, ID_DIGITS as nat)
}

/// The deposit address of an escrow, derived from its identifier and currency.
pub open spec fn deposit_address_of(escrow_id: Seq<char>, currency: Currency) -> Seq<char> {
    match currency {
        Currency::BTC => seq!['t', 'b', '1', 'q'] + lower_of(escrow_id.subrange(4, escrow_id.len() as int)),
        Currency::CkBTC => seq!['c', 'k', 'b', 't', 'c', '-'] + escrow_id,
    }
}

fn string_of(chars: &[char]) -> (r: String)
    ensures
        r@ == chars@,
{
    let mut s = String::new();
    let mut i: usize = 0;
    while i < chars.len()
        invariant
            i <= chars@.len(),
            s@ == chars@.subrange(0, i as int),
        decreases chars@.len() - i,
    {
        crate::text::push_char(&mut s, chars[i]);
        i = i + 1;
        assert(s@ =~= chars@.subrange(0, i as int));
    }
    assert(chars@.subrange(0, i as int) =~= chars@);
    s
}

/// The identifier of the `n`-th escrow.
pub fn generate_escrow_id(n: u64) -> (r: String)
    ensures
        r@ == escrow_id_of(n as nat),
{
    let mut s = string_of(&['E', 'S', 'C', '-']);
    let digits = padded_decimal(n, ID_DIGITS);
    s.append(digits.as_str());
    assert(s@ =~= escrow_id_of(n as nat));
    s
}

/// The identifier of the `n`-th wallet transaction.
pub fn generate_tx_id(n: u64) -> (r: String)
    ensures
        r@ == tx_id_of(n as nat),
{
    let mut s = string_of(&['T', 'X', '-']);
    let digits = padded_decimal(n, ID_DIGITS);
    s.append(digits.as_str());
    assert(s@ =~= tx_id_of(n as nat));
    s
}

/// The deposit address for an escrow: for `BTC`, `tb1q` and the identifier after its
/// four-character prefix in lower case; for `CkBTC`, `ckbtc-` and the whole identifier.
pub fn generate_deposit_address(escrow_id: &str, currency: &Currency) -> (r: String)
    requires
        escrow_id@.len() >= 4,
    ensures
        r@ == deposit_address_of(escrow_id@, *currency),
{
    match currency {
        Currency::BTC => {
            let n = escrow_id.unicode_len();
            let rest = escrow_id.substring_char(4, n);
            let low = lowercase(rest);
            let mut s = string_of(&['t', 'b', '1', 'q']);
            s.append(low.as_str());
            s
        },
        Currency::CkBTC => {
            let mut s = string_of(&['c', 'k', 'b', 't', 'c', '-']);
            s.append(escrow_id);
            s
        },
    }
}

/// Distinct sequence numbers give distinct escrow identifiers.
pub proof fn lemma_escrow_ids_distinct(a: nat, b: nat)
    requires
        a != b,
    ensures
        escrow_id_of(a) != escrow_id_of(b),
{
    if escrow_id_of(a) == escrow_id_of(b) {
        let ea = escrow_id_of(a);
        let eb = escrow_id_of(b);
        assert(ea.subrange(4, ea.len() as int) =~= zero_padded(a, ID_DIGITS as nat));
        assert(eb.subrange(4, eb.len() as int) =~= zero_padded(b, ID_DIGITS as nat));
        lemma_value_of_zero_padded(a, ID_DIGITS as nat);
        lemma_value_of_zero_padded(b, ID_DIGITS as nat);
    }
}

} // verus!
