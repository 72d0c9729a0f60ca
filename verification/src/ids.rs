//! Human-readable identifiers: a two-letter prefix followed by the
//! decimal value of a per-kind counter, zero-padded to six digits
//! (`SH000001`, `RT000001`). A counter past six digits keeps all its
//! digits rather than wrapping.

use vstd::prelude::*;

verus! {

/// The character for one decimal digit.
pub open spec fn spec_digit_char(d: nat) -> char {
    if d == 0 {
        '0'
    } else if d == 1 {
        '1'
    } else if d == 2 {
        '2'
    } else if d == 3 {
        '3'
    } else if d == 4 {
        '4'
    } else if d == 5 {
        '5'
    } else if d == 6 {
        '6'
    } else if d == 7 {
        '7'
    } else if d == 8 {
        '8'
    } else {
        '9'
    }
}

/// Decimal digits of `n`, zero-padded on the left to at least `width`
/// characters.
pub open spec fn spec_decimal(n: nat, width: nat) -> Seq<char>
    decreases width, n,
{
    if n < 10 && width <= 1 {
        seq![spec_digit_char(n)]
    } else {
        spec_decimal(n / 10, if width == 0 {
            0
        } else {
            (width - 1) as nat
        }).push(spec_digit_char(n % 10))
    }
}

/// The identifier issued to the `n`-th shipment.
pub open spec fn spec_shipment_id(n: nat) -> Seq<char> {
    seq!['S', 'H'] + spec_decimal(n, 6)
}

/// The identifier issued to the `n`-th return request.
pub open spec fn spec_return_id(n: nat) -> Seq<char> {
    seq!['R', 'T'] + spec_decimal(n, 6)
}

/// Appends the character of one decimal digit.
fn push_digit(s: &mut String, d: u64)
    requires
        d < 10,
    ensures
        final(s)@ == old(s)@.push(spec_digit_char(d as nat)),
{
    let t: &str = if d == 0 {
        "0"
    } else if d == 1 {
        "1"
    } else if d == 2 {
        "2"
    } else if d == 3 {
        "3"
    } else if d == 4 {
        "4"
    } else if d == 5 {
        "5"
    } else if d == 6 {
        "6"
    } else if d == 7 {
        "7"
    } else if d == 8 {
        "8"
    } else {
        "9"
    };
    proof {
        reveal_strlit("0");
        reveal_strlit("1");
        reveal_strlit("2");
        reveal_strlit("3");
        reveal_strlit("4");
        reveal_strlit("5");
        reveal_strlit("6");
        reveal_strlit("7");
        reveal_strlit("8");
        reveal_strlit("9");
        assert(t@ =~= seq![spec_digit_char(d as nat)]);
    }
    s.append(t);
    proof {
        assert(s@ =~= old(s)@.push(spec_digit_char(d as nat)));
    }
}

/// Appends the decimal digits of `n`, zero-padded to at least `width`
/// characters.
fn push_decimal(s: &mut String, n: u64, width: u64)
    ensures
        final(s)@ == old(s)@ + spec_decimal(n as nat, width as nat),
    decreases width, n,
{
    if n < 10 && width <= 1 {
        push_digit(s, n);
        proof {
            assert(s@ =~= old(s)@ + spec_decimal(n as nat, width as nat));
        }
    } else {
        let rest_width = if width == 0 {
            0
        } else {
            width - 1
        };
        push_decimal(s, n / 10, rest_width);
        push_digit(s, n % 10);
        proof {
            assert(s@ =~= old(s)@ + spec_decimal(n as nat, width as nat));
        }
    }
}

/// Builds `<prefix><n zero-padded to six digits>`.
pub fn format_id(prefix: &str, n: u64) -> (r: String)
    ensures
        r@ == prefix@ + spec_decimal(n as nat, 6),
{
    let mut r = prefix.to_owned();
    push_decimal(&mut r, n, 6);
    r
}

/// A decimal representation determines the number it was taken from.
pub proof fn lemma_decimal_injective(n1: nat, n2: nat, width: nat)
    requires
        spec_decimal(n1, width) == spec_decimal(n2, width),
    ensures
        n1 == n2,
    decreases width, n1, n2,
{
    lemma_decimal_len(n1, width);
    lemma_decimal_len(n2, width);
    let s1 = spec_decimal(n1, width);
    let s2 = spec_decimal(n2, width);
    if n1 < 10 && width <= 1 {
        // Both sides are a single digit.
        assert(s2.len() == 1);
        assert(s1[0] == spec_digit_char(n1));
        assert(s2[0] == spec_digit_char(n2));
        assert(n1 == n2);
    } else {
        assert(s1.len() >= 2);
        assert(!(n2 < 10 && width <= 1));
        let rest_width: nat = if width == 0 {
            0
        } else {
            (width - 1) as nat
        };
        let r1 = spec_decimal(n1 / 10, rest_width);
        let r2 = spec_decimal(n2 / 10, rest_width);
        assert(s1 == r1.push(spec_digit_char(n1 % 10)));
        assert(s2 == r2.push(spec_digit_char(n2 % 10)));
        assert(s1.last() == spec_digit_char(n1 % 10));
        assert(s2.last() == spec_digit_char(n2 % 10));
        assert(n1 % 10 == n2 % 10);
        assert(r1 =~= s1.drop_last());
        assert(r2 =~= s2.drop_last());
        lemma_decimal_injective(n1 / 10, n2 / 10, rest_width);
        assert(n1 == n1 / 10 * 10 + n1 % 10);
        assert(n2 == n2 / 10 * 10 + n2 % 10);
    }
}

/// Length facts about the decimal representation: never empty, at least
/// `width` long, and a single character exactly in the one-digit case.
pub proof fn lemma_decimal_len(n: nat, width: nat)
    ensures
        spec_decimal(n, width).len() >= 1,
        spec_decimal(n, width).len() >= width,
        (spec_decimal(n, width).len() == 1) == (n < 10 && width <= 1),
    decreases width, n,
{
    if n < 10 && width <= 1 {
    } else {
        let rest_width: nat = if width == 0 {
            0
        } else {
            (width - 1) as nat
        };
        lemma_decimal_len(n / 10, rest_width);
    }
}

/// Distinct counters give distinct shipment identifiers.
pub proof fn lemma_shipment_id_injective(n1: nat, n2: nat)
    requires
        spec_shipment_id(n1) == spec_shipment_id(n2),
    ensures
        n1 == n2,
{
    let p = seq!['S', 'H'];
    let s1 = spec_shipment_id(n1);
    let s2 = spec_shipment_id(n2);
    assert(spec_decimal(n1, 6) =~= s1.subrange(2, s1.len() as int));
    assert(spec_decimal(n2, 6) =~= s2.subrange(2, s2.len() as int));
    lemma_decimal_injective(n1, n2, 6);
}

/// Distinct counters give distinct return-request identifiers.
pub proof fn lemma_return_id_injective(n1: nat, n2: nat)
    requires
        spec_return_id(n1) == spec_return_id(n2),
    ensures
        n1 == n2,
{
    let s1 = spec_return_id(n1);
    let s2 = spec_return_id(n2);
    assert(spec_decimal(n1, 6) =~= s1.subrange(2, s1.len() as int));
    assert(spec_decimal(n2, 6) =~= s2.subrange(2, s2.len() as int));
    lemma_decimal_injective(n1, n2, 6);
}

} // verus!
