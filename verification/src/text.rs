//! Text: comparing it, and writing numbers in decimal.

use vstd::prelude::*;
use vstd::string::*;

verus! {

/// Whether two texts are the same, character by character.
pub fn same_text(a: &str, b: &str) -> (same: bool)
    ensures
        same == (a@ == b@),
{
    let n = a.unicode_len();
    if n != b.unicode_len() {
        return false;
    }
    let mut i: usize = 0;
    while i < n
        invariant
            i <= n,
            n == a@.len(),
            n == b@.len(),
            forall|k: int| 0 <= k < i ==> a@[k] == b@[k],
        decreases n - i,
    {
        if a.get_char(i) != b.get_char(i) {
            return false;
        }
        i += 1;
    }
    assert(a@ =~= b@);
    true
}

/// Whether `a` comes before `b` in the order of a dictionary, characters compared by
/// their code points: at the first place where the two differ, `a` has the smaller
/// character, or `a` ends there and `b` goes on.
pub open spec fn text_before(a: Seq<char>, b: Seq<char>) -> bool
    decreases a.len(),
{
    if b.len() == 0 {
        false
    } else if a.len() == 0 {
        true
    } else if a[0] != b[0] {
        (a[0] as u32) < (b[0] as u32)
    } else {
        text_before(a.skip(1), b.skip(1))
    }
}

/// Whether `a` comes before `b` in the order of a dictionary.
pub fn comes_before(a: &str, b: &str) -> (before: bool)
    ensures
        before == text_before(a@, b@),
{
    let n = a.unicode_len();
    let m = b.unicode_len();
    let mut i: usize = 0;
    proof {
        assert(a@.skip(0) =~= a@);
        assert(b@.skip(0) =~= b@);
    }
    while i < n && i < m
        invariant
            i <= n,
            i <= m,
            n == a@.len(),
            m == b@.len(),
            text_before(a@, b@) == text_before(a@.skip(i as int), b@.skip(i as int)),
        decreases n - i,
    {
        let x = a.get_char(i);
        let y = b.get_char(i);
        proof {
            assert(a@.skip(i as int)[0] == a@[i as int]);
            assert(b@.skip(i as int)[0] == b@[i as int]);
            assert(a@.skip(i as int).skip(1) =~= a@.skip(i + 1));
            assert(b@.skip(i as int).skip(1) =~= b@.skip(i + 1));
        }
        if x != y {
            return (x as u32) < (y as u32);
        }
        i += 1;
    }
    i < m
}

/// The character that writes a digit.
pub open spec fn digit_char(d: int) -> char {
    if d == 0 {
        '0'
    } else if d == 1 {
        '1'
    } else if d == 2 {
        '2'
    } else if d == 3 {
        '3'
    } else if d == 4 {
        '4'
    } else if d == 5 {
        '5'
    } else if d == 6 {
        '6'
    } else if d == 7 {
        '7'
    } else if d == 8 {
        '8'
    } else {
        '9'
    }
}

/// A number in decimal, without leading zeros; zero is `0`.
pub open spec fn decimal(n: nat) -> Seq<char>
    decreases n,
{
    if n < 10 {
        seq![digit_char(n as int)]
    } else {
        decimal(n / 10).push(digit_char((n % 10) as int))
    }
}

/// The last `width` decimal digits of a number, with leading zeros.
pub open spec fn fixed(n: nat, width: nat) -> Seq<char>
    decreases width,
{
    if width == 0 {
        Seq::empty()
    } else {
        fixed(n / 10, (width - 1) as nat).push(digit_char((n % 10) as int))
    }
}

fn digit_text(d: u128) -> (text: &'static str)
    requires
        d < 10,
    ensures
        text@ == seq![digit_char(d as int)],
{
    proof {
        reveal_strlit("0");
        reveal_strlit("1");
        reveal_strlit("2");
        reveal_strlit("3");
        reveal_strlit("4");
        reveal_strlit("5");
        reveal_strlit("6");
        reveal_strlit("7");
        reveal_strlit("8");
        reveal_strlit("9");
    }
    let text = if d == 0 {
        "0"
    } else if d == 1 {
        "1"
    } else if d == 2 {
        "2"
    } else if d == 3 {
        "3"
    } else if d == 4 {
        "4"
    } else if d == 5 {
        "5"
    } else if d == 6 {
        "6"
    } else if d == 7 {
        "7"
    } else if d == 8 {
        "8"
    } else {
        "9"
    };
    assert(text@ =~= seq![digit_char(d as int)]);
    text
}

/// Appends a number in decimal.
pub fn push_decimal(out: &mut String, n: u128)
    ensures
        final(out)@ == old(out)@ + decimal(n as nat),
    decreases n,
{
    if n >= 10 {
        push_decimal(out, n / 10);
    }
    let ghost before = out@;
    out.append(digit_text(n % 10));
    proof {
        if n >= 10 {
            assert(out@ =~= old(out)@ + decimal((n / 10) as nat).push(digit_char((n % 10) as int)));
        } else {
            assert(out@ =~= old(out)@ + seq![digit_char(n as int)]);
        }
    }
}

/// Appends the last `width` decimal digits of a number, with leading zeros.
pub fn push_fixed(out: &mut String, n: u128, width: u32)
    ensures
        final(out)@ == old(out)@ + fixed(n as nat, width as nat),
    decreases width,
{
    if width > 0 {
        push_fixed(out, n / 10, width - 1);
        out.append(digit_text(n % 10));
        proof {
            assert(out@ =~= old(out)@ + fixed((n / 10) as nat, (width - 1) as nat).push(
                digit_char((n % 10) as int),
            ));
        }
    } else {
        proof {
            assert(out@ =~= old(out)@ + Seq::<char>::empty());
        }
    }
}

/// The size of a number without its sign.
pub open spec fn magnitude(n: int) -> nat {
    if n < 0 {
        (-n) as nat
    } else {
        n as nat
    }
}

/// The size of a number without its sign.
pub fn magnitude_of(n: i128) -> (m: u128)
    ensures
        m == magnitude(n as int),
{
    if n < 0 {
        ((-(n + 1)) as u128) + 1
    } else {
        n as u128
    }
}

/// An amount of cents as dollars with two decimal places: `-12.05` for -1205 cents.
pub open spec fn money_text(cents: int) -> Seq<char> {
    let size = magnitude(cents);
    let sign = if cents < 0 {
        seq!['-']
    } else {
        Seq::<char>::empty()
    };
    sign + decimal(size / 100) + seq!['.'] + fixed(size % 100, 2)
}

/// Writes an amount of cents as dollars with two decimal places.
pub fn format_cents(cents: i128) -> (text: String)
    ensures
        text@ == money_text(cents as int),
{
    let size = magnitude_of(cents);
    let mut text = String::new();
    proof {
        reveal_strlit("-");
        reveal_strlit(".");
    }
    if cents < 0 {
        text.append("-");
    }
    let ghost sign = text@;
    push_decimal(&mut text, size / 100);
    text.append(".");
    push_fixed(&mut text, size % 100, 2);
    proof {
        assert(sign =~= if cents < 0 {
            seq!['-']
        } else {
            Seq::<char>::empty()
        });
        assert("."@ =~= seq!['.']);
    }
    text
}

/// An amount of satoshis as bitcoin with eight decimal places and the unit:
/// `1.50000000 BTC` for 150 000 000 satoshis.
pub open spec fn btc_text(sat: nat) -> Seq<char> {
    decimal(sat / 100_000_000) + seq!['.'] + fixed(sat % 100_000_000, 8) + " BTC"@
}

/// Writes an amount of satoshis as bitcoin with eight decimal places and the unit.
pub fn format_btc(sat: u64) -> (text: String)
    ensures
        text@ == btc_text(sat as nat),
{
    let mut text = String::new();
    proof {
        reveal_strlit(".");
    }
    push_decimal(&mut text, (sat / 100_000_000) as u128);
    text.append(".");
    push_fixed(&mut text, (sat % 100_000_000) as u128, 8);
    text.append(" BTC");
    proof {
        assert("."@ =~= seq!['.']);
        assert(text@ =~= btc_text(sat as nat));
    }
    text
}

/// Hundred-millionths of a cent in one cent.
pub const UNITS_PER_CENT: u128 = 100_000_000;

/// An exact amount rounded to whole cents, halves away from zero.
pub open spec fn round_to_cents_spec(units: int) -> int {
    if units >= 0 {
        (units + 50_000_000) / 100_000_000
    } else {
        -((-units + 50_000_000) / 100_000_000)
    }
}

/// Rounding moves an amount by at most half a cent, and never past the amount's own size.
pub proof fn lemma_round_to_cents(units: int)
    ensures
        -50_000_000 <= units - round_to_cents_spec(units) * 100_000_000 <= 50_000_000,
        units >= 0 ==> 0 <= round_to_cents_spec(units) <= units,
        units <= 0 ==> units <= round_to_cents_spec(units) <= 0,
        units % 100_000_000 == 0 ==> round_to_cents_spec(units) * 100_000_000 == units,
{
    let size = magnitude(units) as int;
    let q = (size + 50_000_000) / 100_000_000;
    assert(size + 50_000_000 == 100_000_000 * q + (size + 50_000_000) % 100_000_000) by {
        vstd::arithmetic::div_mod::lemma_fundamental_div_mod(size + 50_000_000, 100_000_000);
    }
    if units % 100_000_000 == 0 {
        vstd::arithmetic::div_mod::lemma_fundamental_div_mod(units, 100_000_000);
        let k = units / 100_000_000;
        assert(units == 100_000_000 * k);
        if units >= 0 {
            assert(q == k) by (nonlinear_arith)
                requires
                    size == 100_000_000 * k,
                    size + 50_000_000 == 100_000_000 * q + (size + 50_000_000) % 100_000_000,
                    0 <= (size + 50_000_000) % 100_000_000 < 100_000_000,
            ;
        } else {
            assert(q == -k) by (nonlinear_arith)
                requires
                    size == 100_000_000 * (-k),
                    size + 50_000_000 == 100_000_000 * q + (size + 50_000_000) % 100_000_000,
                    0 <= (size + 50_000_000) % 100_000_000 < 100_000_000,
            ;
        }
    }
}

/// Rounds an amount that is not negative to whole cents, halves up.
pub fn round_magnitude(size: u128) -> (rounded: u128)
    ensures
        rounded == (size + 50_000_000) / 100_000_000,
        rounded <= size / 100_000_000 + 1,
{
    let whole = size / UNITS_PER_CENT;
    let rest = size % UNITS_PER_CENT;
    let rounded = if rest >= UNITS_PER_CENT / 2 {
        whole + 1
    } else {
        whole
    };
    proof {
        let s = size as int;
        vstd::arithmetic::div_mod::lemma_fundamental_div_mod(s, 100_000_000);
        vstd::arithmetic::div_mod::lemma_fundamental_div_mod(s + 50_000_000, 100_000_000);
        let w = s / 100_000_000;
        let r = s % 100_000_000;
        let q = (s + 50_000_000) / 100_000_000;
        let t = (s + 50_000_000) % 100_000_000;
        assert(rounded == q) by (nonlinear_arith)
            requires
                s == 100_000_000 * w + r,
                0 <= r < 100_000_000,
                s + 50_000_000 == 100_000_000 * q + t,
                0 <= t < 100_000_000,
                rounded == if r >= 50_000_000 {
                    w + 1
                } else {
                    w
                },
        ;
    }
    rounded
}

/// Rounds an exact amount to whole cents, halves away from zero.
pub fn round_to_cents(units: i128) -> (cents: i128)
    ensures
        cents == round_to_cents_spec(units as int),
{
    let rounded = round_magnitude(magnitude_of(units));
    if units < 0 {
        -(rounded as i128)
    } else {
        rounded as i128
    }
}

} // verus!
