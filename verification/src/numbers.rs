//! Decimal rendering of counters for display: digits grouped in threes
//! with commas, as clan point totals are shown.

use vstd::prelude::*;

verus! {

/// The decimal digit character for `d`.
pub open spec fn digit_char(d: nat) -> char {
    if d == 0 {
        '0'
    } else if d == 1 {
        '1'
    } else if d == 2 {
        '2'
    } else if d == 3 {
        '3'
    } else if d == 4 {
        '4'
    } else if d == 5 {
        '5'
    } else if d == 6 {
        '6'
    } else if d == 7 {
        '7'
    } else if d == 8 {
        '8'
    } else {
        '9'
    }
}

/// The decimal digits of `v`, most significant first, with no leading
/// zeros except for zero itself.
pub open spec fn digits_of(v: nat) -> Seq<char>
    decreases v,
{
    if v < 10 {
        seq![digit_char(v)]
    } else {
        digits_of(v / 10).push(digit_char(v % 10))
    }
}

/// A comma belongs before digit `idx` exactly when `idx` is not the first
/// digit and the digits from `idx` on form a full group of three.
pub open spec fn comma_at(ds: Seq<char>, idx: int) -> Seq<char> {
    if idx > 0 && (ds.len() - idx) % 3 == 0 {
        seq![',']
    } else {
        Seq::empty()
    }
}

/// The first `i` digits of `ds` with their commas.
pub open spec fn grouped_upto(ds: Seq<char>, i: int) -> Seq<char>
    decreases i,
{
    if i <= 0 {
        Seq::empty()
    } else {
        grouped_upto(ds, i - 1) + comma_at(ds, i - 1) + seq![ds[i - 1]]
    }
}

/// The digit sequence with a comma before every full group of three.
pub open spec fn grouped(ds: Seq<char>) -> Seq<char> {
    grouped_upto(ds, ds.len() as int)
}

/// The string for one decimal digit.
fn digit_str(d: u64) -> (r: &'static str)
    requires
        d < 10,
    ensures
        r@ =~= seq![digit_char(d as nat)],
{
    proof {
        reveal_strlit("0");
        reveal_strlit("1");
        reveal_strlit("2");
        reveal_strlit("3");
        reveal_strlit("4");
        reveal_strlit("5");
        reveal_strlit("6");
        reveal_strlit("7");
        reveal_strlit("8");
        reveal_strlit("9");
    }
    match d {
        0 => "0",
        1 => "1",
        2 => "2",
        3 => "3",
        4 => "4",
        5 => "5",
        6 => "6",
        7 => "7",
        8 => "8",
        _ => "9",
    }
}

/// Append the decimal digits of `value` to `out`.
fn append_digits(value: u64, out: &mut String)
    ensures
        final(out)@ == old(out)@ + digits_of(value as nat),
    decreases value,
{
    if value < 10 {
        out.append(digit_str(value));
        proof {
            assert(final(out)@ =~= old(out)@ + digits_of(value as nat));
        }
    } else {
        append_digits(value / 10, out);
        out.append(digit_str(value % 10));
        proof {
            assert(digits_of(value as nat) == digits_of(value as nat / 10).push(
                digit_char(value as nat % 10),
            ));
            assert(final(out)@ =~= old(out)@ + digits_of(value as nat));
        }
    }
}

/// Render `value` in decimal with a comma between every group of three
/// digits, counted from the right.
pub fn format_number_with_commas(value: u64) -> (r: String)
    ensures
        r@ == grouped(digits_of(value as nat)),
{
    let mut s = String::new();
    append_digits(value, &mut s);
    let ghost ds = digits_of(value as nat);
    assert(s@ =~= ds);
    let n = s.as_str().unicode_len();
    let mut r = String::new();
    let mut i: usize = 0;
    while i < n
        invariant
            s@ == ds,
            n == ds.len(),
            i <= n,
            r@ == grouped_upto(ds, i as int),
        decreases n - i,
    {
        if i > 0 && (n - i) % 3 == 0 {
            r.append(",");
            proof {
                reveal_strlit(",");
            }
        }
        let piece = s.as_str().substring_char(i, i + 1);
        r.append(piece);
        proof {
            assert(piece@ =~= seq![ds[i as int]]);
            assert(r@ =~= grouped_upto(ds, i + 1));
        }
        i += 1;
    }
    r
}

/// Render `value` in plain decimal.
pub fn format_number_plain(value: u64) -> (r: String)
    ensures
        r@ == digits_of(value as nat),
{
    let mut s = String::new();
    append_digits(value, &mut s);
    s
}

} // verus!
