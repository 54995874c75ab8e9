use vstd::prelude::*;

use vstd::string::StringExecFns;

verus! {

/// The decimal digit character for a value in `0..10`.
pub open spec fn digit_char(d: int) -> char {
    if d == 0 {
        '0'
    } else if d == 1 {
        '1'
    } else if d == 2 {
        '2'
    } else if d == 3 {
        '3'
    } else if d == 4 {
        '4'
    } else if d == 5 {
        '5'
    } else if d == 6 {
        '6'
    } else if d == 7 {
        '7'
    } else if d == 8 {
        '8'
    } else {
        '9'
    }
}

/// The decimal digits of `n` without leading zeros (empty for `n <= 0`).
pub open spec fn dec_chars(n: int) -> Seq<char>
    decreases n,
{
    if n <= 0 {
        Seq::empty()
    } else {
        dec_chars(n / 10).push(digit_char(n % 10))
    }
}

/// The file stem of one output frame: the 1-based frame number `n` in
/// decimal, zero-padded on the left to at least four characters.
pub open spec fn stem_chars(n: int) -> Seq<char> {
    if dec_chars(n).len() >= 4 {
        dec_chars(n)
    } else {
        Seq::new((4 - dec_chars(n).len()) as nat, |i: int| '0') + dec_chars(n)
    }
}

/// The digit characters of `ds` read back to front: `ds` holds digit
/// values least-significant first, this is the number as written.
spec fn rev_chars(ds: Seq<u8>) -> Seq<char> {
    Seq::new(ds.len(), |i: int| digit_char(ds[ds.len() - 1 - i] as int))
}

/// The one-character string for a decimal digit value.
fn digit_str(d: u8) -> (r: &'static str)
    requires
        d < 10,
    ensures
        r@ == seq![digit_char(d as int)],
{
    proof {
        reveal_strlit("0");
        reveal_strlit("1");
        reveal_strlit("2");
        reveal_strlit("3");
        reveal_strlit("4");
        reveal_strlit("5");
        reveal_strlit("6");
        reveal_strlit("7");
        reveal_strlit("8");
        reveal_strlit("9");
    }
    if d == 0 {
        "0"
    } else if d == 1 {
        "1"
    } else if d == 2 {
        "2"
    } else if d == 3 {
        "3"
    } else if d == 4 {
        "4"
    } else if d == 5 {
        "5"
    } else if d == 6 {
        "6"
    } else if d == 7 {
        "7"
    } else if d == 8 {
        "8"
    } else {
        "9"
    }
}

/// The deterministic file stem for the output at `target_index`: the
/// 1-based frame number in decimal, zero-padded to at least four
/// characters (`"0001"`, `"0007"`, `"12345"`).
pub fn output_stem(target_index: usize) -> (r: String)
    requires
        target_index < usize::MAX,
    ensures
        r@ == stem_chars(target_index + 1),
{
    let n = target_index + 1;

    // digit values of n, least significant first
    let mut digits: Vec<u8> = Vec::new();
    let mut m = n;
    while m > 0
        invariant
            dec_chars(n as int) == dec_chars(m as int) + rev_chars(digits@),
            forall|k: int| 0 <= k < digits@.len() ==> digits@[k] < 10,
        decreases m,
    {
        let d = (m % 10) as u8;
        let ghost before = digits@;
        digits.push(d);
        proof {
            assert(m / 10 < m) by (nonlinear_arith)
                requires
                    m >= 1,
            ;
            assert(rev_chars(digits@) =~= seq![digit_char(d as int)] + rev_chars(before));
            assert(dec_chars(m as int) == dec_chars(m as int / 10).push(
                digit_char(m as int % 10),
            ));
            assert(dec_chars(m as int / 10).push(digit_char(m as int % 10)) =~= dec_chars(
                m as int / 10,
            ) + seq![digit_char(d as int)]);
            assert(dec_chars(n as int) =~= dec_chars(m as int / 10) + rev_chars(digits@));
        }
        m = m / 10;
    }
    proof {
        assert(dec_chars(n as int) =~= rev_chars(digits@));
    }

    // pad with leading zeros (stored at the most-significant end) to 4
    let ghost unpadded = digits@;
    while digits.len() < 4
        invariant
            digits@.len() >= unpadded.len(),
            unpadded.len() >= 4 ==> digits@.len() == unpadded.len(),
            unpadded.len() < 4 ==> digits@.len() <= 4,
            digits@ == unpadded + Seq::new((digits@.len() - unpadded.len()) as nat, |i: int| 0u8),
            forall|k: int| 0 <= k < digits@.len() ==> digits@[k] < 10,
        decreases 4 - digits@.len(),
    {
        digits.push(0);
        proof {
            assert(digits@ =~= unpadded + Seq::new(
                (digits@.len() - unpadded.len()) as nat,
                |i: int| 0u8,
            ));
        }
    }
    proof {
        assert(rev_chars(digits@) =~= Seq::new(
            (digits@.len() - unpadded.len()) as nat,
            |i: int| '0',
        ) + rev_chars(unpadded));
        assert(dec_chars(n as int).len() == unpadded.len());
        if unpadded.len() >= 4 {
            assert(digits@ =~= unpadded);
            assert(rev_chars(digits@) =~= dec_chars(n as int));
        } else {
            assert(digits@.len() == 4);
        }
        assert(rev_chars(digits@) =~= stem_chars(n as int));
    }

    // write the digits out, most significant first
    let len = digits.len();
    let mut r = String::new();
    let mut i = len;
    while i > 0
        invariant
            i <= len,
            len == digits@.len(),
            forall|k: int| 0 <= k < len ==> digits@[k] < 10,
            r@ == rev_chars(digits@).take(len - i),
        decreases i,
    {
        i = i - 1;
        r.append(digit_str(digits[i]));
        proof {
            assert(r@ =~= rev_chars(digits@).take(len - i));
        }
    }
    proof {
        assert(rev_chars(digits@).take(len as int) =~= rev_chars(digits@));
    }
    r
}

} // verus!
