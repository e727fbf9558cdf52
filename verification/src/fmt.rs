//! Verified text formatting: decimal integers, fixed-point numbers with a
//! fixed count of fraction digits, and colon-separated upper-case hex. The
//! overlay datagrams and the certificate fingerprint are built from these.
use vstd::prelude::*;

verus! {

/// The character for one decimal digit value.
pub open spec fn digit_char(d: int) -> char
    recommends
        0 <= d < 10,
{
    if d == 0 {
        '0'
    } else if d == 1 {
        '1'
    } else if d == 2 {
        '2'
    } else if d == 3 {
        '3'
    } else if d == 4 {
        '4'
    } else if d == 5 {
        '5'
    } else if d == 6 {
        '6'
    } else if d == 7 {
        '7'
    } else if d == 8 {
        '8'
    } else {
        '9'
    }
}

/// The decimal digits of `n`, most significant first, no leading zeros
/// (a single zero for `n == 0`).
pub open spec fn dec_digits(n: nat) -> Seq<char>
    decreases n,
{
    if n < 10 {
        seq![digit_char(n as int)]
    } else {
        dec_digits(n / 10) + seq![digit_char((n % 10) as int)]
    }
}

/// The decimal form of a signed value: a leading minus for negatives.
pub open spec fn dec_signed(n: int) -> Seq<char> {
    if n < 0 {
        seq!['-'] + dec_digits((-n) as nat)
    } else {
        dec_digits(n as nat)
    }
}

/// A value held in hundredths, printed with exactly two fraction digits,
/// as `{:.2}` prints the corresponding real number.
pub open spec fn fixed2_chars(c: int) -> Seq<char> {
    let m = if c < 0 {
        -c
    } else {
        c
    };
    let sign: Seq<char> = if c < 0 {
        seq!['-']
    } else {
        Seq::empty()
    };
    sign + dec_digits((m / 100) as nat) + seq!['.', digit_char(m % 100 / 10), digit_char(m % 10)]
}

/// A value held in ten-thousandths, printed with exactly four fraction
/// digits, as `{:.4}` prints the corresponding real number.
pub open spec fn fixed4_chars(c: int) -> Seq<char> {
    let m = if c < 0 {
        -c
    } else {
        c
    };
    let sign: Seq<char> = if c < 0 {
        seq!['-']
    } else {
        Seq::empty()
    };
    sign + dec_digits((m / 10000) as nat) + seq![
        '.',
        digit_char(m % 10000 / 1000),
        digit_char(m % 1000 / 100),
        digit_char(m % 100 / 10),
        digit_char(m % 10),
    ]
}

/// One decimal digit as a string slice.
pub(crate) fn digit_str(d: u64) -> (r: &'static str)
    requires
        d < 10,
    ensures
        r@ == seq![digit_char(d as int)],
{
    proof {
        reveal_strlit("0");
        reveal_strlit("1");
        reveal_strlit("2");
        reveal_strlit("3");
        reveal_strlit("4");
        reveal_strlit("5");
        reveal_strlit("6");
        reveal_strlit("7");
        reveal_strlit("8");
        reveal_strlit("9");
    }
    if d == 0 {
        "0"
    } else if d == 1 {
        "1"
    } else if d == 2 {
        "2"
    } else if d == 3 {
        "3"
    } else if d == 4 {
        "4"
    } else if d == 5 {
        "5"
    } else if d == 6 {
        "6"
    } else if d == 7 {
        "7"
    } else if d == 8 {
        "8"
    } else {
        "9"
    }
}

/// Appends the decimal digits of `n` to `out`.
pub fn push_u64(out: &mut String, n: u64)
    ensures
        final(out)@ == old(out)@ + dec_digits(n as nat),
    decreases n,
{
    if n < 10 {
        out.append(digit_str(n));
    } else {
        push_u64(out, n / 10);
        out.append(digit_str(n % 10));
    }
}

/// Appends the decimal form of `n`, minus sign included, to `out`.
pub fn push_i64(out: &mut String, n: i64)
    ensures
        final(out)@ == old(out)@ + dec_signed(n as int),
{
    proof {
        reveal_strlit("-");
    }
    if n < 0 {
        out.append("-");
        if n == i64::MIN {
            push_u64(out, 9223372036854775808u64);
        } else {
            push_u64(out, (-n) as u64);
        }
    } else {
        push_u64(out, n as u64);
    }
}

/// The decimal form of `n` as a fresh string.
pub fn u64_string(n: u64) -> (r: String)
    ensures
        r@ == dec_digits(n as nat),
{
    let mut s = String::new();
    push_u64(&mut s, n);
    s
}

/// Appends `c` hundredths with exactly two fraction digits, as `{:.2}`
/// prints `c as f64 / 100.0`.
pub fn push_fixed2(out: &mut String, c: i32)
    ensures
        final(out)@ == old(out)@ + fixed2_chars(c as int),
{
    proof {
        reveal_strlit("-");
        reveal_strlit(".");
    }
    let m: u64 = if c < 0 {
        out.append("-");
        (-(c as i64)) as u64
    } else {
        c as u64
    };
    push_u64(out, m / 100);
    out.append(".");
    out.append(digit_str(m % 100 / 10));
    out.append(digit_str(m % 10));
    assert(out@ =~= old(out)@ + fixed2_chars(c as int));
}

/// Appends `c` ten-thousandths with exactly four fraction digits, as `{:.4}`
/// prints `c as f64 / 10000.0`.
pub fn push_fixed4(out: &mut String, c: i32)
    ensures
        final(out)@ == old(out)@ + fixed4_chars(c as int),
{
    proof {
        reveal_strlit("-");
        reveal_strlit(".");
    }
    let m: u64 = if c < 0 {
        out.append("-");
        (-(c as i64)) as u64
    } else {
        c as u64
    };
    push_u64(out, m / 10000);
    out.append(".");
    out.append(digit_str(m % 10000 / 1000));
    out.append(digit_str(m % 1000 / 100));
    out.append(digit_str(m % 100 / 10));
    out.append(digit_str(m % 10));
    assert(out@ =~= old(out)@ + fixed4_chars(c as int));
}

/// The character for one hex digit value, upper case.
pub open spec fn hex_char(d: int) -> char
    recommends
        0 <= d < 16,
{
    if d < 10 {
        digit_char(d)
    } else if d == 10 {
        'A'
    } else if d == 11 {
        'B'
    } else if d == 12 {
        'C'
    } else if d == 13 {
        'D'
    } else if d == 14 {
        'E'
    } else {
        'F'
    }
}

/// One byte as two upper-case hex characters.
pub open spec fn byte_hex(b: u8) -> Seq<char> {
    seq![hex_char(b as int / 16), hex_char(b as int % 16)]
}

/// The colon-separated upper-case hex of a byte string, as a certificate
/// fingerprint is displayed.
pub open spec fn hex_fingerprint(bytes: Seq<u8>) -> Seq<char>
    decreases bytes.len(),
{
    if bytes.len() == 0 {
        Seq::empty()
    } else if bytes.len() == 1 {
        byte_hex(bytes[0])
    } else {
        hex_fingerprint(bytes.drop_last()) + seq![':'] + byte_hex(bytes.last())
    }
}

/// A non-empty fingerprint has two hex characters per byte and a colon
/// between each pair of bytes.
pub proof fn lemma_hex_fingerprint_len(bytes: Seq<u8>)
    ensures
        bytes.len() == 0 ==> hex_fingerprint(bytes).len() == 0,
        bytes.len() >= 1 ==> hex_fingerprint(bytes).len() == 3 * bytes.len() - 1,
    decreases bytes.len(),
{
    if bytes.len() > 1 {
        lemma_hex_fingerprint_len(bytes.drop_last());
    }
}

/// One hex digit as a string slice, upper case.
fn hex_digit_str(d: u8) -> (r: &'static str)
    requires
        d < 16,
    ensures
        r@ == seq![hex_char(d as int)],
{
    proof {
        reveal_strlit("A");
        reveal_strlit("B");
        reveal_strlit("C");
        reveal_strlit("D");
        reveal_strlit("E");
        reveal_strlit("F");
    }
    if d < 10 {
        digit_str(d as u64)
    } else if d == 10 {
        "A"
    } else if d == 11 {
        "B"
    } else if d == 12 {
        "C"
    } else if d == 13 {
        "D"
    } else if d == 14 {
        "E"
    } else {
        "F"
    }
}

/// Formats a digest as a colon-separated upper-case hex fingerprint.
pub fn fingerprint_string(bytes: &Vec<u8>) -> (r: String)
    ensures
        r@ == hex_fingerprint(bytes@),
{
    proof {
        reveal_strlit(":");
    }
    let mut out = String::new();
    let mut i: usize = 0;
    while i < bytes.len()
        invariant
            i <= bytes@.len(),
            out@ == hex_fingerprint(bytes@.subrange(0, i as int)),
        decreases bytes@.len() - i,
    {
        let ghost start_out = out@;
        if i > 0 {
            out.append(":");
        }
        let b = bytes[i];
        out.append(hex_digit_str(b / 16));
        out.append(hex_digit_str(b % 16));
        i = i + 1;
        proof {
            reveal_strlit(":");
            let pre = bytes@.subrange(0, i as int);
            assert(pre.last() == b);
            if i == 1 {
                assert(pre.len() == 1);
                assert(start_out =~= Seq::<char>::empty());
                assert(out@ =~= byte_hex(pre[0]));
            } else {
                assert(pre.drop_last() =~= bytes@.subrange(0, i - 1));
                assert(start_out == hex_fingerprint(pre.drop_last()));
                assert(out@ =~= start_out + seq![':'] + byte_hex(b));
            }
            assert(out@ =~= hex_fingerprint(pre));
        }
    }
    assert(bytes@.subrange(0, bytes@.len() as int) == bytes@);
    out
}

} // verus!
