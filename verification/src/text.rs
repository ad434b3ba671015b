use vstd::prelude::*;
use vstd::string::*;

verus! {

/// The ten decimal digit characters.
pub open spec fn is_digit(c: char) -> bool {
    48 <= c as int && c as int <= 57
}

/// Numeric value of a digit character.
pub open spec fn digit_val(c: char) -> int {
    c as int - 48
}

/// The digit character for a value below ten.
pub open spec fn digit_char(d: int) -> char {
    if d == 0 {
        '0'
    } else if d == 1 {
        '1'
    } else if d == 2 {
        '2'
    } else if d == 3 {
        '3'
    } else if d == 4 {
        '4'
    } else if d == 5 {
        '5'
    } else if d == 6 {
        '6'
    } else if d == 7 {
        '7'
    } else if d == 8 {
        '8'
    } else {
        '9'
    }
}

pub open spec fn all_digits(s: Seq<char>) -> bool {
    forall|i: int| 0 <= i < s.len() ==> is_digit(#[trigger] s[i])
}

/// Value of a digit string read as a decimal number.
pub open spec fn str_val(s: Seq<char>) -> int
    decreases s.len(),
{
    if s.len() == 0 {
        0
    } else {
        str_val(s.drop_last()) * 10 + digit_val(s.last())
    }
}

/// What `str::parse::<u32>` accepts: an optional leading `+`, then one or
/// more decimal digits whose value fits in a `u32`.
pub open spec fn u32_of_str(s: Seq<char>) -> Option<u32> {
    let t = if s.len() > 0 && s[0] == '+' {
        s.drop_first()
    } else {
        s
    };
    if t.len() > 0 && all_digits(t) && str_val(t) <= u32::MAX as int {
        Some(str_val(t) as u32)
    } else {
        None
    }
}

pub proof fn lemma_str_val_nonneg(s: Seq<char>)
    requires
        all_digits(s),
    ensures
        str_val(s) >= 0,
    decreases s.len(),
{
    if s.len() > 0 {
        assert(all_digits(s.drop_last()));
        lemma_str_val_nonneg(s.drop_last());
    }
}

/// A longer prefix of a digit string never has a smaller value.
pub proof fn lemma_str_val_take_mono(s: Seq<char>, j: int)
    requires
        all_digits(s),
        0 <= j <= s.len(),
    ensures
        str_val(s.take(j)) <= str_val(s),
    decreases s.len() - j,
{
    if j < s.len() {
        lemma_str_val_take_mono(s, j + 1);
        assert(s.take(j + 1).drop_last() =~= s.take(j));
        assert(all_digits(s.take(j)));
        lemma_str_val_nonneg(s.take(j));
        assert(str_val(s.take(j + 1)) == str_val(s.take(j)) * 10 + digit_val(s.take(j + 1).last()));
        assert(str_val(s.take(j)) * 10 >= str_val(s.take(j))) by (nonlinear_arith)
            requires
                str_val(s.take(j)) >= 0,
        ;
    } else {
        assert(s.take(j) =~= s);
    }
}

/// Decimal parsing as `str::parse::<u32>` performs it: accepts an optional
/// leading `+`, requires at least one digit, rejects any other character
/// and any value over `u32::MAX`.
pub fn parse_u32_field(s: &str) -> (r: Option<u32>)
    ensures
        r == u32_of_str(s@),
{
    let len = s.unicode_len();
    let start: usize = if len > 0 && s.get_char(0) == '+' {
        1
    } else {
        0
    };
    let ghost t = if s@.len() > 0 && s@[0] == '+' {
        s@.drop_first()
    } else {
        s@
    };
    assert(t =~= s@.subrange(start as int, len as int));
    if len == start {
        return None;
    }
    let mut acc: u32 = 0;
    let mut i: usize = start;
    while i < len
        invariant
            start <= i <= len,
            len == s@.len(),
            t == (if s@.len() > 0 && s@[0] == '+' {
                s@.drop_first()
            } else {
                s@
            }),
            t == s@.subrange(start as int, len as int),
            forall|k: int| 0 <= k < i - start ==> is_digit(#[trigger] t[k]),
            acc as int == str_val(t.take(i - start)),
        decreases len - i,
    {
        let c = s.get_char(i);
        let v = c as u32;
        if v < 48 || v > 57 {
            assert(t[i - start] == s@[i as int]);
            assert(!is_digit(t[i - start]));
            return None;
        }
        let d = v - 48;
        proof {
            assert(t[i - start] == s@[i as int]);
            assert(t.take(i - start + 1).drop_last() =~= t.take(i - start));
            assert(str_val(t.take(i - start + 1)) == acc as int * 10 + d as int);
        }
        if acc > (u32::MAX - d) / 10 {
            proof {
                assert(acc as int * 10 + d as int > u32::MAX as int) by (nonlinear_arith)
                    requires
                        acc as int > (u32::MAX as int - d as int) / 10,
                        0 <= d as int <= 9,
                ;
                if all_digits(t) {
                    lemma_str_val_take_mono(t, i - start + 1);
                }
            }
            return None;
        }
        proof {
            assert(acc as int * 10 + d as int <= u32::MAX as int) by (nonlinear_arith)
                requires
                    acc as int <= (u32::MAX as int - d as int) / 10,
                    0 <= d as int <= 9,
            ;
        }
        acc = acc * 10 + d;
        i = i + 1;
    }
    proof {
        assert(t.take(i - start) =~= t);
        assert(all_digits(t));
    }
    Some(acc)
}

/// Decimal digit string of a non-negative number, most significant digit
/// first, with no leading zeros (a lone zero for zero itself).
pub open spec fn dec_digits(n: nat) -> Seq<char>
    decreases n,
{
    if n < 10 {
        seq![digit_char(n as int)]
    } else {
        dec_digits(n / 10).push(digit_char((n % 10) as int))
    }
}

/// Appends one digit character.
pub fn append_digit(s: &mut String, d: u32)
    requires
        d < 10,
    ensures
        final(s)@ == old(s)@.push(digit_char(d as int)),
{
    proof {
        reveal_strlit("0");
        reveal_strlit("1");
        reveal_strlit("2");
        reveal_strlit("3");
        reveal_strlit("4");
        reveal_strlit("5");
        reveal_strlit("6");
        reveal_strlit("7");
        reveal_strlit("8");
        reveal_strlit("9");
    }
    match d {
        0 => s.append("0"),
        1 => s.append("1"),
        2 => s.append("2"),
        3 => s.append("3"),
        4 => s.append("4"),
        5 => s.append("5"),
        6 => s.append("6"),
        7 => s.append("7"),
        8 => s.append("8"),
        _ => s.append("9"),
    }
    proof {
        assert(final(s)@ =~= old(s)@.push(digit_char(d as int)));
    }
}

/// Appends the decimal digits of `n`.
pub fn append_decimal(s: &mut String, n: u64)
    ensures
        final(s)@ == old(s)@ + dec_digits(n as nat),
    decreases n,
{
    if n < 10 {
        append_digit(s, n as u32);
        proof {
            assert(final(s)@ =~= old(s)@ + dec_digits(n as nat));
        }
    } else {
        append_decimal(s, n / 10);
        append_digit(s, (n % 10) as u32);
        proof {
            assert(final(s)@ =~= old(s)@ + dec_digits(n as nat));
        }
    }
}

/// Every character of a decimal rendering is a digit, the rendering is
/// never empty, and reading it back yields the number.
pub proof fn lemma_dec_digits_val(n: nat)
    ensures
        dec_digits(n).len() >= 1,
        all_digits(dec_digits(n)),
        str_val(dec_digits(n)) == n,
    decreases n,
{
    assert(digit_val(digit_char(0)) == 0);
    assert(digit_val(digit_char(5)) == 5);
    if n < 10 {
        let s = dec_digits(n);
        assert(s == seq![digit_char(n as int)]);
        assert(s.drop_last() =~= Seq::<char>::empty());
        assert(str_val(s) == str_val(s.drop_last()) * 10 + digit_val(s.last()));
        assert(s.last() == digit_char(n as int));
        assert(digit_val(digit_char(n as int)) == n);
    } else {
        lemma_dec_digits_val(n / 10);
        assert(dec_digits(n).drop_last() =~= dec_digits(n / 10));
        assert(digit_val(digit_char((n % 10) as int)) == n % 10);
        assert(str_val(dec_digits(n)) == str_val(dec_digits(n / 10)) * 10 + (n % 10));
        assert(n / 10 * 10 + n % 10 == n);
    }
}

/// Parsing inverts rendering: the decimal digits of `n` read back as `n`.
pub proof fn lemma_u32_of_dec_digits(n: u32)
    ensures
        u32_of_str(dec_digits(n as nat)) == Some(n),
{
    lemma_dec_digits_val(n as nat);
    assert(is_digit(dec_digits(n as nat)[0]));
    assert(dec_digits(n as nat)[0] != '+');
}

/// Decimal digits of `n`, zero-padded on the left to at least two places.
pub open spec fn pad2(n: nat) -> Seq<char> {
    if n < 10 {
        seq!['0'] + dec_digits(n)
    } else {
        dec_digits(n)
    }
}

/// Decimal digits of `n`, zero-padded on the left to at least four places.
pub open spec fn pad4(n: nat) -> Seq<char> {
    if n < 10 {
        seq!['0', '0', '0'] + dec_digits(n)
    } else if n < 100 {
        seq!['0', '0'] + dec_digits(n)
    } else if n < 1000 {
        seq!['0'] + dec_digits(n)
    } else {
        dec_digits(n)
    }
}

/// Appends the decimal digits of `n`, zero-padded to at least two places.
pub fn append_2digits(s: &mut String, n: u64)
    ensures
        final(s)@ == old(s)@ + pad2(n as nat),
{
    if n < 10 {
        append_digit(s, 0);
    }
    append_decimal(s, n);
    proof {
        assert(s@ =~= old(s)@ + pad2(n as nat));
    }
}

/// Appends the decimal digits of `n`, zero-padded to at least four places.
pub fn append_4digits(s: &mut String, n: u64)
    ensures
        final(s)@ == old(s)@ + pad4(n as nat),
{
    if n < 10 {
        append_digit(s, 0);
        append_digit(s, 0);
        append_digit(s, 0);
    } else if n < 100 {
        append_digit(s, 0);
        append_digit(s, 0);
    } else if n < 1000 {
        append_digit(s, 0);
    }
    append_decimal(s, n);
    proof {
        assert(s@ =~= old(s)@ + pad4(n as nat));
    }
}

/// Leading zeros do not change the value a digit string denotes.
pub proof fn lemma_str_val_prepend_zero(t: Seq<char>)
    ensures
        str_val(seq!['0'] + t) == str_val(t),
    decreases t.len(),
{
    if t.len() == 0 {
        assert(seq!['0'] + t =~= seq!['0']);
        assert((seq!['0']).drop_last() =~= Seq::<char>::empty());
        assert(str_val(Seq::<char>::empty()) == 0);
        assert((seq!['0']).last() == '0');
        assert(str_val(seq!['0']) == str_val((seq!['0']).drop_last()) * 10 + digit_val(
            (seq!['0']).last(),
        ));
        assert(digit_val('0') == 0);
    } else {
        lemma_str_val_prepend_zero(t.drop_last());
        assert((seq!['0'] + t).drop_last() =~= seq!['0'] + t.drop_last());
        assert((seq!['0'] + t).last() == t.last());
        assert(str_val(seq!['0'] + t) == str_val((seq!['0'] + t).drop_last()) * 10 + digit_val(
            (seq!['0'] + t).last(),
        ));
        assert(str_val(t) == str_val(t.drop_last()) * 10 + digit_val(t.last()));
    }
}

/// A padded rendering still reads back as the number itself.
pub proof fn lemma_pad_val(n: nat)
    ensures
        str_val(pad2(n)) == n,
        str_val(pad4(n)) == n,
        all_digits(pad2(n)),
        all_digits(pad4(n)),
{
    lemma_dec_digits_val(n);
    let t = dec_digits(n);
    lemma_str_val_prepend_zero(t);
    lemma_str_val_prepend_zero(seq!['0'] + t);
    lemma_str_val_prepend_zero(seq!['0'] + (seq!['0'] + t));
    assert(seq!['0', '0'] + t =~= seq!['0'] + (seq!['0'] + t));
    assert(seq!['0', '0', '0'] + t =~= seq!['0'] + (seq!['0'] + (seq!['0'] + t)));
    assert(is_digit('0'));
    assert(all_digits(seq!['0'] + t));
    assert(all_digits(seq!['0', '0'] + t));
    assert(all_digits(seq!['0', '0', '0'] + t));
}

} // verus!
