//! Text: numbers written out and strings compared.
use vstd::prelude::*;
use vstd::string::*;
use vstd::utf8::encode_utf8_decode_utf8;

verus! {

/// The character of a digit below sixteen.
pub open spec fn digit_char(d: int) -> char {
    if d < 10 {
        ('0' as u32 + d) as char
    } else {
        ('a' as u32 + (d - 10)) as char
    }
}

/// `n` in decimal, without leading zeros.
pub open spec fn decimal(n: nat) -> Seq<char>
    decreases n,
{
    if n < 10 {
        seq![digit_char(n as int)]
    } else {
        decimal(n / 10).push(digit_char(n as int % 10))
    }
}

/// `n` in decimal, with a minus sign in front where it is negative.
pub open spec fn signed_decimal(n: int) -> Seq<char> {
    if n < 0 {
        seq!['-'] + decimal((-n) as nat)
    } else {
        decimal(n as nat)
    }
}

/// `0x` and the two hexadecimal digits of a byte.
pub open spec fn hex_byte(n: u8) -> Seq<char> {
    seq!['0', 'x', digit_char(n as int / 16), digit_char(n as int % 16)]
}

/// `0x` and the four hexadecimal digits of a 16-bit number.
pub open spec fn hex_word(n: u16) -> Seq<char> {
    seq![
        '0',
        'x',
        digit_char(n as int / 0x1000),
        digit_char(n as int / 0x100 % 16),
        digit_char(n as int / 16 % 16),
        digit_char(n as int % 16),
    ]
}

fn digit(d: u8) -> (s: &'static str)
    requires
        d < 16,
    ensures
        s@ == seq![digit_char(d as int)],
{
    proof {
        reveal_strlit("0");
        reveal_strlit("1");
        reveal_strlit("2");
        reveal_strlit("3");
        reveal_strlit("4");
        reveal_strlit("5");
        reveal_strlit("6");
        reveal_strlit("7");
        reveal_strlit("8");
        reveal_strlit("9");
        reveal_strlit("a");
        reveal_strlit("b");
        reveal_strlit("c");
        reveal_strlit("d");
        reveal_strlit("e");
        reveal_strlit("f");
    }
    let s: &'static str = match d {
        0 => "0",
        1 => "1",
        2 => "2",
        3 => "3",
        4 => "4",
        5 => "5",
        6 => "6",
        7 => "7",
        8 => "8",
        9 => "9",
        10 => "a",
        11 => "b",
        12 => "c",
        13 => "d",
        14 => "e",
        _ => "f",
    };
    assert(s@ =~= seq![digit_char(d as int)]);
    s
}

/// Appends `n` in decimal.
pub fn push_decimal(out: &mut String, n: u64)
    ensures
        final(out)@ == old(out)@ + decimal(n as nat),
    decreases n,
{
    if n >= 10 {
        push_decimal(out, n / 10);
    }
    out.append(digit((n % 10) as u8));
    assert(out@ =~= old(out)@ + decimal(n as nat));
}

/// Appends `n` in decimal, with a minus sign in front where it is negative.
pub fn push_signed(out: &mut String, n: i32)
    ensures
        final(out)@ == old(out)@ + signed_decimal(n as int),
{
    if n < 0 {
        proof {
            reveal_strlit("-");
        }
        out.append("-");
        let magnitude: u64 = (-(n as i64)) as u64;
        push_decimal(out, magnitude);
        assert(out@ =~= old(out)@ + signed_decimal(n as int));
    } else {
        push_decimal(out, n as u64);
    }
}

/// Appends `0x` and the two hexadecimal digits of a byte.
pub fn push_hex_byte(out: &mut String, n: u8)
    ensures
        final(out)@ == old(out)@ + hex_byte(n),
{
    proof {
        reveal_strlit("0x");
    }
    out.append("0x");
    out.append(digit(n / 16));
    out.append(digit(n % 16));
    assert(out@ =~= old(out)@ + hex_byte(n));
}

/// Appends `0x` and the four hexadecimal digits of a 16-bit number.
pub fn push_hex_word(out: &mut String, n: u16)
    ensures
        final(out)@ == old(out)@ + hex_word(n),
{
    proof {
        reveal_strlit("0x");
    }
    out.append("0x");
    out.append(digit((n / 0x1000) as u8));
    out.append(digit((n / 0x100 % 16) as u8));
    out.append(digit((n / 16 % 16) as u8));
    out.append(digit((n % 16) as u8));
    assert(out@ =~= old(out)@ + hex_word(n));
}

/// Whether two byte slices hold the same bytes.
pub fn bytes_eq(a: &[u8], b: &[u8]) -> (same: bool)
    ensures
        same == (a@ == b@),
{
    if a.len() != b.len() {
        return false;
    }
    let mut i: usize = 0;
    while i < a.len()
        invariant
            i <= a@.len(),
            a@.len() == b@.len(),
            forall|j: int| 0 <= j < i ==> a@[j] == b@[j],
        decreases a@.len() - i,
    {
        if a[i] != b[i] {
            assert(a@[i as int] != b@[i as int]);
            return false;
        }
        i = i + 1;
    }
    assert(a@ =~= b@);
    true
}

/// Whether two strings hold the same characters.
pub fn str_eq(a: &str, b: &str) -> (same: bool)
    ensures
        same == (a@ == b@),
{
    proof {
        encode_utf8_decode_utf8(a@);
        encode_utf8_decode_utf8(b@);
    }
    bytes_eq(a.as_bytes(), b.as_bytes())
}

// ---------------------------------------------------------------------------
// What numbers written out stand for
// ---------------------------------------------------------------------------

/// The value of a digit of a base of up to sixteen; none for other characters.
pub open spec fn digit_value(c: char) -> Option<int> {
    if '0' <= c <= '9' {
        Some(c as u32 - '0' as u32)
    } else if 'a' <= c <= 'f' {
        Some(10 + (c as u32 - 'a' as u32))
    } else {
        None
    }
}

/// The number that digits stand for, in a base.
pub open spec fn text_value(text: Seq<char>, base: int) -> int
    decreases text.len(),
{
    if text.len() == 0 {
        0
    } else {
        base * text_value(text.drop_last(), base) + digit_value(text.last())->0
    }
}

proof fn lemma_digit_char(d: int)
    requires
        0 <= d < 16,
    ensures
        digit_value(digit_char(d)) == Some(d),
        d < 10 <==> '0' <= digit_char(d) <= '9',
{
}

/// A number in decimal is one or more decimal digits that stand for it, without a
/// zero in front of another digit.
pub proof fn law_decimal_stands_for_its_number(n: nat)
    ensures
        decimal(n).len() > 0,
        forall|i: int| 0 <= i < decimal(n).len() ==> '0' <= #[trigger] decimal(n)[i] <= '9',
        text_value(decimal(n), 10) == n,
        decimal(n).len() > 1 ==> decimal(n)[0] != '0',
    decreases n,
{
    let text = decimal(n);
    if n < 10 {
        lemma_digit_char(n as int);
        assert(text.drop_last() =~= Seq::<char>::empty());
        assert(text_value(text.drop_last(), 10) == 0);
    } else {
        let shorter = decimal(n / 10);
        law_decimal_stands_for_its_number(n / 10);
        lemma_digit_char(n as int % 10);
        assert(text.drop_last() =~= shorter);
        assert(text[0] == shorter[0]);
        if shorter.len() == 1 {
            assert(shorter.drop_last() =~= Seq::<char>::empty());
            assert(text_value(shorter.drop_last(), 10) == 0);
            if shorter[0] == '0' {
                assert(digit_value(shorter.last()) == Some(0int));
                assert(text_value(shorter, 10) == 0);
            }
        }
    }
}

/// A negative number is written as a minus sign and its magnitude, any other as it
/// is.
pub proof fn law_signed_decimal_stands_for_its_number(n: int)
    ensures
        n < 0 ==> signed_decimal(n)[0] == '-' && text_value(signed_decimal(n).drop_first(), 10)
            == -n,
        n >= 0 ==> text_value(signed_decimal(n), 10) == n && signed_decimal(n)[0] != '-',
{
    if n < 0 {
        law_decimal_stands_for_its_number((-n) as nat);
        assert(signed_decimal(n).drop_first() =~= decimal((-n) as nat));
    } else {
        law_decimal_stands_for_its_number(n as nat);
        assert('0' <= decimal(n as nat)[0] <= '9');
    }
}

/// A byte and a 16-bit number in hexadecimal are "0x" and two or four digits that
/// stand for them.
pub proof fn law_hexadecimal_stands_for_its_number(b: u8, w: u16)
    ensures
        hex_byte(b).len() == 4,
        hex_byte(b)[0] == '0' && hex_byte(b)[1] == 'x',
        text_value(hex_byte(b).skip(2), 16) == b,
        hex_word(w).len() == 6,
        hex_word(w)[0] == '0' && hex_word(w)[1] == 'x',
        text_value(hex_word(w).skip(2), 16) == w,
{
    reveal_with_fuel(text_value, 5);
    lemma_digit_char(b as int / 16);
    lemma_digit_char(b as int % 16);
    let t = hex_byte(b).skip(2);
    assert(t.drop_last().drop_last() =~= Seq::<char>::empty());
    lemma_digit_char(w as int / 0x1000);
    lemma_digit_char(w as int / 0x100 % 16);
    lemma_digit_char(w as int / 16 % 16);
    lemma_digit_char(w as int % 16);
    let u = hex_word(w).skip(2);
    let u3 = u.drop_last();
    let u2 = u3.drop_last();
    let u1 = u2.drop_last();
    assert(u.last() == hex_word(w)[5] && u3.last() == hex_word(w)[4]);
    assert(u2.last() == hex_word(w)[3] && u1.last() == hex_word(w)[2]);
    assert(u1.drop_last() =~= Seq::<char>::empty());
}

/// Whether `part` stands in a text, from the place `at` on.
pub open spec fn stands_at(text: Seq<char>, at: int, part: Seq<char>) -> bool {
    0 <= at && at + part.len() <= text.len() && text.subrange(at, at + part.len()) == part
}

} // verus!
