//! Decimal numerals and whitespace, as the tool's command line and its
//! tabular output use them.
use vstd::prelude::*;

verus! {

/// The character of a decimal digit.
pub open spec fn digit_char(d: nat) -> char
    recommends
        d < 10,
{
    seq!['0', '1', '2', '3', '4', '5', '6', '7', '8', '9'][d as int]
}

/// The decimal numeral of a natural number, without leading zeros.
pub open spec fn nat_text(n: nat) -> Seq<char>
    decreases n,
{
    if n < 10 {
        seq![digit_char(n)]
    } else {
        nat_text(n / 10).push(digit_char(n % 10))
    }
}

/// The decimal numeral of an integer, with a minus sign when negative.
pub open spec fn int_text(n: int) -> Seq<char> {
    if n < 0 {
        seq!['-'] + nat_text((-n) as nat)
    } else {
        nat_text(n as nat)
    }
}

fn digit_str(d: u32) -> (r: &'static str)
    requires
        d < 10,
    ensures
        r@ == seq![digit_char(d as nat)],
{
    let all = "0123456789";
    proof {
        reveal_strlit("0123456789");
    }
    let r = all.substring_ascii(d as usize, d as usize + 1);
    assert(r@ =~= seq![digit_char(d as nat)]);
    r
}

fn append_nat_text(s: &mut String, n: u32)
    ensures
        final(s)@ == old(s)@ + nat_text(n as nat),
    decreases n,
{
    if n >= 10 {
        append_nat_text(s, n / 10);
    }
    s.append(digit_str(n % 10));
    assert(final(s)@ =~= old(s)@ + nat_text(n as nat));
}

/// Writes an integer in decimal, the way the tool expects a port.
pub fn decimal_text(n: i32) -> (r: String)
    ensures
        r@ == int_text(n as int),
{
    let mut s = String::new();
    if n < 0 {
        s.append("-");
        let m: u32 = (0i64 - n as i64) as u32;
        append_nat_text(&mut s, m);
        proof {
            reveal_strlit("-");
            assert(s@ =~= int_text(n as int));
        }
    } else {
        append_nat_text(&mut s, n as u32);
        assert(s@ =~= int_text(n as int));
    }
    s
}

/// Unicode's white space: what separates the columns of a table row.
pub open spec fn is_white(c: char) -> bool {
    ('\u{9}' <= c && c <= '\u{d}') || c == ' ' || c == '\u{85}' || c == '\u{a0}'
        || c == '\u{1680}' || ('\u{2000}' <= c && c <= '\u{200a}') || c == '\u{2028}'
        || c == '\u{2029}' || c == '\u{202f}' || c == '\u{205f}' || c == '\u{3000}'
}

/// Tells whether a character is white space.
pub fn is_white_char(c: char) -> (r: bool)
    ensures
        r == is_white(c),
{
    ('\u{9}' <= c && c <= '\u{d}') || c == ' ' || c == '\u{85}' || c == '\u{a0}'
        || c == '\u{1680}' || ('\u{2000}' <= c && c <= '\u{200a}') || c == '\u{2028}'
        || c == '\u{2029}' || c == '\u{202f}' || c == '\u{205f}' || c == '\u{3000}'
}

/// An ASCII decimal digit.
pub open spec fn is_digit(c: char) -> bool {
    '0' <= c && c <= '9'
}

pub open spec fn all_digits(s: Seq<char>) -> bool {
    forall|i: int| 0 <= i < s.len() ==> is_digit(#[trigger] s[i])
}

/// The value of a run of decimal digits.
pub open spec fn digits_value(s: Seq<char>) -> int
    decreases s.len(),
{
    if s.len() == 0 {
        0
    } else {
        10 * digits_value(s.drop_last()) + (s.last() as int - '0' as int)
    }
}

/// The value of a decimal numeral with an optional sign: `None` unless the
/// text is an optional `+` or `-` followed by at least one digit.
pub open spec fn numeral_value(s: Seq<char>) -> Option<int> {
    if s.len() > 0 && (s[0] == '+' || s[0] == '-') {
        let m = s.drop_first();
        if m.len() > 0 && all_digits(m) {
            Some(if s[0] == '-' { -digits_value(m) } else { digits_value(m) })
        } else {
            None
        }
    } else if s.len() > 0 && all_digits(s) {
        Some(digits_value(s))
    } else {
        None
    }
}

/// What reading the text as a 32-bit signed integer gives: its value when
/// it is a numeral in range, nothing otherwise.
pub open spec fn i32_of_text(s: Seq<char>) -> Option<i32> {
    match numeral_value(s) {
        Some(v) => if i32::MIN <= v <= i32::MAX {
            Some(v as i32)
        } else {
            None
        },
        None => None,
    }
}

proof fn lemma_digits_value_nonneg(s: Seq<char>)
    requires
        all_digits(s),
    ensures
        digits_value(s) >= 0,
    decreases s.len(),
{
    if s.len() > 0 {
        assert(is_digit(s[s.len() - 1]));
        lemma_digits_value_nonneg(s.drop_last());
    }
}

/// Reads `chars[start..end]` as a 32-bit signed integer.
pub fn parse_i32(chars: &Vec<char>, start: usize, end: usize) -> (r: Option<i32>)
    requires
        start <= end <= chars@.len(),
    ensures
        r == i32_of_text(chars@.subrange(start as int, end as int)),
{
    let ghost s = chars@.subrange(start as int, end as int);
    if start == end {
        return None;
    }
    let c0 = chars[start];
    let neg = c0 == '-';
    let mut i: usize = start;
    if c0 == '-' || c0 == '+' {
        i = start + 1;
        if i == end {
            return None;
        }
    }
    let ds: usize = i;
    let ghost m = chars@.subrange(ds as int, end as int);
    assert(s.len() > 0 && (s[0] == '+' || s[0] == '-') ==> m =~= s.drop_first());
    assert(!(s[0] == '+' || s[0] == '-') ==> m =~= s);
    let mut acc: u64 = 0;
    let mut big = false;
    while i < end
        invariant
            start <= ds <= i <= end <= chars@.len(),
            m == chars@.subrange(ds as int, end as int),
            s == chars@.subrange(start as int, end as int),
            s.len() > 0,
            neg == (s[0] == '-'),
            (s[0] == '+' || s[0] == '-') ==> m == s.drop_first() && m.len() > 0,
            !(s[0] == '+' || s[0] == '-') ==> m == s,
            all_digits(chars@.subrange(ds as int, i as int)),
            big ==> digits_value(chars@.subrange(ds as int, i as int)) > 2147483648,
            !big ==> acc == digits_value(chars@.subrange(ds as int, i as int)) && acc
                <= 2147483648,
        decreases end - i,
    {
        let c = chars[i];
        if !('0' <= c && c <= '9') {
            assert(m[i - ds] == c);
            assert(!is_digit(m[i - ds]));
            assert(!all_digits(m));
            return None;
        }
        let ghost prev = chars@.subrange(ds as int, i as int);
        let ghost next = chars@.subrange(ds as int, i + 1);
        assert(next.drop_last() =~= prev);
        assert(next.last() == c);
        assert(all_digits(next)) by {
            assert forall|k: int| 0 <= k < next.len() implies is_digit(#[trigger] next[k]) by {
                if k < prev.len() {
                    assert(next[k] == prev[k]);
                }
            }
        }
        let d: u64 = (c as u32 - '0' as u32) as u64;
        proof {
            lemma_digits_value_nonneg(prev);
        }
        if !big {
            let nv = acc * 10 + d;
            if nv > 2147483648 {
                big = true;
            } else {
                acc = nv;
            }
        }
        i = i + 1;
    }
    assert(chars@.subrange(ds as int, i as int) =~= m);
    if big {
        return None;
    }
    if neg {
        Some((0i64 - acc as i64) as i32)
    } else if acc <= 2147483647 {
        Some(acc as i32)
    } else {
        None
    }
}

} // verus!
