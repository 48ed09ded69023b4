//! Character- and string-level helpers shared by the URL parser and the
//! HTTP codecs: ASCII case folding, first/last occurrence searches,
//! line-ending stripping, and decimal and hexadecimal numerals.

use vstd::prelude::*;

verus! {

/// ASCII case folding of a single character: `'A'..='Z'` map to lower case,
/// everything else is unchanged.
pub open spec fn lower_char(c: char) -> char {
    if 'A' <= c && c <= 'Z' {
        (((c as u8) + 32) as char)
    } else {
        c
    }
}

/// Pointwise ASCII case folding of a character sequence. Two header names
/// are "the same key" exactly when their folded forms are equal.
pub open spec fn lower(s: Seq<char>) -> Seq<char> {
    s.map_values(|c: char| lower_char(c))
}

/// Index of the first occurrence of `c` in `s`, or `s.len()` if absent.
pub open spec fn first_occ(s: Seq<char>, c: char) -> int
    decreases s.len(),
{
    if s.len() == 0 {
        0
    } else if s[0] == c {
        0
    } else {
        1 + first_occ(s.skip(1), c)
    }
}

/// Index of the last occurrence of `c` in `s`, or `-1` if absent.
pub open spec fn last_occ(s: Seq<char>, c: char) -> int
    decreases s.len(),
{
    if s.len() == 0 {
        -1
    } else if s[s.len() - 1] == c {
        s.len() - 1
    } else {
        last_occ(s.drop_last(), c)
    }
}

pub proof fn lemma_first_occ(s: Seq<char>, c: char)
    ensures
        0 <= first_occ(s, c) <= s.len(),
        first_occ(s, c) < s.len() ==> s[first_occ(s, c)] == c,
        forall|j: int| 0 <= j < first_occ(s, c) ==> s[j] != c,
    decreases s.len(),
{
    if s.len() == 0 {
    } else if s[0] == c {
    } else {
        lemma_first_occ(s.skip(1), c);
        assert forall|j: int| 0 <= j < first_occ(s, c) implies s[j] != c by {
            if j > 0 {
                assert(s.skip(1)[j - 1] == s[j]);
            }
        }
    }
}

pub proof fn lemma_last_occ(s: Seq<char>, c: char)
    ensures
        -1 <= last_occ(s, c) < s.len(),
        last_occ(s, c) >= 0 ==> s[last_occ(s, c)] == c,
        forall|j: int| last_occ(s, c) < j < s.len() ==> s[j] != c,
    decreases s.len(),
{
    if s.len() == 0 {
    } else if s[s.len() - 1] == c {
    } else {
        lemma_last_occ(s.drop_last(), c);
        assert forall|j: int| last_occ(s, c) < j < s.len() implies s[j] != c by {
            if j < s.len() - 1 {
                assert(s.drop_last()[j] == s[j]);
            }
        }
    }
}

/// Index of the first occurrence of the two-character pattern `c1 c2` in
/// `s`, or `s.len()` if absent.
pub open spec fn first_pair(s: Seq<char>, c1: char, c2: char) -> int
    decreases s.len(),
{
    if s.len() < 2 {
        s.len() as int
    } else if s[0] == c1 && s[1] == c2 {
        0
    } else {
        1 + first_pair(s.skip(1), c1, c2)
    }
}

pub proof fn lemma_first_pair(s: Seq<char>, c1: char, c2: char)
    ensures
        0 <= first_pair(s, c1, c2) <= s.len(),
        first_pair(s, c1, c2) < s.len() ==> first_pair(s, c1, c2) + 1 < s.len() && s[first_pair(
            s,
            c1,
            c2,
        )] == c1 && s[first_pair(s, c1, c2) + 1] == c2,
        forall|j: int|
            #![trigger s[j]]
            0 <= j < first_pair(s, c1, c2) && j + 1 < s.len() ==> !(s[j] == c1 && s[j + 1] == c2),
    decreases s.len(),
{
    if s.len() < 2 {
    } else if s[0] == c1 && s[1] == c2 {
    } else {
        lemma_first_pair(s.skip(1), c1, c2);
        assert forall|j: int|
            #![trigger s[j]]
            0 <= j < first_pair(s, c1, c2) && j + 1 < s.len() implies !(s[j] == c1 && s[j + 1]
            == c2) by {
            if j > 0 {
                assert(s.skip(1)[j - 1] == s[j]);
                assert(s.skip(1)[j] == s[j + 1]);
            }
        }
    }
}

/// Index of the first occurrence of the two-character pattern `c1 c2`.
pub fn find_pair(s: &str, c1: char, c2: char) -> (r: Option<usize>)
    ensures
        r matches Some(i) ==> i == first_pair(s@, c1, c2) && i + 1 < s@.len(),
        r is None ==> first_pair(s@, c1, c2) == s@.len(),
{
    proof {
        lemma_first_pair(s@, c1, c2);
    }
    let len = s.unicode_len();
    if len < 2 {
        return None;
    }
    let mut i: usize = 0;
    while i < len - 1
        invariant
            len == s@.len(),
            2 <= len,
            i <= len - 1,
            forall|j: int|
                #![trigger s@[j]]
                0 <= j < i && j + 1 < s@.len() ==> !(s@[j] == c1 && s@[j + 1] == c2),
            0 <= first_pair(s@, c1, c2) <= s@.len(),
            first_pair(s@, c1, c2) < s@.len() ==> first_pair(s@, c1, c2) + 1 < s@.len()
                && s@[first_pair(s@, c1, c2)] == c1 && s@[first_pair(s@, c1, c2) + 1] == c2,
            forall|j: int|
                #![trigger s@[j]]
                0 <= j < first_pair(s@, c1, c2) && j + 1 < s@.len() ==> !(s@[j] == c1 && s@[j + 1]
                    == c2),
        decreases len - i,
    {
        if s.get_char(i) == c1 && s.get_char(i + 1) == c2 {
            assert(i >= first_pair(s@, c1, c2));
            assert(i <= first_pair(s@, c1, c2));
            return Some(i);
        }
        i += 1;
    }
    None
}

/// A line with at most one trailing `'\n'` stripped, then at most one
/// trailing `'\r'`: the tolerant line-ending rule of the response codec.
pub open spec fn strip_line(s: Seq<char>) -> Seq<char> {
    let t = if s.len() > 0 && s[s.len() - 1] == '\n' {
        s.drop_last()
    } else {
        s
    };
    if t.len() > 0 && t[t.len() - 1] == '\r' {
        t.drop_last()
    } else {
        t
    }
}

pub open spec fn is_dec_digit(c: char) -> bool {
    '0' <= c && c <= '9'
}

pub open spec fn dec_digit_val(c: char) -> nat {
    ((c as u8) - 48) as nat
}

pub open spec fn all_dec_digits(s: Seq<char>) -> bool {
    forall|i: int| 0 <= i < s.len() ==> is_dec_digit(s[i])
}

/// Value of a sequence of decimal digits, most significant first.
pub open spec fn dec_val(s: Seq<char>) -> nat
    decreases s.len(),
{
    if s.len() == 0 {
        0
    } else {
        dec_val(s.drop_last()) * 10 + dec_digit_val(s[s.len() - 1])
    }
}

pub open spec fn is_hex_digit(c: char) -> bool {
    ('0' <= c && c <= '9') || ('a' <= c && c <= 'f') || ('A' <= c && c <= 'F')
}

pub open spec fn hex_digit_val(c: char) -> nat {
    if '0' <= c && c <= '9' {
        ((c as u8) - 48) as nat
    } else if 'a' <= c && c <= 'f' {
        ((c as u8) - 87) as nat
    } else {
        ((c as u8) - 55) as nat
    }
}

pub open spec fn all_hex_digits(s: Seq<char>) -> bool {
    forall|i: int| 0 <= i < s.len() ==> is_hex_digit(s[i])
}

/// Value of a sequence of hexadecimal digits, most significant first.
pub open spec fn hex_val(s: Seq<char>) -> nat
    decreases s.len(),
{
    if s.len() == 0 {
        0
    } else {
        hex_val(s.drop_last()) * 16 + hex_digit_val(s[s.len() - 1])
    }
}

/// A digit string's value never shrinks as the string is extended.
proof fn lemma_dec_val_prefix(s: Seq<char>, i: int)
    requires
        0 <= i <= s.len(),
    ensures
        dec_val(s.take(i)) <= dec_val(s),
    decreases s.len() - i,
{
    if i == s.len() {
        assert(s.take(i) =~= s);
    } else {
        lemma_dec_val_prefix(s, i + 1);
        assert(s.take(i + 1).drop_last() =~= s.take(i));
        assert(dec_val(s.take(i)) <= dec_val(s.take(i + 1)));
    }
}

proof fn lemma_hex_val_prefix(s: Seq<char>, i: int)
    requires
        0 <= i <= s.len(),
    ensures
        hex_val(s.take(i)) <= hex_val(s),
    decreases s.len() - i,
{
    if i == s.len() {
        assert(s.take(i) =~= s);
    } else {
        lemma_hex_val_prefix(s, i + 1);
        assert(s.take(i + 1).drop_last() =~= s.take(i));
        assert(hex_val(s.take(i)) <= hex_val(s.take(i + 1)));
    }
}

/// Parses an unsigned decimal number. Returns the value exactly when the
/// string is non-empty, all decimal digits, and the value fits in `u16`.
pub fn parse_u16_dec(s: &str) -> (r: Option<u16>)
    ensures
        r is Some <==> s@.len() > 0 && all_dec_digits(s@) && dec_val(s@) <= u16::MAX,
        r matches Some(v) ==> v == dec_val(s@),
{
    let len = s.unicode_len();
    if len == 0 {
        return None;
    }
    let mut acc: u16 = 0;
    let mut i: usize = 0;
    while i < len
        invariant
            len == s@.len(),
            0 < len,
            i <= len,
            forall|j: int| 0 <= j < i ==> is_dec_digit(s@[j]),
            acc == dec_val(s@.take(i as int)),
        decreases len - i,
    {
        let c = s.get_char(i);
        let x = c as u32;
        if x < 48 || x > 57 {
            assert(!is_dec_digit(s@[i as int]));
            return None;
        }
        let d: u16 = (x - 48) as u16;
        if acc > (u16::MAX - d) / 10 {
            proof {
                assert(s@.take(i as int + 1).drop_last() =~= s@.take(i as int));
                assert(dec_val(s@.take(i as int + 1)) > u16::MAX) by (nonlinear_arith)
                    requires
                        dec_val(s@.take(i as int + 1)) == dec_val(s@.take(i as int)) * 10
                            + dec_digit_val(s@[i as int]),
                        dec_val(s@.take(i as int)) > (u16::MAX - dec_digit_val(s@[i as int])) / 10,
                        dec_digit_val(s@[i as int]) <= 9,
                ;
                lemma_dec_val_prefix(s@, i as int + 1);
            }
            return None;
        }
        proof {
            assert(s@.take(i as int + 1).drop_last() =~= s@.take(i as int));
            assert(acc * 10 + d <= u16::MAX) by (nonlinear_arith)
                requires
                    acc <= (u16::MAX - d) / 10,
                    d <= 9,
            ;
        }
        acc = acc * 10 + d;
        i += 1;
    }
    proof {
        assert(s@.take(len as int) =~= s@);
    }
    Some(acc)
}

/// Parses an unsigned decimal number into `usize`, as a body length is.
pub fn parse_usize_dec(s: &str) -> (r: Option<usize>)
    ensures
        r is Some <==> s@.len() > 0 && all_dec_digits(s@) && dec_val(s@) <= usize::MAX,
        r matches Some(v) ==> v == dec_val(s@),
{
    let len = s.unicode_len();
    if len == 0 {
        return None;
    }
    let mut acc: usize = 0;
    let mut i: usize = 0;
    while i < len
        invariant
            len == s@.len(),
            0 < len,
            i <= len,
            forall|j: int| 0 <= j < i ==> is_dec_digit(s@[j]),
            acc == dec_val(s@.take(i as int)),
        decreases len - i,
    {
        let c = s.get_char(i);
        let x = c as u32;
        if x < 48 || x > 57 {
            assert(!is_dec_digit(s@[i as int]));
            return None;
        }
        let d: usize = (x - 48) as usize;
        if acc > (usize::MAX - d) / 10 {
            proof {
                assert(s@.take(i as int + 1).drop_last() =~= s@.take(i as int));
                assert(dec_val(s@.take(i as int + 1)) > usize::MAX) by (nonlinear_arith)
                    requires
                        dec_val(s@.take(i as int + 1)) == dec_val(s@.take(i as int)) * 10
                            + dec_digit_val(s@[i as int]),
                        dec_val(s@.take(i as int)) > (usize::MAX - dec_digit_val(s@[i as int]))
                            / 10,
                        dec_digit_val(s@[i as int]) <= 9,
                ;
                lemma_dec_val_prefix(s@, i as int + 1);
            }
            return None;
        }
        proof {
            assert(s@.take(i as int + 1).drop_last() =~= s@.take(i as int));
            assert(acc * 10 + d <= usize::MAX) by (nonlinear_arith)
                requires
                    acc <= (usize::MAX - d) / 10,
                    d <= 9,
            ;
        }
        acc = acc * 10 + d;
        i += 1;
    }
    proof {
        assert(s@.take(len as int) =~= s@);
    }
    Some(acc)
}

/// Parses an unsigned hexadecimal number, as a chunk-size line carries.
pub fn parse_usize_hex(s: &str) -> (r: Option<usize>)
    ensures
        r is Some <==> s@.len() > 0 && all_hex_digits(s@) && hex_val(s@) <= usize::MAX,
        r matches Some(v) ==> v == hex_val(s@),
{
    let len = s.unicode_len();
    if len == 0 {
        return None;
    }
    let mut acc: usize = 0;
    let mut i: usize = 0;
    while i < len
        invariant
            len == s@.len(),
            0 < len,
            i <= len,
            forall|j: int| 0 <= j < i ==> is_hex_digit(s@[j]),
            acc == hex_val(s@.take(i as int)),
        decreases len - i,
    {
        let c = s.get_char(i);
        let x = c as u32;
        let d: usize;
        if 48 <= x && x <= 57 {
            d = (x - 48) as usize;
        } else if 97 <= x && x <= 102 {
            d = (x - 87) as usize;
        } else if 65 <= x && x <= 70 {
            d = (x - 55) as usize;
        } else {
            assert(!is_hex_digit(s@[i as int]));
            return None;
        }
        assert(d == hex_digit_val(s@[i as int]) && d <= 15);
        if acc > (usize::MAX - d) / 16 {
            proof {
                assert(s@.take(i as int + 1).drop_last() =~= s@.take(i as int));
                assert(hex_val(s@.take(i as int + 1)) > usize::MAX) by (nonlinear_arith)
                    requires
                        hex_val(s@.take(i as int + 1)) == hex_val(s@.take(i as int)) * 16
                            + hex_digit_val(s@[i as int]),
                        hex_val(s@.take(i as int)) > (usize::MAX - hex_digit_val(s@[i as int]))
                            / 16,
                        hex_digit_val(s@[i as int]) <= 15,
                ;
                lemma_hex_val_prefix(s@, i as int + 1);
            }
            return None;
        }
        proof {
            assert(s@.take(i as int + 1).drop_last() =~= s@.take(i as int));
            assert(acc * 16 + d <= usize::MAX) by (nonlinear_arith)
                requires
                    acc <= (usize::MAX - d) / 16,
                    d <= 15,
            ;
        }
        acc = acc * 16 + d;
        i += 1;
    }
    proof {
        assert(s@.take(len as int) =~= s@);
    }
    Some(acc)
}

/// The character for a decimal digit value.
pub open spec fn digit_char(d: nat) -> char {
    (((d + 48) as u8) as char)
}

/// The canonical decimal rendering of a number: no sign, no leading zeros
/// (a single `'0'` for zero).
pub open spec fn dec_chars(n: nat) -> Seq<char>
    decreases n,
{
    if n < 10 {
        seq![digit_char(n)]
    } else {
        dec_chars(n / 10).push(digit_char(n % 10))
    }
}

/// The one-character string for a decimal digit value.
fn dec_digit_str(d: u16) -> (r: &'static str)
    requires
        d < 10,
    ensures
        r@ =~= seq![digit_char(d as nat)],
{
    proof {
        reveal_strlit("0");
        reveal_strlit("1");
        reveal_strlit("2");
        reveal_strlit("3");
        reveal_strlit("4");
        reveal_strlit("5");
        reveal_strlit("6");
        reveal_strlit("7");
        reveal_strlit("8");
        reveal_strlit("9");
    }
    match d {
        0 => "0",
        1 => "1",
        2 => "2",
        3 => "3",
        4 => "4",
        5 => "5",
        6 => "6",
        7 => "7",
        8 => "8",
        _ => "9",
    }
}

/// The characters for a sequence of decimal digit values, in order.
pub open spec fn digit_chars_of(s: Seq<u16>) -> Seq<char> {
    Seq::new(s.len(), |i: int| digit_char(s[i] as nat))
}

/// Renders a `u16` in decimal, as a status code is displayed.
pub fn u16_to_dec_string(n: u16) -> (r: String)
    ensures
        r@ == dec_chars(n as nat),
{
    let mut digits: Vec<u16> = Vec::new();
    let mut m: u16 = n;
    loop
        invariant_except_break
            dec_chars(n as nat) == dec_chars(m as nat) + digit_chars_of(digits@),
            forall|j: int| 0 <= j < digits@.len() ==> digits@[j] < 10,
        ensures
            dec_chars(n as nat) == digit_chars_of(digits@),
            forall|j: int| 0 <= j < digits@.len() ==> digits@[j] < 10,
        decreases m,
    {
        let d: u16 = m % 10;
        let ghost old_m = m;
        let ghost old_digits = digits@;
        digits.insert(0, d);
        proof {
            assert(digit_chars_of(digits@) =~= seq![digit_char(d as nat)] + digit_chars_of(
                old_digits,
            ));
        }
        m = m / 10;
        if m == 0 {
            proof {
                assert(old_m < 10);
                assert(dec_chars(old_m as nat) =~= seq![digit_char(d as nat)]);
                assert(dec_chars(n as nat) =~= digit_chars_of(digits@));
            }
            break;
        }
        proof {
            assert(dec_chars(old_m as nat) == dec_chars(m as nat).push(digit_char(d as nat)));
            assert(dec_chars(m as nat).push(digit_char(d as nat)) + digit_chars_of(old_digits)
                =~= dec_chars(m as nat) + (seq![digit_char(d as nat)] + digit_chars_of(
                old_digits,
            )));
        }
    }
    let mut r = String::new();
    let mut i: usize = 0;
    while i < digits.len()
        invariant
            r@ == digit_chars_of(digits@).take(i as int),
            i <= digits@.len(),
            digit_chars_of(digits@) == dec_chars(n as nat),
            forall|j: int| 0 <= j < digits@.len() ==> digits@[j] < 10,
        decreases digits@.len() - i,
    {
        let d = digits[i];
        r.append(dec_digit_str(d));
        proof {
            assert(digit_chars_of(digits@)[i as int] == digit_char(d as nat));
            assert(digit_chars_of(digits@).take(i as int) + seq![digit_char(d as nat)]
                =~= digit_chars_of(digits@).take(i as int + 1));
        }
        i += 1;
    }
    proof {
        assert(digit_chars_of(digits@).take(digits@.len() as int) =~= digit_chars_of(digits@));
    }
    r
}

/// Executable ASCII case folding of one character.
pub fn lower_char_exec(c: char) -> (r: char)
    ensures
        r == lower_char(c),
{
    let x = c as u32;
    if 65 <= x && x <= 90 {
        ((x + 32) as u8) as char
    } else {
        c
    }
}

/// Equality of two strings up to ASCII case.
pub fn eq_ignore_ascii_case(a: &str, b: &str) -> (r: bool)
    ensures
        r == (lower(a@) == lower(b@)),
{
    let alen = a.unicode_len();
    let blen = b.unicode_len();
    if alen != blen {
        assert(lower(a@).len() != lower(b@).len());
        return false;
    }
    let mut i: usize = 0;
    while i < alen
        invariant
            alen == a@.len(),
            alen == b@.len(),
            i <= alen,
            forall|j: int| 0 <= j < i ==> lower_char(a@[j]) == lower_char(b@[j]),
        decreases alen - i,
    {
        let ca = a.get_char(i);
        let cb = b.get_char(i);
        if lower_char_exec(ca) != lower_char_exec(cb) {
            assert(lower(a@)[i as int] != lower(b@)[i as int]);
            return false;
        }
        i += 1;
    }
    assert(lower(a@) =~= lower(b@));
    true
}

/// Plain equality of two strings.
pub fn str_eq(a: &str, b: &str) -> (r: bool)
    ensures
        r == (a@ == b@),
{
    let alen = a.unicode_len();
    let blen = b.unicode_len();
    if alen != blen {
        return false;
    }
    let mut i: usize = 0;
    while i < alen
        invariant
            alen == a@.len(),
            alen == b@.len(),
            i <= alen,
            forall|j: int| 0 <= j < i ==> a@[j] == b@[j],
        decreases alen - i,
    {
        if a.get_char(i) != b.get_char(i) {
            return false;
        }
        i += 1;
    }
    assert(a@ =~= b@);
    true
}

/// Index of the first occurrence of `c` in `s`, if any.
pub fn find_char(s: &str, c: char) -> (r: Option<usize>)
    ensures
        r matches Some(i) ==> i == first_occ(s@, c) && i < s@.len(),
        r is None ==> first_occ(s@, c) == s@.len(),
{
    proof {
        lemma_first_occ(s@, c);
    }
    let len = s.unicode_len();
    let mut i: usize = 0;
    while i < len
        invariant
            len == s@.len(),
            i <= len,
            forall|j: int| 0 <= j < i ==> s@[j] != c,
            0 <= first_occ(s@, c) <= s@.len(),
            first_occ(s@, c) < s@.len() ==> s@[first_occ(s@, c)] == c,
            forall|j: int| 0 <= j < first_occ(s@, c) ==> s@[j] != c,
        decreases len - i,
    {
        if s.get_char(i) == c {
            return Some(i);
        }
        i += 1;
    }
    None
}

/// Index of the last occurrence of `c` in `s`, if any.
pub fn rfind_char(s: &str, c: char) -> (r: Option<usize>)
    ensures
        r matches Some(i) ==> i == last_occ(s@, c) && i < s@.len(),
        r is None ==> last_occ(s@, c) == -1,
{
    proof {
        lemma_last_occ(s@, c);
    }
    let len = s.unicode_len();
    let mut i: usize = len;
    while i > 0
        invariant
            len == s@.len(),
            i <= len,
            forall|j: int| i <= j < len ==> s@[j] != c,
            -1 <= last_occ(s@, c) < s@.len(),
            last_occ(s@, c) >= 0 ==> s@[last_occ(s@, c)] == c,
            forall|j: int| last_occ(s@, c) < j < s@.len() ==> s@[j] != c,
        decreases i,
    {
        i -= 1;
        if s.get_char(i) == c {
            return Some(i);
        }
    }
    None
}

/// A line as handed back by a reader, with its end-of-line marker removed:
/// at most one trailing `'\n'` is stripped, then at most one trailing `'\r'`.
pub fn strip_line_ending(line: &str) -> (r: String)
    ensures
        r@ == strip_line(line@),
{
    let len = line.unicode_len();
    let mut end: usize = len;
    if end > 0 && line.get_char(end - 1) == '\n' {
        end -= 1;
    }
    if end > 0 && line.get_char(end - 1) == '\r' {
        end -= 1;
    }
    let sub = line.substring_char(0, end);
    proof {
        assert(sub@ =~= strip_line(line@));
    }
    String::from_str(sub)
}

} // verus!
