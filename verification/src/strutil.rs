//! Character and string helpers: decimal numerals, ASCII case folding,
//! trimming, and the two trusted bridges to `std`'s string routines.

use vstd::prelude::*;

verus! {

// ---------------------------------------------------------------------------
// Decimal numerals
// ---------------------------------------------------------------------------

/// `c` is an ASCII decimal digit.
pub open spec fn is_digit_char(c: char) -> bool {
    48 <= c as u32 <= 57
}

/// Numeric value of an ASCII digit.
pub open spec fn digit_value(c: char) -> int {
    c as u32 - 48
}

/// Every character of `s` is an ASCII decimal digit.
pub open spec fn all_digits(s: Seq<char>) -> bool {
    forall|i: int| 0 <= i < s.len() ==> is_digit_char(#[trigger] s[i])
}

/// Value of a sequence of decimal digits, most significant first.
pub open spec fn dec_value(s: Seq<char>) -> int
    decreases s.len(),
{
    if s.len() == 0 {
        0
    } else {
        dec_value(s.drop_last()) * 10 + digit_value(s.last())
    }
}

/// The digits of an unsigned numeral: an optional leading `+` is skipped.
pub open spec fn numeral_digits(s: Seq<char>) -> Seq<char> {
    if s.len() > 0 && s[0] == '+' {
        s.subrange(1, s.len() as int)
    } else {
        s
    }
}

/// How a token reads as an unsigned byte numeral.
pub enum NumeralClass {
    /// Digits (with optional leading `+`) whose value fits in a byte.
    Value(u8),
    /// Digits whose value exceeds 255.
    TooLarge,
    /// Not a numeral at all.
    Malformed,
}

/// Classification of `s` as a byte numeral, mirroring how an unsigned
/// decimal parse of a byte treats it.
pub open spec fn numeral_class(s: Seq<char>) -> NumeralClass {
    let d = numeral_digits(s);
    if d.len() == 0 || !all_digits(d) {
        NumeralClass::Malformed
    } else if dec_value(d) > 255 {
        NumeralClass::TooLarge
    } else {
        NumeralClass::Value(dec_value(d) as u8)
    }
}

/// `Some(v)` when `s` is a numeral of value `v` in 0..=255, else `None`.
pub open spec fn parse_u8_spec(s: Seq<char>) -> Option<u8> {
    match numeral_class(s) {
        NumeralClass::Value(v) => Some(v),
        _ => None,
    }
}

/// Classifies `s` as a byte numeral.
pub fn classify_numeral(s: &str) -> (r: NumeralClass)
    ensures
        r == numeral_class(s@),
{
    let n = s.unicode_len();
    let start: usize = if n > 0 && s.get_char(0) == '+' {
        1
    } else {
        0
    };
    assert(s@.subrange(start as int, n as int) =~= numeral_digits(s@));
    if start == n {
        assert(numeral_digits(s@).len() == 0);
        return NumeralClass::Malformed;
    }
    // `acc` holds the value of the digits read so far, capped at 256.
    let mut acc: u32 = 0;
    let mut i: usize = start;
    while i < n
        invariant
            start <= i <= n,
            n == s@.len(),
            numeral_digits(s@) == s@.subrange(start as int, n as int),
            acc <= 256,
            all_digits(s@.subrange(start as int, i as int)),
            acc == (if dec_value(s@.subrange(start as int, i as int)) > 255 {
                256int
            } else {
                dec_value(s@.subrange(start as int, i as int))
            }),
        decreases n - i,
    {
        let c = s.get_char(i);
        let u = c as u32;
        if u < 48 || u > 57 {
            assert(numeral_digits(s@)[i - start] == s@[i as int]);
            return NumeralClass::Malformed;
        }
        proof {
            assert(s@.subrange(start as int, i + 1).drop_last() =~= s@.subrange(
                start as int,
                i as int,
            ));
            assert(s@.subrange(start as int, i + 1).last() == c);
        }
        acc = acc * 10 + (u - 48);
        if acc > 255 {
            acc = 256;
        }
        i = i + 1;
    }
    assert(s@.subrange(start as int, n as int) =~= numeral_digits(s@));
    if acc > 255 {
        NumeralClass::TooLarge
    } else {
        NumeralClass::Value(acc as u8)
    }
}

/// Parses `s` as a byte value, `None` when it is not one.
pub fn parse_u8(s: &str) -> (r: Option<u8>)
    ensures
        r == parse_u8_spec(s@),
{
    match classify_numeral(s) {
        NumeralClass::Value(v) => Some(v),
        _ => None,
    }
}

/// How a token reads as a machine-word numeral.
pub enum WideNumeralClass {
    /// Digits (with optional leading `+`) whose value fits in a machine word.
    Value(usize),
    /// Digits whose value exceeds the machine word.
    TooLarge,
    /// Not a numeral at all.
    Malformed,
}

/// Classification of `s` as a machine-word numeral.
pub open spec fn wide_numeral_class(s: Seq<char>) -> WideNumeralClass {
    let d = numeral_digits(s);
    if d.len() == 0 || !all_digits(d) {
        WideNumeralClass::Malformed
    } else if dec_value(d) > usize::MAX {
        WideNumeralClass::TooLarge
    } else {
        WideNumeralClass::Value(dec_value(d) as usize)
    }
}

/// Classifies `s` as a machine-word numeral.
pub fn classify_wide_numeral(s: &str) -> (r: WideNumeralClass)
    ensures
        r == wide_numeral_class(s@),
{
    let n = s.unicode_len();
    let start: usize = if n > 0 && s.get_char(0) == '+' {
        1
    } else {
        0
    };
    assert(s@.subrange(start as int, n as int) =~= numeral_digits(s@));
    if start == n {
        assert(numeral_digits(s@).len() == 0);
        return WideNumeralClass::Malformed;
    }
    let mut acc: usize = 0;
    let mut over: bool = false;
    let mut i: usize = start;
    while i < n
        invariant
            start <= i <= n,
            n == s@.len(),
            numeral_digits(s@) == s@.subrange(start as int, n as int),
            all_digits(s@.subrange(start as int, i as int)),
            !over ==> acc == dec_value(s@.subrange(start as int, i as int)),
            over ==> dec_value(s@.subrange(start as int, i as int)) > usize::MAX,
        decreases n - i,
    {
        let c = s.get_char(i);
        let u = c as u32;
        if u < 48 || u > 57 {
            assert(numeral_digits(s@)[i - start] == s@[i as int]);
            return WideNumeralClass::Malformed;
        }
        let d = (u - 48) as usize;
        proof {
            assert(s@.subrange(start as int, i + 1).drop_last() =~= s@.subrange(
                start as int,
                i as int,
            ));
            assert(s@.subrange(start as int, i + 1).last() == c);
        }
        if !over {
            match acc.checked_mul(10) {
                Some(m) => match m.checked_add(d) {
                    Some(v) => {
                        acc = v;
                    },
                    None => {
                        over = true;
                    },
                },
                None => {
                    over = true;
                },
            }
        } else {
            proof {
                let prev = dec_value(s@.subrange(start as int, i as int));
                assert(prev * 10 == prev + 9 * prev);
            }
        }
        i = i + 1;
    }
    assert(s@.subrange(start as int, n as int) =~= numeral_digits(s@));
    if over {
        WideNumeralClass::TooLarge
    } else {
        WideNumeralClass::Value(acc)
    }
}

/// The digit character for a value in 0..=9.
pub open spec fn digit_char(d: int) -> char {
    ((48 + d) as u8) as char
}

/// Shortest decimal numeral of a byte value.
pub open spec fn u8_dec_str(v: u8) -> Seq<char> {
    if v < 10 {
        seq![digit_char(v as int)]
    } else if v < 100 {
        seq![digit_char(v as int / 10), digit_char(v as int % 10)]
    } else {
        seq![
            digit_char(v as int / 100),
            digit_char((v as int / 10) % 10),
            digit_char(v as int % 10),
        ]
    }
}

/// Renders a byte value as its shortest decimal numeral.
pub fn u8_to_string(v: u8) -> (r: String)
    ensures
        r@ == u8_dec_str(v),
{
    let mut r = String::new();
    if v >= 100 {
        push_char(&mut r, (48 + v / 100) as char);
    }
    if v >= 10 {
        push_char(&mut r, (48 + (v / 10) % 10) as char);
    }
    push_char(&mut r, (48 + v % 10) as char);
    proof {
        assert(r@ =~= u8_dec_str(v));
    }
    r
}

proof fn lemma_dec_single(c: char)
    ensures
        dec_value(seq![c]) == digit_value(c),
{
    assert(seq![c].drop_last() =~= Seq::<char>::empty());
    assert(seq![c].last() == c);
    assert(dec_value(Seq::<char>::empty()) == 0);
}

/// A byte value's decimal numeral reads back as that byte value.
pub proof fn lemma_numeral_round_trip(v: u8)
    ensures
        parse_u8_spec(u8_dec_str(v)) == Some(v),
        numeral_class(u8_dec_str(v)) == NumeralClass::Value(v),
{
    let s = u8_dec_str(v);
    vstd::arithmetic::div_mod::lemma_fundamental_div_mod(v as int, 10);
    vstd::arithmetic::div_mod::lemma_fundamental_div_mod(v as int / 10, 10);
    if v < 10 {
        assert(s =~= numeral_digits(s));
        assert(s.drop_last() =~= Seq::<char>::empty());
        assert(s.last() == digit_char(v as int));
        assert(dec_value(Seq::<char>::empty()) == 0);
        assert(dec_value(s.drop_last()) == 0);
        assert(digit_value(digit_char(v as int)) == v as int);
        assert(dec_value(s) == digit_value(s.last()));
    } else if v < 100 {
        assert(s =~= numeral_digits(s));
        assert(s.drop_last() =~= seq![digit_char(v as int / 10)]);
        lemma_dec_single(digit_char(v as int / 10));
        assert(dec_value(s.drop_last()) == v as int / 10);
        assert(s.last() == digit_char(v as int % 10));
        assert(dec_value(s) == (v as int / 10) * 10 + (v as int % 10));
    } else {
        assert(s =~= numeral_digits(s));
        assert(s.drop_last() =~= seq![
            digit_char(v as int / 100),
            digit_char((v as int / 10) % 10),
        ]);
        assert(s.drop_last().drop_last() =~= seq![digit_char(v as int / 100)]);
        lemma_dec_single(digit_char(v as int / 100));
        assert(s.drop_last().last() == digit_char((v as int / 10) % 10));
        assert(s.last() == digit_char(v as int % 10));
        assert(v as int / 10 / 10 == v as int / 100) by {
            vstd::arithmetic::div_mod::lemma_div_denominator(v as int, 10, 10);
        }
        assert(dec_value(s.drop_last().drop_last()) == v as int / 100);
        assert(dec_value(s.drop_last()) == (v as int / 100) * 10 + (v as int / 10) % 10);
        assert(dec_value(s) == dec_value(s.drop_last()) * 10 + (v as int % 10));
    }
}

/// Trimming NUL characters from a value extended by NUL padding returns
/// the value, provided the value itself neither begins nor ends with NUL.
pub proof fn lemma_trim_nul_padding(s: Seq<char>, k: nat)
    requires
        s.len() > 0 ==> s[0] != '\u{0}',
        s.len() > 0 ==> s.last() != '\u{0}',
    ensures
        trim_spec(TrimKind::Nul, s + Seq::new(k, |i: int| '\u{0}')) == s,
{
    let padded = s + Seq::new(k, |i: int| '\u{0}');
    if s.len() == 0 {
        lemma_trim_front_range(TrimKind::Nul, padded, k as int);
        assert(trim_front(TrimKind::Nul, padded) =~= Seq::<char>::empty());
        assert(trim_spec(TrimKind::Nul, padded) =~= s);
    } else {
        lemma_trim_front_range(TrimKind::Nul, padded, 0);
        assert(trim_front(TrimKind::Nul, padded) =~= padded);
        lemma_trim_back_range(TrimKind::Nul, padded, s.len() as int);
        assert(padded.subrange(0, s.len() as int) =~= s);
    }
}

// ---------------------------------------------------------------------------
// ASCII case folding
// ---------------------------------------------------------------------------

/// ASCII upper-case image of a character.
pub open spec fn upper_char(c: char) -> char {
    if 97 <= c as u32 <= 122 {
        ((c as u32 - 32) as u8) as char
    } else {
        c
    }
}

/// The two strings are equal once both are ASCII-upper-cased.
pub open spec fn eq_ignore_case(a: Seq<char>, b: Seq<char>) -> bool {
    a.len() == b.len() && forall|i: int|
        0 <= i < a.len() ==> upper_char(#[trigger] a[i]) == upper_char(b[i])
}

/// Compares two strings ignoring ASCII case.
pub fn str_eq_ignore_case(a: &str, b: &str) -> (r: bool)
    ensures
        r == eq_ignore_case(a@, b@),
{
    let na = a.unicode_len();
    let nb = b.unicode_len();
    if na != nb {
        return false;
    }
    let mut i: usize = 0;
    while i < na
        invariant
            0 <= i <= na,
            na == a@.len(),
            na == b@.len(),
            forall|k: int| 0 <= k < i ==> upper_char(#[trigger] a@[k]) == upper_char(b@[k]),
        decreases na - i,
    {
        let ca = upper_char_exec(a.get_char(i));
        let cb = upper_char_exec(b.get_char(i));
        if ca != cb {
            return false;
        }
        i = i + 1;
    }
    true
}

/// Compares two strings character by character.
pub fn str_eq(a: &str, b: &str) -> (r: bool)
    ensures
        r == (a@ == b@),
{
    let na = a.unicode_len();
    let nb = b.unicode_len();
    if na != nb {
        return false;
    }
    let mut i: usize = 0;
    while i < na
        invariant
            0 <= i <= na,
            na == a@.len(),
            na == b@.len(),
            forall|k: int| 0 <= k < i ==> a@[k] == b@[k],
        decreases na - i,
    {
        if a.get_char(i) != b.get_char(i) {
            return false;
        }
        i = i + 1;
    }
    proof {
        assert(a@ =~= b@);
    }
    true
}

/// ASCII upper-case image of a character.
fn upper_char_exec(c: char) -> (r: char)
    ensures
        r == upper_char(c),
{
    let u = c as u32;
    if 97 <= u && u <= 122 {
        ((u - 32) as u8) as char
    } else {
        c
    }
}

// ---------------------------------------------------------------------------
// Trimming
// ---------------------------------------------------------------------------

/// Which characters a trim removes.
#[derive(Clone, Copy)]
pub enum TrimKind {
    /// NUL characters, as left by zero padding.
    Nul,
    /// ASCII whitespace.
    Whitespace,
}

/// Does a trim of `kind` remove `c`?
pub open spec fn trims_char(kind: TrimKind, c: char) -> bool {
    match kind {
        TrimKind::Nul => c == '\u{0}',
        TrimKind::Whitespace => c == ' ' || c == '\t' || c == '\n' || c == '\r' || c == '\u{c}',
    }
}

/// `s` without its longest prefix of characters that `kind` removes.
pub open spec fn trim_front(kind: TrimKind, s: Seq<char>) -> Seq<char>
    decreases s.len(),
{
    if s.len() > 0 && trims_char(kind, s[0]) {
        trim_front(kind, s.subrange(1, s.len() as int))
    } else {
        s
    }
}

/// `s` without its longest suffix of characters that `kind` removes.
pub open spec fn trim_back(kind: TrimKind, s: Seq<char>) -> Seq<char>
    decreases s.len(),
{
    if s.len() > 0 && trims_char(kind, s.last()) {
        trim_back(kind, s.drop_last())
    } else {
        s
    }
}

/// `s` with both ends trimmed of the characters that `kind` removes.
pub open spec fn trim_spec(kind: TrimKind, s: Seq<char>) -> Seq<char> {
    trim_back(kind, trim_front(kind, s))
}

proof fn lemma_trim_front_range(kind: TrimKind, s: Seq<char>, i: int)
    requires
        0 <= i <= s.len(),
        forall|k: int| 0 <= k < i ==> trims_char(kind, #[trigger] s[k]),
        i < s.len() ==> !trims_char(kind, s[i]),
    ensures
        trim_front(kind, s) == s.subrange(i, s.len() as int),
    decreases i,
{
    if i == 0 {
        if s.len() == 0 || !trims_char(kind, s[0]) {
            assert(trim_front(kind, s) == s);
            assert(s.subrange(0, s.len() as int) =~= s);
        }
    } else {
        let t = s.subrange(1, s.len() as int);
        lemma_trim_front_range(kind, t, i - 1);
        assert(t.subrange(i - 1, t.len() as int) =~= s.subrange(i, s.len() as int));
    }
}

proof fn lemma_trim_back_range(kind: TrimKind, s: Seq<char>, j: int)
    requires
        0 <= j <= s.len(),
        forall|k: int| j <= k < s.len() ==> trims_char(kind, #[trigger] s[k]),
        j > 0 ==> !trims_char(kind, s[j - 1]),
    ensures
        trim_back(kind, s) == s.subrange(0, j),
    decreases s.len() - j,
{
    if j == s.len() {
        if s.len() == 0 || !trims_char(kind, s.last()) {
            assert(s.subrange(0, s.len() as int) =~= s);
        } else {
            lemma_trim_back_range(kind, s.drop_last(), j - 1);
            assert(s.drop_last() =~= s.subrange(0, j - 1));
            assert(trim_back(kind, s) == trim_back(kind, s.drop_last()));
        }
    } else {
        lemma_trim_back_range(kind, s.drop_last(), j);
        assert(s.drop_last().subrange(0, j) =~= s.subrange(0, j));
    }
}

/// Removes from both ends of `s` the characters that `kind` removes.
pub fn trim(kind: TrimKind, s: &str) -> (r: String)
    ensures
        r@ == trim_spec(kind, s@),
{
    let n = s.unicode_len();
    let mut i: usize = 0;
    while i < n && trims_char_exec(kind, s.get_char(i))
        invariant
            0 <= i <= n,
            n == s@.len(),
            forall|k: int| 0 <= k < i ==> trims_char(kind, #[trigger] s@[k]),
        decreases n - i,
    {
        i = i + 1;
    }
    proof {
        lemma_trim_front_range(kind, s@, i as int);
    }
    if i == n {
        proof {
            assert(trim_front(kind, s@) =~= Seq::<char>::empty());
            assert(trim_spec(kind, s@) =~= Seq::<char>::empty());
        }
        return String::new();
    }
    let mut j: usize = n;
    while j > i && trims_char_exec(kind, s.get_char(j - 1))
        invariant
            i <= j <= n,
            n == s@.len(),
            i < n,
            !trims_char(kind, s@[i as int]),
            forall|k: int| j <= k < n ==> trims_char(kind, #[trigger] s@[k]),
        decreases j,
    {
        j = j - 1;
    }
    proof {
        let front = trim_front(kind, s@);
        assert(front == s@.subrange(i as int, n as int));
        lemma_trim_back_range(kind, front, j - i);
        assert(front.subrange(0, j - i) =~= s@.subrange(i as int, j as int));
    }
    let piece = s.substring_char(i, j);
    String::from_str(piece)
}

/// Does a trim of `kind` remove `c`?
fn trims_char_exec(kind: TrimKind, c: char) -> (r: bool)
    ensures
        r == trims_char(kind, c),
{
    match kind {
        TrimKind::Nul => c == '\u{0}',
        TrimKind::Whitespace => c == ' ' || c == '\t' || c == '\n' || c == '\r' || c == '\u{c}',
    }
}

// ---------------------------------------------------------------------------
// Trusted bridges to std
// ---------------------------------------------------------------------------

/// Relies on `String::push`: appends the given character to the string.
#[verifier::external_body]
pub(crate) fn push_char(s: &mut String, c: char)
    ensures
        final(s)@ == old(s)@.push(c),
{
    s.push(c);
}

/// Relies on `String::from_utf8`: succeeds exactly on valid UTF-8 input and
/// returns the string that those bytes encode.
#[verifier::external_body]
pub(crate) fn string_from_utf8(bytes: Vec<u8>) -> (r: Option<String>)
    ensures
        r is Some <==> vstd::utf8::valid_utf8(bytes@),
        r is Some ==> vstd::utf8::encode_utf8(r->Some_0@) == bytes@,
        r is Some ==> r->Some_0@ == vstd::utf8::decode_utf8(bytes@),
{
    String::from_utf8(bytes).ok()
}

} // verus!
