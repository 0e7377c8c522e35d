use vstd::prelude::*;
use crate::token::{Keyword, Literal, LiteralView};

verus! {

/// `c` equals the lower-case letter or symbol `lower`, ignoring ASCII case.
pub open spec fn ci_char_eq(c: char, lower: char) -> bool {
    c == lower || (97 <= lower as u32 <= 122 && c as u32 + 32 == lower as u32)
}

/// `w` spells `lower` (given in lower case), ignoring ASCII case.
pub open spec fn ci_eq(w: Seq<char>, lower: Seq<char>) -> bool {
    w.len() == lower.len() && forall|i: int| 0 <= i < w.len() ==> ci_char_eq(#[trigger] w[i], lower[i])
}

/// The spelling of each keyword, in lower case.
pub open spec fn keyword_text(k: Keyword) -> Seq<char> {
    match k {
        Keyword::Module => seq!['m', 'o', 'd', 'u', 'l', 'e'],
        Keyword::Import => seq!['i', 'm', 'p', 'o', 'r', 't'],
        Keyword::Fn => seq!['f', 'n'],
        Keyword::Struct => seq!['s', 't', 'r', 'u', 'c', 't'],
        Keyword::Enum => seq!['e', 'n', 'u', 'm'],
        Keyword::If => seq!['i', 'f'],
        Keyword::Else => seq!['e', 'l', 's', 'e'],
        Keyword::Return => seq!['r', 'e', 't', 'u', 'r', 'n'],
        Keyword::Null => seq!['n', 'u', 'l', 'l'],
        Keyword::Void => seq!['v', 'o', 'i', 'd'],
        Keyword::Mut => seq!['m', 'u', 't'],
    }
}

/// The keyword that `w` spells without regard to ASCII case, if any.
pub open spec fn keyword_of(w: Seq<char>) -> Option<Keyword> {
    if ci_eq(w, keyword_text(Keyword::Module)) {
        Some(Keyword::Module)
    } else if ci_eq(w, keyword_text(Keyword::Import)) {
        Some(Keyword::Import)
    } else if ci_eq(w, keyword_text(Keyword::Fn)) {
        Some(Keyword::Fn)
    } else if ci_eq(w, keyword_text(Keyword::Struct)) {
        Some(Keyword::Struct)
    } else if ci_eq(w, keyword_text(Keyword::Enum)) {
        Some(Keyword::Enum)
    } else if ci_eq(w, keyword_text(Keyword::If)) {
        Some(Keyword::If)
    } else if ci_eq(w, keyword_text(Keyword::Else)) {
        Some(Keyword::Else)
    } else if ci_eq(w, keyword_text(Keyword::Return)) {
        Some(Keyword::Return)
    } else if ci_eq(w, keyword_text(Keyword::Null)) {
        Some(Keyword::Null)
    } else if ci_eq(w, keyword_text(Keyword::Void)) {
        Some(Keyword::Void)
    } else if ci_eq(w, keyword_text(Keyword::Mut)) {
        Some(Keyword::Mut)
    } else {
        None
    }
}

pub open spec fn is_decimal_digit(c: char) -> bool {
    48 <= c as u32 <= 57
}

/// The value of `c` as a digit in bases up to 36; 36 when it is no digit.
pub open spec fn digit_value(c: char) -> int {
    let u = c as u32;
    if 48 <= u <= 57 {
        u - 48
    } else if 97 <= u <= 122 {
        u - 97 + 10
    } else if 65 <= u <= 90 {
        u - 65 + 10
    } else {
        36
    }
}

/// The number that the digits `d` denote in base `radix`.
pub open spec fn digits_value(d: Seq<char>, radix: int) -> int
    decreases d.len(),
{
    if d.len() == 0 {
        0
    } else {
        digits_value(d.drop_last(), radix) * radix + digit_value(d.last())
    }
}

/// `s` with one leading `+` removed.
pub open spec fn without_plus(s: Seq<char>) -> Seq<char> {
    if s.len() > 0 && s[0] == '+' {
        s.skip(1)
    } else {
        s
    }
}

/// `s` with one leading `+` or `-` removed.
pub open spec fn without_sign(s: Seq<char>) -> Seq<char> {
    if s.len() > 0 && (s[0] == '+' || s[0] == '-') {
        s.skip(1)
    } else {
        s
    }
}

/// `s` is an unsigned 64-bit number written in base `radix`: an optional `+`,
/// then at least one digit of that base, with a value that fits in 64 bits.
pub open spec fn radix_text(s: Seq<char>, radix: int) -> bool {
    let d = without_plus(s);
    &&& d.len() > 0
    &&& forall|i: int| 0 <= i < d.len() ==> digit_value(#[trigger] d[i]) < radix
    &&& digits_value(d, radix) <= u64::MAX
}

pub open spec fn is_exponent_mark(c: char) -> bool {
    c == 'e' || c == 'E'
}

/// The index of the first exponent mark in `t` at or after `i`, or `t.len()`.
pub open spec fn exponent_index(t: Seq<char>, i: int) -> int
    decreases t.len() - i,
{
    if i >= t.len() {
        t.len() as int
    } else if is_exponent_mark(t[i]) {
        i
    } else {
        exponent_index(t, i + 1)
    }
}

/// Digits with at most one decimal point, and at least one digit.
pub open spec fn mantissa_text(m: Seq<char>) -> bool {
    &&& forall|i: int| 0 <= i < m.len() ==> is_decimal_digit(#[trigger] m[i]) || m[i] == '.'
    &&& forall|i: int, j: int| 0 <= i < j < m.len() && #[trigger] m[i] == '.' ==> #[trigger] m[j] != '.'
    &&& exists|i: int| 0 <= i < m.len() && is_decimal_digit(#[trigger] m[i])
}

/// An optional sign followed by at least one decimal digit.
pub open spec fn exponent_text(x: Seq<char>) -> bool {
    let y = without_sign(x);
    y.len() > 0 && forall|i: int| 0 <= i < y.len() ==> is_decimal_digit(#[trigger] y[i])
}

/// A decimal number: a mantissa and an optional exponent after `e` or `E`.
pub open spec fn number_text(t: Seq<char>) -> bool {
    let k = exponent_index(t, 0);
    mantissa_text(t.take(k)) && (k == t.len() || exponent_text(t.skip(k + 1)))
}

/// `w` is accepted as a decimal floating-point number: an optional sign, then
/// `inf`, `infinity` or `nan` in any ASCII case, or a decimal number.
pub open spec fn decimal_text(w: Seq<char>) -> bool {
    let t = without_sign(w);
    ||| ci_eq(t, seq!['i', 'n', 'f'])
    ||| ci_eq(t, seq!['i', 'n', 'f', 'i', 'n', 'i', 't', 'y'])
    ||| ci_eq(t, seq!['n', 'a', 'n'])
    ||| number_text(t)
}

pub open spec fn starts_with_pair(w: Seq<char>, a: char, b: char) -> bool {
    w.len() >= 2 && w[0] == a && w[1] == b
}

/// The literal that the word `w` denotes, if any: `true` and `false`; a number
/// with a `0x`, `0b` or `0o` prefix whose rest is an unsigned 64-bit number in
/// that base; or a decimal number. Numbers keep their text.
pub open spec fn literal_of(w: Seq<char>) -> Option<LiteralView> {
    if w == seq!['t', 'r', 'u', 'e'] {
        Some(LiteralView::Boolean(true))
    } else if w == seq!['f', 'a', 'l', 's', 'e'] {
        Some(LiteralView::Boolean(false))
    } else if starts_with_pair(w, '0', 'x') {
        if radix_text(w.skip(2), 16) {
            Some(LiteralView::Number(w))
        } else {
            None
        }
    } else if starts_with_pair(w, '0', 'b') {
        if radix_text(w.skip(2), 2) {
            Some(LiteralView::Number(w))
        } else {
            None
        }
    } else if starts_with_pair(w, '0', 'o') {
        if radix_text(w.skip(2), 8) {
            Some(LiteralView::Number(w))
        } else {
            None
        }
    } else if decimal_text(w) {
        Some(LiteralView::Number(w))
    } else {
        None
    }
}

/// Whether `w[start..]` spells `lower`, ignoring ASCII case.
fn ci_equals_at(w: &Vec<char>, start: usize, lower: &Vec<char>) -> (r: bool)
    requires
        start <= w.len(),
    ensures
        r == ci_eq(w@.skip(start as int), lower@),
{
    if w.len() - start != lower.len() {
        return false;
    }
    let mut i: usize = 0;
    while i < lower.len()
        invariant
            start <= w.len(),
            w.len() - start == lower.len(),
            0 <= i <= lower.len(),
            forall|j: int| 0 <= j < i ==> ci_char_eq(#[trigger] w@.skip(start as int)[j], lower@[j]),
        decreases lower.len() - i,
    {
        let c = w[start + i];
        let l = lower[i];
        let same = c == l || (97 <= l as u32 && l as u32 <= 122 && c as u32 == l as u32 - 32);
        if !same {
            assert(!ci_char_eq(w@.skip(start as int)[i as int], lower@[i as int]));
            return false;
        }
        i += 1;
    }
    true
}

fn char_vec_eq(w: &Vec<char>, v: &Vec<char>) -> (r: bool)
    ensures
        r == (w@ == v@),
{
    if w.len() != v.len() {
        return false;
    }
    let mut i: usize = 0;
    while i < w.len()
        invariant
            w.len() == v.len(),
            0 <= i <= w.len(),
            forall|j: int| 0 <= j < i ==> w@[j] == v@[j],
        decreases w.len() - i,
    {
        if w[i] != v[i] {
            return false;
        }
        i += 1;
    }
    assert(w@ =~= v@);
    true
}

fn digit_of(c: char) -> (r: u64)
    ensures
        r as int == digit_value(c),
{
    let u = c as u32;
    if 48 <= u && u <= 57 {
        (u - 48) as u64
    } else if 97 <= u && u <= 122 {
        (u - 97 + 10) as u64
    } else if 65 <= u && u <= 90 {
        (u - 65 + 10) as u64
    } else {
        36
    }
}

proof fn lemma_digits_value_grows(d: Seq<char>, radix: int, j: int, k: int)
    requires
        radix >= 1,
        0 <= j <= k <= d.len(),
        forall|i: int| 0 <= i < d.len() ==> digit_value(#[trigger] d[i]) < radix,
    ensures
        digits_value(d.take(j), radix) <= digits_value(d.take(k), radix),
    decreases k - j,
{
    if j < k {
        lemma_digits_value_grows(d, radix, j, k - 1);
        let p = d.take(k);
        assert(p.drop_last() =~= d.take(k - 1));
        assert(p.last() == d[k - 1]);
        reveal_with_fuel(digits_value, 2);
        let v = digits_value(d.take(k - 1), radix);
        assert(v >= 0) by {
            lemma_digits_value_nonneg(d.take(k - 1), radix);
        }
        assert(v * radix >= v) by (nonlinear_arith)
            requires
                v >= 0,
                radix >= 1,
        ;
        assert(digit_value(d[k - 1]) >= 0);
    }
}

proof fn lemma_digits_value_nonneg(d: Seq<char>, radix: int)
    requires
        radix >= 1,
    ensures
        digits_value(d, radix) >= 0,
    decreases d.len(),
{
    if d.len() > 0 {
        lemma_digits_value_nonneg(d.drop_last(), radix);
        let v = digits_value(d.drop_last(), radix);
        assert(v * radix >= 0) by (nonlinear_arith)
            requires
                v >= 0,
                radix >= 1,
        ;
    }
}

/// Whether `w[start..]` is an unsigned 64-bit number in base `radix`.
fn radix_text_at(w: &Vec<char>, start: usize, radix: u64) -> (r: bool)
    requires
        start <= w.len(),
        2 <= radix <= 36,
    ensures
        r == radix_text(w@.skip(start as int), radix as int),
{
    let ghost s = w@.skip(start as int);
    let mut first = start;
    if first < w.len() && w[first] == '+' {
        first = first + 1;
    }
    let ghost d = without_plus(s);
    assert(d =~= w@.skip(first as int));
    if first == w.len() {
        assert(d.len() == 0);
        return false;
    }
    let mut acc: u64 = 0;
    let mut i: usize = first;
    while i < w.len()
        invariant
            first <= i <= w.len(),
            first < w.len(),
            2 <= radix <= 36,
            d =~= w@.skip(first as int),
            d == without_plus(w@.skip(start as int)),
            start <= w.len(),
            forall|j: int| 0 <= j < i - first ==> digit_value(#[trigger] d[j]) < radix,
            acc as int == digits_value(d.take(i - first), radix as int),
        decreases w.len() - i,
    {
        let v = digit_of(w[i]);
        let ghost n = (i - first) as int;
        if v >= radix {
            assert(d[n] == w@[i as int]);
            assert(digit_value(d[n]) >= radix);
            return false;
        }
        proof {
            let p = d.take(n + 1);
            assert(p.drop_last() =~= d.take(n));
            assert(p.last() == d[n]);
        }
        match acc.checked_mul(radix) {
            None => {
                proof {
                    lemma_radix_overflow(d, radix as int, n + 1);
                }
                return false;
            },
            Some(m) => match m.checked_add(v) {
                None => {
                    proof {
                        lemma_radix_overflow(d, radix as int, n + 1);
                    }
                    return false;
                },
                Some(a) => {
                    acc = a;
                },
            },
        }
        i += 1;
    }
    assert(d.take(d.len() as int) =~= d);
    true
}

proof fn lemma_radix_overflow(d: Seq<char>, radix: int, k: int)
    requires
        radix >= 2,
        0 < k <= d.len(),
        digits_value(d.take(k), radix) > u64::MAX,
    ensures
        !((forall|i: int| 0 <= i < d.len() ==> digit_value(#[trigger] d[i]) < radix) && digits_value(d, radix) <= u64::MAX),
{
    if forall|i: int| 0 <= i < d.len() ==> digit_value(#[trigger] d[i]) < radix {
        lemma_digits_value_grows(d, radix, k, d.len() as int);
        assert(d.take(d.len() as int) =~= d);
    }
}

/// Whether `w[start..end]` is a mantissa: digits with at most one point and at least one digit.
fn mantissa_text_at(w: &Vec<char>, start: usize, end: usize) -> (r: bool)
    requires
        start <= end <= w.len(),
    ensures
        r == mantissa_text(w@.subrange(start as int, end as int)),
{
    let ghost m = w@.subrange(start as int, end as int);
    let mut seen_point = false;
    let mut seen_digit = false;
    let mut i: usize = start;
    while i < end
        invariant
            start <= i <= end <= w.len(),
            m == w@.subrange(start as int, end as int),
            forall|j: int| 0 <= j < i - start ==> is_decimal_digit(#[trigger] m[j]) || m[j] == '.',
            forall|a: int, b: int| 0 <= a < b < i - start && #[trigger] m[a] == '.' ==> #[trigger] m[b] != '.',
            seen_point == (exists|j: int| 0 <= j < i - start && #[trigger] m[j] == '.'),
            seen_digit == (exists|j: int| 0 <= j < i - start && is_decimal_digit(#[trigger] m[j])),
        decreases end - i,
    {
        let c = w[i];
        let ghost n = (i - start) as int;
        assert(m[n] == c);
        if c == '.' {
            if seen_point {
                let ghost a = choose|j: int| 0 <= j < n && #[trigger] m[j] == '.';
                assert(m[a] == '.' && m[n] == '.');
                return false;
            }
            seen_point = true;
        } else if 48 <= c as u32 && c as u32 <= 57 {
            seen_digit = true;
        } else {
            assert(!(is_decimal_digit(m[n]) || m[n] == '.'));
            return false;
        }
        i += 1;
    }
    seen_digit
}

/// Whether `w[start..]` is an exponent: an optional sign and at least one digit.
fn exponent_text_at(w: &Vec<char>, start: usize) -> (r: bool)
    requires
        start <= w.len(),
    ensures
        r == exponent_text(w@.skip(start as int)),
{
    let ghost x = w@.skip(start as int);
    let mut first = start;
    if first < w.len() && (w[first] == '+' || w[first] == '-') {
        first = first + 1;
    }
    let ghost y = without_sign(x);
    assert(y =~= w@.skip(first as int));
    if first == w.len() {
        return false;
    }
    let mut i: usize = first;
    while i < w.len()
        invariant
            first <= i <= w.len(),
            y =~= w@.skip(first as int),
            y == without_sign(w@.skip(start as int)),
            start <= w.len(),
            forall|j: int| 0 <= j < i - first ==> is_decimal_digit(#[trigger] y[j]),
        decreases w.len() - i,
    {
        let u = w[i] as u32;
        if !(48 <= u && u <= 57) {
            assert(y[i - first] == w@[i as int]);
            assert(!is_decimal_digit(y[i - first]));
            return false;
        }
        i += 1;
    }
    true
}

proof fn lemma_exponent_index_skip(t: Seq<char>, i: int)
    requires
        0 <= i,
        forall|j: int| 0 <= j < i && j < t.len() ==> !is_exponent_mark(#[trigger] t[j]),
    ensures
        exponent_index(t, 0) == exponent_index(t, i),
    decreases i,
{
    if i > 0 {
        lemma_exponent_index_skip(t, i - 1);
    }
}

/// Whether the word is a decimal floating-point number.
fn decimal_text_at(w: &Vec<char>) -> (r: bool)
    ensures
        r == decimal_text(w@),
{
    let mut start: usize = 0;
    if w.len() > 0 && (w[0] == '+' || w[0] == '-') {
        start = 1;
    }
    let ghost t = without_sign(w@);
    assert(t =~= w@.skip(start as int));
    if ci_equals_at(w, start, &vec!['i', 'n', 'f'])
        || ci_equals_at(w, start, &vec!['i', 'n', 'f', 'i', 'n', 'i', 't', 'y'])
        || ci_equals_at(w, start, &vec!['n', 'a', 'n']) {
        return true;
    }
    let mut k: usize = start;
    while k < w.len() && w[k] != 'e' && w[k] != 'E'
        invariant
            start <= k <= w.len(),
            t =~= w@.skip(start as int),
            forall|j: int| 0 <= j < k - start ==> !is_exponent_mark(#[trigger] t[j]),
        decreases w.len() - k,
    {
        k += 1;
    }
    proof {
        lemma_exponent_index_skip(t, (k - start) as int);
        assert(exponent_index(t, (k - start) as int) == (k - start) as int);
        assert(t.take((k - start) as int) =~= w@.subrange(start as int, k as int));
        if k < w.len() {
            assert(t.skip((k - start) as int + 1) =~= w@.skip(k as int + 1));
        }
    }
    if !mantissa_text_at(w, start, k) {
        return false;
    }
    k == w.len() || exponent_text_at(w, k + 1)
}

impl Keyword {
    /// The spelling of the keyword, in lower case.
    pub fn spelling(self) -> (r: Vec<char>)
        ensures
            r@ == keyword_text(self),
    {
        let r = match self {
            Keyword::Module => vec!['m', 'o', 'd', 'u', 'l', 'e'],
            Keyword::Import => vec!['i', 'm', 'p', 'o', 'r', 't'],
            Keyword::Fn => vec!['f', 'n'],
            Keyword::Struct => vec!['s', 't', 'r', 'u', 'c', 't'],
            Keyword::Enum => vec!['e', 'n', 'u', 'm'],
            Keyword::If => vec!['i', 'f'],
            Keyword::Else => vec!['e', 'l', 's', 'e'],
            Keyword::Return => vec!['r', 'e', 't', 'u', 'r', 'n'],
            Keyword::Null => vec!['n', 'u', 'l', 'l'],
            Keyword::Void => vec!['v', 'o', 'i', 'd'],
            Keyword::Mut => vec!['m', 'u', 't'],
        };
        assert(r@ =~= keyword_text(self));
        r
    }

    /// The keyword that `word` spells without regard to ASCII case, if any.
    pub fn from_word(word: &Vec<char>) -> (r: Option<Keyword>)
        ensures
            r == keyword_of(word@),
    {
        proof {
            assert(word@.skip(0) =~= word@);
        }
        if ci_equals_at(word, 0, &Keyword::Module.spelling()) {
            Some(Keyword::Module)
        } else if ci_equals_at(word, 0, &Keyword::Import.spelling()) {
            Some(Keyword::Import)
        } else if ci_equals_at(word, 0, &Keyword::Fn.spelling()) {
            Some(Keyword::Fn)
        } else if ci_equals_at(word, 0, &Keyword::Struct.spelling()) {
            Some(Keyword::Struct)
        } else if ci_equals_at(word, 0, &Keyword::Enum.spelling()) {
            Some(Keyword::Enum)
        } else if ci_equals_at(word, 0, &Keyword::If.spelling()) {
            Some(Keyword::If)
        } else if ci_equals_at(word, 0, &Keyword::Else.spelling()) {
            Some(Keyword::Else)
        } else if ci_equals_at(word, 0, &Keyword::Return.spelling()) {
            Some(Keyword::Return)
        } else if ci_equals_at(word, 0, &Keyword::Null.spelling()) {
            Some(Keyword::Null)
        } else if ci_equals_at(word, 0, &Keyword::Void.spelling()) {
            Some(Keyword::Void)
        } else if ci_equals_at(word, 0, &Keyword::Mut.spelling()) {
            Some(Keyword::Mut)
        } else {
            None
        }
    }
}

impl Literal {
    /// The literal that `word` denotes, if any.
    pub fn from_word(word: &Vec<char>) -> (r: Option<Literal>)
        ensures
            match r {
                Some(l) => literal_of(word@) == Some(l@),
                None => literal_of(word@) is None,
            },
    {
        proof {
            assert(word@.skip(0) =~= word@);
        }
        if char_vec_eq(word, &vec!['t', 'r', 'u', 'e']) {
            Some(Literal::Boolean(true))
        } else if char_vec_eq(word, &vec!['f', 'a', 'l', 's', 'e']) {
            Some(Literal::Boolean(false))
        } else if word.len() >= 2 && word[0] == '0' && (word[1] == 'x' || word[1] == 'b'
            || word[1] == 'o') {
            let radix: u64 = if word[1] == 'x' {
                16
            } else if word[1] == 'b' {
                2
            } else {
                8
            };
            if radix_text_at(word, 2, radix) {
                Some(Literal::Number(string_of(word)))
            } else {
                None
            }
        } else if decimal_text_at(word) {
            Some(Literal::Number(string_of(word)))
        } else {
            None
        }
    }
}

/// Relies on `String`'s `FromIterator<char>`: the string holds the characters in order.
#[verifier::external_body]
pub(crate) fn string_of(chars: &Vec<char>) -> (r: String)
    ensures
        r@ == chars@,
{
    chars.iter().collect()
}

} // verus!
