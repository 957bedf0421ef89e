//! Character-level text handling: white space, trimming, decimal numbers,
//! and the searches and rewrites that the record handling relies on.
use vstd::prelude::*;

verus! {

// ---------------------------------------------------------------------
// White space and trimming
// ---------------------------------------------------------------------
/// Characters with the Unicode `White_Space` property, the set that
/// `char::is_whitespace` and `str::trim` go by.
pub open spec fn is_white_space(c: char) -> bool {
    ('\u{9}' <= c && c <= '\u{d}') || c == ' ' || c == '\u{85}' || c == '\u{a0}' || c
        == '\u{1680}' || ('\u{2000}' <= c && c <= '\u{200a}') || c == '\u{2028}' || c
        == '\u{2029}' || c == '\u{202f}' || c == '\u{205f}' || c == '\u{3000}'
}

/// Whether `c` is white space (the `White_Space` property).
pub fn char_is_white_space(c: char) -> (r: bool)
    ensures
        r == is_white_space(c),
{
    ('\u{9}' <= c && c <= '\u{d}') || c == ' ' || c == '\u{85}' || c == '\u{a0}' || c
        == '\u{1680}' || ('\u{2000}' <= c && c <= '\u{200a}') || c == '\u{2028}' || c
        == '\u{2029}' || c == '\u{202f}' || c == '\u{205f}' || c == '\u{3000}'
}

/// `s` without its leading white space.
pub open spec fn trim_start(s: Seq<char>) -> Seq<char>
    decreases s.len(),
{
    if s.len() > 0 && is_white_space(s[0]) {
        trim_start(s.drop_first())
    } else {
        s
    }
}

/// `s` without its trailing white space.
pub open spec fn trim_end(s: Seq<char>) -> Seq<char>
    decreases s.len(),
{
    if s.len() > 0 && is_white_space(s.last()) {
        trim_end(s.drop_last())
    } else {
        s
    }
}

/// `s` without leading and trailing white space, as `str::trim` gives it.
pub open spec fn trim(s: Seq<char>) -> Seq<char> {
    trim_end(trim_start(s))
}

/// `trim_start` drops a prefix, and what is left starts with no white space.
pub proof fn lemma_trim_start(s: Seq<char>) -> (k: int)
    ensures
        0 <= k <= s.len(),
        trim_start(s) == s.skip(k),
        trim_start(s).len() > 0 ==> !is_white_space(trim_start(s)[0]),
        forall|j: int| 0 <= j < k ==> is_white_space(#[trigger] s[j]),
    decreases s.len(),
{
    if s.len() > 0 && is_white_space(s[0]) {
        let k = lemma_trim_start(s.drop_first());
        assert(s.drop_first().skip(k) =~= s.skip(k + 1));
        assert forall|j: int| 0 <= j < k + 1 implies is_white_space(#[trigger] s[j]) by {
            if j > 0 {
                assert(s[j] == s.drop_first()[j - 1]);
            }
        }
        k + 1
    } else {
        assert(s.skip(0) =~= s);
        0
    }
}

/// `trim_end` drops a suffix, and what is left ends with no white space.
pub proof fn lemma_trim_end(s: Seq<char>) -> (k: int)
    ensures
        0 <= k <= s.len(),
        trim_end(s) == s.take(k),
        trim_end(s).len() > 0 ==> !is_white_space(trim_end(s).last()),
        forall|j: int| k <= j < s.len() ==> is_white_space(#[trigger] s[j]),
    decreases s.len(),
{
    if s.len() > 0 && is_white_space(s.last()) {
        let k = lemma_trim_end(s.drop_last());
        assert(s.drop_last().take(k) =~= s.take(k));
        assert forall|j: int| k <= j < s.len() implies is_white_space(#[trigger] s[j]) by {
            if j < s.len() - 1 {
                assert(s[j] == s.drop_last()[j]);
            }
        }
        k
    } else {
        assert(s.take(s.len() as int) =~= s);
        s.len() as int
    }
}

/// `trim(s)` is a stretch of `s` that neither starts nor ends with white
/// space, and all that it leaves out of `s`, before and after, is white
/// space.
pub proof fn lemma_trim(s: Seq<char>) -> (r: (int, int))
    ensures
        0 <= r.0 <= r.1 <= s.len(),
        trim(s) == s.subrange(r.0, r.1),
        trim(s).len() > 0 ==> !is_white_space(trim(s)[0]) && !is_white_space(trim(s).last()),
        forall|j: int| 0 <= j < r.0 ==> is_white_space(#[trigger] s[j]),
        forall|j: int| r.1 <= j < s.len() ==> is_white_space(#[trigger] s[j]),
{
    let a = lemma_trim_start(s);
    let t = trim_start(s);
    let b = lemma_trim_end(t);
    assert forall|j: int| a + b <= j < s.len() implies is_white_space(#[trigger] s[j]) by {
        assert(s[j] == t[j - a]);
    }
    assert(t.take(b) =~= s.subrange(a, a + b));
    if trim(s).len() > 0 {
        assert(trim(s)[0] == t[0]);
    }
    (a, a + b)
}

/// A text that neither starts nor ends with white space is its own trim.
pub proof fn lemma_trim_unchanged(s: Seq<char>)
    requires
        s.len() > 0 ==> !is_white_space(s[0]) && !is_white_space(s.last()),
    ensures
        trim(s) == s,
{
}

/// Returns `s` with leading and trailing white space removed.
pub fn trim_str(s: &str) -> (r: &str)
    ensures
        r@ == trim(s@),
{
    let n = s.unicode_len();
    let mut a: usize = 0;
    assert(s@.skip(0) =~= s@);
    while a < n && char_is_white_space(s.get_char(a))
        invariant
            a <= n,
            n == s@.len(),
            trim_start(s@) == trim_start(s@.skip(a as int)),
        decreases n - a,
    {
        assert(s@.skip(a as int).drop_first() =~= s@.skip(a + 1));
        a = a + 1;
    }
    assert(trim_start(s@) == s@.skip(a as int));
    let mut b: usize = n;
    while b > a && char_is_white_space(s.get_char(b - 1))
        invariant
            a <= b <= n,
            n == s@.len(),
            trim(s@) == trim_end(s@.subrange(a as int, b as int)),
        decreases b - a,
    {
        assert(s@.subrange(a as int, b as int).drop_last() =~= s@.subrange(a as int, b - 1));
        b = b - 1;
    }
    s.substring_char(a, b)
}

// ---------------------------------------------------------------------
// Numeric characters
// ---------------------------------------------------------------------
/// What `char::is_numeric` of the standard library gives for `c`: whether
/// `c` has one of the Unicode general categories for numbers.
pub uninterp spec fn is_numeric_char(c: char) -> bool;

/// A character that `char::is_numeric` accepts.  Among the ASCII
/// characters these are the digits (general category `Nd`); beyond ASCII it
/// is the named value.
pub open spec fn is_numeric(c: char) -> bool {
    if c <= '\x7f' {
        is_ascii_digit(c)
    } else {
        is_numeric_char(c)
    }
}

/// Calls `char::is_numeric`.  Trusted: the result is the value named
/// `is_numeric_char(c)`, and on an ASCII character it is `true` exactly on
/// the digits: of the ASCII characters only the digits have a general
/// category for numbers (`Nd`), the categories that the documentation
/// lists.  Nothing more is stated of the Unicode tables beyond ASCII.
#[verifier::external_body]
pub(crate) fn char_is_numeric(c: char) -> (r: bool)
    ensures
        r == is_numeric_char(c),
        c <= '\x7f' ==> (r == is_ascii_digit(c)),
{
    c.is_numeric()
}

// ---------------------------------------------------------------------
// Searching
// ---------------------------------------------------------------------
/// The index of the first character of `s` that satisfies `p`.
pub open spec fn find_first(s: Seq<char>, p: spec_fn(char) -> bool) -> Option<int>
    decreases s.len(),
{
    if s.len() == 0 {
        None
    } else if p(s[0]) {
        Some(0)
    } else {
        match find_first(s.drop_first(), p) {
            Some(k) => Some(k + 1),
            None => None,
        }
    }
}

/// What `find_first` returns, described by the positions it looks at.
pub proof fn lemma_find_first(s: Seq<char>, p: spec_fn(char) -> bool)
    ensures
        find_first(s, p) matches Some(i) ==> {
            &&& 0 <= i < s.len()
            &&& p(s[i])
            &&& forall|j: int| 0 <= j < i ==> !p(#[trigger] s[j])
        },
        find_first(s, p) is None ==> forall|j: int| 0 <= j < s.len() ==> !p(#[trigger] s[j]),
    decreases s.len(),
{
    if s.len() > 0 && !p(s[0]) {
        lemma_find_first(s.drop_first(), p);
        assert forall|j: int| 0 < j < s.len() implies s[j] == s.drop_first()[j - 1] by {}
    }
}

/// An index whose character satisfies `p`, with none before it, is the
/// one `find_first` finds.
pub proof fn lemma_find_first_at(s: Seq<char>, p: spec_fn(char) -> bool, i: int)
    requires
        0 <= i < s.len(),
        p(s[i]),
        forall|j: int| 0 <= j < i ==> !p(#[trigger] s[j]),
    ensures
        find_first(s, p) == Some(i),
    decreases s.len(),
{
    if i > 0 {
        assert(!p(s[0]));
        assert forall|j: int| 0 <= j < i - 1 implies !p(#[trigger] s.drop_first()[j]) by {
            assert(s.drop_first()[j] == s[j + 1]);
        }
        lemma_find_first_at(s.drop_first(), p, i - 1);
    }
}

/// Where no character satisfies `p`, `find_first` finds nothing.
pub proof fn lemma_find_first_none(s: Seq<char>, p: spec_fn(char) -> bool)
    requires
        forall|j: int| 0 <= j < s.len() ==> !p(#[trigger] s[j]),
    ensures
        find_first(s, p) is None,
    decreases s.len(),
{
    if s.len() > 0 {
        assert(!p(s[0]));
        assert forall|j: int| 0 <= j < s.len() - 1 implies !p(#[trigger] s.drop_first()[j]) by {
            assert(s.drop_first()[j] == s[j + 1]);
        }
        lemma_find_first_none(s.drop_first(), p);
    }
}

// ---------------------------------------------------------------------
// Decimal numbers
// ---------------------------------------------------------------------
/// An ASCII decimal digit.
pub open spec fn is_ascii_digit(c: char) -> bool {
    '0' <= c && c <= '9'
}

/// The value of a decimal digit.
pub open spec fn digit_value(c: char) -> nat {
    (c as int - '0' as int) as nat
}

/// The digit that stands for `d`, for `d < 10`.
pub open spec fn digit_char(d: nat) -> char {
    ('0' as nat + d) as char
}

/// All characters of `s` are ASCII digits.
pub open spec fn all_ascii_digits(s: Seq<char>) -> bool {
    forall|i: int| 0 <= i < s.len() ==> is_ascii_digit(#[trigger] s[i])
}

/// The number that the digits of `s` spell, most significant first.
pub open spec fn digits_value(s: Seq<char>) -> nat
    decreases s.len(),
{
    if s.len() == 0 {
        0
    } else {
        digits_value(s.drop_last()) * 10 + digit_value(s.last())
    }
}

/// The digits of an unsigned number as `str::parse` reads them: one
/// optional leading `+` is dropped.
pub open spec fn unsigned_digits(s: Seq<char>) -> Seq<char> {
    if s.len() > 0 && s[0] == '+' {
        s.drop_first()
    } else {
        s
    }
}

/// What `str::parse::<u32>` gives: an optional `+`, then one or more ASCII
/// digits whose value fits in a `u32`; anything else is an error.
pub open spec fn parse_u32(s: Seq<char>) -> Option<u32> {
    let d = unsigned_digits(s);
    if d.len() > 0 && all_ascii_digits(d) && digits_value(d) <= u32::MAX {
        Some(digits_value(d) as u32)
    } else {
        None
    }
}

/// The decimal representation of `n`, with no leading zero.
pub open spec fn decimal(n: nat) -> Seq<char>
    decreases n,
{
    if n < 10 {
        seq![digit_char(n)]
    } else {
        decimal(n / 10).push(digit_char(n % 10))
    }
}

/// The decimal representation of `n` padded with zeros to two digits at
/// least, as the format `{:02}` writes it.
pub open spec fn decimal_width2(n: nat) -> Seq<char> {
    if n < 10 {
        seq!['0', digit_char(n)]
    } else {
        decimal(n)
    }
}

/// A prefix of a digit string never spells a larger number than the whole.
pub proof fn lemma_digits_value_prefix(s: Seq<char>, k: int)
    requires
        all_ascii_digits(s),
        0 <= k <= s.len(),
    ensures
        digits_value(s.take(k)) <= digits_value(s),
    decreases s.len(),
{
    if k < s.len() {
        assert(s.drop_last().take(k) =~= s.take(k));
        lemma_digits_value_prefix(s.drop_last(), k);
    } else {
        assert(s.take(k) =~= s);
    }
}

/// Appending one digit to a digit string.
pub proof fn lemma_digits_value_push(s: Seq<char>, c: char)
    ensures
        digits_value(s.push(c)) == digits_value(s) * 10 + digit_value(c),
{
    assert(s.push(c).drop_last() =~= s);
}

/// `decimal(n)` is a non-empty string of digits that spells `n`.
pub proof fn lemma_decimal_digits(n: nat)
    ensures
        decimal(n).len() > 0,
        all_ascii_digits(decimal(n)),
        digits_value(decimal(n)) == n,
    decreases n,
{
    if n < 10 {
        assert(digits_value(decimal(n)) == digits_value(seq![digit_char(n)].drop_last()) * 10
            + digit_value(digit_char(n)));
        assert(seq![digit_char(n)].drop_last() =~= Seq::<char>::empty());
    } else {
        lemma_decimal_digits(n / 10);
        lemma_digits_value_push(decimal(n / 10), digit_char(n % 10));
    }
}

/// `decimal_width2(n)` is a non-empty string of digits that spells `n`.
pub proof fn lemma_decimal_width2_digits(n: nat)
    ensures
        decimal_width2(n).len() > 0,
        all_ascii_digits(decimal_width2(n)),
        digits_value(decimal_width2(n)) == n,
{
    if n < 10 {
        let s = seq!['0', digit_char(n)];
        assert(s =~= seq!['0'].push(digit_char(n)));
        lemma_digits_value_push(seq!['0'], digit_char(n));
        lemma_digits_value_push(Seq::<char>::empty(), '0');
        assert(seq!['0'] =~= Seq::<char>::empty().push('0'));
    } else {
        lemma_decimal_digits(n);
    }
}

/// The value of a digit string is its decimal value: no digits are worth
/// nothing, one more digit at the end multiplies by ten and adds the
/// digit, and a leading zero changes nothing.
pub proof fn lemma_digits_value_decimal(d: Seq<char>, c: char)
    ensures
        digits_value(Seq::<char>::empty()) == 0,
        digits_value(seq![c]) == digit_value(c),
        digits_value(d.push(c)) == digits_value(d) * 10 + digit_value(c),
        digits_value(seq!['0'] + d) == digits_value(d),
    decreases d.len(),
{
    lemma_digits_value_push(d, c);
    lemma_digits_value_push(Seq::<char>::empty(), c);
    assert(Seq::<char>::empty().push(c) =~= seq![c]);
    if d.len() == 0 {
        assert(seq!['0'] + d =~= Seq::<char>::empty().push('0'));
        lemma_digits_value_push(Seq::<char>::empty(), '0');
    } else {
        lemma_digits_value_decimal(d.drop_last(), d.last());
        assert(seq!['0'] + d =~= (seq!['0'] + d.drop_last()).push(d.last()));
        lemma_digits_value_push(seq!['0'] + d.drop_last(), d.last());
        lemma_digits_value_push(d.drop_last(), d.last());
        assert(d.drop_last().push(d.last()) =~= d);
    }
}

/// What `parse::<u32>` makes of a string of ASCII digits: its value where
/// that fits a `u32`, with or without one leading `+`, whatever leading
/// zeros it has; nothing where it does not fit.
pub proof fn lemma_parse_u32_digits(d: Seq<char>)
    requires
        d.len() > 0,
        all_ascii_digits(d),
    ensures
        digits_value(d) <= u32::MAX ==> parse_u32(d) == Some(digits_value(d) as u32),
        digits_value(d) <= u32::MAX ==> parse_u32(seq!['+'] + d) == Some(digits_value(d) as u32),
        digits_value(d) > u32::MAX ==> parse_u32(d) is None,
        digits_value(d) > u32::MAX ==> parse_u32(seq!['+'] + d) is None,
{
    assert(is_ascii_digit(d[0]));
    assert((seq!['+'] + d).drop_first() =~= d);
}

/// What `parse::<u32>` refuses: the empty text, a lone `+`, and any text
/// with a character other than a digit, beyond one leading `+`.
pub proof fn lemma_parse_u32_rejects(s: Seq<char>, i: int)
    ensures
        s.len() == 0 ==> parse_u32(s) is None,
        s =~= seq!['+'] ==> parse_u32(s) is None,
        0 <= i < s.len() && !is_ascii_digit(s[i]) && !(i == 0 && s[0] == '+') ==> parse_u32(s)
            is None,
{
    if 0 <= i < s.len() && !is_ascii_digit(s[i]) && !(i == 0 && s[0] == '+') {
        let d = unsigned_digits(s);
        if s.len() > 0 && s[0] == '+' {
            assert(d[i - 1] == s[i]);
        } else {
            assert(d[i] == s[i]);
        }
    }
}

/// `decimal(n)` has no leading zero.
pub proof fn lemma_decimal_no_leading_zero(n: nat)
    requires
        n >= 1,
    ensures
        decimal(n)[0] != '0',
    decreases n,
{
    if n >= 10 {
        lemma_decimal_digits(n / 10);
        lemma_decimal_no_leading_zero(n / 10);
        assert(decimal(n)[0] == decimal(n / 10)[0]);
    }
}

/// `{:02}` writes the digits of `n` with one leading zero where `n` has a
/// single digit and none otherwise.
pub proof fn lemma_decimal_width2_form(n: nat)
    ensures
        all_ascii_digits(decimal_width2(n)),
        digits_value(decimal_width2(n)) == n,
        n < 10 ==> decimal_width2(n).len() == 2 && decimal_width2(n)[0] == '0',
        n >= 10 ==> decimal_width2(n)[0] != '0',
        decimal_width2(n).len() >= 2,
{
    lemma_decimal_width2_digits(n);
    if n >= 10 {
        lemma_decimal_no_leading_zero(n);
        lemma_decimal_digits(n / 10);
    }
}

/// Parses an unsigned 32-bit number the way `str::parse::<u32>` does.
pub fn parse_u32_str(s: &str) -> (r: Option<u32>)
    ensures
        r == parse_u32(s@),
{
    let n = s.unicode_len();
    let mut start: usize = 0;
    if n > 0 && s.get_char(0) == '+' {
        start = 1;
    }
    let ghost d = s@.skip(start as int);
    assert(d =~= unsigned_digits(s@));
    if start == n {
        return None;
    }
    let mut i: usize = start;
    let mut v: u64 = 0;
    assert(d.take(0) =~= Seq::<char>::empty());
    while i < n
        invariant
            start <= i <= n,
            start < n,
            n == s@.len(),
            d == s@.skip(start as int),
            d == unsigned_digits(s@),
            all_ascii_digits(d.take(i - start)),
            v == digits_value(d.take(i - start)),
            v <= u32::MAX,
        decreases n - i,
    {
        let c = s.get_char(i);
        assert(d[i - start] == c);
        if !('0' <= c && c <= '9') {
            assert(!all_ascii_digits(d));
            return None;
        }
        let dv = (c as u32 - '0' as u32) as u64;
        assert(d.take(i + 1 - start) =~= d.take(i - start).push(c));
        proof {
            lemma_digits_value_push(d.take(i - start), c);
        }
        v = v * 10 + dv;
        if v > 4294967295u64 {
            proof {
                if all_ascii_digits(d) {
                    lemma_digits_value_prefix(d, i + 1 - start);
                }
            }
            return None;
        }
        i = i + 1;
    }
    assert(d.take(n - start) =~= d);
    Some(v as u32)
}

/// Appends the digit that stands for `d` to `out`.
fn push_digit(out: &mut String, d: u32)
    requires
        d < 10,
    ensures
        final(out)@ == old(out)@.push(digit_char(d as nat)),
{
    let digits = "0123456789";
    proof {
        reveal_strlit("0123456789");
    }
    let one = digits.substring_char(d as usize, d as usize + 1);
    assert(one@ =~= seq![digit_char(d as nat)]);
    out.append(one);
}

/// Appends the decimal representation of `n` to `out`.
pub fn push_decimal(out: &mut String, n: u32)
    ensures
        final(out)@ == old(out)@ + decimal(n as nat),
    decreases n,
{
    if n >= 10 {
        push_decimal(out, n / 10);
    }
    push_digit(out, n % 10);
    assert(old(out)@ + decimal(n as nat) =~= if n >= 10 {
        (old(out)@ + decimal((n / 10) as nat)).push(digit_char((n % 10) as nat))
    } else {
        old(out)@.push(digit_char((n % 10) as nat))
    });
}

/// Appends `n` padded with zeros to two digits at least (`{:02}`).
pub fn push_decimal_width2(out: &mut String, n: u32)
    ensures
        final(out)@ == old(out)@ + decimal_width2(n as nat),
{
    if n < 10 {
        push_digit(out, 0);
        push_digit(out, n);
        assert(old(out)@ + decimal_width2(n as nat) =~= old(out)@.push(digit_char(0)).push(
            digit_char(n as nat),
        ));
    } else {
        push_decimal(out, n);
    }
}

// ---------------------------------------------------------------------
// Line breaks
// ---------------------------------------------------------------------
/// `s` with each `"\r\n"` replaced by a space, scanning from the left as
/// `str::replace` does.
pub open spec fn replace_crlf(s: Seq<char>) -> Seq<char>
    decreases s.len(),
{
    if s.len() == 0 {
        s
    } else if s.len() >= 2 && s[0] == '\r' && s[1] == '\n' {
        seq![' '] + replace_crlf(s.skip(2))
    } else {
        seq![s[0]] + replace_crlf(s.skip(1))
    }
}

/// `s` with each `'\n'` replaced by a space.
pub open spec fn replace_lf(s: Seq<char>) -> Seq<char> {
    s.map_values(|c: char| if c == '\n' { ' ' } else { c })
}

/// Appends the character at index `i` of `s` to `out`.
fn push_char_at(out: &mut String, s: &str, i: usize)
    requires
        i < s@.len() <= usize::MAX,
    ensures
        final(out)@ == old(out)@.push(s@[i as int]),
{
    let one = s.substring_char(i, i + 1);
    assert(one@ =~= seq![s@[i as int]]);
    out.append(one);
}

/// Appends a space to `out`.
fn push_space(out: &mut String)
    ensures
        final(out)@ == old(out)@.push(' '),
{
    let space = " ";
    proof {
        reveal_strlit(" ");
    }
    out.append(space);
    assert(old(out)@ + space@ =~= old(out)@.push(' '));
}

/// Returns `s` with each `"\r\n"` replaced by a space.
pub fn replace_crlf_str(s: &str) -> (r: String)
    ensures
        r@ == replace_crlf(s@),
{
    let n = s.unicode_len();
    let mut out = String::new();
    let mut i: usize = 0;
    assert(s@.skip(0) =~= s@);
    while i < n
        invariant
            i <= n,
            n == s@.len(),
            replace_crlf(s@) == out@ + replace_crlf(s@.skip(i as int)),
        decreases n - i,
    {
        let ghost rest = s@.skip(i as int);
        let ghost before = out@;
        assert(rest[0] == s@[i as int]);
        if i + 1 < n && s.get_char(i) == '\r' && s.get_char(i + 1) == '\n' {
            assert(rest[1] == s@[i + 1]);
            assert(rest.skip(2) =~= s@.skip(i + 2));
            push_space(&mut out);
            assert(replace_crlf(rest) == seq![' '] + replace_crlf(rest.skip(2)));
            assert(before + (seq![' '] + replace_crlf(s@.skip(i + 2))) =~= out@ + replace_crlf(
                s@.skip(i + 2),
            ));
            i = i + 2;
        } else {
            if i + 1 < n {
                assert(rest[1] == s@[i + 1]);
            }
            assert(rest.skip(1) =~= s@.skip(i + 1));
            push_char_at(&mut out, s, i);
            assert(replace_crlf(rest) == seq![rest[0]] + replace_crlf(rest.skip(1)));
            assert(before + (seq![rest[0]] + replace_crlf(s@.skip(i + 1))) =~= out@
                + replace_crlf(s@.skip(i + 1)));
            i = i + 1;
        }
    }
    assert(s@.skip(n as int) =~= Seq::<char>::empty());
    out
}

/// Returns `s` with each `'\n'` replaced by a space.
pub fn replace_lf_str(s: &str) -> (r: String)
    ensures
        r@ == replace_lf(s@),
{
    let n = s.unicode_len();
    let mut out = String::new();
    for i in 0..n
        invariant
            n == s@.len(),
            out@ == replace_lf(s@.take(i as int)),
    {
        let ghost before = out@;
        if s.get_char(i) == '\n' {
            push_space(&mut out);
        } else {
            push_char_at(&mut out, s, i);
        }
        assert(replace_lf(s@.take(i + 1)) =~= before.push(replace_lf(s@)[i as int]));
    }
    assert(s@.take(n as int) =~= s@);
    out
}

/// Replacing line feeds keeps the length, turns each `'\n'` into a space
/// and keeps every other character where it is.
pub proof fn lemma_replace_lf(s: Seq<char>)
    ensures
        replace_lf(s).len() == s.len(),
        forall|i: int|
            0 <= i < s.len() ==> #[trigger] replace_lf(s)[i] == if s[i] == '\n' {
                ' '
            } else {
                s[i]
            },
{
}

/// The first character of `replace_crlf(t)`: a space where `t` starts with
/// `"\r\n"`, else the first character of `t`.
proof fn lemma_replace_crlf_first(t: Seq<char>)
    requires
        t.len() > 0,
    ensures
        replace_crlf(t).len() > 0,
        replace_crlf(t)[0] == if t.len() >= 2 && t[0] == '\r' && t[1] == '\n' {
            ' '
        } else {
            t[0]
        },
{
}

/// `"\r\n"` stands somewhere in `s`.
pub open spec fn has_crlf(s: Seq<char>) -> bool {
    exists|i: int| 0 <= i < s.len() - 1 && s[i] == '\r' && #[trigger] s[i + 1] == '\n'
}

/// After replacing, no `"\r\n"` is left, and a text without a carriage
/// return is left as it is.
pub proof fn lemma_replace_crlf(s: Seq<char>)
    ensures
        !has_crlf(replace_crlf(s)),
        (forall|i: int| 0 <= i < s.len() ==> #[trigger] s[i] != '\r') ==> replace_crlf(s) == s,
    decreases s.len(),
{
    if s.len() == 0 {
    } else if s.len() >= 2 && s[0] == '\r' && s[1] == '\n' {
        let rest = s.skip(2);
        lemma_replace_crlf(rest);
        let r = replace_crlf(s);
        let rr = replace_crlf(rest);
        assert(r == seq![' '] + rr);
        assert forall|i: int| 0 <= i < r.len() - 1 && r[i] == '\r' implies #[trigger] r[i + 1]
            != '\n' by {
            assert(i >= 1);
            let j = i - 1;
            assert(r[i] == rr[j]);
            assert(r[i + 1] == rr[j + 1]);
            if rr[j + 1] == '\n' {
                assert(has_crlf(rr));
            }
        }
    } else {
        let rest = s.skip(1);
        lemma_replace_crlf(rest);
        let r = replace_crlf(s);
        let rr = replace_crlf(rest);
        assert(r == seq![s[0]] + rr);
        assert forall|i: int| 0 <= i < r.len() - 1 && r[i] == '\r' implies #[trigger] r[i + 1]
            != '\n' by {
            if i == 0 {
                lemma_replace_crlf_first(rest);
                assert(rest[0] == s[1]);
                if rest.len() >= 2 {
                    assert(rest[1] == s[2]);
                }
                assert(r[1] == rr[0]);
            } else {
                let j = i - 1;
                assert(r[i] == rr[j]);
                assert(r[i + 1] == rr[j + 1]);
                if rr[j + 1] == '\n' {
                    assert(has_crlf(rr));
                }
            }
        }
        if forall|i: int| 0 <= i < s.len() ==> #[trigger] s[i] != '\r' {
            assert forall|i: int| 0 <= i < rest.len() implies #[trigger] rest[i] != '\r' by {
                assert(rest[i] == s[i + 1]);
            }
            assert(r =~= s);
        }
    }
}

/// Text without a carriage return passes through unchanged ahead of the
/// rest: `replace_crlf(a + t)` is `a` followed by `replace_crlf(t)`.
pub proof fn lemma_replace_crlf_prefix(a: Seq<char>, t: Seq<char>)
    requires
        forall|i: int| 0 <= i < a.len() ==> #[trigger] a[i] != '\r',
    ensures
        replace_crlf(a + t) == a + replace_crlf(t),
    decreases a.len(),
{
    if a.len() > 0 {
        let rest = a.drop_first();
        assert forall|i: int| 0 <= i < rest.len() implies #[trigger] rest[i] != '\r' by {
            assert(rest[i] == a[i + 1]);
        }
        lemma_replace_crlf_prefix(rest, t);
        assert((a + t)[0] == a[0]);
        assert((a + t).skip(1) =~= rest + t);
        assert(seq![a[0]] + (rest + replace_crlf(t)) =~= a + replace_crlf(t));
    } else {
        assert(a + t =~= t);
        assert(a + replace_crlf(t) =~= replace_crlf(t));
    }
}

/// Each `"\r\n"` becomes exactly one space: after text without a carriage
/// return, the pair is replaced by a space and the rest follows.
pub proof fn lemma_replace_crlf_pair(a: Seq<char>, b: Seq<char>)
    requires
        forall|i: int| 0 <= i < a.len() ==> #[trigger] a[i] != '\r',
    ensures
        replace_crlf(a + seq!['\r', '\n'] + b) == a + seq![' '] + replace_crlf(b),
{
    let t = seq!['\r', '\n'] + b;
    assert(a + seq!['\r', '\n'] + b =~= a + t);
    lemma_replace_crlf_prefix(a, t);
    assert(t.skip(2) =~= b);
    assert(replace_crlf(t) == seq![' '] + replace_crlf(b));
    assert(a + (seq![' '] + replace_crlf(b)) =~= a + seq![' '] + replace_crlf(b));
}

} // verus!
