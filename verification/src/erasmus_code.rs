//! Erasmus institution codes such as `E  MADRID03`: a country part, a space,
//! a region and a number.
use vstd::prelude::*;

use crate::text::{
    char_is_numeric, decimal_width2, find_first, is_ascii_digit, is_numeric, is_white_space,
    lemma_decimal_width2_digits, lemma_decimal_width2_form, lemma_find_first, lemma_find_first_at, lemma_find_first_none,
    lemma_trim, lemma_trim_unchanged, all_ascii_digits, digits_value, parse_u32, parse_u32_str, push_decimal_width2, trim,
    trim_str, unsigned_digits,
};

verus! {

/// An Erasmus institution code: country, region and institution number.
#[derive(Debug, Clone)]
pub struct ErasmusCode {
    pais: String,
    region: String,
    universidad: u32,
}

/// The three parts of an Erasmus code, as text and number.
pub struct ErasmusCodeView {
    pub pais: Seq<char>,
    pub region: Seq<char>,
    pub universidad: u32,
}

impl View for ErasmusCode {
    type V = ErasmusCodeView;

    closed spec fn view(&self) -> ErasmusCodeView {
        ErasmusCodeView { pais: self.pais@, region: self.region@, universidad: self.universidad }
    }
}

/// The character that ends the country part.
pub open spec fn is_space() -> spec_fn(char) -> bool {
    |c: char| c == ' '
}

/// The characters that start the institution number.
pub open spec fn is_number_start() -> spec_fn(char) -> bool {
    |c: char| is_numeric(c)
}

/// How a text reads as an Erasmus code: the country is everything before
/// the first space; after it, the region is what comes before the first
/// numeric character, trimmed, and the number is the rest, trimmed and read
/// as a `u32`.  `None` where there is no space, no numeric character after
/// it, or the number does not read.
pub open spec fn parse_erasmus_code(s: Seq<char>) -> Option<ErasmusCodeView> {
    match find_first(s, is_space()) {
        None => None,
        Some(sp) => {
            let rest = s.skip(sp + 1);
            match find_first(rest, is_number_start()) {
                None => None,
                Some(i) => match parse_u32(trim(rest.skip(i))) {
                    None => None,
                    Some(n) => Some(
                        ErasmusCodeView { pais: s.take(sp), region: trim(rest.take(i)), universidad: n },
                    ),
                },
            }
        },
    }
}

/// How a code is written: country, a space, region, and the number with
/// two digits at least.
pub open spec fn display_erasmus_code(v: ErasmusCodeView) -> Seq<char> {
    v.pais + seq![' '] + v.region + decimal_width2(v.universidad as nat)
}

/// The codes that read back as they are written: no space in the country,
/// no numeric character in the region, and no white space at either end of
/// the region.
pub open spec fn is_canonical(v: ErasmusCodeView) -> bool {
    &&& forall|i: int| 0 <= i < v.pais.len() ==> #[trigger] v.pais[i] != ' '
    &&& forall|i: int| 0 <= i < v.region.len() ==> !is_numeric(#[trigger] v.region[i])
    &&& v.region.len() > 0 ==> !is_white_space(v.region[0]) && !is_white_space(v.region.last())
}

/// Returns the index of the first space in `s`.
fn find_space(s: &str) -> (r: Option<usize>)
    ensures
        match r {
            Some(i) => find_first(s@, is_space()) == Some(i as int),
            None => find_first(s@, is_space()) is None,
        },
{
    let n = s.unicode_len();
    for i in 0..n
        invariant
            n == s@.len(),
            forall|j: int| 0 <= j < i ==> !is_space()(#[trigger] s@[j]),
    {
        if s.get_char(i) == ' ' {
            proof {
                lemma_find_first_at(s@, is_space(), i as int);
            }
            return Some(i);
        }
    }
    proof {
        lemma_find_first_none(s@, is_space());
    }
    None
}

/// Returns the index of the first numeric character in `s`.
fn find_number_start(s: &str) -> (r: Option<usize>)
    ensures
        match r {
            Some(i) => find_first(s@, is_number_start()) == Some(i as int),
            None => find_first(s@, is_number_start()) is None,
        },
{
    let n = s.unicode_len();
    for i in 0..n
        invariant
            n == s@.len(),
            forall|j: int| 0 <= j < i ==> !is_number_start()(#[trigger] s@[j]),
    {
        if char_is_numeric(s.get_char(i)) {
            proof {
                lemma_find_first_at(s@, is_number_start(), i as int);
            }
            return Some(i);
        }
    }
    proof {
        lemma_find_first_none(s@, is_number_start());
    }
    None
}

impl<'a> TryFrom<&'a str> for ErasmusCode {
    type Error = ();

    /// Reads an Erasmus code such as `"E  MADRID03"`; `Err(())` where the
    /// text is not one.
    fn try_from(value: &'a str) -> (r: Result<ErasmusCode, ()>)
        ensures
            match parse_erasmus_code(value@) {
                None => r is Err,
                Some(v) => r matches Ok(c) && c@ == v,
            },
    {
        let n = value.unicode_len();
        let sp = match find_space(value) {
            Some(sp) => sp,
            None => return Err(()),
        };
        proof {
            lemma_find_first(value@, is_space());
        }
        let pais = value.substring_char(0, sp);
        let rest = value.substring_char(sp + 1, n);
        assert(pais@ =~= value@.take(sp as int));
        assert(rest@ =~= value@.skip(sp + 1));
        let i = match find_number_start(rest) {
            Some(i) => i,
            None => return Err(()),
        };
        proof {
            lemma_find_first(rest@, is_number_start());
        }
        let rn = rest.unicode_len();
        let head = rest.substring_char(0, i);
        let tail = rest.substring_char(i, rn);
        assert(head@ =~= rest@.take(i as int));
        assert(tail@ =~= rest@.skip(i as int));
        let ciudad = trim_str(head);
        let uni = match parse_u32_str(trim_str(tail)) {
            Some(u) => u,
            None => return Err(()),
        };
        Ok(ErasmusCode { pais: String::from_str(pais), region: String::from_str(ciudad), universidad: uni })
    }
}

/// `TryFrom` asks for a spec value of `try_from`; this impl gives none
/// (`obeys_try_from_spec` is `false`, and the value is left arbitrary).  The
/// result of `try_from` is stated instead by the `ensures` of the impl
/// above, over `parse_erasmus_code`: a spec value would have to build the
/// strings of a code from their text, which spec code cannot do.
impl<'a> vstd::std_specs::convert::TryFromSpecImpl<&'a str> for ErasmusCode {
    open spec fn obeys_try_from_spec() -> bool {
        false
    }

    open spec fn try_from_spec(v: &'a str) -> Result<ErasmusCode, ()> {
        arbitrary()
    }
}

impl ErasmusCode {
    /// The code as text: country, a space, region and the number with two
    /// digits at least (`"{} {}{:02}"`).
    pub fn to_string(&self) -> (r: String)
        ensures
            r@ == display_erasmus_code(self@),
    {
        let mut out = String::new();
        out.append(self.pais.as_str());
        let space = " ";
        proof {
            reveal_strlit(" ");
        }
        out.append(space);
        out.append(self.region.as_str());
        push_decimal_width2(&mut out, self.universidad);
        assert(out@ =~= display_erasmus_code(self@));
        out
    }

    /// The country part.
    pub fn pais(&self) -> (r: &str)
        ensures
            r@ == self@.pais,
    {
        self.pais.as_str()
    }

    /// The region part.
    pub fn region(&self) -> (r: &str)
        ensures
            r@ == self@.region,
    {
        self.region.as_str()
    }

    /// The institution number.
    pub fn universidad(&self) -> (r: u32)
        ensures
            r == self@.universidad,
    {
        self.universidad
    }
}

/// A text made of a country without spaces, a space, a region without
/// numeric characters and with no white space at either end, and a number
/// written in ASCII digits that fits a `u32` reads as that country, that
/// region and the value of the digits, whatever leading zeros they have.
pub proof fn lemma_parse_code_with_digits(p: Seq<char>, r: Seq<char>, d: Seq<char>)
    requires
        forall|i: int| 0 <= i < p.len() ==> #[trigger] p[i] != ' ',
        forall|i: int| 0 <= i < r.len() ==> !is_numeric(#[trigger] r[i]),
        r.len() > 0 ==> !is_white_space(r[0]) && !is_white_space(r.last()),
        d.len() > 0,
        all_ascii_digits(d),
        digits_value(d) <= u32::MAX,
    ensures
        parse_erasmus_code(p + seq![' '] + r + d) == Some(
            ErasmusCodeView { pais: p, region: r, universidad: digits_value(d) as u32 },
        ),
{
    let s = p + seq![' '] + r + d;
    let sp = p.len() as int;
    assert forall|j: int| 0 <= j < sp implies !is_space()(#[trigger] s[j]) by {
        assert(s[j] == p[j]);
    }
    assert(s[sp] == ' ');
    lemma_find_first_at(s, is_space(), sp);
    let rest = s.skip(sp + 1);
    assert(s.take(sp) =~= p);
    assert(rest =~= r + d);
    let i = r.len() as int;
    assert forall|j: int| 0 <= j < i implies !is_number_start()(#[trigger] rest[j]) by {
        assert(rest[j] == r[j]);
    }
    assert(rest[i] == d[0]);
    assert(is_ascii_digit(d[0]));
    lemma_find_first_at(rest, is_number_start(), i);
    assert(rest.take(i) =~= r);
    assert(rest.skip(i) =~= d);
    lemma_trim_unchanged(r);
    assert(is_ascii_digit(d.last()));
    lemma_trim_unchanged(d);
    assert(unsigned_digits(d) == d);
}

/// A written code is the country, one space, the region, and the number in
/// decimal with two digits at least: a leading zero only where it has one
/// digit.
pub proof fn lemma_display_form(v: ErasmusCodeView)
    ensures
        ({
            let s = display_erasmus_code(v);
            let p = v.pais.len() as int;
            let r = v.region.len() as int;
            &&& s.take(p) == v.pais
            &&& s[p] == ' '
            &&& s.subrange(p + 1, p + 1 + r) == v.region
            &&& all_ascii_digits(s.skip(p + 1 + r))
            &&& digits_value(s.skip(p + 1 + r)) == v.universidad
            &&& s.len() >= p + 1 + r + 2
            &&& (v.universidad < 10 ==> s.len() == p + 1 + r + 2 && s[p + 1 + r] == '0')
            &&& (v.universidad >= 10 ==> s[p + 1 + r] != '0')
        }),
{
    let s = display_erasmus_code(v);
    let p = v.pais.len() as int;
    let r = v.region.len() as int;
    let d = decimal_width2(v.universidad as nat);
    lemma_decimal_width2_form(v.universidad as nat);
    assert(s.take(p) =~= v.pais);
    assert(s.subrange(p + 1, p + 1 + r) =~= v.region);
    assert(s.skip(p + 1 + r) =~= d);
    assert(s[p + 1 + r] == d[0]);
}

/// Writing a canonical code and reading the text back gives the same code.
pub proof fn lemma_display_then_parse(v: ErasmusCodeView)
    requires
        is_canonical(v),
    ensures
        parse_erasmus_code(display_erasmus_code(v)) == Some(v),
{
    let digits = decimal_width2(v.universidad as nat);
    lemma_decimal_width2_digits(v.universidad as nat);
    lemma_parse_code_with_digits(v.pais, v.region, digits);
}

/// Every code that a text reads as is canonical.
pub proof fn lemma_parsed_is_canonical(s: Seq<char>)
    ensures
        parse_erasmus_code(s) matches Some(v) ==> is_canonical(v),
{
    if let Some(v) = parse_erasmus_code(s) {
        lemma_find_first(s, is_space());
        let sp = find_first(s, is_space())->0;
        let rest = s.skip(sp + 1);
        lemma_find_first(rest, is_number_start());
        let i = find_first(rest, is_number_start())->0;
        assert forall|k: int| 0 <= k < v.pais.len() implies #[trigger] v.pais[k] != ' ' by {
            assert(v.pais[k] == s[k]);
            assert(!is_space()(s[k]));
        }
        let head = rest.take(i);
        let (a, b) = lemma_trim(head);
        assert forall|k: int| 0 <= k < v.region.len() implies !is_numeric(#[trigger] v.region[k]) by {
            assert(v.region[k] == head[a + k]);
            assert(head[a + k] == rest[a + k]);
            assert(!is_number_start()(rest[a + k]));
        }
    }
}

/// Reading a text, writing the code and reading it again gives the code
/// the first reading gave.
pub proof fn lemma_parse_display_parse(s: Seq<char>)
    ensures
        parse_erasmus_code(s) matches Some(v) ==> parse_erasmus_code(display_erasmus_code(v))
            == Some(v),
{
    lemma_parsed_is_canonical(s);
    if let Some(v) = parse_erasmus_code(s) {
        lemma_display_then_parse(v);
    }
}

} // verus!
