//! ADI tag lexer.
//!
//! ADI is the tag-length-value serialization of the ADIF logical data model.
//! A tag is `<name[:length[:type]]>`; a tag with a declared length is
//! followed by exactly `length` characters of value text, taken verbatim —
//! `<` and `>` inside the value are ordinary characters, never tag
//! boundaries.  Two sentinel tags carry no length: the end-of-header marker
//! (`eoh`) and the end-of-record marker (`eor`), matched case-insensitively.
//! Characters between one tag's value and the next `<` are ignored.
//!
//! The lexer is specified by [`spec_lex_from`], a recursive function over the
//! character sequence, and [`lex_tokens`] is proved to return exactly the
//! token sequence that specification names, or an error exactly when the
//! specification says the input is malformed.

use vstd::prelude::*;

use crate::ascii::is_ascii_digit;
use crate::ascii::digit_value;
use crate::ascii::spec_lower;
use crate::ascii::spec_to_lower;
use crate::ascii::to_lower;
use crate::ascii::string_from_chars;
use crate::ascii::copy_range;

verus! {

/// One lexical unit of an ADI stream: a field tag with its declared length,
/// optional type hint and verbatim value text, or one of the two sentinels.
pub enum AdiToken {
    Field { name: String, length: usize, type_hint: Option<String>, value: String },
    EndOfHeader,
    EndOfRecord,
}

/// The mathematical image of a token: the same shape over character
/// sequences.
pub ghost enum TokenModel {
    Field { name: Seq<char>, length: nat, type_hint: Option<Seq<char>>, value: Seq<char> },
    EndOfHeader,
    EndOfRecord,
}

impl View for AdiToken {
    type V = TokenModel;

    open spec fn view(&self) -> TokenModel {
        match self {
            AdiToken::Field { name, length, type_hint, value } => TokenModel::Field {
                name: name@,
                length: *length as nat,
                type_hint: match type_hint {
                    Some(h) => Some(h@),
                    None => None,
                },
                value: value@,
            },
            AdiToken::EndOfHeader => TokenModel::EndOfHeader,
            AdiToken::EndOfRecord => TokenModel::EndOfRecord,
        }
    }
}

/// The view of a token vector.
pub open spec fn tokens_view(v: Seq<AdiToken>) -> Seq<TokenModel> {
    v.map_values(|t: AdiToken| t@)
}

/// Index of the first occurrence of `c` at or after `from`, if any.
pub open spec fn find_char(s: Seq<char>, from: int, c: char) -> Option<int>
    decreases s.len() - from,
{
    if from >= s.len() {
        None
    } else if from < 0 {
        None
    } else if s[from] == c {
        Some(from)
    } else {
        find_char(s, from + 1, c)
    }
}

pub proof fn lemma_find_char(s: Seq<char>, from: int, c: char)
    requires
        0 <= from,
    ensures
        match find_char(s, from, c) {
            Some(j) => from <= j < s.len() && s[j] == c && (forall|k: int|
                from <= k < j ==> s[k] != c),
            None => forall|k: int| from <= k < s.len() ==> s[k] != c,
        },
    decreases s.len() - from,
{
    if from < s.len() && s[from] != c {
        lemma_find_char(s, from + 1, c);
    }
}

pub open spec fn all_digits(s: Seq<char>) -> bool {
    forall|i: int| 0 <= i < s.len() ==> is_ascii_digit(#[trigger] s[i])
}

/// The number a digit string denotes, most significant digit first.
pub open spec fn digits_value(s: Seq<char>) -> int
    decreases s.len(),
{
    if s.len() == 0 {
        0
    } else {
        digits_value(s.drop_last()) * 10 + digit_value(s.last())
    }
}

pub proof fn lemma_digits_value_nonneg(s: Seq<char>)
    requires
        all_digits(s),
    ensures
        digits_value(s) >= 0,
    decreases s.len(),
{
    if s.len() > 0 {
        assert(all_digits(s.drop_last()));
        lemma_digits_value_nonneg(s.drop_last());
    }
}

/// Extending a digit string on the right never shrinks its value.
pub proof fn lemma_digits_value_prefix(s: Seq<char>, n: int)
    requires
        all_digits(s),
        0 <= n <= s.len(),
    ensures
        digits_value(s) >= digits_value(s.subrange(0, n)),
    decreases s.len() - n,
{
    if n < s.len() {
        lemma_digits_value_prefix(s, n + 1);
        let p = s.subrange(0, n + 1);
        assert(p.drop_last() =~= s.subrange(0, n));
        assert(all_digits(s.subrange(0, n)));
        lemma_digits_value_nonneg(s.subrange(0, n));
        assert(digits_value(p) == digits_value(s.subrange(0, n)) * 10 + digit_value(p.last()));
        assert(digit_value(p.last()) >= 0);
    } else {
        assert(s.subrange(0, n) =~= s);
    }
}

/// What the lexer does at one position: the stream is exhausted, the input is
/// malformed, or one token is produced and scanning resumes at `next`.
pub ghost enum LexStep {
    Done,
    Fail,
    Tok { tok: TokenModel, next: int },
}

/// The sentinel names, lowercased.
pub open spec fn eoh_name() -> Seq<char> {
    seq!['e', 'o', 'h']
}

pub open spec fn eor_name() -> Seq<char> {
    seq!['e', 'o', 'r']
}

/// Reads one token starting at position `i`: everything before the next `<`
/// is skipped; the text up to the matching `>` is the tag header.  A header
/// without a colon must be a sentinel name.  A header with a colon is
/// `name:length[:type]`; the name must be nonempty, the length a digit
/// string, and the declared length must not overrun the input, from which
/// the value is taken verbatim.
pub open spec fn spec_next_token(s: Seq<char>, i: int) -> LexStep {
    match find_char(s, i, '<') {
        None => LexStep::Done,
        Some(a) => match find_char(s, a + 1, '>') {
            None => LexStep::Fail,
            Some(b) => {
                let h = s.subrange(a + 1, b);
                match find_char(h, 0, ':') {
                    None => if spec_lower(h) == eoh_name() {
                        LexStep::Tok { tok: TokenModel::EndOfHeader, next: b + 1 }
                    } else if spec_lower(h) == eor_name() {
                        LexStep::Tok { tok: TokenModel::EndOfRecord, next: b + 1 }
                    } else {
                        LexStep::Fail
                    },
                    Some(c1) => {
                        let name = h.subrange(0, c1);
                        let rest = h.subrange(c1 + 1, h.len() as int);
                        let lenpart = match find_char(rest, 0, ':') {
                            None => rest,
                            Some(c2) => rest.subrange(0, c2),
                        };
                        let hint = match find_char(rest, 0, ':') {
                            None => None,
                            Some(c2) => Some(rest.subrange(c2 + 1, rest.len() as int)),
                        };
                        if name.len() == 0 || lenpart.len() == 0 || !all_digits(lenpart) {
                            LexStep::Fail
                        } else {
                            let l = digits_value(lenpart);
                            if b + 1 + l > s.len() {
                                LexStep::Fail
                            } else {
                                LexStep::Tok {
                                    tok: TokenModel::Field {
                                        name: name,
                                        length: l as nat,
                                        type_hint: hint,
                                        value: s.subrange(b + 1, b + 1 + l),
                                    },
                                    next: b + 1 + l,
                                }
                            }
                        }
                    },
                }
            },
        },
    }
}

/// A produced token always advances the scan position, and never past the
/// end of the input.
pub proof fn lemma_next_token_advances(s: Seq<char>, i: int)
    requires
        0 <= i,
    ensures
        spec_next_token(s, i) matches LexStep::Tok { tok, next } ==> i < next <= s.len(),
{
    lemma_find_char(s, i, '<');
    if let Some(a) = find_char(s, i, '<') {
        lemma_find_char(s, a + 1, '>');
        if let Some(b) = find_char(s, a + 1, '>') {
            let h = s.subrange(a + 1, b);
            lemma_find_char(h, 0, ':');
            if let Some(c1) = find_char(h, 0, ':') {
                let rest = h.subrange(c1 + 1, h.len() as int);
                lemma_find_char(rest, 0, ':');
                let lenpart = match find_char(rest, 0, ':') {
                    None => rest,
                    Some(c2) => rest.subrange(0, c2),
                };
                if lenpart.len() > 0 && all_digits(lenpart) {
                    lemma_digits_value_nonneg(lenpart);
                }
            }
        }
    }
}

/// The token sequence from position `i` on, or `None` if the input is
/// malformed from there.
pub open spec fn spec_lex_from(s: Seq<char>, i: int) -> Option<Seq<TokenModel>>
    decreases s.len() - i + 1,
{
    match spec_next_token(s, i) {
        LexStep::Done => Some(Seq::<TokenModel>::empty()),
        LexStep::Fail => None,
        LexStep::Tok { tok, next } => if i < next <= s.len() {
            match spec_lex_from(s, next) {
                None => None,
                Some(ts) => Some(seq![tok] + ts),
            }
        } else {
            // Unreachable for scan positions the lexer actually visits:
            // a produced token always advances (`lemma_next_token_advances`).
            None
        },
    }
}

/// If `c` first occurs at `j`, the search finds exactly `j`.
pub proof fn lemma_find_char_exact(s: Seq<char>, from: int, c: char, j: int)
    requires
        0 <= from <= j < s.len(),
        s[j] == c,
        forall|k: int| from <= k < j ==> s[k] != c,
    ensures
        find_char(s, from, c) == Some(j),
    decreases j - from,
{
    if from < j {
        lemma_find_char_exact(s, from + 1, c, j);
    }
}

/// Decimal digit characters are digits.
pub proof fn lemma_decimal_digits(n: int)
    requires
        n >= 0,
    ensures
        all_digits(crate::adif::spec_decimal(n)),
        crate::adif::spec_decimal(n).len() >= 1,
    decreases n,
{
    if n > 9 {
        lemma_decimal_digits(n / 10);
        let d = crate::adif::spec_decimal(n);
        assert forall|i: int| 0 <= i < d.len() implies is_ascii_digit(#[trigger] d[i]) by {
            if i < d.len() - 1 {
                assert(d[i] == crate::adif::spec_decimal(n / 10)[i]);
            }
        }
    }
}

/// Reading back a rendered decimal gives the number.
pub proof fn lemma_decimal_round_trip(n: int)
    requires
        n >= 0,
    ensures
        digits_value(crate::adif::spec_decimal(n)) == n,
    decreases n,
{
    let d = crate::adif::spec_decimal(n);
    if n > 9 {
        lemma_decimal_round_trip(n / 10);
        assert(d.drop_last() =~= crate::adif::spec_decimal(n / 10));
        assert(d.last() == crate::adif::spec_digit_char(n % 10));
        assert(digit_value(crate::adif::spec_digit_char(n % 10)) == n % 10);
    } else {
        assert(d =~= seq![crate::adif::spec_digit_char(n)]);
        assert(d.drop_last() =~= Seq::<char>::empty());
        assert(digits_value(Seq::<char>::empty()) == 0);
        assert(d.last() == crate::adif::spec_digit_char(n));
        assert(digits_value(d) == digit_value(crate::adif::spec_digit_char(n)));
        assert(digit_value(crate::adif::spec_digit_char(n)) == n);
    }
}

/// The text of one field tag: `<name:len>` followed by exactly `len`
/// characters of value.
pub open spec fn render_tag(name: Seq<char>, value: Seq<char>) -> Seq<char> {
    seq!['<'] + name + seq![':'] + crate::adif::spec_decimal(value.len() as int) + seq!['>']
        + value
}

/// A tag-header name: nonempty, and free of the three delimiter characters.
pub open spec fn plain_tag_name(name: Seq<char>) -> bool {
    name.len() > 0 && forall|i: int|
        0 <= i < name.len() ==> #[trigger] name[i] != '<' && name[i] != '>' && name[i] != ':'
}

/// The lexer recovers a rendered tag exactly: started on
/// `<name:len>value`, it reads back the name, the declared length, and a
/// value of exactly that length — whatever the value holds, `<` and `>`
/// included — and resumes right after it.  Tag boundaries inside a value
/// are not tag boundaries.
pub proof fn lemma_lex_recovers_tag(name: Seq<char>, value: Seq<char>, rest: Seq<char>)
    requires
        plain_tag_name(name),
    ensures
        spec_next_token(render_tag(name, value) + rest, 0) == (LexStep::Tok {
            tok: TokenModel::Field {
                name: name,
                length: value.len(),
                type_hint: None,
                value: value,
            },
            next: render_tag(name, value).len() as int,
        }),
{
    let s = render_tag(name, value) + rest;
    let d = crate::adif::spec_decimal(value.len() as int);
    lemma_decimal_digits(value.len() as int);
    lemma_decimal_round_trip(value.len() as int);
    let nl = name.len() as int;
    let dl = d.len() as int;
    // positions: '<' at 0, name at 1, ':' at 1+nl, digits at 2+nl, '>' at
    // 2+nl+dl, value at 3+nl+dl
    let b = 2 + nl + dl;
    assert(s[0] == '<');
    lemma_find_char_exact(s, 0, '<', 0);
    assert forall|k: int| 1 <= k < b implies s[k] != '>' by {
        if k < 1 + nl {
            assert(s[k] == name[k - 1]);
        } else if k == 1 + nl {
            assert(s[k] == ':');
        } else {
            assert(s[k] == d[k - 2 - nl]);
            assert(is_ascii_digit(d[k - 2 - nl]));
        }
    }
    assert(s[b] == '>');
    lemma_find_char_exact(s, 1, '>', b);
    let h = s.subrange(1, b);
    assert(h =~= name + seq![':'] + d);
    assert forall|k: int| 0 <= k < nl implies h[k] != ':' by {
        assert(h[k] == name[k]);
    }
    assert(h[nl] == ':');
    lemma_find_char_exact(h, 0, ':', nl);
    let hrest = h.subrange(nl + 1, h.len() as int);
    assert(hrest =~= d);
    lemma_find_char(hrest, 0, ':');
    if let Some(j) = find_char(hrest, 0, ':') {
        assert(is_ascii_digit(hrest[j]));
    }
    assert(h.subrange(0, nl) =~= name);
    assert(digits_value(d) == value.len());
    assert(s.subrange(b + 1, b + 1 + value.len()) =~= value);
    assert(render_tag(name, value).len() == b + 1 + value.len());
}

/// One lexer step's outcome, at the executable level.
pub enum LexOne {
    Done,
    Fail,
    Tok(AdiToken, usize),
}

/// An executable step result agrees with the specification's step.
pub open spec fn lex_one_matches(r: LexOne, st: LexStep) -> bool {
    match r {
        LexOne::Done => st is Done,
        LexOne::Fail => st is Fail,
        LexOne::Tok(t, n) => st matches LexStep::Tok { tok, next } && t@ == tok && n as int
            == next,
    }
}

/// First occurrence of `c` at or after `from`.
pub(crate) fn find_char_at(v: &Vec<char>, from: usize, c: char) -> (r: Option<usize>)
    ensures
        match r {
            None => find_char(v@, from as int, c) is None,
            Some(a) => find_char(v@, from as int, c) == Some(a as int),
        },
{
    let mut k = from;
    while k < v.len()
        invariant
            from <= k,
            find_char(v@, from as int, c) == find_char(v@, k as int, c),
        decreases v@.len() - k,
    {
        if v[k] == c {
            return Some(k);
        }
        k = k + 1;
    }
    None
}

/// Reads a declared length: `Some` with its value when the text is all
/// digits and the value is at most `cap` (the characters remaining in the
/// input); `None` when the text is not a digit string or the value overruns.
pub(crate) fn parse_len(d: &Vec<char>, cap: usize) -> (r: Option<usize>)
    ensures
        match r {
            Some(x) => all_digits(d@) && x as int == digits_value(d@) && x <= cap,
            None => !all_digits(d@) || digits_value(d@) > cap,
        },
{
    let mut acc: u128 = 0;
    let mut j: usize = 0;
    while j < d.len()
        invariant
            j <= d@.len(),
            all_digits(d@.subrange(0, j as int)),
            acc as int == digits_value(d@.subrange(0, j as int)),
            acc <= cap,
        decreases d@.len() - j,
    {
        let c = d[j];
        if !('0' <= c && c <= '9') {
            proof {
                assert(!is_ascii_digit(d@[j as int]));
            }
            return None;
        }
        let dv: u128 = (c as u32 as u128) - 48;
        let nv: u128 = acc * 10 + dv;
        proof {
            assert(d@.subrange(0, j + 1 as int).drop_last() =~= d@.subrange(0, j as int));
            assert(all_digits(d@.subrange(0, j + 1 as int)));
        }
        if nv > cap as u128 {
            proof {
                if all_digits(d@) {
                    lemma_digits_value_prefix(d@, j + 1 as int);
                }
            }
            return None;
        }
        acc = nv;
        j = j + 1;
    }
    proof {
        assert(d@.subrange(0, d@.len() as int) =~= d@);
    }
    Some(acc as usize)
}

/// Lexes the whole input from position `start` on.  On success the tokens
/// are exactly the sequence [`spec_lex_from`] names; on bad input the error
/// carries the scan position of the offending tag.
pub fn lex_tokens(v: &Vec<char>, start: usize) -> (r: Result<Vec<AdiToken>, usize>)
    requires
        start <= v@.len(),
    ensures
        match r {
            Ok(toks) => spec_lex_from(v@, start as int) == Some(tokens_view(toks@)),
            Err(p) => spec_lex_from(v@, start as int) is None && start <= p <= v@.len()
                && spec_next_token(v@, p as int) is Fail,
        },
{
    let mut toks: Vec<AdiToken> = Vec::new();
    let mut i = start;
    loop
        invariant
            start <= i <= v@.len(),
            spec_lex_from(v@, start as int) == (match spec_lex_from(v@, i as int) {
                Some(ts) => Some(tokens_view(toks@) + ts),
                None => None::<Seq<TokenModel>>,
            }),
        decreases v@.len() - i,
    {
        proof {
            lemma_next_token_advances(v@, i as int);
        }
        match lex_one(v, i) {
            LexOne::Done => {
                proof {
                    assert(tokens_view(toks@) + Seq::<TokenModel>::empty() =~= tokens_view(
                        toks@,
                    ));
                }
                return Ok(toks);
            },
            LexOne::Fail => {
                return Err(i);
            },
            LexOne::Tok(t, next) => {
                let ghost prev_toks = toks@;
                toks.push(t);
                proof {
                    assert(tokens_view(toks@) =~= tokens_view(prev_toks) + seq![t@]);
                    if let Some(ts) = spec_lex_from(v@, next as int) {
                        assert(tokens_view(prev_toks) + (seq![t@] + ts) =~= tokens_view(toks@)
                            + ts);
                    }
                }
                i = next;
            },
        }
    }
}

/// Performs one specification step at position `i`.
fn lex_one(v: &Vec<char>, i: usize) -> (r: LexOne)
    requires
        i <= v@.len(),
    ensures
        lex_one_matches(r, spec_next_token(v@, i as int)),
{
    let n = v.len();
    proof {
        lemma_find_char(v@, i as int, '<');
    }
    let a = match find_char_at(v, i, '<') {
        None => {
            return LexOne::Done;
        },
        Some(a) => a,
    };
    proof {
        lemma_find_char(v@, a + 1 as int, '>');
    }
    let b = match find_char_at(v, a + 1, '>') {
        None => {
            return LexOne::Fail;
        },
        Some(b) => b,
    };
    let h = copy_range(v, a + 1, b);
    let ghost hs = v@.subrange(a + 1 as int, b as int);
    proof {
        lemma_find_char(hs, 0, ':');
    }
    match find_char_at(&h, 0, ':') {
        None => {
            // No colon: only the two sentinel names are lawful.
            if h.len() == 3 {
                let c0 = to_lower(h[0]);
                let c1 = to_lower(h[1]);
                let c2 = to_lower(h[2]);
                if c0 == 'e' && c1 == 'o' && c2 == 'h' {
                    proof {
                        assert(spec_lower(hs) =~= eoh_name());
                    }
                    return LexOne::Tok(AdiToken::EndOfHeader, b + 1);
                }
                if c0 == 'e' && c1 == 'o' && c2 == 'r' {
                    proof {
                        assert(spec_lower(hs) =~= eor_name());
                    }
                    return LexOne::Tok(AdiToken::EndOfRecord, b + 1);
                }
                proof {
                    assert(spec_lower(hs)[0] == spec_to_lower(hs[0]));
                    assert(spec_lower(hs)[1] == spec_to_lower(hs[1]));
                    assert(spec_lower(hs)[2] == spec_to_lower(hs[2]));
                    assert(spec_lower(hs) != eoh_name());
                    assert(spec_lower(hs) != eor_name());
                }
                return LexOne::Fail;
            }
            proof {
                assert(spec_lower(hs).len() == hs.len());
                assert(spec_lower(hs) != eoh_name());
                assert(spec_lower(hs) != eor_name());
            }
            LexOne::Fail
        },
        Some(c1) => {
            let name_chars = copy_range(&h, 0, c1);
            if name_chars.len() == 0 {
                return LexOne::Fail;
            }
            let rest = copy_range(&h, c1 + 1, h.len());
            let ghost rests = hs.subrange(c1 + 1 as int, hs.len() as int);
            proof {
                lemma_find_char(rests, 0, ':');
            }
            let ghost spec_lenpart = match find_char(rests, 0, ':') {
                None => rests,
                Some(c2) => rests.subrange(0, c2),
            };
            let ghost spec_hint = match find_char(rests, 0, ':') {
                None => None,
                Some(c2) => Some(rests.subrange(c2 + 1, rests.len() as int)),
            };
            let (lenpart, hint_chars) = match find_char_at(&rest, 0, ':') {
                None => (copy_range(&rest, 0, rest.len()), None),
                Some(c2) => (
                    copy_range(&rest, 0, c2),
                    Some(copy_range(&rest, c2 + 1, rest.len())),
                ),
            };
            proof {
                assert(rest@ == rests);
                assert(lenpart@ =~= spec_lenpart);
            }
            if lenpart.len() == 0 {
                return LexOne::Fail;
            }
            let l = match parse_len(&lenpart, v.len() - (b + 1)) {
                None => {
                    return LexOne::Fail;
                },
                Some(l) => l,
            };
            let value_chars = copy_range(v, b + 1, b + 1 + l);
            let name = string_from_chars(name_chars.as_slice());
            let value = string_from_chars(value_chars.as_slice());
            let type_hint = match hint_chars {
                None => None,
                Some(hc) => Some(string_from_chars(hc.as_slice())),
            };
            LexOne::Tok(AdiToken::Field { name, length: l, type_hint, value }, b + 1 + l)
        },
    }
}

} // verus!
