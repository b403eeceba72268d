//! The tokenizer: one left-to-right scan over the source text, gathering
//! characters into a pending word that is classified when whitespace
//! follows it.  Double quotes delimit string literals (no escapes),
//! semicolons delimit comments, and a newline is appended to the input so
//! the final word is always flushed.
//!
//! A word is classified, in priority order, as: a kind-prefixed numeric
//! literal (`i8_` through `u128_`), a bare unsigned 64-bit integer, a
//! float-shaped literal (always rejected, since this interpreter carries
//! no floats), a lone bracket, or an identifier.
use vstd::prelude::*;
use crate::error::{LexError, LexErrorV};
use crate::number::{NumKind, Number, num_of, in_range, kind_min, kind_max};
use crate::text::{chars_of, string_from_chars};

verus! {

/// A lexical token.
#[derive(Debug, Clone, PartialEq)]
pub enum Token {
    OpenBracket,
    CloseBracket,
    Identifier(String),
    StrLit(String),
    Number(Number),
}

/// Mathematical model of a `Token`.
pub enum TokenV {
    OpenBracket,
    CloseBracket,
    Identifier(Seq<char>),
    StrLit(Seq<char>),
    Number(Number),
}

impl View for Token {
    type V = TokenV;

    open spec fn view(&self) -> TokenV {
        match self {
            Token::OpenBracket => TokenV::OpenBracket,
            Token::CloseBracket => TokenV::CloseBracket,
            Token::Identifier(s) => TokenV::Identifier(s@),
            Token::StrLit(s) => TokenV::StrLit(s@),
            Token::Number(n) => TokenV::Number(*n),
        }
    }
}

/// The views of a token sequence.
pub open spec fn toks_v(s: Seq<Token>) -> Seq<TokenV> {
    Seq::new(s.len(), |i: int| s[i]@)
}

/// The model of a whole lexing outcome.
pub open spec fn toks_res_v(r: Result<Vec<Token>, LexError>) -> Result<Seq<TokenV>, LexErrorV> {
    match r {
        Ok(ts) => Ok(toks_v(ts@)),
        Err(e) => Err(e@),
    }
}

/// The three characters treated as whitespace.
pub open spec fn is_space(c: char) -> bool {
    c == ' ' || c == '\t' || c == '\n'
}

/// Whether `c` is a decimal digit.
pub open spec fn is_digit(c: char) -> bool {
    48 <= c as u32 && c as u32 <= 57
}

/// The value of a digit character.
pub open spec fn digit_val(c: char) -> int {
    c as u32 - 48
}

/// Whether every character of `s` is a decimal digit.
pub open spec fn all_digits(s: Seq<char>) -> bool {
    forall|j: int| 0 <= j < s.len() ==> is_digit(s[j])
}

/// The value of a digit string read in base ten.
pub open spec fn digits_val(s: Seq<char>) -> int
    decreases s.len(),
{
    if s.len() == 0 {
        0
    } else {
        digits_val(s.drop_last()) * 10 + digit_val(s.last())
    }
}

/// A digit string names a value of at least zero.
pub proof fn lemma_digits_val_nonneg(s: Seq<char>)
    requires
        all_digits(s),
    ensures
        digits_val(s) >= 0,
    decreases s.len(),
{
    if s.len() > 0 {
        assert(all_digits(s.drop_last()));
        lemma_digits_val_nonneg(s.drop_last());
    }
}

/// The value of a signed decimal word: an optional sign (`-` only where
/// `allow_neg`) followed by at least one digit; `None` for any other
/// shape.
pub open spec fn text_int_val(s: Seq<char>, allow_neg: bool) -> Option<int> {
    if s.len() >= 1 && (s[0] == '+' || (allow_neg && s[0] == '-')) {
        if s.len() >= 2 && all_digits(s.skip(1)) {
            if s[0] == '-' {
                Some(-digits_val(s.skip(1)))
            } else {
                Some(digits_val(s.skip(1)))
            }
        } else {
            None
        }
    } else if s.len() >= 1 && all_digits(s) {
        Some(digits_val(s))
    } else {
        None
    }
}

/// First index at or past `i` whose character is not a digit (or the
/// length, when digits run to the end).
pub open spec fn digits_end(s: Seq<char>, i: int) -> int
    decreases s.len() - i,
{
    if i < 0 || i >= s.len() {
        i
    } else if is_digit(s[i]) {
        digits_end(s, i + 1)
    } else {
        i
    }
}

/// Shape of `digits_end`: it stays within bounds, covers only digits,
/// and stops at the first non-digit.
pub proof fn lemma_digits_end(s: Seq<char>, i: int)
    requires
        0 <= i <= s.len(),
    ensures
        i <= digits_end(s, i) <= s.len(),
        forall|j: int| i <= j < digits_end(s, i) ==> is_digit(s[j]),
        digits_end(s, i) < s.len() ==> !is_digit(s[digits_end(s, i)]),
    decreases s.len() - i,
{
    if i < s.len() && is_digit(s[i]) {
        lemma_digits_end(s, i + 1);
    }
}

/// Whether `s` has the shape of a decimal floating-point literal: an
/// optional sign, then digits with an optional point (at least one digit
/// on one side of it), then an optional exponent.  The named special
/// values (infinities and the like) are not part of this grammar.
pub open spec fn is_float_syntax(s: Seq<char>) -> bool {
    let i0: int = if s.len() >= 1 && (s[0] == '+' || s[0] == '-') {
        1
    } else {
        0
    };
    let i1 = digits_end(s, i0);
    if i1 < s.len() && s[i1] == '.' {
        let i2 = digits_end(s, i1 + 1);
        (i1 > i0 || i2 > i1 + 1) && exp_ok(s, i2)
    } else {
        i1 > i0 && exp_ok(s, i1)
    }
}

/// Whether `s` from `i` on is empty or a well-formed exponent part.
pub open spec fn exp_ok(s: Seq<char>, i: int) -> bool {
    if i == s.len() {
        true
    } else if 0 <= i < s.len() && (s[i] == 'e' || s[i] == 'E') {
        let j: int = if i + 1 < s.len() && (s[i + 1] == '+' || s[i + 1] == '-') {
            i + 2
        } else {
            i + 1
        };
        j < s.len() && digits_end(s, j) == s.len()
    } else {
        false
    }
}

/// Whether kind `k` admits a minus sign.
pub open spec fn kind_signed(k: NumKind) -> bool {
    match k {
        NumKind::I8 | NumKind::I16 | NumKind::I32 | NumKind::I64 | NumKind::I128 => true,
        _ => false,
    }
}

/// The numeric-kind prefix of a word, with the prefix's length: `i8_`
/// through `u128_`.
pub open spec fn kind_prefix(s: Seq<char>) -> Option<(NumKind, int)> {
    if s.len() >= 3 && s[0] == 'i' && s[1] == '8' && s[2] == '_' {
        Some((NumKind::I8, 3))
    } else if s.len() >= 4 && s[0] == 'i' && s[1] == '1' && s[2] == '6' && s[3] == '_' {
        Some((NumKind::I16, 4))
    } else if s.len() >= 4 && s[0] == 'i' && s[1] == '3' && s[2] == '2' && s[3] == '_' {
        Some((NumKind::I32, 4))
    } else if s.len() >= 4 && s[0] == 'i' && s[1] == '6' && s[2] == '4' && s[3] == '_' {
        Some((NumKind::I64, 4))
    } else if s.len() >= 5 && s[0] == 'i' && s[1] == '1' && s[2] == '2' && s[3] == '8' && s[4]
        == '_' {
        Some((NumKind::I128, 5))
    } else if s.len() >= 3 && s[0] == 'u' && s[1] == '8' && s[2] == '_' {
        Some((NumKind::U8, 3))
    } else if s.len() >= 4 && s[0] == 'u' && s[1] == '1' && s[2] == '6' && s[3] == '_' {
        Some((NumKind::U16, 4))
    } else if s.len() >= 4 && s[0] == 'u' && s[1] == '3' && s[2] == '2' && s[3] == '_' {
        Some((NumKind::U32, 4))
    } else if s.len() >= 4 && s[0] == 'u' && s[1] == '6' && s[2] == '4' && s[3] == '_' {
        Some((NumKind::U64, 4))
    } else if s.len() >= 5 && s[0] == 'u' && s[1] == '1' && s[2] == '2' && s[3] == '8' && s[4]
        == '_' {
        Some((NumKind::U128, 5))
    } else {
        None
    }
}

/// Whether the word carries one of the two floating-point kind prefixes.
pub open spec fn float_prefix(s: Seq<char>) -> bool {
    s.len() >= 4 && s[0] == 'f' && ((s[1] == '3' && s[2] == '2') || (s[1] == '6' && s[2] == '4'))
        && s[3] == '_'
}

/// What a flushed word becomes: a kind-prefixed numeric literal, a bare
/// unsigned 64-bit integer, a rejected float shape, a bracket, or an
/// identifier, tried in that order.
pub open spec fn classify_spec(b: Seq<char>) -> Result<TokenV, LexErrorV> {
    match kind_prefix(b) {
        Some((k, p)) => match text_int_val(b.skip(p), kind_signed(k)) {
            Some(v) => if in_range(k, v) {
                Ok(TokenV::Number(num_of(k, v)))
            } else {
                Err(LexErrorV::BadNumber(b))
            },
            None => Err(LexErrorV::BadNumber(b)),
        },
        None => if float_prefix(b) {
            Err(LexErrorV::FloatUnsupported(b))
        } else {
            match text_int_val(b, false) {
                Some(v) => if v <= u64::MAX as int {
                    Ok(TokenV::Number(num_of(NumKind::U64, v)))
                } else {
                    classify_rest(b)
                },
                None => classify_rest(b),
            }
        },
    }
}

/// The classification of a word that is no numeric literal.
pub open spec fn classify_rest(b: Seq<char>) -> Result<TokenV, LexErrorV> {
    if is_float_syntax(b) {
        Err(LexErrorV::FloatUnsupported(b))
    } else if b.len() == 1 && b[0] == '{' {
        Ok(TokenV::OpenBracket)
    } else if b.len() == 1 && b[0] == '}' {
        Ok(TokenV::CloseBracket)
    } else {
        Ok(TokenV::Identifier(b))
    }
}

/// First index at or past `i` holding character `c`.
pub open spec fn first_at(s: Seq<char>, i: int, c: char) -> Option<int>
    decreases s.len() - i,
{
    if i < 0 || i >= s.len() {
        None
    } else if s[i] == c {
        Some(i)
    } else {
        first_at(s, i + 1, c)
    }
}

/// Shape of `first_at`: a found index lies between `i` and the end,
/// holds `c`, and nothing before it from `i` on does.
pub proof fn lemma_first_at(s: Seq<char>, i: int, c: char)
    requires
        0 <= i,
    ensures
        match first_at(s, i, c) {
            Some(j) => i <= j < s.len() && s[j] == c && (forall|m: int|
                i <= m < j ==> s[m] != c),
            None => forall|m: int| i <= m < s.len() ==> s[m] != c,
        },
    decreases s.len() - i,
{
    if i < s.len() && s[i] != c {
        lemma_first_at(s, i + 1, c);
    }
}

/// One step of the scan: from position `i` with pending word `buf` and
/// tokens `acc` already made, the tokens of the rest of the input.
pub open spec fn lex_rec(s: Seq<char>, i: int, buf: Seq<char>, acc: Seq<TokenV>) -> Result<
    Seq<TokenV>,
    LexErrorV,
>
    decreases s.len() - i,
{
    if i < 0 || i >= s.len() {
        Ok(acc)
    } else {
        let c = s[i];
        if is_space(c) {
            if buf.len() == 0 {
                lex_rec(s, i + 1, buf, acc)
            } else {
                match classify_spec(buf) {
                    Ok(t) => lex_rec(s, i + 1, Seq::empty(), acc.push(t)),
                    Err(e) => Err(e),
                }
            }
        } else if c == '"' {
            match first_at(s, i + 1, '"') {
                None => Err(LexErrorV::UnterminatedString),
                Some(j) => {
                    proof {
                        lemma_first_at(s, i + 1, '"');
                    }
                    lex_rec(
                        s,
                        j + 1,
                        Seq::empty(),
                        acc.push(TokenV::StrLit(buf + s.subrange(i + 1, j))),
                    )
                },
            }
        } else if c == ';' {
            match first_at(s, i + 1, ';') {
                None => Err(LexErrorV::UnterminatedComment),
                Some(j) => {
                    proof {
                        lemma_first_at(s, i + 1, ';');
                    }
                    lex_rec(s, j + 1, buf, acc)
                },
            }
        } else {
            lex_rec(s, i + 1, buf.push(c), acc)
        }
    }
}

/// What lexing a source text yields: the token sequence of the text with
/// one newline appended, scanned from the start with nothing pending.
pub open spec fn lex_spec(s: Seq<char>) -> Result<Seq<TokenV>, LexErrorV> {
    lex_rec(s.push('\n'), 0, Seq::empty(), Seq::empty())
}

/// The model of one classified word.
pub open spec fn lex_res_v(r: Result<Token, LexError>) -> Result<TokenV, LexErrorV> {
    match r {
        Ok(t) => Ok(t@),
        Err(e) => Err(e@),
    }
}

/// Pushing a token commutes with taking token views.
proof fn lemma_toks_push(s: Seq<Token>, t: Token)
    ensures
        toks_v(s.push(t)) == toks_v(s).push(t@),
{
    assert(toks_v(s.push(t)) =~= toks_v(s).push(t@));
}

/// How a word scans as a decimal integer: not one at all, a sign and a
/// magnitude that fits a machine word, or one too large for any kind.
#[derive(Debug, Clone, Copy, PartialEq, Eq, Structural)]
enum IntScan {
    NotInt,
    Fits(bool, u128),
    Huge,
}

/// The scan a word's text calls for.
spec fn spec_scan(s: Seq<char>, allow_neg: bool) -> IntScan {
    match text_int_val(s, allow_neg) {
        None => IntScan::NotInt,
        Some(v) => if v > u128::MAX as int || v < -(u128::MAX as int) {
            IntScan::Huge
        } else if v < 0 {
            IntScan::Fits(true, (-v) as u128)
        } else {
            IntScan::Fits(false, v as u128)
        },
    }
}

/// What a run of characters holds, read as digits.
#[derive(Debug, Clone, Copy, PartialEq, Eq, Structural)]
enum DigitsScan {
    NotAll,
    Val(u128),
    Huge,
}

/// Reads `buf` from `j` to its end as a digit string.
fn scan_digits(buf: &Vec<char>, j: usize) -> (r: DigitsScan)
    requires
        j <= buf@.len(),
    ensures
        match r {
            DigitsScan::NotAll => !all_digits(buf@.skip(j as int)),
            DigitsScan::Val(m) => all_digits(buf@.skip(j as int)) && digits_val(
                buf@.skip(j as int),
            ) == m as int,
            DigitsScan::Huge => all_digits(buf@.skip(j as int)) && digits_val(
                buf@.skip(j as int),
            ) > u128::MAX as int,
        },
{
    let ghost body = buf@.skip(j as int);
    let len = buf.len();
    let mut k: usize = j;
    let mut acc: u128 = 0;
    let mut huge = false;
    while k < len
        invariant
            j <= k <= len,
            len == buf@.len(),
            body == buf@.skip(j as int),
            all_digits(body.take(k - j)),
            !huge ==> acc as int == digits_val(body.take(k - j)),
            huge ==> digits_val(body.take(k - j)) > u128::MAX as int,
        decreases len - k,
    {
        let c = buf[k];
        let d32 = c as u32;
        if d32 < 48 || d32 > 57 {
            proof {
                assert(body[k - j] == buf@[k as int]);
                assert(!is_digit(body[k - j]));
            }
            return DigitsScan::NotAll;
        }
        let d = (d32 - 48) as u128;
        proof {
            assert(body.take(k - j + 1).drop_last() =~= body.take(k - j));
            assert(body.take(k - j + 1).last() == body[k - j]);
            assert(body[k - j] == buf@[k as int]);
            assert(digits_val(body.take(k - j + 1)) == digits_val(body.take(k - j)) * 10
                + digit_val(buf@[k as int]));
        }
        if !huge {
            match acc.checked_mul(10) {
                Some(m) => match m.checked_add(d) {
                    Some(a2) => {
                        acc = a2;
                    },
                    None => {
                        huge = true;
                    },
                },
                None => {
                    huge = true;
                },
            }
        }
        k = k + 1;
    }
    proof {
        assert(body.take(k - j) =~= body);
    }
    if huge {
        DigitsScan::Huge
    } else {
        DigitsScan::Val(acc)
    }
}

/// Scans `buf` from `from` as an optionally signed decimal integer.
fn scan_int(buf: &Vec<char>, from: usize, allow_neg: bool) -> (r: IntScan)
    requires
        from <= buf@.len(),
    ensures
        r == spec_scan(buf@.skip(from as int), allow_neg),
{
    let ghost s = buf@.skip(from as int);
    let len = buf.len();
    if from == len {
        return IntScan::NotInt;
    }
    let c0 = buf[from];
    proof {
        assert(s[0] == buf@[from as int]);
    }
    let mut j: usize = from;
    let mut neg = false;
    if c0 == '+' {
        j = from + 1;
    } else if c0 == '-' {
        if allow_neg {
            neg = true;
            j = from + 1;
        } else {
            return IntScan::NotInt;
        }
    }
    let ghost body = buf@.skip(j as int);
    proof {
        if j != from {
            assert(s.skip(1) =~= body);
        }
    }
    if j == len {
        return IntScan::NotInt;
    }
    let d = scan_digits(buf, j);
    proof {
        if body.len() > 0 && all_digits(body) {
            lemma_digits_val_nonneg(body);
        }
    }
    match d {
        DigitsScan::NotAll => IntScan::NotInt,
        DigitsScan::Huge => IntScan::Huge,
        DigitsScan::Val(m) => IntScan::Fits(neg && m != 0, m),
    }
}

/// Builds the number of kind `k` from a scanned sign and magnitude,
/// when the value fits the kind.
fn num_from_scan(k: NumKind, neg0: bool, mag: u128) -> (r: Option<Number>)
    ensures
        ({
            let v: int = if neg0 {
                -(mag as int)
            } else {
                mag as int
            };
            r == (if in_range(k, v) {
                Some(num_of(k, v))
            } else {
                None::<Number>
            })
        }),
{
    let neg = neg0 && mag != 0;
    match k {
        NumKind::I8 => if neg {
            if mag <= 128 {
                Some(Number::I8((-(mag as i128)) as i8))
            } else {
                None
            }
        } else if mag <= 127 {
            Some(Number::I8(mag as i8))
        } else {
            None
        },
        NumKind::I16 => if neg {
            if mag <= 32768 {
                Some(Number::I16((-(mag as i128)) as i16))
            } else {
                None
            }
        } else if mag <= 32767 {
            Some(Number::I16(mag as i16))
        } else {
            None
        },
        NumKind::I32 => if neg {
            if mag <= 2147483648 {
                Some(Number::I32((-(mag as i128)) as i32))
            } else {
                None
            }
        } else if mag <= 2147483647 {
            Some(Number::I32(mag as i32))
        } else {
            None
        },
        NumKind::I64 => if neg {
            if mag <= 9223372036854775808 {
                Some(Number::I64((-(mag as i128)) as i64))
            } else {
                None
            }
        } else if mag <= 9223372036854775807 {
            Some(Number::I64(mag as i64))
        } else {
            None
        },
        NumKind::I128 => if neg {
            if mag <= i128::MAX as u128 {
                Some(Number::I128(-(mag as i128)))
            } else if mag == (i128::MAX as u128) + 1 {
                Some(Number::I128(i128::MIN))
            } else {
                None
            }
        } else if mag <= i128::MAX as u128 {
            Some(Number::I128(mag as i128))
        } else {
            None
        },
        NumKind::U8 => if neg {
            None
        } else if mag <= 255 {
            Some(Number::U8(mag as u8))
        } else {
            None
        },
        NumKind::U16 => if neg {
            None
        } else if mag <= 65535 {
            Some(Number::U16(mag as u16))
        } else {
            None
        },
        NumKind::U32 => if neg {
            None
        } else if mag <= 4294967295 {
            Some(Number::U32(mag as u32))
        } else {
            None
        },
        NumKind::U64 => if neg {
            None
        } else if mag <= u64::MAX as u128 {
            Some(Number::U64(mag as u64))
        } else {
            None
        },
        NumKind::U128 => if neg {
            None
        } else {
            Some(Number::U128(mag))
        },
    }
}

/// Whether kind `k` admits a minus sign, as a runtime test.
fn kind_signed_x(k: NumKind) -> (r: bool)
    ensures
        r == kind_signed(k),
{
    match k {
        NumKind::I8 | NumKind::I16 | NumKind::I32 | NumKind::I64 | NumKind::I128 => true,
        _ => false,
    }
}

/// The numeric-kind prefix of the word in `buf`, as a runtime scan.
fn kind_prefix_x(buf: &Vec<char>) -> (r: Option<(NumKind, usize)>)
    ensures
        match r {
            Some((k, p)) => kind_prefix(buf@) == Some((k, p as int)) && p <= buf@.len(),
            None => kind_prefix(buf@) is None,
        },
{
    let n = buf.len();
    if n >= 3 && buf[0] == 'i' && buf[1] == '8' && buf[2] == '_' {
        Some((NumKind::I8, 3))
    } else if n >= 4 && buf[0] == 'i' && buf[1] == '1' && buf[2] == '6' && buf[3] == '_' {
        Some((NumKind::I16, 4))
    } else if n >= 4 && buf[0] == 'i' && buf[1] == '3' && buf[2] == '2' && buf[3] == '_' {
        Some((NumKind::I32, 4))
    } else if n >= 4 && buf[0] == 'i' && buf[1] == '6' && buf[2] == '4' && buf[3] == '_' {
        Some((NumKind::I64, 4))
    } else if n >= 5 && buf[0] == 'i' && buf[1] == '1' && buf[2] == '2' && buf[3] == '8' && buf[4]
        == '_' {
        Some((NumKind::I128, 5))
    } else if n >= 3 && buf[0] == 'u' && buf[1] == '8' && buf[2] == '_' {
        Some((NumKind::U8, 3))
    } else if n >= 4 && buf[0] == 'u' && buf[1] == '1' && buf[2] == '6' && buf[3] == '_' {
        Some((NumKind::U16, 4))
    } else if n >= 4 && buf[0] == 'u' && buf[1] == '3' && buf[2] == '2' && buf[3] == '_' {
        Some((NumKind::U32, 4))
    } else if n >= 4 && buf[0] == 'u' && buf[1] == '6' && buf[2] == '4' && buf[3] == '_' {
        Some((NumKind::U64, 4))
    } else if n >= 5 && buf[0] == 'u' && buf[1] == '1' && buf[2] == '2' && buf[3] == '8' && buf[4]
        == '_' {
        Some((NumKind::U128, 5))
    } else {
        None
    }
}

/// Whether the word in `buf` carries a floating-point kind prefix, as a
/// runtime scan.
fn float_prefix_x(buf: &Vec<char>) -> (r: bool)
    ensures
        r == float_prefix(buf@),
{
    let n = buf.len();
    n >= 4 && buf[0] == 'f' && ((buf[1] == '3' && buf[2] == '2') || (buf[1] == '6' && buf[2]
        == '4')) && buf[3] == '_'
}

/// Walks past digits from `i`, as a runtime scan.
fn digits_end_x(buf: &Vec<char>, i: usize) -> (r: usize)
    requires
        i <= buf@.len(),
    ensures
        r as int == digits_end(buf@, i as int),
        i <= r <= buf@.len(),
{
    let len = buf.len();
    let mut j: usize = i;
    while j < len
        invariant
            i <= j <= len,
            len == buf@.len(),
            digits_end(buf@, i as int) == digits_end(buf@, j as int),
        decreases len - j,
    {
        let d32 = buf[j] as u32;
        if d32 < 48 || d32 > 57 {
            proof {
                lemma_digits_end(buf@, i as int);
            }
            return j;
        }
        j = j + 1;
    }
    proof {
        lemma_digits_end(buf@, i as int);
    }
    j
}

/// Whether the exponent part starting at `i` is empty or well formed,
/// as a runtime scan.
fn exp_ok_x(buf: &Vec<char>, i: usize) -> (r: bool)
    requires
        i <= buf@.len(),
    ensures
        r == exp_ok(buf@, i as int),
{
    let len = buf.len();
    if i == len {
        true
    } else {
        let c = buf[i];
        if c == 'e' || c == 'E' {
            let j: usize = if i + 1 < len && (buf[i + 1] == '+' || buf[i + 1] == '-') {
                i + 2
            } else {
                i + 1
            };
            if j < len {
                let e = digits_end_x(buf, j);
                e == len
            } else {
                false
            }
        } else {
            false
        }
    }
}

/// Whether the word in `buf` is shaped like a float literal, as a
/// runtime scan.
fn float_syntax_x(buf: &Vec<char>) -> (r: bool)
    ensures
        r == is_float_syntax(buf@),
{
    let len = buf.len();
    let i0: usize = if len >= 1 && (buf[0] == '+' || buf[0] == '-') {
        1
    } else {
        0
    };
    let i1 = digits_end_x(buf, i0);
    if i1 < len && buf[i1] == '.' {
        let i2 = digits_end_x(buf, i1 + 1);
        (i1 > i0 || i2 > i1 + 1) && exp_ok_x(buf, i2)
    } else {
        i1 > i0 && exp_ok_x(buf, i1)
    }
}

/// Classifies a word that is no numeric literal: a rejected float shape,
/// a lone bracket, or an identifier.
fn classify_rest_x(buf: &Vec<char>) -> (r: Result<Token, LexError>)
    ensures
        lex_res_v(r) == classify_rest(buf@),
{
    if float_syntax_x(buf) {
        Err(LexError::FloatUnsupported(string_from_chars(buf)))
    } else if buf.len() == 1 && buf[0] == '{' {
        Ok(Token::OpenBracket)
    } else if buf.len() == 1 && buf[0] == '}' {
        Ok(Token::CloseBracket)
    } else {
        Ok(Token::Identifier(string_from_chars(buf)))
    }
}

/// Classifies one flushed word.
fn classify_word(buf: &Vec<char>) -> (r: Result<Token, LexError>)
    ensures
        lex_res_v(r) == classify_spec(buf@),
{
    match kind_prefix_x(buf) {
        Some((k, p)) => {
            let sgn = kind_signed_x(k);
            match scan_int(buf, p, sgn) {
                IntScan::Fits(neg, mag) => match num_from_scan(k, neg, mag) {
                    Some(n) => Ok(Token::Number(n)),
                    None => Err(LexError::BadNumber(string_from_chars(buf))),
                },
                IntScan::Huge => {
                    proof {
                        assert(kind_max(k) <= u128::MAX as int);
                        assert(kind_min(k) >= -(u128::MAX as int));
                    }
                    Err(LexError::BadNumber(string_from_chars(buf)))
                },
                IntScan::NotInt => Err(LexError::BadNumber(string_from_chars(buf))),
            }
        },
        None => {
            if float_prefix_x(buf) {
                Err(LexError::FloatUnsupported(string_from_chars(buf)))
            } else {
                match scan_int(buf, 0, false) {
                    IntScan::Fits(neg, mag) => {
                        proof {
                            assert(buf@.skip(0) =~= buf@);
                            let b = buf@;
                            if b.len() >= 1 && b[0] == '+' {
                                if b.len() >= 2 && all_digits(b.skip(1)) {
                                    lemma_digits_val_nonneg(b.skip(1));
                                }
                            } else if b.len() >= 1 && all_digits(b) {
                                lemma_digits_val_nonneg(b);
                            }
                        }
                        if !neg && mag <= u64::MAX as u128 {
                            Ok(Token::Number(Number::U64(mag as u64)))
                        } else {
                            classify_rest_x(buf)
                        }
                    },
                    IntScan::Huge => {
                        proof {
                            assert(buf@.skip(0) =~= buf@);
                            let b = buf@;
                            if b.len() >= 1 && b[0] == '+' {
                                if b.len() >= 2 && all_digits(b.skip(1)) {
                                    lemma_digits_val_nonneg(b.skip(1));
                                }
                            } else if b.len() >= 1 && all_digits(b) {
                                lemma_digits_val_nonneg(b);
                            }
                        }
                        classify_rest_x(buf)
                    },
                    IntScan::NotInt => {
                        proof {
                            assert(buf@.skip(0) =~= buf@);
                        }
                        classify_rest_x(buf)
                    },
                }
            }
        },
    }
}

/// Lexes a whole source text into tokens, or reports the first lexical
/// fault.  The result is exactly what the specification-level scan
/// `lex_spec` names for this text.
pub fn lex(text: String) -> (r: Result<Vec<Token>, LexError>)
    ensures
        toks_res_v(r) == lex_spec(text@),
{
    let mut cs = chars_of(text.as_str());
    cs.push('\n');
    let ghost full = cs@;
    let mut out: Vec<Token> = Vec::new();
    let mut buf: Vec<char> = Vec::new();
    let mut i: usize = 0;
    proof {
        assert(toks_v(out@) =~= Seq::<TokenV>::empty());
    }
    while i < cs.len()
        invariant
            i <= cs@.len(),
            cs@ == full,
            full == text@.push('\n'),
            lex_rec(full, i as int, buf@, toks_v(out@)) == lex_rec(
                full,
                0,
                Seq::empty(),
                Seq::empty(),
            ),
        decreases cs@.len() - i,
    {
        let c = cs[i];
        if c == ' ' || c == '\t' || c == '\n' {
            if buf.len() == 0 {
                i = i + 1;
            } else {
                match classify_word(&buf) {
                    Ok(t) => {
                        proof {
                            lemma_toks_push(out@, t);
                        }
                        out.push(t);
                        buf = Vec::new();
                        i = i + 1;
                    },
                    Err(e) => {
                        return Err(e);
                    },
                }
            }
        } else if c == '"' {
            let mut j: usize = i + 1;
            while j < cs.len() && cs[j] != '"'
                invariant
                    i + 1 <= j <= cs@.len(),
                    cs@ == full,
                    first_at(full, i as int + 1, '"') == first_at(full, j as int, '"'),
                decreases cs@.len() - j,
            {
                j = j + 1;
            }
            if j == cs.len() {
                return Err(LexError::UnterminatedString);
            }
            let ghost buf0 = buf@;
            let mut m: usize = i + 1;
            while m < j
                invariant
                    i + 1 <= m <= j <= cs@.len(),
                    cs@ == full,
                    buf@ == buf0 + full.subrange(i as int + 1, m as int),
                decreases j - m,
            {
                proof {
                    assert(buf0 + full.subrange(i as int + 1, m as int + 1) =~= (buf0
                        + full.subrange(i as int + 1, m as int)).push(full[m as int]));
                }
                buf.push(cs[m]);
                m = m + 1;
            }
            let t = Token::StrLit(string_from_chars(&buf));
            proof {
                lemma_toks_push(out@, t);
            }
            out.push(t);
            buf = Vec::new();
            i = j + 1;
        } else if c == ';' {
            let mut j: usize = i + 1;
            while j < cs.len() && cs[j] != ';'
                invariant
                    i + 1 <= j <= cs@.len(),
                    cs@ == full,
                    first_at(full, i as int + 1, ';') == first_at(full, j as int, ';'),
                decreases cs@.len() - j,
            {
                j = j + 1;
            }
            if j == cs.len() {
                return Err(LexError::UnterminatedComment);
            }
            i = j + 1;
        } else {
            buf.push(c);
            i = i + 1;
        }
    }
    Ok(out)
}

} // verus!
