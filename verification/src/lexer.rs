//! Tokenization of assembly source text.
//!
//! The lexical grammar is stated by [`lex_from`]: whitespace and `#`-comments
//! are skipped; `.`-directives are matched literally; a maximal run of
//! identifier characters is classified as a decimal literal, a hexadecimal
//! literal, a mnemonic keyword, or a label identifier; anything else becomes
//! an error token.

use vstd::prelude::*;
use vstd::string::*;
use crate::token::{Span, SpannedToken, SpannedTokenModel, Token, TokenModel};

verus! {

/// Whitespace that separates tokens.
pub open spec fn is_ws_char(c: char) -> bool {
    c == ' ' || c == '\t' || c == '\n' || c == '\r'
}

/// Decimal digits `0` to `9`.
pub open spec fn is_digit_char(c: char) -> bool {
    ('0' as int) <= c as int <= ('9' as int)
}

/// Lower-case hexadecimal digits.
pub open spec fn is_hex_digit_char(c: char) -> bool {
    is_digit_char(c) || ('a' as int) <= c as int <= ('f' as int)
}

/// Characters that may form numbers, keywords and label identifiers.
pub open spec fn is_ident_char(c: char) -> bool {
    is_digit_char(c) || c == '_' || ('a' as int) <= c as int <= ('z' as int) || ('A' as int) <= c
        as int <= ('Z' as int)
}

/// The numeric value of a decimal digit character.
pub open spec fn digit_val(c: char) -> int {
    c as int - ('0' as int)
}

/// The numeric value of a lower-case hexadecimal digit character.
pub open spec fn hex_digit_val(c: char) -> int {
    if is_digit_char(c) {
        c as int - ('0' as int)
    } else {
        c as int - ('a' as int) + 10
    }
}

/// Every character of `s` is a decimal digit.
pub open spec fn all_digit_chars(s: Seq<char>) -> bool {
    forall|k: int| 0 <= k < s.len() ==> is_digit_char(#[trigger] s[k])
}

/// The value of a run of decimal digits, most significant first.
pub open spec fn dec_value(s: Seq<char>) -> int
    decreases s.len(),
{
    if s.len() == 0 {
        0
    } else {
        dec_value(s.drop_last()) * 10 + digit_val(s.last())
    }
}

/// `s` is `0x` followed by one or more lower-case hexadecimal digits.
pub open spec fn hex_form(s: Seq<char>) -> bool {
    s.len() >= 3 && s[0] == '0' && s[1] == 'x' && (forall|k: int|
        2 <= k < s.len() ==> is_hex_digit_char(#[trigger] s[k]))
}

/// The value of a run of hexadecimal digits, most significant first.
pub open spec fn hex_value(s: Seq<char>) -> int
    decreases s.len(),
{
    if s.len() == 0 {
        0
    } else {
        hex_value(s.drop_last()) * 16 + hex_digit_val(s.last())
    }
}

/// The position just past the identifier-character run starting at `i`.
pub open spec fn ident_end(s: Seq<char>, i: int) -> int
    decreases s.len() - i,
{
    if 0 <= i < s.len() && is_ident_char(s[i]) {
        ident_end(s, i + 1)
    } else {
        i
    }
}

/// The position of the first newline at or after `i`, or the end of input.
pub open spec fn line_end(s: Seq<char>, i: int) -> int
    decreases s.len() - i,
{
    if 0 <= i < s.len() && s[i] != '\n' {
        line_end(s, i + 1)
    } else {
        i
    }
}

pub proof fn lemma_ident_end_bounds(s: Seq<char>, i: int)
    requires
        0 <= i <= s.len(),
    ensures
        i <= ident_end(s, i) <= s.len(),
    decreases s.len() - i,
{
    if i < s.len() && is_ident_char(s[i]) {
        lemma_ident_end_bounds(s, i + 1);
    }
}

pub proof fn lemma_line_end_bounds(s: Seq<char>, i: int)
    requires
        0 <= i <= s.len(),
    ensures
        i <= line_end(s, i) <= s.len(),
    decreases s.len() - i,
{
    if i < s.len() && s[i] != '\n' {
        lemma_line_end_bounds(s, i + 1);
    }
}

/// The mnemonic named by `s`, if any.
pub open spec fn keyword_token(s: Seq<char>) -> Option<TokenModel> {
    if s == "add"@ {
        Some(TokenModel::Add)
    } else if s == "addi"@ {
        Some(TokenModel::AddImmediate)
    } else if s == "sub"@ {
        Some(TokenModel::Subtract)
    } else if s == "subi"@ {
        Some(TokenModel::SubtractImmediate)
    } else if s == "mul"@ {
        Some(TokenModel::Multiply)
    } else if s == "muli"@ {
        Some(TokenModel::MultiplyImmediate)
    } else if s == "div"@ {
        Some(TokenModel::Divide)
    } else if s == "divi"@ {
        Some(TokenModel::DivideImmediate)
    } else if s == "rem"@ {
        Some(TokenModel::Remainder)
    } else if s == "remi"@ {
        Some(TokenModel::RemainderImmediate)
    } else if s == "shift"@ {
        Some(TokenModel::Shift)
    } else if s == "and"@ {
        Some(TokenModel::And)
    } else if s == "andi"@ {
        Some(TokenModel::AndImmediate)
    } else if s == "beqz"@ {
        Some(TokenModel::BranchZero)
    } else if s == "br"@ {
        Some(TokenModel::Branch)
    } else if s == "clac"@ {
        Some(TokenModel::ClearAc)
    } else if s == "stor"@ {
        Some(TokenModel::Store)
    } else if s == "noop"@ {
        Some(TokenModel::NoOp)
    } else {
        None
    }
}

/// Classifies one maximal identifier-character run. Decimal literals win,
/// then hexadecimal literals, then mnemonic keywords; everything else is a
/// label identifier. A literal outside the signed 16-bit range cannot be
/// stored in a token and lexes as an error token.
pub open spec fn chunk_token(s: Seq<char>) -> TokenModel {
    if s.len() > 0 && all_digit_chars(s) {
        if dec_value(s) <= 32767 {
            TokenModel::NumLiteral(dec_value(s) as i16)
        } else {
            TokenModel::Error
        }
    } else if hex_form(s) {
        if hex_value(s.subrange(2, s.len() as int)) <= 32767 {
            TokenModel::NumLiteral(hex_value(s.subrange(2, s.len() as int)) as i16)
        } else {
            TokenModel::Error
        }
    } else {
        match keyword_token(s) {
            Some(t) => t,
            None => TokenModel::LabelIdent(s),
        }
    }
}

/// The directive that the text at position `i` spells out, with its end
/// position.
pub open spec fn directive_at(s: Seq<char>, i: int) -> Option<(TokenModel, int)> {
    if i + 5 <= s.len() && s.subrange(i, i + 5) == ".text"@ {
        Some((TokenModel::Text, i + 5))
    } else if i + 5 <= s.len() && s.subrange(i, i + 5) == ".data"@ {
        Some((TokenModel::Data, i + 5))
    } else if i + 6 <= s.len() && s.subrange(i, i + 6) == ".label"@ {
        Some((TokenModel::Label, i + 6))
    } else if i + 7 <= s.len() && s.subrange(i, i + 7) == ".number"@ {
        Some((TokenModel::Number, i + 7))
    } else {
        None
    }
}

/// A spanned token model covering positions `start` to `end`.
pub open spec fn stm(t: TokenModel, start: int, end: int) -> SpannedTokenModel {
    SpannedTokenModel { token: t, span: Span { start: start as usize, end: end as usize } }
}

/// The token sequence produced from position `i` of the source onward.
pub open spec fn lex_from(s: Seq<char>, i: int) -> Seq<SpannedTokenModel>
    decreases s.len() - i,
{
    if !(0 <= i < s.len()) {
        Seq::empty()
    } else if is_ws_char(s[i]) {
        lex_from(s, i + 1)
    } else if s[i] == '#' {
        proof {
            lemma_line_end_bounds(s, i + 1);
        }
        lex_from(s, line_end(s, i + 1))
    } else if s[i] == '.' {
        match directive_at(s, i) {
            Some(d) => seq![stm(d.0, i, d.1)] + lex_from(s, d.1),
            None => seq![stm(TokenModel::Error, i, i + 1)] + lex_from(s, i + 1),
        }
    } else if is_ident_char(s[i]) {
        proof {
            lemma_ident_end_bounds(s, i + 1);
        }
        seq![stm(chunk_token(s.subrange(i, ident_end(s, i))), i, ident_end(s, i))] + lex_from(
            s,
            ident_end(s, i),
        )
    } else {
        seq![stm(TokenModel::Error, i, i + 1)] + lex_from(s, i + 1)
    }
}

/// The mathematical image of a produced token vector.
pub open spec fn toks_view(v: Seq<SpannedToken>) -> Seq<SpannedTokenModel> {
    v.map_values(|t: SpannedToken| t@)
}

proof fn lemma_toks_view_push(v: Seq<SpannedToken>, t: SpannedToken)
    ensures
        toks_view(v.push(t)) =~= toks_view(v).push(t@),
{
}

fn is_ws(c: char) -> (r: bool)
    ensures
        r == is_ws_char(c),
{
    c == ' ' || c == '\t' || c == '\n' || c == '\r'
}

fn is_digit(c: char) -> (r: bool)
    ensures
        r == is_digit_char(c),
{
    let u = c as u32;
    48 <= u && u <= 57
}

fn is_hex_digit(c: char) -> (r: bool)
    ensures
        r == is_hex_digit_char(c),
{
    let u = c as u32;
    (48 <= u && u <= 57) || (97 <= u && u <= 102)
}

fn is_ident(c: char) -> (r: bool)
    ensures
        r == is_ident_char(c),
{
    let u = c as u32;
    (48 <= u && u <= 57) || u == 95 || (97 <= u && u <= 122) || (65 <= u && u <= 90)
}

/// Whether two string slices spell the same characters.
fn str_eq(a: &str, b: &str) -> (r: bool)
    ensures
        r == (a@ == b@),
{
    let x = a.to_owned();
    let y = b.to_owned();
    x == y
}

fn check_all_digits(s: &str) -> (r: bool)
    ensures
        r == (s@.len() > 0 && all_digit_chars(s@)),
{
    let n = s.unicode_len();
    if n == 0 {
        return false;
    }
    let mut j: usize = 0;
    while j < n
        invariant
            n == s@.len(),
            j <= n,
            forall|k: int| 0 <= k < j ==> is_digit_char(#[trigger] s@[k]),
        decreases n - j,
    {
        let c = s.get_char(j);
        if !is_digit(c) {
            return false;
        }
        j = j + 1;
    }
    true
}

fn check_hex_form(s: &str) -> (r: bool)
    ensures
        r == hex_form(s@),
{
    let n = s.unicode_len();
    if n < 3 {
        return false;
    }
    if s.get_char(0) != '0' {
        return false;
    }
    if s.get_char(1) != 'x' {
        return false;
    }
    let mut j: usize = 2;
    while j < n
        invariant
            n == s@.len(),
            2 <= j <= n,
            forall|k: int| 2 <= k < j ==> is_hex_digit_char(#[trigger] s@[k]),
        decreases n - j,
    {
        let c = s.get_char(j);
        if !is_hex_digit(c) {
            return false;
        }
        j = j + 1;
    }
    true
}

proof fn lemma_dec_value_step(s: Seq<char>, j: int)
    requires
        0 <= j < s.len(),
    ensures
        dec_value(s.subrange(0, j + 1)) == dec_value(s.subrange(0, j)) * 10 + digit_val(s[j]),
{
    assert(s.subrange(0, j + 1).drop_last() =~= s.subrange(0, j));
    assert(s.subrange(0, j + 1).last() == s[j]);
}

proof fn lemma_dec_value_nonneg(s: Seq<char>, j: int)
    requires
        all_digit_chars(s),
        0 <= j <= s.len(),
    ensures
        dec_value(s.subrange(0, j)) >= 0,
    decreases j,
{
    if j > 0 {
        lemma_dec_value_nonneg(s, j - 1);
        lemma_dec_value_step(s, j - 1);
        assert(is_digit_char(s[j - 1]));
    }
}

proof fn lemma_dec_value_prefix_le(s: Seq<char>, j: int)
    requires
        all_digit_chars(s),
        0 <= j <= s.len(),
    ensures
        dec_value(s.subrange(0, j)) <= dec_value(s),
    decreases s.len() - j,
{
    if j == s.len() {
        assert(s.subrange(0, j) =~= s);
    } else {
        lemma_dec_value_step(s, j);
        lemma_dec_value_nonneg(s, j);
        assert(is_digit_char(s[j]));
        lemma_dec_value_prefix_le(s, j + 1);
    }
}

proof fn lemma_hex_value_step(s: Seq<char>, j: int)
    requires
        2 <= j < s.len(),
    ensures
        hex_value(s.subrange(2, j + 1)) == hex_value(s.subrange(2, j)) * 16 + hex_digit_val(s[j]),
{
    assert(s.subrange(2, j + 1).drop_last() =~= s.subrange(2, j));
    assert(s.subrange(2, j + 1).last() == s[j]);
}

proof fn lemma_hex_value_nonneg(s: Seq<char>, j: int)
    requires
        hex_form(s),
        2 <= j <= s.len(),
    ensures
        hex_value(s.subrange(2, j)) >= 0,
    decreases j,
{
    if j > 2 {
        lemma_hex_value_nonneg(s, j - 1);
        lemma_hex_value_step(s, j - 1);
        assert(is_hex_digit_char(s[j - 1]));
    }
}

proof fn lemma_hex_value_prefix_le(s: Seq<char>, j: int)
    requires
        hex_form(s),
        2 <= j <= s.len(),
    ensures
        hex_value(s.subrange(2, j)) <= hex_value(s.subrange(2, s.len() as int)),
    decreases s.len() - j,
{
    if j == s.len() {
    } else {
        lemma_hex_value_step(s, j);
        lemma_hex_value_nonneg(s, j);
        assert(is_hex_digit_char(s[j]));
        lemma_hex_value_prefix_le(s, j + 1);
    }
}

/// The value of an all-digit chunk, or `None` when it exceeds the signed
/// 16-bit range.
fn dec_chunk_value(s: &str) -> (r: Option<i16>)
    requires
        s@.len() > 0,
        all_digit_chars(s@),
    ensures
        match r {
            Some(v) => dec_value(s@) <= 32767 && v as int == dec_value(s@),
            None => dec_value(s@) > 32767,
        },
{
    let n = s.unicode_len();
    let mut acc: u32 = 0;
    let mut j: usize = 0;
    while j < n
        invariant
            n == s@.len(),
            j <= n,
            all_digit_chars(s@),
            acc as int == dec_value(s@.subrange(0, j as int)),
            acc <= 32767,
        decreases n - j,
    {
        let c = s.get_char(j);
        proof {
            assert(is_digit_char(s@[j as int]));
        }
        let d: u32 = (c as u32) - 48;
        let nv: u32 = acc * 10 + d;
        proof {
            lemma_dec_value_step(s@, j as int);
        }
        if nv > 32767 {
            proof {
                lemma_dec_value_prefix_le(s@, j as int + 1);
            }
            return None;
        }
        acc = nv;
        j = j + 1;
    }
    proof {
        assert(s@.subrange(0, n as int) =~= s@);
    }
    Some(acc as i16)
}

/// The value of a `0x` chunk, or `None` when it exceeds the signed 16-bit
/// range.
fn hex_chunk_value(s: &str) -> (r: Option<i16>)
    requires
        hex_form(s@),
    ensures
        match r {
            Some(v) => hex_value(s@.subrange(2, s@.len() as int)) <= 32767 && v as int == hex_value(
                s@.subrange(2, s@.len() as int),
            ),
            None => hex_value(s@.subrange(2, s@.len() as int)) > 32767,
        },
{
    let n = s.unicode_len();
    let mut acc: u32 = 0;
    let mut j: usize = 2;
    proof {
        assert(s@.subrange(2, 2) =~= Seq::<char>::empty());
    }
    while j < n
        invariant
            n == s@.len(),
            2 <= j <= n,
            hex_form(s@),
            acc as int == hex_value(s@.subrange(2, j as int)),
            acc <= 32767,
        decreases n - j,
    {
        let c = s.get_char(j);
        proof {
            assert(is_hex_digit_char(s@[j as int]));
        }
        let u = c as u32;
        let d: u32 = if u <= 57 {
            u - 48
        } else {
            u - 87
        };
        let nv: u32 = acc * 16 + d;
        proof {
            lemma_hex_value_step(s@, j as int);
        }
        if nv > 32767 {
            proof {
                lemma_hex_value_prefix_le(s@, j as int + 1);
            }
            return None;
        }
        acc = nv;
        j = j + 1;
    }
    Some(acc as i16)
}

/// Classifies one maximal identifier-character run as a token.
fn classify_chunk(s: &str) -> (t: Token)
    ensures
        t@ == chunk_token(s@),
{
    if check_all_digits(s) {
        match dec_chunk_value(s) {
            Some(v) => Token::NumLiteral(v),
            None => Token::Error,
        }
    } else if check_hex_form(s) {
        match hex_chunk_value(s) {
            Some(v) => Token::NumLiteral(v),
            None => Token::Error,
        }
    } else if str_eq(s, "add") {
        Token::Add
    } else if str_eq(s, "addi") {
        Token::AddImmediate
    } else if str_eq(s, "sub") {
        Token::Subtract
    } else if str_eq(s, "subi") {
        Token::SubtractImmediate
    } else if str_eq(s, "mul") {
        Token::Multiply
    } else if str_eq(s, "muli") {
        Token::MultiplyImmediate
    } else if str_eq(s, "div") {
        Token::Divide
    } else if str_eq(s, "divi") {
        Token::DivideImmediate
    } else if str_eq(s, "rem") {
        Token::Remainder
    } else if str_eq(s, "remi") {
        Token::RemainderImmediate
    } else if str_eq(s, "shift") {
        Token::Shift
    } else if str_eq(s, "and") {
        Token::And
    } else if str_eq(s, "andi") {
        Token::AndImmediate
    } else if str_eq(s, "beqz") {
        Token::BranchZero
    } else if str_eq(s, "br") {
        Token::Branch
    } else if str_eq(s, "clac") {
        Token::ClearAc
    } else if str_eq(s, "stor") {
        Token::Store
    } else if str_eq(s, "noop") {
        Token::NoOp
    } else {
        Token::LabelIdent(s.to_owned())
    }
}

fn push_tok(toks: &mut Vec<SpannedToken>, t: Token, start: usize, end: usize)
    ensures
        toks_view(final(toks)@) == toks_view(old(toks)@).push(stm(t@, start as int, end as int)),
{
    let ghost pre = toks@;
    let st = SpannedToken { token: t, span: Span { start, end } };
    toks.push(st);
    proof {
        lemma_toks_view_push(pre, st);
        assert(toks_view(toks@) =~= toks_view(pre).push(stm(st.token@, start as int, end as int)));
    }
}

/// Turns the whole source text into its token sequence.
pub fn lex(input: &str) -> (r: Vec<SpannedToken>)
    ensures
        toks_view(r@) == lex_from(input@, 0),
{
    let n = input.unicode_len();
    let mut toks: Vec<SpannedToken> = Vec::new();
    let mut i: usize = 0;
    proof {
        assert(toks_view(toks@) + lex_from(input@, 0) =~= lex_from(input@, 0));
    }
    while i < n
        invariant
            n == input@.len(),
            i <= n,
            toks_view(toks@) + lex_from(input@, i as int) == lex_from(input@, 0),
        decreases n - i,
    {
        let ghost s = input@;
        let ghost i0 = i as int;
        let ghost pre = toks@;
        let c = input.get_char(i);
        if is_ws(c) {
            i = i + 1;
        } else if c == '#' {
            let mut j: usize = i + 1;
            proof {
                lemma_line_end_bounds(s, i0 + 1);
            }
            while j < n
                invariant
                    s == input@,
                    n == s.len(),
                    i0 < j <= n,
                    line_end(s, i0 + 1) == line_end(s, j as int),
                ensures
                    i0 < j <= n,
                    line_end(s, i0 + 1) == j as int,
                decreases n - j,
            {
                let cj = input.get_char(j);
                if cj == '\n' {
                    break ;
                }
                j = j + 1;
            }
            i = j;
        } else if c == '.' {
            let tok: Token;
            let e: usize;
            if n - i >= 5 && str_eq(input.substring_char(i, i + 5), ".text") {
                tok = Token::Text;
                e = i + 5;
            } else if n - i >= 5 && str_eq(input.substring_char(i, i + 5), ".data") {
                tok = Token::Data;
                e = i + 5;
            } else if n - i >= 6 && str_eq(input.substring_char(i, i + 6), ".label") {
                tok = Token::Label;
                e = i + 6;
            } else if n - i >= 7 && str_eq(input.substring_char(i, i + 7), ".number") {
                tok = Token::Number;
                e = i + 7;
            } else {
                tok = Token::Error;
                e = i + 1;
            }
            proof {
                assert(lex_from(s, i0) == seq![stm(tok@, i0, e as int)] + lex_from(s, e as int));
            }
            push_tok(&mut toks, tok, i, e);
            proof {
                assert(toks_view(toks@) + lex_from(s, e as int) =~= toks_view(pre) + lex_from(
                    s,
                    i0,
                ));
            }
            i = e;
        } else if is_ident(c) {
            let mut j: usize = i + 1;
            proof {
                assert(ident_end(s, i0) == ident_end(s, i0 + 1));
                lemma_ident_end_bounds(s, i0 + 1);
            }
            while j < n
                invariant
                    s == input@,
                    n == s.len(),
                    i0 < j <= n,
                    ident_end(s, i0) == ident_end(s, j as int),
                ensures
                    i0 < j <= n,
                    ident_end(s, i0) == j as int,
                decreases n - j,
            {
                let cj = input.get_char(j);
                if !is_ident(cj) {
                    break ;
                }
                j = j + 1;
            }
            let chunk = input.substring_char(i, j);
            let tok = classify_chunk(chunk);
            proof {
                assert(lex_from(s, i0) == seq![stm(tok@, i0, j as int)] + lex_from(s, j as int));
            }
            push_tok(&mut toks, tok, i, j);
            proof {
                assert(toks_view(toks@) + lex_from(s, j as int) =~= toks_view(pre) + lex_from(
                    s,
                    i0,
                ));
            }
            i = j;
        } else {
            proof {
                assert(lex_from(s, i0) == seq![stm(TokenModel::Error, i0, i0 + 1)] + lex_from(
                    s,
                    i0 + 1,
                ));
            }
            push_tok(&mut toks, Token::Error, i, i + 1);
            proof {
                assert(toks_view(toks@) + lex_from(s, i0 + 1) =~= toks_view(pre) + lex_from(
                    s,
                    i0,
                ));
            }
            i = i + 1;
        }
    }
    proof {
        assert(toks_view(toks@) + lex_from(input@, n as int) =~= toks_view(toks@));
    }
    toks
}

} // verus!
