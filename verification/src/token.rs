//! Lexical tokens of the assembly language, with their source locations.

use vstd::prelude::*;

verus! {

/// A half-open range of character positions locating a token in the source.
#[derive(Debug, Clone, Copy, PartialEq, Eq, Structural)]
pub struct Span {
    pub start: usize,
    pub end: usize,
}

/// A classified lexical unit: a section or directive marker, a numeric
/// literal, a label identifier, one of the 17 mnemonics, or an error token
/// standing for an un-lexable piece of input.
#[derive(Debug, Clone, PartialEq)]
pub enum Token {
    Text,
    Data,
    Label,
    Number,
    NumLiteral(i16),
    LabelIdent(String),
    Add,
    AddImmediate,
    Subtract,
    SubtractImmediate,
    Multiply,
    MultiplyImmediate,
    Divide,
    DivideImmediate,
    Remainder,
    RemainderImmediate,
    Shift,
    And,
    AndImmediate,
    BranchZero,
    Branch,
    ClearAc,
    Store,
    NoOp,
    Error,
}

/// The mathematical image of a [`Token`]: identical shape, with the label
/// payload abstracted to a sequence of characters.
pub enum TokenModel {
    Text,
    Data,
    Label,
    Number,
    NumLiteral(i16),
    LabelIdent(Seq<char>),
    Add,
    AddImmediate,
    Subtract,
    SubtractImmediate,
    Multiply,
    MultiplyImmediate,
    Divide,
    DivideImmediate,
    Remainder,
    RemainderImmediate,
    Shift,
    And,
    AndImmediate,
    BranchZero,
    Branch,
    ClearAc,
    Store,
    NoOp,
    Error,
}

impl View for Token {
    type V = TokenModel;

    open spec fn view(&self) -> TokenModel {
        match self {
            Token::Text => TokenModel::Text,
            Token::Data => TokenModel::Data,
            Token::Label => TokenModel::Label,
            Token::Number => TokenModel::Number,
            Token::NumLiteral(i) => TokenModel::NumLiteral(*i),
            Token::LabelIdent(s) => TokenModel::LabelIdent(s@),
            Token::Add => TokenModel::Add,
            Token::AddImmediate => TokenModel::AddImmediate,
            Token::Subtract => TokenModel::Subtract,
            Token::SubtractImmediate => TokenModel::SubtractImmediate,
            Token::Multiply => TokenModel::Multiply,
            Token::MultiplyImmediate => TokenModel::MultiplyImmediate,
            Token::Divide => TokenModel::Divide,
            Token::DivideImmediate => TokenModel::DivideImmediate,
            Token::Remainder => TokenModel::Remainder,
            Token::RemainderImmediate => TokenModel::RemainderImmediate,
            Token::Shift => TokenModel::Shift,
            Token::And => TokenModel::And,
            Token::AndImmediate => TokenModel::AndImmediate,
            Token::BranchZero => TokenModel::BranchZero,
            Token::Branch => TokenModel::Branch,
            Token::ClearAc => TokenModel::ClearAc,
            Token::Store => TokenModel::Store,
            Token::NoOp => TokenModel::NoOp,
            Token::Error => TokenModel::Error,
        }
    }
}

/// A token together with the span of source text it was read from.
#[derive(Debug, Clone, PartialEq)]
pub struct SpannedToken {
    pub token: Token,
    pub span: Span,
}

/// The mathematical image of a [`SpannedToken`].
pub struct SpannedTokenModel {
    pub token: TokenModel,
    pub span: Span,
}

impl View for SpannedToken {
    type V = SpannedTokenModel;

    open spec fn view(&self) -> SpannedTokenModel {
        SpannedTokenModel { token: self.token@, span: self.span }
    }
}

/// The decimal digit character for `d` (meaningful for `0 <= d <= 9`).
pub open spec fn digit_char(d: int) -> char {
    if d == 0 {
        '0'
    } else if d == 1 {
        '1'
    } else if d == 2 {
        '2'
    } else if d == 3 {
        '3'
    } else if d == 4 {
        '4'
    } else if d == 5 {
        '5'
    } else if d == 6 {
        '6'
    } else if d == 7 {
        '7'
    } else if d == 8 {
        '8'
    } else {
        '9'
    }
}

/// The decimal digits of `n` without a leading zero; empty for `n <= 0`.
pub open spec fn dec_digits(n: int) -> Seq<char>
    decreases n,
{
    if n <= 0 {
        Seq::empty()
    } else {
        dec_digits(n / 10).push(digit_char(n % 10))
    }
}

/// The usual decimal rendering of the integer `i`, sign included.
pub open spec fn dec_string(i: int) -> Seq<char> {
    if i == 0 {
        seq!['0']
    } else if i > 0 {
        dec_digits(i)
    } else {
        seq!['-'] + dec_digits(-i)
    }
}

/// The text a token shows in diagnostics: the keyword itself for fixed
/// tokens, the identifier for labels, the decimal value for literals.
pub open spec fn token_text_model(t: TokenModel) -> Seq<char> {
    match t {
        TokenModel::Text => ".text"@,
        TokenModel::Data => ".data"@,
        TokenModel::Label => ".label"@,
        TokenModel::Number => ".number"@,
        TokenModel::NumLiteral(i) => dec_string(i as int),
        TokenModel::LabelIdent(s) => s,
        TokenModel::Add => "add"@,
        TokenModel::AddImmediate => "addi"@,
        TokenModel::Subtract => "sub"@,
        TokenModel::SubtractImmediate => "subi"@,
        TokenModel::Multiply => "mul"@,
        TokenModel::MultiplyImmediate => "muli"@,
        TokenModel::Divide => "div"@,
        TokenModel::DivideImmediate => "divi"@,
        TokenModel::Remainder => "rem"@,
        TokenModel::RemainderImmediate => "remi"@,
        TokenModel::Shift => "shift"@,
        TokenModel::And => "and"@,
        TokenModel::AndImmediate => "andi"@,
        TokenModel::BranchZero => "beqz"@,
        TokenModel::Branch => "br"@,
        TokenModel::ClearAc => "clac"@,
        TokenModel::Store => "stor"@,
        TokenModel::NoOp => "noop"@,
        TokenModel::Error => "Error"@,
    }
}

/// A one-character string for the decimal digit `d`.
pub fn digit_str(d: u16) -> (r: &'static str)
    requires
        d < 10,
    ensures
        r@ == seq![digit_char(d as int)],
{
    let r: &'static str = if d == 0 {
        "0"
    } else if d == 1 {
        "1"
    } else if d == 2 {
        "2"
    } else if d == 3 {
        "3"
    } else if d == 4 {
        "4"
    } else if d == 5 {
        "5"
    } else if d == 6 {
        "6"
    } else if d == 7 {
        "7"
    } else if d == 8 {
        "8"
    } else {
        "9"
    };
    proof {
        reveal_strlit("0");
        reveal_strlit("1");
        reveal_strlit("2");
        reveal_strlit("3");
        reveal_strlit("4");
        reveal_strlit("5");
        reveal_strlit("6");
        reveal_strlit("7");
        reveal_strlit("8");
        reveal_strlit("9");
        assert(r@ =~= seq![digit_char(d as int)]);
    }
    r
}

/// The decimal digits of a positive number, most significant first.
fn pos_dec_string(n: u16) -> (r: String)
    requires
        n > 0,
    ensures
        r@ == dec_digits(n as int),
    decreases n,
{
    let d = n % 10;
    let q = n / 10;
    let ds = digit_str(d);
    if q == 0 {
        let r = ds.to_owned();
        proof {
            assert(dec_digits(n as int) =~= dec_digits(q as int).push(digit_char(d as int)));
            assert(r@ =~= dec_digits(n as int));
        }
        r
    } else {
        let prefix = pos_dec_string(q);
        let r = prefix.concat(ds);
        proof {
            assert(dec_digits(n as int) =~= dec_digits(q as int).push(digit_char(d as int)));
            assert(r@ =~= dec_digits(n as int));
        }
        r
    }
}

/// Renders a signed 16-bit integer in decimal, as diagnostics show it.
pub fn i16_to_string(i: i16) -> (r: String)
    ensures
        r@ == dec_string(i as int),
{
    if i == 0 {
        let r = "0".to_owned();
        proof {
            reveal_strlit("0");
            assert(r@ =~= dec_string(i as int));
        }
        r
    } else if i > 0 {
        pos_dec_string(i as u16)
    } else {
        let mag: u16 = (-(i as i32)) as u16;
        let digits = pos_dec_string(mag);
        let r = "-".to_owned().concat(digits.as_str());
        proof {
            reveal_strlit("-");
            assert(r@ =~= dec_string(i as int));
        }
        r
    }
}

impl Token {
    /// The diagnostic text for this token.
    pub fn text(&self) -> (r: String)
        ensures
            r@ == token_text_model(self@),
    {
        match self {
            Token::Text => ".text".to_owned(),
            Token::Data => ".data".to_owned(),
            Token::Label => ".label".to_owned(),
            Token::Number => ".number".to_owned(),
            Token::NumLiteral(i) => i16_to_string(*i),
            Token::LabelIdent(s) => s.clone(),
            Token::Add => "add".to_owned(),
            Token::AddImmediate => "addi".to_owned(),
            Token::Subtract => "sub".to_owned(),
            Token::SubtractImmediate => "subi".to_owned(),
            Token::Multiply => "mul".to_owned(),
            Token::MultiplyImmediate => "muli".to_owned(),
            Token::Divide => "div".to_owned(),
            Token::DivideImmediate => "divi".to_owned(),
            Token::Remainder => "rem".to_owned(),
            Token::RemainderImmediate => "remi".to_owned(),
            Token::Shift => "shift".to_owned(),
            Token::And => "and".to_owned(),
            Token::AndImmediate => "andi".to_owned(),
            Token::BranchZero => "beqz".to_owned(),
            Token::Branch => "br".to_owned(),
            Token::ClearAc => "clac".to_owned(),
            Token::Store => "stor".to_owned(),
            Token::NoOp => "noop".to_owned(),
            Token::Error => "Error".to_owned(),
        }
    }
}

} // verus!
