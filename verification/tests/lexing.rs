use oneasm::lexer::lex;
use oneasm::token::{i16_to_string, Span, SpannedToken, Token};

fn tokens_of(src: &str) -> Vec<Token> {
    lex(src).into_iter().map(|st| st.token).collect()
}

#[test]
fn directives_and_mnemonics() {
    assert_eq!(
        tokens_of(".text .data .label .number add addi beqz br clac stor noop"),
        vec![
            Token::Text,
            Token::Data,
            Token::Label,
            Token::Number,
            Token::Add,
            Token::AddImmediate,
            Token::BranchZero,
            Token::Branch,
            Token::ClearAc,
            Token::Store,
            Token::NoOp,
        ]
    );
}

#[test]
fn all_alu_mnemonics() {
    assert_eq!(
        tokens_of("sub subi mul muli div divi rem remi and andi shift"),
        vec![
            Token::Subtract,
            Token::SubtractImmediate,
            Token::Multiply,
            Token::MultiplyImmediate,
            Token::Divide,
            Token::DivideImmediate,
            Token::Remainder,
            Token::RemainderImmediate,
            Token::And,
            Token::AndImmediate,
            Token::Shift,
        ]
    );
}

#[test]
fn decimal_and_hex_literals() {
    assert_eq!(
        tokens_of("0 42 32767 0x0 0x1f 0x7fff"),
        vec![
            Token::NumLiteral(0),
            Token::NumLiteral(42),
            Token::NumLiteral(32767),
            Token::NumLiteral(0),
            Token::NumLiteral(31),
            Token::NumLiteral(32767),
        ]
    );
}

#[test]
fn out_of_range_literals_become_error_tokens() {
    assert_eq!(tokens_of("32768"), vec![Token::Error]);
    assert_eq!(tokens_of("0x8000"), vec![Token::Error]);
}

#[test]
fn identifiers_win_over_longer_matches() {
    // A longer identifier-character run swallows a would-be keyword or
    // number: maximal munch.
    assert_eq!(
        tokens_of("addx 12ab 0xFF x_1"),
        vec![
            Token::LabelIdent(String::from("addx")),
            Token::LabelIdent(String::from("12ab")),
            Token::LabelIdent(String::from("0xFF")),
            Token::LabelIdent(String::from("x_1")),
        ]
    );
}

#[test]
fn comments_and_whitespace_are_skipped() {
    assert_eq!(
        tokens_of("# a whole comment line\nnoop # trailing comment\r\n\tclac"),
        vec![Token::NoOp, Token::ClearAc]
    );
}

#[test]
fn stray_characters_become_error_tokens() {
    assert_eq!(tokens_of("-5"), vec![Token::Error, Token::NumLiteral(5)]);
    assert_eq!(
        tokens_of(".foo"),
        vec![Token::Error, Token::LabelIdent(String::from("foo"))]
    );
    assert_eq!(tokens_of("."), vec![Token::Error]);
}

#[test]
fn spans_cover_the_lexed_text() {
    assert_eq!(
        lex(".text add"),
        vec![
            SpannedToken { token: Token::Text, span: Span { start: 0, end: 5 } },
            SpannedToken { token: Token::Add, span: Span { start: 6, end: 9 } },
        ]
    );
}

#[test]
fn directive_prefix_splits_from_suffix() {
    assert_eq!(
        tokens_of(".labelled"),
        vec![Token::Label, Token::LabelIdent(String::from("led"))]
    );
}

#[test]
fn token_text_round_trip() {
    assert_eq!(Token::Text.text(), ".text");
    assert_eq!(Token::Number.text(), ".number");
    assert_eq!(Token::Shift.text(), "shift");
    assert_eq!(Token::NumLiteral(305).text(), "305");
    assert_eq!(Token::NumLiteral(-17).text(), "-17");
    assert_eq!(Token::LabelIdent(String::from("loop_1")).text(), "loop_1");
    assert_eq!(Token::Error.text(), "Error");
}

#[test]
fn i16_rendering() {
    assert_eq!(i16_to_string(0), "0");
    assert_eq!(i16_to_string(7), "7");
    assert_eq!(i16_to_string(32767), "32767");
    assert_eq!(i16_to_string(-1), "-1");
    assert_eq!(i16_to_string(-32768), "-32768");
}
