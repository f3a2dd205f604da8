use oneasm::instructions::AddressedInstruction;
use oneasm::parser::{AddressedProgram, ParseError, Parser};
use oneasm::token::{Span, SpannedToken, Token};

fn assemble(src: &str) -> Result<AddressedProgram, ParseError> {
    let mut parser = Parser::parse(src)?;
    parser.address_program()
}

#[test]
fn end_to_end_scenario() {
    let src = ".data\n .label X\n .number 5\n .number 7\n.text\n add X\n clac\n";
    let program = assemble(src).unwrap();
    assert_eq!(program.data_bytes(), vec![0x00, 0x05, 0x00, 0x07]);
    assert_eq!(program.assemble_text(), vec![0x20, 0x00, 0x30, 0x00]);
}

#[test]
fn byte_lengths_are_twice_the_stream_lengths() {
    let src = ".data\n.label a\n.number 1\n.number 2\n.number 3\n.text\nnoop\nclac\nstor a\n";
    let program = assemble(src).unwrap();
    assert_eq!(program.text.len(), 3);
    assert_eq!(program.data.len(), 3);
    assert_eq!(program.assemble_text().len(), 2 * program.text.len());
    assert_eq!(program.data_bytes().len(), 2 * program.data.len());
}

#[test]
fn forward_reference_resolves() {
    let src = ".text\n br L\n noop\n .label L\n noop";
    let program = assemble(src).unwrap();
    assert_eq!(
        program.text,
        vec![
            AddressedInstruction::Branch(2),
            AddressedInstruction::NoOp,
            AddressedInstruction::NoOp,
        ]
    );
    assert_eq!(program.assemble_text(), vec![0x60, 0x02, 0x00, 0x00, 0x00, 0x00]);
}

#[test]
fn backward_reference_resolves() {
    let src = ".text\n.label top\nnoop\nbeqz top\n";
    let program = assemble(src).unwrap();
    assert_eq!(
        program.text,
        vec![AddressedInstruction::NoOp, AddressedInstruction::BranchZero(0)]
    );
}

#[test]
fn duplicate_data_label_rejected() {
    let src = ".data\n.label X\n.number 1\n.label X\n.number 2\n";
    match Parser::parse(src) {
        Err(ParseError::DuplicateLabel(name, _, _)) => assert_eq!(name, "X"),
        other => panic!("expected DuplicateLabel, got {:?}", other.map(|_| ())),
    }
}

#[test]
fn duplicate_text_label_rejected() {
    let src = ".text\n.label L\nnoop\n.label L\nnoop\n";
    assert!(matches!(
        Parser::parse(src),
        Err(ParseError::DuplicateLabel(_, _, _))
    ));
}

#[test]
fn same_name_in_both_spaces_accepted() {
    let src = ".data\n.label X\n.number 9\n.text\n.label X\nadd X\nbr X\n";
    let program = assemble(src).unwrap();
    // `add` resolves X against the data space (address 0 holds 9);
    // `br` resolves X against the text space (the label marks instruction 0).
    assert_eq!(
        program.text,
        vec![AddressedInstruction::Add(0), AddressedInstruction::Branch(0)]
    );
}

#[test]
fn immediate_upper_bound() {
    let program = assemble(".text\naddi 127\n").unwrap();
    assert_eq!(program.text, vec![AddressedInstruction::AddImmediate(127)]);
    assert_eq!(program.assemble_text(), vec![0x10, 0x7f]);
}

#[test]
fn immediate_overflow_rejected() {
    match Parser::parse(".text\naddi 128\n") {
        Err(ParseError::InvalidNumber(v, _)) => assert_eq!(v, 128),
        other => panic!("expected InvalidNumber, got {:?}", other.map(|_| ())),
    }
}

#[test]
fn immediate_lower_bound() {
    // The lexical grammar has no unary minus, so -128 enters as a token.
    let sp = Span { start: 0, end: 0 };
    let toks = vec![
        SpannedToken { token: Token::Text, span: sp },
        SpannedToken { token: Token::AddImmediate, span: sp },
        SpannedToken { token: Token::NumLiteral(-128), span: sp },
    ];
    let mut parser = Parser::parse_tokens(toks).unwrap();
    let program = parser.address_program().unwrap();
    assert_eq!(program.text, vec![AddressedInstruction::AddImmediate(-128)]);
    assert_eq!(program.assemble_text(), vec![0x10, 0x80]);
}

#[test]
fn immediate_below_range_rejected() {
    let sp = Span { start: 3, end: 7 };
    let toks = vec![
        SpannedToken { token: Token::Text, span: sp },
        SpannedToken { token: Token::SubtractImmediate, span: sp },
        SpannedToken { token: Token::NumLiteral(-129), span: sp },
    ];
    assert!(matches!(
        Parser::parse_tokens(toks),
        Err(ParseError::InvalidNumber(-129, _))
    ));
}

#[test]
fn text_overflow_boundary() {
    let mut src = String::from(".text\n");
    for _ in 0..255 {
        src.push_str("noop\n");
    }
    let program = assemble(&src).unwrap();
    assert_eq!(program.text.len(), 255);

    src.push_str("noop\n");
    assert!(matches!(
        Parser::parse(&src),
        Err(ParseError::InstructionOverflow(_))
    ));
}

#[test]
fn data_overflow_boundary() {
    let mut src = String::from(".data\n.label blk\n");
    for _ in 0..255 {
        src.push_str(".number 1\n");
    }
    let program = assemble(&src).unwrap();
    assert_eq!(program.data.len(), 255);

    src.push_str(".number 1\n");
    assert!(matches!(Parser::parse(&src), Err(ParseError::DataOverflow(_))));
}

#[test]
fn unknown_label_fails_addressing() {
    let src = ".text\nadd nowhere\n";
    let mut parser = Parser::parse(src).unwrap();
    match parser.address_program() {
        Err(ParseError::UnknownLabel(name)) => assert_eq!(name, "nowhere"),
        other => panic!("expected UnknownLabel, got {:?}", other.map(|_| ())),
    }
}

#[test]
fn store_resolves_against_data_space() {
    let src = ".text\nstor X\n.data\n.label X\n.number 0\n";
    let program = assemble(src).unwrap();
    assert_eq!(program.text, vec![AddressedInstruction::Store(0)]);
    assert_eq!(program.assemble_text(), vec![0x40, 0x00]);
}

#[test]
fn branch_does_not_see_data_labels() {
    let src = ".data\n.label X\n.number 1\n.text\nbr X\n";
    let mut parser = Parser::parse(src).unwrap();
    assert!(matches!(
        parser.address_program(),
        Err(ParseError::UnknownLabel(_))
    ));
}

#[test]
fn empty_input_is_unexpected_eof() {
    match Parser::parse("") {
        Err(ParseError::UnexpectedEof(what)) => {
            assert_eq!(what, "expected `.text` or `.data`")
        },
        other => panic!("expected UnexpectedEof, got {:?}", other.map(|_| ())),
    }
}

#[test]
fn missing_section_marker_rejected() {
    match Parser::parse("noop\n") {
        Err(ParseError::InvalidToken(found, expected, _)) => {
            assert_eq!(found, "noop");
            assert_eq!(expected, "expected `.text` or `.data`");
        },
        other => panic!("expected InvalidToken, got {:?}", other.map(|_| ())),
    }
}

#[test]
fn dangling_mnemonic_is_unexpected_eof() {
    match Parser::parse(".text\nadd") {
        Err(ParseError::UnexpectedEof(what)) => assert_eq!(what, "expected a label"),
        other => panic!("expected UnexpectedEof, got {:?}", other.map(|_| ())),
    }
}

#[test]
fn number_without_label_rejected_in_data() {
    match Parser::parse(".data\n.number 3\n") {
        Err(ParseError::InvalidToken(found, expected, _)) => {
            assert_eq!(found, ".number");
            assert_eq!(expected, "expected `.label`");
        },
        other => panic!("expected InvalidToken, got {:?}", other.map(|_| ())),
    }
}

#[test]
fn mnemonic_wants_label_not_number() {
    match Parser::parse(".text\nadd 5\n") {
        Err(ParseError::InvalidToken(found, expected, _)) => {
            assert_eq!(found, "5");
            assert_eq!(expected, "expected a label");
        },
        other => panic!("expected InvalidToken, got {:?}", other.map(|_| ())),
    }
}

#[test]
fn sections_may_interleave() {
    let src = ".text\nnoop\n.data\n.label a\n.number 1\n.text\nsub a\n.data\n.label b\n.number 2\n";
    let program = assemble(src).unwrap();
    assert_eq!(
        program.text,
        vec![AddressedInstruction::NoOp, AddressedInstruction::Subtract(0)]
    );
    assert_eq!(program.data, vec![1, 2]);
}

#[test]
fn one_label_marks_a_run_of_values() {
    let src = ".data\n.label blk\n.number 10\n.number 0x1f\n.number 300\n";
    let program = assemble(src).unwrap();
    assert_eq!(program.data, vec![10, 31, 300]);
    assert_eq!(program.data_bytes(), vec![0x00, 0x0a, 0x00, 0x1f, 0x01, 0x2c]);
}

#[test]
fn negative_data_words_encode_big_endian() {
    let sp = Span { start: 0, end: 0 };
    let toks = vec![
        SpannedToken { token: Token::Data, span: sp },
        SpannedToken { token: Token::Label, span: sp },
        SpannedToken { token: Token::LabelIdent(String::from("n")), span: sp },
        SpannedToken { token: Token::Number, span: sp },
        SpannedToken { token: Token::NumLiteral(-1), span: sp },
    ];
    let mut parser = Parser::parse_tokens(toks).unwrap();
    let program = parser.address_program().unwrap();
    assert_eq!(program.data, vec![-1]);
    assert_eq!(program.data_bytes(), vec![0xff, 0xff]);
}

#[test]
fn repeated_data_marker_rejected_inside_data() {
    assert!(matches!(
        Parser::parse(".data\n.data\n"),
        Err(ParseError::InvalidToken(_, _, _))
    ));
}

#[test]
fn repeated_text_marker_rejected_inside_text() {
    match Parser::parse(".text\n.text\n") {
        Err(ParseError::InvalidToken(found, expected, _)) => {
            assert_eq!(found, ".text");
            assert_eq!(expected, "expected mnemonic, label, or `.data`");
        },
        other => panic!("expected InvalidToken, got {:?}", other.map(|_| ())),
    }
}
