//! Two-pass assembly: section parsing with label bookkeeping, then label
//! resolution and encoding into a program image.
//!
//! The grammar and both passes are stated by spec functions
//! ([`parse_tokens_spec`], [`address_text_spec`]); the executable parser is
//! proved to compute exactly those functions.

use vstd::prelude::*;
use crate::instructions::{
    instr_bytes, AddressedInstruction, Immediate, Instruction, InstructionModel,
};
use crate::lexer::{lex, lex_from, toks_view};
use crate::token::{token_text_model, Span, SpannedToken, SpannedTokenModel, Token, TokenModel};

verus! {

/// A terminal assembly error; every failure aborts the whole pass.
#[derive(Debug, Clone, PartialEq)]
pub enum ParseError {
    /// A token that the grammar does not allow here: its text, a description
    /// of what was expected, and where it stood.
    InvalidToken(String, String, Span),
    /// Input ended while the given kind of token was still required.
    UnexpectedEof(String),
    /// A label defined twice in the same space: the name, the span of the
    /// first definition and the span of the second.
    DuplicateLabel(String, Span, Span),
    /// A 256th instruction would leave the 8-bit text address space.
    InstructionOverflow(Span),
    /// A 256th data word would leave the 8-bit data address space.
    DataOverflow(Span),
    /// An immediate literal outside the signed 8-bit range.
    InvalidNumber(i16, Span),
    /// A referenced label that no definition ever named.
    UnknownLabel(String),
}

/// The mathematical image of a [`ParseError`].
pub enum ParseErrorModel {
    InvalidToken(Seq<char>, Seq<char>, Span),
    UnexpectedEof(Seq<char>),
    DuplicateLabel(Seq<char>, Span, Span),
    InstructionOverflow(Span),
    DataOverflow(Span),
    InvalidNumber(i16, Span),
    UnknownLabel(Seq<char>),
}

impl View for ParseError {
    type V = ParseErrorModel;

    open spec fn view(&self) -> ParseErrorModel {
        match self {
            ParseError::InvalidToken(f, d, sp) => ParseErrorModel::InvalidToken(f@, d@, *sp),
            ParseError::UnexpectedEof(d) => ParseErrorModel::UnexpectedEof(d@),
            ParseError::DuplicateLabel(n, a, b) => ParseErrorModel::DuplicateLabel(n@, *a, *b),
            ParseError::InstructionOverflow(sp) => ParseErrorModel::InstructionOverflow(*sp),
            ParseError::DataOverflow(sp) => ParseErrorModel::DataOverflow(*sp),
            ParseError::InvalidNumber(v, sp) => ParseErrorModel::InvalidNumber(*v, *sp),
            ParseError::UnknownLabel(n) => ParseErrorModel::UnknownLabel(n@),
        }
    }
}

/// One label definition: its name, the address it denotes, and the span of
/// its defining occurrence.
#[derive(Debug, Clone, PartialEq)]
pub struct LabelEntry {
    pub name: String,
    pub addr: u8,
    pub span: Span,
}

/// The mathematical image of a [`LabelEntry`].
pub struct LabelEntryModel {
    pub name: Seq<char>,
    pub addr: u8,
    pub span: Span,
}

impl View for LabelEntry {
    type V = LabelEntryModel;

    open spec fn view(&self) -> LabelEntryModel {
        LabelEntryModel { name: self.name@, addr: self.addr, span: self.span }
    }
}

/// The first entry of `t` named `name`, if any.
pub open spec fn tbl_lookup(t: Seq<LabelEntryModel>, name: Seq<char>) -> Option<LabelEntryModel>
    decreases t.len(),
{
    if t.len() == 0 {
        None
    } else if t[0].name == name {
        Some(t[0])
    } else {
        tbl_lookup(t.drop_first(), name)
    }
}

/// Whether some entry of `t` is named `name`.
pub open spec fn tbl_contains(t: Seq<LabelEntryModel>, name: Seq<char>) -> bool {
    tbl_lookup(t, name) is Some
}

/// The address of the entry named `name`; zero when there is none.
pub open spec fn tbl_addr(t: Seq<LabelEntryModel>, name: Seq<char>) -> u8 {
    match tbl_lookup(t, name) {
        Some(e) => e.addr,
        None => 0,
    }
}

/// One label space: a table of definitions in insertion order, with
/// duplicate names rejected at definition time.
#[derive(Debug, Clone, PartialEq)]
pub struct LabelTable {
    pub entries: Vec<LabelEntry>,
}

impl View for LabelTable {
    type V = Seq<LabelEntryModel>;

    open spec fn view(&self) -> Seq<LabelEntryModel> {
        self.entries@.map_values(|e: LabelEntry| e@)
    }
}

impl LabelTable {
    /// An empty table.
    pub fn new() -> (r: LabelTable)
        ensures
            r@ == Seq::<LabelEntryModel>::empty(),
    {
        let r = LabelTable { entries: Vec::new() };
        proof {
            assert(r@ =~= Seq::<LabelEntryModel>::empty());
        }
        r
    }

    /// Looks a name up without changing the table.
    pub fn lookup(&self, name: &str) -> (r: Option<(u8, Span)>)
        ensures
            match r {
                Some((addr, sp)) => tbl_lookup(self@, name@) matches Some(en) && en.addr == addr
                    && en.span == sp,
                None => tbl_lookup(self@, name@) is None,
            },
    {
        let key = name.to_owned();
        let n = self.entries.len();
        let mut j: usize = 0;
        proof {
            assert(self@.skip(0) =~= self@);
        }
        while j < n
            invariant
                n == self.entries@.len(),
                j <= n,
                key@ == name@,
                tbl_lookup(self@, name@) == tbl_lookup(self@.skip(j as int), name@),
            decreases n - j,
        {
            let e = &self.entries[j];
            if e.name == key {
                proof {
                    assert(self@.skip(j as int)[0] == self@[j as int]);
                }
                return Some((e.addr, e.span));
            }
            proof {
                assert(self@.skip(j as int)[0] == self@[j as int]);
                assert(self@.skip(j as int).drop_first() =~= self@.skip(j as int + 1));
            }
            j = j + 1;
        }
        proof {
            assert(self@.skip(n as int) =~= Seq::<LabelEntryModel>::empty());
        }
        None
    }

    /// Defines a name, or reports the span of its earlier definition.
    pub fn define(&mut self, name: &str, addr: u8, span: Span) -> (r: Result<(), Span>)
        ensures
            match r {
                Ok(()) => tbl_lookup(old(self)@, name@) is None && final(self)@ == old(
                    self,
                )@.push(LabelEntryModel { name: name@, addr, span }),
                Err(first) => tbl_lookup(old(self)@, name@) matches Some(en) && first == en.span
                    && final(self)@ == old(self)@,
            },
    {
        match self.lookup(name) {
            Some((_, first)) => Err(first),
            None => {
                let ghost pre = self.entries@;
                self.entries.push(LabelEntry { name: name.to_owned(), addr, span });
                proof {
                    assert(self@ =~= pre.map_values(|e: LabelEntry| e@).push(
                        LabelEntryModel { name: name@, addr, span },
                    ));
                }
                Ok(())
            },
        }
    }
}

/// The parser state that the grammar builds up: the two streams and the two
/// label spaces.
pub struct ParseState {
    pub text: Seq<InstructionModel>,
    pub data: Seq<i16>,
    pub text_labels: Seq<LabelEntryModel>,
    pub data_labels: Seq<LabelEntryModel>,
}

/// The state before any token is consumed.
pub open spec fn empty_state() -> ParseState {
    ParseState {
        text: Seq::empty(),
        data: Seq::empty(),
        text_labels: Seq::empty(),
        data_labels: Seq::empty(),
    }
}

/// Mnemonics that take one label operand.
pub open spec fn is_label_mnemonic(t: TokenModel) -> bool {
    ||| t matches TokenModel::Add
    ||| t matches TokenModel::Subtract
    ||| t matches TokenModel::Multiply
    ||| t matches TokenModel::Divide
    ||| t matches TokenModel::Remainder
    ||| t matches TokenModel::And
    ||| t matches TokenModel::BranchZero
    ||| t matches TokenModel::Branch
    ||| t matches TokenModel::Store
}

/// Mnemonics that take one immediate operand.
pub open spec fn is_imm_mnemonic(t: TokenModel) -> bool {
    ||| t matches TokenModel::AddImmediate
    ||| t matches TokenModel::SubtractImmediate
    ||| t matches TokenModel::MultiplyImmediate
    ||| t matches TokenModel::DivideImmediate
    ||| t matches TokenModel::RemainderImmediate
    ||| t matches TokenModel::AndImmediate
    ||| t matches TokenModel::Shift
}

/// The symbolic instruction built from a label-operand mnemonic.
pub open spec fn mk_label_instr(t: TokenModel, name: Seq<char>) -> InstructionModel {
    match t {
        TokenModel::Add => InstructionModel::Add(name),
        TokenModel::Subtract => InstructionModel::Subtract(name),
        TokenModel::Multiply => InstructionModel::Multiply(name),
        TokenModel::Divide => InstructionModel::Divide(name),
        TokenModel::Remainder => InstructionModel::Remainder(name),
        TokenModel::And => InstructionModel::And(name),
        TokenModel::BranchZero => InstructionModel::BranchZero(name),
        TokenModel::Branch => InstructionModel::Branch(name),
        TokenModel::Store => InstructionModel::Store(name),
        _ => InstructionModel::NoOp,
    }
}

/// The symbolic instruction built from an immediate-operand mnemonic.
pub open spec fn mk_imm_instr(t: TokenModel, v: Immediate) -> InstructionModel {
    match t {
        TokenModel::AddImmediate => InstructionModel::AddImmediate(v),
        TokenModel::SubtractImmediate => InstructionModel::SubtractImmediate(v),
        TokenModel::MultiplyImmediate => InstructionModel::MultiplyImmediate(v),
        TokenModel::DivideImmediate => InstructionModel::DivideImmediate(v),
        TokenModel::RemainderImmediate => InstructionModel::RemainderImmediate(v),
        TokenModel::AndImmediate => InstructionModel::AndImmediate(v),
        TokenModel::Shift => InstructionModel::Shift(v),
        _ => InstructionModel::NoOp,
    }
}

/// The label name required at operand position `opos`.
pub open spec fn label_operand(ts: Seq<SpannedTokenModel>, opos: int) -> Result<
    Seq<char>,
    ParseErrorModel,
> {
    if opos >= ts.len() {
        Err(ParseErrorModel::UnexpectedEof("expected a label"@))
    } else {
        match ts[opos].token {
            TokenModel::LabelIdent(name) => Ok(name),
            t => Err(
                ParseErrorModel::InvalidToken(
                    token_text_model(t),
                    "expected a label"@,
                    ts[opos].span,
                ),
            ),
        }
    }
}

/// The signed 8-bit immediate required at operand position `opos`; a literal
/// outside the immediate range is rejected, not truncated.
pub open spec fn imm_operand(ts: Seq<SpannedTokenModel>, opos: int) -> Result<
    Immediate,
    ParseErrorModel,
> {
    if opos >= ts.len() {
        Err(ParseErrorModel::UnexpectedEof("expected an integer"@))
    } else {
        match ts[opos].token {
            TokenModel::NumLiteral(v) => if -128 <= v <= 127 {
                Ok(v as i8)
            } else {
                Err(ParseErrorModel::InvalidNumber(v, ts[opos].span))
            },
            t => Err(
                ParseErrorModel::InvalidToken(
                    token_text_model(t),
                    "expected an integer"@,
                    ts[opos].span,
                ),
            ),
        }
    }
}

/// Parsing inside the text section, from token position `i` onward.
pub open spec fn parse_text_from(ts: Seq<SpannedTokenModel>, i: int, st: ParseState) -> Result<
    ParseState,
    ParseErrorModel,
>
    decreases ts.len() - i, 0int,
{
    if !(0 <= i < ts.len()) {
        Ok(st)
    } else {
        let t = ts[i].token;
        if (t matches TokenModel::Label) {
            match label_operand(ts, i + 1) {
                Err(e) => Err(e),
                Ok(name) => match tbl_lookup(st.text_labels, name) {
                    Some(en) => Err(ParseErrorModel::DuplicateLabel(name, en.span, ts[i + 1].span)),
                    None => parse_text_from(
                        ts,
                        i + 2,
                        ParseState {
                            text_labels: st.text_labels.push(
                                LabelEntryModel {
                                    name,
                                    addr: st.text.len() as u8,
                                    span: ts[i + 1].span,
                                },
                            ),
                            ..st
                        },
                    ),
                },
            }
        } else if (t matches TokenModel::Data) {
            parse_data_from(ts, i + 1, st)
        } else if is_label_mnemonic(t) {
            match label_operand(ts, i + 1) {
                Err(e) => Err(e),
                Ok(name) => if st.text.len() >= 255 {
                    Err(ParseErrorModel::InstructionOverflow(ts[i + 1].span))
                } else {
                    parse_text_from(
                        ts,
                        i + 2,
                        ParseState { text: st.text.push(mk_label_instr(t, name)), ..st },
                    )
                },
            }
        } else if is_imm_mnemonic(t) {
            match imm_operand(ts, i + 1) {
                Err(e) => Err(e),
                Ok(v) => if st.text.len() >= 255 {
                    Err(ParseErrorModel::InstructionOverflow(ts[i + 1].span))
                } else {
                    parse_text_from(
                        ts,
                        i + 2,
                        ParseState { text: st.text.push(mk_imm_instr(t, v)), ..st },
                    )
                },
            }
        } else if (t matches TokenModel::ClearAc) {
            if st.text.len() >= 255 {
                Err(ParseErrorModel::InstructionOverflow(ts[i].span))
            } else {
                parse_text_from(
                    ts,
                    i + 1,
                    ParseState { text: st.text.push(InstructionModel::ClearAc), ..st },
                )
            }
        } else if (t matches TokenModel::NoOp) {
            if st.text.len() >= 255 {
                Err(ParseErrorModel::InstructionOverflow(ts[i].span))
            } else {
                parse_text_from(
                    ts,
                    i + 1,
                    ParseState { text: st.text.push(InstructionModel::NoOp), ..st },
                )
            }
        } else {
            Err(
                ParseErrorModel::InvalidToken(
                    token_text_model(t),
                    "expected mnemonic, label, or `.data`"@,
                    ts[i].span,
                ),
            )
        }
    }
}

/// Parsing inside the data section, from token position `i` onward.
pub open spec fn parse_data_from(ts: Seq<SpannedTokenModel>, i: int, st: ParseState) -> Result<
    ParseState,
    ParseErrorModel,
>
    decreases ts.len() - i, 0int,
{
    if !(0 <= i < ts.len()) {
        Ok(st)
    } else {
        let t = ts[i].token;
        if (t matches TokenModel::Label) {
            match label_operand(ts, i + 1) {
                Err(e) => Err(e),
                Ok(name) => match tbl_lookup(st.data_labels, name) {
                    Some(en) => Err(ParseErrorModel::DuplicateLabel(name, en.span, ts[i + 1].span)),
                    None => parse_numbers_from(
                        ts,
                        i + 2,
                        ParseState {
                            data_labels: st.data_labels.push(
                                LabelEntryModel {
                                    name,
                                    addr: st.data.len() as u8,
                                    span: ts[i + 1].span,
                                },
                            ),
                            ..st
                        },
                    ),
                },
            }
        } else if (t matches TokenModel::Text) {
            parse_text_from(ts, i + 1, st)
        } else {
            Err(
                ParseErrorModel::InvalidToken(
                    token_text_model(t),
                    "expected `.label`"@,
                    ts[i].span,
                ),
            )
        }
    }
}

/// Parsing the run of `.number` values after a data label definition.
pub open spec fn parse_numbers_from(ts: Seq<SpannedTokenModel>, i: int, st: ParseState) -> Result<
    ParseState,
    ParseErrorModel,
>
    decreases ts.len() - i, 1int,
{
    if !(0 <= i < ts.len()) {
        Ok(st)
    } else if (ts[i].token matches TokenModel::Number) {
        if i + 1 >= ts.len() {
            Err(ParseErrorModel::UnexpectedEof("expected an integer"@))
        } else {
            match ts[i + 1].token {
                TokenModel::NumLiteral(v) => if st.data.len() >= 255 {
                    Err(ParseErrorModel::DataOverflow(ts[i + 1].span))
                } else {
                    parse_numbers_from(ts, i + 2, ParseState { data: st.data.push(v), ..st })
                },
                t => Err(
                    ParseErrorModel::InvalidToken(
                        token_text_model(t),
                        "expected an integer"@,
                        ts[i + 1].span,
                    ),
                ),
            }
        }
    } else {
        parse_data_from(ts, i, st)
    }
}

/// The whole parse: the source must open with a section marker.
pub open spec fn parse_tokens_spec(ts: Seq<SpannedTokenModel>) -> Result<
    ParseState,
    ParseErrorModel,
> {
    if ts.len() == 0 {
        Err(ParseErrorModel::UnexpectedEof("expected `.text` or `.data`"@))
    } else {
        match ts[0].token {
            TokenModel::Text => parse_text_from(ts, 1, empty_state()),
            TokenModel::Data => parse_data_from(ts, 1, empty_state()),
            t => Err(
                ParseErrorModel::InvalidToken(
                    token_text_model(t),
                    "expected `.text` or `.data`"@,
                    ts[0].span,
                ),
            ),
        }
    }
}


/// The executable parser: the token stream with a cursor, the streams being
/// built, and the two label spaces.
pub struct Parser {
    pub tokens: Vec<SpannedToken>,
    pub pos: usize,
    pub text: Vec<Instruction>,
    pub data: Vec<i16>,
    pub text_labels: LabelTable,
    pub data_labels: LabelTable,
}

/// The mathematical image of a [`Parser`].
pub struct ParserModel {
    pub tokens: Seq<SpannedTokenModel>,
    pub pos: int,
    pub text: Seq<InstructionModel>,
    pub data: Seq<i16>,
    pub text_labels: Seq<LabelEntryModel>,
    pub data_labels: Seq<LabelEntryModel>,
}

/// The mathematical image of an instruction vector.
pub open spec fn instrs_view(v: Seq<Instruction>) -> Seq<InstructionModel> {
    v.map_values(|x: Instruction| x@)
}

/// The parse state a parser holds.
pub open spec fn state_of(p: ParserModel) -> ParseState {
    ParseState {
        text: p.text,
        data: p.data,
        text_labels: p.text_labels,
        data_labels: p.data_labels,
    }
}

impl View for Parser {
    type V = ParserModel;

    open spec fn view(&self) -> ParserModel {
        ParserModel {
            tokens: toks_view(self.tokens@),
            pos: self.pos as int,
            text: instrs_view(self.text@),
            data: self.data@,
            text_labels: self.text_labels@,
            data_labels: self.data_labels@,
        }
    }
}

/// Which grammar rule the parser is currently inside.
#[derive(Debug, Clone, Copy, PartialEq, Eq, Structural)]
enum Mode {
    InText,
    InData,
    InNumbers,
}

spec fn mode_rank(m: Mode) -> int {
    if (m matches Mode::InNumbers) {
        1
    } else {
        0
    }
}

spec fn cont_of(ts: Seq<SpannedTokenModel>, i: int, st: ParseState, m: Mode) -> Result<
    ParseState,
    ParseErrorModel,
> {
    match m {
        Mode::InText => parse_text_from(ts, i, st),
        Mode::InData => parse_data_from(ts, i, st),
        Mode::InNumbers => parse_numbers_from(ts, i, st),
    }
}

fn label_operand_at(tokens: &Vec<SpannedToken>, opos: usize) -> (r: Result<
    (String, Span),
    ParseError,
>)
    requires
        opos <= tokens@.len(),
    ensures
        match (r, label_operand(toks_view(tokens@), opos as int)) {
            (Ok((name, sp)), Ok(nm)) => name@ == nm && sp == tokens@[opos as int].span,
            (Err(e), Err(em)) => e@ == em,
            _ => false,
        },
{
    if opos >= tokens.len() {
        Err(ParseError::UnexpectedEof("expected a label".to_owned()))
    } else {
        match &tokens[opos].token {
            Token::LabelIdent(s) => Ok((s.clone(), tokens[opos].span)),
            _ => Err(
                ParseError::InvalidToken(
                    tokens[opos].token.text(),
                    "expected a label".to_owned(),
                    tokens[opos].span,
                ),
            ),
        }
    }
}

fn imm_operand_at(tokens: &Vec<SpannedToken>, opos: usize) -> (r: Result<(i8, Span), ParseError>)
    requires
        opos <= tokens@.len(),
    ensures
        match (r, imm_operand(toks_view(tokens@), opos as int)) {
            (Ok((v, sp)), Ok(vm)) => v == vm && sp == tokens@[opos as int].span,
            (Err(e), Err(em)) => e@ == em,
            _ => false,
        },
{
    if opos >= tokens.len() {
        Err(ParseError::UnexpectedEof("expected an integer".to_owned()))
    } else {
        match &tokens[opos].token {
            Token::NumLiteral(v) => {
                let val: i16 = *v;
                if -128 <= val && val <= 127 {
                    Ok((val as i8, tokens[opos].span))
                } else {
                    Err(ParseError::InvalidNumber(val, tokens[opos].span))
                }
            },
            _ => Err(
                ParseError::InvalidToken(
                    tokens[opos].token.text(),
                    "expected an integer".to_owned(),
                    tokens[opos].span,
                ),
            ),
        }
    }
}

fn mk_label_instr_exec(t: &Token, name: String) -> (r: Instruction)
    ensures
        r@ == mk_label_instr(t@, name@),
{
    match t {
        Token::Add => Instruction::Add(name),
        Token::Subtract => Instruction::Subtract(name),
        Token::Multiply => Instruction::Multiply(name),
        Token::Divide => Instruction::Divide(name),
        Token::Remainder => Instruction::Remainder(name),
        Token::And => Instruction::And(name),
        Token::BranchZero => Instruction::BranchZero(name),
        Token::Branch => Instruction::Branch(name),
        Token::Store => Instruction::Store(name),
        _ => Instruction::NoOp,
    }
}

fn mk_imm_instr_exec(t: &Token, v: i8) -> (r: Instruction)
    ensures
        r@ == mk_imm_instr(t@, v),
{
    match t {
        Token::AddImmediate => Instruction::AddImmediate(v),
        Token::SubtractImmediate => Instruction::SubtractImmediate(v),
        Token::MultiplyImmediate => Instruction::MultiplyImmediate(v),
        Token::DivideImmediate => Instruction::DivideImmediate(v),
        Token::RemainderImmediate => Instruction::RemainderImmediate(v),
        Token::AndImmediate => Instruction::AndImmediate(v),
        Token::Shift => Instruction::Shift(v),
        _ => Instruction::NoOp,
    }
}

impl Parser {
    /// A parser over the token stream of `input`, with nothing parsed yet.
    pub fn new(input: &str) -> (p: Parser)
        ensures
            p@.tokens == lex_from(input@, 0),
            p@.pos == 0,
            state_of(p@) == empty_state(),
    {
        let p = Parser {
            tokens: lex(input),
            pos: 0,
            text: Vec::new(),
            data: Vec::new(),
            text_labels: LabelTable::new(),
            data_labels: LabelTable::new(),
        };
        proof {
            assert(instrs_view(p.text@) =~= Seq::<InstructionModel>::empty());
            assert(state_of(p@) == empty_state());
        }
        p
    }

    /// Appends an instruction to the text stream, refusing a 256th entry.
    fn add_instr(&mut self, instr: Instruction, sp: Span) -> (r: Result<(), ParseError>)
        ensures
            match r {
                Ok(()) => old(self)@.text.len() < 255 && final(self)@ == (ParserModel {
                    text: old(self)@.text.push(instr@),
                    ..old(self)@
                }),
                Err(e) => old(self)@.text.len() >= 255 && e@
                    == ParseErrorModel::InstructionOverflow(sp) && final(self)@ == old(self)@,
            },
    {
        if self.text.len() >= 255 {
            Err(ParseError::InstructionOverflow(sp))
        } else {
            let ghost pre = self.text@;
            self.text.push(instr);
            proof {
                assert(instrs_view(self.text@) =~= instrs_view(pre).push(instr@));
            }
            Ok(())
        }
    }

    /// Appends a data word, refusing a 256th entry.
    fn add_data(&mut self, v: i16, sp: Span) -> (r: Result<(), ParseError>)
        ensures
            match r {
                Ok(()) => old(self)@.data.len() < 255 && final(self)@ == (ParserModel {
                    data: old(self)@.data.push(v),
                    ..old(self)@
                }),
                Err(e) => old(self)@.data.len() >= 255 && e@ == ParseErrorModel::DataOverflow(sp)
                    && final(self)@ == old(self)@,
            },
    {
        if self.data.len() >= 255 {
            Err(ParseError::DataOverflow(sp))
        } else {
            self.data.push(v);
            Ok(())
        }
    }

    /// Runs the section grammar over the whole token stream.
    fn parse_input(&mut self) -> (r: Result<(), ParseError>)
        requires
            state_of(old(self)@) == empty_state(),
        ensures
            final(self)@.tokens == old(self)@.tokens,
            match r {
                Ok(()) => parse_tokens_spec(old(self)@.tokens) == Ok::<
                    ParseState,
                    ParseErrorModel,
                >(state_of(final(self)@)),
                Err(e) => parse_tokens_spec(old(self)@.tokens) matches Err(em) && e@ == em,
            },
    {
        let ghost toks0 = self.tokens@;
        let ghost ts = toks_view(self.tokens@);
        let n = self.tokens.len();
        if n == 0 {
            return Err(ParseError::UnexpectedEof("expected `.text` or `.data`".to_owned()));
        }
        let mut mode: Mode;
        match &self.tokens[0].token {
            Token::Text => {
                mode = Mode::InText;
            },
            Token::Data => {
                mode = Mode::InData;
            },
            _ => {
                return Err(
                    ParseError::InvalidToken(
                        self.tokens[0].token.text(),
                        "expected `.text` or `.data`".to_owned(),
                        self.tokens[0].span,
                    ),
                );
            },
        }
        self.pos = 1;
        loop
            invariant
                self@.tokens == ts,
                old(self)@.tokens == ts,
                self.pos <= self.tokens@.len(),
                self@.text.len() <= 255,
                self@.data.len() <= 255,
                parse_tokens_spec(ts) == cont_of(ts, self.pos as int, state_of(self@), mode),
            ensures
                self@.tokens == ts,
                self.pos >= self.tokens@.len(),
                parse_tokens_spec(ts) == cont_of(ts, self.pos as int, state_of(self@), mode),
            decreases self.tokens@.len() - self.pos, mode_rank(mode),
        {
            let pos = self.pos;
            if pos >= self.tokens.len() {
                break ;
            }
            match mode {
                Mode::InText => {
                    match &self.tokens[pos].token {
                        Token::Label => {
                            match label_operand_at(&self.tokens, pos + 1) {
                                Err(e) => {
                                    return Err(e);
                                },
                                Ok((name, osp)) => {
                                    let addr = self.text.len() as u8;
                                    match self.text_labels.define(name.as_str(), addr, osp) {
                                        Err(first) => {
                                            return Err(
                                                ParseError::DuplicateLabel(name, first, osp),
                                            );
                                        },
                                        Ok(()) => {
                                            self.pos = pos + 2;
                                        },
                                    }
                                },
                            }
                        },
                        Token::Data => {
                            mode = Mode::InData;
                            self.pos = pos + 1;
                        },
                        Token::Add | Token::Subtract | Token::Multiply | Token::Divide
                            | Token::Remainder | Token::And | Token::BranchZero | Token::Branch
                            | Token::Store => {
                            match label_operand_at(&self.tokens, pos + 1) {
                                Err(e) => {
                                    return Err(e);
                                },
                                Ok((name, osp)) => {
                                    let instr = mk_label_instr_exec(
                                        &self.tokens[pos].token,
                                        name,
                                    );
                                    match self.add_instr(instr, osp) {
                                        Err(e) => {
                                            return Err(e);
                                        },
                                        Ok(()) => {
                                            self.pos = pos + 2;
                                        },
                                    }
                                },
                            }
                        },
                        Token::AddImmediate | Token::SubtractImmediate | Token::MultiplyImmediate
                            | Token::DivideImmediate | Token::RemainderImmediate
                            | Token::AndImmediate | Token::Shift => {
                            match imm_operand_at(&self.tokens, pos + 1) {
                                Err(e) => {
                                    return Err(e);
                                },
                                Ok((v, osp)) => {
                                    let instr = mk_imm_instr_exec(&self.tokens[pos].token, v);
                                    match self.add_instr(instr, osp) {
                                        Err(e) => {
                                            return Err(e);
                                        },
                                        Ok(()) => {
                                            self.pos = pos + 2;
                                        },
                                    }
                                },
                            }
                        },
                        Token::ClearAc => {
                            let sp = self.tokens[pos].span;
                            match self.add_instr(Instruction::ClearAc, sp) {
                                Err(e) => {
                                    return Err(e);
                                },
                                Ok(()) => {
                                    self.pos = pos + 1;
                                },
                            }
                        },
                        Token::NoOp => {
                            let sp = self.tokens[pos].span;
                            match self.add_instr(Instruction::NoOp, sp) {
                                Err(e) => {
                                    return Err(e);
                                },
                                Ok(()) => {
                                    self.pos = pos + 1;
                                },
                            }
                        },
                        _ => {
                            return Err(
                                ParseError::InvalidToken(
                                    self.tokens[pos].token.text(),
                                    "expected mnemonic, label, or `.data`".to_owned(),
                                    self.tokens[pos].span,
                                ),
                            );
                        },
                    }
                },
                Mode::InData => {
                    match &self.tokens[pos].token {
                        Token::Label => {
                            match label_operand_at(&self.tokens, pos + 1) {
                                Err(e) => {
                                    return Err(e);
                                },
                                Ok((name, osp)) => {
                                    let addr = self.data.len() as u8;
                                    match self.data_labels.define(name.as_str(), addr, osp) {
                                        Err(first) => {
                                            return Err(
                                                ParseError::DuplicateLabel(name, first, osp),
                                            );
                                        },
                                        Ok(()) => {
                                            mode = Mode::InNumbers;
                                            self.pos = pos + 2;
                                        },
                                    }
                                },
                            }
                        },
                        Token::Text => {
                            mode = Mode::InText;
                            self.pos = pos + 1;
                        },
                        _ => {
                            return Err(
                                ParseError::InvalidToken(
                                    self.tokens[pos].token.text(),
                                    "expected `.label`".to_owned(),
                                    self.tokens[pos].span,
                                ),
                            );
                        },
                    }
                },
                Mode::InNumbers => {
                    match &self.tokens[pos].token {
                        Token::Number => {
                            if pos + 1 >= self.tokens.len() {
                                return Err(
                                    ParseError::UnexpectedEof("expected an integer".to_owned()),
                                );
                            }
                            match &self.tokens[pos + 1].token {
                                Token::NumLiteral(v) => {
                                    let val: i16 = *v;
                                    let osp = self.tokens[pos + 1].span;
                                    match self.add_data(val, osp) {
                                        Err(e) => {
                                            return Err(e);
                                        },
                                        Ok(()) => {
                                            self.pos = pos + 2;
                                        },
                                    }
                                },
                                _ => {
                                    return Err(
                                        ParseError::InvalidToken(
                                            self.tokens[pos + 1].token.text(),
                                            "expected an integer".to_owned(),
                                            self.tokens[pos + 1].span,
                                        ),
                                    );
                                },
                            }
                        },
                        _ => {
                            mode = Mode::InData;
                        },
                    }
                },
            }
        }
        Ok(())
    }

    /// Parses a ready-made token stream into a finished parser.
    pub fn parse_tokens(tokens: Vec<SpannedToken>) -> (r: Result<Parser, ParseError>)
        ensures
            match r {
                Ok(p) => parse_tokens_spec(toks_view(tokens@)) == Ok::<
                    ParseState,
                    ParseErrorModel,
                >(state_of(p@)) && p@.tokens == toks_view(tokens@),
                Err(e) => parse_tokens_spec(toks_view(tokens@)) matches Err(em) && e@ == em,
            },
    {
        let mut p = Parser {
            tokens,
            pos: 0,
            text: Vec::new(),
            data: Vec::new(),
            text_labels: LabelTable::new(),
            data_labels: LabelTable::new(),
        };
        proof {
            assert(instrs_view(p.text@) =~= Seq::<InstructionModel>::empty());
            assert(state_of(p@) == empty_state());
        }
        match p.parse_input() {
            Ok(()) => Ok(p),
            Err(e) => Err(e),
        }
    }

    /// Lexes and parses a whole source text.
    pub fn parse(input: &str) -> (r: Result<Parser, ParseError>)
        ensures
            match r {
                Ok(p) => parse_tokens_spec(lex_from(input@, 0)) == Ok::<
                    ParseState,
                    ParseErrorModel,
                >(state_of(p@)) && p@.tokens == lex_from(input@, 0),
                Err(e) => parse_tokens_spec(lex_from(input@, 0)) matches Err(em) && e@ == em,
            },
    {
        let toks = lex(input);
        Parser::parse_tokens(toks)
    }
}


/// The addressed instruction a symbolic instruction resolves to: ALU-reg
/// and `stor` operands resolve against the data space, branches against the
/// text space, immediates and zero-operand forms pass through unchanged.
pub open spec fn resolve_instr_spec(
    im: InstructionModel,
    tl: Seq<LabelEntryModel>,
    dl: Seq<LabelEntryModel>,
) -> Result<AddressedInstruction, ParseErrorModel> {
    match im {
        InstructionModel::Add(name) => match tbl_lookup(dl, name) {
            Some(e) => Ok(AddressedInstruction::Add(e.addr)),
            None => Err(ParseErrorModel::UnknownLabel(name)),
        },
        InstructionModel::Subtract(name) => match tbl_lookup(dl, name) {
            Some(e) => Ok(AddressedInstruction::Subtract(e.addr)),
            None => Err(ParseErrorModel::UnknownLabel(name)),
        },
        InstructionModel::Multiply(name) => match tbl_lookup(dl, name) {
            Some(e) => Ok(AddressedInstruction::Multiply(e.addr)),
            None => Err(ParseErrorModel::UnknownLabel(name)),
        },
        InstructionModel::Divide(name) => match tbl_lookup(dl, name) {
            Some(e) => Ok(AddressedInstruction::Divide(e.addr)),
            None => Err(ParseErrorModel::UnknownLabel(name)),
        },
        InstructionModel::Remainder(name) => match tbl_lookup(dl, name) {
            Some(e) => Ok(AddressedInstruction::Remainder(e.addr)),
            None => Err(ParseErrorModel::UnknownLabel(name)),
        },
        InstructionModel::And(name) => match tbl_lookup(dl, name) {
            Some(e) => Ok(AddressedInstruction::And(e.addr)),
            None => Err(ParseErrorModel::UnknownLabel(name)),
        },
        InstructionModel::Store(name) => match tbl_lookup(dl, name) {
            Some(e) => Ok(AddressedInstruction::Store(e.addr)),
            None => Err(ParseErrorModel::UnknownLabel(name)),
        },
        InstructionModel::BranchZero(name) => match tbl_lookup(tl, name) {
            Some(e) => Ok(AddressedInstruction::BranchZero(e.addr)),
            None => Err(ParseErrorModel::UnknownLabel(name)),
        },
        InstructionModel::Branch(name) => match tbl_lookup(tl, name) {
            Some(e) => Ok(AddressedInstruction::Branch(e.addr)),
            None => Err(ParseErrorModel::UnknownLabel(name)),
        },
        InstructionModel::AddImmediate(v) => Ok(AddressedInstruction::AddImmediate(v)),
        InstructionModel::SubtractImmediate(v) => Ok(AddressedInstruction::SubtractImmediate(v)),
        InstructionModel::MultiplyImmediate(v) => Ok(AddressedInstruction::MultiplyImmediate(v)),
        InstructionModel::DivideImmediate(v) => Ok(AddressedInstruction::DivideImmediate(v)),
        InstructionModel::RemainderImmediate(v) => Ok(
            AddressedInstruction::RemainderImmediate(v),
        ),
        InstructionModel::AndImmediate(v) => Ok(AddressedInstruction::AndImmediate(v)),
        InstructionModel::Shift(v) => Ok(AddressedInstruction::Shift(v)),
        InstructionModel::ClearAc => Ok(AddressedInstruction::ClearAc),
        InstructionModel::NoOp => Ok(AddressedInstruction::NoOp),
    }
}

/// Resolving the whole text stream, in order; the first failure aborts.
pub open spec fn address_text_spec(
    text: Seq<InstructionModel>,
    tl: Seq<LabelEntryModel>,
    dl: Seq<LabelEntryModel>,
) -> Result<Seq<AddressedInstruction>, ParseErrorModel>
    decreases text.len(),
{
    if text.len() == 0 {
        Ok(Seq::empty())
    } else {
        match resolve_instr_spec(text[0], tl, dl) {
            Err(e) => Err(e),
            Ok(a) => match address_text_spec(text.drop_first(), tl, dl) {
                Err(e) => Err(e),
                Ok(rest) => Ok(seq![a] + rest),
            },
        }
    }
}

/// Label resolution is forward-reference-safe: the pass resolves every
/// instruction against the completed tables, so it succeeds exactly when
/// each label operand is defined in the space its instruction uses —
/// wherever in the stream that definition stood — and then rewrites the
/// stream pointwise.
pub proof fn lemma_address_text_pointwise(
    text: Seq<InstructionModel>,
    tl: Seq<LabelEntryModel>,
    dl: Seq<LabelEntryModel>,
)
    ensures
        (address_text_spec(text, tl, dl) is Ok) <==> (forall|k: int|
            0 <= k < text.len() ==> resolve_instr_spec(#[trigger] text[k], tl, dl) is Ok),
        address_text_spec(text, tl, dl) matches Ok(r) ==> r.len() == text.len() && (forall|k: int|
            0 <= k < text.len() ==> resolve_instr_spec(#[trigger] text[k], tl, dl) == Ok::<
                AddressedInstruction,
                ParseErrorModel,
            >(r[k])),
    decreases text.len(),
{
    if text.len() > 0 {
        let rest = text.drop_first();
        lemma_address_text_pointwise(rest, tl, dl);
        match resolve_instr_spec(text[0], tl, dl) {
            Err(_) => {
                if forall|k: int|
                    0 <= k < text.len() ==> resolve_instr_spec(#[trigger] text[k], tl, dl) is Ok {
                    assert(resolve_instr_spec(text[0], tl, dl) is Ok);
                    assert(false);
                }
            },
            Ok(a) => {
                match address_text_spec(rest, tl, dl) {
                    Err(_) => {
                        if forall|k: int|
                            0 <= k < text.len() ==> resolve_instr_spec(
                                #[trigger] text[k],
                                tl,
                                dl,
                            ) is Ok {
                            assert forall|k: int|
                                0 <= k < rest.len() implies resolve_instr_spec(
                                #[trigger] rest[k],
                                tl,
                                dl,
                            ) is Ok by {
                                assert(rest[k] == text[k + 1]);
                                assert(resolve_instr_spec(text[k + 1], tl, dl) is Ok);
                            }
                            assert(address_text_spec(rest, tl, dl) is Ok);
                            assert(false);
                        }
                    },
                    Ok(rr) => {
                        let r = seq![a] + rr;
                        assert forall|k: int| 0 <= k < text.len() implies resolve_instr_spec(
                            #[trigger] text[k],
                            tl,
                            dl,
                        ) == Ok::<AddressedInstruction, ParseErrorModel>(r[k]) by {
                            if k == 0 {
                                assert(r[0] == a);
                            } else {
                                assert(rest[k - 1] == text[k]);
                                assert(r[k] == rr[k - 1]);
                                assert(resolve_instr_spec(rest[k - 1], tl, dl) == Ok::<
                                    AddressedInstruction,
                                    ParseErrorModel,
                                >(rr[k - 1]));
                            }
                        }
                    },
                }
            },
        }
    }
}

/// The pass reports the error of the first instruction that fails to
/// resolve.
pub proof fn lemma_address_text_first_err(
    text: Seq<InstructionModel>,
    tl: Seq<LabelEntryModel>,
    dl: Seq<LabelEntryModel>,
    k: int,
)
    requires
        0 <= k < text.len(),
        forall|j: int| 0 <= j < k ==> resolve_instr_spec(#[trigger] text[j], tl, dl) is Ok,
        resolve_instr_spec(text[k], tl, dl) is Err,
    ensures
        resolve_instr_spec(text[k], tl, dl) matches Err(em) && address_text_spec(text, tl, dl)
            == Err::<Seq<AddressedInstruction>, ParseErrorModel>(em),
    decreases text.len(),
{
    if k == 0 {
    } else {
        let rest = text.drop_first();
        assert(resolve_instr_spec(text[0], tl, dl) is Ok);
        assert forall|j: int| 0 <= j < k - 1 implies resolve_instr_spec(
            #[trigger] rest[j],
            tl,
            dl,
        ) is Ok by {
            assert(rest[j] == text[j + 1]);
        }
        assert(rest[k - 1] == text[k]);
        lemma_address_text_first_err(rest, tl, dl, k - 1);
    }
}

/// No two entries of the table share a name.
pub open spec fn labels_distinct(t: Seq<LabelEntryModel>) -> bool {
    forall|j: int, k: int| 0 <= j < k < t.len() ==> t[j].name != t[k].name
}

/// What every state reached by a successful parse satisfies: both streams
/// fit the 8-bit address space and both label spaces are duplicate-free.
pub open spec fn wf_state(st: ParseState) -> bool {
    &&& st.text.len() <= 255
    &&& st.data.len() <= 255
    &&& labels_distinct(st.text_labels)
    &&& labels_distinct(st.data_labels)
}

proof fn lemma_lookup_none_absent(t: Seq<LabelEntryModel>, name: Seq<char>)
    requires
        tbl_lookup(t, name) is None,
    ensures
        forall|k: int| 0 <= k < t.len() ==> t[k].name != name,
    decreases t.len(),
{
    if t.len() > 0 {
        lemma_lookup_none_absent(t.drop_first(), name);
        assert forall|k: int| 0 <= k < t.len() implies t[k].name != name by {
            if k > 0 {
                assert(t.drop_first()[k - 1] == t[k]);
            }
        }
    }
}

proof fn lemma_push_distinct(t: Seq<LabelEntryModel>, e: LabelEntryModel)
    requires
        labels_distinct(t),
        tbl_lookup(t, e.name) is None,
    ensures
        labels_distinct(t.push(e)),
{
    lemma_lookup_none_absent(t, e.name);
    assert forall|j: int, k: int| 0 <= j < k < t.push(e).len() implies t.push(e)[j].name != t.push(
        e,
    )[k].name by {
        if k < t.len() {
            assert(t.push(e)[j] == t[j]);
            assert(t.push(e)[k] == t[k]);
        } else {
            assert(t.push(e)[j] == t[j]);
            assert(t.push(e)[k] == e);
        }
    }
}

proof fn lemma_cont_wf(ts: Seq<SpannedTokenModel>, i: int, st: ParseState, m: Mode)
    requires
        wf_state(st),
    ensures
        cont_of(ts, i, st, m) matches Ok(st2) ==> wf_state(st2),
    decreases ts.len() - i, mode_rank(m),
{
    if !(0 <= i < ts.len()) {
    } else {
        match m {
            Mode::InText => {
                let t = ts[i].token;
                if (t matches TokenModel::Label) {
                    if let Ok(name) = label_operand(ts, i + 1) {
                        if tbl_lookup(st.text_labels, name) is None {
                            let en = LabelEntryModel {
                                name,
                                addr: st.text.len() as u8,
                                span: ts[i + 1].span,
                            };
                            lemma_push_distinct(st.text_labels, en);
                            lemma_cont_wf(
                                ts,
                                i + 2,
                                ParseState { text_labels: st.text_labels.push(en), ..st },
                                Mode::InText,
                            );
                        }
                    }
                } else if (t matches TokenModel::Data) {
                    lemma_cont_wf(ts, i + 1, st, Mode::InData);
                } else if is_label_mnemonic(t) {
                    if let Ok(name) = label_operand(ts, i + 1) {
                        if st.text.len() < 255 {
                            lemma_cont_wf(
                                ts,
                                i + 2,
                                ParseState { text: st.text.push(mk_label_instr(t, name)), ..st },
                                Mode::InText,
                            );
                        }
                    }
                } else if is_imm_mnemonic(t) {
                    if let Ok(v) = imm_operand(ts, i + 1) {
                        if st.text.len() < 255 {
                            lemma_cont_wf(
                                ts,
                                i + 2,
                                ParseState { text: st.text.push(mk_imm_instr(t, v)), ..st },
                                Mode::InText,
                            );
                        }
                    }
                } else if (t matches TokenModel::ClearAc) {
                    if st.text.len() < 255 {
                        lemma_cont_wf(
                            ts,
                            i + 1,
                            ParseState { text: st.text.push(InstructionModel::ClearAc), ..st },
                            Mode::InText,
                        );
                    }
                } else if (t matches TokenModel::NoOp) {
                    if st.text.len() < 255 {
                        lemma_cont_wf(
                            ts,
                            i + 1,
                            ParseState { text: st.text.push(InstructionModel::NoOp), ..st },
                            Mode::InText,
                        );
                    }
                }
            },
            Mode::InData => {
                let t = ts[i].token;
                if (t matches TokenModel::Label) {
                    if let Ok(name) = label_operand(ts, i + 1) {
                        if tbl_lookup(st.data_labels, name) is None {
                            let en = LabelEntryModel {
                                name,
                                addr: st.data.len() as u8,
                                span: ts[i + 1].span,
                            };
                            lemma_push_distinct(st.data_labels, en);
                            lemma_cont_wf(
                                ts,
                                i + 2,
                                ParseState { data_labels: st.data_labels.push(en), ..st },
                                Mode::InNumbers,
                            );
                        }
                    }
                } else if (t matches TokenModel::Text) {
                    lemma_cont_wf(ts, i + 1, st, Mode::InText);
                }
            },
            Mode::InNumbers => {
                if (ts[i].token matches TokenModel::Number) {
                    if i + 1 < ts.len() {
                        if let TokenModel::NumLiteral(v) = ts[i + 1].token {
                            if st.data.len() < 255 {
                                lemma_cont_wf(
                                    ts,
                                    i + 2,
                                    ParseState { data: st.data.push(v), ..st },
                                    Mode::InNumbers,
                                );
                            }
                        }
                    }
                } else {
                    lemma_cont_wf(ts, i, st, Mode::InData);
                }
            },
        }
    }
}

/// A successful parse never leaves a stream with more than 255 entries —
/// the 256th append is rejected — and never defines one name twice in the
/// same label space, whatever the order of definitions and references.
pub proof fn lemma_parse_wf(ts: Seq<SpannedTokenModel>)
    ensures
        parse_tokens_spec(ts) matches Ok(st) ==> wf_state(st),
{
    if ts.len() > 0 {
        lemma_cont_wf(ts, 1, empty_state(), Mode::InText);
        lemma_cont_wf(ts, 1, empty_state(), Mode::InData);
    }
}

/// The finished program image: resolved instructions and data words.
#[derive(Debug, Clone, PartialEq)]
pub struct AddressedProgram {
    pub text: Vec<AddressedInstruction>,
    pub data: Vec<i16>,
}

/// The concatenated two-byte encodings of a resolved text stream.
pub open spec fn text_bytes(s: Seq<AddressedInstruction>) -> Seq<u8>
    decreases s.len(),
{
    if s.len() == 0 {
        Seq::empty()
    } else {
        instr_bytes(s[0]) + text_bytes(s.drop_first())
    }
}

/// A data word as two big-endian bytes of its two's-complement pattern.
pub open spec fn word_bytes(v: i16) -> Seq<u8> {
    seq![((v as u16) >> 8) as u8, (v as u16) as u8]
}

/// The concatenated big-endian encodings of a data stream.
pub open spec fn data_words_bytes(s: Seq<i16>) -> Seq<u8>
    decreases s.len(),
{
    if s.len() == 0 {
        Seq::empty()
    } else {
        word_bytes(s[0]) + data_words_bytes(s.drop_first())
    }
}

/// Every instruction contributes exactly two bytes to the text image.
pub proof fn lemma_text_bytes_len(s: Seq<AddressedInstruction>)
    ensures
        text_bytes(s).len() == 2 * s.len(),
    decreases s.len(),
{
    if s.len() > 0 {
        lemma_text_bytes_len(s.drop_first());
    }
}

/// Every data word contributes exactly two bytes to the data image.
pub proof fn lemma_data_words_bytes_len(s: Seq<i16>)
    ensures
        data_words_bytes(s).len() == 2 * s.len(),
    decreases s.len(),
{
    if s.len() > 0 {
        lemma_data_words_bytes_len(s.drop_first());
    }
}

proof fn lemma_text_bytes_snoc(s: Seq<AddressedInstruction>)
    requires
        s.len() > 0,
    ensures
        text_bytes(s) == text_bytes(s.drop_last()) + instr_bytes(s.last()),
    decreases s.len(),
{
    if s.len() == 1 {
        assert(s.drop_first() =~= Seq::<AddressedInstruction>::empty());
        assert(s.drop_last() =~= Seq::<AddressedInstruction>::empty());
        assert(text_bytes(s) =~= text_bytes(s.drop_last()) + instr_bytes(s.last()));
    } else {
        lemma_text_bytes_snoc(s.drop_first());
        assert(s.drop_first().drop_last() =~= s.drop_last().drop_first());
        assert(s.drop_first().last() == s.last());
        assert(s.drop_last()[0] == s[0]);
        assert(text_bytes(s) =~= text_bytes(s.drop_last()) + instr_bytes(s.last()));
    }
}

proof fn lemma_data_words_bytes_snoc(s: Seq<i16>)
    requires
        s.len() > 0,
    ensures
        data_words_bytes(s) == data_words_bytes(s.drop_last()) + word_bytes(s.last()),
    decreases s.len(),
{
    if s.len() == 1 {
        assert(s.drop_first() =~= Seq::<i16>::empty());
        assert(s.drop_last() =~= Seq::<i16>::empty());
        assert(data_words_bytes(s) =~= data_words_bytes(s.drop_last()) + word_bytes(s.last()));
    } else {
        lemma_data_words_bytes_snoc(s.drop_first());
        assert(s.drop_first().drop_last() =~= s.drop_last().drop_first());
        assert(s.drop_first().last() == s.last());
        assert(s.drop_last()[0] == s[0]);
        assert(data_words_bytes(s) =~= data_words_bytes(s.drop_last()) + word_bytes(s.last()));
    }
}

impl AddressedProgram {
    /// The text image: the two-byte encoding of every instruction, in
    /// program order — two bytes per instruction.
    pub fn assemble_text(&self) -> (r: Vec<u8>)
        ensures
            r@ == text_bytes(self.text@),
            r@.len() == 2 * self.text@.len(),
    {
        let mut assembled: Vec<u8> = Vec::new();
        let mut k: usize = 0;
        proof {
            assert(self.text@.subrange(0, 0) =~= Seq::<AddressedInstruction>::empty());
        }
        while k < self.text.len()
            invariant
                k <= self.text@.len(),
                assembled@ == text_bytes(self.text@.subrange(0, k as int)),
            decreases self.text@.len() - k,
        {
            let ins = self.text[k];
            let b0 = (ins.opcode() << 4) | ins.alu_op();
            let b1 = ins.value();
            assembled.push(b0);
            assembled.push(b1);
            proof {
                let cur = self.text@.subrange(0, k as int + 1);
                assert(cur.drop_last() =~= self.text@.subrange(0, k as int));
                assert(cur.last() == self.text@[k as int]);
                lemma_text_bytes_snoc(cur);
                assert(assembled@ =~= text_bytes(cur));
            }
            k = k + 1;
        }
        proof {
            assert(self.text@.subrange(0, self.text@.len() as int) =~= self.text@);
            lemma_text_bytes_len(self.text@);
        }
        assembled
    }

    /// The data image: every word as two big-endian bytes, in program
    /// order — two bytes per word.
    pub fn data_bytes(&self) -> (r: Vec<u8>)
        ensures
            r@ == data_words_bytes(self.data@),
            r@.len() == 2 * self.data@.len(),
    {
        let mut bytes: Vec<u8> = Vec::new();
        let mut k: usize = 0;
        proof {
            assert(self.data@.subrange(0, 0) =~= Seq::<i16>::empty());
        }
        while k < self.data.len()
            invariant
                k <= self.data@.len(),
                bytes@ == data_words_bytes(self.data@.subrange(0, k as int)),
            decreases self.data@.len() - k,
        {
            let v = self.data[k];
            let u = v as u16;
            bytes.push((u >> 8) as u8);
            bytes.push(u as u8);
            proof {
                let cur = self.data@.subrange(0, k as int + 1);
                assert(cur.drop_last() =~= self.data@.subrange(0, k as int));
                assert(cur.last() == self.data@[k as int]);
                lemma_data_words_bytes_snoc(cur);
                assert(bytes@ =~= data_words_bytes(cur));
            }
            k = k + 1;
        }
        proof {
            assert(self.data@.subrange(0, self.data@.len() as int) =~= self.data@);
            lemma_data_words_bytes_len(self.data@);
        }
        bytes
    }
}

impl Parser {
    /// Resolves one symbolic instruction against the completed tables.
    fn resolve_instr(&self, ins: &Instruction) -> (r: Result<AddressedInstruction, ParseError>)
        ensures
            match r {
                Ok(a) => resolve_instr_spec(ins@, self@.text_labels, self@.data_labels) == Ok::<
                    AddressedInstruction,
                    ParseErrorModel,
                >(a),
                Err(e) => resolve_instr_spec(ins@, self@.text_labels, self@.data_labels) matches Err(
                    em,
                ) && e@ == em,
            },
    {
        match ins {
            Instruction::Add(l) => match self.data_labels.lookup(l.as_str()) {
                Some((addr, _)) => Ok(AddressedInstruction::Add(addr)),
                None => Err(ParseError::UnknownLabel(l.clone())),
            },
            Instruction::Subtract(l) => match self.data_labels.lookup(l.as_str()) {
                Some((addr, _)) => Ok(AddressedInstruction::Subtract(addr)),
                None => Err(ParseError::UnknownLabel(l.clone())),
            },
            Instruction::Multiply(l) => match self.data_labels.lookup(l.as_str()) {
                Some((addr, _)) => Ok(AddressedInstruction::Multiply(addr)),
                None => Err(ParseError::UnknownLabel(l.clone())),
            },
            Instruction::Divide(l) => match self.data_labels.lookup(l.as_str()) {
                Some((addr, _)) => Ok(AddressedInstruction::Divide(addr)),
                None => Err(ParseError::UnknownLabel(l.clone())),
            },
            Instruction::Remainder(l) => match self.data_labels.lookup(l.as_str()) {
                Some((addr, _)) => Ok(AddressedInstruction::Remainder(addr)),
                None => Err(ParseError::UnknownLabel(l.clone())),
            },
            Instruction::And(l) => match self.data_labels.lookup(l.as_str()) {
                Some((addr, _)) => Ok(AddressedInstruction::And(addr)),
                None => Err(ParseError::UnknownLabel(l.clone())),
            },
            Instruction::Store(l) => match self.data_labels.lookup(l.as_str()) {
                Some((addr, _)) => Ok(AddressedInstruction::Store(addr)),
                None => Err(ParseError::UnknownLabel(l.clone())),
            },
            Instruction::BranchZero(l) => match self.text_labels.lookup(l.as_str()) {
                Some((addr, _)) => Ok(AddressedInstruction::BranchZero(addr)),
                None => Err(ParseError::UnknownLabel(l.clone())),
            },
            Instruction::Branch(l) => match self.text_labels.lookup(l.as_str()) {
                Some((addr, _)) => Ok(AddressedInstruction::Branch(addr)),
                None => Err(ParseError::UnknownLabel(l.clone())),
            },
            Instruction::AddImmediate(v) => Ok(AddressedInstruction::AddImmediate(*v)),
            Instruction::SubtractImmediate(v) => Ok(AddressedInstruction::SubtractImmediate(*v)),
            Instruction::MultiplyImmediate(v) => Ok(AddressedInstruction::MultiplyImmediate(*v)),
            Instruction::DivideImmediate(v) => Ok(AddressedInstruction::DivideImmediate(*v)),
            Instruction::RemainderImmediate(v) => Ok(AddressedInstruction::RemainderImmediate(*v)),
            Instruction::AndImmediate(v) => Ok(AddressedInstruction::AndImmediate(*v)),
            Instruction::Shift(v) => Ok(AddressedInstruction::Shift(*v)),
            Instruction::ClearAc => Ok(AddressedInstruction::ClearAc),
            Instruction::NoOp => Ok(AddressedInstruction::NoOp),
        }
    }

    /// The second pass: walks the finished text stream once and substitutes
    /// every label reference with its concrete address, failing with the
    /// first label that no definition named. Data words pass through
    /// unchanged.
    pub fn address_program(&mut self) -> (r: Result<AddressedProgram, ParseError>)
        ensures
            final(self)@ == old(self)@,
            match r {
                Ok(ap) => address_text_spec(
                    old(self)@.text,
                    old(self)@.text_labels,
                    old(self)@.data_labels,
                ) == Ok::<Seq<AddressedInstruction>, ParseErrorModel>(ap.text@) && ap.data@ == old(
                    self,
                )@.data,
                Err(e) => address_text_spec(
                    old(self)@.text,
                    old(self)@.text_labels,
                    old(self)@.data_labels,
                ) matches Err(em) && e@ == em,
            },
    {
        let mut text: Vec<AddressedInstruction> = Vec::new();
        let mut data: Vec<i16> = Vec::new();
        let mut k: usize = 0;
        while k < self.data.len()
            invariant
                self@ == old(self)@,
                k <= self.data@.len(),
                data@ == self.data@.subrange(0, k as int),
            decreases self.data@.len() - k,
        {
            data.push(self.data[k]);
            proof {
                assert(data@ =~= self.data@.subrange(0, k as int + 1));
            }
            k = k + 1;
        }
        proof {
            assert(self.data@.subrange(0, self.data@.len() as int) =~= self.data@);
        }
        let n = self.text.len();
        let mut j: usize = 0;
        while j < n
            invariant
                self@ == old(self)@,
                n == self.text@.len(),
                j <= n,
                text@.len() == j,
                forall|i: int|
                    0 <= i < j ==> resolve_instr_spec(
                        #[trigger] self@.text[i],
                        self@.text_labels,
                        self@.data_labels,
                    ) == Ok::<AddressedInstruction, ParseErrorModel>(text@[i]),
            decreases n - j,
        {
            let ins = &self.text[j];
            match self.resolve_instr(ins) {
                Ok(a) => {
                    text.push(a);
                },
                Err(e) => {
                    proof {
                        lemma_address_text_first_err(
                            self@.text,
                            self@.text_labels,
                            self@.data_labels,
                            j as int,
                        );
                    }
                    return Err(e);
                },
            }
            j = j + 1;
        }
        proof {
            let tx = self@.text;
            let tl = self@.text_labels;
            let dl = self@.data_labels;
            lemma_address_text_pointwise(tx, tl, dl);
            assert(address_text_spec(tx, tl, dl) is Ok);
            match address_text_spec(tx, tl, dl) {
                Ok(rr) => {
                    assert forall|i: int| 0 <= i < tx.len() implies rr[i] == text@[i] by {
                        assert(resolve_instr_spec(tx[i], tl, dl) == Ok::<
                            AddressedInstruction,
                            ParseErrorModel,
                        >(rr[i]));
                    }
                    assert(rr =~= text@);
                },
                Err(_) => {
                    assert(false);
                },
            }
        }
        Ok(AddressedProgram { text, data })
    }
}


/// A branch materializes exactly the address its label carries in the
/// completed text-space table, and fails exactly when that table lacks the
/// name.
pub proof fn lemma_branch_resolution(
    name: Seq<char>,
    tl: Seq<LabelEntryModel>,
    dl: Seq<LabelEntryModel>,
)
    ensures
        tbl_contains(tl, name) ==> resolve_instr_spec(InstructionModel::Branch(name), tl, dl)
            == Ok::<AddressedInstruction, ParseErrorModel>(
            AddressedInstruction::Branch(tbl_addr(tl, name)),
        ),
        !tbl_contains(tl, name) ==> resolve_instr_spec(InstructionModel::Branch(name), tl, dl)
            == Err::<AddressedInstruction, ParseErrorModel>(ParseErrorModel::UnknownLabel(name)),
{
}

} // verus!
