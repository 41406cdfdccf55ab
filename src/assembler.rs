//! The assembler: tokens, the five instruction shapes, programs, and their
//! binary encoding.
use vstd::prelude::*;
use crate::instruction::{
    byte_of, lemma_unknown_mnemonic, mnemonic, opcode_of_byte, opcode_of_mnemonic, Opcode,
};
use crate::vm::{
    execute_operands, lemma_illegal_byte_halts, operand_count, register_operand_count, run_steps_spec,
    step, Halt, VmState, REGISTER_COUNT,
};
use crate::lexer::{
    alpha_end, digit_end, digits_value, digits_value_upto, scan_alpha, scan_digits, scan_spaces,
    skip_spaces,
};

verus! {

/// A lexical unit of an instruction: an opcode, a register `$n`, or an
/// integer literal `#n`.
#[derive(Clone, Copy, Debug, PartialEq, Eq, Structural)]
pub enum Token {
    Op { code: Opcode },
    Register { reg_num: u8 },
    IntegerOperand { value: i32 },
}

/// Text that matches no shape of the grammar, or no byte in base 16.
#[derive(Clone, Copy, Debug, PartialEq, Eq, Structural)]
pub struct ParseError;

/// A token read from `b` at some position: the token and the position just
/// past it (and past the spaces after it, for operands).
pub type Scanned<T> = Option<(T, int)>;

/// The opcode token at `i`: a maximal run of letters, resolved through the
/// mnemonic table.
pub open spec fn opcode_spec(b: Seq<u8>, i: int) -> Scanned<Token> {
    let e = alpha_end(b, i);
    if e > i {
        Some((Token::Op { code: opcode_of_mnemonic(b.subrange(i, e)) }, e))
    } else {
        None
    }
}

/// The register token after the spaces at `i`: `$` and decimal digits that
/// write a number below 256, then spaces.
pub open spec fn register_spec(b: Seq<u8>, i: int) -> Scanned<Token> {
    let k = skip_spaces(b, i);
    let e = digit_end(b, k + 1);
    if k < b.len() && b[k] == '$' as u8 && e > k + 1 && digits_value(b, k + 1, e) <= 255 {
        Some((Token::Register { reg_num: digits_value(b, k + 1, e) as u8 }, skip_spaces(b, e)))
    } else {
        None
    }
}

/// The integer token after the spaces at `i`: `#`, an optional sign, and
/// decimal digits that write a number in the range of `i32`, then spaces.
pub open spec fn integer_spec(b: Seq<u8>, i: int) -> Scanned<Token> {
    let k = skip_spaces(b, i);
    let signed = k + 1 < b.len() && (b[k + 1] == '-' as u8 || b[k + 1] == '+' as u8);
    let negative = k + 1 < b.len() && b[k + 1] == '-' as u8;
    let d = if signed {
        k + 2
    } else {
        k + 1
    };
    let e = digit_end(b, d);
    let v = if negative {
        -digits_value(b, d, e)
    } else {
        digits_value(b, d, e)
    };
    if k < b.len() && b[k] == '#' as u8 && e > d && i32::MIN <= v <= i32::MAX {
        Some((Token::IntegerOperand { value: v as i32 }, skip_spaces(b, e)))
    } else {
        None
    }
}

/// An instruction as the parser gives it: an opcode token and up to three
/// operand tokens.
#[derive(Clone, Copy, Debug, PartialEq, Eq, Structural)]
pub struct AssemblerInstruction {
    pub opcode: Token,
    pub operand1: Option<Token>,
    pub operand2: Option<Token>,
    pub operand3: Option<Token>,
}

/// An ordered sequence of instructions.
#[derive(Debug, PartialEq, Eq)]
pub struct Program {
    pub instructions: Vec<AssemblerInstruction>,
}

/// Where an operand may stand: anything but an opcode token.
pub open spec fn operand_ok(o: Option<Token>) -> bool {
    !(o matches Some(Token::Op { .. }))
}

impl AssemblerInstruction {
    /// The opcode field holds an opcode, and no operand field does.
    pub open spec fn wf(self) -> bool {
        &&& self.opcode is Op
        &&& operand_ok(self.operand1)
        &&& operand_ok(self.operand2)
        &&& operand_ok(self.operand3)
    }
}

/// A value narrowed to 16 bits: values in `-32768..=65535` keep their 16-bit
/// pattern (two's complement for negatives), others saturate at the nearer
/// end of that range.
pub open spec fn narrow16(v: int) -> int {
    if v < -32768 {
        32768
    } else if v > 65535 {
        65535
    } else if v < 0 {
        v + 65536
    } else {
        v
    }
}

/// The bytes of one operand: a register's index, or an integer's 16 bits,
/// most significant byte first.
pub open spec fn operand_bytes(t: Token) -> Seq<u8> {
    match t {
        Token::Register { reg_num } => seq![reg_num],
        Token::IntegerOperand { value } => seq![
            (narrow16(value as int) / 256) as u8,
            (narrow16(value as int) % 256) as u8,
        ],
        Token::Op { .. } => Seq::empty(),
    }
}

/// The bytes of an operand field: none when it is empty.
pub open spec fn optional_bytes(o: Option<Token>) -> Seq<u8> {
    match o {
        Some(t) => operand_bytes(t),
        None => Seq::empty(),
    }
}

/// The encoding of an instruction: its opcode's byte, then the bytes of each
/// present operand in order.
pub open spec fn encode(i: AssemblerInstruction) -> Seq<u8> {
    let code = match i.opcode {
        Token::Op { code } => byte_of(code),
        _ => 0,
    };
    seq![code] + optional_bytes(i.operand1) + optional_bytes(i.operand2) + optional_bytes(
        i.operand3,
    )
}

/// The encodings of instructions, concatenated in order.
pub open spec fn encode_all(s: Seq<AssemblerInstruction>) -> Seq<u8>
    decreases s.len(),
{
    if s.len() == 0 {
        Seq::empty()
    } else {
        encode_all(s.drop_last()) + encode(s.last())
    }
}

/// A position-carrying result in exec form, as a `Scanned`.
pub open spec fn lift<T>(r: Option<(T, usize)>) -> Scanned<T> {
    match r {
        Some((t, j)) => Some((t, j as int)),
        None => None,
    }
}

/// `r` is what a parser gives on `input` when the grammar reads `expected`
/// from its start: the value and the rest of the input, or an error.
pub open spec fn parsed<T>(input: Seq<u8>, r: Result<(&[u8], T), ParseError>, expected: Scanned<T>) -> bool {
    match expected {
        None => r is Err,
        Some((t, j)) => r matches Ok((rest, u)) && u == t && rest@ == input.subrange(j, input.len() as int),
    }
}

/// The instruction with these fields.
pub open spec fn instruction_of(
    o: Token,
    a: Option<Token>,
    b: Option<Token>,
    c: Option<Token>,
) -> AssemblerInstruction {
    AssemblerInstruction { opcode: o, operand1: a, operand2: b, operand3: c }
}

/// Shape `one`: an opcode, then a register, then an integer.
pub open spec fn form_one_spec(b: Seq<u8>, i: int) -> Scanned<AssemblerInstruction> {
    match opcode_spec(b, i) {
        Some((t0, p1)) => match register_spec(b, p1) {
            Some((t1, p2)) => match integer_spec(b, p2) {
                Some((t2, p3)) => Some((instruction_of(t0, Some(t1), Some(t2), None), p3)),
                None => None,
            },
            None => None,
        },
        None => None,
    }
}

/// Shape `three`: an opcode, then three registers.
pub open spec fn form_three_spec(b: Seq<u8>, i: int) -> Scanned<AssemblerInstruction> {
    match opcode_spec(b, i) {
        Some((t0, p1)) => match register_spec(b, p1) {
            Some((t1, p2)) => match register_spec(b, p2) {
                Some((t2, p3)) => match register_spec(b, p3) {
                    Some((t3, p4)) => Some((instruction_of(t0, Some(t1), Some(t2), Some(t3)), p4)),
                    None => None,
                },
                None => None,
            },
            None => None,
        },
        None => None,
    }
}

/// Shape `four`: an opcode, then two registers.
pub open spec fn form_four_spec(b: Seq<u8>, i: int) -> Scanned<AssemblerInstruction> {
    match opcode_spec(b, i) {
        Some((t0, p1)) => match register_spec(b, p1) {
            Some((t1, p2)) => match register_spec(b, p2) {
                Some((t2, p3)) => Some((instruction_of(t0, Some(t1), Some(t2), None), p3)),
                None => None,
            },
            None => None,
        },
        None => None,
    }
}

/// Shape `five`: an opcode, then one register.
pub open spec fn form_five_spec(b: Seq<u8>, i: int) -> Scanned<AssemblerInstruction> {
    match opcode_spec(b, i) {
        Some((t0, p1)) => match register_spec(b, p1) {
            Some((t1, p2)) => Some((instruction_of(t0, Some(t1), None, None), p2)),
            None => None,
        },
        None => None,
    }
}

/// Shape `two`: an opcode, then nothing more.
pub open spec fn form_two_spec(b: Seq<u8>, i: int) -> Scanned<AssemblerInstruction> {
    match opcode_spec(b, i) {
        Some((t0, p1)) => Some((instruction_of(t0, None, None, None), p1)),
        None => None,
    }
}

/// Reads an opcode token at `i`.
fn opcode_at(b: &[u8], i: usize) -> (r: Option<(Token, usize)>)
    requires
        i <= b@.len(),
    ensures
        lift(r) == opcode_spec(b@, i as int),
        r matches Some((t, j)) ==> i < j <= b@.len() && t is Op,
{
    let e = scan_alpha(b, i);
    if e == i {
        return None;
    }
    let word = vstd::slice::slice_subrange(b, i, e);
    Some((Token::Op { code: Opcode::from_mnemonic(word) }, e))
}

/// Reads a register token after the spaces at `i`.
fn register_at(b: &[u8], i: usize) -> (r: Option<(Token, usize)>)
    requires
        i <= b@.len(),
    ensures
        lift(r) == register_spec(b@, i as int),
        r matches Some((t, j)) ==> i < j <= b@.len() && t is Register,
{
    let k = scan_spaces(b, i);
    if k >= b.len() || b[k] != '$' as u8 {
        return None;
    }
    let e = scan_digits(b, k + 1);
    if e == k + 1 {
        return None;
    }
    match digits_value_upto(b, k + 1, e, 255) {
        Some(v) => Some((Token::Register { reg_num: v as u8 }, scan_spaces(b, e))),
        None => None,
    }
}

/// Reads an integer token after the spaces at `i`.
fn integer_at(b: &[u8], i: usize) -> (r: Option<(Token, usize)>)
    requires
        i <= b@.len(),
    ensures
        lift(r) == integer_spec(b@, i as int),
        r matches Some((t, j)) ==> i < j <= b@.len() && t is IntegerOperand,
{
    let k = scan_spaces(b, i);
    if k >= b.len() || b[k] != '#' as u8 {
        return None;
    }
    let negative = k + 1 < b.len() && b[k + 1] == '-' as u8;
    let signed = k + 1 < b.len() && (b[k + 1] == '-' as u8 || b[k + 1] == '+' as u8);
    let d = if signed {
        k + 2
    } else {
        k + 1
    };
    let e = scan_digits(b, d);
    if e == d {
        return None;
    }
    let cap: u64 = if negative {
        0x8000_0000
    } else {
        0x7fff_ffff
    };
    match digits_value_upto(b, d, e, cap) {
        Some(v) => {
            let value: i32 = if negative {
                (0 - (v as i64)) as i32
            } else {
                v as i32
            };
            Some((Token::IntegerOperand { value }, scan_spaces(b, e)))
        },
        None => None,
    }
}

/// Reads shape `one` at `i`: an opcode, then a register, then an integer.
fn form_one_at(b: &[u8], i: usize) -> (r: Option<(AssemblerInstruction, usize)>)
    requires
        i <= b@.len(),
    ensures
        lift(r) == form_one_spec(b@, i as int),
        r matches Some((ins, j)) ==> i < j <= b@.len() && ins.wf(),
{
    let (t0, p1) = match opcode_at(b, i) {
        Some(x) => x,
        None => return None,
    };
    let (t1, p2) = match register_at(b, p1) {
        Some(x) => x,
        None => return None,
    };
    let (t2, p3) = match integer_at(b, p2) {
        Some(x) => x,
        None => return None,
    };
    let ins = AssemblerInstruction {
        opcode: t0,
        operand1: Some(t1),
        operand2: Some(t2),
        operand3: None,
    };
    Some((ins, p3))
}

/// Reads shape `three` at `i`: an opcode, then three registers.
fn form_three_at(b: &[u8], i: usize) -> (r: Option<(AssemblerInstruction, usize)>)
    requires
        i <= b@.len(),
    ensures
        lift(r) == form_three_spec(b@, i as int),
        r matches Some((ins, j)) ==> i < j <= b@.len() && ins.wf(),
{
    let (t0, p1) = match opcode_at(b, i) {
        Some(x) => x,
        None => return None,
    };
    let (t1, p2) = match register_at(b, p1) {
        Some(x) => x,
        None => return None,
    };
    let (t2, p3) = match register_at(b, p2) {
        Some(x) => x,
        None => return None,
    };
    let (t3, p4) = match register_at(b, p3) {
        Some(x) => x,
        None => return None,
    };
    let ins = AssemblerInstruction {
        opcode: t0,
        operand1: Some(t1),
        operand2: Some(t2),
        operand3: Some(t3),
    };
    Some((ins, p4))
}

/// Reads shape `four` at `i`: an opcode, then two registers.
fn form_four_at(b: &[u8], i: usize) -> (r: Option<(AssemblerInstruction, usize)>)
    requires
        i <= b@.len(),
    ensures
        lift(r) == form_four_spec(b@, i as int),
        r matches Some((ins, j)) ==> i < j <= b@.len() && ins.wf(),
{
    let (t0, p1) = match opcode_at(b, i) {
        Some(x) => x,
        None => return None,
    };
    let (t1, p2) = match register_at(b, p1) {
        Some(x) => x,
        None => return None,
    };
    let (t2, p3) = match register_at(b, p2) {
        Some(x) => x,
        None => return None,
    };
    let ins = AssemblerInstruction {
        opcode: t0,
        operand1: Some(t1),
        operand2: Some(t2),
        operand3: None,
    };
    Some((ins, p3))
}

/// Reads shape `five` at `i`: an opcode, then one register.
fn form_five_at(b: &[u8], i: usize) -> (r: Option<(AssemblerInstruction, usize)>)
    requires
        i <= b@.len(),
    ensures
        lift(r) == form_five_spec(b@, i as int),
        r matches Some((ins, j)) ==> i < j <= b@.len() && ins.wf(),
{
    let (t0, p1) = match opcode_at(b, i) {
        Some(x) => x,
        None => return None,
    };
    let (t1, p2) = match register_at(b, p1) {
        Some(x) => x,
        None => return None,
    };
    let ins = AssemblerInstruction {
        opcode: t0,
        operand1: Some(t1),
        operand2: None,
        operand3: None,
    };
    Some((ins, p2))
}

/// Reads shape `two` at `i`: an opcode, then nothing more.
fn form_two_at(b: &[u8], i: usize) -> (r: Option<(AssemblerInstruction, usize)>)
    requires
        i <= b@.len(),
    ensures
        lift(r) == form_two_spec(b@, i as int),
        r matches Some((ins, j)) ==> i < j <= b@.len() && ins.wf(),
{
    let (t0, p1) = match opcode_at(b, i) {
        Some(x) => x,
        None => return None,
    };
    let ins = AssemblerInstruction {
        opcode: t0,
        operand1: None,
        operand2: None,
        operand3: None,
    };
    Some((ins, p1))
}


/// The five shapes tried in turn; the first that matches decides.
pub open spec fn instruction_spec(b: Seq<u8>, i: int) -> Scanned<AssemblerInstruction> {
    if form_one_spec(b, i) is Some {
        form_one_spec(b, i)
    } else if form_three_spec(b, i) is Some {
        form_three_spec(b, i)
    } else if form_four_spec(b, i) is Some {
        form_four_spec(b, i)
    } else if form_five_spec(b, i) is Some {
        form_five_spec(b, i)
    } else {
        form_two_spec(b, i)
    }
}

/// Instructions of shape `one`, read one after another from `i` for as long
/// as they match, and the position after the last.
pub open spec fn program_spec(b: Seq<u8>, i: int) -> (Seq<AssemblerInstruction>, int)
    decreases b.len() - i,
{
    match form_one_spec(b, i) {
        Some((ins, j)) => if i < j <= b.len() {
            let (rest, k) = program_spec(b, j);
            (seq![ins] + rest, k)
        } else {
            (Seq::empty(), i)
        },
        None => (Seq::empty(), i),
    }
}

/// A whole program: at least one instruction of shape `one`.
pub open spec fn program_of(b: Seq<u8>) -> Scanned<Seq<AssemblerInstruction>> {
    let (s, k) = program_spec(b, 0);
    if s.len() > 0 {
        Some((s, k))
    } else {
        None
    }
}

/// Reads one instruction of any shape at `i`.
fn instruction_at(b: &[u8], i: usize) -> (r: Option<(AssemblerInstruction, usize)>)
    requires
        i <= b@.len(),
    ensures
        lift(r) == instruction_spec(b@, i as int),
        r matches Some((ins, j)) ==> i < j <= b@.len() && ins.wf(),
{
    let r = form_one_at(b, i);
    if r.is_some() {
        return r;
    }
    let r = form_three_at(b, i);
    if r.is_some() {
        return r;
    }
    let r = form_four_at(b, i);
    if r.is_some() {
        return r;
    }
    let r = form_five_at(b, i);
    if r.is_some() {
        return r;
    }
    form_two_at(b, i)
}

/// Reads instructions of shape `one` from `i` for as long as they match.
fn program_at(b: &[u8], i: usize) -> (r: (Vec<AssemblerInstruction>, usize))
    requires
        i <= b@.len(),
    ensures
        (r.0@, r.1 as int) == program_spec(b@, i as int),
        r.1 <= b@.len(),
        forall|k: int| 0 <= k < r.0@.len() ==> (#[trigger] r.0@[k]).wf(),
{
    let mut instructions: Vec<AssemblerInstruction> = Vec::new();
    let mut pos = i;
    loop
        invariant
            i <= pos <= b@.len(),
            (instructions@ + program_spec(b@, pos as int).0, program_spec(b@, pos as int).1)
                == program_spec(b@, i as int),
            forall|k: int| 0 <= k < instructions@.len() ==> (#[trigger] instructions@[k]).wf(),
        decreases b@.len() - pos,
    {
        match form_one_at(b, pos) {
            Some((ins, j)) => {
                proof {
                    let rest = program_spec(b@, j as int);
                    assert(instructions@.push(ins) + rest.0 =~= instructions@ + (seq![ins] + rest.0));
                }
                instructions.push(ins);
                pos = j;
            },
            None => {
                assert(instructions@ + Seq::<AssemblerInstruction>::empty() =~= instructions@);
                return (instructions, pos);
            },
        }
    }
}

/// Packs a position-carrying result with the rest of the input.
fn finish<T>(input: &[u8], r: Option<(T, usize)>) -> (out: Result<(&[u8], T), ParseError>)
    requires
        r matches Some((_, j)) ==> j <= input@.len(),
    ensures
        parsed(input@, out, lift(r)),
{
    match r {
        Some((t, j)) => Ok((vstd::slice::slice_subrange(input, j, input.len()), t)),
        None => Err(ParseError),
    }
}

/// An opcode: a maximal run of letters, resolved through the mnemonic table
/// (an unknown word gives `IGL`).
pub fn opcode(input: &[u8]) -> (r: Result<(&[u8], Token), ParseError>)
    ensures
        parsed(input@, r, opcode_spec(input@, 0)),
{
    finish(input, opcode_at(input, 0))
}

/// A register operand `$n` with `n` below 256, with the spaces around it.
pub fn register(input: &[u8]) -> (r: Result<(&[u8], Token), ParseError>)
    ensures
        parsed(input@, r, register_spec(input@, 0)),
{
    finish(input, register_at(input, 0))
}

/// An integer operand `#n`, with an optional sign, in the range of `i32`,
/// with the spaces around it.
pub fn integer_operand(input: &[u8]) -> (r: Result<(&[u8], Token), ParseError>)
    ensures
        parsed(input@, r, integer_spec(input@, 0)),
{
    finish(input, integer_at(input, 0))
}

/// An opcode, a register and an integer (`load $0 #100`).
pub fn instruction_one(input: &[u8]) -> (r: Result<(&[u8], AssemblerInstruction), ParseError>)
    ensures
        parsed(input@, r, form_one_spec(input@, 0)),
{
    finish(input, form_one_at(input, 0))
}

/// An opcode alone (`hlt`).
pub fn instruction_two(input: &[u8]) -> (r: Result<(&[u8], AssemblerInstruction), ParseError>)
    ensures
        parsed(input@, r, form_two_spec(input@, 0)),
{
    finish(input, form_two_at(input, 0))
}

/// An opcode and three registers (`add $0 $1 $2`).
pub fn instruction_three(input: &[u8]) -> (r: Result<(&[u8], AssemblerInstruction), ParseError>)
    ensures
        parsed(input@, r, form_three_spec(input@, 0)),
{
    finish(input, form_three_at(input, 0))
}

/// An opcode and two registers (`eq $0 $1`).
pub fn instruction_four(input: &[u8]) -> (r: Result<(&[u8], AssemblerInstruction), ParseError>)
    ensures
        parsed(input@, r, form_four_spec(input@, 0)),
{
    finish(input, form_four_at(input, 0))
}

/// An opcode and one register (`jmp $0`).
pub fn instruction_five(input: &[u8]) -> (r: Result<(&[u8], AssemblerInstruction), ParseError>)
    ensures
        parsed(input@, r, form_five_spec(input@, 0)),
{
    finish(input, form_five_at(input, 0))
}

/// One instruction of any of the five shapes.
pub fn instruction(input: &[u8]) -> (r: Result<(&[u8], AssemblerInstruction), ParseError>)
    ensures
        parsed(input@, r, instruction_spec(input@, 0)),
        r matches Ok((_, ins)) ==> ins.wf(),
{
    finish(input, instruction_at(input, 0))
}

/// A program: one or more instructions of shape `one`, one after another.
pub fn program(input: &[u8]) -> (r: Result<(&[u8], Program), ParseError>)
    ensures
        match program_of(input@) {
            None => r is Err,
            Some((s, k)) => r matches Ok((rest, p)) && p.instructions@ == s && rest@ == input@.subrange(
                k,
                input@.len() as int,
            ),
        },
        r matches Ok((_, p)) ==> p.wf(),
{
    let (instructions, pos) = program_at(input, 0);
    if instructions.len() == 0 {
        return Err(ParseError);
    }
    Ok((vstd::slice::slice_subrange(input, pos, input.len()), Program { instructions }))
}

/// A text in the full grammar, from `i` on: instructions of any of the five
/// shapes, with spaces before each, up to the end of the text.
pub open spec fn compile_spec(b: Seq<u8>, i: int) -> Option<Seq<AssemblerInstruction>>
    decreases b.len() - i,
{
    let k = skip_spaces(b, i);
    if !(i <= k <= b.len()) {
        None
    } else if k == b.len() {
        Some(Seq::empty())
    } else {
        match instruction_spec(b, k) {
            Some((ins, j)) => if k < j <= b.len() {
                match compile_spec(b, j) {
                    Some(rest) => Some(seq![ins] + rest),
                    None => None,
                }
            } else {
                None
            },
            None => None,
        }
    }
}

/// `p` before what `r` holds, if it holds anything.
pub open spec fn prepend_all(
    p: Seq<AssemblerInstruction>,
    r: Option<Seq<AssemblerInstruction>>,
) -> Option<Seq<AssemblerInstruction>> {
    match r {
        Some(rest) => Some(p + rest),
        None => None,
    }
}

/// Parses a whole text in the full grammar, every line matched against all
/// five shapes.
pub fn parse_all(text: &[u8]) -> (r: Result<Program, ParseError>)
    ensures
        match compile_spec(text@, 0) {
            Some(s) => r matches Ok(p) && p.instructions@ == s,
            None => r is Err,
        },
        r matches Ok(p) ==> p.wf(),
{
    let mut instructions: Vec<AssemblerInstruction> = Vec::new();
    let mut pos: usize = 0;
    loop
        invariant
            pos <= text@.len(),
            compile_spec(text@, 0) == prepend_all(instructions@, compile_spec(text@, pos as int)),
            forall|k: int| 0 <= k < instructions@.len() ==> (#[trigger] instructions@[k]).wf(),
        decreases text@.len() - pos,
    {
        let k = scan_spaces(text, pos);
        if k == text.len() {
            assert(instructions@ + Seq::<AssemblerInstruction>::empty() =~= instructions@);
            return Ok(Program { instructions });
        }
        match instruction_at(text, k) {
            None => {
                return Err(ParseError);
            },
            Some((ins, j)) => {
                proof {
                    let rest = compile_spec(text@, j as int);
                    if rest is Some {
                        assert(instructions@.push(ins) + rest->0 =~= instructions@ + (seq![ins]
                            + rest->0));
                    }
                }
                instructions.push(ins);
                pos = j;
            },
        }
    }
}

/// Compiles a text in the full grammar to the machine's byte stream.
pub fn compile(text: &[u8]) -> (r: Result<Vec<u8>, ParseError>)
    ensures
        match compile_spec(text@, 0) {
            Some(s) => r matches Ok(v) && v@ == encode_all(s),
            None => r is Err,
        },
{
    match parse_all(text) {
        Ok(p) => Ok(p.to_bytes()),
        Err(e) => Err(e),
    }
}

impl AssemblerInstruction {
    /// The binary form: the opcode's byte, then each present operand's bytes.
    pub fn to_bytes(&self) -> (r: Vec<u8>)
        requires
            self.wf(),
        ensures
            r@ == encode(*self),
    {
        let mut results: Vec<u8> = Vec::new();
        match self.opcode {
            Token::Op { code } => results.push(code.to_byte()),
            _ => {},
        }
        AssemblerInstruction::extract_optional(&self.operand1, &mut results);
        AssemblerInstruction::extract_optional(&self.operand2, &mut results);
        AssemblerInstruction::extract_optional(&self.operand3, &mut results);
        assert(results@ =~= encode(*self));
        results
    }

    /// Appends the bytes of an operand field, if it holds one.
    fn extract_optional(o: &Option<Token>, results: &mut Vec<u8>)
        requires
            operand_ok(*o),
        ensures
            final(results)@ == old(results)@ + optional_bytes(*o),
    {
        match o {
            Some(t) => AssemblerInstruction::extract_operand(t, results),
            None => {
                assert(old(results)@ + Seq::<u8>::empty() =~= old(results)@);
            },
        }
    }

    /// Appends the bytes of one operand.
    fn extract_operand(t: &Token, results: &mut Vec<u8>)
        requires
            !(t is Op),
        ensures
            final(results)@ == old(results)@ + operand_bytes(*t),
    {
        match t {
            Token::Register { reg_num } => {
                results.push(*reg_num);
            },
            Token::IntegerOperand { value } => {
                let converted = narrow_to_u16(*value);
                results.push((converted / 256) as u8);
                results.push((converted % 256) as u8);
            },
            Token::Op { .. } => {},
        }
        assert(final(results)@ =~= old(results)@ + operand_bytes(*t));
    }
}

/// `narrow16` in exec form.
fn narrow_to_u16(v: i32) -> (r: u16)
    ensures
        r == narrow16(v as int),
{
    if v < -32768 {
        32768
    } else if v > 65535 {
        65535
    } else if v < 0 {
        (v + 65536) as u16
    } else {
        v as u16
    }
}

impl Program {
    /// Every instruction is well formed.
    pub open spec fn wf(self) -> bool {
        forall|k: int| 0 <= k < self.instructions@.len() ==> (#[trigger] self.instructions@[k]).wf()
    }

    /// The encodings of the instructions, concatenated in order, with no
    /// padding or separators.
    pub fn to_bytes(&self) -> (r: Vec<u8>)
        requires
            self.wf(),
        ensures
            r@ == encode_all(self.instructions@),
    {
        let mut bytes: Vec<u8> = Vec::new();
        let mut k: usize = 0;
        while k < self.instructions.len()
            invariant
                0 <= k <= self.instructions@.len(),
                self.wf(),
                bytes@ == encode_all(self.instructions@.subrange(0, k as int)),
            decreases self.instructions@.len() - k,
        {
            let encoded = self.instructions[k].to_bytes();
            let mut j: usize = 0;
            let ghost before = bytes@;
            while j < encoded.len()
                invariant
                    0 <= j <= encoded@.len(),
                    bytes@ == before + encoded@.subrange(0, j as int),
                decreases encoded@.len() - j,
            {
                bytes.push(encoded[j]);
                assert(bytes@ =~= before + encoded@.subrange(0, j + 1));
                j = j + 1;
            }
            proof {
                let s = self.instructions@.subrange(0, k + 1);
                assert(s.drop_last() =~= self.instructions@.subrange(0, k as int));
                assert(encoded@.subrange(0, j as int) =~= encoded@);
            }
            k = k + 1;
        }
        assert(self.instructions@.subrange(0, k as int) =~= self.instructions@);
        bytes
    }
}


/// Text that reads as shape `one` (`op $r #n`) encodes to four bytes: the
/// byte of the opcode its word names, the register's index, and `n`
/// narrowed to 16 bits, most significant byte first (so `n` itself, for
/// `n` in `0..=65535`).
pub proof fn lemma_form_one_encoding(b: Seq<u8>)
    requires
        form_one_spec(b, 0) is Some,
    ensures
        ({
            let ins = (form_one_spec(b, 0)->0).0;
            let e = encode(ins);
            let code = opcode_of_mnemonic(b.subrange(0, alpha_end(b, 0)));
            &&& e.len() == 4
            &&& ins.opcode == (Token::Op { code })
            &&& e[0] == byte_of(code)
            &&& ins.operand1 is Some && ins.operand1->0 is Register
            &&& e[1] == ins.operand1->0->reg_num
            &&& ins.operand2 is Some && ins.operand2->0 is IntegerOperand
            &&& e[2] * 256 + e[3] == narrow16(ins.operand2->0->value as int)
            &&& 0 <= ins.operand2->0->value <= 65535 ==> e[2] * 256 + e[3] == ins.operand2->0->value
        }),
{
    let ins = (form_one_spec(b, 0)->0).0;
    let n = narrow16(ins.operand2->0->value as int);
    vstd::arithmetic::div_mod::lemma_fundamental_div_mod(n, 256);
    assert(encode(ins) =~= seq![encode(ins)[0], encode(ins)[1], (n / 256) as u8, (n % 256) as u8]);
}

/// A line of shape `one` whose word is no known mnemonic still parses; it
/// encodes to the illegal opcode's byte, and executing that byte halts the
/// machine without altering any register.
pub proof fn lemma_unknown_word_halts(b: Seq<u8>, m: VmState)
    requires
        form_one_spec(b, 0) is Some,
        forall|op: Opcode| op != Opcode::IGL ==> mnemonic(op) != b.subrange(0, alpha_end(b, 0)),
        0 <= m.pc < m.program.len(),
        m.program[m.pc] == encode((form_one_spec(b, 0)->0).0)[0],
    ensures
        (form_one_spec(b, 0)->0).0.opcode == (Token::Op { code: Opcode::IGL }),
        step(m).1 == Some(Halt::Illegal),
        step(m).0.registers == m.registers,
        step(m).0.pc == m.pc + 1,
{
    lemma_form_one_encoding(b);
    lemma_unknown_mnemonic(b.subrange(0, alpha_end(b, 0)));
    lemma_illegal_byte_halts(m);
}

/// An instruction with no operands encodes to its opcode's byte alone; in
/// particular text that reads as shape `two` (an opcode alone) does.
pub proof fn lemma_no_operand_encoding(code: Opcode, b: Seq<u8>)
    ensures
        encode(instruction_of(Token::Op { code }, None, None, None)) == seq![byte_of(code)],
        form_two_spec(b, 0) is Some ==> encode((form_two_spec(b, 0)->0).0).len() == 1,
{
    assert(encode(instruction_of(Token::Op { code }, None, None, None)) =~= seq![byte_of(code)]);
    if form_two_spec(b, 0) is Some {
        let ins = (form_two_spec(b, 0)->0).0;
        assert(encode(ins) =~= seq![encode(ins)[0]]);
    }
}

/// Whether an operand is a register.
pub open spec fn is_register(o: Option<Token>) -> bool {
    o matches Some(Token::Register { .. })
}

/// Whether an operand is an integer.
pub open spec fn is_integer(o: Option<Token>) -> bool {
    o matches Some(Token::IntegerOperand { .. })
}

/// The register index an operand names (0 if it names none).
pub open spec fn reg_of(o: Option<Token>) -> u8 {
    match o {
        Some(Token::Register { reg_num }) => reg_num,
        _ => 0,
    }
}

/// The value of an integer operand (0 if it is none).
pub open spec fn int_of(o: Option<Token>) -> int {
    match o {
        Some(Token::IntegerOperand { value }) => value as int,
        _ => 0,
    }
}

/// The opcode of an instruction (`IGL` if its opcode field holds none).
pub open spec fn code_of(ins: AssemblerInstruction) -> Opcode {
    match ins.opcode {
        Token::Op { code } => code,
        _ => Opcode::IGL,
    }
}

/// The operands have the kinds that the machine reads for the opcode:
/// `load` a register and an integer; the others as many registers as they
/// have operand bytes.
pub open spec fn fits_layout(ins: AssemblerInstruction) -> bool {
    let n = operand_count(code_of(ins));
    &&& ins.opcode is Op
    &&& if code_of(ins) == Opcode::LOAD {
        is_register(ins.operand1) && is_integer(ins.operand2) && ins.operand3 is None
    } else {
        &&& (if n >= 1 { is_register(ins.operand1) } else { ins.operand1 is None })
        &&& (if n >= 2 { is_register(ins.operand2) } else { ins.operand2 is None })
        &&& (if n >= 3 { is_register(ins.operand3) } else { ins.operand3 is None })
    }
}

/// Executing a structured instruction directly, read from its tokens, as
/// it stands at the program counter of `s`.
pub open spec fn structured_step(s: VmState, ins: AssemblerInstruction) -> (VmState, Option<Halt>) {
    let code = code_of(ins);
    let regs = seq![reg_of(ins.operand1), reg_of(ins.operand2), reg_of(ins.operand3)];
    if code == Opcode::HLT {
        (VmState { pc: s.pc + 1, ..s }, Some(Halt::Halted))
    } else if code == Opcode::IGL {
        (VmState { pc: s.pc + 1, ..s }, Some(Halt::Illegal))
    } else if !(forall|k: int| 0 <= k < register_operand_count(code) ==> regs[k] < REGISTER_COUNT) {
        (s, Some(Halt::BadRegister))
    } else {
        execute_operands(
            s,
            code,
            regs[0],
            regs[1],
            regs[2],
            narrow16(int_of(ins.operand2)) as i32,
            s.pc + encode(ins).len(),
        )
    }
}

/// Decoding an encoded instruction in the machine has the same effect as
/// executing the structured instruction directly: the bytes put each
/// operand where the machine reads it.
#[verifier::rlimit(50)]
pub proof fn lemma_encoded_instruction_round_trip(s: VmState, ins: AssemblerInstruction)
    requires
        fits_layout(ins),
        0 <= s.pc,
        s.pc + encode(ins).len() <= s.program.len(),
        s.program.subrange(s.pc, s.pc + encode(ins).len()) == encode(ins),
    ensures
        step(s) == structured_step(s, ins),
{
    let e = encode(ins);
    let code = code_of(ins);
    assert(e[0] == s.program[s.pc]);
    assert(opcode_of_byte(byte_of(code)) == code);
    if code == Opcode::LOAD {
        let n = narrow16(int_of(ins.operand2));
        vstd::arithmetic::div_mod::lemma_fundamental_div_mod(n, 256);
        assert(e =~= seq![byte_of(code), reg_of(ins.operand1), (n / 256) as u8, (n % 256) as u8]);
        assert(s.program[s.pc + 1] == e[1]);
        assert(s.program[s.pc + 2] == e[2]);
        assert(s.program[s.pc + 3] == e[3]);
    } else {
        let n = operand_count(code);
        let regs = seq![reg_of(ins.operand1), reg_of(ins.operand2), reg_of(ins.operand3)];
        assert(e =~= seq![byte_of(code)] + regs.subrange(0, n));
        if n >= 1 {
            assert(s.program[s.pc + 1] == e[1]);
        }
        if n >= 2 {
            assert(s.program[s.pc + 2] == e[2]);
        }
        if n >= 3 {
            assert(s.program[s.pc + 3] == e[3]);
        }
    }
}


/// The encoding of two instruction sequences one after the other is the
/// encoding of the first, then that of the second.
pub proof fn lemma_encode_all_append(a: Seq<AssemblerInstruction>, b: Seq<AssemblerInstruction>)
    ensures
        encode_all(a + b) == encode_all(a) + encode_all(b),
    decreases b.len(),
{
    if b.len() == 0 {
        assert(a + b =~= a);
        assert(encode_all(a) + encode_all(b) =~= encode_all(a));
    } else {
        lemma_encode_all_append(a, b.drop_last());
        assert((a + b).drop_last() =~= a + b.drop_last());
        assert(encode_all(a) + encode_all(b) =~= encode_all(a) + encode_all(b.drop_last()) + encode(
            b.last(),
        ));
    }
}

/// In the bytes of a program, instruction `k` stands, encoded, right after
/// the bytes of the instructions before it; so a machine whose program
/// counter is there executes it as the structured instruction itself.
pub proof fn lemma_program_round_trip(s: Seq<AssemblerInstruction>, k: int, m: VmState)
    requires
        0 <= k < s.len(),
        fits_layout(s[k]),
        m.program == encode_all(s),
        m.pc == encode_all(s.subrange(0, k)).len(),
    ensures
        m.program.subrange(m.pc, m.pc + encode(s[k]).len()) == encode(s[k]),
        step(m) == structured_step(m, s[k]),
{
    let pre = s.subrange(0, k);
    let post = s.subrange(k + 1, s.len() as int);
    assert(s =~= pre + seq![s[k]] + post);
    lemma_encode_all_append(pre + seq![s[k]], post);
    lemma_encode_all_append(pre, seq![s[k]]);
    assert(seq![s[k]].drop_last() =~= Seq::<AssemblerInstruction>::empty());
    assert(encode_all(Seq::<AssemblerInstruction>::empty()) == Seq::<u8>::empty());
    assert(seq![s[k]].last() == s[k]);
    assert(encode_all(seq![s[k]]) =~= encode(s[k]));
    let e = encode(s[k]);
    assert(m.program =~= encode_all(pre) + e + encode_all(post));
    assert(m.program.subrange(m.pc, m.pc + e.len()) =~= e);
    lemma_encoded_instruction_round_trip(m, s[k]);
}


/// Whether an opcode sets the program counter other than past itself.
pub open spec fn is_jump(op: Opcode) -> bool {
    op == Opcode::JMP || op == Opcode::JMPF || op == Opcode::JMPB || op == Opcode::JEQ || op
        == Opcode::JNEQ
}

/// Structured instructions executed directly one after another, stopping at
/// the first that halts.
pub open spec fn structured_run(m: VmState, s: Seq<AssemblerInstruction>) -> (VmState, Option<Halt>)
    decreases s.len(),
{
    if s.len() == 0 {
        (m, None)
    } else {
        let (t, h) = structured_step(m, s[0]);
        if h is Some {
            (t, h)
        } else {
            structured_run(t, s.skip(1))
        }
    }
}

/// Running the machine over the bytes of a program without jumps, one step
/// per instruction, has the same effect on the whole state (registers,
/// program counter, flag, remainder, heap) as executing its structured
/// instructions directly in order.
#[verifier::rlimit(50)]
pub proof fn lemma_straight_line_round_trip(m: VmState, s: Seq<AssemblerInstruction>)
    requires
        forall|k: int| 0 <= k < s.len() ==> fits_layout(#[trigger] s[k]) && !is_jump(code_of(s[k])),
        0 <= m.pc,
        m.pc + encode_all(s).len() <= m.program.len(),
        m.program.subrange(m.pc, m.pc + encode_all(s).len()) == encode_all(s),
    ensures
        run_steps_spec(m, s.len()) == structured_run(m, s),
        structured_run(m, s).1 is None ==> structured_run(m, s).0.pc == m.pc + encode_all(s).len()
            && structured_run(m, s).0.program == m.program,
    decreases s.len(),
{
    if s.len() > 0 {
        let first = s[0];
        let rest = s.skip(1);
        assert(s =~= seq![first] + rest);
        lemma_encode_all_append(seq![first], rest);
        assert(seq![first].drop_last() =~= Seq::<AssemblerInstruction>::empty());
        assert(encode_all(Seq::<AssemblerInstruction>::empty()) == Seq::<u8>::empty());
        assert(seq![first].last() == first);
        assert(encode_all(seq![first]) =~= encode(first));
        let e = encode(first);
        let all = encode_all(s);
        assert(all =~= e + encode_all(rest));
        assert(m.program.subrange(m.pc, m.pc + e.len()) =~= all.subrange(0, e.len() as int));
        assert(all.subrange(0, e.len() as int) =~= e);
        assert(fits_layout(s[0]));
        lemma_encoded_instruction_round_trip(m, first);
        let (t, h) = structured_step(m, first);
        if h is None {
            assert(t.program == m.program);
            assert(t.pc == m.pc + e.len());
            assert(t.program.subrange(t.pc, t.pc + encode_all(rest).len()) =~= all.subrange(
                e.len() as int,
                all.len() as int,
            ));
            assert(all.subrange(e.len() as int, all.len() as int) =~= encode_all(rest));
            assert(forall|k: int| 0 <= k < rest.len() ==> rest[k] == s[k + 1]);
            lemma_straight_line_round_trip(t, rest);
        }
    }
}


/// A program without jumps followed by `hlt`, run from its first byte until
/// the machine stops: where no instruction faults, the machine ends in the
/// state that executing the structured instructions directly gives, halted
/// with the program counter just past the `hlt`.
pub proof fn lemma_straight_line_program_halts(m: VmState, s: Seq<AssemblerInstruction>, fuel: nat)
    requires
        forall|k: int| 0 <= k < s.len() ==> fits_layout(#[trigger] s[k]) && !is_jump(code_of(s[k])),
        0 <= m.pc,
        m.pc + encode_all(s).len() < m.program.len(),
        m.program.subrange(m.pc, m.pc + encode_all(s).len()) == encode_all(s),
        m.program[m.pc + encode_all(s).len()] == byte_of(Opcode::HLT),
        structured_run(m, s).1 is None,
        fuel > s.len(),
    ensures
        run_steps_spec(m, fuel) == (
            VmState { pc: m.pc + encode_all(s).len() + 1, ..structured_run(m, s).0 },
            Some(Halt::Halted),
        ),
{
    lemma_straight_line_round_trip(m, s);
    lemma_run_steps_split(m, s.len(), (fuel - s.len()) as nat);
    let t = structured_run(m, s).0;
    assert(opcode_of_byte(t.program[t.pc]) == Opcode::HLT);
}

/// Running `a + b` steps is running `a` steps, then, unless the machine
/// stopped, `b` more.
pub proof fn lemma_run_steps_split(m: VmState, a: nat, b: nat)
    ensures
        run_steps_spec(m, a + b) == if run_steps_spec(m, a).1 is Some {
            run_steps_spec(m, a)
        } else {
            run_steps_spec(run_steps_spec(m, a).0, b)
        },
    decreases a,
{
    if a > 0 {
        let (t, h) = step(m);
        if h is None {
            lemma_run_steps_split(t, (a - 1) as nat, b);
            assert((a + b - 1) as nat == ((a - 1) as nat + b) as nat);
        }
    }
}

} // verus!
