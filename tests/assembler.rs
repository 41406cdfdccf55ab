use vanadium::assembler::{
    instruction, instruction_five, instruction_four, instruction_one, instruction_three,
    instruction_two, integer_operand, opcode, program, register, AssemblerInstruction, Program,
    Token,
};
use vanadium::instruction::Opcode;
use vanadium::vm::VM;

#[test]
fn test_parse_instruction_form_one() {
    let result = instruction_one("load $0 #100\n".as_bytes());
    assert_eq!(
        result,
        Ok((
            "".as_bytes(),
            AssemblerInstruction {
                opcode: Token::Op { code: Opcode::LOAD },
                operand1: Some(Token::Register { reg_num: 0 }),
                operand2: Some(Token::IntegerOperand { value: 100 }),
                operand3: None
            }
        ))
    );
}

#[test]
fn test_parse_instruction_form_two() {
    let result = instruction_two("hlt\n".as_bytes());
    assert_eq!(
        result,
        Ok((
            "\n".as_bytes(),
            AssemblerInstruction {
                opcode: Token::Op { code: Opcode::HLT },
                operand1: None,
                operand2: None,
                operand3: None
            }
        ))
    );
}

#[test]
fn test_opcode() {
    let result = opcode("load".as_bytes());
    assert_eq!(result.is_ok(), true);
    let (rest, token) = result.unwrap();
    assert_eq!(token, Token::Op { code: Opcode::LOAD });
    assert_eq!(rest, "".as_bytes());
    let result = opcode("aold".as_bytes());
    let (_, token) = result.unwrap();
    assert_eq!(token, Token::Op { code: Opcode::IGL });
}

#[test]
fn test_parse_integer_operand() {
    let result = integer_operand("#10".as_bytes());
    assert_eq!(result.is_ok(), true);
    let (rest, value) = result.unwrap();
    assert_eq!(rest, "".as_bytes());
    assert_eq!(value, Token::IntegerOperand { value: 10 });

    let result = integer_operand("10".as_bytes());
    assert_eq!(result.is_ok(), false);
}

#[test]
fn test_parse_program() {
    let result = program("load $0 #100\n".as_bytes());
    assert_eq!(result.is_ok(), true);
    let (leftover, p) = result.unwrap();
    assert_eq!(leftover, "".as_bytes());
    assert_eq!(1, p.instructions.len());
}

#[test]
fn test_program_to_bytes() {
    let result = program("load $0 #100\n".as_bytes());
    assert_eq!(result.is_ok(), true);
    let (_, program) = result.unwrap();
    let bytecode = program.to_bytes();
    assert_eq!(bytecode.len(), 4);
    println!("{:?}", bytecode);
}

#[test]
fn test_parse_register() {
    let result = register("$0".as_bytes());
    assert_eq!(result.is_ok(), true);
    let result = register("0".as_bytes());
    assert_eq!(result.is_ok(), false);
    let result = register("$a".as_bytes());
    assert_eq!(result.is_ok(), false);
}

#[test]
fn three_field_instruction_encodes_big_endian() {
    let (_, ins) = instruction_one("load $3 #500".as_bytes()).unwrap();
    assert_eq!(ins.to_bytes(), vec![1, 3, 1, 244]);
    let (_, ins) = instruction_one("add $1 #-2".as_bytes()).unwrap();
    assert_eq!(ins.operand2, Some(Token::IntegerOperand { value: -2 }));
    assert_eq!(ins.to_bytes(), vec![2, 1, 0xff, 0xfe]);
}

#[test]
fn integer_operands_saturate_to_sixteen_bits() {
    let (_, ins) = instruction_one("load $0 #70000".as_bytes()).unwrap();
    assert_eq!(ins.to_bytes(), vec![1, 0, 0xff, 0xff]);
    let (_, ins) = instruction_one("load $0 #-40000".as_bytes()).unwrap();
    assert_eq!(ins.to_bytes(), vec![1, 0, 0x80, 0x00]);
    let (_, ins) = instruction_one("load $0 #+65535".as_bytes()).unwrap();
    assert_eq!(ins.to_bytes(), vec![1, 0, 0xff, 0xff]);
}

#[test]
fn out_of_range_literals_are_refused() {
    assert!(register("$256".as_bytes()).is_err());
    assert_eq!(register("$255 ".as_bytes()), Ok(("".as_bytes(), Token::Register { reg_num: 255 })));
    assert!(integer_operand("#2147483648".as_bytes()).is_err());
    assert_eq!(
        integer_operand("#-2147483648".as_bytes()),
        Ok(("".as_bytes(), Token::IntegerOperand { value: i32::MIN }))
    );
    assert!(integer_operand("#-".as_bytes()).is_err());
}

#[test]
fn zero_operand_mnemonics_encode_to_one_byte() {
    for (text, code) in [("hlt", 0u8), ("nop", 18u8)] {
        let (_, ins) = instruction_two(text.as_bytes()).unwrap();
        assert_eq!(ins.to_bytes(), vec![code]);
    }
}

#[test]
fn instruction_picks_the_matching_shape() {
    let (_, ins) = instruction("add $0 $1 $2".as_bytes()).unwrap();
    assert_eq!(ins.to_bytes(), vec![2, 0, 1, 2]);
    let (_, ins) = instruction_three("add $0 $1 $2".as_bytes()).unwrap();
    assert_eq!(ins.operand3, Some(Token::Register { reg_num: 2 }));
    let (_, ins) = instruction("eq $4 $5".as_bytes()).unwrap();
    assert_eq!(ins.to_bytes(), vec![9, 4, 5]);
    let (_, ins) = instruction_four("eq $4 $5".as_bytes()).unwrap();
    assert_eq!(ins.operand3, None);
    let (_, ins) = instruction("jmp $7".as_bytes()).unwrap();
    assert_eq!(ins.to_bytes(), vec![6, 7]);
    let (_, ins) = instruction_five("jmp $7".as_bytes()).unwrap();
    assert_eq!(ins.operand2, None);
    let (rest, ins) = instruction("hlt".as_bytes()).unwrap();
    assert_eq!(rest, "".as_bytes());
    assert_eq!(ins.to_bytes(), vec![0]);
    assert!(instruction("$1".as_bytes()).is_err());
}

#[test]
fn mnemonics_are_case_sensitive() {
    let (_, token) = opcode("LOAD".as_bytes()).unwrap();
    assert_eq!(token, Token::Op { code: Opcode::IGL });
    let (rest, token) = opcode("jneq $1".as_bytes()).unwrap();
    assert_eq!(token, Token::Op { code: Opcode::JNEQ });
    assert_eq!(rest, " $1".as_bytes());
}

#[test]
fn unknown_mnemonic_assembles_to_illegal_and_halts() {
    let (_, ins) = instruction("frob".as_bytes()).unwrap();
    let bytes = ins.to_bytes();
    assert_eq!(bytes, vec![Opcode::IGL.to_byte()]);
    let mut vm = VM::new();
    vm.program = bytes;
    assert_eq!(vm.run_once(), Some(vanadium::vm::Halt::Illegal));
}

#[test]
fn program_reads_many_three_field_lines() {
    let (rest, p) = program("load $0 #1\nload $1 #2\nhlt".as_bytes()).unwrap();
    assert_eq!(p.instructions.len(), 2);
    assert_eq!(rest, "hlt".as_bytes());
    assert_eq!(p.to_bytes(), vec![1, 0, 0, 1, 1, 1, 0, 2]);
    assert!(program("hlt".as_bytes()).is_err());
    assert!(program("".as_bytes()).is_err());
}

#[test]
fn empty_program_encodes_to_nothing() {
    let p = Program { instructions: vec![] };
    assert!(p.to_bytes().is_empty());
}

#[test]
fn encoded_program_runs_like_its_instructions() {
    let text = ["load $0 #10", "load $1 #3", "div $0 $1 $2", "gt $0 $1", "hlt"];
    let mut bytes = Vec::new();
    for line in text {
        let (_, ins) = instruction(line.as_bytes()).unwrap();
        bytes.extend(ins.to_bytes());
    }
    let mut vm = VM::new();
    vm.program = bytes;
    assert_eq!(vm.run(), Some(vanadium::vm::Halt::Halted));
    assert_eq!(vm.registers[2], 3);
    assert_eq!(vm.remainder, 1);
    assert!(vm.equal_flag);
}

#[test]
fn compile_reads_every_shape() {
    let text = "load $0 #10\nload $1 #3\nsub $0 $1 $2\njmp $3\nhlt\n";
    assert_eq!(
        vanadium::assembler::compile(text.as_bytes()),
        Ok(vec![1, 0, 0, 10, 1, 1, 0, 3, 3, 0, 1, 2, 6, 3, 0])
    );
    assert_eq!(vanadium::assembler::compile("  \n".as_bytes()), Ok(vec![]));
    assert!(vanadium::assembler::compile("load $0 #1\n$2".as_bytes()).is_err());
}

#[test]
fn parse_all_keeps_order() {
    let p = vanadium::assembler::parse_all("nop\nhlt".as_bytes()).unwrap();
    assert_eq!(p.instructions.len(), 2);
    assert_eq!(p.instructions[0].opcode, Token::Op { code: Opcode::NOP });
    assert_eq!(p.instructions[1].opcode, Token::Op { code: Opcode::HLT });
}
