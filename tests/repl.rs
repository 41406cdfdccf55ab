use vanadium::repl::REPL;
use vanadium::vm::Halt;

#[test]
fn repl_starts_empty() {
    let repl = REPL::new();
    assert!(repl.command_buffer.is_empty());
    assert!(repl.vm.program.is_empty());
}

#[test]
fn submit_appends_and_steps() {
    let mut repl = REPL::new();
    assert_eq!(repl.submit("load $0 #100".as_bytes()), Ok(None));
    assert_eq!(repl.vm.registers[0], 100);
    assert_eq!(repl.vm.program, vec![1, 0, 0, 100]);
    assert_eq!(repl.vm.pc, 4);
    assert!(repl.submit("garbage".as_bytes()).is_err());
    assert_eq!(repl.vm.program.len(), 4);
    assert_eq!(repl.submit("load $40 #1".as_bytes()), Ok(Some(Halt::BadRegister)));
}

#[test]
fn record_keeps_history() {
    let mut repl = REPL::new();
    repl.record(String::from(".help"));
    repl.record(String::from("load $0 #1"));
    assert_eq!(repl.command_buffer, vec![String::from(".help"), String::from("load $0 #1")]);
}

#[test]
fn parse_hex_reads_bytes() {
    let mut repl = REPL::new();
    assert_eq!(repl.parse_hex("00 01 03 E8"), Ok(vec![0, 1, 3, 0xe8]));
    assert_eq!(repl.parse_hex("ff +a 00FF"), Ok(vec![255, 10, 255]));
    assert!(repl.parse_hex("100").is_err());
    assert!(repl.parse_hex("0g").is_err());
    assert!(repl.parse_hex("00  01").is_err());
    assert!(repl.parse_hex("").is_err());
}

#[test]
fn unknown_mnemonic_line_halts_as_illegal() {
    let mut repl = REPL::new();
    repl.vm.registers[0] = 9;
    assert_eq!(repl.submit("aold $0 #1".as_bytes()), Ok(Some(Halt::Illegal)));
    assert_eq!(repl.vm.program, vec![255, 0, 0, 1]);
    assert_eq!(repl.vm.pc, 1);
    assert_eq!(repl.vm.registers[0], 9);
}
