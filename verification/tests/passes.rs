use isa_assembler::datakind::{IType, InstructionKind, JType, RType};
use isa_assembler::error::{AsmError, ErrorKind, Place};
use isa_assembler::mnemonic::{classify, lookup, Entry, Operation};
use isa_assembler::parser::{assemble, build, declare, parse, parse_symbols, translate};
use isa_assembler::symbols::SymbolTable;

fn lines(source: &[&str]) -> Vec<String> {
    source.iter().map(|s| s.to_string()).collect()
}

fn words(line: &str) -> Vec<String> {
    line.split_whitespace().map(String::from).collect()
}

fn table(entries: &[(&str, u32)]) -> SymbolTable {
    let mut t = SymbolTable::new();
    for (name, value) in entries {
        t.insert(name.to_string(), *value);
    }
    t
}

fn one(line: &str, symbols: &SymbolTable, index: u32) -> Result<InstructionKind, AsmError> {
    let segments = words(line);
    translate(&segments[0].to_uppercase(), &segments, symbols, index)
}

#[test]
fn the_table_holds_every_mnemonic() {
    let register = [
        ("ADD", 1u8), ("SUB", 2), ("AND", 3), ("OR", 4), ("XOR", 5), ("SLL", 6), ("SRL", 7),
        ("SRA", 8), ("SLT", 9), ("JR", 16),
    ];
    for (name, func) in register {
        assert_eq!(lookup(name), Some(Entry::Register { func }));
    }
    let immediate = [
        ("ADDI", 1u8), ("SUBI", 2), ("ANDI", 3), ("ORI", 4), ("XORI", 5), ("SLTI", 9),
        ("LW", 16), ("SW", 17), ("LI", 18), ("SO", 19), ("POP", 20), ("PUSH", 21), ("BEQ", 32),
    ];
    for (name, op) in immediate {
        assert_eq!(lookup(name), Some(Entry::Immediate { op }));
    }
    assert_eq!(lookup("J"), Some(Entry::Jump { op: 33 }));
    for name in ["", "add", "GOTO", "MOV", "INC", "ADDD", "NOP", "JAL"] {
        assert_eq!(lookup(name), None);
    }
}

#[test]
fn every_mnemonic_has_its_layout() {
    assert_eq!(classify("GOTO"), Some(Operation::Goto));
    assert_eq!(classify("MOV"), Some(Operation::Mov));
    assert_eq!(classify("INC"), Some(Operation::Inc));
    assert_eq!(classify("SLL"), Some(Operation::Shift { func: 6 }));
    assert_eq!(classify("SRL"), Some(Operation::Shift { func: 7 }));
    assert_eq!(classify("SRA"), Some(Operation::Shift { func: 8 }));
    assert_eq!(classify("ADD"), Some(Operation::Arithmetic { func: 1 }));
    assert_eq!(classify("SLT"), Some(Operation::Arithmetic { func: 9 }));
    assert_eq!(classify("JR"), Some(Operation::Arithmetic { func: 16 }));
    assert_eq!(classify("LI"), Some(Operation::Single { op: 18 }));
    assert_eq!(classify("SO"), Some(Operation::Single { op: 19 }));
    assert_eq!(classify("POP"), Some(Operation::Single { op: 20 }));
    assert_eq!(classify("PUSH"), Some(Operation::Single { op: 21 }));
    assert_eq!(classify("ADDI"), Some(Operation::Immediate { op: 1 }));
    assert_eq!(classify("LW"), Some(Operation::Immediate { op: 16 }));
    assert_eq!(classify("SW"), Some(Operation::Immediate { op: 17 }));
    assert_eq!(classify("BEQ"), Some(Operation::Branch { op: 32 }));
    assert_eq!(classify("J"), Some(Operation::Jump { op: 33 }));
    assert_eq!(classify("goto"), None);
    assert_eq!(classify("HALT"), None);
}

#[test]
fn instructions_take_their_operands_in_order() {
    let t = table(&[("loop", 2), ("far", 70000), ("five", 5)]);
    assert_eq!(
        one("ADD r3 r1 r2", &t, 1).unwrap(),
        InstructionKind::R(RType { rs: 1, rt: 2, rd: 3, shamt: 0, func: 1 })
    );
    assert_eq!(
        one("JR r3 r1 r2", &t, 1).unwrap(),
        InstructionKind::R(RType { rs: 1, rt: 2, rd: 3, shamt: 0, func: 16 })
    );
    assert_eq!(
        one("SLL r3 r1 4", &t, 1).unwrap(),
        InstructionKind::R(RType { rs: 0, rt: 1, rd: 3, shamt: 4, func: 6 })
    );
    assert_eq!(
        one("SRA r3 r1 five", &t, 1).unwrap(),
        InstructionKind::R(RType { rs: 0, rt: 1, rd: 3, shamt: 5, func: 8 })
    );
    assert_eq!(
        one("ADDI r2 r1 11", &t, 1).unwrap(),
        InstructionKind::I(IType { op: 1, rs: 1, rt: 2, imm: 11 })
    );
    assert_eq!(
        one("SW r2 r1 65535", &t, 1).unwrap(),
        InstructionKind::I(IType { op: 17, rs: 1, rt: 2, imm: 65535 })
    );
    assert_eq!(
        one("PUSH r9", &t, 1).unwrap(),
        InstructionKind::I(IType { op: 21, rs: 0, rt: 9, imm: 0 })
    );
    assert_eq!(
        one("MOV r4 r5", &t, 1).unwrap(),
        InstructionKind::I(IType { op: 1, rs: 5, rt: 4, imm: 0 })
    );
    assert_eq!(
        one("INC r6", &t, 1).unwrap(),
        InstructionKind::I(IType { op: 1, rs: 6, rt: 6, imm: 1 })
    );
    assert_eq!(
        one("J 87", &t, 1).unwrap(),
        InstructionKind::J(JType { op: 33, addr: 87 })
    );
    assert_eq!(
        one("J far", &t, 1).unwrap(),
        InstructionKind::J(JType { op: 33, addr: 70000 })
    );
    // Literals are not held to the width of a register field.
    assert_eq!(
        one("ADD 200 r1 r2", &t, 1).unwrap(),
        InstructionKind::R(RType { rs: 1, rt: 2, rd: 200, shamt: 0, func: 1 })
    );
    // Words beyond the operands are not read.
    assert_eq!(one("INC r6 r7 nonsense", &t, 1).unwrap(), one("INC r6", &t, 1).unwrap());
}

#[test]
fn branches_go_forward_and_backward() {
    let t = table(&[("loop", 2), ("end", 9), ("far", 70000)]);
    assert_eq!(
        one("GOTO end", &t, 4).unwrap(),
        InstructionKind::I(IType { op: 32, rs: 0, rt: 0, imm: 5 })
    );
    assert_eq!(
        one("GOTO loop", &t, 4).unwrap(),
        InstructionKind::I(IType { op: 32, rs: 0, rt: 0, imm: 65534 })
    );
    assert_eq!(
        one("BEQ r1 r2 end", &t, 4).unwrap(),
        InstructionKind::I(IType { op: 32, rs: 2, rt: 1, imm: 5 })
    );
    assert_eq!(
        one("BEQ r1 r2 loop", &t, 4).unwrap(),
        InstructionKind::I(IType { op: 32, rs: 2, rt: 1, imm: 65534 })
    );
    assert_eq!(
        one("GOTO far", &t, 1).unwrap(),
        InstructionKind::I(IType { op: 32, rs: 0, rt: 0, imm: 4463 })
    );
    assert_eq!(
        one("GOTO 4", &t, 4).unwrap(),
        InstructionKind::I(IType { op: 32, rs: 0, rt: 0, imm: 0 })
    );
}

fn fails(line: &str, t: &SymbolTable, kind: ErrorKind, token: &str) {
    let e = one(line, t, 7).unwrap_err();
    assert_eq!(e.kind, kind, "{}", line);
    assert_eq!(e.token, token, "{}", line);
    assert_eq!(e.place, Place::Instruction(7), "{}", line);
}

#[test]
fn the_first_operand_that_fails_decides() {
    let t = table(&[("big", 70000)]);
    fails("ADD r1 nowhere r99", &t, ErrorKind::UndefinedSymbol, "nowhere");
    fails("ADD r99 nowhere r2", &t, ErrorKind::InvalidRegister, "99");
    fails("ADD r1 r2 r32", &t, ErrorKind::InvalidRegister, "32");
    fails("SLL r1 r2 r32", &t, ErrorKind::InvalidShiftAmount, "r32");
    fails("SLL r1 r2 nowhere", &t, ErrorKind::InvalidShiftAmount, "nowhere");
    fails("SLL r1 r32 nowhere", &t, ErrorKind::InvalidRegister, "32");
    fails("ADDI r1 r2 65536", &t, ErrorKind::InvalidImmediate, "65536");
    fails("ADDI r1 r2 big", &t, ErrorKind::InvalidImmediate, "big");
    fails("LW nowhere r2 big", &t, ErrorKind::UndefinedSymbol, "nowhere");
    fails("J nowhere", &t, ErrorKind::InvalidJumpAddress, "nowhere");
    fails("J r40", &t, ErrorKind::InvalidJumpAddress, "r40");
    fails("GOTO nowhere", &t, ErrorKind::UndefinedSymbol, "nowhere");
    fails("BEQ r1 r2 nowhere", &t, ErrorKind::UndefinedSymbol, "nowhere");
    fails("PUSH big", &t, ErrorKind::InvalidRegister, "big");
    fails("NOP", &t, ErrorKind::UnknownCommand, "NOP");
    // The mnemonic is looked up as it is given.
    let e = translate("addi", &words("addi r1 r2 3"), &t, 7).unwrap_err();
    assert_eq!(e.kind, ErrorKind::UnknownCommand);
    assert_eq!(e.token, "addi");
}

#[test]
fn a_missing_operand_is_reported() {
    let t = SymbolTable::new();
    fails("GOTO", &t, ErrorKind::MissingOperand, "GOTO");
    fails("MOV r1", &t, ErrorKind::MissingOperand, "MOV");
    fails("INC", &t, ErrorKind::MissingOperand, "INC");
    fails("ADD r1 r2", &t, ErrorKind::MissingOperand, "ADD");
    fails("SLL r1 r2", &t, ErrorKind::MissingOperand, "SLL");
    fails("ADDI r1 r2", &t, ErrorKind::MissingOperand, "ADDI");
    fails("BEQ r1 r2", &t, ErrorKind::MissingOperand, "BEQ");
    fails("PUSH", &t, ErrorKind::MissingOperand, "PUSH");
    fails("J", &t, ErrorKind::MissingOperand, "J");
    // An operand that fails comes before one that is missing.
    fails("ADD nowhere", &t, ErrorKind::UndefinedSymbol, "nowhere");
}

#[test]
fn build_takes_the_operation_as_given() {
    let t = SymbolTable::new();
    let segments = words("anything r3 r1 r2");
    assert_eq!(
        build(Operation::Arithmetic { func: 63 }, "X", &segments, &t, 1).unwrap(),
        InstructionKind::R(RType { rs: 1, rt: 2, rd: 3, shamt: 0, func: 63 })
    );
    let e = build(Operation::Jump { op: 33 }, "X", &words("j"), &t, 1).unwrap_err();
    assert_eq!(e.kind, ErrorKind::MissingOperand);
    assert_eq!(e.token, "X");
    assert_eq!(e.place, Place::Operand);
}

#[test]
fn add_assembles_end_to_end() {
    let out = parse("ADD r3 r1 r2", true).unwrap();
    assert_eq!(out, vec!["0x00 0x22 0x18 0x01"]);
    let out = parse("add r3 r1 r2", true).unwrap();
    assert_eq!(out, vec!["0x00 0x22 0x18 0x01"]);
}

#[test]
fn addi_assembles_end_to_end() {
    let out = parse("ADDI r2 r1 11", true).unwrap();
    assert_eq!(out, vec!["0x04 0x22 0x00 0x0B"]);
    let out = parse("AddI r2 r1 11", false).unwrap();
    assert_eq!(out, vec!["0x04 0x22 0x00 0x0B # AddI r2 r1 11 [ln.1]"]);
}

#[test]
fn jump_assembles_end_to_end() {
    let out = parse("J 87", true).unwrap();
    assert_eq!(out, vec!["0x84 0x00 0x00 0x57"]);
}

#[test]
fn labels_stand_for_the_next_instruction() {
    let source = lines(&[
        "# a program",
        "!LABEL start:",
        "ADD r1 r2 r3",
        "",
        "INC r1",
        "!label loop:",
        "!LABEL twice::",
        "!LaBeL bare",
        "INC r2",
        "GOTO loop",
        "!LABEL end:",
    ]);
    let t = parse_symbols(&source).unwrap();
    assert_eq!(t.get("start"), Some(0));
    assert_eq!(t.get("loop"), Some(2));
    assert_eq!(t.get("twice"), Some(2));
    assert_eq!(t.get("bare"), Some(2));
    assert_eq!(t.get("end"), Some(4));
    assert_eq!(t.get("loop:"), None);
    assert_eq!(t.len(), 5);
}

#[test]
fn aliases_are_resolved_where_they_are_declared() {
    let source = lines(&[
        "!ALIAS sp r29",
        "!ALIAS ten 10",
        "!alias also sp",
        "!ALIAS big 4294967295",
        "INC sp",
        "!LABEL here",
        "!ALIAS there here",
        "!ALIAS colon: 1",
    ]);
    let t = parse_symbols(&source).unwrap();
    assert_eq!(t.get("sp"), Some(29));
    assert_eq!(t.get("ten"), Some(10));
    assert_eq!(t.get("also"), Some(29));
    assert_eq!(t.get("big"), Some(u32::MAX));
    assert_eq!(t.get("there"), Some(1));
    assert_eq!(t.get("colon:"), Some(1));
    assert_eq!(t.get("colon"), None);
}

#[test]
fn the_last_declaration_of_a_name_wins() {
    let source = lines(&[
        "!ALIAS x 1",
        "!ALIAS y x",
        "INC r1",
        "!LABEL x",
        "!ALIAS z x",
        "!ALIAS x 7",
        "!ALIAS w x",
    ]);
    let t = parse_symbols(&source).unwrap();
    assert_eq!(t.get("x"), Some(7));
    assert_eq!(t.get("y"), Some(1));
    assert_eq!(t.get("z"), Some(1));
    assert_eq!(t.get("w"), Some(7));
    let out = assemble(&lines(&["GOTO x"]), &t, true).unwrap();
    assert_eq!(out, vec!["0x80 0x00 0x00 0x06"]);
}

fn first_pass_fails(source: &[&str], kind: ErrorKind, token: &str, line: usize, message: &str) {
    let e = parse_symbols(&lines(source)).err().unwrap();
    assert_eq!(e.kind, kind);
    assert_eq!(e.token, token);
    assert_eq!(e.place, Place::Declaration(line));
    assert_eq!(e.message(), message);
}

#[test]
fn malformed_declarations_fail() {
    first_pass_fails(&["INC r1", "!"], ErrorKind::EmptyDeclaration, "", 1, "Empty symbol line at 1");
    first_pass_fails(&["!   "], ErrorKind::EmptyDeclaration, "", 0, "Empty symbol line at 0");
    first_pass_fails(&["", "", "!LABEL"], ErrorKind::MissingLabelName, "", 2, "Missing label name at 2");
    first_pass_fails(&["!ALIAS"], ErrorKind::MissingAliasName, "", 0, "Missing alias name at 0");
    first_pass_fails(
        &["!ALIAS x"],
        ErrorKind::MissingAliasValue,
        "",
        0,
        "Missing value for alias at 0",
    );
    first_pass_fails(
        &["# c", "!macro x"],
        ErrorKind::UnknownDeclaration,
        "MACRO",
        1,
        "Unknown declaration: 'MACRO' at 1",
    );
    first_pass_fails(
        &["!ALIAS x later", "!LABEL later"],
        ErrorKind::UndefinedSymbol,
        "later",
        0,
        "Expected a register, found 'later' at 0",
    );
    first_pass_fails(
        &["!ALIAS x r32"],
        ErrorKind::InvalidRegister,
        "32",
        0,
        "Invalid register: '32' at 0",
    );
    first_pass_fails(
        &["!ALIAS ok 1", "!ALIAS x 4294967296", "!"],
        ErrorKind::UndefinedSymbol,
        "4294967296",
        1,
        "Expected a register, found '4294967296' at 1",
    );
}

#[test]
fn declare_takes_the_keyword_as_given() {
    let t = table(&[("x", 4)]);
    let (name, value) = declare("LABEL", &words("whatever loop:::"), &t, 12, 3).unwrap();
    assert_eq!((name.as_str(), value), ("loop", 12));
    let (name, value) = declare("ALIAS", &words("whatever y x"), &t, 12, 3).unwrap();
    assert_eq!((name.as_str(), value), ("y", 4));
    let e = declare("label", &words("label loop"), &t, 12, 3).unwrap_err();
    assert_eq!(e.kind, ErrorKind::UnknownDeclaration);
    assert_eq!(e.token, "label");
    assert_eq!(e.place, Place::Declaration(3));
    let colons = parse_symbols(&lines(&["INC r1", "!  Label   :"])).ok().unwrap();
    assert_eq!(colons.get(""), Some(1));
}

#[test]
fn the_second_pass_writes_one_line_for_each_line() {
    let source = lines(&[
        "# sum",
        "!ALIAS acc r1",
        "",
        "LI acc",
        "!LABEL loop:",
        "INC acc   # count up",
        "BEQ acc r2 done",
        "GOTO loop",
        "!LABEL done:",
        "J 87",
    ]);
    let t = parse_symbols(&source).unwrap();
    let out = assemble(&source, &t, false).unwrap();
    assert_eq!(
        out,
        vec![
            "# sum",
            "# !ALIAS acc r1",
            "",
            "0x48 0x01 0x00 0x00 # LI acc [ln.1]",
            "# !LABEL loop:",
            "0x04 0x21 0x00 0x01 # INC acc    [ln.2]",
            "0x80 0x41 0x00 0x01 # BEQ acc r2 done [ln.3]",
            "0x80 0x00 0xFF 0xFD # GOTO loop [ln.4]",
            "# !LABEL done:",
            "0x84 0x00 0x00 0x57 # J 87 [ln.5]",
        ]
    );
    let out = assemble(&source, &t, true).unwrap();
    assert_eq!(
        out,
        vec![
            "0x48 0x01 0x00 0x00",
            "0x04 0x21 0x00 0x01",
            "0x80 0x41 0x00 0x01",
            "0x80 0x00 0xFF 0xFD",
            "0x84 0x00 0x00 0x57",
        ]
    );
}

#[test]
fn parse_runs_both_passes_on_the_lines_of_a_text() {
    let text = "  # sum\r\n!ALIAS acc r1\r\n\r\n  LI acc\r\n!LABEL loop:\r\n\tINC acc\r\nGOTO loop\r\n";
    assert_eq!(
        parse(text, false).unwrap(),
        vec![
            "# sum",
            "# !ALIAS acc r1",
            "",
            "0x48 0x01 0x00 0x00 # LI acc [ln.1]",
            "# !LABEL loop:",
            "0x04 0x21 0x00 0x01 # INC acc [ln.2]",
            "0x80 0x00 0xFF 0xFE # GOTO loop [ln.3]",
        ]
    );
    assert_eq!(parse("", false).unwrap(), Vec::<String>::new());
    assert_eq!(parse("\n", false).unwrap(), vec![""]);
    assert_eq!(parse("\n", true).unwrap(), Vec::<String>::new());
    // A forward reference to a label resolves; one to an alias does not.
    assert_eq!(parse("GOTO end\n!LABEL end", true).unwrap(), vec!["0x80 0x00 0x00 0x00"]);
    let e = parse("!ALIAS a b\n!ALIAS b 1", true).unwrap_err();
    assert_eq!(e.kind, ErrorKind::UndefinedSymbol);
    assert_eq!(e.place, Place::Declaration(0));
}

#[test]
fn an_undefined_symbol_halts_the_assembly() {
    let source = lines(&["INC r1", "# c", "GOTO nowhere", "INC r2", "BOGUS"]);
    for no_comments in [false, true] {
        let e = assemble(&source, &SymbolTable::new(), no_comments).unwrap_err();
        assert_eq!(e.kind, ErrorKind::UndefinedSymbol);
        assert_eq!(e.token, "nowhere");
        assert_eq!(e.place, Place::Instruction(2));
        assert_eq!(e.message(), "Error on line 2: Expected a register, found 'nowhere'");
    }
    let e = parse("INC r1\nGOTO nowhere\nINC r2", false).unwrap_err();
    assert_eq!(e.kind, ErrorKind::UndefinedSymbol);
    assert_eq!(e.place, Place::Instruction(2));
}

fn second_pass_fails(source: &[&str], kind: ErrorKind, token: &str, index: u32, message: &str) {
    let e = assemble(&lines(source), &SymbolTable::new(), false).unwrap_err();
    assert_eq!(e.kind, kind);
    assert_eq!(e.token, token);
    assert_eq!(e.place, Place::Instruction(index));
    assert_eq!(e.message(), message);
}

#[test]
fn failures_of_the_second_pass_name_the_instruction() {
    second_pass_fails(
        &["# c", "", "INC r1", "!LABEL x", "frob r1"],
        ErrorKind::UnknownCommand,
        "FROB",
        2,
        "Error on line 2: Unknown command: FROB",
    );
    second_pass_fails(
        &["SLL r1 r2 r40"],
        ErrorKind::InvalidShiftAmount,
        "r40",
        1,
        "Error on line 1: Invalid shift amount: 'r40'",
    );
    second_pass_fails(
        &["INC r1", "INC r1", "ADDI r1 r2 70000"],
        ErrorKind::InvalidImmediate,
        "70000",
        3,
        "Error on line 3: Invalid immediate value: '70000'",
    );
    second_pass_fails(
        &["J there"],
        ErrorKind::InvalidJumpAddress,
        "there",
        1,
        "Error on line 1: Invalid jump address: 'there'",
    );
    second_pass_fails(
        &["INC r32"],
        ErrorKind::InvalidRegister,
        "32",
        1,
        "Error on line 1: Invalid register: '32'",
    );
    second_pass_fails(
        &["mov r1"],
        ErrorKind::MissingOperand,
        "MOV",
        1,
        "Error on line 1: Missing operand for MOV",
    );
    second_pass_fails(
        &["   "],
        ErrorKind::UnknownCommand,
        "",
        1,
        "Error on line 1: Unknown command: ",
    );
    second_pass_fails(
        &[" # indented comment"],
        ErrorKind::UnknownCommand,
        "",
        1,
        "Error on line 1: Unknown command: ",
    );
}

#[test]
fn an_instruction_line_is_annotated_with_its_code() {
    let t = table(&[("x", 3)]);
    let source = lines(&["ADDI r2 r1 x # add x#y", "INC r1#"]);
    assert_eq!(
        assemble(&source, &t, false).unwrap(),
        vec![
            "0x04 0x22 0x00 0x03 # ADDI r2 r1 x  [ln.1]",
            "0x04 0x21 0x00 0x01 # INC r1 [ln.2]",
        ]
    );
    assert_eq!(
        assemble(&source, &t, true).unwrap(),
        vec!["0x04 0x22 0x00 0x03", "0x04 0x21 0x00 0x01"]
    );
    let mut long = lines(&["INC r1"; 12345]);
    long.push("INC r2".to_string());
    assert_eq!(
        assemble(&long, &t, false).unwrap()[12345],
        "0x04 0x42 0x00 0x01 # INC r2 [ln.12346]"
    );
}

#[test]
fn messages_say_where_the_failure_is() {
    let e = AsmError::new(ErrorKind::UnknownDeclaration, "FOO".to_string());
    assert_eq!(e.place, Place::Operand);
    assert_eq!(e.message(), "Unknown declaration: 'FOO'");
    let e = e.at(Place::Declaration(10));
    assert_eq!(e.message(), "Unknown declaration: 'FOO' at 10");
    let e = e.at(Place::Instruction(4000000000));
    assert_eq!(e.message(), "Error on line 4000000000: Unknown declaration: 'FOO'");
    assert_eq!(
        AsmError::new(ErrorKind::MissingLabelName, String::new()).at(Place::Declaration(0)).message(),
        "Missing label name at 0"
    );
}
