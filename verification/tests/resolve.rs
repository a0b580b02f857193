use isa_assembler::error::{ErrorKind, Place};
use isa_assembler::parser::{offset_to, resolve_symbol, Width};
use isa_assembler::symbols::SymbolTable;

fn table(entries: &[(&str, u32)]) -> SymbolTable {
    let mut t = SymbolTable::new();
    for (name, value) in entries {
        t.insert(name.to_string(), *value);
    }
    t
}

#[test]
fn register_references_resolve_up_to_31() {
    let empty = SymbolTable::new();
    assert_eq!(resolve_symbol("r31", &empty, Width::Byte).unwrap(), 31);
    assert_eq!(resolve_symbol("r0", &empty, Width::Byte).unwrap(), 0);
    assert_eq!(resolve_symbol("r07", &empty, Width::Word).unwrap(), 7);
    assert_eq!(resolve_symbol("r+5", &empty, Width::Half).unwrap(), 5);

    let e = resolve_symbol("r32", &empty, Width::Byte).unwrap_err();
    assert_eq!(e.kind, ErrorKind::InvalidRegister);
    assert_eq!(e.token, "32");
    assert_eq!(e.place, Place::Operand);
    assert_eq!(e.message(), "Invalid register: '32'");

    let e = resolve_symbol("r", &empty, Width::Byte).unwrap_err();
    assert_eq!(e.kind, ErrorKind::InvalidRegister);
    assert_eq!(e.token, "");

    let e = resolve_symbol("r999", &empty, Width::Word).unwrap_err();
    assert_eq!(e.kind, ErrorKind::InvalidRegister);
    assert_eq!(e.token, "999");

    let e = resolve_symbol("rx", &empty, Width::Word).unwrap_err();
    assert_eq!(e.kind, ErrorKind::InvalidRegister);
    assert_eq!(e.token, "x");
}

#[test]
fn a_register_reference_is_never_looked_up() {
    let t = table(&[("ret", 5), ("r40", 6)]);
    assert_eq!(resolve_symbol("ret", &t, Width::Word).unwrap_err().kind, ErrorKind::InvalidRegister);
    assert_eq!(resolve_symbol("r40", &t, Width::Word).unwrap_err().kind, ErrorKind::InvalidRegister);
}

#[test]
fn literals_resolve_to_themselves_within_the_width() {
    let empty = SymbolTable::new();
    assert_eq!(resolve_symbol("0", &empty, Width::Byte).unwrap(), 0);
    assert_eq!(resolve_symbol("200", &empty, Width::Byte).unwrap(), 200);
    assert_eq!(resolve_symbol("255", &empty, Width::Byte).unwrap(), 255);
    assert_eq!(resolve_symbol("65535", &empty, Width::Half).unwrap(), 65535);
    assert_eq!(resolve_symbol("4294967295", &empty, Width::Word).unwrap(), u32::MAX);
    assert_eq!(resolve_symbol("+11", &empty, Width::Half).unwrap(), 11);

    // Too wide for the field: no literal, no register, so a symbol.
    let e = resolve_symbol("256", &empty, Width::Byte).unwrap_err();
    assert_eq!(e.kind, ErrorKind::UndefinedSymbol);
    assert_eq!(e.token, "256");
    assert_eq!(resolve_symbol("65536", &empty, Width::Half).unwrap_err().kind, ErrorKind::UndefinedSymbol);
    assert_eq!(resolve_symbol("4294967296", &empty, Width::Word).unwrap_err().kind, ErrorKind::UndefinedSymbol);
    assert_eq!(resolve_symbol("256", &table(&[("256", 3)]), Width::Byte).unwrap(), 3);
}

#[test]
fn symbols_resolve_to_their_values() {
    let t = table(&[("loop", 3), ("Loop", 4), ("big", 70000), ("wide", 300)]);
    assert_eq!(resolve_symbol("loop", &t, Width::Word).unwrap(), 3);
    assert_eq!(resolve_symbol("Loop", &t, Width::Byte).unwrap(), 4);
    assert_eq!(resolve_symbol("big", &t, Width::Word).unwrap(), 70000);
    assert_eq!(resolve_symbol("wide", &t, Width::Half).unwrap(), 300);

    let e = resolve_symbol("big", &t, Width::Half).unwrap_err();
    assert_eq!(e.kind, ErrorKind::InvalidRegister);
    assert_eq!(e.token, "big");
    assert_eq!(resolve_symbol("wide", &t, Width::Byte).unwrap_err().kind, ErrorKind::InvalidRegister);
}

#[test]
fn an_unknown_name_is_an_undefined_symbol() {
    let t = table(&[("loop", 3)]);
    for token in ["LOOP", "loop:", "", "x", "-1", "1a", " loop"] {
        let e = resolve_symbol(token, &t, Width::Word).unwrap_err();
        assert_eq!(e.kind, ErrorKind::UndefinedSymbol, "{:?}", token);
        assert_eq!(e.token, token);
        assert_eq!(e.place, Place::Operand);
    }
    let e = resolve_symbol("nowhere", &t, Width::Word).unwrap_err();
    assert_eq!(e.message(), "Expected a register, found 'nowhere'");
}

#[test]
fn binding_a_name_again_overwrites_it() {
    let mut t = SymbolTable::new();
    assert_eq!(t.get("x"), None);
    assert_eq!(t.len(), 0);
    t.insert("x".to_string(), 1);
    t.insert("y".to_string(), 2);
    assert_eq!(t.get("x"), Some(1));
    t.insert("x".to_string(), 9);
    assert_eq!(t.get("x"), Some(9));
    assert_eq!(t.get("y"), Some(2));
    assert_eq!(t.get("X"), None);
    assert_eq!(t.len(), 2);
    assert_eq!(resolve_symbol("x", &t, Width::Word).unwrap(), 9);
}

#[test]
fn branch_offsets_wrap_modulo_65536() {
    assert_eq!(offset_to(5, 2), 3);
    assert_eq!(offset_to(2, 2), 0);
    assert_eq!(offset_to(2, 5), 65533);
    assert_eq!(offset_to(0, 1), 65535);
    assert_eq!(offset_to(70000, 1), 4463);
    assert_eq!(offset_to(0, 70000), 61072);
    assert_eq!(offset_to(u32::MAX, 0), 65535);
    assert_eq!(offset_to(0, u32::MAX), 1);
    for (target, index) in [(0u32, 0u32), (7, 100), (100, 7), (65536, 1), (1, 65537)] {
        let expected = (target as i64 - index as i64).rem_euclid(65536) as u16;
        assert_eq!(offset_to(target, index), expected);
    }
}
