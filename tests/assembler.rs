use superscalar::assembler::{
    assemble, assemble_line, parse_number, split_words, AsmError, LineError,
};
use superscalar::isa::EncodedInstruction;
use superscalar::isa::EncodedInstruction::{
    Add, Addi, And, Andi, Beq, Beqz, Bgt, Blt, Div, Ldc, Lw, Mod, Mov, Mult, Noop, Or, Sl, Sr, Sub, Subi, Sw,
    Xor, J,
};

fn lines(text: &[&str]) -> Vec<String> {
    text.iter().map(|s| s.to_string()).collect()
}

#[test]
fn assembles_every_mnemonic() {
    let program = lines(&[
        "NOOP", "ADD 1 2 3", "ADDI 1 2 7", "AND 1 2 3", "ANDI 1 2 7", "BEQ 1 2 9", "BEQZ 1 9",
        "BGT 1 2 9", "BLT 1 2 9", "DIV 1 2 3", "J 12", "LDC 4 4294967295", "LW 5 6", "MOD 1 2 3",
        "MOV 1 2", "MULT 1 2 3", "OR 1 2 3", "SL 1 2 5", "SR 1 2 5", "SUB 1 2 3", "SUBI 1 2 7",
        "SW 5 6", "XOR 1 2 3",
    ]);
    let expected = vec![
        Noop, Add(1, 2, 3), Addi(1, 2, 7), And(1, 2, 3), Andi(1, 2, 7), Beq(1, 2, 9), Beqz(1, 9),
        Bgt(1, 2, 9), Blt(1, 2, 9), Div(1, 2, 3), J(12), Ldc(4, u32::MAX), Lw(5, 6), Mod(1, 2, 3),
        Mov(1, 2), Mult(1, 2, 3), Or(1, 2, 3), Sl(1, 2, 5), Sr(1, 2, 5), Sub(1, 2, 3), Subi(1, 2, 7),
        Sw(5, 6), Xor(1, 2, 3),
    ];
    assert_eq!(assemble(program), Ok(expected));
}

#[test]
fn whitespace_separates_words() {
    assert_eq!(assemble_line(b"  ADDI\t1 2   3  \r"), Ok(EncodedInstruction::Addi(1, 2, 3)));
    let words = split_words(b" LDC  1\t10 ");
    assert_eq!(words, vec![b"LDC".to_vec(), b"1".to_vec(), b"10".to_vec()]);
    assert!(split_words(b" \t ").is_empty());
}

#[test]
fn numbers() {
    assert_eq!(parse_number(&b"0".to_vec()), Some(0));
    assert_eq!(parse_number(&b"007".to_vec()), Some(7));
    assert_eq!(parse_number(&b"18446744073709551615".to_vec()), Some(usize::MAX));
    assert_eq!(parse_number(&b"18446744073709551616".to_vec()), None);
    assert_eq!(parse_number(&b"".to_vec()), None);
    assert_eq!(parse_number(&b"-1".to_vec()), None);
    assert_eq!(parse_number(&b"1x".to_vec()), None);
}

#[test]
fn line_errors() {
    assert_eq!(assemble_line(b""), Err(LineError::Blank));
    assert_eq!(assemble_line(b"HALT"), Err(LineError::UnknownMnemonic));
    assert_eq!(assemble_line(b"add 1 2 3"), Err(LineError::UnknownMnemonic));
    assert_eq!(assemble_line(b"ADD 1 2"), Err(LineError::WrongArity));
    assert_eq!(assemble_line(b"NOOP 1"), Err(LineError::WrongArity));
    assert_eq!(assemble_line(b"ADD 1 2 x"), Err(LineError::BadOperand));
    assert_eq!(assemble_line(b"ADD 32 1 1"), Err(LineError::BadOperand));
    assert_eq!(assemble_line(b"LDC 1 4294967296"), Err(LineError::BadOperand));
    assert_eq!(assemble_line(b"J 99999999999999999999999"), Err(LineError::BadOperand));
    assert_eq!(assemble_line(b"J 18446744073709551615"), Ok(EncodedInstruction::J(usize::MAX)));
}

#[test]
fn first_bad_line_is_reported() {
    let program = lines(&["LDC 1 1", "ADD 1 1", "FOO"]);
    assert_eq!(assemble(program), Err(AsmError { line: 1, kind: LineError::WrongArity }));
    assert_eq!(assemble(Vec::new()), Ok(Vec::new()));
}
