use movm::cli::{Cli, CliError, CliMode};
use movm::front::{assembler, disassembler, runner};
use movm::inst::{Inst, InstType};
use movm::listing::get_space_count;
use movm::parser::{check_line, get_inst_from_line, get_inst_type_from_str, is_mnemonic, ParseError};
use movm::word::Word;

fn args(list: &[&str]) -> Vec<String> {
    list.iter().map(|s| s.to_string()).collect()
}

#[test]
fn mnemonics_read_back() {
    for t in [InstType::PUSH, InstType::PLUS, InstType::DUP, InstType::JMP] {
        assert!(is_mnemonic(t.mnemonic()));
        assert_eq!(get_inst_type_from_str(t.mnemonic()), t);
    }
    assert_eq!(get_inst_type_from_str("push"), InstType::PUSH);
    assert_eq!(get_inst_type_from_str("plus"), InstType::PLUS);
    assert_eq!(get_inst_type_from_str("dup"), InstType::DUP);
    assert_eq!(get_inst_type_from_str("jmp"), InstType::JMP);
    for word in ["minus", "mp", "div", "dump", "PUSH", "pus", ""] {
        assert!(!is_mnemonic(word));
    }
    assert_eq!(InstType::MINUS.mnemonic(), "minus");
    assert_eq!(InstType::DUMP.mnemonic(), "dump");
}

#[test]
fn lines_with_integer_operands() {
    assert_eq!(
        get_inst_from_line("  push   42  "),
        Ok(Inst { typ: InstType::PUSH, op: Word::new_i64(42) })
    );
    assert_eq!(
        get_inst_from_line("push -9223372036854775808"),
        Ok(Inst { typ: InstType::PUSH, op: Word::new_i64(i64::MIN) })
    );
    assert_eq!(
        get_inst_from_line("push 18446744073709551615"),
        Ok(Inst { typ: InstType::PUSH, op: Word::new_u64(u64::MAX) })
    );
    assert_eq!(
        get_inst_from_line("dup +3"),
        Ok(Inst { typ: InstType::DUP, op: Word::new_i64(3) })
    );
    assert_eq!(
        get_inst_from_line("jmp 1 7"),
        Ok(Inst { typ: InstType::JMP, op: Word::new_i64(7) })
    );
    assert_eq!(
        get_inst_from_line("plus"),
        Ok(Inst { typ: InstType::PLUS, op: Word::zero() })
    );
    assert_eq!(
        get_inst_from_line("plus 5"),
        Ok(Inst { typ: InstType::PLUS, op: Word::zero() })
    );
    assert_eq!(
        get_inst_from_line("push 1.5"),
        Err(ParseError::FloatOperand(InstType::PUSH))
    );
    assert_eq!(check_line("push 1.5"), Ok(()));
    assert_eq!(check_line("push 42"), Ok(()));
}

#[test]
fn unicode_white_space_separates_words() {
    assert_eq!(
        get_inst_from_line("push\u{a0}1"),
        Ok(Inst { typ: InstType::PUSH, op: Word::new_i64(1) })
    );
    assert_eq!(
        get_inst_from_line("\u{3000}jmp\u{2003}12\u{2029}"),
        Ok(Inst { typ: InstType::JMP, op: Word::new_i64(12) })
    );
    assert_eq!(check_line("\u{85}\u{1680}"), Err(ParseError::EmptyLine));
}

#[test]
fn line_errors() {
    assert_eq!(check_line(""), Err(ParseError::EmptyLine));
    assert_eq!(check_line(" \t "), Err(ParseError::EmptyLine));
    assert_eq!(check_line("pop 1"), Err(ParseError::UnknownMnemonic));
    assert_eq!(check_line("minus"), Err(ParseError::UnknownMnemonic));
    assert_eq!(check_line("dump 5"), Err(ParseError::UnknownMnemonic));
    assert_eq!(check_line("push"), Err(ParseError::MissingOperand));
    assert_eq!(check_line("push   "), Err(ParseError::MissingOperand));
    assert_eq!(check_line("push x1"), Err(ParseError::BadOperand));
    assert_eq!(check_line("push 18446744073709551616"), Err(ParseError::BadOperand));
    assert_eq!(check_line("push -9223372036854775809"), Err(ParseError::BadOperand));
    assert_eq!(check_line("push -"), Err(ParseError::BadOperand));
}

#[test]
fn space_counts() {
    assert_eq!(get_space_count(&0), 0);
    assert_eq!(get_space_count(&7), 1);
    assert_eq!(get_space_count(&10), 2);
    assert_eq!(get_space_count(&999), 3);
    assert_eq!(get_space_count(&1000), 4);
}

#[test]
fn combined_command_line() {
    let cli = Cli::new(&args(&["movm", "run", "prog.bin"])).unwrap();
    assert_eq!(*cli.get_mode(), CliMode::Run);
    assert_eq!(cli.get_path(), "prog.bin");
    let cli = Cli::new(&args(&["movm", "compile", "a.txt"])).unwrap();
    assert_eq!(*cli.get_mode(), CliMode::Compile);
    assert_eq!(Cli::new(&args(&["movm"])).err(), Some(CliError::MissingMode));
    assert_eq!(Cli::new(&args(&["movm", "run"])).err(), Some(CliError::MissingPath));
    assert_eq!(Cli::new(&args(&["movm", "walk", "x"])).err(), Some(CliError::UnknownMode));
}

#[test]
fn tool_command_lines() {
    let a = assembler::Cli::new(&args(&["asm", "in.txt", "out.bin"])).unwrap();
    assert_eq!(a.get_input_path(), "in.txt");
    assert_eq!(a.get_output_path(), "out.bin");
    assert_eq!(
        assembler::Cli::new(&args(&["asm", "in.txt"])).err(),
        Some(CliError::WrongArgumentCount)
    );
    let d = disassembler::Cli::new(&args(&["dis", "p.bin"])).unwrap();
    assert_eq!(d.get_path(), "p.bin");
    assert_eq!(disassembler::Cli::new(&args(&["dis"])).err(), Some(CliError::MissingPath));
    let r = runner::Cli::new(&args(&["run", "p.bin", "extra"])).unwrap();
    assert_eq!(r.get_path(), "p.bin");
    assert_eq!(runner::Cli::new(&args(&["run"])).err(), Some(CliError::MissingPath));
}
