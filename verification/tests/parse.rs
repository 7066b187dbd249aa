use kap16::inst::add::Add;
use kap16::inst::and::And;
use kap16::inst::bra::{Bra, Cond};
use kap16::inst::cmp::Cmp;
use kap16::inst::ldr::Ldr;
use kap16::inst::mov::Mov;
use kap16::inst::mul::Mul;
use kap16::inst::orr::Orr;
use kap16::inst::shf::Shf;
use kap16::inst::str::Str;
use kap16::inst::sub::Sub;
use kap16::inst::xor::Xor;
use kap16::inst::{
    assemble, cmp, decode, ldr, mov, shf, str, sub, Instruction, Op2, ParseInstructionError,
};

fn strings(items: &[&str]) -> Vec<String> {
    items.iter().map(|s| s.to_string()).collect()
}

#[test]
fn add_parse_and_encode() {
    let instr = Add::parse(&strings(&["add", "r1", ",", "r2"])).unwrap();
    assert_eq!(instr, Add { op1: 1, op2: Op2::Reg(2) });
    assert_eq!(instr.encode(), 0xc102);
    let instr = Add::parse(&strings(&["add", "r15", ",", "0x7f"])).unwrap();
    assert_eq!(instr, Add { op1: 15, op2: Op2::Imm(0x7f) });
    assert_eq!(instr.encode(), 0xcfff);
}

#[test]
fn parse_is_case_insensitive() {
    let instr = Add::parse(&strings(&["ADD", "R1", ",", "SP"])).unwrap();
    assert_eq!(instr, Add { op1: 1, op2: Op2::Reg(13) });
    let instr = Mov::parse(&strings(&["Mov", "Lr", ",", "0X1F"])).unwrap();
    assert_eq!(instr, Mov { op1: 14, op2: Op2::Imm(0x1f), mode: mov::Mode::Mov });
}

#[test]
fn parse_errors_are_distinct() {
    let e = |items: &[&str]| Add::parse(&strings(items)).unwrap_err();
    assert_eq!(e(&[]), ParseInstructionError::EmptyStr);
    assert_eq!(e(&["add", "r1", ","]), ParseInstructionError::MissingOps);
    assert_eq!(e(&["add", "r1", ",", "r2", "r3"]), ParseInstructionError::ExtraOps);
    assert_eq!(e(&["sub", "r1", ",", "r2"]), ParseInstructionError::BadInstruction);
    assert_eq!(e(&["add", "r1", "r2", "r3"]), ParseInstructionError::ExpectedSep);
    assert_eq!(e(&["add", "x1", ",", "r2"]), ParseInstructionError::InvalidOp);
    assert_eq!(e(&["add", "r1", ",", "x2"]), ParseInstructionError::InvalidOp);
    assert_eq!(e(&["add", "r16", ",", "r2"]), ParseInstructionError::InvalidOp);
    assert_eq!(e(&["add", "r1", ",", "r16"]), ParseInstructionError::InvalidOp);
    assert_eq!(e(&["add", "r1", ",", "0x80"]), ParseInstructionError::InvalidOp);
    assert_eq!(e(&["add", "r1", ",", ""]), ParseInstructionError::InvalidOp);
}

#[test]
fn parse_order_of_checks() {
    // A malformed first operand is reported before a missing separator,
    // a register out of range after it.
    let e = |items: &[&str]| Add::parse(&strings(items)).unwrap_err();
    assert_eq!(e(&["add", "x1", "r2", "r3"]), ParseInstructionError::InvalidOp);
    assert_eq!(e(&["add", "r99", "r2", "r3"]), ParseInstructionError::ExpectedSep);
    // A load checks the range of its register before the separator.
    let e = |items: &[&str]| Ldr::parse(&strings(items)).unwrap_err();
    assert_eq!(e(&["ldr", "r99", "r2", "r3"]), ParseInstructionError::InvalidOp);
    assert_eq!(e(&["ldr", "r9", "r2", "r3"]), ParseInstructionError::ExpectedSep);
}

#[test]
fn error_messages() {
    assert_eq!(ParseInstructionError::EmptyStr.message(), "Could not parse instruction from empty string");
    assert_eq!(ParseInstructionError::MissingOps.message(), "Missing operands");
    assert_eq!(ParseInstructionError::ExtraOps.message(), "Extra operands");
    assert_eq!(ParseInstructionError::BadInstruction.message(), "Bad instruction name");
    assert_eq!(ParseInstructionError::ExpectedSep.message(), "Expected separator between operands");
    assert_eq!(ParseInstructionError::InvalidOp.message(), "Invalid operand");
    assert_eq!(ParseInstructionError::UnknownInstruction.message(), "Unknown instruction");
}

#[test]
fn and_ident_is_its_mnemonic() {
    assert_eq!(And::ident(), "and");
}

#[test]
fn logic_and_mul_parse() {
    assert_eq!(And::parse(&strings(&["and", "r1", ",", "0x7f"])).unwrap().encode(), 0x61ff);
    assert_eq!(Orr::parse(&strings(&["orr", "r2", ",", "r3"])).unwrap().encode(), 0x4203);
    assert_eq!(Xor::parse(&strings(&["xor", "r4", ",", "0b1"])).unwrap().encode(), 0x5481);
    assert_eq!(Mul::parse(&strings(&["mul", "r5", ",", "0d10"])).unwrap().encode(), 0x758a);
}

#[test]
fn sub_and_cmp_modes() {
    let i = Sub::parse(&strings(&["sub", "r1", ",", "r2"])).unwrap();
    assert_eq!(i.mode, sub::Mode::Sub);
    assert_eq!(i.encode(), 0x8102);
    let i = Sub::parse(&strings(&["rsb", "r1", ",", "0x01"])).unwrap();
    assert_eq!(i.mode, sub::Mode::Rsb);
    assert_eq!(i.encode(), 0x9181);
    let words: Vec<u16> = ["cmp", "cmn", "tst", "teq"]
        .iter()
        .map(|m| Cmp::parse(&strings(&[m, "r3", ",", "r4"])).unwrap().encode())
        .collect();
    assert_eq!(words, vec![0x0304, 0x1304, 0x2304, 0x3304]);
    assert_eq!(Cmp::decode(0x2304).unwrap().mode, cmp::Mode::Tst);
}

#[test]
fn mov_modes() {
    let words: Vec<u16> = ["mov", "neg", "not"]
        .iter()
        .map(|m| Mov::parse(&strings(&[m, "r1", ",", "r2"])).unwrap().encode())
        .collect();
    assert_eq!(words, vec![0xa102, 0xa112, 0xa122]);
    // An immediate is always moved.
    assert_eq!(Mov::parse(&strings(&["neg", "r1", ",", "0x05"])).unwrap().encode(), 0xa185);
    assert!(Mov::decode(0xa130).is_err());
    assert_eq!(Mov::decode(0xa1b5).unwrap(), Mov { op1: 1, op2: Op2::Imm(0x35), mode: mov::Mode::Mov });
    assert_eq!(Mov::decode(0xa1ff).unwrap().op2, Op2::Imm(0xffff));
}

#[test]
fn shf_modes_and_range() {
    let words: Vec<u16> = ["lsr", "asr", "ror", "lsl", "asl", "rol"]
        .iter()
        .map(|m| Shf::parse(&strings(&[m, "r1", ",", "0xf"])).unwrap().encode())
        .collect();
    assert_eq!(words, vec![0xe18f, 0xe19f, 0xe1af, 0xe1cf, 0xe1df, 0xe1ef]);
    assert_eq!(
        Shf::parse(&strings(&["lsl", "r1", ",", "0x10"])).unwrap_err(),
        ParseInstructionError::InvalidOp
    );
    assert_eq!(Shf::parse(&strings(&["lsl", "r1", ",", "r2"])).unwrap().encode(), 0xe142);
    assert!(Shf::decode(0xe130).is_err());
    assert!(Shf::decode(0xe170).is_err());
    assert_eq!(Shf::decode(0xe142).unwrap().mode, shf::Mode::Lsl);
}

#[test]
fn ldr_and_pop() {
    let i = Ldr::parse(&strings(&["ldr", "r1", ",", "r2"])).unwrap();
    assert_eq!(i, Ldr { op1: 1, op2: Op2::Reg(2), mode: ldr::Mode::Ldr });
    assert_eq!(i.encode(), 0xb102);
    let i = Ldr::parse(&strings(&["ldr", "r1", ",", "0x6"])).unwrap();
    assert_eq!(i.encode(), 0xb183);
    let i = Ldr::parse(&strings(&["ldr", "r1", ",", "0xfffe"])).unwrap();
    assert_eq!(i.encode(), 0xb1ff);
    assert_eq!(Ldr::decode(0xb1ff).unwrap().op2, Op2::Imm(0xfffe));
    let i = Ldr::parse(&strings(&["pop", "r7"])).unwrap();
    assert_eq!(i, Ldr { op1: 7, op2: Op2::Reg(0), mode: ldr::Mode::Pop });
    assert_eq!(i.encode(), 0xb740);
    let e = |items: &[&str]| Ldr::parse(&strings(items)).unwrap_err();
    assert_eq!(e(&[]), ParseInstructionError::EmptyStr);
    assert_eq!(e(&["str", "r1", ",", "r2"]), ParseInstructionError::BadInstruction);
    assert_eq!(e(&["pop"]), ParseInstructionError::MissingOps);
    assert_eq!(e(&["pop", "r1", "r2"]), ParseInstructionError::ExtraOps);
    assert_eq!(e(&["ldr", "r1"]), ParseInstructionError::MissingOps);
    assert_eq!(e(&["ldr", "r1", ",", "0x5"]), ParseInstructionError::InvalidOp);
    assert_eq!(e(&["ldr", "r1", ",", "0x80"]), ParseInstructionError::InvalidOp);
    assert_eq!(e(&["ldr", "r1", ",", "0xff7e"]), ParseInstructionError::InvalidOp);
    assert_eq!(Ldr::parse(&strings(&["ldr", "r1", ",", "0xff80"])).unwrap().encode(), 0xb1c0);
}

#[test]
fn str_and_push() {
    let i = Str::parse(&strings(&["str", "r1", ",", "r2"])).unwrap();
    assert_eq!(i, Str { op1: 1, op2: Op2::Reg(2), mode: str::Mode::Str });
    assert_eq!(i.encode(), 0xd102);
    let i = Str::parse(&strings(&["push", "r0"])).unwrap();
    assert_eq!(i, Str { op1: 0, op2: Op2::Reg(0), mode: str::Mode::Push });
    assert_eq!(i.encode(), 0xd040);
    assert_eq!(Str::decode(0xd07f).unwrap().mode, str::Mode::Push);
    assert_eq!(Str::decode(0xd07f).unwrap().encode(), 0xd040);
    assert_eq!(
        Str::parse(&strings(&["push", "r0", ",", "r1"])).unwrap_err(),
        ParseInstructionError::ExtraOps
    );
}

#[test]
fn bra_mnemonics() {
    let table = [
        ("b", 0xf0u16),
        ("bl", 0xf8),
        ("beq", 0xf1),
        ("bleq", 0xf9),
        ("bne", 0xf2),
        ("blne", 0xfa),
        ("blt", 0xf3),
        ("bllt", 0xfb),
        ("ble", 0xf4),
        ("blle", 0xfc),
        ("bge", 0xf5),
        ("blge", 0xfd),
        ("bgt", 0xf6),
        ("blgt", 0xfe),
    ];
    for (name, high) in table {
        let i = Bra::parse(&strings(&[name, "r3"])).unwrap();
        assert_eq!(i.encode(), (high << 8) | 0x03, "{}", name);
    }
    let i = Bra::parse(&strings(&["bne", "0xfffc"])).unwrap();
    assert_eq!(i, Bra { op2: Op2::Imm(0xfffc), link: false, cond: Cond::Ne });
    assert_eq!(i.encode(), 0xf2fe);
    assert_eq!(Bra::decode(0xf2fe).unwrap(), i);
    let e = |items: &[&str]| Bra::parse(&strings(items)).unwrap_err();
    assert_eq!(e(&[]), ParseInstructionError::EmptyStr);
    assert_eq!(e(&["b"]), ParseInstructionError::MissingOps);
    assert_eq!(e(&["b", "r1", "r2"]), ParseInstructionError::ExtraOps);
    assert_eq!(e(&["bra", "r1"]), ParseInstructionError::BadInstruction);
    assert_eq!(e(&["b", "0x3"]), ParseInstructionError::InvalidOp);
    assert_eq!(e(&["b", "0x80"]), ParseInstructionError::InvalidOp);
    assert_eq!(e(&["b", "0x8000"]), ParseInstructionError::InvalidOp);
    assert_eq!(e(&["b", "undefined"]), ParseInstructionError::InvalidOp);
    assert!(Bra::decode(0xf700).is_err());
    assert!(Bra::decode(0xff00).is_err());
}

#[test]
fn assemble_dispatches_on_the_mnemonic() {
    assert_eq!(assemble(&strings(&["add", "r1", ",", "r2"])), Ok(0xc102));
    assert_eq!(assemble(&strings(&["push", "r0"])), Ok(0xd040));
    assert_eq!(assemble(&strings(&["bl", "0x6"])), Ok(0xf883));
    assert_eq!(assemble(&strings(&["add", "R1", ",", "R2"])), Ok(0xc102));
    assert_eq!(
        assemble(&strings(&["ADD", "r1", ",", "r2"])),
        Err(ParseInstructionError::UnknownInstruction)
    );
    assert_eq!(assemble(&strings(&["nop"])), Err(ParseInstructionError::UnknownInstruction));
    assert_eq!(assemble(&strings(&[])), Err(ParseInstructionError::EmptyStr));
    assert_eq!(assemble(&strings(&["add", "r1"])), Err(ParseInstructionError::MissingOps));
}

#[test]
fn decode_covers_every_opcode() {
    let families: Vec<u8> = (0..16u16)
        .map(|op: u16| match decode(op << 12).unwrap() {
            Instruction::Cmp(_) => 0,
            Instruction::Orr(_) => 1,
            Instruction::Xor(_) => 2,
            Instruction::And(_) => 3,
            Instruction::Mul(_) => 4,
            Instruction::Sub(_) => 5,
            Instruction::Mov(_) => 6,
            Instruction::Ldr(_) => 7,
            Instruction::Add(_) => 8,
            Instruction::Str(_) => 9,
            Instruction::Shf(_) => 10,
            Instruction::Bra(_) => 11,
        })
        .collect();
    assert_eq!(families, vec![0, 0, 0, 0, 1, 2, 3, 4, 5, 5, 6, 7, 8, 9, 10, 11]);
}

#[test]
fn decode_round_trip_over_all_words() {
    for word in 0..=0xffffu16 {
        let op = word >> 12;
        let valid = match op {
            0xa => word & 0x80 != 0 || (word >> 4) & 3 != 3,
            0xe => (word >> 4) & 3 != 3,
            0xf => (word >> 8) & 7 != 7,
            _ => true,
        };
        match decode(word) {
            Ok(instr) => {
                assert!(valid);
                let canonical = if word & 0x80 != 0 || op == 0xe {
                    word
                } else if op == 0xa {
                    word & 0xffbf
                } else if op == 0xb || op == 0xd {
                    if word & 0x40 != 0 { word & 0xffc0 } else { word & 0xffcf }
                } else {
                    word & 0xff8f
                };
                assert_eq!(instr.encode(), canonical);
                // An encoded word is canonical: it decodes to the same
                // instruction and encodes to itself.
                assert_eq!(decode(canonical).unwrap().encode(), canonical);
            }
            Err(e) => {
                assert!(!valid);
                assert_eq!(e.word, word);
            }
        }
    }
}

#[test]
fn format_writes_the_mnemonic_text() {
    assert_eq!(decode(0xc102).unwrap().format(), "add r1, r2");
    assert_eq!(decode(0xcfff).unwrap().format(), "add r15, 0x007f");
    assert_eq!(decode(0x61ff).unwrap().format(), "and r1, 0xffff");
    assert_eq!(decode(0x4203).unwrap().format(), "orr r2, r3");
    assert_eq!(decode(0x5481).unwrap().format(), "xor r4, 0x0001");
    assert_eq!(decode(0x758a).unwrap().format(), "mul r5, 0x000a");
    assert_eq!(decode(0x9181).unwrap().format(), "rsb r1, 0x0001");
    assert_eq!(decode(0x2304).unwrap().format(), "tst r3, r4");
    assert_eq!(decode(0xa112).unwrap().format(), "neg r1, r2");
    assert_eq!(decode(0xe1cf).unwrap().format(), "lsl r1, 0x000f");
    assert_eq!(decode(0xb102).unwrap().format(), "ldr r1, *r2");
    assert_eq!(decode(0xb183).unwrap().format(), "ldr r1, *+0x0006");
    assert_eq!(decode(0xb740).unwrap().format(), "pop r7");
    assert_eq!(decode(0xd10c).unwrap().format(), "str r1, &r12");
    assert_eq!(decode(0xd1ff).unwrap().format(), "str r1, &+0xfffe");
    assert_eq!(decode(0xd040).unwrap().format(), "push r0");
    assert_eq!(decode(0xf003).unwrap().format(), "bra r3");
    assert_eq!(decode(0xf883).unwrap().format(), "blra +0x0006");
    assert_eq!(decode(0xf2fe).unwrap().format(), "bne +0xfffc");
    assert_eq!(decode(0xfe0e).unwrap().format(), "blgt r14");
}
