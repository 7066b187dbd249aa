use kap16::alu::Flags;
use kap16::emu::{Emulator, Loaded};
use kap16::inst::add::Add;
use kap16::inst::and::And;
use kap16::inst::bra::{Bra, Cond};
use kap16::inst::cmp::Cmp;
use kap16::inst::ldr::Ldr;
use kap16::inst::mov::Mov;
use kap16::inst::mul::Mul;
use kap16::inst::orr::Orr;
use kap16::inst::shf::Shf;
use kap16::inst::str::Str;
use kap16::inst::sub::Sub;
use kap16::inst::xor::Xor;
use kap16::inst::{cmp, decode, ldr, mov, shf, str, sub, Instruction, Op2};
use kap16::proc::{Fault, Flag, Processor, RAMSIZE};
use kap16::ram::Ram;
use kap16::reg::{Bank, Register};
use kap16::util::sign_extend;

fn flags(p: &Processor) -> (bool, bool, bool, bool) {
    let f = p.condition();
    (f.zero, f.negative, f.overflow, f.carry)
}

#[test]
fn sign_extend_widens_by_the_top_bit() {
    assert_eq!(sign_extend::<7, 16>(0x3f), 0x003f);
    assert_eq!(sign_extend::<7, 16>(0x40), 0xffc0);
    assert_eq!(sign_extend::<7, 16>(0x7f), 0xffff);
    assert_eq!(sign_extend::<7, 16>(0xff80), 0x0000);
    assert_eq!(sign_extend::<8, 16>(0x7e), 0x007e);
    assert_eq!(sign_extend::<8, 16>(0x80), 0xff80);
    assert_eq!(sign_extend::<8, 16>(0xfe), 0xfffe);
    assert_eq!(sign_extend::<15, 16>(0x4000), 0xc000);
    assert_eq!(sign_extend::<1, 16>(0x0001), 0xffff);
}

#[test]
fn add_overflow_and_carry() {
    let mut p = Processor::new();
    p.regs.set(0, 0x7fff);
    p.regs.set(1, 0x0001);
    Add { op1: 0, op2: Op2::Reg(1) }.execute(&mut p);
    assert_eq!(p.regs.get(0), 0x8000);
    // zero, negative, overflow, carry
    assert_eq!(flags(&p), (false, true, true, false));
    p.regs.set(0, 0xffff);
    Add { op1: 0, op2: Op2::Imm(1) }.execute(&mut p);
    assert_eq!(p.regs.get(0), 0);
    assert_eq!(flags(&p), (true, false, false, true));
    p.regs.set(0, 0x8000);
    p.regs.set(1, 0x8000);
    Add { op1: 0, op2: Op2::Reg(1) }.execute(&mut p);
    assert_eq!(p.regs.get(0), 0);
    assert_eq!(flags(&p), (true, false, true, true));
}

#[test]
fn sub_overflow_and_carry() {
    let mut p = Processor::new();
    p.regs.set(0, 0x0000);
    p.regs.set(1, 0x0001);
    Sub { op1: 0, op2: Op2::Reg(1), mode: sub::Mode::Sub }.execute(&mut p);
    assert_eq!(p.regs.get(0), 0xffff);
    assert_eq!(flags(&p), (false, true, false, true));
    p.regs.set(0, 0x8000);
    Sub { op1: 0, op2: Op2::Imm(1), mode: sub::Mode::Sub }.execute(&mut p);
    assert_eq!(p.regs.get(0), 0x7fff);
    assert_eq!(flags(&p), (false, false, true, false));
}

#[test]
fn rsb_swaps_the_operands() {
    let mut p = Processor::new();
    p.regs.set(2, 3);
    Sub { op1: 2, op2: Op2::Imm(10), mode: sub::Mode::Rsb }.execute(&mut p);
    assert_eq!(p.regs.get(2), 7);
    assert_eq!(flags(&p), (false, false, false, false));
}

#[test]
fn mul_sets_carry_when_the_product_does_not_fit() {
    let mut p = Processor::new();
    p.regs.set(0, 0x0100);
    p.regs.set(1, 0x0100);
    Mul { op1: 0, op2: Op2::Reg(1) }.execute(&mut p);
    assert_eq!(p.regs.get(0), 0);
    assert_eq!(flags(&p), (true, false, true, true));
    p.regs.set(0, 7);
    Mul { op1: 0, op2: Op2::Imm(6) }.execute(&mut p);
    assert_eq!(p.regs.get(0), 42);
    assert_eq!(flags(&p), (false, false, false, false));
}

#[test]
fn logic_keeps_overflow_and_carry() {
    let mut p = Processor::new();
    p.set_condition(Flags { zero: false, negative: false, overflow: true, carry: true });
    p.regs.set(0, 0xf0f0);
    p.regs.set(1, 0x0f0f);
    And { op1: 0, op2: Op2::Reg(1) }.execute(&mut p);
    assert_eq!(p.regs.get(0), 0);
    assert_eq!(flags(&p), (true, false, true, true));
    Orr { op1: 0, op2: Op2::Imm(0xffff) }.execute(&mut p);
    assert_eq!(p.regs.get(0), 0xffff);
    assert_eq!(flags(&p), (false, true, true, true));
    Xor { op1: 0, op2: Op2::Reg(0) }.execute(&mut p);
    assert_eq!(p.regs.get(0), 0);
    assert_eq!(flags(&p), (true, false, true, true));
    p.set_condition(Flags { zero: true, negative: true, overflow: false, carry: false });
    p.regs.set(3, 5);
    Xor { op1: 3, op2: Op2::Imm(6) }.execute(&mut p);
    assert_eq!(p.regs.get(3), 3);
    assert_eq!(flags(&p), (false, false, false, false));
}

#[test]
fn cmp_family_writes_only_flags() {
    let mut p = Processor::new();
    p.regs.set(0, 5);
    p.regs.set(1, 5);
    Cmp { op1: 0, op2: Op2::Reg(1), mode: cmp::Mode::Cmp }.execute(&mut p);
    assert_eq!(p.regs.get(0), 5);
    assert_eq!(flags(&p), (true, false, false, false));
    Cmp { op1: 0, op2: Op2::Imm(6), mode: cmp::Mode::Cmp }.execute(&mut p);
    assert_eq!(flags(&p), (false, true, false, true));
    Cmp { op1: 0, op2: Op2::Imm(0xfffb), mode: cmp::Mode::Cmn }.execute(&mut p);
    assert_eq!(flags(&p), (true, false, false, true));
    Cmp { op1: 0, op2: Op2::Imm(2), mode: cmp::Mode::Tst }.execute(&mut p);
    assert_eq!(flags(&p), (true, false, false, false));
    Cmp { op1: 0, op2: Op2::Imm(0x8005), mode: cmp::Mode::Teq }.execute(&mut p);
    assert_eq!(flags(&p), (false, true, false, false));
    assert_eq!(p.regs.get(0), 5);
}

#[test]
fn mov_neg_not() {
    let mut p = Processor::new();
    p.set_condition(Flags { zero: true, negative: false, overflow: true, carry: false });
    p.regs.set(1, 0x0001);
    Mov { op1: 0, op2: Op2::Reg(1), mode: mov::Mode::Mov }.execute(&mut p);
    assert_eq!(p.regs.get(0), 0x0001);
    Mov { op1: 0, op2: Op2::Reg(1), mode: mov::Mode::Neg }.execute(&mut p);
    assert_eq!(p.regs.get(0), 0xffff);
    Mov { op1: 0, op2: Op2::Reg(1), mode: mov::Mode::Not }.execute(&mut p);
    assert_eq!(p.regs.get(0), 0xfffe);
    p.regs.set(1, 0x8000);
    Mov { op1: 0, op2: Op2::Reg(1), mode: mov::Mode::Neg }.execute(&mut p);
    assert_eq!(p.regs.get(0), 0x8000);
    p.regs.set(1, 0);
    Mov { op1: 0, op2: Op2::Reg(1), mode: mov::Mode::Neg }.execute(&mut p);
    assert_eq!(p.regs.get(0), 0);
    Mov { op1: 2, op2: Op2::Imm(0xffc0), mode: mov::Mode::Mov }.execute(&mut p);
    assert_eq!(p.regs.get(2), 0xffc0);
    assert_eq!(flags(&p), (true, false, true, false));
}

#[test]
fn shifts_put_the_bit_moved_out_into_overflow() {
    let mut p = Processor::new();
    p.set_condition(Flags { zero: false, negative: false, overflow: false, carry: true });
    p.regs.set(0, 0x8001);
    Shf { op1: 0, op2: Op2::Imm(1), mode: shf::Mode::Lsr }.execute(&mut p);
    assert_eq!(p.regs.get(0), 0x4000);
    assert_eq!(flags(&p), (false, false, true, true));
    p.regs.set(0, 0x8001);
    Shf { op1: 0, op2: Op2::Imm(4), mode: shf::Mode::Asr }.execute(&mut p);
    assert_eq!(p.regs.get(0), 0xf800);
    assert_eq!(flags(&p), (false, true, true, true));
    p.regs.set(0, 0x8001);
    Shf { op1: 0, op2: Op2::Imm(1), mode: shf::Mode::Lsl }.execute(&mut p);
    assert_eq!(p.regs.get(0), 0x0002);
    assert_eq!(flags(&p), (false, false, true, true));
    p.regs.set(0, 0x4000);
    Shf { op1: 0, op2: Op2::Imm(1), mode: shf::Mode::Asl }.execute(&mut p);
    assert_eq!(p.regs.get(0), 0x8000);
    assert_eq!(flags(&p), (false, true, false, true));
    p.regs.set(0, 0x8001);
    Shf { op1: 0, op2: Op2::Imm(4), mode: shf::Mode::Ror }.execute(&mut p);
    assert_eq!(p.regs.get(0), 0x1800);
    assert_eq!(flags(&p), (false, false, false, true));
    p.regs.set(0, 0x8001);
    Shf { op1: 0, op2: Op2::Imm(4), mode: shf::Mode::Rol }.execute(&mut p);
    assert_eq!(p.regs.get(0), 0x0018);
    assert_eq!(flags(&p), (false, false, false, true));
}

#[test]
fn shifts_by_a_register_of_sixteen_or_more() {
    let mut p = Processor::new();
    p.regs.set(1, 16);
    for mode in [shf::Mode::Lsr, shf::Mode::Asr, shf::Mode::Lsl, shf::Mode::Asl] {
        p.regs.set(0, 0xffff);
        Shf { op1: 0, op2: Op2::Reg(1), mode }.execute(&mut p);
        assert_eq!(p.regs.get(0), 0);
        assert!(p.condition().zero);
    }
    p.regs.set(1, 20);
    p.regs.set(0, 0x8001);
    Shf { op1: 0, op2: Op2::Reg(1), mode: shf::Mode::Ror }.execute(&mut p);
    assert_eq!(p.regs.get(0), 0x1800);
    p.regs.set(1, 32);
    p.regs.set(0, 0x8001);
    Shf { op1: 0, op2: Op2::Reg(1), mode: shf::Mode::Rol }.execute(&mut p);
    assert_eq!(p.regs.get(0), 0x8001);
    p.regs.set(1, 0);
    Shf { op1: 0, op2: Op2::Reg(1), mode: shf::Mode::Lsr }.execute(&mut p);
    assert_eq!(p.regs.get(0), 0x8001);
    assert!(p.condition().overflow);
}

#[test]
fn branch_condition_table() {
    let f = Flags { zero: true, negative: false, overflow: false, carry: false };
    assert!(Cond::Ra.test(f));
    assert!(Cond::Eq.test(f));
    assert!(!Cond::Ne.test(f));
    assert!(!Cond::Lt.test(f));
    assert!(Cond::Le.test(f));
    assert!(Cond::Ge.test(f));
    assert!(!Cond::Gt.test(f));
    let f = Flags { zero: false, negative: true, overflow: true, carry: true };
    assert!(Cond::Ra.test(f));
    assert!(!Cond::Eq.test(f));
    assert!(Cond::Ne.test(f));
    assert!(Cond::Lt.test(f));
    assert!(Cond::Le.test(f));
    assert!(!Cond::Ge.test(f));
    assert!(!Cond::Gt.test(f));
    let f = Flags { zero: false, negative: false, overflow: true, carry: true };
    assert!(!Cond::Le.test(f));
    assert!(Cond::Ge.test(f));
    assert!(Cond::Gt.test(f));
}

#[test]
fn branch_taken_and_not_taken() {
    let mut p = Processor::new();
    p.set_condition(Flags { zero: true, negative: false, overflow: false, carry: false });
    p.regs.set(15, 0x0100);
    // beq is taken
    Bra { op2: Op2::Imm(6), link: false, cond: Cond::Eq }.execute(&mut p);
    assert_eq!(p.regs.get(15), 0x0106);
    assert_eq!(p.regs.get(14), 0);
    // bne is not taken
    Bra { op2: Op2::Imm(6), link: false, cond: Cond::Ne }.execute(&mut p);
    assert_eq!(p.regs.get(15), 0x0106);
    // bgt is not taken
    Bra { op2: Op2::Imm(6), link: true, cond: Cond::Gt }.execute(&mut p);
    assert_eq!(p.regs.get(15), 0x0106);
    assert_eq!(p.regs.get(14), 0);
    // a backward branch that links
    Bra { op2: Op2::Imm(0xfffc), link: true, cond: Cond::Ra }.execute(&mut p);
    assert_eq!(p.regs.get(15), 0x0102);
    assert_eq!(p.regs.get(14), 0x0106);
    // through a register
    p.regs.set(3, 0x0200);
    Bra { op2: Op2::Reg(3), link: false, cond: Cond::Le }.execute(&mut p);
    assert_eq!(p.regs.get(15), 0x0200);
    // a linking branch through the link register goes to its old word
    p.regs.set(14, 0x0300);
    Bra { op2: Op2::Reg(14), link: true, cond: Cond::Ra }.execute(&mut p);
    assert_eq!(p.regs.get(15), 0x0300);
    assert_eq!(p.regs.get(14), 0x0200);
}

#[test]
fn stack_discipline() {
    let mut p = Processor::new();
    p.regs.set(13, 0x1000);
    p.regs.set(0, 0xbeef);
    Str { op1: 0, op2: Op2::Reg(0), mode: str::Mode::Push }.execute(&mut p).unwrap();
    assert_eq!(p.regs.get(13), 0x0ffe);
    assert_eq!(p.ram.read(0x0ffe), Ok(0xbeef));
    p.regs.set(0, 0);
    Ldr { op1: 1, op2: Op2::Reg(0), mode: ldr::Mode::Pop }.execute(&mut p).unwrap();
    assert_eq!(p.regs.get(1), 0xbeef);
    assert_eq!(p.regs.get(13), 0x1000);
}

#[test]
fn push_of_the_stack_pointer_stores_the_lowered_pointer() {
    let mut p = Processor::new();
    p.regs.set(13, 0x1000);
    Str { op1: 13, op2: Op2::Reg(0), mode: str::Mode::Push }.execute(&mut p).unwrap();
    assert_eq!(p.ram.read(0x0ffe), Ok(0x0ffe));
    Ldr { op1: 13, op2: Op2::Reg(0), mode: ldr::Mode::Pop }.execute(&mut p).unwrap();
    assert_eq!(p.regs.get(13), 0x0ffe);
}

#[test]
fn load_and_store_through_register_and_displacement() {
    let mut p = Processor::new();
    p.regs.set(15, 0x0010);
    p.regs.set(2, 0x0200);
    p.regs.set(1, 0x1234);
    Str { op1: 1, op2: Op2::Reg(2), mode: str::Mode::Str }.execute(&mut p).unwrap();
    assert_eq!(p.ram.0[0x200], 0x34);
    assert_eq!(p.ram.0[0x201], 0x12);
    Str { op1: 1, op2: Op2::Imm(0xfffc), mode: str::Mode::Str }.execute(&mut p).unwrap();
    assert_eq!(p.ram.read(0x000c), Ok(0x1234));
    Ldr { op1: 3, op2: Op2::Reg(2), mode: ldr::Mode::Ldr }.execute(&mut p).unwrap();
    assert_eq!(p.regs.get(3), 0x1234);
    Ldr { op1: 4, op2: Op2::Imm(0xfffc), mode: ldr::Mode::Ldr }.execute(&mut p).unwrap();
    assert_eq!(p.regs.get(4), 0x1234);
}

#[test]
fn memory_faults_leave_the_state_alone() {
    let mut p = Processor::new();
    p.regs.set(2, 0x0201);
    p.regs.set(1, 0x1234);
    let before = p.clone();
    let r = Str { op1: 1, op2: Op2::Reg(2), mode: str::Mode::Str }.execute(&mut p);
    assert_eq!(r, Err(Fault::Misaligned(0x0201)));
    assert_eq!(p.ram.0, before.ram.0);
    let r = Ldr { op1: 1, op2: Op2::Reg(2), mode: ldr::Mode::Ldr }.execute(&mut p);
    assert_eq!(r, Err(Fault::Misaligned(0x0201)));
    assert_eq!(p.regs.get(1), 0x1234);
    p.regs.set(2, 0x4000);
    let r = Ldr { op1: 1, op2: Op2::Reg(2), mode: ldr::Mode::Ldr }.execute(&mut p);
    assert_eq!(r, Err(Fault::OutOfBounds(0x4000)));
    // push with the stack pointer at zero wraps to an address out of memory
    let r = Str { op1: 1, op2: Op2::Reg(0), mode: str::Mode::Push }.execute(&mut p);
    assert_eq!(r, Err(Fault::OutOfBounds(0xfffe)));
    assert_eq!(p.regs.get(13), 0);
    p.regs.set(13, 0x3fff);
    let r = Ldr { op1: 1, op2: Op2::Reg(0), mode: ldr::Mode::Pop }.execute(&mut p);
    assert_eq!(r, Err(Fault::Misaligned(0x3fff)));
    assert_eq!(p.regs.get(13), 0x3fff);
}

#[test]
fn ram_reads_and_writes_words_low_byte_first() {
    let mut ram: Ram<8> = Ram::default();
    assert_eq!(ram.write(2, 0xabcd), Ok(()));
    assert_eq!(ram.0, [0, 0, 0xcd, 0xab, 0, 0, 0, 0]);
    assert_eq!(ram.read(2), Ok(0xabcd));
    assert_eq!(ram.read(0), Ok(0));
    assert_eq!(ram.read(6), Ok(0));
    assert_eq!(ram.read(3), Err(Fault::Misaligned(3)));
    assert_eq!(ram.read(8), Err(Fault::OutOfBounds(8)));
    assert_eq!(ram.write(7, 1), Err(Fault::Misaligned(7)));
    assert_eq!(ram.write(0xfffe, 1), Err(Fault::OutOfBounds(0xfffe)));
    assert_eq!(ram.0, [0, 0, 0xcd, 0xab, 0, 0, 0, 0]);
    let mut odd: Ram<3> = Ram::default();
    assert_eq!(odd.read(2), Err(Fault::OutOfBounds(2)));
    assert_eq!(odd.write(0, 0x0102), Ok(()));
    assert_eq!(odd.0, [2, 1, 0]);
}

#[test]
fn registers_and_bank() {
    let mut r = Register::default();
    assert_eq!(r.get(), 0);
    r.set(7);
    assert_eq!(r.get(), 7);
    let mut bank: Bank<4> = Bank::default();
    bank.set(3, 0xffff);
    assert_eq!(bank.get(3), 0xffff);
    assert_eq!(bank.get(0), 0);
    assert_eq!(bank.0[3], Register(0xffff));
}

#[test]
fn flags_are_listed_from_carry_down() {
    let mut p = Processor::new();
    assert_eq!(p.flags(), vec![]);
    p.sr.set(0x000f);
    assert_eq!(p.flags(), vec![Flag::Carry, Flag::Overflow, Flag::Negative, Flag::Zero]);
    p.sr.set(0xfff5);
    assert_eq!(p.flags(), vec![Flag::Overflow, Flag::Zero]);
    p.set_condition(Flags { zero: false, negative: true, overflow: false, carry: true });
    assert_eq!(p.sr.get(), 0xfffa);
    assert_eq!(p.flags(), vec![Flag::Carry, Flag::Negative]);
}

#[test]
fn cycle_fetches_advances_decodes_executes() {
    let mut e = Emulator::new();
    // mov r0, 0x05 ; add r0, 0x03 ; b -2 (to itself)
    let image: Vec<u8> = vec![0x85, 0xa0, 0x83, 0xc0, 0xff, 0xf0];
    assert_eq!(e.load(&image), Loaded::Short { read: 6, padded: RAMSIZE - 6 });
    let i = e.step().unwrap();
    assert_eq!(i, Instruction::Mov(Mov { op1: 0, op2: Op2::Imm(5), mode: mov::Mode::Mov }));
    assert_eq!(e.proc.regs.get(15), 2);
    assert_eq!(e.proc.regs.get(0), 5);
    let i = e.step().unwrap();
    assert_eq!(i, Instruction::Add(Add { op1: 0, op2: Op2::Imm(3) }));
    assert_eq!(e.proc.regs.get(0), 8);
    let i = e.step().unwrap();
    assert_eq!(i.format(), "bra +0xfffe");
    assert_eq!(e.proc.regs.get(15), 4);
    let i = e.step().unwrap();
    assert_eq!(i.format(), "bra +0xfffe");
    assert_eq!(e.proc.regs.get(15), 4);
}

#[test]
fn cycle_faults() {
    let mut p = Processor::new();
    p.regs.set(15, 0x0001);
    assert_eq!(p.cycle(), Err(Fault::Misaligned(1)));
    assert_eq!(p.regs.get(15), 1);
    p.regs.set(15, 0x4000);
    assert_eq!(p.cycle(), Err(Fault::OutOfBounds(0x4000)));
    assert_eq!(p.regs.get(15), 0x4000);
    p.regs.set(15, 0x0010);
    p.ram.write(0x0010, 0xe130).unwrap();
    assert_eq!(p.cycle(), Err(Fault::Undecodable(0xe130)));
    assert_eq!(p.regs.get(15), 0x0012);
    // ldr r1, *r2 with r2 odd
    p.regs.set(2, 0x0003);
    p.ram.write(0x0012, 0xb102).unwrap();
    assert_eq!(p.cycle(), Err(Fault::Misaligned(3)));
    assert_eq!(p.regs.get(15), 0x0014);
    assert_eq!(p.regs.get(1), 0);
}

#[test]
fn load_pads_and_truncates() {
    let mut e = Emulator::new();
    e.proc.ram.write(0x100, 0xffff).unwrap();
    e.proc.regs.set(3, 9);
    assert_eq!(e.load(&vec![1, 2, 3]), Loaded::Short { read: 3, padded: RAMSIZE - 3 });
    assert_eq!(e.proc.ram.read(0), Ok(0x0201));
    assert_eq!(e.proc.ram.read(2), Ok(0x0003));
    assert_eq!(e.proc.ram.read(0x100), Ok(0));
    assert_eq!(e.proc.regs.get(3), 9);
    let exact: Vec<u8> = (0..RAMSIZE).map(|i| (i % 251) as u8).collect();
    assert_eq!(e.load(&exact), Loaded::Exact);
    assert_eq!(e.proc.ram.0[RAMSIZE - 1], ((RAMSIZE - 1) % 251) as u8);
    let long: Vec<u8> = (0..RAMSIZE + 10).map(|i| (i % 7) as u8).collect();
    assert_eq!(e.load(&long), Loaded::Truncated { read: RAMSIZE, dropped: 10 });
    assert_eq!(e.proc.ram.0[RAMSIZE - 1], ((RAMSIZE - 1) % 7) as u8);
    assert_eq!(e.load(&vec![]), Loaded::Short { read: 0, padded: RAMSIZE });
    assert_eq!(e.proc.ram.0[0], 0);
}

#[test]
fn decoded_instructions_execute_through_the_enum() {
    let mut p = Processor::new();
    p.regs.set(1, 6);
    p.regs.set(2, 7);
    decode(0x7102).unwrap().execute(&mut p).unwrap();
    assert_eq!(p.regs.get(1), 42);
    p.regs.set(13, 0x20);
    decode(0xd140).unwrap().execute(&mut p).unwrap();
    assert_eq!(p.ram.read(0x1e), Ok(42));
    assert_eq!(decode(0xb340).unwrap().execute(&mut p), Ok(()));
    assert_eq!(p.regs.get(3), 42);
    p.regs.set(13, 0x21);
    assert_eq!(decode(0xb340).unwrap().execute(&mut p), Err(Fault::Misaligned(0x21)));
}

#[test]
fn register_is_written_as_four_hexadecimal_digits() {
    assert_eq!(Register(0).format(), "0000");
    assert_eq!(Register(0x1a).format(), "001a");
    assert_eq!(Register(0xbeef).format(), "beef");
}

#[test]
fn processor_dump_shows_registers_and_flags() {
    let mut p = Processor::new();
    assert_eq!(
        p.dump(),
        "R00: 0000, R01: 0000, R02: 0000, R03: 0000\n\
         R04: 0000, R05: 0000, R06: 0000, R07: 0000\n\
         R08: 0000, R09: 0000, R10: 0000, R11: 0000\n\
         R12: 0000, R13: 0000, R14: 0000, R15: 0000\n\
         SR : 0000, []"
    );
    p.regs.set(1, 0x00ff);
    p.regs.set(12, 0xabcd);
    p.regs.set(15, 0x0002);
    p.sr.set(0x0009);
    assert_eq!(
        p.dump(),
        "R00: 0000, R01: 00ff, R02: 0000, R03: 0000\n\
         R04: 0000, R05: 0000, R06: 0000, R07: 0000\n\
         R08: 0000, R09: 0000, R10: 0000, R11: 0000\n\
         R12: abcd, R13: 0000, R14: 0000, R15: 0002\n\
         SR : 0009, [Carry, Zero]"
    );
    p.sr.set(0xffff);
    assert!(p.dump().ends_with("SR : ffff, [Carry, Overflow, Negative, Zero]"));
}

#[test]
fn ram_dump_shows_the_rows_that_are_not_zero() {
    let mut ram: Ram<64> = Ram::default();
    assert_eq!(ram.dump(), "");
    ram.write(0x02, 0x1234).unwrap();
    assert_eq!(ram.dump(), "0x0000: 0000 1234 0000 0000 0000 0000 0000 0000");
    ram.write(0x3e, 0xffff).unwrap();
    assert_eq!(
        ram.dump(),
        "0x0000: 0000 1234 0000 0000 0000 0000 0000 0000\n\
         0x0030: 0000 0000 0000 0000 0000 0000 0000 ffff"
    );
    ram.write(0x02, 0).unwrap();
    assert_eq!(ram.dump(), "\n0x0030: 0000 0000 0000 0000 0000 0000 0000 ffff");
    let mut short: Ram<21> = Ram::default();
    short.write(0x12, 0x00ab).unwrap();
    short.0[20] = 7;
    assert_eq!(short.dump(), "\n0x0010: 0000 00ab");
    assert_eq!(short.word(9), 0x00ab);
    let mut p = Processor::new();
    p.ram.write(0x3ffe, 1).unwrap();
    assert_eq!(p.ram.dump(), "\n0x3ff0: 0000 0000 0000 0000 0000 0000 0000 0001");
}

#[test]
fn fault_messages() {
    assert_eq!(Fault::Misaligned(0x0201).message(), "Misaligned access: 0x0201");
    assert_eq!(Fault::OutOfBounds(0x4000).message(), "Access out of memory: 0x4000");
    assert_eq!(Fault::Undecodable(0xe130).message(), "Could not decode: 0xe130");
}
