use kap16::inst::add::Add;
use kap16::inst::and::And;
use kap16::inst::bra::Bra;
use kap16::inst::cmp::Cmp;
use kap16::inst::ldr::Ldr;
use kap16::inst::mov::Mov;
use kap16::inst::mul::Mul;
use kap16::inst::shf::Shf;
use kap16::inst::str::Str;
use kap16::inst::sub::Sub;
use kap16::inst::xor::Xor;
use kap16::inst::{ldr, str, Op2};

#[test]
fn add_sweep() {
    for mut word in 0xc000..=0xcfff {
        let instr = Add::decode(word).unwrap();
        if let Op2::Reg(_) = instr.op2 {
            word &= 0xff8f;
        }
        let decoded: u16 = instr.encode();
        assert_eq!(decoded, word);
    }
}

#[test]
fn and_sweep() {
    for mut word in 0x6000..=0x6fff {
        let instr = And::decode(word).unwrap();
        if let Op2::Reg(_) = instr.op2 {
            word &= 0xff8f;
        }
        let decoded: u16 = instr.encode();
        assert_eq!(decoded, word);
    }
}

#[test]
fn bra_sweep() {
    for mut word in 0xf000..=0xffff {
        match (word & 0x0700) >> 8 {
            0b111 => continue,
            _ => (),
        }
        let instr = Bra::decode(word).unwrap();
        if let Op2::Reg(_) = instr.op2 {
            word &= 0xff8f;
        }
        let decoded: u16 = instr.encode();
        assert_eq!(decoded, word);
    }
}

#[test]
fn cmp_sweep() {
    for mut word in 0x0000..=0x3fff {
        let instr = Cmp::decode(word).unwrap();
        if let Op2::Reg(_) = instr.op2 {
            word &= 0xff8f;
        }
        let decoded: u16 = instr.encode();
        assert_eq!(decoded, word);
    }
}

#[test]
fn ldr_sweep() {
    for mut word in 0xb000..=0xbfff {
        let instr = Ldr::decode(word).unwrap();
        if let Op2::Reg(_) = instr.op2 {
            word &= 0xffcf;
        }
        if let ldr::Mode::Pop = instr.mode {
            word &= 0xffc0;
        }
        let decoded: u16 = instr.encode();
        assert_eq!(decoded, word);
    }
}

#[test]
fn mov_sweep() {
    for mut word in 0xa000..=0xafff {
        match (word & 0x00b0) >> 4 {
            0b0011 => continue,
            _ => (),
        }
        let instr = Mov::decode(word).unwrap();
        if let Op2::Reg(_) = instr.op2 {
            word &= 0xffbf;
        }
        let decoded: u16 = instr.encode();
        assert_eq!(decoded, word);
    }
}

#[test]
fn mul_sweep() {
    for mut word in 0x7000..=0x7fff {
        let instr = Mul::decode(word).unwrap();
        if let Op2::Reg(_) = instr.op2 {
            word &= 0xff8f;
        }
        let decoded: u16 = instr.encode();
        assert_eq!(decoded, word);
    }
}

#[test]
fn shf_sweep() {
    for word in 0xe000..=0xefff {
        match (word & 0x0030) >> 4 {
            0b11 => continue,
            _ => (),
        }
        let instr = Shf::decode(word).unwrap();
        let decoded: u16 = instr.encode();
        assert_eq!(decoded, word);
    }
}

#[test]
fn str_sweep() {
    for mut word in 0xd000..=0xdfff {
        let instr = Str::decode(word).unwrap();
        if let Op2::Reg(_) = instr.op2 {
            word &= 0xffcf;
        }
        if let str::Mode::Push = instr.mode {
            word &= 0xffc0;
        }
        let decoded: u16 = instr.encode();
        assert_eq!(decoded, word);
    }
}

#[test]
fn sub_sweep() {
    for mut word in 0x8000..=0x9fff {
        let instr = Sub::decode(word).unwrap();
        if let Op2::Reg(_) = instr.op2 {
            word &= 0xff8f;
        }
        let decoded: u16 = instr.encode();
        assert_eq!(decoded, word);
    }
}

#[test]
fn xor_sweep() {
    for mut word in 0x5000..=0x5fff {
        let instr = Xor::decode(word).unwrap();
        if let Op2::Reg(_) = instr.op2 {
            word &= 0xff8f;
        }
        let decoded: u16 = instr.encode();
        assert_eq!(decoded, word);
    }
}

#[test]
fn it_works() {
    assert_eq!(2 + 2, 4);
}
