use micro_asm::instruction::{
    Address, Device, Instruction, MachineCode, Opecode1, Opecode2, Opecode3, Opecode4, Opecode5,
    Opecode6, Opecode7, Opecode8, Register,
};

#[test]
fn test_add() {
    let input = Instruction::Group1 {
        op: Opecode1::Add,
        ra: Register::One,
        rb: Register::Two,
        constant: 4,
    };
    let expected: Result<MachineCode, ()> = Ok(0x0604 as MachineCode);
    let actual: Result<MachineCode, ()> = input.encode();
    assert_eq!(expected, actual);
}

#[test]
fn test_sub() {
    let input = Instruction::Group1 {
        op: Opecode1::Sub,
        ra: Register::Zero,
        rb: Register::Three,
        constant: 5,
    };
    let expected = Ok(0x1305);
    let actual = input.encode();
    assert_eq!(expected, actual);
}

#[test]
fn test_and() {
    let input = Instruction::Group1 {
        op: Opecode1::And,
        ra: Register::One,
        rb: Register::Two,
        constant: 0xAB,
    };
    let expected = Ok(0x26AB);
    let actual = input.encode();
    assert_eq!(expected, actual);
}

#[test]
fn test_or() {
    let input = Instruction::Group1 {
        op: Opecode1::Or,
        ra: Register::Zero,
        rb: Register::Two,
        constant: 0xAB,
    };
    let expected = Ok(0x32AB);
    let actual = input.encode();
    assert_eq!(expected, actual);
}

#[test]
fn test_xor() {
    let input = Instruction::Group1 {
        op: Opecode1::Xor,
        ra: Register::Three,
        rb: Register::One,
        constant: 0xAB,
    };
    let expected = Ok(0x4DAB);
    let actual = input.encode();
    assert_eq!(expected, actual);
}

#[test]
fn test_mult() {
    let input = Instruction::Group1 {
        op: Opecode1::Mult,
        ra: Register::One,
        rb: Register::Two,
        constant: 4,
    };
    let expected = Ok(0x6604);
    let actual = input.encode();
    assert_eq!(expected, actual);
}

#[test]
fn test_div() {
    let input = Instruction::Group1 {
        op: Opecode1::Div,
        ra: Register::Zero,
        rb: Register::One,
        constant: 4,
    };
    let expected = Ok(0x7104);
    let actual = input.encode();
    assert_eq!(expected, actual);
}

#[test]
fn test_cmp() {
    let input = Instruction::Group1 {
        op: Opecode1::Cmp,
        ra: Register::Two,
        rb: Register::One,
        constant: 0,
    };
    let expected = Ok(0x8900);
    let actual = input.encode();
    assert_eq!(expected, actual);
}

#[test]
fn test_ex() {
    let input = Instruction::Group1 {
        op: Opecode1::Ex,
        ra: Register::Zero,
        rb: Register::One,
        constant: 0,
    };
    let expected = Ok(0xF100);
    let actual = input.encode();
    assert_eq!(expected, actual);
}

#[test]
fn test_lc() {
    let input = Instruction::Group2 {
        op: Opecode2::Lc,
        rb: Register::Two,
        constant: 0x45,
    };
    let expected = Ok(0x9E45);
    let actual = input.encode();
    assert_eq!(expected, actual);
}

#[test]
fn test_push() {
    let input = Instruction::Group2 {
        op: Opecode2::Push,
        rb: Register::One,
        constant: 4,
    };
    let expected = Ok(0xD104);
    let actual = input.encode();
    assert_eq!(expected, actual);
}

#[test]
fn test_pop() {
    let input = Instruction::Group2 {
        op: Opecode2::Pop,
        rb: Register::Zero,
        constant: 4,
    };
    let expected = Ok(0xD404);
    let actual = input.encode();
    assert_eq!(expected, actual);
}

#[test]
fn test_sl() {
    let input = Instruction::Group3 {
        op: Opecode3::Sl,
        rb: Register::One,
        constant: 4,
    };
    let expected = Ok(0x5104);
    let actual = input.encode();
    assert_eq!(expected, actual);
}

#[test]
fn test_sa() {
    let input = Instruction::Group3 {
        op: Opecode3::Sa,
        rb: Register::Two,
        constant: -2,
    };
    let expected = Ok(0x56FE);
    let actual = input.encode();
    assert_eq!(expected, actual);
}

#[test]
fn test_sc() {
    let input = Instruction::Group3 {
        op: Opecode3::Sc,
        rb: Register::Three,
        constant: 3,
    };
    let expected = Ok(0x5B03);
    let actual = input.encode();
    assert_eq!(expected, actual);
}

#[test]
fn test_bix() {
    let input = Instruction::Group3 {
        op: Opecode3::Bix,
        rb: Register::Zero,
        constant: 4,
    };
    let expected = Ok(0xD804);
    let actual = input.encode();
    assert_eq!(expected, actual);
}

#[test]
fn test_lea() {
    let input = Instruction::Group4 {
        op: Opecode4::Lea,
        ra: Register::Two,
        rb: Register::One,
        constant: 4,
    };
    let expected = Ok(0xA904);
    let actual = input.encode();
    assert_eq!(expected, actual);
}

#[test]
fn test_lx() {
    let input = Instruction::Group4 {
        op: Opecode4::Lx,
        ra: Register::Three,
        rb: Register::One,
        constant: -1,
    };
    let expected = Ok(0xBDFF);
    let actual = input.encode();
    assert_eq!(expected, actual);
}

#[test]
fn test_stx() {
    let input = Instruction::Group4 {
        op: Opecode4::Stx,
        ra: Register::Three,
        rb: Register::One,
        constant: 2,
    };
    let expected = Ok(0xCD02);
    let actual = input.encode();
    assert_eq!(expected, actual);
}

#[test]
fn test_l() {
    let input = Instruction::Group5 {
        op: Opecode5::L,
        rb: Register::One,
        address: Address::Constant(5),
    };
    let expected = Ok(0x9105);
    let actual = input.encode();
    assert_eq!(expected, actual);
}

#[test]
fn test_st() {
    let input = Instruction::Group5 {
        op: Opecode5::St,
        rb: Register::Two,
        address: Address::Constant(-5i16 as MachineCode),
    };
    let expected = Ok(0x96FB);
    let actual = input.encode();
    assert_eq!(expected, actual);
}

#[test]
fn test_la() {
    let input = Instruction::Group5 {
        op: Opecode5::La,
        rb: Register::One,
        address: Address::Constant(4),
    };
    let expected = Ok(0x9904);
    let actual = input.encode();
    assert_eq!(expected, actual);
}

#[test]
fn test_bdis() {
    let input = Instruction::Group6 {
        op: Opecode6::Bdis,
        address: Address::Constant(0),
    };
    let expected = Ok(0xDC00);
    let actual = input.encode();
    assert_eq!(expected, actual);
}

#[test]
fn test_bp() {
    let input = Instruction::Group6 {
        op: Opecode6::Bp,
        address: Address::Constant(5),
    };
    let expected = Ok(0xE005);
    let actual = input.encode();
    assert_eq!(expected, actual);
}

#[test]
fn test_bz() {
    let input = Instruction::Group6 {
        op: Opecode6::Bz,
        address: Address::Constant(-3i16 as u16),
    };
    let expected = Ok(0xE1FD);
    let actual = input.encode();
    assert_eq!(expected, actual);
}

#[test]
fn test_bm() {
    let input = Instruction::Group6 {
        op: Opecode6::Bm,
        address: Address::Constant(9),
    };
    let expected = Ok(0xE209);
    let actual = input.encode();
    assert_eq!(expected, actual);
}

#[test]
fn test_bc() {
    let input = Instruction::Group6 {
        op: Opecode6::Bc,
        address: Address::Unresolved {
            symbol_name: "TEST0".to_string(),
            offset: 0,
        },
    };
    let expected = Err(());
    let actual = input.encode();
    assert_eq!(expected, actual);
}

#[test]
fn test_bnp() {
    let input = Instruction::Group6 {
        op: Opecode6::Bnp,
        address: Address::Unresolved {
            symbol_name: "TEST1".to_string(),
            offset: 5,
        },
    };
    let expected = Err(());
    let actual = input.encode();
    assert_eq!(expected, actual);
}

#[test]
fn test_bnz() {
    let input = Instruction::Group6 {
        op: Opecode6::Bnz,
        address: Address::Unresolved {
            symbol_name: "TEST2".to_string(),
            offset: -3,
        },
    };
    let expected = Err(());
    let actual = input.encode();
    assert_eq!(expected, actual);
}

#[test]
fn test_bnm() {
    let input = Instruction::Group6 {
        op: Opecode6::Bnm,
        address: Address::Unresolved {
            symbol_name: "TEST3".to_string(),
            offset: 9,
        },
    };
    let expected = Err(());
    let actual = input.encode();
    assert_eq!(expected, actual);
}

#[test]
fn test_bnc() {
    let input = Instruction::Group6 {
        op: Opecode6::Bnc,
        address: Address::Constant(0),
    };
    let expected = Ok(0xE700);
    let actual = input.encode();
    assert_eq!(expected, actual);
}

#[test]
fn test_b() {
    let input = Instruction::Group6 {
        op: Opecode6::B,
        address: Address::Constant(-5i16 as u16),
    };
    let expected = Ok(0xE8FB);
    let actual = input.encode();
    assert_eq!(expected, actual);
}

#[test]
fn test_bi() {
    let input = Instruction::Group6 {
        op: Opecode6::Bi,
        address: Address::Constant(3),
    };
    let expected = Ok(0xE903);
    let actual = input.encode();
    assert_eq!(expected, actual);
}

#[test]
fn test_bsr() {
    let input = Instruction::Group6 {
        op: Opecode6::Bsr,
        address: Address::Constant(9),
    };
    let expected = Ok(0xEA09);
    let actual = input.encode();
    assert_eq!(expected, actual);
}

#[test]
fn test_rio() {
    let input = Instruction::Group7 {
        op: Opecode7::Rio,
        device: Device::Cr,
    };
    let expected = Ok(0xEC00);
    let actual = input.encode();
    assert_eq!(expected, actual);
}

#[test]
fn test_wio() {
    let input = Instruction::Group7 {
        op: Opecode7::Wio,
        device: Device::Lpt,
    };
    let expected = Ok(0xED01);
    let actual = input.encode();
    assert_eq!(expected, actual);
}

#[test]
fn test_ret() {
    let input = Instruction::Group8 { op: Opecode8::Ret };
    let expected = Ok(0xEB00);
    let actual = input.encode();
    assert_eq!(expected, actual);
}

#[test]
fn test_nop() {
    let input = Instruction::Group8 { op: Opecode8::Nop };
    let expected = Ok(0xEE00);
    let actual = input.encode();
    assert_eq!(expected, actual);
}

#[test]
fn test_hlt() {
    let input = Instruction::Group8 { op: Opecode8::Hlt };
    let expected = Ok(0xEF00);
    let actual = input.encode();
    assert_eq!(expected, actual);
}

#[test]
fn test_encode_dc_resolved() {
    let input = Instruction::Dc {
        value: 0xBEEF,
        unresolved_symbol: None,
    };
    assert_eq!(Ok(0xBEEF), input.encode());
}

#[test]
fn test_encode_dc_unresolved() {
    let input = Instruction::Dc {
        value: 0,
        unresolved_symbol: Some("Label0".to_string()),
    };
    assert_eq!(Err(()), input.encode());
}

#[test]
fn test_encode_pseudo_ops_fail() {
    assert_eq!(Err(()), Instruction::Ds(4).encode());
    assert_eq!(Err(()), Instruction::Org(0x100).encode());
}

#[test]
fn test_encode_st_unresolved() {
    let input = Instruction::Group5 {
        op: Opecode5::St,
        rb: Register::Zero,
        address: Address::Unresolved {
            symbol_name: "X1".to_string(),
            offset: 0,
        },
    };
    assert_eq!(Err(()), input.encode());
}
