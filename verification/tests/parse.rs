use micro_asm::instruction::{
    Address, Device, Instruction, Opecode1, Opecode2, Opecode3, Opecode4, Opecode5, Opecode6,
    Opecode7, Opecode8, Register,
};
use micro_asm::parser::{parse, Ast, ParseError, ProgramLine};
use micro_asm::token::{Span, Token};

fn sp(start: usize, end: usize) -> Span {
    Span { start, end }
}

fn ws(s: &str, a: usize, b: usize) -> (Token, Span) {
    (Token::String(s.to_string()), sp(a, b))
}

fn dec(v: u16, a: usize, b: usize) -> (Token, Span) {
    (Token::Decimal(v), sp(a, b))
}

fn hex(v: u16, a: usize, b: usize) -> (Token, Span) {
    (Token::Hexadecimal(v), sp(a, b))
}

fn oct(v: u16, a: usize, b: usize) -> (Token, Span) {
    (Token::Octal(v), sp(a, b))
}

fn bin(v: u16, a: usize, b: usize) -> (Token, Span) {
    (Token::Binary(v), sp(a, b))
}

fn nph(v: u16, a: usize, b: usize) -> (Token, Span) {
    (Token::NoPrefixHexadecimal(v), sp(a, b))
}

fn chars(s: &str, a: usize, b: usize) -> (Token, Span) {
    (Token::Chars(s.to_string()), sp(a, b))
}

fn lp(a: usize, b: usize) -> (Token, Span) {
    (Token::Lparen, sp(a, b))
}

fn rp(a: usize, b: usize) -> (Token, Span) {
    (Token::Rparen, sp(a, b))
}

fn star(a: usize, b: usize) -> (Token, Span) {
    (Token::Star, sp(a, b))
}

fn plus(a: usize, b: usize) -> (Token, Span) {
    (Token::Plus, sp(a, b))
}

fn minus(a: usize, b: usize) -> (Token, Span) {
    (Token::Minus, sp(a, b))
}

fn comma(a: usize, b: usize) -> (Token, Span) {
    (Token::Comma, sp(a, b))
}

fn colon(a: usize, b: usize) -> (Token, Span) {
    (Token::Colon, sp(a, b))
}

fn eol(a: usize, b: usize) -> (Token, Span) {
    (Token::Eol, sp(a, b))
}

fn line(instruction: Instruction) -> ProgramLine {
    ProgramLine {
        label: None,
        instruction: Some(instruction),
    }
}

#[test]
fn test_op1() {
    let input = vec![
        ws("TITLE", 0, 5),
        ws("test_op1", 6, 14),
        eol(15, 16),
        ws("ADD", 17, 20),
        dec(0, 21, 22),
        comma(23, 24),
        dec(10, 25, 27),
        lp(28, 29),
        dec(1, 30, 31),
        rp(32, 33),
        eol(34, 35),
        ws("SUB", 36, 39),
        dec(2, 40, 41),
        comma(42, 43),
        hex(0x32, 44, 48),
        eol(49, 50),
        ws("AND", 51, 54),
        dec(0, 55, 56),
        comma(57, 58),
        lp(59, 60),
        dec(3, 61, 62),
        rp(63, 64),
        eol(65, 66),
        ws("OR", 67, 69),
        dec(0, 70, 71),
        comma(72, 73),
        oct(0o54, 74, 78),
        lp(79, 80),
        dec(1, 81, 82),
        rp(83, 84),
        eol(85, 86),
        ws("XOR", 87, 90),
        dec(2, 91, 92),
        comma(93, 94),
        bin(0b01110101, 95, 105),
        eol(106, 107),
        ws("MULT", 108, 112),
        dec(0, 113, 114),
        comma(115, 116),
        lp(117, 118),
        dec(3, 119, 120),
        rp(121, 122),
        eol(123, 124),
        ws("DIV", 125, 128),
        dec(2, 129, 130),
        comma(131, 132),
        dec(98, 133, 135),
        lp(136, 137),
        dec(1, 138, 139),
        rp(140, 141),
        eol(142, 143),
        ws("CMP", 144, 147),
        dec(3, 148, 149),
        comma(150, 151),
        hex(0xBA, 152, 156),
        eol(157, 158),
        ws("EX", 159, 161),
        dec(0, 162, 163),
        comma(164, 165),
        lp(169, 170),
        dec(1, 171, 172),
        rp(173, 174),
        eol(175, 176),
        ws("END", 177, 180),
    ];
    let expected = (
        Some(Ast {
            title: "test_op1".to_string(),
            lines: vec![
                line(Instruction::Group1 {
                    op: Opecode1::Add,
                    ra: Register::One,
                    rb: Register::Zero,
                    constant: 10,
                }),
                line(Instruction::Group1 {
                    op: Opecode1::Sub,
                    ra: Register::Zero,
                    rb: Register::Two,
                    constant: 0x32,
                }),
                line(Instruction::Group1 {
                    op: Opecode1::And,
                    ra: Register::Three,
                    rb: Register::Zero,
                    constant: 0,
                }),
                line(Instruction::Group1 {
                    op: Opecode1::Or,
                    ra: Register::One,
                    rb: Register::Zero,
                    constant: 0o54,
                }),
                line(Instruction::Group1 {
                    op: Opecode1::Xor,
                    ra: Register::Zero,
                    rb: Register::Two,
                    constant: 0b01110101,
                }),
                line(Instruction::Group1 {
                    op: Opecode1::Mult,
                    ra: Register::Three,
                    rb: Register::Zero,
                    constant: 0,
                }),
                line(Instruction::Group1 {
                    op: Opecode1::Div,
                    ra: Register::One,
                    rb: Register::Two,
                    constant: 98,
                }),
                line(Instruction::Group1 {
                    op: Opecode1::Cmp,
                    ra: Register::Zero,
                    rb: Register::Three,
                    constant: 0xBA,
                }),
                line(Instruction::Group1 {
                    op: Opecode1::Ex,
                    ra: Register::One,
                    rb: Register::Zero,
                    constant: 0,
                }),
            ],
        }),
        Vec::<ParseError>::new(),
    );
    let actual = parse(input);
    assert_eq!(expected, actual);
}

#[test]
fn test_op2() {
    let input = vec![
        ws("TITLE", 0, 5),
        ws("test_op2", 6, 14),
        eol(15, 16),
        ws("LC", 17, 19),
        dec(0, 20, 21),
        comma(22, 23),
        dec(12, 24, 26),
        eol(27, 28),
        ws("PUSH", 29, 33),
        dec(1, 34, 35),
        comma(36, 37),
        hex(0x34, 38, 42),
        eol(43, 44),
        ws("POP", 45, 48),
        dec(2, 49, 50),
        comma(51, 52),
        oct(0o56, 53, 57),
        eol(58, 59),
        ws("END", 60, 63),
    ];
    let expected = (
        Some(Ast {
            title: "test_op2".to_string(),
            lines: vec![
                line(Instruction::Group2 {
                    op: Opecode2::Lc,
                    rb: Register::Zero,
                    constant: 12,
                }),
                line(Instruction::Group2 {
                    op: Opecode2::Push,
                    rb: Register::One,
                    constant: 0x34,
                }),
                line(Instruction::Group2 {
                    op: Opecode2::Pop,
                    rb: Register::Two,
                    constant: 0o56,
                }),
            ],
        }),
        Vec::<ParseError>::new(),
    );
    let actual = parse(input);
    assert_eq!(expected, actual);
}

#[test]
fn test_op3() {
    let input = vec![
        ws("TITLE", 0, 5),
        ws("test_op3", 6, 14),
        eol(15, 16),
        ws("SL", 17, 19),
        dec(0, 20, 21),
        comma(22, 23),
        plus(24, 25),
        dec(12, 26, 28),
        eol(29, 30),
        ws("SA", 31, 33),
        dec(1, 34, 35),
        comma(36, 37),
        minus(38, 39),
        hex(0x34, 40, 44),
        eol(45, 46),
        ws("SC", 47, 49),
        dec(2, 50, 51),
        comma(52, 53),
        plus(54, 55),
        oct(0o56, 56, 60),
        eol(61, 62),
        ws("BIX", 65, 68),
        dec(3, 69, 70),
        comma(71, 72),
        minus(73, 74),
        bin(0b0100101, 75, 85),
        eol(86, 87),
        ws("END", 88, 91),
    ];
    let expected = (
        Some(Ast {
            title: "test_op3".to_string(),
            lines: vec![
                line(Instruction::Group3 {
                    op: Opecode3::Sl,
                    rb: Register::Zero,
                    constant: 12,
                }),
                line(Instruction::Group3 {
                    op: Opecode3::Sa,
                    rb: Register::One,
                    constant: -0x34,
                }),
                line(Instruction::Group3 {
                    op: Opecode3::Sc,
                    rb: Register::Two,
                    constant: 0o56,
                }),
                line(Instruction::Group3 {
                    op: Opecode3::Bix,
                    rb: Register::Three,
                    constant: -0b0100101,
                }),
            ],
        }),
        Vec::<ParseError>::new(),
    );
    let actual = parse(input);
    assert_eq!(expected, actual);
}

#[test]
fn test_op4() {
    let input = vec![
        ws("TITLE", 0, 5),
        ws("test_op4", 6, 14),
        eol(15, 16),
        ws("LEA", 17, 20),
        dec(1, 21, 22),
        comma(23, 24),
        plus(25, 26),
        dec(12, 27, 29),
        lp(30, 31),
        dec(0, 32, 33),
        rp(34, 35),
        eol(36, 37),
        ws("LX", 38, 40),
        dec(3, 41, 42),
        comma(43, 44),
        lp(45, 46),
        dec(2, 47, 48),
        rp(49, 50),
        eol(51, 52),
        ws("STX", 53, 56),
        dec(1, 57, 58),
        comma(59, 60),
        minus(61, 62),
        hex(0x34, 63, 67),
        lp(68, 69),
        dec(0, 70, 71),
        rp(72, 73),
        eol(74, 75),
        ws("END", 76, 79),
    ];
    let expected = (
        Some(Ast {
            title: "test_op4".to_string(),
            lines: vec![
                line(Instruction::Group4 {
                    op: Opecode4::Lea,
                    ra: Register::Zero,
                    rb: Register::One,
                    constant: 12,
                }),
                line(Instruction::Group4 {
                    op: Opecode4::Lx,
                    ra: Register::Two,
                    rb: Register::Three,
                    constant: 0,
                }),
                line(Instruction::Group4 {
                    op: Opecode4::Stx,
                    ra: Register::Zero,
                    rb: Register::One,
                    constant: -0x34,
                }),
            ],
        }),
        Vec::<ParseError>::new(),
    );
    let actual = parse(input);
    assert_eq!(expected, actual);
}

#[test]
fn test_op5() {
    let input = vec![
        ws("TITLE", 0, 5),
        ws("test_op5", 6, 14),
        eol(15, 16),
        ws("L", 17, 18),
        dec(0, 19, 20),
        comma(21, 22),
        star(23, 24),
        eol(25, 26),
        ws("ST", 27, 29),
        dec(1, 30, 31),
        comma(32, 33),
        ws("Label1", 34, 40),
        plus(41, 42),
        dec(12, 43, 45),
        eol(46, 47),
        ws("LA", 48, 50),
        dec(2, 51, 52),
        comma(53, 54),
        star(55, 56),
        minus(57, 58),
        dec(34, 59, 61),
        eol(62, 63),
        ws("END", 64, 65),
    ];
    let expected = (
        Some(Ast {
            title: "test_op5".to_string(),
            lines: vec![
                line(Instruction::Group5 {
                    op: Opecode5::L,
                    rb: Register::Zero,
                    address: Address::Constant(0),
                }),
                line(Instruction::Group5 {
                    op: Opecode5::St,
                    rb: Register::One,
                    address: Address::Unresolved {
                        symbol_name: "Label1".to_string(),
                        offset: 12,
                    },
                }),
                line(Instruction::Group5 {
                    op: Opecode5::La,
                    rb: Register::Two,
                    address: Address::Constant(-34i16 as u16),
                }),
            ],
        }),
        Vec::<ParseError>::new(),
    );
    let actual = parse(input);
    assert_eq!(expected, actual);
}

#[test]
fn test_op6() {
    let input = vec![
        ws("TITLE", 0, 5),
        ws("test_op6", 6, 14),
        eol(15, 16),
        ws("BDIS", 17, 18),
        star(19, 20),
        eol(21, 22),
        ws("BP", 23, 25),
        ws("Label1", 26, 32),
        plus(33, 34),
        dec(12, 35, 37),
        eol(38, 39),
        ws("BZ", 40, 42),
        star(43, 44),
        minus(45, 46),
        dec(34, 47, 49),
        eol(50, 51),
        ws("BM", 52, 54),
        ws("Label2", 55, 61),
        eol(62, 63),
        ws("BC", 64, 66),
        star(67, 68),
        plus(69, 70),
        dec(56, 71, 73),
        eol(74, 75),
        ws("BNP", 76, 79),
        ws("Label3", 80, 86),
        minus(87, 88),
        dec(78, 89, 91),
        eol(92, 93),
        ws("BNZ", 94, 97),
        star(98, 99),
        eol(100, 101),
        ws("BNM", 102, 105),
        ws("Label4", 106, 112),
        plus(113, 114),
        dec(90, 115, 117),
        eol(118, 119),
        ws("BNC", 120, 123),
        star(124, 125),
        minus(126, 127),
        dec(12, 128, 130),
        eol(131, 132),
        ws("B", 133, 134),
        ws("Label5", 135, 141),
        eol(142, 143),
        ws("BI", 144, 146),
        star(147, 148),
        plus(149, 150),
        dec(34, 151, 153),
        eol(154, 155),
        ws("BSR", 156, 159),
        ws("Label6", 160, 166),
        minus(167, 168),
        dec(56, 169, 171),
        eol(172, 173),
        ws("END", 174, 175),
    ];
    let expected = (
        Some(Ast {
            title: "test_op6".to_string(),
            lines: vec![
                line(Instruction::Group6 {
                    op: Opecode6::Bdis,
                    address: Address::Constant(0),
                }),
                line(Instruction::Group6 {
                    op: Opecode6::Bp,
                    address: Address::Unresolved {
                        symbol_name: "Label1".to_string(),
                        offset: 12,
                    },
                }),
                line(Instruction::Group6 {
                    op: Opecode6::Bz,
                    address: Address::Constant(-34i16 as u16),
                }),
                line(Instruction::Group6 {
                    op: Opecode6::Bm,
                    address: Address::Unresolved {
                        symbol_name: "Label2".to_string(),
                        offset: 0,
                    },
                }),
                line(Instruction::Group6 {
                    op: Opecode6::Bc,
                    address: Address::Constant(56),
                }),
                line(Instruction::Group6 {
                    op: Opecode6::Bnp,
                    address: Address::Unresolved {
                        symbol_name: "Label3".to_string(),
                        offset: -78,
                    },
                }),
                line(Instruction::Group6 {
                    op: Opecode6::Bnz,
                    address: Address::Constant(0),
                }),
                line(Instruction::Group6 {
                    op: Opecode6::Bnm,
                    address: Address::Unresolved {
                        symbol_name: "Label4".to_string(),
                        offset: 90,
                    },
                }),
                line(Instruction::Group6 {
                    op: Opecode6::Bnc,
                    address: Address::Constant(-12i16 as u16),
                }),
                line(Instruction::Group6 {
                    op: Opecode6::B,
                    address: Address::Unresolved {
                        symbol_name: "Label5".to_string(),
                        offset: 0,
                    },
                }),
                line(Instruction::Group6 {
                    op: Opecode6::Bi,
                    address: Address::Constant(34),
                }),
                line(Instruction::Group6 {
                    op: Opecode6::Bsr,
                    address: Address::Unresolved {
                        symbol_name: "Label6".to_string(),
                        offset: -56,
                    },
                }),
            ],
        }),
        Vec::<ParseError>::new(),
    );
    let actual = parse(input);
    assert_eq!(expected, actual);
}

#[test]
fn test_op7() {
    let input = vec![
        ws("TITLE", 0, 5),
        ws("test_op7", 6, 14),
        eol(15, 16),
        ws("RIO", 17, 18),
        dec(0, 19, 20),
        eol(21, 22),
        ws("WIO", 23, 26),
        ws("LPT", 27, 30),
        eol(31, 32),
        ws("END", 33, 36),
    ];
    let expected = (
        Some(Ast {
            title: "test_op7".to_string(),
            lines: vec![
                line(Instruction::Group7 {
                    op: Opecode7::Rio,
                    device: Device::Cr,
                }),
                line(Instruction::Group7 {
                    op: Opecode7::Wio,
                    device: Device::Lpt,
                }),
            ],
        }),
        Vec::<ParseError>::new(),
    );
    let actual = parse(input);
    assert_eq!(expected, actual);
}

#[test]
fn test_op8() {
    let input = vec![
        ws("TITLE", 0, 5),
        ws("test_op8", 6, 14),
        eol(15, 16),
        ws("RET", 17, 20),
        eol(21, 22),
        ws("NOP", 23, 26),
        eol(27, 28),
        ws("HLT", 29, 32),
        eol(33, 34),
        ws("END", 35, 38),
    ];
    let expected = (
        Some(Ast {
            title: "test_op8".to_string(),
            lines: vec![
                line(Instruction::Group8 { op: Opecode8::Ret }),
                line(Instruction::Group8 { op: Opecode8::Nop }),
                line(Instruction::Group8 { op: Opecode8::Hlt }),
            ],
        }),
        Vec::<ParseError>::new(),
    );
    let actual = parse(input);
    assert_eq!(expected, actual);
}

#[test]
fn test_op9() {
    let input = vec![
        ws("TITLE", 0, 5),
        ws("test_op9", 6, 14),
        eol(15, 16),
        ws("DC", 17, 19),
        plus(20, 21),
        dec(12, 22, 24),
        eol(25, 26),
        ws("DC", 27, 29),
        chars("a0", 30, 32),
        eol(33, 34),
        ws("DC", 35, 37),
        ws("Label0", 38, 44),
        eol(45, 46),
        ws("DS", 47, 49),
        dec(10, 50, 51),
        eol(52, 53),
        ws("ORG", 54, 57),
        dec(432, 58, 62),
        eol(63, 64),
        ws("ORG", 65, 68),
        nph(0x89A, 69, 72),
        eol(73, 74),
        ws("ORG", 75, 78),
        ws("A98", 79, 82),
        eol(83, 84),
        ws("END", 85, 88),
    ];
    let expected = (
        Some(Ast {
            title: "test_op9".to_string(),
            lines: vec![
                line(Instruction::Dc {
                    value: 12,
                    unresolved_symbol: None,
                }),
                line(Instruction::Dc {
                    value: 0x6130,
                    unresolved_symbol: None,
                }),
                line(Instruction::Dc {
                    value: 0,
                    unresolved_symbol: Some("Label0".to_string()),
                }),
                line(Instruction::Ds(10)),
                line(Instruction::Org(0x432)),
                line(Instruction::Org(0x89A)),
                line(Instruction::Org(0xA98)),
            ],
        }),
        Vec::<ParseError>::new(),
    );
    let actual = parse(input);
    assert_eq!(expected, actual);
}

#[test]
fn test_labels() {
    let input = vec![
        ws("TITLE", 0, 5),
        ws("test_op7", 6, 14),
        eol(15, 16),
        ws("Label1", 17, 23),
        colon(24, 25),
        ws("RIO", 26, 29),
        dec(0, 30, 31),
        eol(32, 33),
        ws("Label2", 34, 40),
        colon(41, 42),
        ws("WIO", 43, 46),
        ws("LPT", 47, 50),
        eol(51, 52),
        ws("END", 53, 56),
    ];
    let expected = (
        Some(Ast {
            title: "test_op7".to_string(),
            lines: vec![
                ProgramLine {
                    label: Some("Label1".to_string()),
                    instruction: Some(Instruction::Group7 {
                        op: Opecode7::Rio,
                        device: Device::Cr,
                    }),
                },
                ProgramLine {
                    label: Some("Label2".to_string()),
                    instruction: Some(Instruction::Group7 {
                        op: Opecode7::Wio,
                        device: Device::Lpt,
                    }),
                },
            ],
        }),
        Vec::<ParseError>::new(),
    );
    let actual = parse(input);
    assert_eq!(expected, actual);
}

#[test]
fn test_eols() {
    let input = vec![
        eol(0, 1),
        ws("TITLE", 2, 7),
        ws("test_op7", 8, 16),
        eol(17, 18),
        eol(19, 20),
        ws("RIO", 21, 24),
        dec(0, 25, 26),
        eol(27, 28),
        eol(29, 30),
        eol(31, 32),
        ws("WIO", 33, 36),
        ws("LPT", 37, 40),
        eol(41, 42),
        eol(43, 44),
        eol(45, 46),
        eol(47, 48),
        ws("END", 49, 52),
        eol(53, 54),
        eol(55, 56),
        eol(57, 58),
        eol(59, 60),
        eol(61, 62),
    ];
    let expected = (
        Some(Ast {
            title: "test_op7".to_string(),
            lines: vec![
                line(Instruction::Group7 {
                    op: Opecode7::Rio,
                    device: Device::Cr,
                }),
                line(Instruction::Group7 {
                    op: Opecode7::Wio,
                    device: Device::Lpt,
                }),
            ],
        }),
        Vec::<ParseError>::new(),
    );
    let actual = parse(input);
    assert_eq!(expected, actual);
}

#[test]
fn test_invalid_opecode() {
    let input = vec![
        ws("TITLE", 0, 5),
        ws("test_op7", 6, 14),
        eol(15, 16),
        ws("rio", 17, 18),
        dec(0, 19, 20),
        eol(21, 22),
        ws("WI", 23, 25),
        ws("LPT", 26, 29),
        eol(30, 31),
        ws("END", 32, 35),
    ];
    let expected = None;
    let actual = parse(input);
    assert_eq!(expected, actual.0);
    assert!(!actual.1.is_empty());
}

#[test]
fn test_invalid_opecode2() {
    let input = vec![
        ws("TITLE", 0, 5),
        ws("test_op8", 6, 14),
        eol(15, 16),
        ws("ret", 17, 20),
        eol(21, 22),
        ws("no", 23, 25),
        eol(26, 27),
        ws("HLt", 28, 29),
        eol(30, 31),
        ws("END", 32, 35),
    ];
    let actual = parse(input);
    assert!(!actual.1.is_empty());
}
