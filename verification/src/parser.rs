//! The grammar parser: recognizes a program as `TITLE <name> <EOL> (line)+
//! END`, where each line is `(label ':')? instruction? EOL`, over the token
//! stream the scanner produced.
//!
//! The instruction grammar is a first-match-wins alternation across the nine
//! machine-op groups and the three pseudo-ops, tried in a fixed declared
//! order; within a group, surface sub-syntaxes are also tried in declared
//! order. A line that matches no alternative yields a recorded syntax error,
//! and parsing resynchronizes at the next end-of-line token.

use vstd::pervasive::arbitrary;
use vstd::prelude::*;
use vstd::string::StrSliceExecFns;

use crate::instruction::{
    Address, Device, Instruction, MachineAddress, Opecode1, Opecode2, Opecode3, Opecode4,
    Opecode5, Opecode6, Opecode7, Opecode8, Register,
};
use crate::token::{Span, Token};

verus! {

/// The parsed program: a title and the ordered sequence of its lines.
#[derive(Debug, PartialEq, Eq, Hash)]
pub struct Ast {
    pub title: String,
    pub lines: Vec<ProgramLine>,
}

/// One program line: an optional label paired with an optional instruction.
/// A line with neither came from a blank line and is dropped from the
/// instruction stream.
#[derive(Debug, PartialEq, Eq, Hash)]
#[verifier::ext_equal]
pub struct ProgramLine {
    pub label: Option<String>,
    pub instruction: Option<Instruction>,
}

impl Clone for ProgramLine {
    fn clone(&self) -> (res: Self)
        ensures
            res == *self,
    {
        ProgramLine {
            label: match &self.label {
                Option::Some(s) => Option::Some(s.clone()),
                Option::None => Option::None,
            },
            instruction: match &self.instruction {
                Option::Some(i) => Option::Some(i.clone()),
                Option::None => Option::None,
            },
        }
    }
}

/// A syntax error: the span of a token on the line that failed to match.
#[derive(Clone, Copy, Debug, PartialEq, Eq, Structural)]
pub struct ParseError {
    pub span: Span,
}

// ---------------------------------------------------------------------------
// String comparison
// ---------------------------------------------------------------------------

/// Character-wise string equality, decided against the views.
pub(crate) fn str_eq(a: &str, b: &str) -> (r: bool)
    ensures
        r == (a@ == b@),
{
    let n = a.unicode_len();
    let m = b.unicode_len();
    if n != m {
        proof {
            assert(a@ != b@);
        }
        return false;
    }
    let mut i: usize = 0;
    while i < n
        invariant
            i <= n,
            n == a@.len(),
            n == b@.len(),
            forall|k: int| 0 <= k < i ==> a@[k] == b@[k],
        decreases n - i,
    {
        let ca = a.get_char(i);
        let cb = b.get_char(i);
        if ca != cb {
            proof {
                assert(a@[i as int] != b@[i as int]);
            }
            return false;
        }
        i = i + 1;
    }
    proof {
        assert(a@ =~= b@);
    }
    true
}

// ---------------------------------------------------------------------------
// Numeric literal helpers
// ---------------------------------------------------------------------------

/// The two's-complement 16-bit negation of `d`.
pub open spec fn neg16(d: u16) -> u16 {
    ((0x10000 - d as int) % 0x10000) as u16
}

fn negate16(d: u16) -> (r: u16)
    ensures
        r == neg16(d),
{
    if d == 0 {
        0
    } else {
        (0xFFFF - d) + 1
    }
}

/// The value of one hexadecimal digit character, if it is one.
pub open spec fn hex_digit_val(c: char) -> Option<u16> {
    let u = c as u32;
    if 48 <= u && u <= 57 {  // '0' ..= '9'
        Some((u - 48) as u16)
    } else if 65 <= u && u <= 70 {  // 'A' ..= 'F'
        Some((u - 55) as u16)
    } else if 97 <= u && u <= 102 {  // 'a' ..= 'f'
        Some((u - 87) as u16)
    } else {
        None
    }
}

/// The left-to-right base-16 fold of a digit sequence; `None` on the first
/// non-digit character.
pub open spec fn hex_fold(s: Seq<char>) -> Option<nat>
    decreases s.len(),
{
    if s.len() == 0 {
        Some(0)
    } else {
        match (hex_fold(s.drop_last()), hex_digit_val(s.last())) {
            (Some(v), Some(d)) => Some((v * 16 + d) as nat),
            _ => None,
        }
    }
}

/// What `u16` reads from a hexadecimal word: the base-16 value of a
/// non-empty all-digit string, when it fits in 16 bits.
pub open spec fn hex_str_val(s: Seq<char>) -> Option<u16> {
    if s.len() == 0 {
        None
    } else {
        match hex_fold(s) {
            Some(v) => if v <= 0xFFFF {
                Some(v as u16)
            } else {
                None
            },
            None => None,
        }
    }
}

proof fn lemma_hex_fold_bad_digit(s: Seq<char>, k: int)
    requires
        0 <= k < s.len(),
        hex_digit_val(s[k]) is None,
    ensures
        hex_fold(s) is None,
    decreases s.len(),
{
    if k < s.len() - 1 {
        lemma_hex_fold_bad_digit(s.drop_last(), k);
    }
}

proof fn lemma_hex_fold_prefix_bound(s: Seq<char>, i: int)
    requires
        0 <= i <= s.len(),
        hex_fold(s) is Some,
    ensures
        hex_fold(s.take(i)) is Some,
        hex_fold(s.take(i)).unwrap() <= hex_fold(s).unwrap(),
    decreases s.len(),
{
    if i == s.len() {
        assert(s.take(i) =~= s);
    } else {
        let s2 = s.drop_last();
        assert(s.take(i) =~= s2.take(i));
        lemma_hex_fold_prefix_bound(s2, i);
    }
}

/// Read a word as a hexadecimal number, as the origin pseudo-op admits.
fn parse_hex_word(s: &str) -> (r: Option<u16>)
    ensures
        r == hex_str_val(s@),
{
    let n = s.unicode_len();
    if n == 0 {
        return None;
    }
    let mut acc: u16 = 0;
    let mut i: usize = 0;
    while i < n
        invariant
            i <= n,
            n == s@.len(),
            hex_fold(s@.take(i as int)) == Some(acc as nat),
        decreases n - i,
    {
        let c = s.get_char(i);
        let u = c as u32;
        let d: u16 = if 48 <= u && u <= 57 {
            (u - 48) as u16
        } else if 65 <= u && u <= 70 {
            (u - 55) as u16
        } else if 97 <= u && u <= 102 {
            (u - 87) as u16
        } else {
            proof {
                lemma_hex_fold_bad_digit(s@, i as int);
            }
            return None;
        };
        let next: u32 = (acc as u32) * 16 + (d as u32);
        proof {
            assert(s@.take(i + 1).drop_last() =~= s@.take(i as int));
            assert(s@.take(i + 1).last() == s@[i as int]);
            assert(hex_fold(s@.take(i + 1)) == Some(next as nat));
        }
        if next > 0xFFFF {
            proof {
                if hex_fold(s@) is Some {
                    lemma_hex_fold_prefix_bound(s@, i + 1);
                }
            }
            return None;
        }
        acc = next as u16;
        i = i + 1;
    }
    proof {
        assert(s@.take(n as int) =~= s@);
    }
    Some(acc)
}

/// The reinterpretation of a decimal number's digit string as hexadecimal
/// digits, as the origin pseudo-op applies to a plain decimal operand.
pub open spec fn hex_reinterp(d: nat) -> nat
    decreases d,
{
    if d == 0 {
        0
    } else {
        hex_reinterp(d / 10) * 16 + d % 10
    }
}

/// Reinterpret the decimal digits of `d` as hexadecimal digits; `None` when
/// the reinterpreted value does not fit in 16 bits.
fn dec_as_hex(d: u16) -> (r: Option<u16>)
    ensures
        r is Some <==> hex_reinterp(d as nat) <= 0xFFFF,
        r matches Some(v) ==> v as nat == hex_reinterp(d as nat),
    decreases d,
{
    if d == 0 {
        Some(0)
    } else {
        match dec_as_hex(d / 10) {
            None => {
                proof {
                    let h = hex_reinterp((d / 10) as nat);
                    assert(hex_reinterp(d as nat) == h * 16 + (d as nat) % 10);
                    assert(h * 16 >= h);
                }
                None
            }
            Some(h) => {
                if h <= 0xFFF {
                    Some(h * 16 + d % 10)
                } else {
                    proof {
                        assert(hex_reinterp(d as nat) >= (h as nat) * 16);
                        assert((h as nat) * 16 >= 0x1000 * 16);
                    }
                    None
                }
            }
        }
    }
}

/// The 16-bit packing of a two-character literal: high byte from the first
/// character's low code byte, low byte from the second's.
pub open spec fn pack_chars(s: Seq<char>) -> u16 {
    if s.len() >= 2 {
        (((s[0] as u32) % 256) * 256 + ((s[1] as u32) % 256)) as u16
    } else {
        0
    }
}

fn pack_chars_exec(s: &str) -> (r: u16)
    ensures
        r == pack_chars(s@),
{
    let n = s.unicode_len();
    if n >= 2 {
        let c0 = s.get_char(0);
        let c1 = s.get_char(1);
        let v: u32 = ((c0 as u32) % 256) * 256 + ((c1 as u32) % 256);
        v as u16
    } else {
        0
    }
}

// ---------------------------------------------------------------------------
// Mnemonic tables
// ---------------------------------------------------------------------------

/// The arithmetic/logic mnemonic a word names, if any.
pub open spec fn op1_of(w: Seq<char>) -> Option<Opecode1> {
    if w == "ADD"@ {
        Some(Opecode1::Add)
    } else if w == "SUB"@ {
        Some(Opecode1::Sub)
    } else if w == "AND"@ {
        Some(Opecode1::And)
    } else if w == "OR"@ {
        Some(Opecode1::Or)
    } else if w == "XOR"@ {
        Some(Opecode1::Xor)
    } else if w == "MULT"@ {
        Some(Opecode1::Mult)
    } else if w == "DIV"@ {
        Some(Opecode1::Div)
    } else if w == "CMP"@ {
        Some(Opecode1::Cmp)
    } else if w == "EX"@ {
        Some(Opecode1::Ex)
    } else {
        None
    }
}

fn p_op1(w: &str) -> (r: Option<Opecode1>)
    ensures
        r == op1_of(w@),
{
    if str_eq(w, "ADD") {
        Some(Opecode1::Add)
    } else if str_eq(w, "SUB") {
        Some(Opecode1::Sub)
    } else if str_eq(w, "AND") {
        Some(Opecode1::And)
    } else if str_eq(w, "OR") {
        Some(Opecode1::Or)
    } else if str_eq(w, "XOR") {
        Some(Opecode1::Xor)
    } else if str_eq(w, "MULT") {
        Some(Opecode1::Mult)
    } else if str_eq(w, "DIV") {
        Some(Opecode1::Div)
    } else if str_eq(w, "CMP") {
        Some(Opecode1::Cmp)
    } else if str_eq(w, "EX") {
        Some(Opecode1::Ex)
    } else {
        None
    }
}

/// The load-constant/stack mnemonic a word names, if any.
pub open spec fn op2_of(w: Seq<char>) -> Option<Opecode2> {
    if w == "LC"@ {
        Some(Opecode2::Lc)
    } else if w == "PUSH"@ {
        Some(Opecode2::Push)
    } else if w == "POP"@ {
        Some(Opecode2::Pop)
    } else {
        None
    }
}

fn p_op2(w: &str) -> (r: Option<Opecode2>)
    ensures
        r == op2_of(w@),
{
    if str_eq(w, "LC") {
        Some(Opecode2::Lc)
    } else if str_eq(w, "PUSH") {
        Some(Opecode2::Push)
    } else if str_eq(w, "POP") {
        Some(Opecode2::Pop)
    } else {
        None
    }
}

/// The shift/index mnemonic a word names, if any.
pub open spec fn op3_of(w: Seq<char>) -> Option<Opecode3> {
    if w == "SL"@ {
        Some(Opecode3::Sl)
    } else if w == "SA"@ {
        Some(Opecode3::Sa)
    } else if w == "SC"@ {
        Some(Opecode3::Sc)
    } else if w == "BIX"@ {
        Some(Opecode3::Bix)
    } else {
        None
    }
}

fn p_op3(w: &str) -> (r: Option<Opecode3>)
    ensures
        r == op3_of(w@),
{
    if str_eq(w, "SL") {
        Some(Opecode3::Sl)
    } else if str_eq(w, "SA") {
        Some(Opecode3::Sa)
    } else if str_eq(w, "SC") {
        Some(Opecode3::Sc)
    } else if str_eq(w, "BIX") {
        Some(Opecode3::Bix)
    } else {
        None
    }
}

/// The indexed load/store mnemonic a word names, if any.
pub open spec fn op4_of(w: Seq<char>) -> Option<Opecode4> {
    if w == "LEA"@ {
        Some(Opecode4::Lea)
    } else if w == "LX"@ {
        Some(Opecode4::Lx)
    } else if w == "STX"@ {
        Some(Opecode4::Stx)
    } else {
        None
    }
}

fn p_op4(w: &str) -> (r: Option<Opecode4>)
    ensures
        r == op4_of(w@),
{
    if str_eq(w, "LEA") {
        Some(Opecode4::Lea)
    } else if str_eq(w, "LX") {
        Some(Opecode4::Lx)
    } else if str_eq(w, "STX") {
        Some(Opecode4::Stx)
    } else {
        None
    }
}

/// The memory-operation mnemonic a word names, if any.
pub open spec fn op5_of(w: Seq<char>) -> Option<Opecode5> {
    if w == "L"@ {
        Some(Opecode5::L)
    } else if w == "ST"@ {
        Some(Opecode5::St)
    } else if w == "LA"@ {
        Some(Opecode5::La)
    } else {
        None
    }
}

fn p_op5(w: &str) -> (r: Option<Opecode5>)
    ensures
        r == op5_of(w@),
{
    if str_eq(w, "L") {
        Some(Opecode5::L)
    } else if str_eq(w, "ST") {
        Some(Opecode5::St)
    } else if str_eq(w, "LA") {
        Some(Opecode5::La)
    } else {
        None
    }
}

/// The branch mnemonic a word names, if any.
pub open spec fn op6_of(w: Seq<char>) -> Option<Opecode6> {
    if w == "BDIS"@ {
        Some(Opecode6::Bdis)
    } else if w == "BP"@ {
        Some(Opecode6::Bp)
    } else if w == "BZ"@ {
        Some(Opecode6::Bz)
    } else if w == "BM"@ {
        Some(Opecode6::Bm)
    } else if w == "BC"@ {
        Some(Opecode6::Bc)
    } else if w == "BNP"@ {
        Some(Opecode6::Bnp)
    } else if w == "BNZ"@ {
        Some(Opecode6::Bnz)
    } else if w == "BNM"@ {
        Some(Opecode6::Bnm)
    } else if w == "BNC"@ {
        Some(Opecode6::Bnc)
    } else if w == "B"@ {
        Some(Opecode6::B)
    } else if w == "BI"@ {
        Some(Opecode6::Bi)
    } else if w == "BSR"@ {
        Some(Opecode6::Bsr)
    } else {
        None
    }
}

fn p_op6(w: &str) -> (r: Option<Opecode6>)
    ensures
        r == op6_of(w@),
{
    if str_eq(w, "BDIS") {
        Some(Opecode6::Bdis)
    } else if str_eq(w, "BP") {
        Some(Opecode6::Bp)
    } else if str_eq(w, "BZ") {
        Some(Opecode6::Bz)
    } else if str_eq(w, "BM") {
        Some(Opecode6::Bm)
    } else if str_eq(w, "BC") {
        Some(Opecode6::Bc)
    } else if str_eq(w, "BNP") {
        Some(Opecode6::Bnp)
    } else if str_eq(w, "BNZ") {
        Some(Opecode6::Bnz)
    } else if str_eq(w, "BNM") {
        Some(Opecode6::Bnm)
    } else if str_eq(w, "BNC") {
        Some(Opecode6::Bnc)
    } else if str_eq(w, "B") {
        Some(Opecode6::B)
    } else if str_eq(w, "BI") {
        Some(Opecode6::Bi)
    } else if str_eq(w, "BSR") {
        Some(Opecode6::Bsr)
    } else {
        None
    }
}

/// The device I/O mnemonic a word names, if any.
pub open spec fn op7_of(w: Seq<char>) -> Option<Opecode7> {
    if w == "RIO"@ {
        Some(Opecode7::Rio)
    } else if w == "WIO"@ {
        Some(Opecode7::Wio)
    } else {
        None
    }
}

fn p_op7(w: &str) -> (r: Option<Opecode7>)
    ensures
        r == op7_of(w@),
{
    if str_eq(w, "RIO") {
        Some(Opecode7::Rio)
    } else if str_eq(w, "WIO") {
        Some(Opecode7::Wio)
    } else {
        None
    }
}

/// The operand-less mnemonic a word names, if any.
pub open spec fn op8_of(w: Seq<char>) -> Option<Opecode8> {
    if w == "RET"@ {
        Some(Opecode8::Ret)
    } else if w == "NOP"@ {
        Some(Opecode8::Nop)
    } else if w == "HLT"@ {
        Some(Opecode8::Hlt)
    } else {
        None
    }
}

fn p_op8(w: &str) -> (r: Option<Opecode8>)
    ensures
        r == op8_of(w@),
{
    if str_eq(w, "RET") {
        Some(Opecode8::Ret)
    } else if str_eq(w, "NOP") {
        Some(Opecode8::Nop)
    } else if str_eq(w, "HLT") {
        Some(Opecode8::Hlt)
    } else {
        None
    }
}

/// The device a word names, if any.
pub open spec fn device_of(w: Seq<char>) -> Option<Device> {
    if w == "CR"@ {
        Some(Device::Cr)
    } else if w == "LPT"@ {
        Some(Device::Lpt)
    } else {
        None
    }
}

fn p_device_word(w: &str) -> (r: Option<Device>)
    ensures
        r == device_of(w@),
{
    if str_eq(w, "CR") {
        Some(Device::Cr)
    } else if str_eq(w, "LPT") {
        Some(Device::Lpt)
    } else {
        None
    }
}

// ---------------------------------------------------------------------------
// Operand grammars
//
// Each `sp_*` spec function is the meaning of one operand (or instruction)
// form at a token position: the parsed value and the position after it, or
// `None` where the form does not match. The matching `p_*` function is the
// executable parser, proved equal to it.
// ---------------------------------------------------------------------------

/// A register operand: a decimal literal 0 to 3.
pub open spec fn sp_register(toks: Seq<(Token, Span)>, i: int) -> Option<(Register, int)> {
    if 0 <= i < toks.len() {
        match toks[i].0 {
            Token::Decimal(d) => if d == 0 {
                Some((Register::Zero, i + 1))
            } else if d == 1 {
                Some((Register::One, i + 1))
            } else if d == 2 {
                Some((Register::Two, i + 1))
            } else if d == 3 {
                Some((Register::Three, i + 1))
            } else {
                None
            },
            _ => None,
        }
    } else {
        None
    }
}

fn p_register(toks: &Vec<(Token, Span)>, i: usize) -> (r: Option<(Register, usize)>)
    requires
        i <= toks@.len(),
    ensures
        r is Some <==> sp_register(toks@, i as int) is Some,
        r matches Some(p) ==> sp_register(toks@, i as int) == Some((p.0, p.1 as int)) && i < p.1
            <= toks@.len(),
{
    if i < toks.len() {
        match &toks[i].0 {
            Token::Decimal(d) => {
                if *d == 0 {
                    Some((Register::Zero, i + 1))
                } else if *d == 1 {
                    Some((Register::One, i + 1))
                } else if *d == 2 {
                    Some((Register::Two, i + 1))
                } else if *d == 3 {
                    Some((Register::Three, i + 1))
                } else {
                    None
                }
            }
            _ => None,
        }
    } else {
        None
    }
}

/// An unsigned numeric literal: decimal, or a prefixed hexadecimal, octal or
/// binary literal.
pub open spec fn sp_unsigned(toks: Seq<(Token, Span)>, i: int) -> Option<(u16, int)> {
    if 0 <= i < toks.len() {
        match toks[i].0 {
            Token::Decimal(d) => Some((d, i + 1)),
            Token::Hexadecimal(h) => Some((h, i + 1)),
            Token::Octal(o) => Some((o, i + 1)),
            Token::Binary(b) => Some((b, i + 1)),
            _ => None,
        }
    } else {
        None
    }
}

fn p_unsigned(toks: &Vec<(Token, Span)>, i: usize) -> (r: Option<(u16, usize)>)
    requires
        i <= toks@.len(),
    ensures
        r is Some <==> sp_unsigned(toks@, i as int) is Some,
        r matches Some(p) ==> sp_unsigned(toks@, i as int) == Some((p.0, p.1 as int)) && i < p.1
            <= toks@.len(),
{
    if i < toks.len() {
        match &toks[i].0 {
            Token::Decimal(d) => Some((*d, i + 1)),
            Token::Hexadecimal(h) => Some((*h, i + 1)),
            Token::Octal(o) => Some((*o, i + 1)),
            Token::Binary(b) => Some((*b, i + 1)),
            _ => None,
        }
    } else {
        None
    }
}

/// A plain decimal literal.
pub open spec fn sp_decimal(toks: Seq<(Token, Span)>, i: int) -> Option<(u16, int)> {
    if 0 <= i < toks.len() {
        match toks[i].0 {
            Token::Decimal(d) => Some((d, i + 1)),
            _ => None,
        }
    } else {
        None
    }
}

fn p_decimal(toks: &Vec<(Token, Span)>, i: usize) -> (r: Option<(u16, usize)>)
    requires
        i <= toks@.len(),
    ensures
        r is Some <==> sp_decimal(toks@, i as int) is Some,
        r matches Some(p) ==> sp_decimal(toks@, i as int) == Some((p.0, p.1 as int)) && i < p.1
            <= toks@.len(),
{
    if i < toks.len() {
        match &toks[i].0 {
            Token::Decimal(d) => Some((*d, i + 1)),
            _ => None,
        }
    } else {
        None
    }
}

/// An optionally signed numeric literal; a minus sign stores the
/// two's-complement 16-bit value.
pub open spec fn sp_signed(toks: Seq<(Token, Span)>, i: int) -> Option<(u16, int)> {
    if 0 <= i < toks.len() {
        match toks[i].0 {
            Token::Plus => sp_unsigned(toks, i + 1),
            Token::Minus => match sp_unsigned(toks, i + 1) {
                Some((d, j)) => Some((neg16(d), j)),
                None => None,
            },
            _ => sp_unsigned(toks, i),
        }
    } else {
        None
    }
}

fn p_signed(toks: &Vec<(Token, Span)>, i: usize) -> (r: Option<(u16, usize)>)
    requires
        i <= toks@.len(),
    ensures
        r is Some <==> sp_signed(toks@, i as int) is Some,
        r matches Some(p) ==> sp_signed(toks@, i as int) == Some((p.0, p.1 as int)) && i < p.1
            <= toks@.len(),
{
    if i < toks.len() {
        match &toks[i].0 {
            Token::Plus => p_unsigned(toks, i + 1),
            Token::Minus => match p_unsigned(toks, i + 1) {
                Some((d, j)) => Some((negate16(d), j)),
                None => None,
            },
            _ => p_unsigned(toks, i),
        }
    } else {
        None
    }
}

/// An explicit `+`/`-` sign followed by a decimal literal; the boolean is
/// true for a minus sign.
pub open spec fn sp_sign_decimal(toks: Seq<(Token, Span)>, i: int) -> Option<(bool, u16, int)> {
    if 0 <= i < toks.len() {
        match toks[i].0 {
            Token::Plus => match sp_decimal(toks, i + 1) {
                Some((d, j)) => Some((false, d, j)),
                None => None,
            },
            Token::Minus => match sp_decimal(toks, i + 1) {
                Some((d, j)) => Some((true, d, j)),
                None => None,
            },
            _ => None,
        }
    } else {
        None
    }
}

fn p_sign_decimal(toks: &Vec<(Token, Span)>, i: usize) -> (r: Option<(bool, u16, usize)>)
    requires
        i <= toks@.len(),
    ensures
        r is Some <==> sp_sign_decimal(toks@, i as int) is Some,
        r matches Some(p) ==> sp_sign_decimal(toks@, i as int) == Some((p.0, p.1, p.2 as int))
            && i < p.2 <= toks@.len(),
{
    if i < toks.len() {
        match &toks[i].0 {
            Token::Plus => match p_decimal(toks, i + 1) {
                Some((d, j)) => Some((false, d, j)),
                None => None,
            },
            Token::Minus => match p_decimal(toks, i + 1) {
                Some((d, j)) => Some((true, d, j)),
                None => None,
            },
            _ => None,
        }
    } else {
        None
    }
}

/// An address operand: `*` (the current address) with an optional signed
/// decimal displacement, or a symbol name with an optional signed decimal
/// offset. The symbol form always starts out unresolved.
pub open spec fn sp_address(toks: Seq<(Token, Span)>, i: int) -> Option<(Address, int)> {
    if 0 <= i < toks.len() {
        match toks[i].0 {
            Token::Star => match sp_sign_decimal(toks, i + 1) {
                Some((minus, d, j)) => if minus {
                    Some((Address::Constant(neg16(d)), j))
                } else {
                    Some((Address::Constant(d), j))
                },
                None => Some((Address::Constant(0), i + 1)),
            },
            Token::String(s) => match sp_sign_decimal(toks, i + 1) {
                Some((minus, d, j)) => if minus {
                    Some(
                        (Address::Unresolved { symbol_name: s, offset: neg16(d) as i16 }, j),
                    )
                } else {
                    Some((Address::Unresolved { symbol_name: s, offset: d as i16 }, j))
                },
                None => Some((Address::Unresolved { symbol_name: s, offset: 0i16 }, i + 1)),
            },
            _ => None,
        }
    } else {
        None
    }
}

fn p_address(toks: &Vec<(Token, Span)>, i: usize) -> (r: Option<(Address, usize)>)
    requires
        i <= toks@.len(),
    ensures
        r is Some <==> sp_address(toks@, i as int) is Some,
        r matches Some(p) ==> sp_address(toks@, i as int) == Some((p.0, p.1 as int)) && i < p.1
            <= toks@.len(),
{
    if i < toks.len() {
        match &toks[i].0 {
            Token::Star => match p_sign_decimal(toks, i + 1) {
                Some((minus, d, j)) => if minus {
                    Some((Address::Constant(negate16(d)), j))
                } else {
                    Some((Address::Constant(d), j))
                },
                None => Some((Address::Constant(0), i + 1)),
            },
            Token::String(s) => match p_sign_decimal(toks, i + 1) {
                Some((minus, d, j)) => if minus {
                    Some(
                        (
                            Address::Unresolved {
                                symbol_name: s.clone(),
                                offset: negate16(d) as i16,
                            },
                            j,
                        ),
                    )
                } else {
                    Some(
                        (Address::Unresolved { symbol_name: s.clone(), offset: d as i16 }, j),
                    )
                },
                None => Some(
                    (Address::Unresolved { symbol_name: s.clone(), offset: 0i16 }, i + 1),
                ),
            },
            _ => None,
        }
    } else {
        None
    }
}

/// A device operand: its mnemonic name or its numeric code.
pub open spec fn sp_device(toks: Seq<(Token, Span)>, i: int) -> Option<(Device, int)> {
    if 0 <= i < toks.len() {
        match toks[i].0 {
            Token::String(s) => match device_of(s@) {
                Some(d) => Some((d, i + 1)),
                None => None,
            },
            Token::Decimal(d) => if d == 0 {
                Some((Device::Cr, i + 1))
            } else if d == 1 {
                Some((Device::Lpt, i + 1))
            } else {
                None
            },
            _ => None,
        }
    } else {
        None
    }
}

fn p_device(toks: &Vec<(Token, Span)>, i: usize) -> (r: Option<(Device, usize)>)
    requires
        i <= toks@.len(),
    ensures
        r is Some <==> sp_device(toks@, i as int) is Some,
        r matches Some(p) ==> sp_device(toks@, i as int) == Some((p.0, p.1 as int)) && i < p.1
            <= toks@.len(),
{
    if i < toks.len() {
        match &toks[i].0 {
            Token::String(s) => match p_device_word(s.as_str()) {
                Some(d) => Some((d, i + 1)),
                None => None,
            },
            Token::Decimal(d) => {
                if *d == 0 {
                    Some((Device::Cr, i + 1))
                } else if *d == 1 {
                    Some((Device::Lpt, i + 1))
                } else {
                    None
                }
            }
            _ => None,
        }
    } else {
        None
    }
}

/// A register in parentheses, as the index-register operand.
pub open spec fn sp_paren_reg(toks: Seq<(Token, Span)>, i: int) -> Option<(Register, int)> {
    if 0 <= i < toks.len() && toks[i].0 is Lparen {
        match sp_register(toks, i + 1) {
            Some((r, j)) => if j < toks.len() && toks[j].0 is Rparen {
                Some((r, j + 1))
            } else {
                None
            },
            None => None,
        }
    } else {
        None
    }
}

fn p_paren_reg(toks: &Vec<(Token, Span)>, i: usize) -> (r: Option<(Register, usize)>)
    requires
        i <= toks@.len(),
    ensures
        r is Some <==> sp_paren_reg(toks@, i as int) is Some,
        r matches Some(p) ==> sp_paren_reg(toks@, i as int) == Some((p.0, p.1 as int)) && i < p.1
            <= toks@.len(),
{
    if i < toks.len() && matches!(&toks[i].0, Token::Lparen) {
        match p_register(toks, i + 1) {
            Some((rg, j)) => {
                if j < toks.len() && matches!(&toks[j].0, Token::Rparen) {
                    Some((rg, j + 1))
                } else {
                    None
                }
            }
            None => None,
        }
    } else {
        None
    }
}

/// A register operand followed by a comma, the common head of the
/// register-and-constant instruction forms.
pub open spec fn sp_reg_comma(toks: Seq<(Token, Span)>, i: int) -> Option<(Register, int)> {
    match sp_register(toks, i) {
        Some((r, j)) => if j < toks.len() && toks[j].0 is Comma {
            Some((r, j + 1))
        } else {
            None
        },
        None => None,
    }
}

fn p_reg_comma(toks: &Vec<(Token, Span)>, i: usize) -> (r: Option<(Register, usize)>)
    requires
        i <= toks@.len(),
    ensures
        r is Some <==> sp_reg_comma(toks@, i as int) is Some,
        r matches Some(p) ==> sp_reg_comma(toks@, i as int) == Some((p.0, p.1 as int)) && i < p.1
            <= toks@.len(),
{
    match p_register(toks, i) {
        Some((rg, j)) => {
            if j < toks.len() && matches!(&toks[j].0, Token::Comma) {
                Some((rg, j + 1))
            } else {
                None
            }
        }
        None => None,
    }
}

// ---------------------------------------------------------------------------
// Instruction grammars, one per group, from the position after the mnemonic
// ---------------------------------------------------------------------------

/// Group 1 operands: `rb , constant (ra)` | `rb , (ra)` | `rb , constant`,
/// tried in that order, first match wins.
pub open spec fn sp_instr1(toks: Seq<(Token, Span)>, i: int, op: Opecode1) -> Option<
    (Instruction, int),
> {
    match sp_reg_comma(toks, i) {
        Some((rb, i3)) => match sp_unsigned(toks, i3) {
            Some((d, i4)) => match sp_paren_reg(toks, i4) {
                Some((ra, i5)) => Some(
                    (Instruction::Group1 { op, ra, rb, constant: d as u8 }, i5),
                ),
                None => Some(
                    (
                        Instruction::Group1 { op, ra: Register::Zero, rb, constant: d as u8 },
                        i4,
                    ),
                ),
            },
            None => match sp_paren_reg(toks, i3) {
                Some((ra, i5)) => Some((Instruction::Group1 { op, ra, rb, constant: 0u8 }, i5)),
                None => None,
            },
        },
        None => None,
    }
}

fn p_instr1(toks: &Vec<(Token, Span)>, i: usize, op: Opecode1) -> (r: Option<(Instruction, usize)>)
    requires
        i <= toks@.len(),
    ensures
        r is Some <==> sp_instr1(toks@, i as int, op) is Some,
        r matches Some(p) ==> sp_instr1(toks@, i as int, op) == Some((p.0, p.1 as int)) && i < p.1
            <= toks@.len(),
{
    match p_reg_comma(toks, i) {
        Some((rb, i3)) => match p_unsigned(toks, i3) {
            Some((d, i4)) => match p_paren_reg(toks, i4) {
                Some((ra, i5)) => Some((Instruction::Group1 { op, ra, rb, constant: d as u8 }, i5)),
                None => Some(
                    (Instruction::Group1 { op, ra: Register::Zero, rb, constant: d as u8 }, i4),
                ),
            },
            None => match p_paren_reg(toks, i3) {
                Some((ra, i5)) => Some((Instruction::Group1 { op, ra, rb, constant: 0u8 }, i5)),
                None => None,
            },
        },
        None => None,
    }
}

/// Group 2 operands: `rb , constant`.
pub open spec fn sp_instr2(toks: Seq<(Token, Span)>, i: int, op: Opecode2) -> Option<
    (Instruction, int),
> {
    match sp_reg_comma(toks, i) {
        Some((rb, i3)) => match sp_unsigned(toks, i3) {
            Some((d, j)) => Some((Instruction::Group2 { op, rb, constant: d as u8 }, j)),
            None => None,
        },
        None => None,
    }
}

fn p_instr2(toks: &Vec<(Token, Span)>, i: usize, op: Opecode2) -> (r: Option<(Instruction, usize)>)
    requires
        i <= toks@.len(),
    ensures
        r is Some <==> sp_instr2(toks@, i as int, op) is Some,
        r matches Some(p) ==> sp_instr2(toks@, i as int, op) == Some((p.0, p.1 as int)) && i < p.1
            <= toks@.len(),
{
    match p_reg_comma(toks, i) {
        Some((rb, i3)) => match p_unsigned(toks, i3) {
            Some((d, j)) => Some((Instruction::Group2 { op, rb, constant: d as u8 }, j)),
            None => None,
        },
        None => None,
    }
}

/// Group 3 operands: `rb , signed-constant`.
pub open spec fn sp_instr3(toks: Seq<(Token, Span)>, i: int, op: Opecode3) -> Option<
    (Instruction, int),
> {
    match sp_reg_comma(toks, i) {
        Some((rb, i3)) => match sp_signed(toks, i3) {
            Some((v, j)) => Some((Instruction::Group3 { op, rb, constant: v as i8 }, j)),
            None => None,
        },
        None => None,
    }
}

fn p_instr3(toks: &Vec<(Token, Span)>, i: usize, op: Opecode3) -> (r: Option<(Instruction, usize)>)
    requires
        i <= toks@.len(),
    ensures
        r is Some <==> sp_instr3(toks@, i as int, op) is Some,
        r matches Some(p) ==> sp_instr3(toks@, i as int, op) == Some((p.0, p.1 as int)) && i < p.1
            <= toks@.len(),
{
    match p_reg_comma(toks, i) {
        Some((rb, i3)) => match p_signed(toks, i3) {
            Some((v, j)) => Some((Instruction::Group3 { op, rb, constant: v as i8 }, j)),
            None => None,
        },
        None => None,
    }
}

/// Group 4 operands: `rb , signed-constant (ra)` | `rb , (ra)`.
pub open spec fn sp_instr4(toks: Seq<(Token, Span)>, i: int, op: Opecode4) -> Option<
    (Instruction, int),
> {
    match sp_reg_comma(toks, i) {
        Some((rb, i3)) => match sp_signed(toks, i3) {
            Some((v, i4)) => match sp_paren_reg(toks, i4) {
                Some((ra, i5)) => Some(
                    (Instruction::Group4 { op, ra, rb, constant: v as i8 }, i5),
                ),
                None => None,
            },
            None => match sp_paren_reg(toks, i3) {
                Some((ra, i5)) => Some((Instruction::Group4 { op, ra, rb, constant: 0i8 }, i5)),
                None => None,
            },
        },
        None => None,
    }
}

fn p_instr4(toks: &Vec<(Token, Span)>, i: usize, op: Opecode4) -> (r: Option<(Instruction, usize)>)
    requires
        i <= toks@.len(),
    ensures
        r is Some <==> sp_instr4(toks@, i as int, op) is Some,
        r matches Some(p) ==> sp_instr4(toks@, i as int, op) == Some((p.0, p.1 as int)) && i < p.1
            <= toks@.len(),
{
    match p_reg_comma(toks, i) {
        Some((rb, i3)) => match p_signed(toks, i3) {
            Some((v, i4)) => match p_paren_reg(toks, i4) {
                Some((ra, i5)) => Some((Instruction::Group4 { op, ra, rb, constant: v as i8 }, i5)),
                None => None,
            },
            None => match p_paren_reg(toks, i3) {
                Some((ra, i5)) => Some((Instruction::Group4 { op, ra, rb, constant: 0i8 }, i5)),
                None => None,
            },
        },
        None => None,
    }
}

/// Group 5 operands: `rb , address`.
pub open spec fn sp_instr5(toks: Seq<(Token, Span)>, i: int, op: Opecode5) -> Option<
    (Instruction, int),
> {
    match sp_reg_comma(toks, i) {
        Some((rb, i3)) => match sp_address(toks, i3) {
            Some((a, j)) => Some((Instruction::Group5 { op, rb, address: a }, j)),
            None => None,
        },
        None => None,
    }
}

fn p_instr5(toks: &Vec<(Token, Span)>, i: usize, op: Opecode5) -> (r: Option<(Instruction, usize)>)
    requires
        i <= toks@.len(),
    ensures
        r is Some <==> sp_instr5(toks@, i as int, op) is Some,
        r matches Some(p) ==> sp_instr5(toks@, i as int, op) == Some((p.0, p.1 as int)) && i < p.1
            <= toks@.len(),
{
    match p_reg_comma(toks, i) {
        Some((rb, i3)) => match p_address(toks, i3) {
            Some((a, j)) => Some((Instruction::Group5 { op, rb, address: a }, j)),
            None => None,
        },
        None => None,
    }
}

/// Group 6 operand: a bare address.
pub open spec fn sp_instr6(toks: Seq<(Token, Span)>, i: int, op: Opecode6) -> Option<
    (Instruction, int),
> {
    match sp_address(toks, i) {
        Some((a, j)) => Some((Instruction::Group6 { op, address: a }, j)),
        None => None,
    }
}

fn p_instr6(toks: &Vec<(Token, Span)>, i: usize, op: Opecode6) -> (r: Option<(Instruction, usize)>)
    requires
        i <= toks@.len(),
    ensures
        r is Some <==> sp_instr6(toks@, i as int, op) is Some,
        r matches Some(p) ==> sp_instr6(toks@, i as int, op) == Some((p.0, p.1 as int)) && i < p.1
            <= toks@.len(),
{
    match p_address(toks, i) {
        Some((a, j)) => Some((Instruction::Group6 { op, address: a }, j)),
        None => None,
    }
}

/// Group 7 operand: a device.
pub open spec fn sp_instr7(toks: Seq<(Token, Span)>, i: int, op: Opecode7) -> Option<
    (Instruction, int),
> {
    match sp_device(toks, i) {
        Some((d, j)) => Some((Instruction::Group7 { op, device: d }, j)),
        None => None,
    }
}

fn p_instr7(toks: &Vec<(Token, Span)>, i: usize, op: Opecode7) -> (r: Option<(Instruction, usize)>)
    requires
        i <= toks@.len(),
    ensures
        r is Some <==> sp_instr7(toks@, i as int, op) is Some,
        r matches Some(p) ==> sp_instr7(toks@, i as int, op) == Some((p.0, p.1 as int)) && i < p.1
            <= toks@.len(),
{
    match p_device(toks, i) {
        Some((d, j)) => Some((Instruction::Group7 { op, device: d }, j)),
        None => None,
    }
}

/// The `DC` operand: a signed literal, a two-character literal, or a symbol
/// name, tried in that order.
pub open spec fn sp_dc(toks: Seq<(Token, Span)>, i: int) -> Option<(Instruction, int)> {
    match sp_signed(toks, i) {
        Some((v, j)) => Some((Instruction::Dc { value: v, unresolved_symbol: None }, j)),
        None => if 0 <= i < toks.len() {
            match toks[i].0 {
                Token::Chars(s) => Some(
                    (Instruction::Dc { value: pack_chars(s@), unresolved_symbol: None }, i + 1),
                ),
                Token::String(sym) => Some(
                    (Instruction::Dc { value: 0, unresolved_symbol: Some(sym) }, i + 1),
                ),
                _ => None,
            }
        } else {
            None
        },
    }
}

fn p_dc(toks: &Vec<(Token, Span)>, i: usize) -> (r: Option<(Instruction, usize)>)
    requires
        i <= toks@.len(),
    ensures
        r is Some <==> sp_dc(toks@, i as int) is Some,
        r matches Some(p) ==> sp_dc(toks@, i as int) == Some((p.0, p.1 as int)) && i < p.1
            <= toks@.len(),
{
    match p_signed(toks, i) {
        Some((v, j)) => Some((Instruction::Dc { value: v, unresolved_symbol: None }, j)),
        None => {
            if i < toks.len() {
                match &toks[i].0 {
                    Token::Chars(s) => {
                        let v = pack_chars_exec(s.as_str());
                        Some((Instruction::Dc { value: v, unresolved_symbol: None }, i + 1))
                    }
                    Token::String(sym) => Some(
                        (
                            Instruction::Dc { value: 0, unresolved_symbol: Some(sym.clone()) },
                            i + 1,
                        ),
                    ),
                    _ => None,
                }
            } else {
                None
            }
        }
    }
}

/// The `DS` operand: a decimal reservation count.
pub open spec fn sp_ds(toks: Seq<(Token, Span)>, i: int) -> Option<(Instruction, int)> {
    match sp_decimal(toks, i) {
        Some((d, j)) => Some((Instruction::Ds(d), j)),
        None => None,
    }
}

fn p_ds(toks: &Vec<(Token, Span)>, i: usize) -> (r: Option<(Instruction, usize)>)
    requires
        i <= toks@.len(),
    ensures
        r is Some <==> sp_ds(toks@, i as int) is Some,
        r matches Some(p) ==> sp_ds(toks@, i as int) == Some((p.0, p.1 as int)) && i < p.1
            <= toks@.len(),
{
    match p_decimal(toks, i) {
        Some((d, j)) => Some((Instruction::Ds(d), j)),
        None => None,
    }
}

/// The `ORG` operand: a decimal literal reread as hexadecimal digits, an
/// unprefixed hexadecimal literal, or a word read as a hexadecimal number.
pub open spec fn sp_org(toks: Seq<(Token, Span)>, i: int) -> Option<(Instruction, int)> {
    if 0 <= i < toks.len() {
        match toks[i].0 {
            Token::Decimal(d) => if hex_reinterp(d as nat) <= 0xFFFF {
                Some((Instruction::Org(hex_reinterp(d as nat) as u16), i + 1))
            } else {
                None
            },
            Token::NoPrefixHexadecimal(h) => Some((Instruction::Org(h), i + 1)),
            Token::String(s) => match hex_str_val(s@) {
                Some(v) => Some((Instruction::Org(v), i + 1)),
                None => None,
            },
            _ => None,
        }
    } else {
        None
    }
}

fn p_org(toks: &Vec<(Token, Span)>, i: usize) -> (r: Option<(Instruction, usize)>)
    requires
        i <= toks@.len(),
    ensures
        r is Some <==> sp_org(toks@, i as int) is Some,
        r matches Some(p) ==> sp_org(toks@, i as int) == Some((p.0, p.1 as int)) && i < p.1
            <= toks@.len(),
{
    if i < toks.len() {
        match &toks[i].0 {
            Token::Decimal(d) => match dec_as_hex(*d) {
                Some(v) => Some((Instruction::Org(v), i + 1)),
                None => None,
            },
            Token::NoPrefixHexadecimal(h) => Some((Instruction::Org(*h), i + 1)),
            Token::String(s) => match parse_hex_word(s.as_str()) {
                Some(v) => Some((Instruction::Org(v), i + 1)),
                None => None,
            },
            _ => None,
        }
    } else {
        None
    }
}

/// One instruction: the mnemonic word selects the group (the mnemonic sets
/// are disjoint, so the declared first-match-wins order over the groups
/// reduces to this dispatch), then that group's operand grammar decides.
pub open spec fn sp_instr(toks: Seq<(Token, Span)>, i: int) -> Option<(Instruction, int)> {
    if 0 <= i < toks.len() {
        match toks[i].0 {
            Token::String(w) => {
                match op1_of(w@) {
                    Some(op) => sp_instr1(toks, i + 1, op),
                    None => match op2_of(w@) {
                        Some(op) => sp_instr2(toks, i + 1, op),
                        None => match op3_of(w@) {
                            Some(op) => sp_instr3(toks, i + 1, op),
                            None => match op4_of(w@) {
                                Some(op) => sp_instr4(toks, i + 1, op),
                                None => match op5_of(w@) {
                                    Some(op) => sp_instr5(toks, i + 1, op),
                                    None => match op6_of(w@) {
                                        Some(op) => sp_instr6(toks, i + 1, op),
                                        None => match op7_of(w@) {
                                            Some(op) => sp_instr7(toks, i + 1, op),
                                            None => match op8_of(w@) {
                                                Some(op) => Some(
                                                    (Instruction::Group8 { op }, i + 1),
                                                ),
                                                None => if w@ == "DC"@ {
                                                    sp_dc(toks, i + 1)
                                                } else if w@ == "DS"@ {
                                                    sp_ds(toks, i + 1)
                                                } else if w@ == "ORG"@ {
                                                    sp_org(toks, i + 1)
                                                } else {
                                                    None
                                                },
                                            },
                                        },
                                    },
                                },
                            },
                        },
                    },
                }
            }
            _ => None,
        }
    } else {
        None
    }
}

#[verifier::rlimit(60)]
fn p_instr(toks: &Vec<(Token, Span)>, i: usize) -> (r: Option<(Instruction, usize)>)
    requires
        i <= toks@.len(),
    ensures
        r is Some <==> sp_instr(toks@, i as int) is Some,
        r matches Some(p) ==> sp_instr(toks@, i as int) == Some((p.0, p.1 as int)) && i < p.1
            <= toks@.len(),
{
    if i < toks.len() {
        match &toks[i].0 {
            Token::String(word) => {
                let w = word.as_str();
                if let Some(op) = p_op1(w) {
                    p_instr1(toks, i + 1, op)
                } else if let Some(op) = p_op2(w) {
                    p_instr2(toks, i + 1, op)
                } else if let Some(op) = p_op3(w) {
                    p_instr3(toks, i + 1, op)
                } else if let Some(op) = p_op4(w) {
                    p_instr4(toks, i + 1, op)
                } else if let Some(op) = p_op5(w) {
                    p_instr5(toks, i + 1, op)
                } else if let Some(op) = p_op6(w) {
                    p_instr6(toks, i + 1, op)
                } else if let Some(op) = p_op7(w) {
                    p_instr7(toks, i + 1, op)
                } else if let Some(op) = p_op8(w) {
                    Some((Instruction::Group8 { op }, i + 1))
                } else if str_eq(w, "DC") {
                    p_dc(toks, i + 1)
                } else if str_eq(w, "DS") {
                    p_ds(toks, i + 1)
                } else if str_eq(w, "ORG") {
                    p_org(toks, i + 1)
                } else {
                    None
                }
            }
            _ => None,
        }
    } else {
        None
    }
}

// ---------------------------------------------------------------------------
// Lines and the whole program
// ---------------------------------------------------------------------------

fn tok_is_eol(t: &Token) -> (b: bool)
    ensures
        b == (*t is Eol),
{
    matches!(t, Token::Eol)
}

/// An optional `label :` prefix.
pub open spec fn sp_label(toks: Seq<(Token, Span)>, i: int) -> Option<(String, int)> {
    if 0 <= i && i + 1 < toks.len() {
        match (toks[i].0, toks[i + 1].0) {
            (Token::String(w), Token::Colon) => Some((w, i + 2)),
            _ => None,
        }
    } else {
        None
    }
}

pub open spec fn sp_line_end(
    toks: Seq<(Token, Span)>,
    i2: int,
    label: Option<String>,
    ins: Option<Instruction>,
) -> Option<(ProgramLine, int)> {
    if 0 <= i2 < toks.len() && toks[i2].0 is Eol {
        Some((ProgramLine { label, instruction: ins }, i2 + 1))
    } else {
        None
    }
}

pub open spec fn sp_line_rest(toks: Seq<(Token, Span)>, i1: int, label: Option<String>) -> Option<
    (ProgramLine, int),
> {
    match sp_instr(toks, i1) {
        Some((ins, i2)) => sp_line_end(toks, i2, label, Some(ins)),
        None => sp_line_end(toks, i1, label, None),
    }
}

/// One program line: `(label ':')? instruction? EOL`.
pub open spec fn sp_line(toks: Seq<(Token, Span)>, i: int) -> Option<(ProgramLine, int)> {
    match sp_label(toks, i) {
        Some((w, j)) => sp_line_rest(toks, j, Some(w)),
        None => sp_line_rest(toks, i, None),
    }
}

fn p_line(toks: &Vec<(Token, Span)>, i: usize) -> (r: Option<(ProgramLine, usize)>)
    requires
        i <= toks@.len(),
    ensures
        r is Some <==> sp_line(toks@, i as int) is Some,
        r matches Some(p) ==> sp_line(toks@, i as int) == Some((p.0, p.1 as int)) && i < p.1
            <= toks@.len(),
{
    let n = toks.len();
    let mut label: Option<String> = None;
    let mut i1: usize = i;
    if i < n && i + 1 < n {
        match (&toks[i].0, &toks[i + 1].0) {
            (Token::String(w), Token::Colon) => {
                label = Some(w.clone());
                i1 = i + 2;
            }
            _ => {}
        }
    }
    let (ins, i2): (Option<Instruction>, usize) = match p_instr(toks, i1) {
        Some((x, j)) => (Some(x), j),
        None => (None, i1),
    };
    if i2 < n && tok_is_eol(&toks[i2].0) {
        Some((ProgramLine { label, instruction: ins }, i2 + 1))
    } else {
        None
    }
}

/// The word that terminates the program body.
pub open spec fn is_end_word(t: Token) -> bool {
    t matches Token::String(w) && w@ == "END"@
}

/// The raw line sequence of the program body: lines, first-match-wins, until
/// a line fails to match and the `END` word stands at that position.
pub open spec fn sp_lines(toks: Seq<(Token, Span)>, i: int) -> Option<(Seq<ProgramLine>, int)>
    decreases toks.len() - i,
{
    match sp_line(toks, i) {
        Some((l, j)) => if i < j <= toks.len() {
            match sp_lines(toks, j) {
                Some((rest, e)) => Some((seq![l] + rest, e)),
                None => None,
            }
        } else {
            None
        },
        None => if 0 <= i < toks.len() && is_end_word(toks[i].0) {
            Some((Seq::empty(), i + 1))
        } else {
            None
        },
    }
}

/// A line is kept in the program when it carries a label or an instruction;
/// a line with neither was blank and only separated its neighbours.
pub open spec fn keep_line(l: ProgramLine) -> bool {
    l.label is Some || l.instruction is Some
}

/// The kept lines of a raw line sequence, in order.
pub open spec fn kept_lines(s: Seq<ProgramLine>) -> Seq<ProgramLine>
    decreases s.len(),
{
    if s.len() == 0 {
        Seq::empty()
    } else {
        let rest = kept_lines(s.drop_last());
        if keep_line(s.last()) {
            rest.push(s.last())
        } else {
            rest
        }
    }
}

/// The program head: the `TITLE` word, the title word, and an end-of-line.
pub open spec fn sp_title_ok(toks: Seq<(Token, Span)>) -> bool {
    &&& toks.len() >= 3
    &&& (toks[0].0 matches Token::String(w) && w@ == "TITLE"@)
    &&& toks[1].0 is String
    &&& toks[2].0 is Eol
}

pub open spec fn sp_title(toks: Seq<(Token, Span)>) -> String {
    match toks[1].0 {
        Token::String(s) => s,
        _ => arbitrary(),
    }
}

/// The whole program: `TITLE <name> <EOL> (line)+ END`, with nothing after
/// the terminator. The result is the title and the kept program lines.
pub open spec fn sp_program(toks: Seq<(Token, Span)>) -> Option<(String, Seq<ProgramLine>)> {
    if sp_title_ok(toks) {
        match sp_lines(toks, 3) {
            Some((raw, e)) => if raw.len() >= 1 && e == toks.len() {
                Some((sp_title(toks), kept_lines(raw)))
            } else {
                None
            },
            None => None,
        }
    } else {
        None
    }
}

/// Joins already-parsed lines onto the meaning of the remaining body.
spec fn with_prefix(
    pre: Seq<ProgramLine>,
    o: Option<(Seq<ProgramLine>, int)>,
) -> Option<(Seq<ProgramLine>, int)> {
    match o {
        Some((s, e)) => Some((pre + s, e)),
        None => None,
    }
}

fn parse_program(toks: &Vec<(Token, Span)>) -> (r: (Option<Ast>, Vec<ParseError>))
    ensures
        r.0 is Some <==> sp_program(toks@) is Some,
        r.0 matches Some(ast) ==> sp_program(toks@) matches Some(pr) && ast.title == pr.0
            && ast.lines@ == pr.1 && r.1@.len() == 0,
        r.0 is None ==> r.1@.len() > 0,
{
    let n = toks.len();
    if n < 3 {
        let sp = if n > 0 {
            toks[0].1
        } else {
            Span { start: 0, end: 0 }
        };
        return (None, vec![ParseError { span: sp }]);
    }
    let title_ok: bool = match &toks[0].0 {
        Token::String(w) => str_eq(w.as_str(), "TITLE"),
        _ => false,
    };
    if !title_ok {
        return (None, vec![ParseError { span: toks[0].1 }]);
    }
    let title: String = match &toks[1].0 {
        Token::String(s) => s.clone(),
        _ => {
            return (None, vec![ParseError { span: toks[1].1 }]);
        }
    };
    if !tok_is_eol(&toks[2].0) {
        return (None, vec![ParseError { span: toks[2].1 }]);
    }
    let mut lines: Vec<ProgramLine> = Vec::new();
    let ghost mut raw: Seq<ProgramLine> = Seq::empty();
    let mut errs: Vec<ParseError> = Vec::new();
    let mut nlines: usize = 0;
    let mut i: usize = 3;
    let mut done: bool = false;
    let mut failed: bool = false;
    proof {
        if let Some((s, e)) = sp_lines(toks@, 3) {
            assert(Seq::<ProgramLine>::empty() + s =~= s);
        }
    }
    while !done && !failed
        invariant
            3 <= i <= n,
            n == toks@.len(),
            sp_title_ok(toks@),
            lines@ == kept_lines(raw),
            nlines == raw.len(),
            nlines <= i,
            !done && errs@.len() == 0 ==> with_prefix(raw, sp_lines(toks@, i as int))
                == sp_lines(toks@, 3),
            errs@.len() > 0 ==> sp_lines(toks@, 3) is None,
            done ==> errs@.len() > 0 || sp_lines(toks@, 3) == Some((raw, i as int)),
            failed ==> errs@.len() > 0,
        decreases n - i, (if done || failed { 0int } else { 1int }),
    {
        if i >= n {
            errs.push(ParseError { span: toks[n - 1].1 });
            failed = true;
        } else {
            match p_line(toks, i) {
                Some((line, j)) => {
                    proof {
                        if errs@.len() == 0 {
                            if let Some((rest, e)) = sp_lines(toks@, j as int) {
                                assert(raw.push(line) + rest =~= raw + (seq![line] + rest));
                            }
                        }
                        assert(raw.push(line).drop_last() =~= raw);
                    }
                    let keep: bool = line.label.is_some() || line.instruction.is_some();
                    proof {
                        raw = raw.push(line);
                    }
                    if keep {
                        lines.push(line);
                    }
                    nlines = nlines + 1;
                    i = j;
                }
                None => {
                    let is_endw: bool = match &toks[i].0 {
                        Token::String(w) => str_eq(w.as_str(), "END"),
                        _ => false,
                    };
                    if is_endw {
                        proof {
                            assert(raw + Seq::<ProgramLine>::empty() =~= raw);
                        }
                        i = i + 1;
                        done = true;
                    } else {
                        errs.push(ParseError { span: toks[i].1 });
                        let ghost i0: int = i as int;
                        while i < n && !tok_is_eol(&toks[i].0)
                            invariant
                                i0 <= i <= n,
                                3 <= i0,
                                n == toks@.len(),
                                sp_title_ok(toks@),
                                lines@ == kept_lines(raw),
                                nlines == raw.len(),
                                nlines <= i,
                                errs@.len() > 0,
                                sp_lines(toks@, 3) is None,
                            decreases n - i,
                        {
                            i = i + 1;
                        }
                        if i < n {
                            i = i + 1;
                        }
                    }
                }
            }
        }
    }
    if failed {
        return (None, errs);
    }
    if errs.len() > 0 {
        return (None, errs);
    }
    if nlines >= 1 && i == n {
        (Some(Ast { title, lines }), errs)
    } else {
        let sp = toks[n - 1].1;
        errs.push(ParseError { span: sp });
        (None, errs)
    }
}

/// The first token position holding more than an end-of-line, scanning up
/// from `i`.
pub open spec fn first_code(toks: Seq<(Token, Span)>, i: int) -> Option<int>
    decreases toks.len() - i,
{
    if 0 <= i < toks.len() {
        if !(toks[i].0 is Eol) {
            Some(i)
        } else {
            first_code(toks, i + 1)
        }
    } else {
        None
    }
}

/// The last token position holding more than an end-of-line, scanning down
/// from `i`.
pub open spec fn last_code(toks: Seq<(Token, Span)>, i: int) -> Option<int>
    decreases i + 1,
{
    if 0 <= i < toks.len() {
        if !(toks[i].0 is Eol) {
            Some(i)
        } else {
            last_code(toks, i - 1)
        }
    } else {
        None
    }
}

/// The token stream with leading and trailing end-of-line runs removed,
/// as grammar matching sees it.
pub open spec fn sp_trim(toks: Seq<(Token, Span)>) -> Seq<(Token, Span)> {
    let s = match first_code(toks, 0) {
        Some(s) => s,
        None => 0,
    };
    let e = match last_code(toks, toks.len() - 1) {
        Some(e) => e + 1,
        None => toks.len() as int,
    };
    toks.subrange(s, e)
}

/// Parse a token stream into a program.
///
/// Leading and trailing end-of-line runs are trimmed first. On success the
/// program is returned with no errors; on any syntax error no program is
/// returned and at least one error, each carrying a source span, is.
pub fn parse(tokens: Vec<(Token, Span)>) -> (r: (Option<Ast>, Vec<ParseError>))
    ensures
        r.0 is Some <==> sp_program(sp_trim(tokens@)) is Some,
        r.0 matches Some(ast) ==> sp_program(sp_trim(tokens@)) matches Some(pr) && ast.title
            == pr.0 && ast.lines@ == pr.1 && r.1@.len() == 0,
        r.0 is None ==> r.1@.len() > 0,
{
    let n = tokens.len();
    let mut k: usize = 0;
    while k < n && tok_is_eol(&tokens[k].0)
        invariant
            k <= n,
            n == tokens@.len(),
            first_code(tokens@, 0) == first_code(tokens@, k as int),
            forall|p: int| 0 <= p < k ==> tokens@[p].0 is Eol,
        decreases n - k,
    {
        k = k + 1;
    }
    let start: usize = if k < n {
        k
    } else {
        0
    };
    let mut m: usize = n;
    while m > 0 && tok_is_eol(&tokens[m - 1].0)
        invariant
            m <= n,
            n == tokens@.len(),
            last_code(tokens@, n as int - 1) == last_code(tokens@, m as int - 1),
            forall|p: int| m <= p < n ==> tokens@[p].0 is Eol,
        decreases m,
    {
        m = m - 1;
    }
    let end: usize = if m > 0 {
        m
    } else {
        n
    };
    proof {
        assert(start <= end);
        assert(sp_trim(tokens@) == tokens@.subrange(start as int, end as int));
    }
    let mut trimmed: Vec<(Token, Span)> = Vec::new();
    let mut k2: usize = start;
    while k2 < end
        invariant
            start <= k2 <= end <= n,
            n == tokens@.len(),
            trimmed@ == tokens@.subrange(start as int, k2 as int),
        decreases end - k2,
    {
        let t = tokens[k2].0.clone();
        let sp = tokens[k2].1;
        proof {
            assert(tokens@.subrange(start as int, k2 + 1) =~= tokens@.subrange(
                start as int,
                k2 as int,
            ).push(tokens@[k2 as int]));
        }
        trimmed.push((t, sp));
        k2 = k2 + 1;
    }
    proof {
        assert(trimmed@ == sp_trim(tokens@));
    }
    parse_program(&trimmed)
}

} // verus!
