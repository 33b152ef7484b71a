//! The instruction encoder: maps a resolved line sequence to the ordered
//! (address, word) listing, advancing the address counter exactly as symbol
//! resolution does. An origin line resets the counter and emits nothing; a
//! reservation emits zero-filled words; every other instruction emits its
//! encoded word.

use vstd::arithmetic::div_mod::lemma_add_mod_noop;
use vstd::prelude::*;

use crate::instruction::{spec_encode, Instruction, MachineAddress, MachineCode};
use crate::parser::ProgramLine;
use crate::symbol::{line_unresolved_name, next_addr};

verus! {

/// The zero-filled words a reservation emits: `count` words at consecutive
/// (wrapping) addresses from `addr`.
pub open spec fn ds_words(addr: MachineAddress, count: u16) -> Seq<(MachineAddress, MachineCode)> {
    Seq::new(count as nat, |k: int| (((addr + k) % 0x10000) as u16, 0u16))
}

/// The (address, word) listing of a line sequence from counter `addr`, or
/// `None` as soon as an instruction cannot be encoded: a pseudo-op reaching
/// the encoder, or a reference still unresolved.
pub open spec fn gen_from(lines: Seq<ProgramLine>, addr: MachineAddress) -> Option<
    Seq<(MachineAddress, MachineCode)>,
>
    decreases lines.len(),
{
    if lines.len() == 0 {
        Some(Seq::empty())
    } else {
        let l = lines[0];
        let rest = lines.drop_first();
        match l.instruction {
            None => gen_from(rest, addr),
            Some(ins) => match ins {
                Instruction::Org(c) => gen_from(rest, c),
                Instruction::Ds(s) => match gen_from(rest, next_addr(l, addr)) {
                    Some(ws) => Some(ds_words(addr, s) + ws),
                    None => None,
                },
                _ => match spec_encode(ins) {
                    Ok(w) => match gen_from(rest, next_addr(l, addr)) {
                        Some(ws) => Some(seq![(addr, w)] + ws),
                        None => None,
                    },
                    Err(_) => None,
                },
            },
        }
    }
}

/// The whole program's listing, counter starting at 0.
pub open spec fn spec_generate(lines: Seq<ProgramLine>) -> Option<
    Seq<(MachineAddress, MachineCode)>,
> {
    gen_from(lines, 0)
}

/// Encode a resolved line sequence into its (address, word) listing.
///
/// Fails exactly when some line's instruction cannot be encoded — a
/// reference left unresolved. After a resolution pass that left no
/// unresolved symbol this cannot happen; a failure here signals a pipeline
/// defect, and the caller must abort rather than write output.
pub fn generate(lines: &Vec<ProgramLine>) -> (r: Result<Vec<(MachineAddress, MachineCode)>, ()>)
    ensures
        r matches Ok(v) ==> spec_generate(lines@) == Some(v@),
        r is Err <==> spec_generate(lines@) is None,
{
    let n = lines.len();
    let mut out: Vec<(MachineAddress, MachineCode)> = Vec::new();
    let mut addr: MachineAddress = 0;
    let mut k: usize = 0;
    proof {
        assert(lines@.skip(0) =~= lines@);
        if let Some(s) = gen_from(lines@, 0) {
            assert(Seq::<(MachineAddress, MachineCode)>::empty() + s =~= s);
        }
    }
    while k < n
        invariant
            k <= n,
            n == lines@.len(),
            match gen_from(lines@.skip(k as int), addr) {
                Some(ws) => spec_generate(lines@) == Some(out@ + ws),
                None => spec_generate(lines@) is None,
            },
        decreases n - k,
    {
        proof {
            assert(lines@.skip(k as int).drop_first() =~= lines@.skip(k + 1));
            assert(lines@.skip(k as int)[0] == lines@[k as int]);
        }
        let line = &lines[k];
        match &line.instruction {
            None => {}
            Some(ins) => match ins {
                Instruction::Org(c) => {
                    addr = *c;
                }
                Instruction::Ds(s) => {
                    let count: u16 = *s;
                    let ghost addr0 = addr;
                    let ghost out0 = out@;
                    let mut j: u16 = 0;
                    proof {
                        assert(out@ =~= out0 + ds_words(addr0, count).take(0));
                    }
                    while j < count
                        invariant
                            j <= count,
                            out@ == out0 + ds_words(addr0, count).take(j as int),
                            addr == ((addr0 + j) % 0x10000) as u16,
                        decreases count - j,
                    {
                        proof {
                            lemma_add_mod_noop(addr0 + j, 1, 0x10000);
                            assert(ds_words(addr0, count)[j as int] == (addr, 0u16));
                            assert(ds_words(addr0, count).take(j + 1) =~= ds_words(
                                addr0,
                                count,
                            ).take(j as int).push((addr, 0u16)));
                            assert(out0 + ds_words(addr0, count).take(j + 1) =~= (out0
                                + ds_words(addr0, count).take(j as int)).push((addr, 0u16)));
                        }
                        out.push((addr, 0));
                        addr = (((addr as u32) + 1) % 0x10000) as u16;
                        j = j + 1;
                    }
                    proof {
                        assert(ds_words(addr0, count).take(count as int) =~= ds_words(
                            addr0,
                            count,
                        ));
                        if let Some(ws) = gen_from(lines@.skip(k + 1), addr) {
                            assert((out0 + ds_words(addr0, count)) + ws =~= out0 + (ds_words(
                                addr0,
                                count,
                            ) + ws));
                        }
                    }
                }
                _ => {
                    match ins.encode() {
                        Ok(c) => {
                            proof {
                                if let Some(ws) = gen_from(
                                    lines@.skip(k + 1),
                                    next_addr(lines@[k as int], addr),
                                ) {
                                    assert(out@.push((addr, c)) + ws =~= out@ + (seq![(addr, c)]
                                        + ws));
                                }
                            }
                            out.push((addr, c));
                            addr = (((addr as u32) + 1) % 0x10000) as u16;
                        }
                        Err(_) => {
                            return Err(());
                        }
                    }
                }
            },
        }
        k = k + 1;
    }
    proof {
        assert(lines@.skip(n as int) =~= Seq::<ProgramLine>::empty());
        assert(out@ + Seq::<(MachineAddress, MachineCode)>::empty() =~= out@);
    }
    Ok(out)
}

// ---------------------------------------------------------------------------
// Laws of the encoder
// ---------------------------------------------------------------------------

/// Law: encoding totality. The listing exists exactly when no line still
/// carries an unresolved symbol reference: on fully resolved input encoding
/// never fails, and with any reference left unresolved it deterministically
/// fails.
pub proof fn lemma_generate_total(lines: Seq<ProgramLine>, addr: MachineAddress)
    ensures
        gen_from(lines, addr) is Some <==> (forall|k: int|
            0 <= k < lines.len() ==> #[trigger] line_unresolved_name(lines[k]) is None),
    decreases lines.len(),
{
    if lines.len() > 0 {
        let l = lines[0];
        let rest = lines.drop_first();
        let rest_clear = forall|k: int|
            0 <= k < rest.len() ==> #[trigger] line_unresolved_name(rest[k]) is None;
        let all_clear = forall|k: int|
            0 <= k < lines.len() ==> #[trigger] line_unresolved_name(lines[k]) is None;
        assert forall|k: int|
            0 <= k < rest.len() implies rest[k] == lines[k + 1] by {}
        if line_unresolved_name(l) is None && rest_clear {
            assert forall|k: int|
                0 <= k < lines.len() implies #[trigger] line_unresolved_name(lines[k])
                is None by {
                if k > 0 {
                    assert(lines[k] == rest[k - 1]);
                }
            }
        }
        if all_clear {
            assert(line_unresolved_name(l) is None);
            assert forall|k: int|
                0 <= k < rest.len() implies #[trigger] line_unresolved_name(rest[k])
                is None by {
                assert(rest[k] == lines[k + 1]);
            }
        }
        match l.instruction {
            None => {
                lemma_generate_total(rest, addr);
            }
            Some(ins) => match ins {
                Instruction::Org(c) => {
                    lemma_generate_total(rest, c);
                }
                Instruction::Ds(_) => {
                    lemma_generate_total(rest, next_addr(l, addr));
                }
                _ => {
                    lemma_generate_total(rest, next_addr(l, addr));
                    assert(spec_encode(ins) is Ok <==> line_unresolved_name(l) is None);
                }
            },
        }
    }
}

/// Law: an origin line resets the address counter to its operand for the
/// lines after it and does not itself consume a word.
pub proof fn lemma_org_resets(lines: Seq<ProgramLine>, addr: MachineAddress, c: MachineAddress)
    requires
        lines.len() > 0,
        lines[0].instruction == Some(Instruction::Org(c)),
    ensures
        gen_from(lines, addr) == gen_from(lines.drop_first(), c),
        next_addr(lines[0], addr) == c,
{
}

/// Law: a reservation of `s` words emits exactly `s` zero words at
/// consecutive (wrapping) addresses and advances the counter by `s`.
pub proof fn lemma_ds_reserves(lines: Seq<ProgramLine>, addr: MachineAddress, s: u16)
    requires
        lines.len() > 0,
        lines[0].instruction == Some(Instruction::Ds(s)),
    ensures
        next_addr(lines[0], addr) == ((addr + s) % 0x10000) as u16,
        ds_words(addr, s).len() == s,
        forall|k: int|
            0 <= k < s ==> #[trigger] ds_words(addr, s)[k] == ((((addr + k) % 0x10000) as u16,
            0u16)),
        gen_from(lines, addr) == (match gen_from(
            lines.drop_first(),
            ((addr + s) % 0x10000) as u16,
        ) {
            Some(ws) => Some(ds_words(addr, s) + ws),
            None => None::<Seq<(MachineAddress, MachineCode)>>,
        }),
{
}

} // verus!

