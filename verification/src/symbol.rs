//! Two-pass symbol resolution over one parsed line sequence.
//!
//! Pass 1 scans the lines with a running address counter and records each
//! label at its line's address, first definition wins. Pass 2 re-walks the
//! lines with the same counter rules and rewrites every unresolved label
//! reference the table knows into a numeric displacement. A post-check
//! collects the names that remain unresolved.

use vstd::prelude::*;

use crate::instruction::{Address, Instruction, MachineAddress};
use crate::parser::{str_eq, ProgramLine};

verus! {

// ---------------------------------------------------------------------------
// The running address counter
// ---------------------------------------------------------------------------

/// The address a label on this line denotes: an origin line's own operand,
/// otherwise the counter as it stands.
pub open spec fn label_addr(l: ProgramLine, addr: MachineAddress) -> MachineAddress {
    match l.instruction {
        Some(Instruction::Org(c)) => c,
        _ => addr,
    }
}

/// How a line advances the running address counter: an origin resets it to
/// its operand, a reservation advances by its count, any other instruction
/// by one, and a line without an instruction not at all. Advancing wraps at
/// 16 bits.
pub open spec fn next_addr(l: ProgramLine, addr: MachineAddress) -> MachineAddress {
    match l.instruction {
        None => addr,
        Some(ins) => match ins {
            Instruction::Org(c) => c,
            Instruction::Ds(s) => ((addr + s) % 0x10000) as u16,
            _ => ((addr + 1) % 0x10000) as u16,
        },
    }
}

fn advance_addr(l: &ProgramLine, addr: MachineAddress) -> (r: MachineAddress)
    ensures
        r == next_addr(*l, addr),
{
    match &l.instruction {
        None => addr,
        Some(ins) => match ins {
            Instruction::Org(c) => *c,
            Instruction::Ds(s) => (((addr as u32) + (*s as u32)) % 0x10000) as u16,
            _ => (((addr as u32) + 1) % 0x10000) as u16,
        },
    }
}

// ---------------------------------------------------------------------------
// The symbol table
// ---------------------------------------------------------------------------

/// The mapping an entry list denotes, later entries inserted over earlier
/// ones; with pairwise distinct keys the order cannot matter.
spec fn entries_map(s: Seq<(String, MachineAddress)>) -> Map<Seq<char>, MachineAddress>
    decreases s.len(),
{
    if s.len() == 0 {
        Map::empty()
    } else {
        entries_map(s.drop_last()).insert(s.last().0@, s.last().1)
    }
}

proof fn lemma_entries_map_domain(s: Seq<(String, MachineAddress)>, name: Seq<char>)
    ensures
        entries_map(s).contains_key(name) <==> exists|k: int|
            0 <= k < s.len() && s[k].0@ == name,
    decreases s.len(),
{
    if s.len() > 0 {
        lemma_entries_map_domain(s.drop_last(), name);
        if s.last().0@ == name {
            assert(s[s.len() - 1].0@ == name);
        } else {
            if exists|k: int| 0 <= k < s.len() && s[k].0@ == name {
                let k = choose|k: int| 0 <= k < s.len() && s[k].0@ == name;
                assert(s.drop_last()[k].0@ == name);
            }
        }
    }
}

proof fn lemma_entries_map_value(s: Seq<(String, MachineAddress)>, k: int)
    requires
        0 <= k < s.len(),
        forall|p: int, q: int| 0 <= p < q < s.len() ==> s[p].0@ != s[q].0@,
    ensures
        entries_map(s).contains_key(s[k].0@),
        entries_map(s)[s[k].0@] == s[k].1,
    decreases s.len(),
{
    if k == s.len() - 1 {
    } else {
        assert(s.drop_last()[k] == s[k]);
        lemma_entries_map_value(s.drop_last(), k);
        assert(s[k].0@ != s[s.len() - 1].0@);
    }
}

/// The label table: symbol name to machine address, unique keys.
pub struct SymbolTable {
    entries: Vec<(String, MachineAddress)>,
}

impl SymbolTable {
    /// Keys are pairwise distinct.
    pub closed spec fn wf(self) -> bool {
        forall|p: int, q: int|
            0 <= p < q < self.entries@.len() ==> self.entries@[p].0@ != self.entries@[q].0@
    }

    /// The mapping from symbol name to recorded address.
    pub closed spec fn as_map(self) -> Map<Seq<char>, MachineAddress> {
        entries_map(self.entries@)
    }

    pub fn new() -> (t: SymbolTable)
        ensures
            t.wf(),
            t.as_map() == Map::<Seq<char>, MachineAddress>::empty(),
    {
        SymbolTable { entries: Vec::new() }
    }

    /// Look a symbol up by name.
    pub fn get(&self, name: &str) -> (r: Option<MachineAddress>)
        requires
            self.wf(),
        ensures
            r is Some <==> self.as_map().contains_key(name@),
            r matches Some(a) ==> self.as_map()[name@] == a,
    {
        let n = self.entries.len();
        let mut k: usize = 0;
        while k < n
            invariant
                k <= n,
                n == self.entries@.len(),
                self.wf(),
                forall|p: int| 0 <= p < k ==> self.entries@[p].0@ != name@,
            decreases n - k,
        {
            if str_eq(self.entries[k].0.as_str(), name) {
                proof {
                    lemma_entries_map_value(self.entries@, k as int);
                }
                return Some(self.entries[k].1);
            }
            k = k + 1;
        }
        proof {
            lemma_entries_map_domain(self.entries@, name@);
        }
        None
    }

    /// Record a symbol at an address unless it is already present: the first
    /// definition of a label wins.
    pub fn insert_first(&mut self, name: &String, addr: MachineAddress)
        requires
            old(self).wf(),
        ensures
            final(self).wf(),
            final(self).as_map() == (if old(self).as_map().contains_key(name@) {
                old(self).as_map()
            } else {
                old(self).as_map().insert(name@, addr)
            }),
    {
        match self.get(name.as_str()) {
            Some(_) => {}
            None => {
                proof {
                    lemma_entries_map_domain(self.entries@, name@);
                }
                let ghost pre = self.entries@;
                self.entries.push((name.clone(), addr));
                proof {
                    assert(self.entries@.drop_last() =~= pre);
                }
            }
        }
    }
}

/// Pass 1: the label table after scanning `lines` with counter `addr` and
/// table `acc` so far. A label on an instruction-bearing line is recorded at
/// the line's address unless the name is already present.
pub open spec fn table_from(
    lines: Seq<ProgramLine>,
    addr: MachineAddress,
    acc: Map<Seq<char>, MachineAddress>,
) -> Map<Seq<char>, MachineAddress>
    decreases lines.len(),
{
    if lines.len() == 0 {
        acc
    } else {
        let l = lines[0];
        let acc2 = match l.instruction {
            None => acc,
            Some(_) => match l.label {
                Some(lab) => if !acc.contains_key(lab@) {
                    acc.insert(lab@, label_addr(l, addr))
                } else {
                    acc
                },
                None => acc,
            },
        };
        table_from(lines.drop_first(), next_addr(l, addr), acc2)
    }
}

/// The whole program's label table.
pub open spec fn symbol_table_of(lines: Seq<ProgramLine>) -> Map<Seq<char>, MachineAddress> {
    table_from(lines, 0, Map::empty())
}

/// Build the label table: one pass over the lines, counter starting at 0.
pub fn create_symbol_table(lines: &Vec<ProgramLine>) -> (t: SymbolTable)
    ensures
        t.wf(),
        t.as_map() == symbol_table_of(lines@),
{
    let mut t = SymbolTable::new();
    let mut addr: MachineAddress = 0;
    let n = lines.len();
    let mut k: usize = 0;
    proof {
        assert(lines@.skip(0) =~= lines@);
    }
    while k < n
        invariant
            k <= n,
            n == lines@.len(),
            t.wf(),
            table_from(lines@.skip(k as int), addr, t.as_map()) == symbol_table_of(lines@),
        decreases n - k,
    {
        proof {
            assert(lines@.skip(k as int).drop_first() =~= lines@.skip(k + 1));
            assert(lines@.skip(k as int)[0] == lines@[k as int]);
        }
        let line = &lines[k];
        let next = advance_addr(line, addr);
        match &line.instruction {
            None => {}
            Some(ins) => {
                let la: MachineAddress = match ins {
                    Instruction::Org(c) => *c,
                    _ => addr,
                };
                match &line.label {
                    Some(lab) => {
                        t.insert_first(lab, la);
                    }
                    None => {}
                }
            }
        }
        addr = next;
        k = k + 1;
    }
    proof {
        assert(lines@.skip(n as int) =~= Seq::<ProgramLine>::empty());
    }
    t
}

// ---------------------------------------------------------------------------
// Pass 2: the rewrite
// ---------------------------------------------------------------------------

/// The displacement a resolved reference encodes: the distance from the
/// referencing instruction's address to the label, plus the literal offset,
/// modulo 2^16.
pub open spec fn displacement(
    target: MachineAddress,
    current: MachineAddress,
    offset: i16,
) -> MachineAddress {
    ((target + 0x10000 - current + (offset as u16)) % 0x10000) as u16
}

fn displacement_exec(target: MachineAddress, current: MachineAddress, offset: i16) -> (r:
    MachineAddress)
    ensures
        r == displacement(target, current, offset),
{
    let off16: u16 = offset as u16;
    let t: u32 = (target as u32) + 0x10000 - (current as u32) + (off16 as u32);
    (t % 0x10000) as u16
}

/// Rewrite one instruction: an unresolved reference whose symbol the table
/// knows becomes the numeric displacement (or, for a define-constant, the
/// symbol's address itself); everything else is left unchanged.
pub open spec fn resolve_ins(
    ins: Instruction,
    current: MachineAddress,
    m: Map<Seq<char>, MachineAddress>,
) -> Instruction {
    match ins {
        Instruction::Group5 { op, rb, address } => match address {
            Address::Unresolved { symbol_name, offset } => if m.contains_key(symbol_name@) {
                Instruction::Group5 {
                    op,
                    rb,
                    address: Address::Constant(displacement(m[symbol_name@], current, offset)),
                }
            } else {
                ins
            },
            Address::Constant(_) => ins,
        },
        Instruction::Group6 { op, address } => match address {
            Address::Unresolved { symbol_name, offset } => if m.contains_key(symbol_name@) {
                Instruction::Group6 {
                    op,
                    address: Address::Constant(displacement(m[symbol_name@], current, offset)),
                }
            } else {
                ins
            },
            Address::Constant(_) => ins,
        },
        Instruction::Dc { value, unresolved_symbol } => match unresolved_symbol {
            Some(sym) => if m.contains_key(sym@) {
                Instruction::Dc { value: m[sym@], unresolved_symbol: None }
            } else {
                ins
            },
            None => ins,
        },
        _ => ins,
    }
}

/// Rewrite one line, keeping its label.
pub open spec fn resolve_pl(
    l: ProgramLine,
    addr: MachineAddress,
    m: Map<Seq<char>, MachineAddress>,
) -> ProgramLine {
    ProgramLine {
        label: l.label,
        instruction: match l.instruction {
            None => None,
            Some(ins) => Some(resolve_ins(ins, addr, m)),
        },
    }
}

/// Rewrite a line sequence with the running counter starting at `addr`.
pub open spec fn resolve_from(
    lines: Seq<ProgramLine>,
    addr: MachineAddress,
    m: Map<Seq<char>, MachineAddress>,
) -> Seq<ProgramLine>
    decreases lines.len(),
{
    if lines.len() == 0 {
        Seq::empty()
    } else {
        seq![resolve_pl(lines[0], addr, m)] + resolve_from(
            lines.drop_first(),
            next_addr(lines[0], addr),
            m,
        )
    }
}

/// Both passes over one line sequence: build the table, then rewrite.
pub open spec fn spec_resolve(lines: Seq<ProgramLine>) -> Seq<ProgramLine> {
    resolve_from(lines, 0, symbol_table_of(lines))
}

fn resolve_one(ins: Instruction, current: MachineAddress, t: &SymbolTable) -> (r: Instruction)
    requires
        t.wf(),
    ensures
        r == resolve_ins(ins, current, t.as_map()),
{
    match ins {
        Instruction::Group5 { op, rb, address } => match address {
            Address::Unresolved { symbol_name, offset } => match t.get(symbol_name.as_str()) {
                Some(a) => Instruction::Group5 {
                    op,
                    rb,
                    address: Address::Constant(displacement_exec(a, current, offset)),
                },
                None => Instruction::Group5 {
                    op,
                    rb,
                    address: Address::Unresolved { symbol_name, offset },
                },
            },
            Address::Constant(c) => Instruction::Group5 {
                op,
                rb,
                address: Address::Constant(c),
            },
        },
        Instruction::Group6 { op, address } => match address {
            Address::Unresolved { symbol_name, offset } => match t.get(symbol_name.as_str()) {
                Some(a) => Instruction::Group6 {
                    op,
                    address: Address::Constant(displacement_exec(a, current, offset)),
                },
                None => Instruction::Group6 {
                    op,
                    address: Address::Unresolved { symbol_name, offset },
                },
            },
            Address::Constant(c) => Instruction::Group6 { op, address: Address::Constant(c) },
        },
        Instruction::Dc { value, unresolved_symbol } => match unresolved_symbol {
            Some(sym) => match t.get(sym.as_str()) {
                Some(a) => Instruction::Dc { value: a, unresolved_symbol: None },
                None => Instruction::Dc { value, unresolved_symbol: Some(sym) },
            },
            None => Instruction::Dc { value, unresolved_symbol: None },
        },
        other => other,
    }
}

/// Resolve every label reference in place: build the table from the lines,
/// then rewrite each reference the table knows into its displacement.
/// References to unknown symbols are left unresolved for the post-check.
pub fn resolve_symbols(lines: &mut Vec<ProgramLine>)
    ensures
        final(lines)@ == spec_resolve(old(lines)@),
{
    let table = create_symbol_table(lines);
    let n = lines.len();
    let mut out: Vec<ProgramLine> = Vec::new();
    let mut addr: MachineAddress = 0;
    let mut k: usize = 0;
    proof {
        assert(lines@.skip(0) =~= lines@);
        let s = resolve_from(lines@, 0, table.as_map());
        assert(Seq::<ProgramLine>::empty() + s =~= s);
    }
    while k < n
        invariant
            k <= n,
            n == lines@.len(),
            lines@ == old(lines)@,
            table.wf(),
            table.as_map() == symbol_table_of(lines@),
            out@ + resolve_from(lines@.skip(k as int), addr, table.as_map()) == spec_resolve(
                old(lines)@,
            ),
        decreases n - k,
    {
        proof {
            assert(lines@.skip(k as int).drop_first() =~= lines@.skip(k + 1));
            assert(lines@.skip(k as int)[0] == lines@[k as int]);
        }
        let next = advance_addr(&lines[k], addr);
        let lc = lines[k].clone();
        let ProgramLine { label, instruction } = lc;
        let new_ins: Option<Instruction> = match instruction {
            None => None,
            Some(ins) => Some(resolve_one(ins, addr, &table)),
        };
        let newl = ProgramLine { label, instruction: new_ins };
        proof {
            assert(newl == resolve_pl(lines@[k as int], addr, table.as_map()));
            let rest = resolve_from(lines@.skip(k + 1), next_addr(lines@[k as int], addr),
                table.as_map());
            assert(out@.push(newl) + rest =~= out@ + (seq![newl] + rest));
        }
        out.push(newl);
        addr = next;
        k = k + 1;
    }
    proof {
        assert(lines@.skip(n as int) =~= Seq::<ProgramLine>::empty());
        assert(out@ + Seq::<ProgramLine>::empty() =~= out@);
    }
    *lines = out;
}

// ---------------------------------------------------------------------------
// The post-check
// ---------------------------------------------------------------------------

/// The unresolved symbol name a line still carries, if any.
pub open spec fn line_unresolved_name(l: ProgramLine) -> Option<Seq<char>> {
    match l.instruction {
        Some(ins) => match ins {
            Instruction::Group5 { address: Address::Unresolved { symbol_name, .. }, .. } => Some(
                symbol_name@,
            ),
            Instruction::Group6 { address: Address::Unresolved { symbol_name, .. }, .. } => Some(
                symbol_name@,
            ),
            Instruction::Dc { unresolved_symbol: Some(sym), .. } => Some(sym@),
            _ => None,
        },
        None => None,
    }
}

/// The set of symbol names that remain unresolved anywhere in the lines.
pub open spec fn unresolved_names(lines: Seq<ProgramLine>) -> Set<Seq<char>> {
    Set::new(
        |n: Seq<char>|
            exists|k: int| 0 <= k < lines.len() && line_unresolved_name(lines[k]) == Some(n),
    )
}

fn vec_contains_str(v: &Vec<String>, s: &String) -> (b: bool)
    ensures
        b == (exists|p: int| 0 <= p < v@.len() && v@[p]@ == s@),
{
    let n = v.len();
    let mut k: usize = 0;
    while k < n
        invariant
            k <= n,
            n == v@.len(),
            forall|p: int| 0 <= p < k ==> v@[p]@ != s@,
        decreases n - k,
    {
        if str_eq(v[k].as_str(), s.as_str()) {
            assert(v@[k as int]@ == s@);
            return true;
        }
        k = k + 1;
    }
    false
}

/// Collect every symbol name still unresolved, each name once. A non-empty
/// result means resolution failed and no output may be produced.
pub fn check_unresolve_symbols(lines: &Vec<ProgramLine>) -> (r: Vec<String>)
    ensures
        forall|p: int| 0 <= p < r@.len() ==> unresolved_names(lines@).contains(r@[p]@),
        forall|n: Seq<char>|
            unresolved_names(lines@).contains(n) ==> exists|p: int|
                0 <= p < r@.len() && r@[p]@ == n,
        forall|p: int, q: int| 0 <= p < q < r@.len() ==> r@[p]@ != r@[q]@,
{
    let n = lines.len();
    let mut out: Vec<String> = Vec::new();
    let mut k: usize = 0;
    while k < n
        invariant
            k <= n,
            n == lines@.len(),
            forall|p: int|
                #![trigger out@[p]]
                0 <= p < out@.len() ==> exists|k2: int|
                    #![trigger line_unresolved_name(lines@[k2])]
                    0 <= k2 < k && line_unresolved_name(lines@[k2]) == Some(out@[p]@),
            forall|k2: int|
                0 <= k2 < k && line_unresolved_name(lines@[k2]) is Some ==> exists|p: int|
                    0 <= p < out@.len() && Some(out@[p]@) == line_unresolved_name(lines@[k2]),
            forall|p: int, q: int| 0 <= p < q < out@.len() ==> out@[p]@ != out@[q]@,
        decreases n - k,
    {
        let name_opt: Option<&String> = match &lines[k].instruction {
            Some(Instruction::Group5 { address: Address::Unresolved { symbol_name, .. }, .. }) => {
                Some(symbol_name)
            }
            Some(Instruction::Group6 { address: Address::Unresolved { symbol_name, .. }, .. }) => {
                Some(symbol_name)
            }
            Some(Instruction::Dc { unresolved_symbol: Some(sym), .. }) => Some(sym),
            _ => None,
        };
        match name_opt {
            Some(nm) => {
                proof {
                    assert(line_unresolved_name(lines@[k as int]) == Some(nm@));
                }
                if !vec_contains_str(&out, nm) {
                    let ghost pre = out@;
                    out.push(nm.clone());
                    proof {
                        assert(out@[pre.len() as int]@ == nm@);
                        assert forall|k2: int|
                            0 <= k2 < k + 1 && line_unresolved_name(lines@[k2]) is Some implies
                            exists|p: int|
                                0 <= p < out@.len() && Some(out@[p]@) == line_unresolved_name(
                                    lines@[k2],
                                ) by {
                            if k2 < k {
                                let p0 = choose|p: int|
                                    0 <= p < pre.len() && Some(pre[p]@) == line_unresolved_name(
                                        lines@[k2],
                                    );
                                assert(out@[p0] == pre[p0]);
                                assert(Some(out@[p0]@) == line_unresolved_name(lines@[k2]));
                            } else {
                                assert(Some(out@[pre.len() as int]@) == line_unresolved_name(
                                    lines@[k2],
                                ));
                            }
                        }
                    }
                } else {
                    proof {
                        let p0 = choose|p: int| 0 <= p < out@.len() && out@[p]@ == nm@;
                        assert(Some(out@[p0]@) == line_unresolved_name(lines@[k as int]));
                    }
                }
            }
            None => {
                proof {
                    assert(line_unresolved_name(lines@[k as int]) is None);
                }
            }
        }
        k = k + 1;
    }
    out
}

// ---------------------------------------------------------------------------
// Laws of the resolver
// ---------------------------------------------------------------------------

/// The counter value when the scan reaches line `i`, starting from `addr`.
pub open spec fn addr_from(lines: Seq<ProgramLine>, addr: MachineAddress, i: int) -> MachineAddress
    decreases i,
{
    if i <= 0 || lines.len() == 0 {
        addr
    } else {
        addr_from(lines.drop_first(), next_addr(lines[0], addr), i - 1)
    }
}

proof fn lemma_table_from_preserves(
    lines: Seq<ProgramLine>,
    addr: MachineAddress,
    acc: Map<Seq<char>, MachineAddress>,
    name: Seq<char>,
)
    requires
        acc.contains_key(name),
    ensures
        table_from(lines, addr, acc).contains_key(name),
        table_from(lines, addr, acc)[name] == acc[name],
    decreases lines.len(),
{
    if lines.len() > 0 {
        let l = lines[0];
        let acc2 = match l.instruction {
            None => acc,
            Some(_) => match l.label {
                Some(lab) => if !acc.contains_key(lab@) {
                    acc.insert(lab@, label_addr(l, addr))
                } else {
                    acc
                },
                None => acc,
            },
        };
        assert(acc2.contains_key(name) && acc2[name] == acc[name]);
        lemma_table_from_preserves(lines.drop_first(), next_addr(l, addr), acc2, name);
    }
}

proof fn lemma_table_from_first(
    lines: Seq<ProgramLine>,
    addr: MachineAddress,
    acc: Map<Seq<char>, MachineAddress>,
    i: int,
    name: Seq<char>,
)
    requires
        0 <= i < lines.len(),
        lines[i].instruction is Some,
        lines[i].label matches Some(lab) && lab@ == name,
        forall|k: int|
            0 <= k < i ==> !(#[trigger] lines[k].instruction is Some && (lines[k].label matches Some(
                l2,
            ) && l2@ == name)),
        !acc.contains_key(name),
    ensures
        table_from(lines, addr, acc).contains_key(name),
        table_from(lines, addr, acc)[name] == label_addr(lines[i], addr_from(lines, addr, i)),
    decreases i,
{
    let l = lines[0];
    let acc2 = match l.instruction {
        None => acc,
        Some(_) => match l.label {
            Some(lab) => if !acc.contains_key(lab@) {
                acc.insert(lab@, label_addr(l, addr))
            } else {
                acc
            },
            None => acc,
        },
    };
    if i == 0 {
        lemma_table_from_preserves(lines.drop_first(), next_addr(l, addr), acc2, name);
    } else {
        assert(!acc2.contains_key(name));
        let rest = lines.drop_first();
        assert(rest[i - 1] == lines[i]);
        assert forall|k: int|
            0 <= k < i - 1 implies !(#[trigger] rest[k].instruction is Some && (rest[k].label matches Some(
            l2,
        ) && l2@ == name)) by {
            assert(rest[k] == lines[k + 1]);
        }
        lemma_table_from_first(rest, next_addr(l, addr), acc2, i - 1, name);
    }
}

/// Law: duplicate label policy. If line `i` is the first
/// instruction-bearing line labelled `name`, the table records `name` at
/// that line's address; later duplicate definitions cannot change it.
pub proof fn lemma_first_label_wins(lines: Seq<ProgramLine>, i: int, name: Seq<char>)
    requires
        0 <= i < lines.len(),
        lines[i].instruction is Some,
        lines[i].label matches Some(lab) && lab@ == name,
        forall|k: int|
            0 <= k < i ==> !(#[trigger] lines[k].instruction is Some && (lines[k].label matches Some(
                l2,
            ) && l2@ == name)),
    ensures
        symbol_table_of(lines).contains_key(name),
        symbol_table_of(lines)[name] == label_addr(lines[i], addr_from(lines, 0, i)),
{
    lemma_table_from_first(lines, 0, Map::empty(), i, name);
}

proof fn lemma_resolve_from_len(
    lines: Seq<ProgramLine>,
    addr: MachineAddress,
    m: Map<Seq<char>, MachineAddress>,
)
    ensures
        resolve_from(lines, addr, m).len() == lines.len(),
    decreases lines.len(),
{
    if lines.len() > 0 {
        lemma_resolve_from_len(lines.drop_first(), next_addr(lines[0], addr), m);
    }
}

proof fn lemma_resolve_from_at(
    lines: Seq<ProgramLine>,
    addr: MachineAddress,
    m: Map<Seq<char>, MachineAddress>,
    i: int,
)
    requires
        0 <= i < lines.len(),
    ensures
        resolve_from(lines, addr, m)[i] == resolve_pl(lines[i], addr_from(lines, addr, i), m),
    decreases i,
{
    lemma_resolve_from_len(lines.drop_first(), next_addr(lines[0], addr), m);
    if i > 0 {
        lemma_resolve_from_at(lines.drop_first(), next_addr(lines[0], addr), m, i - 1);
    }
}

/// The line's instruction carries an unresolved address reference to
/// `name` with literal offset `off`.
pub open spec fn refs_symbol(l: ProgramLine, name: Seq<char>, off: i16) -> bool {
    l.instruction matches Some(ins) && ((ins matches Instruction::Group5 {
        address: Address::Unresolved { symbol_name, offset },
        ..
    } && symbol_name@ == name && offset == off) || (ins matches Instruction::Group6 {
        address: Address::Unresolved { symbol_name, offset },
        ..
    } && symbol_name@ == name && offset == off))
}

/// The line's instruction is a memory or branch operation whose address
/// field is the resolved constant `c`.
pub open spec fn resolved_to(l: ProgramLine, c: MachineAddress) -> bool {
    l.instruction matches Some(ins) && ((ins matches Instruction::Group5 {
        address: Address::Constant(v),
        ..
    } && v == c) || (ins matches Instruction::Group6 { address: Address::Constant(v), .. } && v
        == c))
}

/// Law: symbol resolution correctness. For a label recorded at address A
/// and referenced with literal offset O from the instruction at line `i`,
/// whose own address is B, the resolved address field equals
/// (A − B + O) mod 2^16.
pub proof fn lemma_resolution_displacement(
    lines: Seq<ProgramLine>,
    i: int,
    name: Seq<char>,
    off: i16,
)
    requires
        0 <= i < lines.len(),
        refs_symbol(lines[i], name, off),
        symbol_table_of(lines).contains_key(name),
    ensures
        spec_resolve(lines).len() == lines.len(),
        resolved_to(
            spec_resolve(lines)[i],
            displacement(symbol_table_of(lines)[name], addr_from(lines, 0, i), off),
        ),
{
    lemma_resolve_from_len(lines, 0, symbol_table_of(lines));
    lemma_resolve_from_at(lines, 0, symbol_table_of(lines), i);
}

proof fn lemma_resolve_from_noop(
    lines: Seq<ProgramLine>,
    addr: MachineAddress,
    m: Map<Seq<char>, MachineAddress>,
)
    requires
        forall|k: int| 0 <= k < lines.len() ==> #[trigger] line_unresolved_name(lines[k]) is None,
    ensures
        resolve_from(lines, addr, m) == lines,
    decreases lines.len(),
{
    if lines.len() > 0 {
        let l = lines[0];
        assert(line_unresolved_name(l) is None);
        match l.instruction {
            Some(ins) => {
                assert(resolve_ins(ins, addr, m) == ins);
            }
            None => {}
        }
        assert(resolve_pl(l, addr, m) =~= l);
        let rest = lines.drop_first();
        assert forall|k: int|
            0 <= k < rest.len() implies #[trigger] line_unresolved_name(rest[k]) is None by {
            assert(rest[k] == lines[k + 1]);
        }
        lemma_resolve_from_noop(rest, next_addr(l, addr), m);
        assert(resolve_from(lines, addr, m) =~= lines);
    } else {
        assert(resolve_from(lines, addr, m) =~= lines);
    }
}

/// Law: round-trip idempotence. Resolving a program in which no unresolved
/// reference remains changes nothing: no field changes and no new
/// unresolved symbols appear.
pub proof fn lemma_resolve_resolved_noop(lines: Seq<ProgramLine>)
    requires
        forall|k: int| 0 <= k < lines.len() ==> #[trigger] line_unresolved_name(lines[k]) is None,
    ensures
        spec_resolve(lines) == lines,
{
    lemma_resolve_from_noop(lines, 0, symbol_table_of(lines));
}

proof fn lemma_resolve_keeps_shape(l: ProgramLine, a: MachineAddress, m: Map<Seq<char>, MachineAddress>)
    ensures
        resolve_pl(l, a, m).label == l.label,
        forall|b: MachineAddress| #[trigger] next_addr(resolve_pl(l, a, m), b) == next_addr(l, b),
        forall|b: MachineAddress| #[trigger] label_addr(resolve_pl(l, a, m), b) == label_addr(
            l,
            b,
        ),
        resolve_pl(l, a, m).instruction is Some <==> l.instruction is Some,
{
    match l.instruction {
        Some(ins) => {
            assert forall|b: MachineAddress| #[trigger] next_addr(resolve_pl(l, a, m), b)
                == next_addr(l, b) by {
                assert(resolve_pl(l, a, m).instruction == Some(resolve_ins(ins, a, m)));
            }
        }
        None => {}
    }
}

proof fn lemma_resolve_preserves_table(
    lines: Seq<ProgramLine>,
    a: MachineAddress,
    b: MachineAddress,
    m: Map<Seq<char>, MachineAddress>,
    acc: Map<Seq<char>, MachineAddress>,
)
    ensures
        table_from(resolve_from(lines, a, m), b, acc) == table_from(lines, b, acc),
    decreases lines.len(),
{
    if lines.len() == 0 {
        assert(resolve_from(lines, a, m) =~= lines);
    } else {
        let l = lines[0];
        let l2 = resolve_pl(l, a, m);
        let r = resolve_from(lines, a, m);
        assert(r[0] == l2);
        assert(r.drop_first() =~= resolve_from(lines.drop_first(), next_addr(l, a), m));
        lemma_resolve_keeps_shape(l, a, m);
        let acc2 = match l.instruction {
            None => acc,
            Some(_) => match l.label {
                Some(lab) => if !acc.contains_key(lab@) {
                    acc.insert(lab@, label_addr(l, b))
                } else {
                    acc
                },
                None => acc,
            },
        };
        lemma_resolve_preserves_table(lines.drop_first(), next_addr(l, a), next_addr(l, b), m, acc2);
    }
}

proof fn lemma_resolve_from_idem(
    lines: Seq<ProgramLine>,
    a: MachineAddress,
    m: Map<Seq<char>, MachineAddress>,
)
    ensures
        resolve_from(resolve_from(lines, a, m), a, m) == resolve_from(lines, a, m),
    decreases lines.len(),
{
    if lines.len() == 0 {
        assert(resolve_from(lines, a, m) =~= lines);
    } else {
        let l = lines[0];
        let l2 = resolve_pl(l, a, m);
        let r = resolve_from(lines, a, m);
        assert(r[0] == l2);
        assert(r.drop_first() =~= resolve_from(lines.drop_first(), next_addr(l, a), m));
        lemma_resolve_keeps_shape(l, a, m);
        match l.instruction {
            Some(ins) => {
                assert(resolve_ins(resolve_ins(ins, a, m), a, m) == resolve_ins(ins, a, m));
            }
            None => {}
        }
        assert(resolve_pl(l2, a, m) =~= l2);
        lemma_resolve_from_idem(lines.drop_first(), next_addr(l, a), m);
        assert(resolve_from(r, a, m) =~= r);
    }
}

/// Law: resolution is idempotent outright. A second resolution pass over the
/// resolver's own output changes nothing, whether or not every symbol was
/// found: references already rewritten stay as they are, and references to
/// names absent from the table stay unresolved.
pub proof fn lemma_resolve_idempotent(lines: Seq<ProgramLine>)
    ensures
        spec_resolve(spec_resolve(lines)) == spec_resolve(lines),
{
    let m = symbol_table_of(lines);
    lemma_resolve_preserves_table(lines, 0, 0, m, Map::empty());
    lemma_resolve_from_idem(lines, 0, m);
}

} // verus!
