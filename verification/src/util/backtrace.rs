//! Register bookkeeping for unwinding the stack.
use crate::util::machine_state::MachineState;
use gimli::{
    BaseAddresses, CfaRule as DwarfCfaRule, EhFrame, EhFrameHdr, LittleEndian, Register as DwarfRegister,
    RegisterRule as DwarfRule, UnwindContext, UnwindSection,
};
use vstd::prelude::*;

verus! {

/// A DWARF register number.
pub type Register = u16;

/// The DWARF number of RBP.
pub const RBP: Register = 6;

/// The DWARF number of RSP.
pub const RSP: Register = 7;

/// The DWARF number of the return address.
pub const RA: Register = 16;

/// A call frame: its program counter.
#[derive(Debug)]
pub struct CallFrame {
    pub pc: u64,
}

/// An error that can occur during unwinding.
#[derive(Debug)]
pub enum UnwinderError {
    UnexpectedRegister(Register),
    UnsupportedCfaRule,
    UnimplementedRegisterRule,
    CfaRuleUnknownRegister(Register),
    NoUnwindInfo,
    NoPcRegister,
    NoReturnAddr,
}

/// The registers of a call frame that unwinding needs.
#[derive(Debug, Default)]
pub struct RegisterSet {
    pub rip: Option<u64>,
    pub rsp: Option<u64>,
    pub rbp: Option<u64>,
    pub ret: Option<u64>,
}

impl RegisterSet {
    /// The value of register `reg`, if it is tracked and known.
    pub fn get(&self, reg: Register) -> (r: Option<u64>)
        ensures
            r == if reg == RSP {
                self.rsp
            } else if reg == RBP {
                self.rbp
            } else if reg == RA {
                self.ret
            } else {
                None
            },
    {
        if reg == RSP {
            self.rsp
        } else if reg == RBP {
            self.rbp
        } else if reg == RA {
            self.ret
        } else {
            None
        }
    }

    /// Sets register `reg` to `val`; fails for a register that is not tracked.
    pub fn set(&mut self, reg: Register, val: u64) -> (r: Result<(), UnwinderError>)
        ensures
            (reg == RSP || reg == RBP || reg == RA) <==> r is Ok,
            r matches Err(e) ==> e == UnwinderError::UnexpectedRegister(reg),
            final(self).rsp == if reg == RSP { Some(val) } else { old(self).rsp },
            final(self).rbp == if reg == RBP { Some(val) } else { old(self).rbp },
            final(self).ret == if reg == RA { Some(val) } else { old(self).ret },
            final(self).rip == old(self).rip,
    {
        if reg == RSP {
            self.rsp = Some(val);
        } else if reg == RBP {
            self.rbp = Some(val);
        } else if reg == RA {
            self.ret = Some(val);
        } else {
            return Err(UnwinderError::UnexpectedRegister(reg));
        }
        Ok(())
    }

    /// Forgets register `reg`.
    pub fn undef(&mut self, reg: Register)
        ensures
            final(self).rsp == if reg == RSP { None } else { old(self).rsp },
            final(self).rbp == if reg == RBP { None } else { old(self).rbp },
            final(self).ret == if reg == RA { None } else { old(self).ret },
            final(self).rip == old(self).rip,
    {
        if reg == RSP {
            self.rsp = None;
        } else if reg == RBP {
            self.rbp = None;
        } else if reg == RA {
            self.ret = None;
        }
    }

    pub fn get_pc(&self) -> (r: Option<u64>)
        ensures
            r == self.rip,
    {
        self.rip
    }

    pub fn set_pc(&mut self, val: u64)
        ensures
            final(self).rip == Some(val),
            final(self).rsp == old(self).rsp,
            final(self).rbp == old(self).rbp,
            final(self).ret == old(self).ret,
    {
        self.rip = Some(val);
    }

    pub fn get_ret(&self) -> (r: Option<u64>)
        ensures
            r == self.ret,
    {
        self.ret
    }

    pub fn set_stack_ptr(&mut self, val: u64)
        ensures
            final(self).rsp == Some(val),
            final(self).rip == old(self).rip,
            final(self).rbp == old(self).rbp,
            final(self).ret == old(self).ret,
    {
        self.rsp = Some(val);
    }

    /// The registers unwinding updates, in order.
    pub fn iter() -> (r: Vec<Register>)
        ensures
            r@ == seq![RSP, RBP, RA],
    {
        vec![RSP, RBP, RA]
    }

    /// The registers of the frame the machine state was taken in; the return
    /// address is not known yet.
    pub fn from_machine_state(machine_state: &MachineState) -> (r: Self)
        ensures
            r.rip == Some(machine_state.rip),
            r.rsp == Some(machine_state.rsp),
            r.rbp == Some(machine_state.rbp),
            r.ret is None,
    {
        Self { rip: Some(machine_state.rip), rsp: Some(machine_state.rsp), rbp: Some(machine_state.rbp), ret: None }
    }
}

/// The address of the caller's frame after an unwinding step: the canonical
/// frame address, which is register `base` plus `offset`.
pub fn cfa_from_rule(regs: &RegisterSet, base: Register, offset: i64) -> (r: Result<u64, UnwinderError>)
    requires
        regs.get_spec(base) matches Some(v) ==> i64::MIN <= (v as i64) + offset <= i64::MAX,
    ensures
        match regs.get_spec(base) {
            Some(v) => r == Ok::<u64, UnwinderError>(((v as i64) + offset) as i64 as u64),
            None => r == Err::<u64, UnwinderError>(UnwinderError::CfaRuleUnknownRegister(base)),
        },
{
    match regs.get(base) {
        Some(v) => Ok((v as i64 + offset) as u64),
        None => Err(UnwinderError::CfaRuleUnknownRegister(base)),
    }
}

impl RegisterSet {
    /// The value of register `reg`, if it is tracked and known.
    pub open spec fn get_spec(&self, reg: Register) -> Option<u64> {
        if reg == RSP {
            self.rsp
        } else if reg == RBP {
            self.rbp
        } else if reg == RA {
            self.ret
        } else {
            None
        }
    }
}

/// The frame reached after an unwinding step: its program counter is one
/// before the return address, and its stack pointer is the canonical frame
/// address.
pub fn finish_step(regs: &mut RegisterSet, cfa: u64) -> (r: Result<CallFrame, UnwinderError>)
    ensures
        match old(regs).ret {
            None => r == Err::<CallFrame, UnwinderError>(UnwinderError::NoReturnAddr) && *final(regs) == *old(regs),
            Some(ret) => if ret == 0 {
                r == Err::<CallFrame, UnwinderError>(UnwinderError::NoReturnAddr) && *final(regs) == *old(regs)
            } else {
                &&& (r matches Ok(f) && f.pc == ret - 1)
                &&& final(regs).rip == Some((ret - 1) as u64)
                &&& final(regs).rsp == Some(cfa)
                &&& final(regs).rbp == old(regs).rbp
                &&& final(regs).ret == old(regs).ret
            },
        },
{
    let ret = match regs.get_ret() {
        Some(ret) => ret,
        None => return Err(UnwinderError::NoReturnAddr),
    };
    if ret == 0 {
        return Err(UnwinderError::NoReturnAddr);
    }
    let pc = ret - 1;
    regs.set_pc(pc);
    regs.set_stack_ptr(cfa);
    Ok(CallFrame { pc })
}


/// How the canonical frame address of the caller is found, as far as the
/// unwinder handles it.
#[derive(Debug, Clone, Copy, PartialEq, Eq, Structural)]
pub enum CfaRule {
    /// The value of `register` plus `offset`.
    RegisterAndOffset { register: Register, offset: i64 },
    /// Any other rule, such as a DWARF expression.
    Unsupported,
}

/// How the caller's value of a register is found.
#[derive(Debug, Clone, Copy, PartialEq, Eq, Structural)]
pub enum RegisterRule {
    /// The register has no known value.
    Undefined,
    /// The register keeps its value.
    SameValue,
    /// The value is stored at the canonical frame address plus the offset.
    Offset(i64),
    /// Any other rule.
    Unimplemented,
}

/// The row of the unwind table for the current program counter: the rule for
/// the canonical frame address and, in the order of [`RegisterSet::iter`], the
/// rules for the registers.
#[derive(Debug)]
pub struct UnwindRow {
    pub cfa: CfaRule,
    pub rules: Vec<RegisterRule>,
}

/// The address `cfa + offset`, where a register stored at `offset` lives.
pub open spec fn rule_address(cfa: u64, offset: i64) -> u64 {
    ((cfa as i64) + offset) as i64 as u64
}

/// The address of a register stored at `offset` from `cfa`.
pub fn stored_register_address(cfa: u64, offset: i64) -> (r: u64)
    requires
        i64::MIN <= (cfa as i64) + offset <= i64::MAX,
    ensures
        r == rule_address(cfa, offset),
{
    (cfa as i64 + offset) as u64
}

/// Whether the unwinder tracks register `reg`.
pub open spec fn is_unwound_register(reg: Register) -> bool {
    reg == RSP || reg == RBP || reg == RA
}

/// `regs` with register `reg` set to `val`.
pub open spec fn spec_set(regs: RegisterSet, reg: Register, val: u64) -> RegisterSet {
    RegisterSet {
        rip: regs.rip,
        rsp: if reg == RSP { Some(val) } else { regs.rsp },
        rbp: if reg == RBP { Some(val) } else { regs.rbp },
        ret: if reg == RA { Some(val) } else { regs.ret },
    }
}

/// `regs` with register `reg` forgotten.
pub open spec fn spec_undef(regs: RegisterSet, reg: Register) -> RegisterSet {
    RegisterSet {
        rip: regs.rip,
        rsp: if reg == RSP { None } else { regs.rsp },
        rbp: if reg == RBP { None } else { regs.rbp },
        ret: if reg == RA { None } else { regs.ret },
    }
}

/// Applies `rule` to register `reg`, where `loaded` is the value stored at the
/// rule's address: the new registers, or the registers at the failure and the
/// error.
pub open spec fn apply_rule(regs: RegisterSet, reg: Register, rule: RegisterRule, loaded: u64) -> Result<
    RegisterSet,
    (RegisterSet, UnwinderError),
> {
    match rule {
        RegisterRule::Undefined => Ok(spec_undef(regs, reg)),
        RegisterRule::SameValue => Ok(regs),
        RegisterRule::Offset(_) => if is_unwound_register(reg) {
            Ok(spec_set(regs, reg, loaded))
        } else {
            Err((regs, UnwinderError::UnexpectedRegister(reg)))
        },
        RegisterRule::Unimplemented => Err((regs, UnwinderError::UnimplementedRegisterRule)),
    }
}

/// Applies the first `n` rules in turn, stopping at the first failure.
pub open spec fn apply_rules(
    regs: RegisterSet,
    order: Seq<Register>,
    rules: Seq<RegisterRule>,
    loaded: Seq<u64>,
    n: int,
) -> Result<RegisterSet, (RegisterSet, UnwinderError)>
    decreases n,
{
    if n <= 0 {
        Ok(regs)
    } else {
        match apply_rules(regs, order, rules, loaded, n - 1) {
            Ok(r) => apply_rule(r, order[n - 1], rules[n - 1], loaded[n - 1]),
            Err(e) => Err(e),
        }
    }
}

/// Once a rule has failed, applying more rules keeps the failure.
proof fn lemma_apply_rules_err(
    regs: RegisterSet,
    order: Seq<Register>,
    rules: Seq<RegisterRule>,
    loaded: Seq<u64>,
    n: int,
    m: int,
)
    requires
        0 <= n <= m,
        apply_rules(regs, order, rules, loaded, n) is Err,
    ensures
        apply_rules(regs, order, rules, loaded, m) == apply_rules(regs, order, rules, loaded, n),
    decreases m - n,
{
    if m > n {
        lemma_apply_rules_err(regs, order, rules, loaded, n, m - 1);
    }
}

/// The result of starting an unwinding step.
#[derive(Debug)]
pub enum UnwindStep {
    /// The frame the walk starts in.
    Frame(CallFrame),
    /// The unwind table row for this program counter is needed to go on.
    NeedRow(u64),
}

/// A virtual unwinder: it walks the call frames without running any
/// destructor, for backtraces. The unwind table, and the memory the frames are
/// stored in, are read by its user.
pub struct VirtualUnwinder {
    pub regs: RegisterSet,
    pub cfa: u64,
    pub is_first: bool,
}

impl VirtualUnwinder {
    /// An unwinder that starts in the frame of `register_set`.
    pub fn new(register_set: RegisterSet) -> (r: Self)
        ensures
            r.regs == register_set,
            r.cfa == 0,
            r.is_first,
    {
        Self { regs: register_set, cfa: 0, is_first: true }
    }

    /// Starts the next step: the frame the walk starts in when this is the
    /// first step, else the program counter whose unwind row is needed.
    pub fn begin_next(&mut self) -> (r: Result<UnwindStep, UnwinderError>)
        ensures
            match old(self).regs.rip {
                None => r == Err::<UnwindStep, UnwinderError>(UnwinderError::NoPcRegister) && *final(self) == *old(self),
                Some(pc) => if old(self).is_first {
                    &&& (r matches Ok(UnwindStep::Frame(f)) && f.pc == pc)
                    &&& final(self).regs == old(self).regs
                    &&& final(self).cfa == old(self).cfa
                    &&& !final(self).is_first
                } else {
                    (r matches Ok(UnwindStep::NeedRow(p)) && p == pc) && *final(self) == *old(self)
                },
            },
    {
        let pc = match self.regs.get_pc() {
            Some(pc) => pc,
            None => return Err(UnwinderError::NoPcRegister),
        };
        if self.is_first {
            self.is_first = false;
            return Ok(UnwindStep::Frame(CallFrame { pc }));
        }
        Ok(UnwindStep::NeedRow(pc))
    }

    /// The canonical frame address that the rule `cfa` gives for the current
    /// frame.
    pub open spec fn cfa_of(&self, cfa: CfaRule) -> Result<u64, UnwinderError> {
        match cfa {
            CfaRule::RegisterAndOffset { register, offset } => match self.regs.get_spec(register) {
                Some(v) => Ok(((v as i64) + offset) as i64 as u64),
                None => Err(UnwinderError::CfaRuleUnknownRegister(register)),
            },
            CfaRule::Unsupported => Err(UnwinderError::UnsupportedCfaRule),
        }
    }

    /// The canonical frame address that `row` gives for the current frame.
    pub open spec fn spec_row_cfa(&self, row: &UnwindRow) -> Result<u64, UnwinderError> {
        self.cfa_of(row.cfa)
    }

    /// The offsets of the rules `cfa` and `rules` add to their frame address
    /// without overflow.
    pub open spec fn rules_in_range(&self, cfa: CfaRule, rules: Seq<RegisterRule>) -> bool {
        &&& (cfa matches CfaRule::RegisterAndOffset { register, offset } ==> (self.regs.get_spec(register) matches Some(
            v,
        ) ==> i64::MIN <= (v as i64) + offset <= i64::MAX))
        &&& (self.cfa_of(cfa) matches Ok(c) ==> forall|i: int|
            0 <= i < rules.len() ==> (#[trigger] rules[i] matches RegisterRule::Offset(o) ==> i64::MIN <= (c as i64)
                + o <= i64::MAX))
    }

    /// The offsets of `row` add to its frame address without overflow.
    pub open spec fn row_in_range(&self, row: &UnwindRow) -> bool {
        self.rules_in_range(row.cfa, row.rules@)
    }

    /// Whether the offsets of `row` add to its frame address without
    /// overflow, as [`Self::row_cfa`] and [`Self::finish_next`] need.
    pub fn row_in_range_check(&self, row: &UnwindRow) -> (r: bool)
        ensures
            r == self.row_in_range(row),
    {
        let cfa: u64 = match row.cfa {
            CfaRule::RegisterAndOffset { register, offset } => match self.regs.get(register) {
                Some(v) => {
                    let sum: i128 = v as i64 as i128 + offset as i128;
                    if sum < -0x8000_0000_0000_0000i128 || sum > 0x7FFF_FFFF_FFFF_FFFFi128 {
                        return false;
                    }
                    sum as i64 as u64
                },
                None => return true,
            },
            CfaRule::Unsupported => return true,
        };
        assert(self.spec_row_cfa(row) == Ok::<u64, UnwinderError>(cfa));
        let mut i: usize = 0;
        while i < row.rules.len()
            invariant
                i <= row.rules@.len(),
                self.spec_row_cfa(row) == Ok::<u64, UnwinderError>(cfa),
                row.cfa matches CfaRule::RegisterAndOffset { register, offset } ==> (self.regs.get_spec(
                    register,
                ) matches Some(v) ==> i64::MIN <= (v as i64) + offset <= i64::MAX),
                forall|j: int|
                    0 <= j < i ==> (#[trigger] row.rules@[j] matches RegisterRule::Offset(o) ==> i64::MIN <= (
                    cfa as i64) + o <= i64::MAX),
            decreases row.rules@.len() - i,
        {
            match row.rules[i] {
                RegisterRule::Offset(o) => {
                    let sum: i128 = cfa as i64 as i128 + o as i128;
                    if sum < -0x8000_0000_0000_0000i128 || sum > 0x7FFF_FFFF_FFFF_FFFFi128 {
                        return false;
                    }
                },
                _ => {},
            }
            i = i + 1;
        }
        true
    }

    /// The canonical frame address that `row` gives for the current frame; its
    /// user reads the stored registers relative to it.
    pub fn row_cfa(&self, row: &UnwindRow) -> (r: Result<u64, UnwinderError>)
        requires
            self.row_in_range(row),
        ensures
            r == self.spec_row_cfa(row),
    {
        match row.cfa {
            CfaRule::RegisterAndOffset { register, offset } => cfa_from_rule(&self.regs, register, offset),
            CfaRule::Unsupported => Err(UnwinderError::UnsupportedCfaRule),
        }
    }

    /// Finishes a step with the unwind row of the current program counter:
    /// `loaded[i]` is the value stored at the address of the `i`-th register
    /// rule where that rule is an offset (any value otherwise). The registers
    /// become those of the caller, whose frame is returned.
    pub fn finish_next(&mut self, row: &UnwindRow, loaded: &[u64]) -> (r: Result<Option<CallFrame>, UnwinderError>)
        requires
            row.rules@.len() == 3,
            loaded@.len() == 3,
            old(self).row_in_range(row),
        ensures
            match old(self).spec_row_cfa(row) {
                Err(e) => r == Err::<Option<CallFrame>, UnwinderError>(e) && *final(self) == *old(self),
                Ok(cfa) => {
                    &&& final(self).cfa == cfa
                    &&& final(self).is_first == old(self).is_first
                    &&& match apply_rules(old(self).regs, seq![RSP, RBP, RA], row.rules@, loaded@, 3) {
                        Err((regs, e)) => r == Err::<Option<CallFrame>, UnwinderError>(e) && final(self).regs == regs,
                        Ok(regs) => match regs.ret {
                            Some(ret) if ret != 0 => {
                                &&& (r matches Ok(Some(f)) && f.pc == ret - 1)
                                &&& final(self).regs == RegisterSet {
                                    rip: Some((ret - 1) as u64),
                                    rsp: Some(cfa),
                                    rbp: regs.rbp,
                                    ret: regs.ret,
                                }
                            },
                            _ => r == Err::<Option<CallFrame>, UnwinderError>(UnwinderError::NoReturnAddr)
                                && final(self).regs == regs,
                        },
                    }
                },
            },
    {
        let cfa = match self.row_cfa(row) {
            Ok(c) => c,
            Err(e) => return Err(e),
        };
        self.cfa = cfa;
        let order = RegisterSet::iter();
        let mut i: usize = 0;
        while i < 3
            invariant
                order@ == seq![RSP, RBP, RA],
                row.rules@.len() == 3,
                loaded@.len() == 3,
                i <= 3,
                self.cfa == cfa,
                old(self).spec_row_cfa(row) == Ok::<u64, UnwinderError>(cfa),
                self.is_first == old(self).is_first,
                apply_rules(old(self).regs, order@, row.rules@, loaded@, i as int) == Ok::<
                    RegisterSet,
                    (RegisterSet, UnwinderError),
                >(self.regs),
            decreases 3 - i,
        {
            let reg = order[i];
            match row.rules[i] {
                RegisterRule::Undefined => self.regs.undef(reg),
                RegisterRule::SameValue => {},
                RegisterRule::Offset(_) => {
                    match self.regs.set(reg, loaded[i]) {
                        Ok(()) => {},
                        Err(e) => {
                            proof {
                                lemma_apply_rules_err(old(self).regs, order@, row.rules@, loaded@, i as int + 1, 3);
                            }
                            return Err(e);
                        },
                    }
                },
                RegisterRule::Unimplemented => {
                    proof {
                        assert(apply_rules(old(self).regs, order@, row.rules@, loaded@, i as int + 1) == Err::<
                            RegisterSet,
                            (RegisterSet, UnwinderError),
                        >((self.regs, UnwinderError::UnimplementedRegisterRule)));
                        lemma_apply_rules_err(old(self).regs, order@, row.rules@, loaded@, i as int + 1, 3);
                    }
                    return Err(UnwinderError::UnimplementedRegisterRule);
                },
            }
            i = i + 1;
        }
        match finish_step(&mut self.regs, self.cfa) {
            Ok(frame) => Ok(Some(frame)),
            Err(e) => Err(e),
        }
    }
}

/// What a step of the walk hands its user.
#[derive(Debug)]
pub enum NextStep {
    /// The frame the walk starts in.
    Frame(CallFrame),
    /// The row for the current program counter and the canonical frame
    /// address it gives: the user reads the values its offset rules name and
    /// finishes the step with [`VirtualUnwinder::finish_next`].
    Load { row: UnwindRow, cfa: u64 },
    /// An offset of the row overflows when added to its frame address.
    RowOutOfRange,
}

impl VirtualUnwinder {
    /// Starts the next step of the walk over the unwind tables `hdr` (the
    /// `.eh_frame_hdr` section, loaded at `hdr_addr`) and `frame` (the
    /// `.eh_frame` section, loaded at `frame_addr`): the frame the walk
    /// starts in when this is the first step, else the row of the current
    /// program counter with its frame address.
    pub fn next_step(&mut self, hdr: &[u8], hdr_addr: u64, frame: &[u8], frame_addr: u64) -> (r: Result<
        NextStep,
        UnwinderError,
    >)
        ensures
            match old(self).regs.rip {
                None => r == Err::<NextStep, UnwinderError>(UnwinderError::NoPcRegister) && *final(self) == *old(self),
                Some(pc) => if old(self).is_first {
                    &&& (r matches Ok(NextStep::Frame(f)) && f.pc == pc)
                    &&& final(self).regs == old(self).regs
                    &&& final(self).cfa == old(self).cfa
                    &&& !final(self).is_first
                } else {
                    &&& *final(self) == *old(self)
                    &&& match eh_row(hdr@, hdr_addr, frame@, frame_addr, pc) {
                        None => r == Err::<NextStep, UnwinderError>(UnwinderError::NoUnwindInfo),
                        Some((cfa_rule, rules)) => {
                            &&& rules.len() == 3
                            &&& if !old(self).rules_in_range(cfa_rule, rules) {
                                r matches Ok(NextStep::RowOutOfRange)
                            } else {
                                match old(self).cfa_of(cfa_rule) {
                                    Err(e) => r == Err::<NextStep, UnwinderError>(e),
                                    Ok(c) => r matches Ok(NextStep::Load { row, cfa }) && cfa == c && row.cfa
                                        == cfa_rule && row.rules@ == rules,
                                }
                            }
                        },
                    }
                },
            },
    {
        let pc = match self.begin_next() {
            Err(e) => return Err(e),
            Ok(UnwindStep::Frame(f)) => return Ok(NextStep::Frame(f)),
            Ok(UnwindStep::NeedRow(pc)) => pc,
        };
        let row = match unwind_row(hdr, hdr_addr, frame, frame_addr, pc) {
            Ok(row) => row,
            Err(e) => return Err(e),
        };
        if !self.row_in_range_check(&row) {
            return Ok(NextStep::RowOutOfRange);
        }
        match self.row_cfa(&row) {
            Ok(cfa) => Ok(NextStep::Load { row, cfa }),
            Err(e) => Err(e),
        }
    }
}

/// The rule for the canonical frame address in the row that gimli finds for
/// `pc` in the unwind tables of an image: the `.eh_frame_hdr` bytes `hdr`
/// loaded at `hdr_addr` and the `.eh_frame` bytes `frame` loaded at
/// `frame_addr`; `None` where gimli finds no row.
pub uninterp spec fn eh_cfa_rule(hdr: Seq<u8>, hdr_addr: u64, frame: Seq<u8>, frame_addr: u64, pc: u64) -> Option<
    CfaRule,
>;

/// The rule for register `reg` in the row that gimli finds for `pc` in the
/// same unwind tables; `None` where gimli finds no row.
pub uninterp spec fn eh_register_rule(
    hdr: Seq<u8>,
    hdr_addr: u64,
    frame: Seq<u8>,
    frame_addr: u64,
    pc: u64,
    reg: Register,
) -> Option<RegisterRule>;

/// The row for `pc` in the unwind tables: the rule for the canonical frame
/// address and the rules for RSP, RBP and the return address, in that
/// order; `None` where there is no row.
pub open spec fn eh_row(hdr: Seq<u8>, hdr_addr: u64, frame: Seq<u8>, frame_addr: u64, pc: u64) -> Option<
    (CfaRule, Seq<RegisterRule>),
> {
    match eh_cfa_rule(hdr, hdr_addr, frame, frame_addr, pc) {
        None => None,
        Some(cfa) => Some(
            (
                cfa,
                seq![RSP, RBP, RA].map_values(
                    |reg: Register| eh_register_rule(hdr, hdr_addr, frame, frame_addr, pc, reg).unwrap(),
                ),
            ),
        ),
    }
}

/// Looks up the row for `pc` with gimli (`EhFrameHdr::parse` on `hdr` with
/// 8-byte addresses, `ParsedEhFrameHdr::table`, then
/// `EhHdrTable::unwind_info_for_address` into `frame`) and converts its
/// `UnwindTableRow::cfa`, a rule other than a register and an offset
/// becoming `Unsupported`. The contract claims that the outcome is a function
/// of the bytes, their addresses and `pc` alone, named [`eh_cfa_rule`].
#[verifier::external_body]
fn cfa_rule_for(hdr: &[u8], hdr_addr: u64, frame: &[u8], frame_addr: u64, pc: u64) -> (r: Option<CfaRule>)
    ensures
        r == eh_cfa_rule(hdr@, hdr_addr, frame@, frame_addr, pc),
{
    let bases = BaseAddresses::default().set_eh_frame_hdr(hdr_addr).set_eh_frame(frame_addr);
    let parsed = EhFrameHdr::new(hdr, LittleEndian).parse(&bases, 8).ok()?;
    let mut ctx = UnwindContext::new();
    let eh_frame = EhFrame::new(frame, LittleEndian);
    let row = parsed.table()?.unwind_info_for_address(&eh_frame, &bases, &mut ctx, pc, EhFrame::cie_from_offset).ok()?;
    match row.cfa() {
        DwarfCfaRule::RegisterAndOffset { register, offset } => {
            Some(CfaRule::RegisterAndOffset { register: register.0, offset: *offset })
        },
        _ => Some(CfaRule::Unsupported),
    }
}

/// Looks up the row for `pc` as [`cfa_rule_for`] does and converts its
/// `UnwindTableRow::register` for `reg`: no rule becomes `Undefined`, and a
/// rule other than undefined, same value or an offset `Unimplemented`. The
/// contract claims that the outcome is a function of the bytes, their
/// addresses, `pc` and `reg` alone, named [`eh_register_rule`], and that
/// there is a rule exactly where there is a rule for the frame address: both
/// come from the same row.
#[verifier::external_body]
fn register_rule_for(hdr: &[u8], hdr_addr: u64, frame: &[u8], frame_addr: u64, pc: u64, reg: Register) -> (r: Option<
    RegisterRule,
>)
    ensures
        r == eh_register_rule(hdr@, hdr_addr, frame@, frame_addr, pc, reg),
        r is Some <==> eh_cfa_rule(hdr@, hdr_addr, frame@, frame_addr, pc) is Some,
{
    let bases = BaseAddresses::default().set_eh_frame_hdr(hdr_addr).set_eh_frame(frame_addr);
    let parsed = EhFrameHdr::new(hdr, LittleEndian).parse(&bases, 8).ok()?;
    let mut ctx = UnwindContext::new();
    let eh_frame = EhFrame::new(frame, LittleEndian);
    let row = parsed.table()?.unwind_info_for_address(&eh_frame, &bases, &mut ctx, pc, EhFrame::cie_from_offset).ok()?;
    match row.register(DwarfRegister(reg)) {
        None | Some(DwarfRule::Undefined) => Some(RegisterRule::Undefined),
        Some(DwarfRule::SameValue) => Some(RegisterRule::SameValue),
        Some(DwarfRule::Offset(o)) => Some(RegisterRule::Offset(o)),
        Some(_) => Some(RegisterRule::Unimplemented),
    }
}

/// The row for `pc` in the unwind tables, looked up with gimli; every
/// failure of the lookup is `NoUnwindInfo`.
fn unwind_row(hdr: &[u8], hdr_addr: u64, frame: &[u8], frame_addr: u64, pc: u64) -> (r: Result<UnwindRow, UnwinderError>)
    ensures
        match r {
            Ok(row) => eh_row(hdr@, hdr_addr, frame@, frame_addr, pc) == Some((row.cfa, row.rules@)),
            Err(e) => e == UnwinderError::NoUnwindInfo && eh_row(hdr@, hdr_addr, frame@, frame_addr, pc) is None,
        },
{
    let cfa = match cfa_rule_for(hdr, hdr_addr, frame, frame_addr, pc) {
        Some(c) => c,
        None => return Err(UnwinderError::NoUnwindInfo),
    };
    let order = RegisterSet::iter();
    let ghost regs = seq![RSP, RBP, RA];
    let mut rules: Vec<RegisterRule> = Vec::new();
    let mut i: usize = 0;
    while i < 3
        invariant
            order@ == regs,
            regs == seq![RSP, RBP, RA],
            i <= 3,
            eh_cfa_rule(hdr@, hdr_addr, frame@, frame_addr, pc) == Some(cfa),
            rules@.len() == i,
            forall|k: int|
                0 <= k < i ==> #[trigger] rules@[k] == eh_register_rule(hdr@, hdr_addr, frame@, frame_addr, pc, regs[k]).unwrap(),
        decreases 3 - i,
    {
        match register_rule_for(hdr, hdr_addr, frame, frame_addr, pc, order[i]) {
            Some(rule) => rules.push(rule),
            None => return Err(UnwinderError::NoUnwindInfo),
        }
        i = i + 1;
    }
    assert(rules@ == regs.map_values(|reg: Register| eh_register_rule(hdr@, hdr_addr, frame@, frame_addr, pc, reg).unwrap()));
    Ok(UnwindRow { cfa, rules })
}

} // verus!
