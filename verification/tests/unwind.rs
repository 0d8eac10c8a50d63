use hadron_kernel::util::backtrace::{
    cfa_from_rule, finish_step, stored_register_address, CfaRule, NextStep, RegisterRule, RegisterSet, UnwindRow,
    UnwindStep, UnwinderError, VirtualUnwinder, RA, RBP, RSP,
};
use hadron_kernel::util::machine_state::MachineState;

fn regs() -> RegisterSet {
    RegisterSet::from_machine_state(&MachineState::with_registers(0x1000, 0x7000, 0x8000, [0x08, 0x10, 0, 0, 0, 0]))
}

fn row(cfa: CfaRule, rsp: RegisterRule, rbp: RegisterRule, ra: RegisterRule) -> UnwindRow {
    UnwindRow { cfa, rules: vec![rsp, rbp, ra] }
}

#[test]
fn register_set_tracks_three_registers() {
    let mut r = regs();
    assert_eq!(r.get(RSP), Some(0x7000));
    assert_eq!(r.get(RBP), Some(0x8000));
    assert_eq!(r.get(RA), None);
    assert_eq!(r.get(0), None);
    assert!(r.set(RA, 0x42).is_ok());
    assert_eq!(r.get_ret(), Some(0x42));
    assert!(matches!(r.set(3, 1), Err(UnwinderError::UnexpectedRegister(3))));
    r.undef(RBP);
    assert_eq!(r.get(RBP), None);
    assert_eq!(RegisterSet::iter(), vec![RSP, RBP, RA]);
}

#[test]
fn cfa_and_return_address() {
    let r = regs();
    assert_eq!(cfa_from_rule(&r, RSP, 16).unwrap(), 0x7010);
    assert_eq!(cfa_from_rule(&r, RBP, -8).unwrap(), 0x7FF8);
    assert!(matches!(cfa_from_rule(&r, RA, 0), Err(UnwinderError::CfaRuleUnknownRegister(16))));
    assert_eq!(stored_register_address(0x7010, -8), 0x7008);
    let mut r = regs();
    assert!(matches!(finish_step(&mut r, 0x7010), Err(UnwinderError::NoReturnAddr)));
    r.set(RA, 0x2345).unwrap();
    assert_eq!(finish_step(&mut r, 0x7010).unwrap().pc, 0x2344);
    assert_eq!(r.get_pc(), Some(0x2344));
    assert_eq!(r.get(RSP), Some(0x7010));
}

#[test]
fn first_step_gives_the_current_frame() {
    let mut u = VirtualUnwinder::new(regs());
    match u.begin_next().unwrap() {
        UnwindStep::Frame(f) => assert_eq!(f.pc, 0x1000),
        UnwindStep::NeedRow(_) => panic!("the first step needs no row"),
    }
    match u.begin_next().unwrap() {
        UnwindStep::NeedRow(pc) => assert_eq!(pc, 0x1000),
        UnwindStep::Frame(_) => panic!("the second step needs a row"),
    }
}

#[test]
fn step_unwinds_to_the_caller() {
    let mut u = VirtualUnwinder::new(regs());
    u.begin_next().unwrap();
    let r = row(
        CfaRule::RegisterAndOffset { register: RSP, offset: 16 },
        RegisterRule::Undefined,
        RegisterRule::Offset(-16),
        RegisterRule::Offset(-8),
    );
    let cfa = u.row_cfa(&r).unwrap();
    assert_eq!(cfa, 0x7010);
    let loaded = [0, 0x9000, 0x2345];
    let frame = u.finish_next(&r, &loaded).unwrap().unwrap();
    assert_eq!(frame.pc, 0x2344);
    assert_eq!(u.cfa, 0x7010);
    assert_eq!(u.regs.rip, Some(0x2344));
    assert_eq!(u.regs.rsp, Some(0x7010));
    assert_eq!(u.regs.rbp, Some(0x9000));
    assert_eq!(u.regs.ret, Some(0x2345));
}

#[test]
fn step_errors() {
    let same = RegisterRule::SameValue;
    let mut u = VirtualUnwinder::new(regs());
    let r = row(CfaRule::Unsupported, same, same, same);
    assert!(matches!(u.finish_next(&r, &[0, 0, 0]), Err(UnwinderError::UnsupportedCfaRule)));

    let mut u = VirtualUnwinder::new(RegisterSet { rip: Some(1), rsp: Some(0x100), rbp: None, ret: None });
    let r = row(CfaRule::RegisterAndOffset { register: RBP, offset: 0 }, same, same, same);
    assert!(matches!(u.finish_next(&r, &[0, 0, 0]), Err(UnwinderError::CfaRuleUnknownRegister(6))));

    let mut u = VirtualUnwinder::new(regs());
    let r = row(CfaRule::RegisterAndOffset { register: RSP, offset: 8 }, same, RegisterRule::Unimplemented, same);
    assert!(matches!(u.finish_next(&r, &[0, 0, 0]), Err(UnwinderError::UnimplementedRegisterRule)));

    let mut u = VirtualUnwinder::new(regs());
    let r = row(CfaRule::RegisterAndOffset { register: RSP, offset: 8 }, same, same, RegisterRule::Undefined);
    assert!(matches!(u.finish_next(&r, &[0, 0, 0]), Err(UnwinderError::NoReturnAddr)));

    let mut u = VirtualUnwinder::new(RegisterSet::default());
    assert!(matches!(u.begin_next(), Err(UnwinderError::NoPcRegister)));
}

const HDR_ADDR: u64 = 0x10000;
const FRAME_ADDR: u64 = 0x20000;

/// An `.eh_frame_hdr` with one table entry, for code at 0x1000.
fn eh_frame_hdr() -> Vec<u8> {
    let mut v = vec![1u8, 0x03, 0x03, 0x03];
    v.extend_from_slice(&0x20000u32.to_le_bytes());
    v.extend_from_slice(&1u32.to_le_bytes());
    v.extend_from_slice(&0x1000u32.to_le_bytes());
    v.extend_from_slice(&0x20018u32.to_le_bytes());
    v
}

/// An `.eh_frame` whose entry covers 0x1000..0x1100: the frame address is
/// RSP + 8 and the return address is stored at the frame address - 8.
fn eh_frame() -> Vec<u8> {
    let mut v = Vec::new();
    v.extend_from_slice(&20u32.to_le_bytes());
    v.extend_from_slice(&[0, 0, 0, 0, 1, b'z', b'R', 0, 1, 0x78, 16, 1, 0x03, 0x0c, 7, 8, 0x90, 1, 0, 0]);
    v.extend_from_slice(&16u32.to_le_bytes());
    v.extend_from_slice(&28u32.to_le_bytes());
    v.extend_from_slice(&0x1000u32.to_le_bytes());
    v.extend_from_slice(&0x100u32.to_le_bytes());
    v.extend_from_slice(&[0, 0, 0, 0]);
    v.extend_from_slice(&[0, 0, 0, 0]);
    v
}

#[test]
fn next_step_reads_the_row_from_the_unwind_tables() {
    let (hdr, frame) = (eh_frame_hdr(), eh_frame());
    let mut u = VirtualUnwinder::new(regs());
    match u.next_step(&hdr, HDR_ADDR, &frame, FRAME_ADDR) {
        Ok(NextStep::Frame(f)) => assert_eq!(f.pc, 0x1000),
        other => panic!("unexpected {:?}", other),
    }
    match u.next_step(&hdr, HDR_ADDR, &frame, FRAME_ADDR) {
        Ok(NextStep::Load { row, cfa }) => {
            assert_eq!(cfa, 0x7008);
            assert_eq!(row.cfa, CfaRule::RegisterAndOffset { register: RSP, offset: 8 });
            assert_eq!(row.rules, vec![RegisterRule::Undefined, RegisterRule::Undefined, RegisterRule::Offset(-8)]);
            let r = u.finish_next(&row, &[0, 0, 0x2001]).unwrap().unwrap();
            assert_eq!(r.pc, 0x2000);
            assert_eq!(u.regs.rsp, Some(0x7008));
            assert_eq!(u.regs.rbp, None);
        }
        other => panic!("unexpected {:?}", other),
    }
}

#[test]
fn next_step_without_unwind_info() {
    let (hdr, frame) = (eh_frame_hdr(), eh_frame());
    let mut u = VirtualUnwinder::new(regs());
    u.is_first = false;
    u.regs.rip = Some(0x5000);
    assert!(matches!(u.next_step(&hdr, HDR_ADDR, &frame, FRAME_ADDR), Err(UnwinderError::NoUnwindInfo)));
    assert!(matches!(u.next_step(&[], HDR_ADDR, &frame, FRAME_ADDR), Err(UnwinderError::NoUnwindInfo)));
    u.regs.rip = None;
    assert!(matches!(u.next_step(&hdr, HDR_ADDR, &frame, FRAME_ADDR), Err(UnwinderError::NoPcRegister)));
}
