//! The register state of the CPU.
use vstd::prelude::*;
use vstd::string::StringSliceAdditionalSpecFns;

verus! {

/// The registers of the CPU at some point of execution.
#[derive(Debug)]
pub struct MachineState {
    pub rax: u64,
    pub rbx: u64,
    pub rcx: u64,
    pub rdx: u64,
    pub r8: u64,
    pub r9: u64,
    pub r10: u64,
    pub r11: u64,
    pub r12: u64,
    pub r13: u64,
    pub r14: u64,
    pub r15: u64,
    pub rdi: u64,
    pub rsi: u64,
    pub rsp: u64,
    pub rbp: u64,
    pub rip: u64,
    pub rflags: u64,
    pub cs: u16,
    pub ss: u16,
    pub ds: u16,
    pub es: u16,
    pub fs: u16,
    pub gs: u16,
    pub cr0: u64,
    pub cr2: u64,
    pub cr3: u64,
    pub cr4: u64,
    pub efer: u64,
}

impl MachineState {
    /// The state with instruction pointer `rip`, stack and frame pointers
    /// `rsp` and `rbp`, and the segment selectors given; every other register
    /// reads as zero.
    pub fn with_registers(rip: u64, rsp: u64, rbp: u64, segments: [u16; 6]) -> (r: Self)
        ensures
            r.rip == rip,
            r.rsp == rsp,
            r.rbp == rbp,
            r.cs == segments[0],
            r.ss == segments[1],
            r.ds == segments[2],
            r.es == segments[3],
            r.fs == segments[4],
            r.gs == segments[5],
            r.rax == 0 && r.rbx == 0 && r.rcx == 0 && r.rdx == 0,
            r.r8 == 0 && r.r9 == 0 && r.r10 == 0 && r.r11 == 0 && r.r12 == 0 && r.r13 == 0 && r.r14 == 0
                && r.r15 == 0,
            r.rdi == 0 && r.rsi == 0 && r.rflags == 0,
            r.cr0 == 0 && r.cr2 == 0 && r.cr3 == 0 && r.cr4 == 0 && r.efer == 0,
    {
        Self {
            rax: 0,
            rbx: 0,
            rcx: 0,
            rdx: 0,
            r8: 0,
            r9: 0,
            r10: 0,
            r11: 0,
            r12: 0,
            r13: 0,
            r14: 0,
            r15: 0,
            rdi: 0,
            rsi: 0,
            rip,
            rsp,
            rbp,
            rflags: 0,
            cs: segments[0],
            ss: segments[1],
            ds: segments[2],
            es: segments[3],
            fs: segments[4],
            gs: segments[5],
            cr0: 0,
            cr2: 0,
            cr3: 0,
            cr4: 0,
            efer: 0,
        }
    }

    /// The state of an interrupted context: the instruction pointer, stack
    /// pointer and stack segment of the interrupt stack frame, with the frame
    /// pointer and the other segment selectors of `self`, the state taken in
    /// the handler; every other register reads as zero.
    pub fn from_stack_frame(self, instruction_pointer: u64, stack_pointer: u64, stack_segment: u16) -> (r: Self)
        ensures
            r.rip == instruction_pointer,
            r.rsp == stack_pointer,
            r.ss == stack_segment,
            r.rbp == self.rbp,
            r.cs == self.cs && r.ds == self.ds && r.es == self.es && r.fs == self.fs && r.gs == self.gs,
            r.rax == 0 && r.rbx == 0 && r.rcx == 0 && r.rdx == 0,
            r.r8 == 0 && r.r9 == 0 && r.r10 == 0 && r.r11 == 0 && r.r12 == 0 && r.r13 == 0 && r.r14 == 0
                && r.r15 == 0,
            r.rdi == 0 && r.rsi == 0 && r.rflags == 0,
            r.cr0 == 0 && r.cr2 == 0 && r.cr3 == 0 && r.cr4 == 0 && r.efer == 0,
    {
        Self::with_registers(
            instruction_pointer,
            stack_pointer,
            self.rbp,
            [self.cs, stack_segment, self.ds, self.es, self.fs, self.gs],
        )
    }
}


/// The upper-case hexadecimal digit of `d`, a value below 16, in ASCII.
pub open spec fn hex_char(d: nat) -> u8 {
    if d < 10 {
        (48 + d) as u8
    } else {
        (55 + d) as u8
    }
}

/// The low `n` hexadecimal digits of `v`, most significant first, in ASCII.
pub open spec fn hex_digits(v: nat, n: nat) -> Seq<u8>
    decreases n,
{
    if n == 0 {
        Seq::empty()
    } else {
        hex_digits(v / 16, (n - 1) as nat).push(hex_char(v % 16))
    }
}

/// Appends the bytes of `s`.
fn push_text(out: &mut Vec<u8>, s: &str)
    ensures
        final(out)@ == old(out)@ + s.spec_bytes(),
{
    let bytes = s.as_bytes();
    let mut i: usize = 0;
    while i < bytes.len()
        invariant
            bytes@ == s.spec_bytes(),
            i <= bytes@.len(),
            out@ == old(out)@ + bytes@.subrange(0, i as int),
        decreases bytes@.len() - i,
    {
        out.push(bytes[i]);
        i = i + 1;
        proof {
            assert(out@ =~= old(out)@ + bytes@.subrange(0, i as int));
        }
    }
    proof {
        assert(bytes@.subrange(0, i as int) =~= bytes@);
    }
}

/// Appends the low `n` hexadecimal digits of `v`.
fn push_hex(out: &mut Vec<u8>, v: u64, n: u64)
    ensures
        final(out)@ == old(out)@ + hex_digits(v as nat, n as nat),
    decreases n,
{
    if n > 0 {
        push_hex(out, v / 16, n - 1);
        let d = v % 16;
        let c: u8 = if d < 10 { 48 + d as u8 } else { 55 + d as u8 };
        out.push(c);
        proof {
            assert(out@ =~= old(out)@ + hex_digits(v as nat, n as nat));
        }
    }
}

/// The register dump of `s`, one line per pair of registers.
pub open spec fn register_text(s: MachineState) -> Seq<u8> {
    "rsp:   0x".spec_bytes() + hex_digits(s.rsp as nat, 16) + "    rbp:   0x".spec_bytes() + hex_digits(s.rbp as nat, 16)
        + "\n".spec_bytes()
    + "rax:   0x".spec_bytes() + hex_digits(s.rax as nat, 16) + "    rbx:   0x".spec_bytes() + hex_digits(s.rbx as nat, 16)
        + "\n".spec_bytes()
    + "rcx:   0x".spec_bytes() + hex_digits(s.rcx as nat, 16) + "    rdx:   0x".spec_bytes() + hex_digits(s.rdx as nat, 16)
        + "\n".spec_bytes()
    + "rdi:   0x".spec_bytes() + hex_digits(s.rdi as nat, 16) + "    rsi:   0x".spec_bytes() + hex_digits(s.rsi as nat, 16)
        + "\n".spec_bytes()
    + "r8:    0x".spec_bytes() + hex_digits(s.r8 as nat, 16) + "    r9:    0x".spec_bytes() + hex_digits(s.r9 as nat, 16)
        + "\n".spec_bytes()
    + "r10:   0x".spec_bytes() + hex_digits(s.r10 as nat, 16) + "    r11:   0x".spec_bytes() + hex_digits(s.r11 as nat, 16)
        + "\n".spec_bytes()
    + "r12:   0x".spec_bytes() + hex_digits(s.r12 as nat, 16) + "    r13:   0x".spec_bytes() + hex_digits(s.r13 as nat, 16)
        + "\n".spec_bytes()
    + "r14:   0x".spec_bytes() + hex_digits(s.r14 as nat, 16) + "    r15:   0x".spec_bytes() + hex_digits(s.r15 as nat, 16)
        + "\n".spec_bytes()
    + "rip:   0x".spec_bytes() + hex_digits(s.rip as nat, 16) + "    rflags:0x".spec_bytes() + hex_digits(s.rflags as nat, 16)
        + "\n".spec_bytes()
    + "cs:    0x".spec_bytes() + hex_digits(s.cs as nat, 4) + "    ss:    0x".spec_bytes() + hex_digits(s.ss as nat, 4)
        + "    ds:    0x".spec_bytes() + hex_digits(s.ds as nat, 4) + "\n".spec_bytes()
    + "es:    0x".spec_bytes() + hex_digits(s.es as nat, 4) + "    fs:    0x".spec_bytes() + hex_digits(s.fs as nat, 4)
        + "    gs:    0x".spec_bytes() + hex_digits(s.gs as nat, 4) + "\n".spec_bytes()
    + "cr0:   0x".spec_bytes() + hex_digits(s.cr0 as nat, 16) + "    cr2:   0x".spec_bytes() + hex_digits(s.cr2 as nat, 16)
        + "\n".spec_bytes()
    + "cr3:   0x".spec_bytes() + hex_digits(s.cr3 as nat, 16) + "    cr4:   0x".spec_bytes() + hex_digits(s.cr4 as nat, 16)
        + "\n".spec_bytes()
    + "efer:  0x".spec_bytes() + hex_digits(s.efer as nat, 16) + "\n".spec_bytes()
}

impl MachineState {
    /// The register dump of the state, as ASCII text: the general purpose
    /// registers, the instruction pointer and flags, the segment selectors and
    /// the control registers, in upper-case hexadecimal.
    pub fn register_dump(&self) -> (r: Vec<u8>)
        ensures
            r@ == register_text(*self),
    {
        let mut out: Vec<u8> = Vec::new();
        push_text(&mut out, "rsp:   0x");
        push_hex(&mut out, self.rsp, 16);
        push_text(&mut out, "    rbp:   0x");
        push_hex(&mut out, self.rbp, 16);
        push_text(&mut out, "\n");
        push_text(&mut out, "rax:   0x");
        push_hex(&mut out, self.rax, 16);
        push_text(&mut out, "    rbx:   0x");
        push_hex(&mut out, self.rbx, 16);
        push_text(&mut out, "\n");
        push_text(&mut out, "rcx:   0x");
        push_hex(&mut out, self.rcx, 16);
        push_text(&mut out, "    rdx:   0x");
        push_hex(&mut out, self.rdx, 16);
        push_text(&mut out, "\n");
        push_text(&mut out, "rdi:   0x");
        push_hex(&mut out, self.rdi, 16);
        push_text(&mut out, "    rsi:   0x");
        push_hex(&mut out, self.rsi, 16);
        push_text(&mut out, "\n");
        push_text(&mut out, "r8:    0x");
        push_hex(&mut out, self.r8, 16);
        push_text(&mut out, "    r9:    0x");
        push_hex(&mut out, self.r9, 16);
        push_text(&mut out, "\n");
        push_text(&mut out, "r10:   0x");
        push_hex(&mut out, self.r10, 16);
        push_text(&mut out, "    r11:   0x");
        push_hex(&mut out, self.r11, 16);
        push_text(&mut out, "\n");
        push_text(&mut out, "r12:   0x");
        push_hex(&mut out, self.r12, 16);
        push_text(&mut out, "    r13:   0x");
        push_hex(&mut out, self.r13, 16);
        push_text(&mut out, "\n");
        push_text(&mut out, "r14:   0x");
        push_hex(&mut out, self.r14, 16);
        push_text(&mut out, "    r15:   0x");
        push_hex(&mut out, self.r15, 16);
        push_text(&mut out, "\n");
        push_text(&mut out, "rip:   0x");
        push_hex(&mut out, self.rip, 16);
        push_text(&mut out, "    rflags:0x");
        push_hex(&mut out, self.rflags, 16);
        push_text(&mut out, "\n");
        push_text(&mut out, "cs:    0x");
        push_hex(&mut out, self.cs as u64, 4);
        push_text(&mut out, "    ss:    0x");
        push_hex(&mut out, self.ss as u64, 4);
        push_text(&mut out, "    ds:    0x");
        push_hex(&mut out, self.ds as u64, 4);
        push_text(&mut out, "\n");
        push_text(&mut out, "es:    0x");
        push_hex(&mut out, self.es as u64, 4);
        push_text(&mut out, "    fs:    0x");
        push_hex(&mut out, self.fs as u64, 4);
        push_text(&mut out, "    gs:    0x");
        push_hex(&mut out, self.gs as u64, 4);
        push_text(&mut out, "\n");
        push_text(&mut out, "cr0:   0x");
        push_hex(&mut out, self.cr0, 16);
        push_text(&mut out, "    cr2:   0x");
        push_hex(&mut out, self.cr2, 16);
        push_text(&mut out, "\n");
        push_text(&mut out, "cr3:   0x");
        push_hex(&mut out, self.cr3, 16);
        push_text(&mut out, "    cr4:   0x");
        push_hex(&mut out, self.cr4, 16);
        push_text(&mut out, "\n");
        push_text(&mut out, "efer:  0x");
        push_hex(&mut out, self.efer, 16);
        push_text(&mut out, "\n");
        out
    }
}

} // verus!
