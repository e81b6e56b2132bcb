//! Exception and hardware-interrupt routing.
//!
//! Builds the descriptor tables that route each vector to its handler.  The
//! two chained interrupt controllers are remapped to vectors 32 and 40 so
//! that device lines never collide with the 32 CPU-reserved exception
//! vectors.  Loading the finished table into the CPU, reading device ports
//! and acknowledging the controllers are hardware actions that the embedding
//! program performs; this module fixes which vector routes where.
use crate::idt::{entry_handler_addr, entry_present, options_stack_idx, EntryOptions, Idt,
    IDT_ENTRIES};
use vstd::prelude::*;

verus! {

/// Vector offset of the primary interrupt controller: the first free vector
/// after the 32 CPU-reserved exception vectors.
pub const PIC_1_OFFSET: u8 = 32;
/// Vector offset of the secondary interrupt controller, one bank of 8 lines
/// further.
pub const PIC_2_OFFSET: u8 = PIC_1_OFFSET + 8;

/// Dedicated-fault-stack slot reserved for the double-fault handler.
pub const DOUBLE_FAULT_IST_IDX: u16 = 0;

/// Hardware interrupt lines, in the order the controllers deliver them
/// starting at `PIC_1_OFFSET`.
#[derive(Debug, Clone, Copy, PartialEq, Eq, Structural)]
pub enum InterruptIndex {
    Timer,
    Keyboard,
    SIC,
    Serial2,
    Serial1,
    ParallelPort23,
    Floppy,
    ParallelPort1,
}

impl InterruptIndex {
    /// The vector number of this line.
    pub fn as_u8(self) -> (r: u8)
        ensures
            r == PIC_1_OFFSET + match self {
                InterruptIndex::Timer => 0int,
                InterruptIndex::Keyboard => 1int,
                InterruptIndex::SIC => 2int,
                InterruptIndex::Serial2 => 3int,
                InterruptIndex::Serial1 => 4int,
                InterruptIndex::ParallelPort23 => 5int,
                InterruptIndex::Floppy => 6int,
                InterruptIndex::ParallelPort1 => 7int,
            },
    {
        match self {
            InterruptIndex::Timer => 32,
            InterruptIndex::Keyboard => 33,
            InterruptIndex::SIC => 34,
            InterruptIndex::Serial2 => 35,
            InterruptIndex::Serial1 => 36,
            InterruptIndex::ParallelPort23 => 37,
            InterruptIndex::Floppy => 38,
            InterruptIndex::ParallelPort1 => 39,
        }
    }

    /// The vector number of this line, as a table index.
    pub fn as_usize(self) -> (r: usize)
        ensures
            r == PIC_1_OFFSET + match self {
                InterruptIndex::Timer => 0int,
                InterruptIndex::Keyboard => 1int,
                InterruptIndex::SIC => 2int,
                InterruptIndex::Serial2 => 3int,
                InterruptIndex::Serial1 => 4int,
                InterruptIndex::ParallelPort23 => 5int,
                InterruptIndex::Floppy => 6int,
                InterruptIndex::ParallelPort1 => 7int,
            },
    {
        self.as_u8() as usize
    }
}

/// The entry addresses of the typed handlers, as the trampolines expose
/// them.  Each trampoline preserves all caller-visible registers, points the
/// handler at the hardware-pushed exception context (popping the error code
/// first where the vector pushes one), and returns with the hardware
/// return-from-interrupt transfer.
#[derive(Debug, Clone, Copy, PartialEq, Eq, Structural)]
pub struct HandlerAddrs {
    pub zero_div: u64,
    pub breakpoint: u64,
    pub invalid_op: u64,
    pub double_fault: u64,
    pub page_fault: u64,
    pub timer: u64,
    pub keyboard: u64,
}

/// The vector is one of those `init` configures.
pub open spec fn configured_vector(v: int) -> bool {
    v == 0 || v == 3 || v == 6 || v == 8 || v == 14 || v == 32 || v == 33
}

/// Builds the kernel's descriptor table: divide-by-zero, breakpoint,
/// invalid-opcode, double-fault, page-fault, timer and keyboard vectors are
/// present and route to the given handlers through the given code-segment
/// selector; the double-fault vector runs on the dedicated fault stack; all
/// other vectors stay non-present.  The embedding program loads the result
/// into the CPU exactly once, after the segment tables.
pub fn init(gdt_sel: u16, handlers: &HandlerAddrs) -> (r: Idt)
    ensures
        r.wf(),
        forall|v: int|
            0 <= v < IDT_ENTRIES && !configured_vector(v) ==> !entry_present(
                #[trigger] r.entries()[v],
            ),
        forall|v: int|
            0 <= v < IDT_ENTRIES && configured_vector(v) ==> entry_present(
                #[trigger] r.entries()[v],
            ) && r.entries()[v].gdt_sel == gdt_sel,
        entry_handler_addr(r.entries()[0]) == handlers.zero_div,
        entry_handler_addr(r.entries()[3]) == handlers.breakpoint,
        entry_handler_addr(r.entries()[6]) == handlers.invalid_op,
        entry_handler_addr(r.entries()[8]) == handlers.double_fault,
        entry_handler_addr(r.entries()[14]) == handlers.page_fault,
        entry_handler_addr(r.entries()[32]) == handlers.timer,
        entry_handler_addr(r.entries()[33]) == handlers.keyboard,
        options_stack_idx(r.entries()[8].options.0) == DOUBLE_FAULT_IST_IDX + 1,
        forall|v: int|
            0 <= v < IDT_ENTRIES && configured_vector(v) && v != 8 ==> options_stack_idx(
                #[trigger] r.entries()[v].options.0,
            ) == 0,
{
    let mut idt = Idt::new();
    let ghost t0 = idt;
    idt.set_handler(0, gdt_sel, handlers.zero_div, None);
    let ghost t1 = idt;
    idt.set_handler(3, gdt_sel, handlers.breakpoint, None);
    let ghost t2 = idt;
    idt.set_handler(6, gdt_sel, handlers.invalid_op, None);
    let ghost t3 = idt;
    let mut double_fault_options = EntryOptions::new();
    double_fault_options.set_stack_idx(DOUBLE_FAULT_IST_IDX + 1);
    idt.set_handler(8, gdt_sel, handlers.double_fault, Some(double_fault_options));
    let ghost t4 = idt;
    idt.set_handler(14, gdt_sel, handlers.page_fault, None);
    let ghost t5 = idt;
    idt.set_handler(InterruptIndex::Timer.as_u8(), gdt_sel, handlers.timer, None);
    let ghost t6 = idt;
    idt.set_handler(InterruptIndex::Keyboard.as_u8(), gdt_sel, handlers.keyboard, None);
    proof {
        assert(0x8f00u16 & 0x8000u16 != 0) by (bit_vector);
        assert(0x8f00u16 & 0x0007u16 == 0) by (bit_vector);
        assert((0x8f00u16 & 0xfff8) | 1u16 == 0x8f01u16) by (bit_vector);
        assert(0x8f01u16 & 0x8000u16 != 0) by (bit_vector);
        assert(0x8f01u16 & 0x0007u16 == 1) by (bit_vector);
        assert(double_fault_options.0 == 0x8f01);
        assert forall|v: int| 0 <= v < IDT_ENTRIES && !configured_vector(v) implies !entry_present(
            #[trigger] idt.entries()[v],
        ) by {
            assert(idt.entries()[v] == t6.entries()[v]);
            assert(t6.entries()[v] == t5.entries()[v]);
            assert(t5.entries()[v] == t4.entries()[v]);
            assert(t4.entries()[v] == t3.entries()[v]);
            assert(t3.entries()[v] == t2.entries()[v]);
            assert(t2.entries()[v] == t1.entries()[v]);
            assert(t1.entries()[v] == t0.entries()[v]);
            assert(!entry_present(t0.entries()[v]));
        }
        assert forall|v: int| 0 <= v < IDT_ENTRIES && configured_vector(v) implies entry_present(
            #[trigger] idt.entries()[v],
        ) && idt.entries()[v].gdt_sel == gdt_sel && (v != 8 ==> options_stack_idx(
            idt.entries()[v].options.0,
        ) == 0) by {
            if v == 0 {
                assert(idt.entries()[0] == t1.entries()[0]);
            } else if v == 3 {
                assert(idt.entries()[3] == t2.entries()[3]);
            } else if v == 6 {
                assert(idt.entries()[6] == t3.entries()[6]);
            } else if v == 8 {
                assert(idt.entries()[8] == t4.entries()[8]);
            } else if v == 14 {
                assert(idt.entries()[14] == t5.entries()[14]);
            } else if v == 32 {
                assert(idt.entries()[32] == t6.entries()[32]);
            }
        }
    }
    idt
}

/// Builds the table used by the self-test environment: only the
/// divide-by-zero vector is present, routed to the given test handler,
/// which reports success and terminates the host with the success status.
pub fn init_test(gdt_sel: u16, test_zero_div_handler: u64) -> (r: Idt)
    ensures
        r.wf(),
        entry_present(r.entries()[0]),
        entry_handler_addr(r.entries()[0]) == test_zero_div_handler,
        r.entries()[0].gdt_sel == gdt_sel,
        forall|v: int| 1 <= v < IDT_ENTRIES ==> !entry_present(#[trigger] r.entries()[v]),
{
    let mut idt = Idt::new();
    let ghost t0 = idt;
    idt.set_handler(0, gdt_sel, test_zero_div_handler, None);
    proof {
        assert(0x8f00u16 & 0x8000u16 != 0) by (bit_vector);
        assert forall|v: int| 1 <= v < IDT_ENTRIES implies !entry_present(
            #[trigger] idt.entries()[v],
        ) by {
            assert(idt.entries()[v] == t0.entries()[v]);
            assert(!entry_present(t0.entries()[v]));
        }
    }
    idt
}

/// The cause class a page-fault error code names.
#[derive(Debug, Clone, Copy, PartialEq, Eq, Structural)]
pub enum PageFaultError {
    ProtectionViolation,
    CausedByWrite,
    UserMode,
    MalformedTable,
    InstructionFetch,
    Unknown,
}

/// The class the hardware error code stands for.
pub open spec fn spec_page_fault_error(err_code: u64) -> PageFaultError {
    if err_code == 0x1 {
        PageFaultError::ProtectionViolation
    } else if err_code == 0x2 {
        PageFaultError::CausedByWrite
    } else if err_code == 0x4 {
        PageFaultError::UserMode
    } else if err_code == 0x8 {
        PageFaultError::MalformedTable
    } else if err_code == 0x10 {
        PageFaultError::InstructionFetch
    } else {
        PageFaultError::Unknown
    }
}

/// Classifies a page-fault error code, as the fault handler logs it before
/// halting.
pub fn page_fault_error(err_code: u64) -> (r: PageFaultError)
    ensures
        r == spec_page_fault_error(err_code),
{
    if err_code == 0x1 {
        PageFaultError::ProtectionViolation
    } else if err_code == 0x2 {
        PageFaultError::CausedByWrite
    } else if err_code == 0x4 {
        PageFaultError::UserMode
    } else if err_code == 0x8 {
        PageFaultError::MalformedTable
    } else if err_code == 0x10 {
        PageFaultError::InstructionFetch
    } else {
        PageFaultError::Unknown
    }
}

impl PageFaultError {
    /// The diagnostic label the fault handler prints for this class.
    pub fn name(self) -> (r: &'static str)
        ensures
            self == PageFaultError::ProtectionViolation ==> r@ == "PROTECTION_VIOLATION"@,
            self == PageFaultError::CausedByWrite ==> r@ == "CAUSED_BY_WRITE"@,
            self == PageFaultError::UserMode ==> r@ == "USER_MODE"@,
            self == PageFaultError::MalformedTable ==> r@ == "MALFORMED_TABLE"@,
            self == PageFaultError::InstructionFetch ==> r@ == "INSTRUCTION_FETCH"@,
            self == PageFaultError::Unknown ==> r@ == "UNKNOWN"@,
    {
        match self {
            PageFaultError::ProtectionViolation => "PROTECTION_VIOLATION",
            PageFaultError::CausedByWrite => "CAUSED_BY_WRITE",
            PageFaultError::UserMode => "USER_MODE",
            PageFaultError::MalformedTable => "MALFORMED_TABLE",
            PageFaultError::InstructionFetch => "INSTRUCTION_FETCH",
            PageFaultError::Unknown => "UNKNOWN",
        }
    }
}

/// The hardware-pushed exception context: the snapshot hardware writes at
/// interrupt entry, handed to every typed handler read-only so that the
/// return path stays intact.
#[derive(Debug, Clone, Copy, PartialEq, Eq, Structural)]
pub struct ExceptionStackFrame {
    pub instr_ptr: u64,
    pub code_seg: u64,
    pub rflags: u64,
    pub stack_ptr: u64,
    pub stack_seg: u64,
}

} // verus!
