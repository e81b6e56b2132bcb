//! Descriptor-table construction and exception routing.
use os_practice::idt::{Entry, EntryOptions, Idt, IDT_ENTRIES};
use os_practice::interrupts::{init, init_test, page_fault_error, HandlerAddrs, InterruptIndex,
    PageFaultError, DOUBLE_FAULT_IST_IDX, PIC_1_OFFSET, PIC_2_OFFSET};
use os_practice::QEMUExitCode;

fn handler_addr(e: &Entry) -> u64 {
    (e.ptr_low as u64) | ((e.ptr_mid as u64) << 16) | ((e.ptr_high as u64) << 32)
}

fn present(e: &Entry) -> bool {
    e.options.0 & 0x8000 != 0
}

#[test]
fn entry_options_bits() {
    let mut o = EntryOptions::minimal();
    assert_eq!(o.0, 0x0e00);
    o.set_present(true);
    assert_eq!(o.0, 0x8e00);
    o.disable_interrupts(true);
    assert_eq!(o.0, 0x8f00);
    o.set_stack_idx(1);
    assert_eq!(o.0, 0x8f01);
    o.set_privilege_level(3);
    assert_eq!(o.0, 0xef01);
    o.set_present(false);
    assert_eq!(o.0, 0x6f01);
    assert_eq!(EntryOptions::new().0, 0x8f00);
}

#[test]
fn entry_splits_handler_address() {
    let e = Entry::new(0x08, 0x1122_3344_5566_7788);
    assert_eq!(e.ptr_low, 0x7788);
    assert_eq!(e.ptr_mid, 0x5566);
    assert_eq!(e.ptr_high, 0x1122_3344);
    assert_eq!(handler_addr(&e), 0x1122_3344_5566_7788);
    assert_eq!(e.gdt_sel, 0x08);
    assert!(present(&e));
    let m = Entry::missing();
    assert!(!present(&m));
    assert_eq!(handler_addr(&m), 0);
}

#[test]
fn fresh_table_has_no_present_vector() {
    let idt = Idt::new();
    for v in 0..IDT_ENTRIES {
        assert!(!present(&idt.entry_at(v)));
    }
}

#[test]
fn interrupt_index_vectors() {
    assert_eq!(PIC_1_OFFSET, 32);
    assert_eq!(PIC_2_OFFSET, 40);
    assert_eq!(InterruptIndex::Timer.as_u8(), 32);
    assert_eq!(InterruptIndex::Keyboard.as_u8(), 33);
    assert_eq!(InterruptIndex::Keyboard.as_usize(), 33);
    assert_eq!(InterruptIndex::ParallelPort1.as_u8(), 39);
}

#[test]
fn kernel_table_routes_configured_vectors() {
    let handlers = HandlerAddrs {
        zero_div: 0x1000,
        breakpoint: 0x2000,
        invalid_op: 0x3000,
        double_fault: 0x4000,
        page_fault: 0x5000,
        timer: 0x6000,
        keyboard: 0x7000,
    };
    let idt = init(0x08, &handlers);
    let configured = [0usize, 3, 6, 8, 14, 32, 33];
    let addrs = [0x1000u64, 0x2000, 0x3000, 0x4000, 0x5000, 0x6000, 0x7000];
    for (v, a) in configured.iter().zip(addrs.iter()) {
        let e = idt.entry_at(*v);
        assert!(present(&e));
        assert_eq!(handler_addr(&e), *a);
        assert_eq!(e.gdt_sel, 0x08);
    }
    for v in 0..IDT_ENTRIES {
        if !configured.contains(&v) {
            assert!(!present(&idt.entry_at(v)));
        }
    }
    // The double fault runs on the dedicated fault stack; nothing else does.
    assert_eq!(idt.entry_at(8).options.0 & 0x7, (DOUBLE_FAULT_IST_IDX + 1) as u16);
    assert_eq!(idt.entry_at(0).options.0 & 0x7, 0);
    assert_eq!(idt.entry_at(32).options.0 & 0x7, 0);
}

#[test]
fn divide_by_zero_routed_to_test_handler() {
    // Vector 0 routed to a test handler that reports success and exits with
    // the success status.
    let test_handler: u64 = 0xcafe_0000;
    let idt = init_test(0x08, test_handler);
    let e = idt.entry_at(0);
    assert!(present(&e));
    assert_eq!(handler_addr(&e), test_handler);
    for v in 1..IDT_ENTRIES {
        assert!(!present(&idt.entry_at(v)));
    }
    assert_eq!(QEMUExitCode::Success.code(), 0x10);
}

#[test]
fn exit_codes() {
    assert_eq!(QEMUExitCode::Success.code(), 0x10);
    assert_eq!(QEMUExitCode::Failure.code(), 0x11);
}

#[test]
fn page_fault_error_classes() {
    assert_eq!(page_fault_error(0x1), PageFaultError::ProtectionViolation);
    assert_eq!(page_fault_error(0x2), PageFaultError::CausedByWrite);
    assert_eq!(page_fault_error(0x4), PageFaultError::UserMode);
    assert_eq!(page_fault_error(0x8), PageFaultError::MalformedTable);
    assert_eq!(page_fault_error(0x10), PageFaultError::InstructionFetch);
    assert_eq!(page_fault_error(0x3), PageFaultError::Unknown);
    assert_eq!(page_fault_error(0x1).name(), "PROTECTION_VIOLATION");
    assert_eq!(page_fault_error(0x20).name(), "UNKNOWN");
}
