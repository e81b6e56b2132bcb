//! Interrupt descriptor table model.
//!
//! The table maps each interrupt/exception vector to an entry holding the
//! handler's entry address (split into three hardware fields), the code
//! segment selector, and an options word whose bits carry the present flag,
//! the interrupt gate flag, the privilege level and the dedicated-stack
//! index.  Entries that were never configured stay non-present, so hardware
//! must never dispatch through them.
use vstd::prelude::*;

verus! {

/// Number of vectors the table covers: the 32 CPU-reserved exception vectors
/// followed by 16 routed hardware lines.
pub const IDT_ENTRIES: usize = 48;

/// The 16-bit options word of one descriptor entry.
///
/// Bit layout: bits 0..3 hold the dedicated-stack index, bit 8 the
/// disable-interrupts (interrupt gate) flag, bits 9..12 are fixed ones,
/// bits 13..15 hold the privilege level, bit 15 the present flag.
#[derive(Debug, Clone, Copy, PartialEq, Eq, Structural)]
pub struct EntryOptions(pub u16);

/// The present bit is set in the options word.
pub open spec fn options_present(bits: u16) -> bool {
    bits & 0x8000 != 0
}

/// The dedicated-stack index field of the options word.
pub open spec fn options_stack_idx(bits: u16) -> u16 {
    bits & 0x0007
}

impl EntryOptions {
    /// Options with only the fixed must-be-one bits (bits 9..12) set; this
    /// is the state of an entry that is not present.
    pub fn minimal() -> (r: EntryOptions)
        ensures
            r.0 == 0x0e00,
            !options_present(r.0),
            options_stack_idx(r.0) == 0,
    {
        proof {
            assert(0x0e00u16 & 0x8000u16 == 0) by (bit_vector);
            assert(0x0e00u16 & 0x0007u16 == 0) by (bit_vector);
        }
        EntryOptions(0x0e00)
    }

    /// The preset used for configured entries: present, with hardware
    /// interrupts disabled while the handler runs.
    pub fn new() -> (r: EntryOptions)
        ensures
            r.0 == 0x8f00,
            options_present(r.0),
            options_stack_idx(r.0) == 0,
    {
        let mut options = Self::minimal();
        options.set_present(true);
        options.disable_interrupts(true);
        proof {
            assert(0x0e00u16 | 0x8000u16 == 0x8e00u16) by (bit_vector);
            assert(0x8e00u16 | 0x0100u16 == 0x8f00u16) by (bit_vector);
            assert(0x8f00u16 & 0x8000u16 != 0) by (bit_vector);
            assert(0x8f00u16 & 0x0007u16 == 0) by (bit_vector);
        }
        options
    }

    /// Sets or clears the present bit (bit 15), leaving all other bits.
    pub fn set_present(&mut self, present: bool)
        ensures
            final(self).0 == if present {
                old(self).0 | 0x8000
            } else {
                old(self).0 & 0x7fff
            },
            options_present(final(self).0) == present,
            options_stack_idx(final(self).0) == options_stack_idx(old(self).0),
    {
        let bits = self.0;
        if present {
            proof {
                assert((bits | 0x8000) & 0x8000u16 != 0) by (bit_vector);
                assert((bits | 0x8000) & 0x0007u16 == bits & 0x0007u16) by (bit_vector);
            }
            self.0 = bits | 0x8000;
        } else {
            proof {
                assert((bits & 0x7fff) & 0x8000u16 == 0) by (bit_vector);
                assert((bits & 0x7fff) & 0x0007u16 == bits & 0x0007u16) by (bit_vector);
            }
            self.0 = bits & 0x7fff;
        }
    }

    /// Sets or clears the interrupt gate flag (bit 8), leaving all other
    /// bits.  When set, hardware interrupts stay disabled while the handler
    /// runs.
    pub fn disable_interrupts(&mut self, disable: bool)
        ensures
            final(self).0 == if disable {
                old(self).0 | 0x0100
            } else {
                old(self).0 & 0xfeff
            },
            options_present(final(self).0) == options_present(old(self).0),
            options_stack_idx(final(self).0) == options_stack_idx(old(self).0),
    {
        let bits = self.0;
        if disable {
            proof {
                assert((bits | 0x0100) & 0x8000u16 == bits & 0x8000u16) by (bit_vector);
                assert((bits | 0x0100) & 0x0007u16 == bits & 0x0007u16) by (bit_vector);
            }
            self.0 = bits | 0x0100;
        } else {
            proof {
                assert((bits & 0xfeff) & 0x8000u16 == bits & 0x8000u16) by (bit_vector);
                assert((bits & 0xfeff) & 0x0007u16 == bits & 0x0007u16) by (bit_vector);
            }
            self.0 = bits & 0xfeff;
        }
    }

    /// Writes the privilege level into bits 13..15, leaving all other bits.
    pub fn set_privilege_level(&mut self, dpl: u16)
        requires
            dpl < 4,
        ensures
            final(self).0 == (old(self).0 & 0x9fff) | (dpl << 13),
            options_present(final(self).0) == options_present(old(self).0),
            options_stack_idx(final(self).0) == options_stack_idx(old(self).0),
    {
        let bits = self.0;
        proof {
            assert(((bits & 0x9fff) | (dpl << 13)) & 0x8000u16 == bits & 0x8000u16)
                by (bit_vector)
                requires
                    dpl < 4,
            ;
            assert(((bits & 0x9fff) | (dpl << 13)) & 0x0007u16 == bits & 0x0007u16)
                by (bit_vector)
                requires
                    dpl < 4,
            ;
        }
        self.0 = (bits & 0x9fff) | (dpl << 13);
    }

    /// Writes the dedicated-stack index into bits 0..3, leaving all other
    /// bits.  A non-zero index makes hardware switch to the corresponding
    /// fault stack before pushing the exception context.
    pub fn set_stack_idx(&mut self, idx: u16)
        requires
            idx < 8,
        ensures
            final(self).0 == (old(self).0 & 0xfff8) | idx,
            options_present(final(self).0) == options_present(old(self).0),
            options_stack_idx(final(self).0) == idx,
    {
        let bits = self.0;
        proof {
            assert(((bits & 0xfff8) | idx) & 0x8000u16 == bits & 0x8000u16) by (bit_vector)
                requires
                    idx < 8,
            ;
            assert(((bits & 0xfff8) | idx) & 0x0007u16 == idx) by (bit_vector)
                requires
                    idx < 8,
            ;
        }
        self.0 = (bits & 0xfff8) | idx;
    }
}

/// One descriptor entry.  The handler's 64-bit entry address is split over
/// `ptr_low` (bits 0..16), `ptr_mid` (bits 16..32) and `ptr_high` (bits
/// 32..64), as the hardware layout demands.
#[derive(Debug, Clone, Copy, PartialEq, Eq, Structural)]
pub struct Entry {
    pub ptr_low: u16,
    pub gdt_sel: u16,
    pub options: EntryOptions,
    pub ptr_mid: u16,
    pub ptr_high: u32,
    pub reserved: u32,
}

/// The handler address an entry points to, reassembled from its three
/// fields.
pub open spec fn entry_handler_addr(e: Entry) -> u64 {
    (e.ptr_low as u64) | ((e.ptr_mid as u64) << 16) | ((e.ptr_high as u64) << 32)
}

/// The entry is marked present.
pub open spec fn entry_present(e: Entry) -> bool {
    options_present(e.options.0)
}

impl Entry {
    /// A present entry routing to `handler` through the given code-segment
    /// selector, with the preset options.
    pub fn new(gdt_sel: u16, handler: u64) -> (r: Entry)
        ensures
            r.gdt_sel == gdt_sel,
            r.ptr_low == handler as u16,
            r.ptr_mid == (handler >> 16) as u16,
            r.ptr_high == (handler >> 32) as u32,
            r.options == EntryOptions(0x8f00),
            r.reserved == 0,
            entry_handler_addr(r) == handler,
            entry_present(r),
            options_stack_idx(r.options.0) == 0,
    {
        let ptr = handler;
        proof {
            assert((ptr as u16 as u64) | ((ptr >> 16) as u16 as u64) << 16 | ((ptr
                >> 32) as u32 as u64) << 32 == ptr) by (bit_vector);
        }
        Entry {
            gdt_sel,
            ptr_low: ptr as u16,
            ptr_mid: (ptr >> 16) as u16,
            ptr_high: (ptr >> 32) as u32,
            options: EntryOptions::new(),
            reserved: 0,
        }
    }

    /// The boot-default entry: non-present, null selector, only the fixed
    /// option bits set.  Hardware must never dispatch through it.
    pub fn missing() -> (r: Entry)
        ensures
            r.gdt_sel == 0,
            r.ptr_low == 0,
            r.ptr_mid == 0,
            r.ptr_high == 0,
            r.options == EntryOptions(0x0e00),
            entry_handler_addr(r) == 0,
            !entry_present(r),
    {
        proof {
            assert((0u16 as u64) | ((0u16 as u64) << 16) | ((0u32 as u64) << 32) == 0u64)
                by (bit_vector);
        }
        Entry {
            gdt_sel: 0,
            ptr_low: 0,
            ptr_mid: 0,
            ptr_high: 0,
            options: EntryOptions::minimal(),
            reserved: 0,
        }
    }
}

/// The interrupt descriptor table: one entry per vector.
pub struct Idt {
    entries: Vec<Entry>,
}

impl Idt {
    /// The entries, indexed by vector number.
    pub closed spec fn entries(self) -> Seq<Entry> {
        self.entries@
    }

    /// The table always covers exactly `IDT_ENTRIES` vectors.
    pub closed spec fn wf(self) -> bool {
        self.entries@.len() == IDT_ENTRIES
    }

    /// A fresh table with every vector non-present.
    pub fn new() -> (r: Idt)
        ensures
            r.wf(),
            r.entries().len() == IDT_ENTRIES,
            forall|v: int| 0 <= v < IDT_ENTRIES ==> !entry_present(#[trigger] r.entries()[v]),
    {
        let mut entries: Vec<Entry> = Vec::new();
        let missing = Entry::missing();
        let mut i: usize = 0;
        while i < IDT_ENTRIES
            invariant
                0 <= i <= IDT_ENTRIES,
                entries@.len() == i,
                !entry_present(missing),
                forall|v: int| 0 <= v < i ==> !entry_present(#[trigger] entries@[v]),
            decreases IDT_ENTRIES - i,
        {
            entries.push(missing);
            i = i + 1;
        }
        Idt { entries }
    }

    /// The entry of vector `v`.
    pub fn entry_at(&self, v: usize) -> (r: Entry)
        requires
            self.wf(),
            v < IDT_ENTRIES,
        ensures
            r == self.entries()[v as int],
    {
        self.entries[v]
    }

    /// Configures vector `entry` to route to `handler` through the given
    /// code-segment selector.  With `options` the caller overrides the
    /// preset options word (the double-fault vector passes one carrying its
    /// dedicated-stack index); all other vectors stay untouched.
    pub fn set_handler(&mut self, entry: u8, gdt_sel: u16, handler: u64, options: Option<
        EntryOptions,
    >)
        requires
            old(self).wf(),
            entry < IDT_ENTRIES,
        ensures
            final(self).wf(),
            final(self).entries().len() == old(self).entries().len(),
            old(self).entries().len() == IDT_ENTRIES,
            final(self).entries() =~= old(self).entries().update(
                entry as int,
                final(self).entries()[entry as int],
            ),
            final(self).entries()[entry as int].gdt_sel == gdt_sel,
            entry_handler_addr(final(self).entries()[entry as int]) == handler,
            final(self).entries()[entry as int].options == match options {
                Some(o) => o,
                None => EntryOptions(0x8f00),
            },
            forall|v: int|
                0 <= v < old(self).entries().len() && v != entry ==> final(self).entries()[v]
                    == #[trigger] old(self).entries()[v],
    {
        let mut e = Entry::new(gdt_sel, handler);
        match options {
            Some(o) => {
                e.options = o;
            },
            None => {},
        }
        self.entries.set(entry as usize, e);
    }
}

} // verus!
