//! Pure data-level pieces of the CPU support code: page-table entry bits
//! and the bit-packed descriptor records the kernel loads into the CPU's
//! interrupt and segment tables. The instructions that hand these records
//! to the hardware, and the walks through physical memory, are the
//! kernel's edge and not part of the library.

use vstd::prelude::*;

verus! {

use core::marker::PhantomData;

pub const PAGE_SIZE: usize = 4096;

pub const ATTR_MASK: u64 = 0xFFF;

pub const ATTR_PRESENT: u64 = 1u64 << 0;

pub const ATTR_WRITABLE: u64 = 1u64 << 1;

pub const ATTR_WRITE_THROUGH: u64 = 1u64 << 3;

pub const ATTR_CACHE_DISABLED: u64 = 1u64 << 4;

/// Attribute bit patterns a page-table entry is given.
#[derive(Clone, Copy)]
pub enum PageAttr {
    NotPresent,
    ReadWriteKernel,
    ReadWriteIo,
}

impl PageAttr {
    /// The attribute bits this pattern stands for.
    pub open spec fn spec_bits(&self) -> u64 {
        match *self {
            PageAttr::NotPresent => 0,
            PageAttr::ReadWriteKernel => ATTR_PRESENT | ATTR_WRITABLE,
            PageAttr::ReadWriteIo => ATTR_PRESENT | ATTR_WRITABLE | ATTR_WRITE_THROUGH
                | ATTR_CACHE_DISABLED,
        }
    }

    pub fn bits(&self) -> (r: u64)
        ensures
            r == self.spec_bits(),
    {
        match *self {
            PageAttr::NotPresent => 0,
            PageAttr::ReadWriteKernel => ATTR_PRESENT | ATTR_WRITABLE,
            PageAttr::ReadWriteIo => ATTR_PRESENT | ATTR_WRITABLE | ATTR_WRITE_THROUGH
                | ATTR_CACHE_DISABLED,
        }
    }
}

/// How a virtual address turned out to be mapped.
#[derive(PartialEq, Eq, Structural)]
pub enum TranslationResult {
    PageMapped4K { phys: u64 },
    PageMapped2M { phys: u64 },
    PageMapped1G { phys: u64 },
}

/// One page-table entry at level `LEVEL`, whose index field starts at bit
/// `SHIFT` of a virtual address; `NEXT` is the table one level down. The
/// raw value is what the CPU sees.
pub struct Entry<const LEVEL: usize, const SHIFT: usize, NEXT> {
    pub value: u64,
    pub next_type: PhantomData<NEXT>,
}

impl<const LEVEL: usize, const SHIFT: usize, NEXT> Entry<LEVEL, SHIFT, NEXT> {
    pub fn read_value(&self) -> (r: u64)
        ensures
            r == self.value,
    {
        self.value
    }

    pub fn is_present(&self) -> (r: bool)
        ensures
            r == ((self.value & (1u64 << 0)) != 0),
    {
        (self.read_value() & (1u64 << 0)) != 0
    }

    pub fn is_writable(&self) -> (r: bool)
        ensures
            r == ((self.value & (1u64 << 2)) != 0),
    {
        (self.read_value() & (1u64 << 2)) != 0
    }

    pub fn is_user(&self) -> (r: bool)
        ensures
            r == ((self.value & (1u64 << 2)) != 0),
    {
        (self.read_value() & (1u64 << 2)) != 0
    }
}

pub const BIT_FLAGS_INTGATE: u8 = 0x0E;

pub const BIT_FLAGS_PRESENT: u8 = 0x80;

pub const BIT_FLAGS_DPL0: u8 = 0 << 5;

pub const BIT_FLAGS_DPL3: u8 = 3 << 5;

/// Gate kind and privilege level of an interrupt descriptor.
#[derive(Clone, Copy)]
pub enum IdtAttr {
    NotPresent,
    IntGateDPL0,
    IntGateDPL3,
}

impl IdtAttr {
    pub open spec fn spec_bits(&self) -> u8 {
        match *self {
            IdtAttr::NotPresent => 0,
            IdtAttr::IntGateDPL0 => BIT_FLAGS_INTGATE | BIT_FLAGS_PRESENT | BIT_FLAGS_DPL0,
            IdtAttr::IntGateDPL3 => BIT_FLAGS_INTGATE | BIT_FLAGS_PRESENT | BIT_FLAGS_DPL3,
        }
    }

    pub fn bits(&self) -> (r: u8)
        ensures
            r == self.spec_bits(),
    {
        match *self {
            IdtAttr::NotPresent => 0,
            IdtAttr::IntGateDPL0 => BIT_FLAGS_INTGATE | BIT_FLAGS_PRESENT | BIT_FLAGS_DPL0,
            IdtAttr::IntGateDPL3 => BIT_FLAGS_INTGATE | BIT_FLAGS_PRESENT | BIT_FLAGS_DPL3,
        }
    }
}

/// One gate of the interrupt descriptor table: an interrupt handler's
/// address scattered over three fields, with its segment selector, stack
/// slot and gate attributes.
#[derive(Clone, Copy)]
pub struct IdtDescriptor {
    pub offset_low: u16,
    pub segment_selector: u16,
    pub ist_index: u8,
    pub attr: u8,
    pub offset_mid: u16,
    pub offset_high: u32,
}

/// The descriptor `IdtDescriptor::new` packs.
pub open spec fn spec_idt_descriptor(
    segment_selector: u16,
    ist_index: u8,
    attr: IdtAttr,
    handler_addr: u64,
) -> IdtDescriptor {
    IdtDescriptor {
        offset_low: handler_addr as u16,
        segment_selector,
        ist_index,
        attr: attr.spec_bits(),
        offset_mid: (handler_addr >> 16) as u16,
        offset_high: (handler_addr >> 32) as u32,
    }
}

impl IdtDescriptor {
    /// Packs a handler's address (the kernel takes it from the handler's
    /// entry point) into the descriptor layout.
    pub fn new(segment_selector: u16, ist_index: u8, attr: IdtAttr, handler_addr: u64) -> (r:
        IdtDescriptor)
        ensures
            r == spec_idt_descriptor(segment_selector, ist_index, attr, handler_addr),
            r.offset_low == handler_addr as u16,
            r.offset_mid == (handler_addr >> 16) as u16,
            r.offset_high == (handler_addr >> 32) as u32,
            r.segment_selector == segment_selector,
            r.ist_index == ist_index,
            r.attr == attr.spec_bits(),
    {
        IdtDescriptor {
            offset_low: handler_addr as u16,
            segment_selector,
            ist_index,
            attr: attr.bits(),
            offset_mid: (handler_addr >> 16) as u16,
            offset_high: (handler_addr >> 32) as u32,
        }
    }
}

/// Entry points of the kernel's interrupt handlers, as addresses. The
/// kernel takes them from the assembly stubs that save and restore the
/// interrupted context.
#[derive(Clone, Copy)]
pub struct InterruptEntrypoints {
    pub unimplemented: u64,
    pub breakpoint: u64,
    pub invalid_opcode: u64,
    pub double_fault: u64,
    pub general_protection_fault: u64,
    pub page_fault: u64,
    pub timer: u64,
}

/// The interrupt descriptor table: one gate per vector. In the kernel the
/// table is pinned and handed to the CPU; here it is the table's contents.
pub struct Idt {
    pub entries: Vec<IdtDescriptor>,
}

impl Idt {
    /// Builds the kernel's interrupt table: every vector leads to the
    /// unimplemented-interrupt handler except the wired exceptions — the
    /// breakpoint gate is reachable from user mode, and the double fault
    /// runs on its own interrupt stack.
    pub fn new(segment_selector: u16, handlers: InterruptEntrypoints) -> (r: Idt)
        ensures
            r.entries@.len() == 256,
            forall|i: int|
                0 <= i < 256 && i != 3 && i != 6 && i != 8 && i != 13 && i != 14 && i != 32
                    ==> (#[trigger] r.entries@[i]) == spec_idt_descriptor(
                    segment_selector,
                    1,
                    IdtAttr::IntGateDPL0,
                    handlers.unimplemented,
                ),
            r.entries@[3] == spec_idt_descriptor(
                segment_selector,
                1,
                IdtAttr::IntGateDPL3,
                handlers.breakpoint,
            ),
            r.entries@[6] == spec_idt_descriptor(
                segment_selector,
                1,
                IdtAttr::IntGateDPL0,
                handlers.invalid_opcode,
            ),
            r.entries@[8] == spec_idt_descriptor(
                segment_selector,
                2,
                IdtAttr::IntGateDPL0,
                handlers.double_fault,
            ),
            r.entries@[13] == spec_idt_descriptor(
                segment_selector,
                1,
                IdtAttr::IntGateDPL0,
                handlers.general_protection_fault,
            ),
            r.entries@[14] == spec_idt_descriptor(
                segment_selector,
                1,
                IdtAttr::IntGateDPL0,
                handlers.page_fault,
            ),
            r.entries@[32] == spec_idt_descriptor(
                segment_selector,
                1,
                IdtAttr::IntGateDPL0,
                handlers.timer,
            ),
    {
        let default = IdtDescriptor::new(
            segment_selector,
            1,
            IdtAttr::IntGateDPL0,
            handlers.unimplemented,
        );
        let mut entries: Vec<IdtDescriptor> = Vec::new();
        let mut i: usize = 0;
        while i < 256
            invariant
                0 <= i <= 256,
                entries@.len() == i,
                default == spec_idt_descriptor(
                    segment_selector,
                    1,
                    IdtAttr::IntGateDPL0,
                    handlers.unimplemented,
                ),
                forall|j: int|
                    0 <= j < i ==> (#[trigger] entries@[j]) == spec_idt_descriptor(
                        segment_selector,
                        1,
                        IdtAttr::IntGateDPL0,
                        handlers.unimplemented,
                    ),
            decreases 256 - i,
        {
            entries.push(default);
            i = i + 1;
        }
        *vstd::std_specs::vec::vec_index_mut(&mut entries, 3) = IdtDescriptor::new(
            segment_selector,
            1,
            IdtAttr::IntGateDPL3,
            handlers.breakpoint,
        );
        *vstd::std_specs::vec::vec_index_mut(&mut entries, 6) = IdtDescriptor::new(
            segment_selector,
            1,
            IdtAttr::IntGateDPL0,
            handlers.invalid_opcode,
        );
        *vstd::std_specs::vec::vec_index_mut(&mut entries, 8) = IdtDescriptor::new(
            segment_selector,
            2,
            IdtAttr::IntGateDPL0,
            handlers.double_fault,
        );
        *vstd::std_specs::vec::vec_index_mut(&mut entries, 13) = IdtDescriptor::new(
            segment_selector,
            1,
            IdtAttr::IntGateDPL0,
            handlers.general_protection_fault,
        );
        *vstd::std_specs::vec::vec_index_mut(&mut entries, 14) = IdtDescriptor::new(
            segment_selector,
            1,
            IdtAttr::IntGateDPL0,
            handlers.page_fault,
        );
        *vstd::std_specs::vec::vec_index_mut(&mut entries, 32) = IdtDescriptor::new(
            segment_selector,
            1,
            IdtAttr::IntGateDPL0,
            handlers.timer,
        );
        Idt { entries }
    }
}

pub const BIT_TYPE_CODE: u64 = 0b10u64 << 43;

pub const BIT_TYPE_DATA: u64 = 0b11u64 << 43;

pub const BIT_PRESENT: u64 = 1u64 << 47;

pub const BIT_CS_LONG_MODE: u64 = 1u64 << 53;

pub const BIT_CS_READABLE: u64 = 1u64 << 53;

pub const BIT_DS_WRITABLE: u64 = 1u64 << 41;

pub const KERNEL_CS: u16 = 1u16 << 3;

pub const KERNEL_DS: u16 = 2u16 << 3;

pub const TSS64_SEL: u16 = 3u16 << 3;

/// Access byte patterns of the two kernel segments.
#[derive(Clone, Copy)]
pub enum GdtAttr {
    KernelCode,
    KernelData,
}

impl GdtAttr {
    pub open spec fn spec_bits(&self) -> u64 {
        match *self {
            GdtAttr::KernelCode => BIT_TYPE_CODE | BIT_PRESENT | BIT_CS_LONG_MODE
                | BIT_CS_READABLE,
            GdtAttr::KernelData => BIT_TYPE_DATA | BIT_PRESENT | BIT_DS_WRITABLE,
        }
    }

    pub fn bits(&self) -> (r: u64)
        ensures
            r == self.spec_bits(),
    {
        match *self {
            GdtAttr::KernelCode => BIT_TYPE_CODE | BIT_PRESENT | BIT_CS_LONG_MODE
                | BIT_CS_READABLE,
            GdtAttr::KernelData => BIT_TYPE_DATA | BIT_PRESENT | BIT_DS_WRITABLE,
        }
    }
}

/// One entry of the global descriptor table.
#[derive(Clone, Copy)]
pub struct GdtSegmentDescriptor {
    pub value: u64,
}

impl GdtSegmentDescriptor {
    /// The mandatory all-zero first entry.
    pub fn null() -> (r: Self)
        ensures
            r.value == 0,
    {
        Self { value: 0 }
    }

    pub fn new(attr: GdtAttr) -> (r: Self)
        ensures
            r.value == attr.spec_bits(),
    {
        Self { value: attr.bits() }
    }
}

/// On-disk byte size of the task state segment record the descriptor
/// points at.
pub const TSS64_INNER_SIZE: u16 = 104;

/// The system descriptor for the 64-bit task state segment: its base
/// address scattered over four fields, with the fixed limit and access
/// bits.
#[derive(Clone, Copy)]
pub struct TaskStateSegment64Descriptor {
    pub limit_low: u16,
    pub base_low: u16,
    pub base_mid_low: u8,
    pub attr1: u16,
    pub base_mid_high: u8,
    pub base_high: u32,
}

impl TaskStateSegment64Descriptor {
    /// Packs the segment's base address into the descriptor layout.
    pub fn new(base_addr: u64) -> (r: Self)
        ensures
            r.limit_low == TSS64_INNER_SIZE,
            r.base_low == (base_addr & 0xFFFF) as u16,
            r.base_mid_low == ((base_addr >> 16) & 0xFF) as u8,
            r.attr1 == 0b1000_0000_1000_1001u16,
            r.base_mid_high == ((base_addr >> 24) & 0xFF) as u8,
            r.base_high == ((base_addr >> 32) & 0xFFFFFFFF) as u32,
    {
        Self {
            limit_low: TSS64_INNER_SIZE,
            base_low: (base_addr & 0xFFFF) as u16,
            base_mid_low: ((base_addr >> 16) & 0xFF) as u8,
            attr1: 0b1000_0000_1000_1001u16,
            base_mid_high: ((base_addr >> 24) & 0xFF) as u8,
            base_high: ((base_addr >> 32) & 0xFFFFFFFF) as u32,
        }
    }
}

/// The kernel's global descriptor table: the null entry, the kernel code
/// and data segments, and the task-state-segment descriptor.
pub struct Gdt {
    pub null_segment: GdtSegmentDescriptor,
    pub kernel_code_segment: GdtSegmentDescriptor,
    pub kernel_data_segment: GdtSegmentDescriptor,
    pub task_state_segment: TaskStateSegment64Descriptor,
}

impl Gdt {
    /// The table the kernel loads at boot, for a task state segment at
    /// `tss64_base_addr`.
    pub fn new(tss64_base_addr: u64) -> (r: Gdt)
        ensures
            r.null_segment.value == 0,
            r.kernel_code_segment.value == GdtAttr::KernelCode.spec_bits(),
            r.kernel_data_segment.value == GdtAttr::KernelData.spec_bits(),
            r.task_state_segment.limit_low == TSS64_INNER_SIZE,
            r.task_state_segment.base_low == (tss64_base_addr & 0xFFFF) as u16,
            r.task_state_segment.base_mid_low == ((tss64_base_addr >> 16) & 0xFF) as u8,
            r.task_state_segment.base_mid_high == ((tss64_base_addr >> 24) & 0xFF) as u8,
            r.task_state_segment.base_high == ((tss64_base_addr >> 32) & 0xFFFFFFFF) as u32,
    {
        Gdt {
            null_segment: GdtSegmentDescriptor::null(),
            kernel_code_segment: GdtSegmentDescriptor::new(GdtAttr::KernelCode),
            kernel_data_segment: GdtSegmentDescriptor::new(GdtAttr::KernelData),
            task_state_segment: TaskStateSegment64Descriptor::new(tss64_base_addr),
        }
    }
}

} // verus!
