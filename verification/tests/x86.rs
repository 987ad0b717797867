use core::marker::PhantomData;
use wasabi::x86::{
    Entry, Gdt, GdtAttr, GdtSegmentDescriptor, Idt, IdtAttr, IdtDescriptor, InterruptEntrypoints,
    PageAttr, TaskStateSegment64Descriptor, BIT_CS_LONG_MODE, BIT_CS_READABLE, BIT_DS_WRITABLE,
    BIT_PRESENT, BIT_TYPE_CODE, BIT_TYPE_DATA, KERNEL_CS, KERNEL_DS, PAGE_SIZE, TSS64_SEL,
};

#[test]
fn entry_bits_are_read_as_the_cpu_wrote_them() {
    let e: Entry<1, 12, ()> = Entry { value: 0b101, next_type: PhantomData };
    assert_eq!(e.read_value(), 0b101);
    assert!(e.is_present());
    assert!(e.is_writable());
    assert!(e.is_user());
    let n: Entry<1, 12, ()> = Entry { value: 0b010, next_type: PhantomData };
    assert!(!n.is_present());
    assert!(!n.is_writable());
}

#[test]
fn page_attr_bit_patterns() {
    assert_eq!(PageAttr::NotPresent.bits(), 0);
    assert_eq!(PageAttr::ReadWriteKernel.bits(), 0b11);
    assert_eq!(PageAttr::ReadWriteIo.bits(), 0b11011);
}

#[test]
fn idt_descriptor_scatters_the_handler_address() {
    let d = IdtDescriptor::new(KERNEL_CS, 1, IdtAttr::IntGateDPL0, 0x1234_5678_9ABC);
    assert_eq!(d.offset_low, 0x9ABC);
    assert_eq!(d.offset_mid, 0x5678);
    assert_eq!(d.offset_high, 0x1234);
    assert_eq!(d.segment_selector, KERNEL_CS);
    assert_eq!(d.ist_index, 1);
    // interrupt gate, present, privilege level zero
    assert_eq!(d.attr, 0x8E);
    let d3 = IdtDescriptor::new(KERNEL_CS, 1, IdtAttr::IntGateDPL3, 0);
    assert_eq!(d3.attr, 0xEE);
}

#[test]
fn gdt_segment_descriptors() {
    assert_eq!(GdtSegmentDescriptor::null().value, 0);
    assert_eq!(
        GdtSegmentDescriptor::new(GdtAttr::KernelCode).value,
        BIT_TYPE_CODE | BIT_PRESENT | BIT_CS_LONG_MODE | BIT_CS_READABLE
    );
    assert_eq!(
        GdtSegmentDescriptor::new(GdtAttr::KernelData).value,
        BIT_TYPE_DATA | BIT_PRESENT | BIT_DS_WRITABLE
    );
}

#[test]
fn tss_descriptor_scatters_the_base_address() {
    let d = TaskStateSegment64Descriptor::new(0x0000_00AB_CDEF_1234);
    assert_eq!(d.limit_low, 104);
    assert_eq!(d.base_low, 0x1234);
    assert_eq!(d.base_mid_low, 0xEF);
    assert_eq!(d.base_mid_high, 0xCD);
    assert_eq!(d.base_high, 0xAB);
    assert_eq!(d.attr1, 0b1000_0000_1000_1001);
}

#[test]
fn idt_wires_the_exception_vectors() {
    let handlers = InterruptEntrypoints {
        unimplemented: 0x1000,
        breakpoint: 0x2000,
        invalid_opcode: 0x3000,
        double_fault: 0x4000,
        general_protection_fault: 0x5000,
        page_fault: 0x6000,
        timer: 0x7000,
    };
    let idt = Idt::new(KERNEL_CS, handlers);
    assert_eq!(idt.entries.len(), 256);
    // the breakpoint gate is reachable from user mode
    assert_eq!(idt.entries[3].offset_low, 0x2000);
    assert_eq!(idt.entries[3].attr, 0xEE);
    assert_eq!(idt.entries[6].offset_low, 0x3000);
    // the double fault handler runs on its own interrupt stack
    assert_eq!(idt.entries[8].offset_low, 0x4000);
    assert_eq!(idt.entries[8].ist_index, 2);
    assert_eq!(idt.entries[13].offset_low, 0x5000);
    assert_eq!(idt.entries[14].offset_low, 0x6000);
    assert_eq!(idt.entries[32].offset_low, 0x7000);
    // every other vector leads to the unimplemented-interrupt handler
    for i in [0usize, 1, 2, 4, 5, 7, 9, 31, 33, 255] {
        assert_eq!(idt.entries[i].offset_low, 0x1000);
        assert_eq!(idt.entries[i].ist_index, 1);
        assert_eq!(idt.entries[i].attr, 0x8E);
        assert_eq!(idt.entries[i].segment_selector, KERNEL_CS);
    }
}

#[test]
fn gdt_layout() {
    let gdt = Gdt::new(0x5000);
    assert_eq!(gdt.null_segment.value, 0);
    assert_eq!(
        gdt.kernel_code_segment.value,
        BIT_TYPE_CODE | BIT_PRESENT | BIT_CS_LONG_MODE | BIT_CS_READABLE
    );
    assert_eq!(gdt.kernel_data_segment.value, BIT_TYPE_DATA | BIT_PRESENT | BIT_DS_WRITABLE);
    assert_eq!(gdt.task_state_segment.base_low, 0x5000);
    // selector layout: code, data, then the task state segment
    assert_eq!(KERNEL_CS, 8);
    assert_eq!(KERNEL_DS, 16);
    assert_eq!(TSS64_SEL, 24);
    assert_eq!(PAGE_SIZE, 4096);
}
