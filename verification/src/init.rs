//! Boot-time initialization steps.
//!
//! Each step's computing core runs here against parsed inputs; the kernel
//! around it performs the firmware handoff (leaving boot services, mapping
//! device registers) and the logging. Page-table setup and exception
//! vectors are peers of these steps and stay outside the library.

use vstd::prelude::*;

verus! {

use crate::acpi::{AcpiRsdp, Xsdt, hpet_signature};
use crate::allocator::{FirstFitAllocator, MemoryRegion, MemoryRegionKind, init_chain, region_span_ok, regions_disjoint};
use crate::hpet::{Hpet, HpetRegisters, set_global_hpet};
use crate::mutex::Mutex;

/// Pages contributed by the usable regions of a memory map.
pub open spec fn total_usable_pages(regions: Seq<MemoryRegion>) -> int
    decreases regions.len(),
{
    if regions.len() == 0 {
        0
    } else {
        total_usable_pages(regions.drop_last()) + if regions.last().kind is UsableRam {
            regions.last().number_of_pages as int
        } else {
            0
        }
    }
}

/// Every prefix of a memory map contributes at most the whole map's pages.
pub proof fn lemma_prefix_pages(regions: Seq<MemoryRegion>, k: int)
    requires
        0 <= k <= regions.len(),
    ensures
        total_usable_pages(regions.subrange(0, k)) <= total_usable_pages(regions),
    decreases regions.len() - k,
{
    if k == regions.len() {
        assert(regions.subrange(0, k) =~= regions);
    } else {
        lemma_prefix_pages(regions, k + 1);
        assert(regions.subrange(0, k + 1).drop_last() =~= regions.subrange(0, k));
        assert(regions.subrange(0, k + 1).last() == regions[k]);
    }
}

/// First runtime step after the firmware hands over the memory map: seed
/// the allocator from it. In the kernel this directly follows leaving the
/// firmware's boot services, which produces the map.
pub fn init_basic_runtime(allocator: &mut FirstFitAllocator, memory_map: &Vec<MemoryRegion>)
    requires
        old(allocator).wf(),
        !old(allocator).is_initialized(),
        old(allocator).chain().len() == 0,
        forall|i: int|
            0 <= i < memory_map@.len() && (#[trigger] memory_map@[i]).kind is UsableRam
                ==> region_span_ok(memory_map@[i]),
        forall|i: int, j: int|
            #![trigger memory_map@[i], memory_map@[j]]
            0 <= i < j < memory_map@.len() && memory_map@[i].kind is UsableRam
                && memory_map@[j].kind is UsableRam ==> regions_disjoint(
                memory_map@[i],
                memory_map@[j],
            ),
    ensures
        final(allocator).wf(),
        final(allocator).is_initialized(),
        final(allocator).chain() == init_chain(memory_map@),
{
    allocator.init_with_mmap(memory_map);
}

/// Sets up the global timer: reads the HPET description table out of the
/// XSDT, configures the register block the kernel mapped at the table's
/// base address, and installs the result in the process-wide slot. As in
/// the kernel, a missing HPET table, an HPET outside memory space, or an
/// already-installed timer is a protocol violation and is excluded.
pub fn init_hpet(
    hpet_slot: &mut Mutex<Option<Hpet>>,
    acpi: &AcpiRsdp,
    xsdt: &Xsdt,
    registers: HpetRegisters,
)
    requires
        xsdt.wf(),
        exists|i: int|
            0 <= i < xsdt.entries@.len() && (#[trigger] xsdt.entries@[i]).header.signature@
                == hpet_signature(),
        forall|i: int|
            0 <= i < xsdt.entries@.len() && (#[trigger] xsdt.entries@[i]).header.signature@
                == hpet_signature() ==> xsdt.entries@[i].body->Hpet_0.address_space_id == 0,
        registers.wf(),
        registers.counter_clk_period() != 0,
        !old(hpet_slot).is_locked(),
        old(hpet_slot).value() is None,
    ensures
        !final(hpet_slot).is_locked(),
        final(hpet_slot).value() matches Some(h) && h.wf() && h.regs().capabilites_and_id
            == registers.capabilites_and_id && h.regs().main_counter_value == 0 && h.regs().configuration
            == (registers.configuration & !0b11u64) | 0b01u64,
        final(hpet_slot).value() matches Some(h) ==> forall|i: int|
            0 <= i < h.spec_num_of_timers()
                ==> (#[trigger] h.regs().timers@[i]).configuration_and_capabilities
                == crate::hpet::timer_config_stripped(
                registers.timers@[i].configuration_and_capabilities,
            ),
{
    let hpet_table = match acpi.hpet(xsdt) {
        Some(t) => t,
        None => {
            proof {
                assert(false);
            }
            return ;
        },
    };
    let base = match hpet_table.base_address() {
        Ok(b) => b,
        Err(_) => {
            proof {
                // the descriptor found first is the one the precondition
                // places in memory space: any two HPET records would both
                // match, and the first match decides
                assert(hpet_table.address.address_space_id == 0);
            }
            return ;
        },
    };
    // the kernel maps `base` and hands the register block over; here the
    // block arrives already read
    let _ = base;
    let hpet = Hpet::new(registers);
    set_global_hpet(hpet_slot, hpet);
}

/// Surveys the memory map: the total number of usable pages, which the
/// kernel reports at boot. The map's total must fit the counter's width.
pub fn init_allocator(memory_map: &Vec<MemoryRegion>) -> (total_memory_pages: u64)
    requires
        total_usable_pages(memory_map@) <= u64::MAX,
    ensures
        total_memory_pages == total_usable_pages(memory_map@),
{
    let mut total: u64 = 0;
    let mut i: usize = 0;
    while i < memory_map.len()
        invariant
            0 <= i <= memory_map@.len(),
            total == total_usable_pages(memory_map@.subrange(0, i as int)),
            total_usable_pages(memory_map@) <= u64::MAX,
        decreases memory_map@.len() - i,
    {
        let e = memory_map[i];
        proof {
            lemma_prefix_pages(memory_map@, i + 1);
            assert(memory_map@.subrange(0, i + 1).drop_last() =~= memory_map@.subrange(
                0,
                i as int,
            ));
            assert(memory_map@.subrange(0, i + 1).last() == memory_map@[i as int]);
            lemma_total_pages_nonneg(memory_map@.subrange(0, i as int));
        }
        if e.kind == crate::allocator::MemoryRegionKind::UsableRam {
            total = total + e.number_of_pages;
        }
        i = i + 1;
    }
    proof {
        assert(memory_map@.subrange(0, memory_map@.len() as int) =~= memory_map@);
    }
    total
}

/// Whether the paging survey counts a region: conventional RAM and the
/// loader's code and data must all end up identity-mapped.
pub open spec fn region_is_mapped(r: MemoryRegion) -> bool {
    r.kind is UsableRam || r.kind is LoaderCode || r.kind is LoaderData
}

/// The least address past every byte the kernel must identity-map: at
/// least the first 4 GiB, and every conventional or loader region.
pub open spec fn spec_end_of_memory(regions: Seq<MemoryRegion>) -> int
    decreases regions.len(),
{
    if regions.len() == 0 {
        0x1_0000_0000
    } else {
        let prev = spec_end_of_memory(regions.drop_last());
        let last = regions.last();
        if region_is_mapped(last) && last.physical_start + last.number_of_pages * (
        crate::x86::PAGE_SIZE as int) > prev {
            last.physical_start + last.number_of_pages * (crate::x86::PAGE_SIZE as int)
        } else {
            prev
        }
    }
}

/// Surveys the memory map for the paging setup: how far the kernel's
/// identity mapping must reach. Building the page tables and loading them
/// into the CPU is the kernel's, not the library's, business.
pub fn end_of_memory(memory_map: &Vec<MemoryRegion>) -> (r: u64)
    requires
        forall|i: int|
            0 <= i < memory_map@.len() && region_is_mapped(#[trigger] memory_map@[i])
                ==> memory_map@[i].physical_start + memory_map@[i].number_of_pages * (
            crate::x86::PAGE_SIZE as int) <= u64::MAX,
    ensures
        r == spec_end_of_memory(memory_map@),
{
    let mut end_of_mem: u64 = 0x1_0000_0000;
    let mut i: usize = 0;
    while i < memory_map.len()
        invariant
            0 <= i <= memory_map@.len(),
            end_of_mem == spec_end_of_memory(memory_map@.subrange(0, i as int)),
            forall|k: int|
                0 <= k < memory_map@.len() && region_is_mapped(#[trigger] memory_map@[k])
                    ==> memory_map@[k].physical_start + memory_map@[k].number_of_pages * (
                crate::x86::PAGE_SIZE as int) <= u64::MAX,
        decreases memory_map@.len() - i,
    {
        let e = memory_map[i];
        proof {
            assert(memory_map@.subrange(0, i + 1).drop_last() =~= memory_map@.subrange(
                0,
                i as int,
            ));
            assert(memory_map@.subrange(0, i + 1).last() == memory_map@[i as int]);
        }
        match e.kind {
            MemoryRegionKind::UsableRam | MemoryRegionKind::LoaderCode
                | MemoryRegionKind::LoaderData => {
                let region_end = e.physical_start + e.number_of_pages * (crate::x86::PAGE_SIZE
                    as u64);
                if region_end > end_of_mem {
                    end_of_mem = region_end;
                }
            },
            MemoryRegionKind::Reserved => (),
        }
        i = i + 1;
    }
    proof {
        assert(memory_map@.subrange(0, memory_map@.len() as int) =~= memory_map@);
    }
    end_of_mem
}

/// A memory map never contributes a negative page count.
pub proof fn lemma_total_pages_nonneg(regions: Seq<MemoryRegion>)
    ensures
        total_usable_pages(regions) >= 0,
    decreases regions.len(),
{
    if regions.len() > 0 {
        lemma_total_pages_nonneg(regions.drop_last());
    }
}

} // verus!
