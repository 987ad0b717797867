//! ACPI table lookup.
//!
//! In the kernel these tables are read in place from firmware memory; here
//! each table is a parsed record: its system-description header plus the
//! payload the kernel reads from it (for the HPET table, the generic
//! address of the timer's register block). The XSDT holds the records that
//! its on-disk entry pointers lead to, and its header length is tied to
//! the entry count exactly as in the on-disk layout.

use vstd::prelude::*;

verus! {

/// On-disk byte size of a system description table header.
pub const SDT_HEADER_SIZE: usize = 36;

/// On-disk byte size of one XSDT entry (a 64-bit table pointer).
pub const XSDT_ENTRY_SIZE: usize = 8;

/// The four signature bytes `b"HPET"`.
pub open spec fn hpet_signature() -> Seq<u8> {
    seq![0x48u8, 0x50u8, 0x45u8, 0x54u8]
}

/// Common header of every ACPI system description table: its four
/// signature bytes and the table's total byte length.
#[derive(Clone, Copy)]
pub struct SystemDescriptionTableHeader {
    pub signature: [u8; 4],
    pub length: u32,
}

impl SystemDescriptionTableHeader {
    /// Protocol check that this table carries the expected signature; in
    /// the kernel a mismatch aborts, so it is excluded here.
    pub fn expect_signature(&self, sig: &[u8; 4])
        requires
            self.signature@ == sig@,
    {
    }

    pub fn signature(&self) -> (r: &[u8; 4])
        ensures
            r@ == self.signature@,
    {
        &self.signature
    }
}

/// Compares two table signatures byte for byte.
pub fn signature_eq(a: &[u8; 4], b: &[u8; 4]) -> (r: bool)
    ensures
        r == (a@ == b@),
{
    let r = a[0] == b[0] && a[1] == b[1] && a[2] == b[2] && a[3] == b[3];
    proof {
        if r {
            assert(a@ =~= b@);
        }
    }
    r
}

/// ACPI generic address structure: an address qualified by the space
/// (memory, I/O port, ...) it lives in.
#[derive(Clone, Copy)]
pub struct GenericAddress {
    pub address_space_id: u8,
    pub address: u64,
}

impl GenericAddress {
    /// The address, provided it lies in memory space (space id zero);
    /// addresses in any other space are rejected.
    pub fn address_in_memory_space(&self) -> (r: Result<usize, &'static str>)
        ensures
            (r is Ok) <==> self.address_space_id == 0,
            r matches Ok(a) ==> a == self.address as usize,
            r matches Err(m) ==> m@ == "ACPI Generic Address is not in memory spasce"@,
    {
        if self.address_space_id == 0 {
            Ok(self.address as usize)
        } else {
            Err("ACPI Generic Address is not in memory spasce")
        }
    }
}

/// The payload the kernel reads out of a table, keyed by its signature.
pub enum AcpiTableBody {
    Hpet(GenericAddress),
    Unrecognized,
}

/// One parsed system description table: its header and payload.
pub struct AcpiTableRecord {
    pub header: SystemDescriptionTableHeader,
    pub body: AcpiTableBody,
}

/// The extended system description table: the root listing of all other
/// tables.
pub struct Xsdt {
    pub header: SystemDescriptionTableHeader,
    pub entries: Vec<AcpiTableRecord>,
}

impl Xsdt {
    /// Parsed form of the on-disk layout: the header's length covers the
    /// header itself plus one 64-bit pointer per entry, and a table's
    /// payload corresponds to its signature.
    pub open spec fn wf(&self) -> bool {
        &&& self.header.length as int == SDT_HEADER_SIZE + XSDT_ENTRY_SIZE * self.entries@.len()
        &&& forall|i: int|
            0 <= i < self.entries@.len() ==> ((#[trigger] self.entries@[i]).header.signature@
                == hpet_signature() <==> self.entries@[i].body is Hpet)
    }

    /// Byte size of this table's own header.
    pub fn header_size(&self) -> (r: usize)
        ensures
            r == SDT_HEADER_SIZE,
    {
        SDT_HEADER_SIZE
    }

    /// Number of table entries, computed from the header's length as the
    /// on-disk layout fixes it.
    pub fn num_of_entries(&self) -> (r: usize)
        requires
            self.wf(),
        ensures
            r == self.entries@.len(),
    {
        ((self.header.length as usize) - self.header_size()) / XSDT_ENTRY_SIZE
    }

    /// The table record the entry at `index` leads to.
    pub fn entry(&self, index: usize) -> (r: &AcpiTableRecord)
        requires
            self.wf(),
            index < self.entries@.len(),
        ensures
            r == &self.entries@[index as int],
    {
        &self.entries[index]
    }

    pub fn iter(&self) -> (r: XsdtIterator<'_>)
        ensures
            r.table == self,
            r.index == 0,
    {
        XsdtIterator::new(self)
    }

    /// The first table whose signature matches `sig`, if any.
    pub fn find_table(&self, sig: &[u8; 4]) -> (r: Option<&AcpiTableRecord>)
        requires
            self.wf(),
        ensures
            (r is Some) <==> exists|i: int|
                0 <= i < self.entries@.len() && (#[trigger] self.entries@[i]).header.signature@
                    == sig@,
            r matches Some(t) ==> exists|i: int|
                {
                    &&& 0 <= i < self.entries@.len()
                    &&& t == &self.entries@[i]
                    &&& (#[trigger] self.entries@[i]).header.signature@ == sig@
                    &&& forall|j: int|
                        0 <= j < i ==> (#[trigger] self.entries@[j]).header.signature@ != sig@
                },
    {
        let n = self.entries.len();
        let mut i: usize = 0;
        while i < n
            invariant
                self.wf(),
                n == self.entries@.len(),
                0 <= i <= n,
                forall|j: int|
                    0 <= j < i ==> (#[trigger] self.entries@[j]).header.signature@ != sig@,
            decreases n - i,
        {
            if signature_eq(self.entries[i].header.signature(), sig) {
                return Some(&self.entries[i]);
            }
            i = i + 1;
        }
        None
    }
}

/// Walks the XSDT's table records in order.
pub struct XsdtIterator<'a> {
    pub table: &'a Xsdt,
    pub index: usize,
}

impl<'a> XsdtIterator<'a> {
    pub fn new(table: &'a Xsdt) -> (r: Self)
        ensures
            r.table == table,
            r.index == 0,
    {
        XsdtIterator { table, index: 0 }
    }

    /// The next table record, or `None` once every entry has been walked.
    pub fn next(&mut self) -> (r: Option<&'a AcpiTableRecord>)
        requires
            old(self).table.wf(),
        ensures
            final(self).table == old(self).table,
            old(self).index < old(self).table.entries@.len() ==> {
                &&& final(self).index == old(self).index + 1
                &&& r == Some(&old(self).table.entries@[old(self).index as int])
            },
            old(self).index >= old(self).table.entries@.len() ==> r is None && final(self).index
                == old(self).index,
    {
        if self.index >= self.table.num_of_entries() {
            None
        } else {
            self.index = self.index + 1;
            Some(self.table.entry(self.index - 1))
        }
    }
}

/// The HPET description table: its header plus the generic address of the
/// timer's register block.
#[derive(Clone, Copy)]
pub struct AcpiHpetDescriptor {
    pub header: SystemDescriptionTableHeader,
    pub address: GenericAddress,
}

impl AcpiHpetDescriptor {
    /// Reads a table record as an HPET description table. As in the
    /// kernel, a record with the wrong signature is a protocol violation
    /// and is excluded.
    pub fn new(record: &AcpiTableRecord) -> (r: AcpiHpetDescriptor)
        requires
            record.header.signature@ == hpet_signature(),
            record.body is Hpet,
        ensures
            r.header == record.header,
            record.body matches AcpiTableBody::Hpet(ga) && r.address == ga,
    {
        match record.body {
            AcpiTableBody::Hpet(address) => AcpiHpetDescriptor { header: record.header, address },
            AcpiTableBody::Unrecognized => {
                proof {
                    assert(false);
                }
                AcpiHpetDescriptor {
                    header: record.header,
                    address: GenericAddress { address_space_id: 0, address: 0 },
                }
            },
        }
    }

    /// The physical address of the HPET register block, provided the
    /// table places it in memory space. Mapping and dereferencing that
    /// address is the kernel's, not the library's, business.
    pub fn base_address(&self) -> (r: Result<usize, &'static str>)
        ensures
            (r is Ok) <==> self.address.address_space_id == 0,
            r matches Ok(a) ==> a == self.address.address as usize,
    {
        self.address.address_in_memory_space()
    }
}

/// The root system description pointer, handed over by firmware: the
/// fields of its on-disk layout. Its `xsdt_address` names where the XSDT
/// sits in physical memory; the parsed XSDT itself is passed alongside
/// wherever it is consulted.
#[derive(Clone, Copy)]
pub struct AcpiRsdp {
    pub signature: [u8; 8],
    pub checksum: u8,
    pub oem_id: [u8; 6],
    pub revision: u8,
    pub rsdt_address: u32,
    pub length: u32,
    pub xsdt_address: u64,
}

impl AcpiRsdp {
    /// The HPET description table listed in the XSDT, if there is one.
    pub fn hpet(&self, xsdt: &Xsdt) -> (r: Option<AcpiHpetDescriptor>)
        requires
            xsdt.wf(),
        ensures
            (r is Some) <==> exists|i: int|
                0 <= i < xsdt.entries@.len() && (#[trigger] xsdt.entries@[i]).header.signature@
                    == hpet_signature(),
            r matches Some(d) ==> exists|i: int|
                {
                    &&& 0 <= i < xsdt.entries@.len()
                    &&& (#[trigger] xsdt.entries@[i]).header.signature@ == hpet_signature()
                    &&& d.header == xsdt.entries@[i].header
                    &&& xsdt.entries@[i].body matches AcpiTableBody::Hpet(ga) && d.address == ga
                },
    {
        let sig: [u8; 4] = [0x48u8, 0x50u8, 0x45u8, 0x54u8];
        proof {
            assert(sig@ =~= hpet_signature());
        }
        match xsdt.find_table(&sig) {
            Some(record) => Some(AcpiHpetDescriptor::new(record)),
            None => None,
        }
    }
}

} // verus!
