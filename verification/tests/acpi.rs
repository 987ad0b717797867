use wasabi::acpi::{
    AcpiHpetDescriptor, AcpiRsdp, AcpiTableBody, AcpiTableRecord, GenericAddress,
    SystemDescriptionTableHeader, Xsdt, XsdtIterator,
};

fn header(signature: &[u8; 4], length: u32) -> SystemDescriptionTableHeader {
    SystemDescriptionTableHeader { signature: *signature, length }
}

fn sample_xsdt() -> Xsdt {
    let entries = vec![
        AcpiTableRecord { header: header(b"APIC", 100), body: AcpiTableBody::Unrecognized },
        AcpiTableRecord {
            header: header(b"HPET", 56),
            body: AcpiTableBody::Hpet(GenericAddress {
                address_space_id: 0,
                address: 0xFED0_0000,
            }),
        },
        AcpiTableRecord { header: header(b"MCFG", 60), body: AcpiTableBody::Unrecognized },
    ];
    // the header's length covers itself plus one 8-byte pointer per entry
    Xsdt { header: header(b"XSDT", 36 + 8 * 3), entries }
}

fn sample_rsdp() -> AcpiRsdp {
    AcpiRsdp {
        signature: *b"RSD PTR ",
        checksum: 0,
        oem_id: *b"WASABI",
        revision: 2,
        rsdt_address: 0,
        length: 36,
        xsdt_address: 0x7FFE_0000,
    }
}

#[test]
fn num_of_entries_follows_the_length() {
    let xsdt = sample_xsdt();
    assert_eq!(xsdt.header_size(), 36);
    assert_eq!(xsdt.num_of_entries(), 3);
}

#[test]
fn find_table_returns_the_first_match() {
    let xsdt = sample_xsdt();
    let t = xsdt.find_table(b"HPET").expect("table not found");
    assert_eq!(t.header.signature(), b"HPET");
    assert!(xsdt.find_table(b"FACP").is_none());
}

#[test]
fn iterator_walks_every_entry() {
    let xsdt = sample_xsdt();
    let mut it = XsdtIterator::new(&xsdt);
    assert_eq!(it.next().expect("entry missing").header.signature(), b"APIC");
    assert_eq!(it.next().expect("entry missing").header.signature(), b"HPET");
    assert_eq!(it.next().expect("entry missing").header.signature(), b"MCFG");
    assert!(it.next().is_none());
    let mut it2 = xsdt.iter();
    assert_eq!(it2.next().expect("entry missing").header.signature(), b"APIC");
}

#[test]
fn rsdp_finds_the_hpet_descriptor() {
    let xsdt = sample_xsdt();
    let rsdp = sample_rsdp();
    let hpet = rsdp.hpet(&xsdt).expect("HPET descriptor missing");
    assert_eq!(hpet.header.signature(), b"HPET");
    assert_eq!(hpet.base_address(), Ok(0xFED0_0000));
}

#[test]
fn rsdp_reports_a_missing_hpet() {
    let xsdt = Xsdt {
        header: header(b"XSDT", 36 + 8),
        entries: vec![
            AcpiTableRecord { header: header(b"APIC", 100), body: AcpiTableBody::Unrecognized },
        ],
    };
    let rsdp = sample_rsdp();
    assert!(rsdp.hpet(&xsdt).is_none());
}

#[test]
fn addresses_outside_memory_space_are_rejected() {
    let ga = GenericAddress { address_space_id: 1, address: 0x80 };
    assert_eq!(
        ga.address_in_memory_space(),
        Err("ACPI Generic Address is not in memory spasce")
    );
    let ga0 = GenericAddress { address_space_id: 0, address: 0x80 };
    assert_eq!(ga0.address_in_memory_space(), Ok(0x80));
    let desc = AcpiHpetDescriptor { header: header(b"HPET", 56), address: ga };
    assert!(desc.base_address().is_err());
}

#[test]
fn expect_signature_accepts_a_match() {
    let h = header(b"HPET", 56);
    h.expect_signature(b"HPET");
    assert_eq!(h.signature(), b"HPET");
}
