use crabos::memory::paging::{
    is_entry_address, Entry, EntryFlags, Table, ACCESSED, ADDRESS_LIMIT, ADDRESS_MASK,
    DIRTY, DISABLE_CACHE, ENTRY_COUNT, FLAGS_MASK, GLOBAL, NO_EXECUTE, PAGE_SIZE, PRESENT, USER,
    WRITABLE, WRITE_THROUGH,
};

#[test]
fn fresh_entry_is_not_present() {
    let entry = Entry::new();
    assert!(!entry.is_present());
    assert_eq!(entry.addr(), 0);
    assert_eq!(entry.flags(), EntryFlags::empty());
}

#[test]
fn setting_the_present_flag_makes_the_entry_present() {
    let mut entry = Entry::new();
    entry.set_entry(0x5000, EntryFlags::present());
    assert!(entry.is_present());
    entry.set_entry(0x5000, EntryFlags::writable());
    assert!(!entry.is_present());
}

#[test]
fn set_then_read_gives_address_and_flags_back() {
    let addresses = [0u64, 0x1000, 0x2000, 0xdead_b000, 0x000f_ffff_ffff_f000];
    let flag_sets = [
        EntryFlags::empty(),
        EntryFlags::present(),
        EntryFlags::present() | EntryFlags::writable(),
        EntryFlags::no_execute() | EntryFlags::global() | EntryFlags::user(),
        EntryFlags::all(),
    ];
    for addr in addresses {
        for flags in flag_sets {
            let mut entry = Entry::new();
            entry.set_entry(addr, flags);
            assert_eq!(entry.addr(), addr);
            assert_eq!(entry.flags(), flags);
        }
    }
}

#[test]
fn set_then_read_over_every_single_flag() {
    let singles = [
        EntryFlags::present(),
        EntryFlags::writable(),
        EntryFlags::user(),
        EntryFlags::write_through(),
        EntryFlags::disable_cache(),
        EntryFlags::accessed(),
        EntryFlags::dirty(),
        EntryFlags::page_size(),
        EntryFlags::global(),
        EntryFlags::no_execute(),
    ];
    for flags in singles {
        let mut entry = Entry::new();
        entry.set_entry(0x7000, flags);
        assert_eq!(entry.addr(), 0x7000);
        assert_eq!(entry.flags(), flags);
        assert_eq!(entry.is_present(), flags == EntryFlags::present());
    }
}

#[test]
fn overwriting_replaces_address_and_flags_together() {
    let mut entry = Entry::new();
    entry.set_entry(0xa000, EntryFlags::all());
    entry.set_entry(0xb000, EntryFlags::present());
    assert_eq!(entry.addr(), 0xb000);
    assert_eq!(entry.flags(), EntryFlags::present());
}

#[test]
fn flag_bits_match_the_hardware_layout() {
    assert_eq!(EntryFlags::present().bits(), 1);
    assert_eq!(EntryFlags::writable().bits(), 1 << 1);
    assert_eq!(EntryFlags::user().bits(), 1 << 2);
    assert_eq!(EntryFlags::write_through().bits(), 1 << 3);
    assert_eq!(EntryFlags::disable_cache().bits(), 1 << 4);
    assert_eq!(EntryFlags::accessed().bits(), 1 << 5);
    assert_eq!(EntryFlags::dirty().bits(), 1 << 6);
    assert_eq!(EntryFlags::page_size().bits(), 1 << 7);
    assert_eq!(EntryFlags::global().bits(), 1 << 8);
    assert_eq!(EntryFlags::no_execute().bits(), 1 << 63);
    assert_eq!(PRESENT, 1);
    assert_eq!(WRITABLE, 2);
    assert_eq!(USER, 4);
    assert_eq!(WRITE_THROUGH, 8);
    assert_eq!(DISABLE_CACHE, 16);
    assert_eq!(ACCESSED, 32);
    assert_eq!(DIRTY, 64);
    assert_eq!(PAGE_SIZE, 128);
    assert_eq!(GLOBAL, 256);
    assert_eq!(NO_EXECUTE, 1 << 63);
}

#[test]
fn masks_cover_the_documented_bit_ranges() {
    let mut address_bits = 0u64;
    for bit in 12..52 {
        address_bits |= 1 << bit;
    }
    assert_eq!(ADDRESS_MASK, address_bits);
    let mut flag_bits = 1u64 << 63;
    for bit in 0..9 {
        flag_bits |= 1 << bit;
    }
    assert_eq!(FLAGS_MASK, flag_bits);
    assert_eq!(ADDRESS_MASK & FLAGS_MASK, 0);
    assert_eq!(ADDRESS_LIMIT, 1 << 52);
    assert_eq!(EntryFlags::all().bits(), FLAGS_MASK);
    assert_eq!(EntryFlags::empty().bits(), 0);
}

#[test]
fn from_bits_truncate_drops_unknown_bits() {
    let flags = EntryFlags::from_bits_truncate(0xffff_ffff_ffff_ffff);
    assert_eq!(flags, EntryFlags::all());
    let flags = EntryFlags::from_bits_truncate(0x0000_0000_0000_0e03);
    assert_eq!(flags.bits(), 0x3);
    assert_eq!(flags, EntryFlags::present() | EntryFlags::writable());
    let flags = EntryFlags::from_bits_truncate(0x7ff0_0000_0000_0000);
    assert!(flags.is_empty());
}

#[test]
fn contains_and_union() {
    let both = EntryFlags::present().union(EntryFlags::writable());
    assert_eq!(both.bits(), 3);
    assert!(both.contains(EntryFlags::present()));
    assert!(both.contains(EntryFlags::writable()));
    assert!(both.contains(both));
    assert!(both.contains(EntryFlags::empty()));
    assert!(!both.contains(EntryFlags::user()));
    assert!(!EntryFlags::present().contains(both));
    assert!(EntryFlags::all().contains(both));
    assert!(EntryFlags::empty().is_empty());
    assert!(!both.is_empty());
    assert_eq!(both | EntryFlags::empty(), both);
}

#[test]
fn entry_addresses_are_aligned_and_below_the_limit() {
    assert!(is_entry_address(0));
    assert!(is_entry_address(0x1000));
    assert!(is_entry_address(0x000f_ffff_ffff_f000));
    assert!(!is_entry_address(1));
    assert!(!is_entry_address(0x1001));
    assert!(!is_entry_address(0xfff));
    assert!(!is_entry_address(0x0010_0000_0000_0000));
    assert!(!is_entry_address(0x8000_0000_0000_0000));
    assert!(!is_entry_address(u64::MAX));
}

#[test]
fn entry_address_check_agrees_with_the_mask() {
    let samples = [0u64, 1, 0x800, 0x1000, 0x1800, 0x3000, 0x000f_ffff_ffff_f000, 1 << 52, 1 << 63];
    for addr in samples {
        assert_eq!(is_entry_address(addr), addr & ADDRESS_MASK == addr);
    }
}

#[test]
fn a_table_holds_one_frame_of_entries() {
    assert_eq!(ENTRY_COUNT, 512);
    assert_eq!(ENTRY_COUNT * 8, 4096);
    let table = Table { entries: core::array::from_fn(|_| Entry::new()) };
    assert_eq!(table.entries.len(), 512);
    assert!(table.entries.iter().all(|entry| !entry.is_present()));
}

#[test]
fn a_table_entry_is_overwritten_in_place() {
    let mut table = Table { entries: core::array::from_fn(|_| Entry::new()) };
    table.entries[511].set_entry(0x9000, EntryFlags::present() | EntryFlags::writable());
    assert!(table.entries[511].is_present());
    assert_eq!(table.entries[511].addr(), 0x9000);
    assert!(!table.entries[510].is_present());
}
