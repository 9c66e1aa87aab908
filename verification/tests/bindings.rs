use snapshot::bindings::{
    kvm_clock_data, kvm_cpuid2, kvm_cpuid_entry2, kvm_debugregs, kvm_dtable, kvm_ioapic_state, kvm_ioapic_state__bindgen_ty_1, kvm_ioapic_state__bindgen_ty_1__bindgen_ty_1, kvm_irqchip, kvm_irqchip__bindgen_ty_1, kvm_lapic_state, kvm_mp_state, kvm_msr_entry, kvm_msrs, kvm_pic_state, kvm_pit_channel_state, kvm_pit_state2, kvm_regs, kvm_segment, kvm_sregs, kvm_vcpu_events, kvm_vcpu_events__bindgen_ty_1, kvm_vcpu_events__bindgen_ty_2, kvm_vcpu_events__bindgen_ty_3, kvm_vcpu_events__bindgen_ty_4, kvm_xcr, kvm_xcrs, kvm_xsave,
};

#[test]
fn bindgen_test_layout_kvm_pic_state() {
    let layout = kvm_pic_state().unwrap();
    assert_eq!(layout.size(), 16usize, "Size of: kvm_pic_state");
    assert_eq!(layout.align(), 1usize, "Alignment of kvm_pic_state");
    assert_eq!(
        layout.offset_of("last_irr"),
        Some(0usize),
        "Offset of field: kvm_pic_state::last_irr"
    );
    assert_eq!(
        layout.offset_of("irr"),
        Some(1usize),
        "Offset of field: kvm_pic_state::irr"
    );
    assert_eq!(
        layout.offset_of("imr"),
        Some(2usize),
        "Offset of field: kvm_pic_state::imr"
    );
    assert_eq!(
        layout.offset_of("isr"),
        Some(3usize),
        "Offset of field: kvm_pic_state::isr"
    );
    assert_eq!(
        layout.offset_of("priority_add"),
        Some(4usize),
        "Offset of field: kvm_pic_state::priority_add"
    );
    assert_eq!(
        layout.offset_of("irq_base"),
        Some(5usize),
        "Offset of field: kvm_pic_state::irq_base"
    );
    assert_eq!(
        layout.offset_of("read_reg_select"),
        Some(6usize),
        "Offset of field: kvm_pic_state::read_reg_select"
    );
    assert_eq!(
        layout.offset_of("poll"),
        Some(7usize),
        "Offset of field: kvm_pic_state::poll"
    );
    assert_eq!(
        layout.offset_of("special_mask"),
        Some(8usize),
        "Offset of field: kvm_pic_state::special_mask"
    );
    assert_eq!(
        layout.offset_of("init_state"),
        Some(9usize),
        "Offset of field: kvm_pic_state::init_state"
    );
    assert_eq!(
        layout.offset_of("auto_eoi"),
        Some(10usize),
        "Offset of field: kvm_pic_state::auto_eoi"
    );
    assert_eq!(
        layout.offset_of("rotate_on_auto_eoi"),
        Some(11usize),
        "Offset of field: kvm_pic_state::rotate_on_auto_eoi"
    );
    assert_eq!(
        layout.offset_of("special_fully_nested_mode"),
        Some(12usize),
        "Offset of field: kvm_pic_state::special_fully_nested_mode"
    );
    assert_eq!(
        layout.offset_of("init4"),
        Some(13usize),
        "Offset of field: kvm_pic_state::init4"
    );
    assert_eq!(
        layout.offset_of("elcr"),
        Some(14usize),
        "Offset of field: kvm_pic_state::elcr"
    );
    assert_eq!(
        layout.offset_of("elcr_mask"),
        Some(15usize),
        "Offset of field: kvm_pic_state::elcr_mask"
    );
}

#[test]
fn bindgen_test_layout_kvm_ioapic_state__bindgen_ty_1__bindgen_ty_1() {
    let layout = kvm_ioapic_state__bindgen_ty_1__bindgen_ty_1().unwrap();
    assert_eq!(layout.size(), 8usize, "Size of: kvm_ioapic_state__bindgen_ty_1__bindgen_ty_1");
    assert_eq!(layout.align(), 1usize, "Alignment of kvm_ioapic_state__bindgen_ty_1__bindgen_ty_1");
    assert_eq!(
        layout.offset_of("vector"),
        Some(0usize),
        "Offset of field: kvm_ioapic_state__bindgen_ty_1__bindgen_ty_1::vector"
    );
    assert_eq!(
        layout.offset_of("reserved"),
        Some(3usize),
        "Offset of field: kvm_ioapic_state__bindgen_ty_1__bindgen_ty_1::reserved"
    );
    assert_eq!(
        layout.offset_of("dest_id"),
        Some(7usize),
        "Offset of field: kvm_ioapic_state__bindgen_ty_1__bindgen_ty_1::dest_id"
    );
}

#[test]
fn bindgen_test_layout_kvm_ioapic_state__bindgen_ty_1() {
    let layout = kvm_ioapic_state__bindgen_ty_1().unwrap();
    assert_eq!(layout.size(), 8usize, "Size of: kvm_ioapic_state__bindgen_ty_1");
    assert_eq!(layout.align(), 8usize, "Alignment of kvm_ioapic_state__bindgen_ty_1");
    assert_eq!(
        layout.offset_of("bits"),
        Some(0usize),
        "Offset of field: kvm_ioapic_state__bindgen_ty_1::bits"
    );
    assert_eq!(
        layout.offset_of("fields"),
        Some(0usize),
        "Offset of field: kvm_ioapic_state__bindgen_ty_1::fields"
    );
}

#[test]
fn bindgen_test_layout_kvm_ioapic_state() {
    let layout = kvm_ioapic_state().unwrap();
    assert_eq!(layout.size(), 216usize, "Size of: kvm_ioapic_state");
    assert_eq!(layout.align(), 8usize, "Alignment of kvm_ioapic_state");
    assert_eq!(
        layout.offset_of("base_address"),
        Some(0usize),
        "Offset of field: kvm_ioapic_state::base_address"
    );
    assert_eq!(
        layout.offset_of("ioregsel"),
        Some(8usize),
        "Offset of field: kvm_ioapic_state::ioregsel"
    );
    assert_eq!(
        layout.offset_of("id"),
        Some(12usize),
        "Offset of field: kvm_ioapic_state::id"
    );
    assert_eq!(
        layout.offset_of("irr"),
        Some(16usize),
        "Offset of field: kvm_ioapic_state::irr"
    );
    assert_eq!(
        layout.offset_of("pad"),
        Some(20usize),
        "Offset of field: kvm_ioapic_state::pad"
    );
    assert_eq!(
        layout.offset_of("redirtbl"),
        Some(24usize),
        "Offset of field: kvm_ioapic_state::redirtbl"
    );
}

#[test]
fn bindgen_test_layout_kvm_regs() {
    let layout = kvm_regs().unwrap();
    assert_eq!(layout.size(), 144usize, "Size of: kvm_regs");
    assert_eq!(layout.align(), 8usize, "Alignment of kvm_regs");
    assert_eq!(
        layout.offset_of("rax"),
        Some(0usize),
        "Offset of field: kvm_regs::rax"
    );
    assert_eq!(
        layout.offset_of("rbx"),
        Some(8usize),
        "Offset of field: kvm_regs::rbx"
    );
    assert_eq!(
        layout.offset_of("rcx"),
        Some(16usize),
        "Offset of field: kvm_regs::rcx"
    );
    assert_eq!(
        layout.offset_of("rdx"),
        Some(24usize),
        "Offset of field: kvm_regs::rdx"
    );
    assert_eq!(
        layout.offset_of("rsi"),
        Some(32usize),
        "Offset of field: kvm_regs::rsi"
    );
    assert_eq!(
        layout.offset_of("rdi"),
        Some(40usize),
        "Offset of field: kvm_regs::rdi"
    );
    assert_eq!(
        layout.offset_of("rsp"),
        Some(48usize),
        "Offset of field: kvm_regs::rsp"
    );
    assert_eq!(
        layout.offset_of("rbp"),
        Some(56usize),
        "Offset of field: kvm_regs::rbp"
    );
    assert_eq!(
        layout.offset_of("r8"),
        Some(64usize),
        "Offset of field: kvm_regs::r8"
    );
    assert_eq!(
        layout.offset_of("r9"),
        Some(72usize),
        "Offset of field: kvm_regs::r9"
    );
    assert_eq!(
        layout.offset_of("r10"),
        Some(80usize),
        "Offset of field: kvm_regs::r10"
    );
    assert_eq!(
        layout.offset_of("r11"),
        Some(88usize),
        "Offset of field: kvm_regs::r11"
    );
    assert_eq!(
        layout.offset_of("r12"),
        Some(96usize),
        "Offset of field: kvm_regs::r12"
    );
    assert_eq!(
        layout.offset_of("r13"),
        Some(104usize),
        "Offset of field: kvm_regs::r13"
    );
    assert_eq!(
        layout.offset_of("r14"),
        Some(112usize),
        "Offset of field: kvm_regs::r14"
    );
    assert_eq!(
        layout.offset_of("r15"),
        Some(120usize),
        "Offset of field: kvm_regs::r15"
    );
    assert_eq!(
        layout.offset_of("rip"),
        Some(128usize),
        "Offset of field: kvm_regs::rip"
    );
    assert_eq!(
        layout.offset_of("rflags"),
        Some(136usize),
        "Offset of field: kvm_regs::rflags"
    );
}

#[test]
fn bindgen_test_layout_kvm_lapic_state() {
    let layout = kvm_lapic_state().unwrap();
    assert_eq!(layout.size(), 1024usize, "Size of: kvm_lapic_state");
    assert_eq!(layout.align(), 1usize, "Alignment of kvm_lapic_state");
    assert_eq!(
        layout.offset_of("regs"),
        Some(0usize),
        "Offset of field: kvm_lapic_state::regs"
    );
}

#[test]
fn bindgen_test_layout_kvm_segment() {
    let layout = kvm_segment().unwrap();
    assert_eq!(layout.size(), 24usize, "Size of: kvm_segment");
    assert_eq!(layout.align(), 8usize, "Alignment of kvm_segment");
    assert_eq!(
        layout.offset_of("base"),
        Some(0usize),
        "Offset of field: kvm_segment::base"
    );
    assert_eq!(
        layout.offset_of("limit"),
        Some(8usize),
        "Offset of field: kvm_segment::limit"
    );
    assert_eq!(
        layout.offset_of("selector"),
        Some(12usize),
        "Offset of field: kvm_segment::selector"
    );
    assert_eq!(
        layout.offset_of("type_"),
        Some(14usize),
        "Offset of field: kvm_segment::type_"
    );
    assert_eq!(
        layout.offset_of("present"),
        Some(15usize),
        "Offset of field: kvm_segment::present"
    );
    assert_eq!(
        layout.offset_of("dpl"),
        Some(16usize),
        "Offset of field: kvm_segment::dpl"
    );
    assert_eq!(
        layout.offset_of("db"),
        Some(17usize),
        "Offset of field: kvm_segment::db"
    );
    assert_eq!(
        layout.offset_of("s"),
        Some(18usize),
        "Offset of field: kvm_segment::s"
    );
    assert_eq!(
        layout.offset_of("l"),
        Some(19usize),
        "Offset of field: kvm_segment::l"
    );
    assert_eq!(
        layout.offset_of("g"),
        Some(20usize),
        "Offset of field: kvm_segment::g"
    );
    assert_eq!(
        layout.offset_of("avl"),
        Some(21usize),
        "Offset of field: kvm_segment::avl"
    );
    assert_eq!(
        layout.offset_of("unusable"),
        Some(22usize),
        "Offset of field: kvm_segment::unusable"
    );
    assert_eq!(
        layout.offset_of("padding"),
        Some(23usize),
        "Offset of field: kvm_segment::padding"
    );
}

#[test]
fn bindgen_test_layout_kvm_dtable() {
    let layout = kvm_dtable().unwrap();
    assert_eq!(layout.size(), 16usize, "Size of: kvm_dtable");
    assert_eq!(layout.align(), 8usize, "Alignment of kvm_dtable");
    assert_eq!(
        layout.offset_of("base"),
        Some(0usize),
        "Offset of field: kvm_dtable::base"
    );
    assert_eq!(
        layout.offset_of("limit"),
        Some(8usize),
        "Offset of field: kvm_dtable::limit"
    );
    assert_eq!(
        layout.offset_of("padding"),
        Some(10usize),
        "Offset of field: kvm_dtable::padding"
    );
}

#[test]
fn bindgen_test_layout_kvm_sregs() {
    let layout = kvm_sregs().unwrap();
    assert_eq!(layout.size(), 312usize, "Size of: kvm_sregs");
    assert_eq!(layout.align(), 8usize, "Alignment of kvm_sregs");
    assert_eq!(
        layout.offset_of("cs"),
        Some(0usize),
        "Offset of field: kvm_sregs::cs"
    );
    assert_eq!(
        layout.offset_of("ds"),
        Some(24usize),
        "Offset of field: kvm_sregs::ds"
    );
    assert_eq!(
        layout.offset_of("es"),
        Some(48usize),
        "Offset of field: kvm_sregs::es"
    );
    assert_eq!(
        layout.offset_of("fs"),
        Some(72usize),
        "Offset of field: kvm_sregs::fs"
    );
    assert_eq!(
        layout.offset_of("gs"),
        Some(96usize),
        "Offset of field: kvm_sregs::gs"
    );
    assert_eq!(
        layout.offset_of("ss"),
        Some(120usize),
        "Offset of field: kvm_sregs::ss"
    );
    assert_eq!(
        layout.offset_of("tr"),
        Some(144usize),
        "Offset of field: kvm_sregs::tr"
    );
    assert_eq!(
        layout.offset_of("ldt"),
        Some(168usize),
        "Offset of field: kvm_sregs::ldt"
    );
    assert_eq!(
        layout.offset_of("gdt"),
        Some(192usize),
        "Offset of field: kvm_sregs::gdt"
    );
    assert_eq!(
        layout.offset_of("idt"),
        Some(208usize),
        "Offset of field: kvm_sregs::idt"
    );
    assert_eq!(
        layout.offset_of("cr0"),
        Some(224usize),
        "Offset of field: kvm_sregs::cr0"
    );
    assert_eq!(
        layout.offset_of("cr2"),
        Some(232usize),
        "Offset of field: kvm_sregs::cr2"
    );
    assert_eq!(
        layout.offset_of("cr3"),
        Some(240usize),
        "Offset of field: kvm_sregs::cr3"
    );
    assert_eq!(
        layout.offset_of("cr4"),
        Some(248usize),
        "Offset of field: kvm_sregs::cr4"
    );
    assert_eq!(
        layout.offset_of("cr8"),
        Some(256usize),
        "Offset of field: kvm_sregs::cr8"
    );
    assert_eq!(
        layout.offset_of("efer"),
        Some(264usize),
        "Offset of field: kvm_sregs::efer"
    );
    assert_eq!(
        layout.offset_of("apic_base"),
        Some(272usize),
        "Offset of field: kvm_sregs::apic_base"
    );
    assert_eq!(
        layout.offset_of("interrupt_bitmap"),
        Some(280usize),
        "Offset of field: kvm_sregs::interrupt_bitmap"
    );
}

#[test]
fn bindgen_test_layout_kvm_msr_entry() {
    let layout = kvm_msr_entry().unwrap();
    assert_eq!(layout.size(), 16usize, "Size of: kvm_msr_entry");
    assert_eq!(layout.align(), 8usize, "Alignment of kvm_msr_entry");
    assert_eq!(
        layout.offset_of("index"),
        Some(0usize),
        "Offset of field: kvm_msr_entry::index"
    );
    assert_eq!(
        layout.offset_of("reserved"),
        Some(4usize),
        "Offset of field: kvm_msr_entry::reserved"
    );
    assert_eq!(
        layout.offset_of("data"),
        Some(8usize),
        "Offset of field: kvm_msr_entry::data"
    );
}

#[test]
fn bindgen_test_layout_kvm_msrs() {
    let layout = kvm_msrs().unwrap();
    assert_eq!(layout.size(), 8usize, "Size of: kvm_msrs");
    assert_eq!(layout.align(), 8usize, "Alignment of kvm_msrs");
    assert_eq!(
        layout.offset_of("nmsrs"),
        Some(0usize),
        "Offset of field: kvm_msrs::nmsrs"
    );
    assert_eq!(
        layout.offset_of("pad"),
        Some(4usize),
        "Offset of field: kvm_msrs::pad"
    );
    assert_eq!(
        layout.offset_of("entries"),
        Some(8usize),
        "Offset of field: kvm_msrs::entries"
    );
}

#[test]
fn bindgen_test_layout_kvm_cpuid_entry2() {
    let layout = kvm_cpuid_entry2().unwrap();
    assert_eq!(layout.size(), 40usize, "Size of: kvm_cpuid_entry2");
    assert_eq!(layout.align(), 4usize, "Alignment of kvm_cpuid_entry2");
    assert_eq!(
        layout.offset_of("function"),
        Some(0usize),
        "Offset of field: kvm_cpuid_entry2::function"
    );
    assert_eq!(
        layout.offset_of("index"),
        Some(4usize),
        "Offset of field: kvm_cpuid_entry2::index"
    );
    assert_eq!(
        layout.offset_of("flags"),
        Some(8usize),
        "Offset of field: kvm_cpuid_entry2::flags"
    );
    assert_eq!(
        layout.offset_of("eax"),
        Some(12usize),
        "Offset of field: kvm_cpuid_entry2::eax"
    );
    assert_eq!(
        layout.offset_of("ebx"),
        Some(16usize),
        "Offset of field: kvm_cpuid_entry2::ebx"
    );
    assert_eq!(
        layout.offset_of("ecx"),
        Some(20usize),
        "Offset of field: kvm_cpuid_entry2::ecx"
    );
    assert_eq!(
        layout.offset_of("edx"),
        Some(24usize),
        "Offset of field: kvm_cpuid_entry2::edx"
    );
    assert_eq!(
        layout.offset_of("padding"),
        Some(28usize),
        "Offset of field: kvm_cpuid_entry2::padding"
    );
}

#[test]
fn bindgen_test_layout_kvm_cpuid2() {
    let layout = kvm_cpuid2().unwrap();
    assert_eq!(layout.size(), 8usize, "Size of: kvm_cpuid2");
    assert_eq!(layout.align(), 4usize, "Alignment of kvm_cpuid2");
    assert_eq!(
        layout.offset_of("nent"),
        Some(0usize),
        "Offset of field: kvm_cpuid2::nent"
    );
    assert_eq!(
        layout.offset_of("padding"),
        Some(4usize),
        "Offset of field: kvm_cpuid2::padding"
    );
    assert_eq!(
        layout.offset_of("entries"),
        Some(8usize),
        "Offset of field: kvm_cpuid2::entries"
    );
}

#[test]
fn bindgen_test_layout_kvm_pit_channel_state() {
    let layout = kvm_pit_channel_state().unwrap();
    assert_eq!(layout.size(), 24usize, "Size of: kvm_pit_channel_state");
    assert_eq!(layout.align(), 8usize, "Alignment of kvm_pit_channel_state");
    assert_eq!(
        layout.offset_of("count"),
        Some(0usize),
        "Offset of field: kvm_pit_channel_state::count"
    );
    assert_eq!(
        layout.offset_of("latched_count"),
        Some(4usize),
        "Offset of field: kvm_pit_channel_state::latched_count"
    );
    assert_eq!(
        layout.offset_of("count_latched"),
        Some(6usize),
        "Offset of field: kvm_pit_channel_state::count_latched"
    );
    assert_eq!(
        layout.offset_of("status_latched"),
        Some(7usize),
        "Offset of field: kvm_pit_channel_state::status_latched"
    );
    assert_eq!(
        layout.offset_of("status"),
        Some(8usize),
        "Offset of field: kvm_pit_channel_state::status"
    );
    assert_eq!(
        layout.offset_of("read_state"),
        Some(9usize),
        "Offset of field: kvm_pit_channel_state::read_state"
    );
    assert_eq!(
        layout.offset_of("write_state"),
        Some(10usize),
        "Offset of field: kvm_pit_channel_state::write_state"
    );
    assert_eq!(
        layout.offset_of("write_latch"),
        Some(11usize),
        "Offset of field: kvm_pit_channel_state::write_latch"
    );
    assert_eq!(
        layout.offset_of("rw_mode"),
        Some(12usize),
        "Offset of field: kvm_pit_channel_state::rw_mode"
    );
    assert_eq!(
        layout.offset_of("mode"),
        Some(13usize),
        "Offset of field: kvm_pit_channel_state::mode"
    );
    assert_eq!(
        layout.offset_of("bcd"),
        Some(14usize),
        "Offset of field: kvm_pit_channel_state::bcd"
    );
    assert_eq!(
        layout.offset_of("gate"),
        Some(15usize),
        "Offset of field: kvm_pit_channel_state::gate"
    );
    assert_eq!(
        layout.offset_of("count_load_time"),
        Some(16usize),
        "Offset of field: kvm_pit_channel_state::count_load_time"
    );
}

#[test]
fn bindgen_test_layout_kvm_pit_state2() {
    let layout = kvm_pit_state2().unwrap();
    assert_eq!(layout.size(), 112usize, "Size of: kvm_pit_state2");
    assert_eq!(layout.align(), 8usize, "Alignment of kvm_pit_state2");
    assert_eq!(
        layout.offset_of("channels"),
        Some(0usize),
        "Offset of field: kvm_pit_state2::channels"
    );
    assert_eq!(
        layout.offset_of("flags"),
        Some(72usize),
        "Offset of field: kvm_pit_state2::flags"
    );
    assert_eq!(
        layout.offset_of("reserved"),
        Some(76usize),
        "Offset of field: kvm_pit_state2::reserved"
    );
}

#[test]
fn bindgen_test_layout_kvm_vcpu_events__bindgen_ty_1() {
    let layout = kvm_vcpu_events__bindgen_ty_1().unwrap();
    assert_eq!(layout.size(), 8usize, "Size of: kvm_vcpu_events__bindgen_ty_1");
    assert_eq!(layout.align(), 4usize, "Alignment of kvm_vcpu_events__bindgen_ty_1");
    assert_eq!(
        layout.offset_of("injected"),
        Some(0usize),
        "Offset of field: kvm_vcpu_events__bindgen_ty_1::injected"
    );
    assert_eq!(
        layout.offset_of("nr"),
        Some(1usize),
        "Offset of field: kvm_vcpu_events__bindgen_ty_1::nr"
    );
    assert_eq!(
        layout.offset_of("has_error_code"),
        Some(2usize),
        "Offset of field: kvm_vcpu_events__bindgen_ty_1::has_error_code"
    );
    assert_eq!(
        layout.offset_of("pending"),
        Some(3usize),
        "Offset of field: kvm_vcpu_events__bindgen_ty_1::pending"
    );
    assert_eq!(
        layout.offset_of("error_code"),
        Some(4usize),
        "Offset of field: kvm_vcpu_events__bindgen_ty_1::error_code"
    );
}

#[test]
fn bindgen_test_layout_kvm_vcpu_events__bindgen_ty_2() {
    let layout = kvm_vcpu_events__bindgen_ty_2().unwrap();
    assert_eq!(layout.size(), 4usize, "Size of: kvm_vcpu_events__bindgen_ty_2");
    assert_eq!(layout.align(), 1usize, "Alignment of kvm_vcpu_events__bindgen_ty_2");
    assert_eq!(
        layout.offset_of("injected"),
        Some(0usize),
        "Offset of field: kvm_vcpu_events__bindgen_ty_2::injected"
    );
    assert_eq!(
        layout.offset_of("nr"),
        Some(1usize),
        "Offset of field: kvm_vcpu_events__bindgen_ty_2::nr"
    );
    assert_eq!(
        layout.offset_of("soft"),
        Some(2usize),
        "Offset of field: kvm_vcpu_events__bindgen_ty_2::soft"
    );
    assert_eq!(
        layout.offset_of("shadow"),
        Some(3usize),
        "Offset of field: kvm_vcpu_events__bindgen_ty_2::shadow"
    );
}

#[test]
fn bindgen_test_layout_kvm_vcpu_events__bindgen_ty_3() {
    let layout = kvm_vcpu_events__bindgen_ty_3().unwrap();
    assert_eq!(layout.size(), 4usize, "Size of: kvm_vcpu_events__bindgen_ty_3");
    assert_eq!(layout.align(), 1usize, "Alignment of kvm_vcpu_events__bindgen_ty_3");
    assert_eq!(
        layout.offset_of("injected"),
        Some(0usize),
        "Offset of field: kvm_vcpu_events__bindgen_ty_3::injected"
    );
    assert_eq!(
        layout.offset_of("pending"),
        Some(1usize),
        "Offset of field: kvm_vcpu_events__bindgen_ty_3::pending"
    );
    assert_eq!(
        layout.offset_of("masked"),
        Some(2usize),
        "Offset of field: kvm_vcpu_events__bindgen_ty_3::masked"
    );
    assert_eq!(
        layout.offset_of("pad"),
        Some(3usize),
        "Offset of field: kvm_vcpu_events__bindgen_ty_3::pad"
    );
}

#[test]
fn bindgen_test_layout_kvm_vcpu_events__bindgen_ty_4() {
    let layout = kvm_vcpu_events__bindgen_ty_4().unwrap();
    assert_eq!(layout.size(), 4usize, "Size of: kvm_vcpu_events__bindgen_ty_4");
    assert_eq!(layout.align(), 1usize, "Alignment of kvm_vcpu_events__bindgen_ty_4");
    assert_eq!(
        layout.offset_of("smm"),
        Some(0usize),
        "Offset of field: kvm_vcpu_events__bindgen_ty_4::smm"
    );
    assert_eq!(
        layout.offset_of("pending"),
        Some(1usize),
        "Offset of field: kvm_vcpu_events__bindgen_ty_4::pending"
    );
    assert_eq!(
        layout.offset_of("smm_inside_nmi"),
        Some(2usize),
        "Offset of field: kvm_vcpu_events__bindgen_ty_4::smm_inside_nmi"
    );
    assert_eq!(
        layout.offset_of("latched_init"),
        Some(3usize),
        "Offset of field: kvm_vcpu_events__bindgen_ty_4::latched_init"
    );
}

#[test]
fn bindgen_test_layout_kvm_vcpu_events() {
    let layout = kvm_vcpu_events().unwrap();
    assert_eq!(layout.size(), 64usize, "Size of: kvm_vcpu_events");
    assert_eq!(layout.align(), 8usize, "Alignment of kvm_vcpu_events");
    assert_eq!(
        layout.offset_of("exception"),
        Some(0usize),
        "Offset of field: kvm_vcpu_events::exception"
    );
    assert_eq!(
        layout.offset_of("interrupt"),
        Some(8usize),
        "Offset of field: kvm_vcpu_events::interrupt"
    );
    assert_eq!(
        layout.offset_of("nmi"),
        Some(12usize),
        "Offset of field: kvm_vcpu_events::nmi"
    );
    assert_eq!(
        layout.offset_of("sipi_vector"),
        Some(16usize),
        "Offset of field: kvm_vcpu_events::sipi_vector"
    );
    assert_eq!(
        layout.offset_of("flags"),
        Some(20usize),
        "Offset of field: kvm_vcpu_events::flags"
    );
    assert_eq!(
        layout.offset_of("smi"),
        Some(24usize),
        "Offset of field: kvm_vcpu_events::smi"
    );
    assert_eq!(
        layout.offset_of("reserved"),
        Some(28usize),
        "Offset of field: kvm_vcpu_events::reserved"
    );
    assert_eq!(
        layout.offset_of("exception_has_payload"),
        Some(55usize),
        "Offset of field: kvm_vcpu_events::exception_has_payload"
    );
    assert_eq!(
        layout.offset_of("exception_payload"),
        Some(56usize),
        "Offset of field: kvm_vcpu_events::exception_payload"
    );
}

#[test]
fn bindgen_test_layout_kvm_debugregs() {
    let layout = kvm_debugregs().unwrap();
    assert_eq!(layout.size(), 128usize, "Size of: kvm_debugregs");
    assert_eq!(layout.align(), 8usize, "Alignment of kvm_debugregs");
    assert_eq!(
        layout.offset_of("db"),
        Some(0usize),
        "Offset of field: kvm_debugregs::db"
    );
    assert_eq!(
        layout.offset_of("dr6"),
        Some(32usize),
        "Offset of field: kvm_debugregs::dr6"
    );
    assert_eq!(
        layout.offset_of("dr7"),
        Some(40usize),
        "Offset of field: kvm_debugregs::dr7"
    );
    assert_eq!(
        layout.offset_of("flags"),
        Some(48usize),
        "Offset of field: kvm_debugregs::flags"
    );
    assert_eq!(
        layout.offset_of("reserved"),
        Some(56usize),
        "Offset of field: kvm_debugregs::reserved"
    );
}

#[test]
fn bindgen_test_layout_kvm_xsave() {
    let layout = kvm_xsave().unwrap();
    assert_eq!(layout.size(), 4096usize, "Size of: kvm_xsave");
    assert_eq!(layout.align(), 4usize, "Alignment of kvm_xsave");
    assert_eq!(
        layout.offset_of("region"),
        Some(0usize),
        "Offset of field: kvm_xsave::region"
    );
}

#[test]
fn bindgen_test_layout_kvm_xcr() {
    let layout = kvm_xcr().unwrap();
    assert_eq!(layout.size(), 16usize, "Size of: kvm_xcr");
    assert_eq!(layout.align(), 8usize, "Alignment of kvm_xcr");
    assert_eq!(
        layout.offset_of("xcr"),
        Some(0usize),
        "Offset of field: kvm_xcr::xcr"
    );
    assert_eq!(
        layout.offset_of("reserved"),
        Some(4usize),
        "Offset of field: kvm_xcr::reserved"
    );
    assert_eq!(
        layout.offset_of("value"),
        Some(8usize),
        "Offset of field: kvm_xcr::value"
    );
}

#[test]
fn bindgen_test_layout_kvm_xcrs() {
    let layout = kvm_xcrs().unwrap();
    assert_eq!(layout.size(), 392usize, "Size of: kvm_xcrs");
    assert_eq!(layout.align(), 8usize, "Alignment of kvm_xcrs");
    assert_eq!(
        layout.offset_of("nr_xcrs"),
        Some(0usize),
        "Offset of field: kvm_xcrs::nr_xcrs"
    );
    assert_eq!(
        layout.offset_of("flags"),
        Some(4usize),
        "Offset of field: kvm_xcrs::flags"
    );
    assert_eq!(
        layout.offset_of("xcrs"),
        Some(8usize),
        "Offset of field: kvm_xcrs::xcrs"
    );
    assert_eq!(
        layout.offset_of("padding"),
        Some(264usize),
        "Offset of field: kvm_xcrs::padding"
    );
}

#[test]
fn bindgen_test_layout_kvm_irqchip__bindgen_ty_1() {
    let layout = kvm_irqchip__bindgen_ty_1().unwrap();
    assert_eq!(layout.size(), 512usize, "Size of: kvm_irqchip__bindgen_ty_1");
    assert_eq!(layout.align(), 8usize, "Alignment of kvm_irqchip__bindgen_ty_1");
    assert_eq!(
        layout.offset_of("dummy"),
        Some(0usize),
        "Offset of field: kvm_irqchip__bindgen_ty_1::dummy"
    );
    assert_eq!(
        layout.offset_of("pic"),
        Some(0usize),
        "Offset of field: kvm_irqchip__bindgen_ty_1::pic"
    );
    assert_eq!(
        layout.offset_of("ioapic"),
        Some(0usize),
        "Offset of field: kvm_irqchip__bindgen_ty_1::ioapic"
    );
}

#[test]
fn bindgen_test_layout_kvm_irqchip() {
    let layout = kvm_irqchip().unwrap();
    assert_eq!(layout.size(), 520usize, "Size of: kvm_irqchip");
    assert_eq!(layout.align(), 8usize, "Alignment of kvm_irqchip");
    assert_eq!(
        layout.offset_of("chip_id"),
        Some(0usize),
        "Offset of field: kvm_irqchip::chip_id"
    );
    assert_eq!(
        layout.offset_of("pad"),
        Some(4usize),
        "Offset of field: kvm_irqchip::pad"
    );
    assert_eq!(
        layout.offset_of("chip"),
        Some(8usize),
        "Offset of field: kvm_irqchip::chip"
    );
}

#[test]
fn bindgen_test_layout_kvm_mp_state() {
    let layout = kvm_mp_state().unwrap();
    assert_eq!(layout.size(), 4usize, "Size of: kvm_mp_state");
    assert_eq!(layout.align(), 4usize, "Alignment of kvm_mp_state");
    assert_eq!(
        layout.offset_of("mp_state"),
        Some(0usize),
        "Offset of field: kvm_mp_state::mp_state"
    );
}

#[test]
fn bindgen_test_layout_kvm_clock_data() {
    let layout = kvm_clock_data().unwrap();
    assert_eq!(layout.size(), 48usize, "Size of: kvm_clock_data");
    assert_eq!(layout.align(), 8usize, "Alignment of kvm_clock_data");
    assert_eq!(
        layout.offset_of("clock"),
        Some(0usize),
        "Offset of field: kvm_clock_data::clock"
    );
    assert_eq!(
        layout.offset_of("flags"),
        Some(8usize),
        "Offset of field: kvm_clock_data::flags"
    );
    assert_eq!(
        layout.offset_of("pad"),
        Some(12usize),
        "Offset of field: kvm_clock_data::pad"
    );
}
