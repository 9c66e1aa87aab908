//! The structures that hold the state of a virtual processor and of the
//! devices beside it, as the kernel of an x86 host hands them out: the
//! members of each, in the order of their declaration, and the layout that
//! follows from them.

use vstd::prelude::*;
use crate::layout::{
    array_of, declare, declared_as, flexible, integer, shape_of, spec_array_of,
    spec_declared_shape, spec_flexible, spec_integer, Layout, Member,
};

verus! {
/// The members of `kvm_pic_state`.
pub open spec fn kvm_pic_state_members() -> Seq<Member> {
    seq![
        Member { name: "last_irr", shape: spec_integer(1) },
        Member { name: "irr", shape: spec_integer(1) },
        Member { name: "imr", shape: spec_integer(1) },
        Member { name: "isr", shape: spec_integer(1) },
        Member { name: "priority_add", shape: spec_integer(1) },
        Member { name: "irq_base", shape: spec_integer(1) },
        Member { name: "read_reg_select", shape: spec_integer(1) },
        Member { name: "poll", shape: spec_integer(1) },
        Member { name: "special_mask", shape: spec_integer(1) },
        Member { name: "init_state", shape: spec_integer(1) },
        Member { name: "auto_eoi", shape: spec_integer(1) },
        Member { name: "rotate_on_auto_eoi", shape: spec_integer(1) },
        Member { name: "special_fully_nested_mode", shape: spec_integer(1) },
        Member { name: "init4", shape: spec_integer(1) },
        Member { name: "elcr", shape: spec_integer(1) },
        Member { name: "elcr_mask", shape: spec_integer(1) },
    ]
}

/// The state of an interrupt controller of the legacy kind.
pub fn kvm_pic_state() -> (r: Option<Layout>)
    ensures
        declared_as(r, "kvm_pic_state", false, kvm_pic_state_members()),
{
    let mut members: Vec<Member> = Vec::new();
    members.push(Member { name: "last_irr", shape: integer(1) });
    members.push(Member { name: "irr", shape: integer(1) });
    members.push(Member { name: "imr", shape: integer(1) });
    members.push(Member { name: "isr", shape: integer(1) });
    members.push(Member { name: "priority_add", shape: integer(1) });
    members.push(Member { name: "irq_base", shape: integer(1) });
    members.push(Member { name: "read_reg_select", shape: integer(1) });
    members.push(Member { name: "poll", shape: integer(1) });
    members.push(Member { name: "special_mask", shape: integer(1) });
    members.push(Member { name: "init_state", shape: integer(1) });
    members.push(Member { name: "auto_eoi", shape: integer(1) });
    members.push(Member { name: "rotate_on_auto_eoi", shape: integer(1) });
    members.push(Member { name: "special_fully_nested_mode", shape: integer(1) });
    members.push(Member { name: "init4", shape: integer(1) });
    members.push(Member { name: "elcr", shape: integer(1) });
    members.push(Member { name: "elcr_mask", shape: integer(1) });
    assert(members@ =~= kvm_pic_state_members());
    declare("kvm_pic_state", false, members)
}

/// The members of `kvm_ioapic_state__bindgen_ty_1__bindgen_ty_1`.
pub open spec fn kvm_ioapic_state__bindgen_ty_1__bindgen_ty_1_members() -> Seq<Member> {
    seq![
        Member { name: "vector", shape: spec_integer(1) },
        Member { name: "_bitfield_1", shape: spec_array_of(spec_integer(1), 2) },
        Member { name: "reserved", shape: spec_array_of(spec_integer(1), 4) },
        Member { name: "dest_id", shape: spec_integer(1) },
    ]
}

/// One entry of the redirection table, by its parts.
pub fn kvm_ioapic_state__bindgen_ty_1__bindgen_ty_1() -> (r: Option<Layout>)
    ensures
        declared_as(r, "kvm_ioapic_state__bindgen_ty_1__bindgen_ty_1", false, kvm_ioapic_state__bindgen_ty_1__bindgen_ty_1_members()),
{
    let mut members: Vec<Member> = Vec::new();
    members.push(Member { name: "vector", shape: integer(1) });
    members.push(Member { name: "_bitfield_1", shape: array_of(integer(1), 2) });
    members.push(Member { name: "reserved", shape: array_of(integer(1), 4) });
    members.push(Member { name: "dest_id", shape: integer(1) });
    assert(members@ =~= kvm_ioapic_state__bindgen_ty_1__bindgen_ty_1_members());
    declare("kvm_ioapic_state__bindgen_ty_1__bindgen_ty_1", false, members)
}

/// The members of `kvm_ioapic_state__bindgen_ty_1`.
pub open spec fn kvm_ioapic_state__bindgen_ty_1_members() -> Seq<Member> {
    seq![
        Member { name: "bits", shape: spec_integer(8) },
        Member { name: "fields", shape: spec_declared_shape(false, kvm_ioapic_state__bindgen_ty_1__bindgen_ty_1_members()) },
    ]
}

/// One entry of the redirection table: as one number, or by its parts.
pub fn kvm_ioapic_state__bindgen_ty_1() -> (r: Option<Layout>)
    ensures
        declared_as(r, "kvm_ioapic_state__bindgen_ty_1", true, kvm_ioapic_state__bindgen_ty_1_members()),
{
    let ioapic_state_part_1_part_1_shape = shape_of(&kvm_ioapic_state__bindgen_ty_1__bindgen_ty_1());
    let mut members: Vec<Member> = Vec::new();
    members.push(Member { name: "bits", shape: integer(8) });
    members.push(Member { name: "fields", shape: ioapic_state_part_1_part_1_shape });
    assert(members@ =~= kvm_ioapic_state__bindgen_ty_1_members());
    declare("kvm_ioapic_state__bindgen_ty_1", true, members)
}

/// The members of `kvm_ioapic_state`.
pub open spec fn kvm_ioapic_state_members() -> Seq<Member> {
    seq![
        Member { name: "base_address", shape: spec_integer(8) },
        Member { name: "ioregsel", shape: spec_integer(4) },
        Member { name: "id", shape: spec_integer(4) },
        Member { name: "irr", shape: spec_integer(4) },
        Member { name: "pad", shape: spec_integer(4) },
        Member { name: "redirtbl", shape: spec_array_of(spec_declared_shape(true, kvm_ioapic_state__bindgen_ty_1_members()), 24) },
    ]
}

/// The state of an interrupt controller for input and output.
pub fn kvm_ioapic_state() -> (r: Option<Layout>)
    ensures
        declared_as(r, "kvm_ioapic_state", false, kvm_ioapic_state_members()),
{
    let ioapic_state_part_1_shape = shape_of(&kvm_ioapic_state__bindgen_ty_1());
    let mut members: Vec<Member> = Vec::new();
    members.push(Member { name: "base_address", shape: integer(8) });
    members.push(Member { name: "ioregsel", shape: integer(4) });
    members.push(Member { name: "id", shape: integer(4) });
    members.push(Member { name: "irr", shape: integer(4) });
    members.push(Member { name: "pad", shape: integer(4) });
    members.push(Member { name: "redirtbl", shape: array_of(ioapic_state_part_1_shape, 24) });
    assert(members@ =~= kvm_ioapic_state_members());
    declare("kvm_ioapic_state", false, members)
}

/// The members of `kvm_regs`.
pub open spec fn kvm_regs_members() -> Seq<Member> {
    seq![
        Member { name: "rax", shape: spec_integer(8) },
        Member { name: "rbx", shape: spec_integer(8) },
        Member { name: "rcx", shape: spec_integer(8) },
        Member { name: "rdx", shape: spec_integer(8) },
        Member { name: "rsi", shape: spec_integer(8) },
        Member { name: "rdi", shape: spec_integer(8) },
        Member { name: "rsp", shape: spec_integer(8) },
        Member { name: "rbp", shape: spec_integer(8) },
        Member { name: "r8", shape: spec_integer(8) },
        Member { name: "r9", shape: spec_integer(8) },
        Member { name: "r10", shape: spec_integer(8) },
        Member { name: "r11", shape: spec_integer(8) },
        Member { name: "r12", shape: spec_integer(8) },
        Member { name: "r13", shape: spec_integer(8) },
        Member { name: "r14", shape: spec_integer(8) },
        Member { name: "r15", shape: spec_integer(8) },
        Member { name: "rip", shape: spec_integer(8) },
        Member { name: "rflags", shape: spec_integer(8) },
    ]
}

/// The general registers of a processor.
pub fn kvm_regs() -> (r: Option<Layout>)
    ensures
        declared_as(r, "kvm_regs", false, kvm_regs_members()),
{
    let mut members: Vec<Member> = Vec::new();
    members.push(Member { name: "rax", shape: integer(8) });
    members.push(Member { name: "rbx", shape: integer(8) });
    members.push(Member { name: "rcx", shape: integer(8) });
    members.push(Member { name: "rdx", shape: integer(8) });
    members.push(Member { name: "rsi", shape: integer(8) });
    members.push(Member { name: "rdi", shape: integer(8) });
    members.push(Member { name: "rsp", shape: integer(8) });
    members.push(Member { name: "rbp", shape: integer(8) });
    members.push(Member { name: "r8", shape: integer(8) });
    members.push(Member { name: "r9", shape: integer(8) });
    members.push(Member { name: "r10", shape: integer(8) });
    members.push(Member { name: "r11", shape: integer(8) });
    members.push(Member { name: "r12", shape: integer(8) });
    members.push(Member { name: "r13", shape: integer(8) });
    members.push(Member { name: "r14", shape: integer(8) });
    members.push(Member { name: "r15", shape: integer(8) });
    members.push(Member { name: "rip", shape: integer(8) });
    members.push(Member { name: "rflags", shape: integer(8) });
    assert(members@ =~= kvm_regs_members());
    declare("kvm_regs", false, members)
}

/// The members of `kvm_lapic_state`.
pub open spec fn kvm_lapic_state_members() -> Seq<Member> {
    seq![
        Member { name: "regs", shape: spec_array_of(spec_integer(1), 1024) },
    ]
}

/// The registers of the local interrupt controller of a processor.
pub fn kvm_lapic_state() -> (r: Option<Layout>)
    ensures
        declared_as(r, "kvm_lapic_state", false, kvm_lapic_state_members()),
{
    let mut members: Vec<Member> = Vec::new();
    members.push(Member { name: "regs", shape: array_of(integer(1), 1024) });
    assert(members@ =~= kvm_lapic_state_members());
    declare("kvm_lapic_state", false, members)
}

/// The members of `kvm_segment`.
pub open spec fn kvm_segment_members() -> Seq<Member> {
    seq![
        Member { name: "base", shape: spec_integer(8) },
        Member { name: "limit", shape: spec_integer(4) },
        Member { name: "selector", shape: spec_integer(2) },
        Member { name: "type_", shape: spec_integer(1) },
        Member { name: "present", shape: spec_integer(1) },
        Member { name: "dpl", shape: spec_integer(1) },
        Member { name: "db", shape: spec_integer(1) },
        Member { name: "s", shape: spec_integer(1) },
        Member { name: "l", shape: spec_integer(1) },
        Member { name: "g", shape: spec_integer(1) },
        Member { name: "avl", shape: spec_integer(1) },
        Member { name: "unusable", shape: spec_integer(1) },
        Member { name: "padding", shape: spec_integer(1) },
    ]
}

/// A segment register.
pub fn kvm_segment() -> (r: Option<Layout>)
    ensures
        declared_as(r, "kvm_segment", false, kvm_segment_members()),
{
    let mut members: Vec<Member> = Vec::new();
    members.push(Member { name: "base", shape: integer(8) });
    members.push(Member { name: "limit", shape: integer(4) });
    members.push(Member { name: "selector", shape: integer(2) });
    members.push(Member { name: "type_", shape: integer(1) });
    members.push(Member { name: "present", shape: integer(1) });
    members.push(Member { name: "dpl", shape: integer(1) });
    members.push(Member { name: "db", shape: integer(1) });
    members.push(Member { name: "s", shape: integer(1) });
    members.push(Member { name: "l", shape: integer(1) });
    members.push(Member { name: "g", shape: integer(1) });
    members.push(Member { name: "avl", shape: integer(1) });
    members.push(Member { name: "unusable", shape: integer(1) });
    members.push(Member { name: "padding", shape: integer(1) });
    assert(members@ =~= kvm_segment_members());
    declare("kvm_segment", false, members)
}

/// The members of `kvm_dtable`.
pub open spec fn kvm_dtable_members() -> Seq<Member> {
    seq![
        Member { name: "base", shape: spec_integer(8) },
        Member { name: "limit", shape: spec_integer(2) },
        Member { name: "padding", shape: spec_array_of(spec_integer(2), 3) },
    ]
}

/// A descriptor table register.
pub fn kvm_dtable() -> (r: Option<Layout>)
    ensures
        declared_as(r, "kvm_dtable", false, kvm_dtable_members()),
{
    let mut members: Vec<Member> = Vec::new();
    members.push(Member { name: "base", shape: integer(8) });
    members.push(Member { name: "limit", shape: integer(2) });
    members.push(Member { name: "padding", shape: array_of(integer(2), 3) });
    assert(members@ =~= kvm_dtable_members());
    declare("kvm_dtable", false, members)
}

/// The members of `kvm_sregs`.
pub open spec fn kvm_sregs_members() -> Seq<Member> {
    seq![
        Member { name: "cs", shape: spec_declared_shape(false, kvm_segment_members()) },
        Member { name: "ds", shape: spec_declared_shape(false, kvm_segment_members()) },
        Member { name: "es", shape: spec_declared_shape(false, kvm_segment_members()) },
        Member { name: "fs", shape: spec_declared_shape(false, kvm_segment_members()) },
        Member { name: "gs", shape: spec_declared_shape(false, kvm_segment_members()) },
        Member { name: "ss", shape: spec_declared_shape(false, kvm_segment_members()) },
        Member { name: "tr", shape: spec_declared_shape(false, kvm_segment_members()) },
        Member { name: "ldt", shape: spec_declared_shape(false, kvm_segment_members()) },
        Member { name: "gdt", shape: spec_declared_shape(false, kvm_dtable_members()) },
        Member { name: "idt", shape: spec_declared_shape(false, kvm_dtable_members()) },
        Member { name: "cr0", shape: spec_integer(8) },
        Member { name: "cr2", shape: spec_integer(8) },
        Member { name: "cr3", shape: spec_integer(8) },
        Member { name: "cr4", shape: spec_integer(8) },
        Member { name: "cr8", shape: spec_integer(8) },
        Member { name: "efer", shape: spec_integer(8) },
        Member { name: "apic_base", shape: spec_integer(8) },
        Member { name: "interrupt_bitmap", shape: spec_array_of(spec_integer(8), 4) },
    ]
}

/// The special registers of a processor.
pub fn kvm_sregs() -> (r: Option<Layout>)
    ensures
        declared_as(r, "kvm_sregs", false, kvm_sregs_members()),
{
    let segment_shape = shape_of(&kvm_segment());
    let dtable_shape = shape_of(&kvm_dtable());
    let mut members: Vec<Member> = Vec::new();
    members.push(Member { name: "cs", shape: segment_shape });
    members.push(Member { name: "ds", shape: segment_shape });
    members.push(Member { name: "es", shape: segment_shape });
    members.push(Member { name: "fs", shape: segment_shape });
    members.push(Member { name: "gs", shape: segment_shape });
    members.push(Member { name: "ss", shape: segment_shape });
    members.push(Member { name: "tr", shape: segment_shape });
    members.push(Member { name: "ldt", shape: segment_shape });
    members.push(Member { name: "gdt", shape: dtable_shape });
    members.push(Member { name: "idt", shape: dtable_shape });
    members.push(Member { name: "cr0", shape: integer(8) });
    members.push(Member { name: "cr2", shape: integer(8) });
    members.push(Member { name: "cr3", shape: integer(8) });
    members.push(Member { name: "cr4", shape: integer(8) });
    members.push(Member { name: "cr8", shape: integer(8) });
    members.push(Member { name: "efer", shape: integer(8) });
    members.push(Member { name: "apic_base", shape: integer(8) });
    members.push(Member { name: "interrupt_bitmap", shape: array_of(integer(8), 4) });
    assert(members@ =~= kvm_sregs_members());
    declare("kvm_sregs", false, members)
}

/// The members of `kvm_msr_entry`.
pub open spec fn kvm_msr_entry_members() -> Seq<Member> {
    seq![
        Member { name: "index", shape: spec_integer(4) },
        Member { name: "reserved", shape: spec_integer(4) },
        Member { name: "data", shape: spec_integer(8) },
    ]
}

/// One model-specific register.
pub fn kvm_msr_entry() -> (r: Option<Layout>)
    ensures
        declared_as(r, "kvm_msr_entry", false, kvm_msr_entry_members()),
{
    let mut members: Vec<Member> = Vec::new();
    members.push(Member { name: "index", shape: integer(4) });
    members.push(Member { name: "reserved", shape: integer(4) });
    members.push(Member { name: "data", shape: integer(8) });
    assert(members@ =~= kvm_msr_entry_members());
    declare("kvm_msr_entry", false, members)
}

/// The members of `kvm_msrs`.
pub open spec fn kvm_msrs_members() -> Seq<Member> {
    seq![
        Member { name: "nmsrs", shape: spec_integer(4) },
        Member { name: "pad", shape: spec_integer(4) },
        Member { name: "entries", shape: spec_flexible(spec_declared_shape(false, kvm_msr_entry_members())) },
    ]
}

/// The header of a list of model-specific registers.
pub fn kvm_msrs() -> (r: Option<Layout>)
    ensures
        declared_as(r, "kvm_msrs", false, kvm_msrs_members()),
{
    let msr_entry_shape = shape_of(&kvm_msr_entry());
    let mut members: Vec<Member> = Vec::new();
    members.push(Member { name: "nmsrs", shape: integer(4) });
    members.push(Member { name: "pad", shape: integer(4) });
    members.push(Member { name: "entries", shape: flexible(msr_entry_shape) });
    assert(members@ =~= kvm_msrs_members());
    declare("kvm_msrs", false, members)
}

/// The members of `kvm_cpuid_entry2`.
pub open spec fn kvm_cpuid_entry2_members() -> Seq<Member> {
    seq![
        Member { name: "function", shape: spec_integer(4) },
        Member { name: "index", shape: spec_integer(4) },
        Member { name: "flags", shape: spec_integer(4) },
        Member { name: "eax", shape: spec_integer(4) },
        Member { name: "ebx", shape: spec_integer(4) },
        Member { name: "ecx", shape: spec_integer(4) },
        Member { name: "edx", shape: spec_integer(4) },
        Member { name: "padding", shape: spec_array_of(spec_integer(4), 3) },
    ]
}

/// One answer of the processor to an identification request.
pub fn kvm_cpuid_entry2() -> (r: Option<Layout>)
    ensures
        declared_as(r, "kvm_cpuid_entry2", false, kvm_cpuid_entry2_members()),
{
    let mut members: Vec<Member> = Vec::new();
    members.push(Member { name: "function", shape: integer(4) });
    members.push(Member { name: "index", shape: integer(4) });
    members.push(Member { name: "flags", shape: integer(4) });
    members.push(Member { name: "eax", shape: integer(4) });
    members.push(Member { name: "ebx", shape: integer(4) });
    members.push(Member { name: "ecx", shape: integer(4) });
    members.push(Member { name: "edx", shape: integer(4) });
    members.push(Member { name: "padding", shape: array_of(integer(4), 3) });
    assert(members@ =~= kvm_cpuid_entry2_members());
    declare("kvm_cpuid_entry2", false, members)
}

/// The members of `kvm_cpuid2`.
pub open spec fn kvm_cpuid2_members() -> Seq<Member> {
    seq![
        Member { name: "nent", shape: spec_integer(4) },
        Member { name: "padding", shape: spec_integer(4) },
        Member { name: "entries", shape: spec_flexible(spec_declared_shape(false, kvm_cpuid_entry2_members())) },
    ]
}

/// The header of a list of identification answers.
pub fn kvm_cpuid2() -> (r: Option<Layout>)
    ensures
        declared_as(r, "kvm_cpuid2", false, kvm_cpuid2_members()),
{
    let cpuid_entry2_shape = shape_of(&kvm_cpuid_entry2());
    let mut members: Vec<Member> = Vec::new();
    members.push(Member { name: "nent", shape: integer(4) });
    members.push(Member { name: "padding", shape: integer(4) });
    members.push(Member { name: "entries", shape: flexible(cpuid_entry2_shape) });
    assert(members@ =~= kvm_cpuid2_members());
    declare("kvm_cpuid2", false, members)
}

/// The members of `kvm_pit_channel_state`.
pub open spec fn kvm_pit_channel_state_members() -> Seq<Member> {
    seq![
        Member { name: "count", shape: spec_integer(4) },
        Member { name: "latched_count", shape: spec_integer(2) },
        Member { name: "count_latched", shape: spec_integer(1) },
        Member { name: "status_latched", shape: spec_integer(1) },
        Member { name: "status", shape: spec_integer(1) },
        Member { name: "read_state", shape: spec_integer(1) },
        Member { name: "write_state", shape: spec_integer(1) },
        Member { name: "write_latch", shape: spec_integer(1) },
        Member { name: "rw_mode", shape: spec_integer(1) },
        Member { name: "mode", shape: spec_integer(1) },
        Member { name: "bcd", shape: spec_integer(1) },
        Member { name: "gate", shape: spec_integer(1) },
        Member { name: "count_load_time", shape: spec_integer(8) },
    ]
}

/// The state of one channel of the interval timer.
pub fn kvm_pit_channel_state() -> (r: Option<Layout>)
    ensures
        declared_as(r, "kvm_pit_channel_state", false, kvm_pit_channel_state_members()),
{
    let mut members: Vec<Member> = Vec::new();
    members.push(Member { name: "count", shape: integer(4) });
    members.push(Member { name: "latched_count", shape: integer(2) });
    members.push(Member { name: "count_latched", shape: integer(1) });
    members.push(Member { name: "status_latched", shape: integer(1) });
    members.push(Member { name: "status", shape: integer(1) });
    members.push(Member { name: "read_state", shape: integer(1) });
    members.push(Member { name: "write_state", shape: integer(1) });
    members.push(Member { name: "write_latch", shape: integer(1) });
    members.push(Member { name: "rw_mode", shape: integer(1) });
    members.push(Member { name: "mode", shape: integer(1) });
    members.push(Member { name: "bcd", shape: integer(1) });
    members.push(Member { name: "gate", shape: integer(1) });
    members.push(Member { name: "count_load_time", shape: integer(8) });
    assert(members@ =~= kvm_pit_channel_state_members());
    declare("kvm_pit_channel_state", false, members)
}

/// The members of `kvm_pit_state2`.
pub open spec fn kvm_pit_state2_members() -> Seq<Member> {
    seq![
        Member { name: "channels", shape: spec_array_of(spec_declared_shape(false, kvm_pit_channel_state_members()), 3) },
        Member { name: "flags", shape: spec_integer(4) },
        Member { name: "reserved", shape: spec_array_of(spec_integer(4), 9) },
    ]
}

/// The state of the interval timer.
pub fn kvm_pit_state2() -> (r: Option<Layout>)
    ensures
        declared_as(r, "kvm_pit_state2", false, kvm_pit_state2_members()),
{
    let pit_channel_state_shape = shape_of(&kvm_pit_channel_state());
    let mut members: Vec<Member> = Vec::new();
    members.push(Member { name: "channels", shape: array_of(pit_channel_state_shape, 3) });
    members.push(Member { name: "flags", shape: integer(4) });
    members.push(Member { name: "reserved", shape: array_of(integer(4), 9) });
    assert(members@ =~= kvm_pit_state2_members());
    declare("kvm_pit_state2", false, members)
}

/// The members of `kvm_vcpu_events__bindgen_ty_1`.
pub open spec fn kvm_vcpu_events__bindgen_ty_1_members() -> Seq<Member> {
    seq![
        Member { name: "injected", shape: spec_integer(1) },
        Member { name: "nr", shape: spec_integer(1) },
        Member { name: "has_error_code", shape: spec_integer(1) },
        Member { name: "pending", shape: spec_integer(1) },
        Member { name: "error_code", shape: spec_integer(4) },
    ]
}

/// A pending exception.
pub fn kvm_vcpu_events__bindgen_ty_1() -> (r: Option<Layout>)
    ensures
        declared_as(r, "kvm_vcpu_events__bindgen_ty_1", false, kvm_vcpu_events__bindgen_ty_1_members()),
{
    let mut members: Vec<Member> = Vec::new();
    members.push(Member { name: "injected", shape: integer(1) });
    members.push(Member { name: "nr", shape: integer(1) });
    members.push(Member { name: "has_error_code", shape: integer(1) });
    members.push(Member { name: "pending", shape: integer(1) });
    members.push(Member { name: "error_code", shape: integer(4) });
    assert(members@ =~= kvm_vcpu_events__bindgen_ty_1_members());
    declare("kvm_vcpu_events__bindgen_ty_1", false, members)
}

/// The members of `kvm_vcpu_events__bindgen_ty_2`.
pub open spec fn kvm_vcpu_events__bindgen_ty_2_members() -> Seq<Member> {
    seq![
        Member { name: "injected", shape: spec_integer(1) },
        Member { name: "nr", shape: spec_integer(1) },
        Member { name: "soft", shape: spec_integer(1) },
        Member { name: "shadow", shape: spec_integer(1) },
    ]
}

/// A pending interrupt.
pub fn kvm_vcpu_events__bindgen_ty_2() -> (r: Option<Layout>)
    ensures
        declared_as(r, "kvm_vcpu_events__bindgen_ty_2", false, kvm_vcpu_events__bindgen_ty_2_members()),
{
    let mut members: Vec<Member> = Vec::new();
    members.push(Member { name: "injected", shape: integer(1) });
    members.push(Member { name: "nr", shape: integer(1) });
    members.push(Member { name: "soft", shape: integer(1) });
    members.push(Member { name: "shadow", shape: integer(1) });
    assert(members@ =~= kvm_vcpu_events__bindgen_ty_2_members());
    declare("kvm_vcpu_events__bindgen_ty_2", false, members)
}

/// The members of `kvm_vcpu_events__bindgen_ty_3`.
pub open spec fn kvm_vcpu_events__bindgen_ty_3_members() -> Seq<Member> {
    seq![
        Member { name: "injected", shape: spec_integer(1) },
        Member { name: "pending", shape: spec_integer(1) },
        Member { name: "masked", shape: spec_integer(1) },
        Member { name: "pad", shape: spec_integer(1) },
    ]
}

/// A pending interrupt that cannot be masked.
pub fn kvm_vcpu_events__bindgen_ty_3() -> (r: Option<Layout>)
    ensures
        declared_as(r, "kvm_vcpu_events__bindgen_ty_3", false, kvm_vcpu_events__bindgen_ty_3_members()),
{
    let mut members: Vec<Member> = Vec::new();
    members.push(Member { name: "injected", shape: integer(1) });
    members.push(Member { name: "pending", shape: integer(1) });
    members.push(Member { name: "masked", shape: integer(1) });
    members.push(Member { name: "pad", shape: integer(1) });
    assert(members@ =~= kvm_vcpu_events__bindgen_ty_3_members());
    declare("kvm_vcpu_events__bindgen_ty_3", false, members)
}

/// The members of `kvm_vcpu_events__bindgen_ty_4`.
pub open spec fn kvm_vcpu_events__bindgen_ty_4_members() -> Seq<Member> {
    seq![
        Member { name: "smm", shape: spec_integer(1) },
        Member { name: "pending", shape: spec_integer(1) },
        Member { name: "smm_inside_nmi", shape: spec_integer(1) },
        Member { name: "latched_init", shape: spec_integer(1) },
    ]
}

/// The state of system management mode.
pub fn kvm_vcpu_events__bindgen_ty_4() -> (r: Option<Layout>)
    ensures
        declared_as(r, "kvm_vcpu_events__bindgen_ty_4", false, kvm_vcpu_events__bindgen_ty_4_members()),
{
    let mut members: Vec<Member> = Vec::new();
    members.push(Member { name: "smm", shape: integer(1) });
    members.push(Member { name: "pending", shape: integer(1) });
    members.push(Member { name: "smm_inside_nmi", shape: integer(1) });
    members.push(Member { name: "latched_init", shape: integer(1) });
    assert(members@ =~= kvm_vcpu_events__bindgen_ty_4_members());
    declare("kvm_vcpu_events__bindgen_ty_4", false, members)
}

/// The members of `kvm_vcpu_events`.
pub open spec fn kvm_vcpu_events_members() -> Seq<Member> {
    seq![
        Member { name: "exception", shape: spec_declared_shape(false, kvm_vcpu_events__bindgen_ty_1_members()) },
        Member { name: "interrupt", shape: spec_declared_shape(false, kvm_vcpu_events__bindgen_ty_2_members()) },
        Member { name: "nmi", shape: spec_declared_shape(false, kvm_vcpu_events__bindgen_ty_3_members()) },
        Member { name: "sipi_vector", shape: spec_integer(4) },
        Member { name: "flags", shape: spec_integer(4) },
        Member { name: "smi", shape: spec_declared_shape(false, kvm_vcpu_events__bindgen_ty_4_members()) },
        Member { name: "reserved", shape: spec_array_of(spec_integer(1), 27) },
        Member { name: "exception_has_payload", shape: spec_integer(1) },
        Member { name: "exception_payload", shape: spec_integer(8) },
    ]
}

/// The events that are pending on a processor.
pub fn kvm_vcpu_events() -> (r: Option<Layout>)
    ensures
        declared_as(r, "kvm_vcpu_events", false, kvm_vcpu_events_members()),
{
    let vcpu_events_part_1_shape = shape_of(&kvm_vcpu_events__bindgen_ty_1());
    let vcpu_events_part_2_shape = shape_of(&kvm_vcpu_events__bindgen_ty_2());
    let vcpu_events_part_3_shape = shape_of(&kvm_vcpu_events__bindgen_ty_3());
    let vcpu_events_part_4_shape = shape_of(&kvm_vcpu_events__bindgen_ty_4());
    let mut members: Vec<Member> = Vec::new();
    members.push(Member { name: "exception", shape: vcpu_events_part_1_shape });
    members.push(Member { name: "interrupt", shape: vcpu_events_part_2_shape });
    members.push(Member { name: "nmi", shape: vcpu_events_part_3_shape });
    members.push(Member { name: "sipi_vector", shape: integer(4) });
    members.push(Member { name: "flags", shape: integer(4) });
    members.push(Member { name: "smi", shape: vcpu_events_part_4_shape });
    members.push(Member { name: "reserved", shape: array_of(integer(1), 27) });
    members.push(Member { name: "exception_has_payload", shape: integer(1) });
    members.push(Member { name: "exception_payload", shape: integer(8) });
    assert(members@ =~= kvm_vcpu_events_members());
    declare("kvm_vcpu_events", false, members)
}

/// The members of `kvm_debugregs`.
pub open spec fn kvm_debugregs_members() -> Seq<Member> {
    seq![
        Member { name: "db", shape: spec_array_of(spec_integer(8), 4) },
        Member { name: "dr6", shape: spec_integer(8) },
        Member { name: "dr7", shape: spec_integer(8) },
        Member { name: "flags", shape: spec_integer(8) },
        Member { name: "reserved", shape: spec_array_of(spec_integer(8), 9) },
    ]
}

/// The debug registers of a processor.
pub fn kvm_debugregs() -> (r: Option<Layout>)
    ensures
        declared_as(r, "kvm_debugregs", false, kvm_debugregs_members()),
{
    let mut members: Vec<Member> = Vec::new();
    members.push(Member { name: "db", shape: array_of(integer(8), 4) });
    members.push(Member { name: "dr6", shape: integer(8) });
    members.push(Member { name: "dr7", shape: integer(8) });
    members.push(Member { name: "flags", shape: integer(8) });
    members.push(Member { name: "reserved", shape: array_of(integer(8), 9) });
    assert(members@ =~= kvm_debugregs_members());
    declare("kvm_debugregs", false, members)
}

/// The members of `kvm_xsave`.
pub open spec fn kvm_xsave_members() -> Seq<Member> {
    seq![
        Member { name: "region", shape: spec_array_of(spec_integer(4), 1024) },
    ]
}

/// The extended state of a processor.
pub fn kvm_xsave() -> (r: Option<Layout>)
    ensures
        declared_as(r, "kvm_xsave", false, kvm_xsave_members()),
{
    let mut members: Vec<Member> = Vec::new();
    members.push(Member { name: "region", shape: array_of(integer(4), 1024) });
    assert(members@ =~= kvm_xsave_members());
    declare("kvm_xsave", false, members)
}

/// The members of `kvm_xcr`.
pub open spec fn kvm_xcr_members() -> Seq<Member> {
    seq![
        Member { name: "xcr", shape: spec_integer(4) },
        Member { name: "reserved", shape: spec_integer(4) },
        Member { name: "value", shape: spec_integer(8) },
    ]
}

/// One extended control register.
pub fn kvm_xcr() -> (r: Option<Layout>)
    ensures
        declared_as(r, "kvm_xcr", false, kvm_xcr_members()),
{
    let mut members: Vec<Member> = Vec::new();
    members.push(Member { name: "xcr", shape: integer(4) });
    members.push(Member { name: "reserved", shape: integer(4) });
    members.push(Member { name: "value", shape: integer(8) });
    assert(members@ =~= kvm_xcr_members());
    declare("kvm_xcr", false, members)
}

/// The members of `kvm_xcrs`.
pub open spec fn kvm_xcrs_members() -> Seq<Member> {
    seq![
        Member { name: "nr_xcrs", shape: spec_integer(4) },
        Member { name: "flags", shape: spec_integer(4) },
        Member { name: "xcrs", shape: spec_array_of(spec_declared_shape(false, kvm_xcr_members()), 16) },
        Member { name: "padding", shape: spec_array_of(spec_integer(8), 16) },
    ]
}

/// The extended control registers of a processor.
pub fn kvm_xcrs() -> (r: Option<Layout>)
    ensures
        declared_as(r, "kvm_xcrs", false, kvm_xcrs_members()),
{
    let xcr_shape = shape_of(&kvm_xcr());
    let mut members: Vec<Member> = Vec::new();
    members.push(Member { name: "nr_xcrs", shape: integer(4) });
    members.push(Member { name: "flags", shape: integer(4) });
    members.push(Member { name: "xcrs", shape: array_of(xcr_shape, 16) });
    members.push(Member { name: "padding", shape: array_of(integer(8), 16) });
    assert(members@ =~= kvm_xcrs_members());
    declare("kvm_xcrs", false, members)
}

/// The members of `kvm_irqchip__bindgen_ty_1`.
pub open spec fn kvm_irqchip__bindgen_ty_1_members() -> Seq<Member> {
    seq![
        Member { name: "dummy", shape: spec_array_of(spec_integer(1), 512) },
        Member { name: "pic", shape: spec_declared_shape(false, kvm_pic_state_members()) },
        Member { name: "ioapic", shape: spec_declared_shape(false, kvm_ioapic_state_members()) },
    ]
}

/// The state of an interrupt controller of either kind.
pub fn kvm_irqchip__bindgen_ty_1() -> (r: Option<Layout>)
    ensures
        declared_as(r, "kvm_irqchip__bindgen_ty_1", true, kvm_irqchip__bindgen_ty_1_members()),
{
    let pic_state_shape = shape_of(&kvm_pic_state());
    let ioapic_state_shape = shape_of(&kvm_ioapic_state());
    let mut members: Vec<Member> = Vec::new();
    members.push(Member { name: "dummy", shape: array_of(integer(1), 512) });
    members.push(Member { name: "pic", shape: pic_state_shape });
    members.push(Member { name: "ioapic", shape: ioapic_state_shape });
    assert(members@ =~= kvm_irqchip__bindgen_ty_1_members());
    declare("kvm_irqchip__bindgen_ty_1", true, members)
}

/// The members of `kvm_irqchip`.
pub open spec fn kvm_irqchip_members() -> Seq<Member> {
    seq![
        Member { name: "chip_id", shape: spec_integer(4) },
        Member { name: "pad", shape: spec_integer(4) },
        Member { name: "chip", shape: spec_declared_shape(true, kvm_irqchip__bindgen_ty_1_members()) },
    ]
}

/// An interrupt controller and its state.
pub fn kvm_irqchip() -> (r: Option<Layout>)
    ensures
        declared_as(r, "kvm_irqchip", false, kvm_irqchip_members()),
{
    let irqchip_part_1_shape = shape_of(&kvm_irqchip__bindgen_ty_1());
    let mut members: Vec<Member> = Vec::new();
    members.push(Member { name: "chip_id", shape: integer(4) });
    members.push(Member { name: "pad", shape: integer(4) });
    members.push(Member { name: "chip", shape: irqchip_part_1_shape });
    assert(members@ =~= kvm_irqchip_members());
    declare("kvm_irqchip", false, members)
}

/// The members of `kvm_mp_state`.
pub open spec fn kvm_mp_state_members() -> Seq<Member> {
    seq![
        Member { name: "mp_state", shape: spec_integer(4) },
    ]
}

/// Whether a processor runs.
pub fn kvm_mp_state() -> (r: Option<Layout>)
    ensures
        declared_as(r, "kvm_mp_state", false, kvm_mp_state_members()),
{
    let mut members: Vec<Member> = Vec::new();
    members.push(Member { name: "mp_state", shape: integer(4) });
    assert(members@ =~= kvm_mp_state_members());
    declare("kvm_mp_state", false, members)
}

/// The members of `kvm_clock_data`.
pub open spec fn kvm_clock_data_members() -> Seq<Member> {
    seq![
        Member { name: "clock", shape: spec_integer(8) },
        Member { name: "flags", shape: spec_integer(4) },
        Member { name: "pad", shape: spec_array_of(spec_integer(4), 9) },
    ]
}

/// The clock of a virtual machine.
pub fn kvm_clock_data() -> (r: Option<Layout>)
    ensures
        declared_as(r, "kvm_clock_data", false, kvm_clock_data_members()),
{
    let mut members: Vec<Member> = Vec::new();
    members.push(Member { name: "clock", shape: integer(8) });
    members.push(Member { name: "flags", shape: integer(4) });
    members.push(Member { name: "pad", shape: array_of(integer(4), 9) });
    assert(members@ =~= kvm_clock_data_members());
    declare("kvm_clock_data", false, members)
}

} // verus!
