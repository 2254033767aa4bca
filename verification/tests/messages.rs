use sel4_root_logic::child::{
    child_cnode_guard_size, child_cnode_mints, child_entry_point, plan_child_objects, ChildObjects,
    CHILD_CNODE_SIZE_BITS, CHILD_INTRA_TASK_EP, CHILD_OWN_TCB, WORD_SIZE,
};
use sel4_root_logic::allocator::ObjectAllocator;
use sel4_root_logic::boot::{BootInfo, SlotRegion, UntypedDesc};
use sel4_root_logic::invocation::{CapRights, Invocation, ObjectBlueprint};
use sel4_root_logic::protocol::{
    child_message, client_check_reply, client_notified, parent_check_message,
    primary_check_message, secondary_thread_message, server_protected, Message,
};
use sel4_root_logic::thread::{get_tls_image, IpcBufferFrame, ProgramHeader, UncheckedTlsImage, PT_TLS};

fn msg(label: u64, length: usize, mr0: u64, mr1: u64) -> Message {
    Message { label, length, mr0, mr1 }
}

#[test]
fn client_calls_only_when_server_notifies() {
    assert_eq!(client_notified(false), None);
    assert_eq!(client_notified(true), Some(msg(0, 1, 0xf00d, 0)));
}

#[test]
fn server_answers_request_and_client_takes_answer() {
    let request = client_notified(true).unwrap();
    let reply = server_protected(request).unwrap();
    assert_eq!(reply, msg(0, 1, 0xf33d, 0));
    assert!(client_check_reply(reply));
}

#[test]
fn server_refuses_wrong_requests() {
    assert_eq!(server_protected(msg(0, 2, 0xf00d, 0)), None);
    assert_eq!(server_protected(msg(0, 1, 0xf00e, 0)), None);
    assert_eq!(server_protected(msg(9, 1, 0xf00d, 5)), Some(msg(0, 1, 0xf33d, 0)));
}

#[test]
fn client_refuses_wrong_replies() {
    assert!(!client_check_reply(msg(0, 0, 0xf33d, 0)));
    assert!(!client_check_reply(msg(0, 1, 0xf00d, 0)));
}

#[test]
fn secondary_thread_message_is_accepted() {
    let m = secondary_thread_message();
    assert_eq!(m, msg(123, 2, 456, 789));
    assert!(primary_check_message(m));
    assert!(!primary_check_message(msg(123, 2, 456, 788)));
    assert!(!primary_check_message(msg(124, 2, 456, 789)));
}

#[test]
fn child_message_is_accepted() {
    let m = child_message();
    assert_eq!(m, msg(0, 1, 1337, 0));
    assert!(parent_check_message(m));
    assert!(!parent_check_message(msg(0, 2, 1337, 0)));
}

#[test]
fn child_objects_and_mints() {
    let bi = BootInfo {
        untyped: SlotRegion { start: 3, end: 4 },
        untyped_list: vec![UntypedDesc { paddr: 0x4000_0000, size_bits: 20, is_device: false }],
        empty: SlotRegion { start: 40, end: 50 },
        user_image_frames: SlotRegion { start: 1, end: 2 },
    };
    let mut a = ObjectAllocator::new(&bi);
    let (plan, objects) = plan_child_objects(&mut a);
    assert_eq!(objects, ChildObjects { endpoint: 40, cnode: 41, tcb: 42 });
    assert_eq!(
        plan,
        vec![
            Invocation::Retype { untyped: 3, blueprint: ObjectBlueprint::Endpoint, dest_slot: 40 },
            Invocation::Retype {
                untyped: 3,
                blueprint: ObjectBlueprint::CNode { size_bits: 4 },
                dest_slot: 41
            },
            Invocation::Retype { untyped: 3, blueprint: ObjectBlueprint::Tcb, dest_slot: 42 },
        ]
    );
    let mints = child_cnode_mints(objects);
    assert_eq!(
        mints,
        vec![
            Invocation::Mint {
                cnode_slot: 41,
                dest_index: CHILD_OWN_TCB,
                depth: CHILD_CNODE_SIZE_BITS,
                src_slot: 42,
                rights: CapRights::All,
                badge: 0
            },
            Invocation::Mint {
                cnode_slot: 41,
                dest_index: CHILD_INTRA_TASK_EP,
                depth: CHILD_CNODE_SIZE_BITS,
                src_slot: 40,
                rights: CapRights::WriteOnly,
                badge: 0
            },
        ]
    );
}

#[test]
fn child_cnode_guard_fills_the_word() {
    assert_eq!(child_cnode_guard_size(CHILD_CNODE_SIZE_BITS), WORD_SIZE - 4);
    assert_eq!(child_cnode_guard_size(0), WORD_SIZE);
    assert_eq!(WORD_SIZE, usize::BITS as usize);
}

fn elf64_header(entry: u64) -> Vec<u8> {
    let mut h = vec![0u8; 64];
    h[0..4].copy_from_slice(&[0x7f, b'E', b'L', b'F']);
    h[4] = 2; // 64-bit
    h[5] = 1; // little endian
    h[6] = 1; // version
    h[16..18].copy_from_slice(&2u16.to_le_bytes()); // executable
    h[18..20].copy_from_slice(&183u16.to_le_bytes()); // aarch64
    h[20..24].copy_from_slice(&1u32.to_le_bytes());
    h[24..32].copy_from_slice(&entry.to_le_bytes());
    h[52..54].copy_from_slice(&64u16.to_le_bytes()); // header size
    h[54..56].copy_from_slice(&56u16.to_le_bytes()); // program header size
    h[58..60].copy_from_slice(&64u16.to_le_bytes()); // section header size
    h
}

#[test]
fn child_entry_point_reads_elf_entry() {
    assert_eq!(child_entry_point(&elf64_header(0x40_0123)), Some(0x40_0123));
    assert_eq!(child_entry_point(&elf64_header(0x21_0000)), Some(0x21_0000));
}

#[test]
fn child_entry_point_refuses_non_elf() {
    assert_eq!(child_entry_point(b"not an elf image at all, just some bytes"), None);
    assert_eq!(child_entry_point(&[]), None);
}

fn phdr(p_type: u32, base: usize) -> ProgramHeader {
    ProgramHeader { p_type, p_vaddr: base, p_filesz: base + 1, p_memsz: base + 2, p_align: 16 }
}

#[test]
fn tls_image_from_first_tls_segment() {
    let phdrs = vec![phdr(1, 0x1000), phdr(PT_TLS, 0x2000), phdr(PT_TLS, 0x3000)];
    assert_eq!(
        get_tls_image(&phdrs),
        UncheckedTlsImage { vaddr: 0x2000, filesz: 0x2001, memsz: 0x2002, align: 16 }
    );
}

#[test]
fn ipc_buffer_frame_is_one_zeroed_granule() {
    let f = IpcBufferFrame::new();
    assert_eq!(f.as_bytes().len(), 4096);
    assert!(f.as_bytes().iter().all(|b| *b == 0));
}

#[test]
fn child_entry_point_ignores_buffer_alignment() {
    let header = elf64_header(0x40_0123);
    for offset in 0..8 {
        let mut buf = vec![0u8; offset];
        buf.extend_from_slice(&header);
        assert_eq!(child_entry_point(&buf[offset..]), Some(0x40_0123));
    }
}
