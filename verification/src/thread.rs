//! What a new thread needs from the root task's image: the thread-local
//! storage template among the program headers, and a frame to serve as its
//! IPC buffer.

use vstd::prelude::*;
use crate::boot::GRANULE_SIZE;

verus! {

/// The program header type of a thread-local storage segment.
pub const PT_TLS: u32 = 7;

/// The fields of an ELF program header that locate a segment.
#[derive(PartialEq, Eq, Structural, Clone, Copy, Debug)]
pub struct ProgramHeader {
    pub p_type: u32,
    pub p_vaddr: usize,
    pub p_filesz: usize,
    pub p_memsz: usize,
    pub p_align: usize,
}

/// A thread-local storage template as the image describes it, not yet
/// checked.
#[derive(PartialEq, Eq, Structural, Clone, Copy, Debug)]
pub struct UncheckedTlsImage {
    pub vaddr: usize,
    pub filesz: usize,
    pub memsz: usize,
    pub align: usize,
}

/// Whether some program header describes a thread-local storage segment.
pub open spec fn has_tls_segment(phdrs: Seq<ProgramHeader>) -> bool {
    exists|i: int| 0 <= i < phdrs.len() && (#[trigger] phdrs[i]).p_type == PT_TLS
}

/// `i` is the first thread-local storage segment.
pub open spec fn is_first_tls_segment(phdrs: Seq<ProgramHeader>, i: int) -> bool {
    &&& 0 <= i < phdrs.len()
    &&& phdrs[i].p_type == PT_TLS
    &&& forall|j: int| 0 <= j < i ==> (#[trigger] phdrs[j]).p_type != PT_TLS
}

/// The first thread-local storage segment, spelled out: a header of type 7
/// with no header of type 7 before it.
pub proof fn lemma_first_tls_segment_meaning(phdrs: Seq<ProgramHeader>, i: int)
    ensures
        is_first_tls_segment(phdrs, i) <==> {
            &&& 0 <= i < phdrs.len()
            &&& phdrs[i].p_type == 7
            &&& forall|j: int| 0 <= j < i ==> (#[trigger] phdrs[j]).p_type != 7
        },
{
}

/// The template described by the first thread-local storage segment.
pub fn get_tls_image(phdrs: &Vec<ProgramHeader>) -> (image: UncheckedTlsImage)
    requires
        has_tls_segment(phdrs@),
    ensures
        exists|i: int|
            is_first_tls_segment(phdrs@, i) && image == (UncheckedTlsImage {
                vaddr: (#[trigger] phdrs@[i]).p_vaddr,
                filesz: phdrs@[i].p_filesz,
                memsz: phdrs@[i].p_memsz,
                align: phdrs@[i].p_align,
            }),
{
    let mut j: usize = 0;
    while j < phdrs.len()
        invariant
            j <= phdrs.len(),
            has_tls_segment(phdrs@),
            forall|t: int| 0 <= t < j ==> (#[trigger] phdrs@[t]).p_type != PT_TLS,
        decreases phdrs.len() - j,
    {
        let phdr = phdrs[j];
        if phdr.p_type == PT_TLS {
            let image = UncheckedTlsImage {
                vaddr: phdr.p_vaddr,
                filesz: phdr.p_filesz,
                memsz: phdr.p_memsz,
                align: phdr.p_align,
            };
            assert(is_first_tls_segment(phdrs@, j as int));
            return image;
        }
        j = j + 1;
    }
    proof {
        let w = choose|w: int| 0 <= w < phdrs@.len() && (#[trigger] phdrs@[w]).p_type == PT_TLS;
        assert(phdrs@[w].p_type != PT_TLS);
    }
    UncheckedTlsImage { vaddr: 0, filesz: 0, memsz: 0, align: 0 }
}

/// The bytes of one granule that a thread uses as its IPC buffer. Only the
/// contents are modelled: the page alignment that the kernel needs of an
/// IPC buffer is not a property of this type, and the program that maps
/// the buffer keeps its own page-aligned frame.
pub struct IpcBufferFrame {
    bytes: [u8; 4096],
}

impl IpcBufferFrame {
    /// The bytes of the frame.
    pub closed spec fn contents(&self) -> Seq<u8> {
        self.bytes@
    }

    /// The contents of a fresh frame: `GRANULE_SIZE` zero bytes.
    pub fn new() -> (frame: Self)
        ensures
            frame.contents().len() == GRANULE_SIZE,
            forall|i: int| 0 <= i < GRANULE_SIZE ==> #[trigger] frame.contents()[i] == 0,
    {
        IpcBufferFrame { bytes: [0u8; 4096] }
    }

    /// The bytes of the frame, in order.
    pub fn as_bytes(&self) -> (b: &[u8])
        ensures
            b@ == self.contents(),
    {
        self.bytes.as_slice()
    }
}

} // verus!
