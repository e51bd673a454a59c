//! 64-bit little-endian RISC-V ELF executables: header validation and
//! extraction of the loadable segments.

use crate::bits::{le16, le32, le64};
use vstd::prelude::*;

verus! {

pub const ELF_CLASS64: u8 = 2;

pub const ELF_DATA2LSB: u8 = 1;

pub const EM_RISCV: u16 = 0xF3;

pub const PT_LOAD: u32 = 1;

#[derive(Debug, Clone, Copy, PartialEq, Eq, Structural)]
pub enum ElfError {
    InvalidMagic,
    InvalidClass,
    InvalidMachine,
    InvalidEndian,
    ParseError,
}

pub open spec fn le16_at(b: Seq<u8>, off: int) -> u16 {
    le16(b[off], b[off + 1])
}

pub open spec fn le32_at(b: Seq<u8>, off: int) -> u32 {
    le32(b[off], b[off + 1], b[off + 2], b[off + 3])
}

pub open spec fn le64_at(b: Seq<u8>, off: int) -> u64 {
    le64(
        b[off],
        b[off + 1],
        b[off + 2],
        b[off + 3],
        b[off + 4],
        b[off + 5],
        b[off + 6],
        b[off + 7],
    )
}

/// The four magic bytes that open every ELF file.
pub open spec fn magic_ok(b: Seq<u8>) -> bool {
    b[0] == 0x7Fu8 && b[1] == 0x45u8 && b[2] == 0x4Cu8 && b[3] == 0x46u8
}

/// What parsing the file header yields, by the precedence the validation
/// follows: a file under the header size is truncated; then the magic,
/// class, endianness and machine are checked in that order.
pub open spec fn header_result(b: Seq<u8>) -> Result<(), ElfError> {
    if b.len() < 0x3A {
        Err(ElfError::ParseError)
    } else if !magic_ok(b) {
        Err(ElfError::InvalidMagic)
    } else if b[4] != ELF_CLASS64 {
        Err(ElfError::InvalidClass)
    } else if b[5] != ELF_DATA2LSB {
        Err(ElfError::InvalidEndian)
    } else if le16_at(b, 0x12) != EM_RISCV {
        Err(ElfError::InvalidMachine)
    } else {
        Ok(())
    }
}

/// The loadable segments the program-header table describes, or nothing
/// when a header or its file data lies outside the file: the first `n`
/// table entries, keeping each PT_LOAD entry's virtual address, file
/// bytes, and memory size.
pub open spec fn segs_spec(b: Seq<u8>, phoff: int, phentsize: int, n: int) -> Option<
    Seq<(u64, Seq<u8>, u64)>,
>
    decreases n,
{
    if n <= 0 {
        Some(Seq::empty())
    } else {
        match segs_spec(b, phoff, phentsize, n - 1) {
            None => None,
            Some(prefix) => {
                let off = phoff + (n - 1) * phentsize;
                if !(0 <= off && off + 0x38 <= b.len()) {
                    None
                } else if le32_at(b, off) == PT_LOAD {
                    let poff = le64_at(b, off + 8);
                    let pvaddr = le64_at(b, off + 0x10);
                    let pfilesz = le64_at(b, off + 0x20);
                    let pmemsz = le64_at(b, off + 0x28);
                    if poff + pfilesz <= b.len() {
                        Some(
                            prefix.push(
                                (pvaddr, b.subrange(poff as int, poff + pfilesz), pmemsz),
                            ),
                        )
                    } else {
                        None
                    }
                } else {
                    Some(prefix)
                }
            },
        }
    }
}

/// One loadable segment: `data` goes to `vaddr`, and the rest of the
/// `memsz` bytes are zero-filled.
pub struct Segment {
    pub vaddr: u64,
    pub data: Vec<u8>,
    pub memsz: u64,
}

pub struct ElfFile {
    pub entry: u64,
    pub segments: Vec<Segment>,
}

pub struct ElfHeader {
    pub e_ident: [u8; 16],
    pub e_machine: u16,
    pub e_entry: u64,
    pub e_phoff: u64,
    pub e_phentsize: u16,
    pub e_phnum: u16,
}

pub struct ProgramHeader {
    pub p_type: u32,
    pub p_flags: u32,
    pub p_offset: u64,
    pub p_vaddr: u64,
    pub p_paddr: u64,
    pub p_filesz: u64,
    pub p_memsz: u64,
    pub p_align: u64,
}

fn read_u16(bytes: &[u8], off: usize) -> (r: u16)
    requires
        off + 2 <= bytes@.len(),
    ensures
        r == le16_at(bytes@, off as int),
{
    (bytes[off] as u16) + (bytes[off + 1] as u16) * 0x100
}

fn read_u32(bytes: &[u8], off: usize) -> (r: u32)
    requires
        off + 4 <= bytes@.len(),
    ensures
        r == le32_at(bytes@, off as int),
{
    (bytes[off] as u32) + (bytes[off + 1] as u32) * 0x100 + (bytes[off + 2] as u32) * 0x10000 + (
    bytes[off + 3] as u32) * 0x1000000
}

fn read_u64(bytes: &[u8], off: usize) -> (r: u64)
    requires
        off + 8 <= bytes@.len(),
    ensures
        r == le64_at(bytes@, off as int),
{
    (bytes[off] as u64) + (bytes[off + 1] as u64) * 0x100 + (bytes[off + 2] as u64) * 0x10000 + (
    bytes[off + 3] as u64) * 0x1000000 + (bytes[off + 4] as u64) * 0x100000000 + (bytes[off
        + 5] as u64) * 0x10000000000 + (bytes[off + 6] as u64) * 0x1000000000000 + (bytes[off
        + 7] as u64) * 0x100000000000000
}

impl ElfHeader {
    /// Reads and validates the file header.
    pub fn parse(bytes: &[u8]) -> (r: Result<ElfHeader, ElfError>)
        ensures
            match header_result(bytes@) {
                Err(e) => r == Err::<ElfHeader, ElfError>(e),
                Ok(()) => r matches Ok(h) && {
                    &&& h.e_ident@ == bytes@.subrange(0, 16)
                    &&& h.e_machine == le16_at(bytes@, 0x12)
                    &&& h.e_entry == le64_at(bytes@, 0x18)
                    &&& h.e_phoff == le64_at(bytes@, 0x20)
                    &&& h.e_phentsize == le16_at(bytes@, 0x36)
                    &&& h.e_phnum == le16_at(bytes@, 0x38)
                },
            },
    {
        if bytes.len() < 0x3A {
            return Err(ElfError::ParseError);
        }
        let e_ident: [u8; 16] = [
            bytes[0],
            bytes[1],
            bytes[2],
            bytes[3],
            bytes[4],
            bytes[5],
            bytes[6],
            bytes[7],
            bytes[8],
            bytes[9],
            bytes[10],
            bytes[11],
            bytes[12],
            bytes[13],
            bytes[14],
            bytes[15],
        ];
        let header = ElfHeader {
            e_ident,
            e_machine: read_u16(bytes, 0x12),
            e_entry: read_u64(bytes, 0x18),
            e_phoff: read_u64(bytes, 0x20),
            e_phentsize: read_u16(bytes, 0x36),
            e_phnum: read_u16(bytes, 0x38),
        };
        proof {
            assert(header.e_ident@ =~= bytes@.subrange(0, 16));
        }
        match header.validate() {
            Ok(u) => u,
            Err(e) => {
                return Err(e);
            },
        }
        Ok(header)
    }

    /// Checks the magic, the 64-bit class, the little-endian data
    /// encoding, and the RISC-V machine type, in that order.
    pub fn validate(&self) -> (r: Result<(), ElfError>)
        ensures
            r == (if !(self.e_ident@[0] == 0x7Fu8 && self.e_ident@[1] == 0x45u8 && self.e_ident@[2]
                == 0x4Cu8 && self.e_ident@[3] == 0x46u8) {
                Err::<(), ElfError>(ElfError::InvalidMagic)
            } else if self.e_ident@[4] != ELF_CLASS64 {
                Err::<(), ElfError>(ElfError::InvalidClass)
            } else if self.e_ident@[5] != ELF_DATA2LSB {
                Err::<(), ElfError>(ElfError::InvalidEndian)
            } else if self.e_machine != EM_RISCV {
                Err::<(), ElfError>(ElfError::InvalidMachine)
            } else {
                Ok::<(), ElfError>(())
            }),
    {
        if !(self.e_ident[0] == 0x7F && self.e_ident[1] == 0x45 && self.e_ident[2] == 0x4C
            && self.e_ident[3] == 0x46) {
            return Err(ElfError::InvalidMagic);
        }
        if self.e_ident[4] != ELF_CLASS64 {
            return Err(ElfError::InvalidClass);
        }
        if self.e_ident[5] != ELF_DATA2LSB {
            return Err(ElfError::InvalidEndian);
        }
        if self.e_machine != EM_RISCV {
            return Err(ElfError::InvalidMachine);
        }
        Ok(())
    }

    pub fn entry(&self) -> (r: u64)
        ensures
            r == self.e_entry,
    {
        self.e_entry
    }

    pub fn phoff(&self) -> (r: u64)
        ensures
            r == self.e_phoff,
    {
        self.e_phoff
    }

    pub fn phentsize(&self) -> (r: u16)
        ensures
            r == self.e_phentsize,
    {
        self.e_phentsize
    }

    pub fn phnum(&self) -> (r: u16)
        ensures
            r == self.e_phnum,
    {
        self.e_phnum
    }
}

impl ProgramHeader {
    /// Reads one program-header table entry from the start of `bytes`.
    pub fn parse(bytes: &[u8]) -> (r: Result<ProgramHeader, ElfError>)
        ensures
            bytes@.len() < 0x38 ==> r == Err::<ProgramHeader, ElfError>(ElfError::ParseError),
            bytes@.len() >= 0x38 ==> (r matches Ok(ph) && {
                &&& ph.p_type == le32_at(bytes@, 0)
                &&& ph.p_flags == le32_at(bytes@, 4)
                &&& ph.p_offset == le64_at(bytes@, 8)
                &&& ph.p_vaddr == le64_at(bytes@, 0x10)
                &&& ph.p_paddr == le64_at(bytes@, 0x18)
                &&& ph.p_filesz == le64_at(bytes@, 0x20)
                &&& ph.p_memsz == le64_at(bytes@, 0x28)
                &&& ph.p_align == le64_at(bytes@, 0x30)
            }),
    {
        if bytes.len() < 0x38 {
            return Err(ElfError::ParseError);
        }
        Ok(
            ProgramHeader {
                p_type: read_u32(bytes, 0x00),
                p_flags: read_u32(bytes, 0x04),
                p_offset: read_u64(bytes, 0x08),
                p_vaddr: read_u64(bytes, 0x10),
                p_paddr: read_u64(bytes, 0x18),
                p_filesz: read_u64(bytes, 0x20),
                p_memsz: read_u64(bytes, 0x28),
                p_align: read_u64(bytes, 0x30),
            },
        )
    }

    pub fn p_type(&self) -> (r: u32)
        ensures
            r == self.p_type,
    {
        self.p_type
    }

    pub fn vaddr(&self) -> (r: u64)
        ensures
            r == self.p_vaddr,
    {
        self.p_vaddr
    }

    pub fn offset(&self) -> (r: u64)
        ensures
            r == self.p_offset,
    {
        self.p_offset
    }

    pub fn filesz(&self) -> (r: u64)
        ensures
            r == self.p_filesz,
    {
        self.p_filesz
    }

    pub fn memsz(&self) -> (r: u64)
        ensures
            r == self.p_memsz,
    {
        self.p_memsz
    }
}

/// If the `i`-th table entry does not fit in the file, the whole table is
/// malformed.
proof fn lemma_segs_bad_header(b: Seq<u8>, phoff: int, phentsize: int, i: int, n: int)
    requires
        0 <= i < n,
    ensures
        !(0 <= phoff + i * phentsize && phoff + i * phentsize + 0x38 <= b.len()) ==> segs_spec(
            b,
            phoff,
            phentsize,
            n,
        ) is None,
        ({
            let off = phoff + i * phentsize;
            0 <= off && off + 0x38 <= b.len() && le32_at(b, off) == PT_LOAD && !(le64_at(b, off + 8)
                + le64_at(b, off + 0x20) <= b.len())
        }) ==> segs_spec(b, phoff, phentsize, n) is None,
    decreases n - i,
{
    if i + 1 < n {
        lemma_segs_bad_header(b, phoff, phentsize, i, n - 1);
    }
}

proof fn lemma_segs_none_mono(b: Seq<u8>, phoff: int, phentsize: int, i: int, n: int)
    requires
        0 <= i <= n,
        segs_spec(b, phoff, phentsize, i) is None,
    ensures
        segs_spec(b, phoff, phentsize, n) is None,
    decreases n - i,
{
    if i < n {
        lemma_segs_none_mono(b, phoff, phentsize, i + 1, n);
    }
}

impl ElfFile {
    /// Parses a whole executable: validates the header and collects the
    /// PT_LOAD segments in table order.
    #[verifier::rlimit(100)]
    pub fn load(bytes: &[u8]) -> (r: Result<ElfFile, ElfError>)
        ensures
            match header_result(bytes@) {
                Err(e) => r == Err::<ElfFile, ElfError>(e),
                Ok(()) => {
                    match segs_spec(
                        bytes@,
                        le64_at(bytes@, 0x20) as int,
                        le16_at(bytes@, 0x36) as int,
                        le16_at(bytes@, 0x38) as int,
                    ) {
                        None => r == Err::<ElfFile, ElfError>(ElfError::ParseError),
                        Some(ss) => r matches Ok(f) && {
                            &&& f.entry == le64_at(bytes@, 0x18)
                            &&& f.segments@.len() == ss.len()
                            &&& forall|i: int|
                                0 <= i < ss.len() ==> (#[trigger] f.segments@[i]).vaddr == ss[i].0
                                    && f.segments@[i].data@ == ss[i].1 && f.segments@[i].memsz
                                    == ss[i].2
                        },
                    }
                },
            },
    {
        let header = match ElfHeader::parse(bytes) {
            Ok(h) => h,
            Err(e) => {
                return Err(e);
            },
        };
        let len: usize = bytes.len();
        let phentsize: u16 = header.phentsize();
        let phoff: u64 = header.phoff();
        let phnum: u16 = header.phnum();
        let mut segments: Vec<Segment> = Vec::new();
        let n: usize = phnum as usize;
        let mut i: usize = 0;
        while i < n
            invariant
                header_result(bytes@) == Ok::<(), ElfError>(()),
                n == le16_at(bytes@, 0x38) as int,
                phoff == le64_at(bytes@, 0x20),
                phentsize == le16_at(bytes@, 0x36),
                i <= n,
                len == bytes@.len(),
                segs_spec(bytes@, phoff as int, phentsize as int, i as int) matches Some(ss) && {
                    &&& segments@.len() == ss.len()
                    &&& forall|j: int|
                        0 <= j < ss.len() ==> (#[trigger] segments@[j]).vaddr == ss[j].0
                            && segments@[j].data@ == ss[j].1 && segments@[j].memsz == ss[j].2
                },
            decreases n - i,
        {
    
            proof {
                lemma_segs_bad_header(bytes@, phoff as int, phentsize as int, i as int, n as int);
            }
            let off128: u64 = match (i as u64).checked_mul(phentsize as u64) {
                Some(p) => {
                    match phoff.checked_add(p) {
                        Some(q) => q,
                        None => {
                            proof {
                                assert((i as u64) * (phentsize as u64) == i * phentsize);
                                assert(i * phentsize >= 0) by (nonlinear_arith)
                                    requires
                                        i >= 0,
                                        phentsize >= 0,
                                ;
                            }
                            return Err(ElfError::ParseError);
                        },
                    }
                },
                None => {
                    proof {
                        assert((i as u64) * (phentsize as u64) <= 0xFFFF * 0xFFFFFFFF)
                            by (nonlinear_arith)
                            requires
                                0 <= (i as u64) <= 0xFFFF,
                                0 <= (phentsize as u64) <= 0xFFFFFFFF,
                        ;
                        assert(false);
                    }
                    return Err(ElfError::ParseError);
                },
            };
            if off128 > len as u64 || len - (off128 as usize) < 0x38 {
                return Err(ElfError::ParseError);
            }
            let offset: usize = off128 as usize;
            let ph_type: u32 = read_u32(bytes, offset);
            if ph_type == PT_LOAD {
                let p_offset: u64 = read_u64(bytes, offset + 8);
                let p_vaddr: u64 = read_u64(bytes, offset + 0x10);
                let p_filesz: u64 = read_u64(bytes, offset + 0x20);
                let p_memsz: u64 = read_u64(bytes, offset + 0x28);
                let end: u64 = match p_offset.checked_add(p_filesz) {
                    Some(e) => e,
                    None => {
                        return Err(ElfError::ParseError);
                    },
                };
                if end > len as u64 {
                    return Err(ElfError::ParseError);
                }
                let mut data: Vec<u8> = Vec::new();
                let start: usize = p_offset as usize;
                let stop: usize = end as usize;
                let mut k: usize = start;
                while k < stop
                    invariant
                        start <= k <= stop,
                        stop <= bytes@.len(),
                        data@ == bytes@.subrange(start as int, k as int),
                    decreases stop - k,
                {
                    data.push(bytes[k]);
                    proof {
                        assert(data@ =~= bytes@.subrange(start as int, k + 1));
                    }
                    k += 1;
                }
                segments.push(Segment { vaddr: p_vaddr, data, memsz: p_memsz });
            }
            i += 1;
        }
        Ok(ElfFile { entry: header.entry(), segments })
    }
}

} // verus!
