//! The SDSS header: 64 bytes, little-endian, byte-packed.
//!
//! | bytes  | field                                   |
//! |--------|-----------------------------------------|
//! | 0..8   | magic                                   |
//! | 8..10  | header format version                   |
//! | 10     | byte order of the encoding (0: little)  |
//! | 11     | pointer width of the host (0: 32, 1: 64)|
//! | 12..16 | reserved                                |
//! | 16..18 | file scope                              |
//! | 18..20 | file specifier                          |
//! | 20..24 | file specifier version                  |
//! | 24..32 | reserved                                |
//! | 32..36 | host setting version                    |
//! | 36     | host run mode                           |
//! | 37..45 | host startup counter                    |
//! | 45..53 | modify counter                          |
//! | 53..64 | reserved                                |
//!
//! The first 32 bytes are the static record, which is written once. The rest is the dynamic
//! record, which is written again on every open. Reserved bytes are written as zero and not
//! looked at when a header is read.
use vstd::prelude::*;
use vstd::bytes::*;
use crate::error::{SDSSError, SDSSResult};

verus! {

/// The size of a header in bytes
pub const HEADER_SIZE: usize = 64;

/// The bytes `SKYTBSDS`, read as a little-endian number
pub const MAGIC: u64 = 0x5344_5342_5459_4b53;

/// The version of the header format
pub const HEADER_VERSION: u16 = 1;

/// What kind of file this is
#[derive(Debug, Clone, Copy, PartialEq, Eq, Structural)]
pub enum FileScope {
    Journal,
    DataBatch,
}

/// What the file is for
#[derive(Debug, Clone, Copy, PartialEq, Eq, Structural)]
pub enum FileSpecifier {
    GNSTxnLog,
    TableDataBatch,
}

/// The version of the body format that the specifier names
#[derive(Debug, Clone, Copy, PartialEq, Eq, Structural)]
pub struct FileSpecifierVersion(pub u32);

/// The mode that the host ran in when it last wrote the header
#[derive(Debug, Clone, Copy, PartialEq, Eq, Structural)]
pub enum HostRunMode {
    Dev,
    Prod,
}

/// The pointer width of the host that created the file
#[derive(Debug, Clone, Copy, PartialEq, Eq, Structural)]
pub enum HostPointerWidth {
    P32,
    P64,
}

/// The part of the header that changes while the file lives
#[derive(Debug, Clone, Copy, PartialEq, Eq, Structural)]
pub struct DynamicRecord {
    pub host_setting_version: u32,
    pub host_run_mode: HostRunMode,
    pub host_startup_counter: u64,
    pub modify_count: u64,
}

/// A decoded header
#[derive(Debug, Clone, Copy, PartialEq, Eq, Structural)]
pub struct SDSSHeader {
    pub pointer_width: HostPointerWidth,
    pub file_scope: FileScope,
    pub file_specifier: FileSpecifier,
    pub file_specifier_version: FileSpecifierVersion,
    pub dr: DynamicRecord,
}

impl FileScope {
    /// The number that stands for this value in a header
    pub open spec fn code(self) -> u16 {
        match self {
            FileScope::Journal => 0,
            FileScope::DataBatch => 1,
        }
    }

    /// The value that the number `c` stands for in a header, if any
    pub open spec fn from_code(c: u16) -> Option<FileScope> {
        if c == 0 {
            Some(FileScope::Journal)
        } else if c == 1 {
            Some(FileScope::DataBatch)
        } else {
            None
        }
    }

    /// The number that stands for this value in a header
    fn value(self) -> (c: u16)
        ensures
            c == self.code(),
    {
        match self {
            FileScope::Journal => 0,
            FileScope::DataBatch => 1,
        }
    }

    /// The value that the number `c` stands for in a header, if any
    fn try_new(c: u16) -> (r: Option<FileScope>)
        ensures
            r == FileScope::from_code(c),
    {
        if c == 0 {
            Some(FileScope::Journal)
        } else if c == 1 {
            Some(FileScope::DataBatch)
        } else {
            None
        }
    }
}

impl FileSpecifier {
    /// The number that stands for this value in a header
    pub open spec fn code(self) -> u16 {
        match self {
            FileSpecifier::GNSTxnLog => 0,
            FileSpecifier::TableDataBatch => 1,
        }
    }

    /// The value that the number `c` stands for in a header, if any
    pub open spec fn from_code(c: u16) -> Option<FileSpecifier> {
        if c == 0 {
            Some(FileSpecifier::GNSTxnLog)
        } else if c == 1 {
            Some(FileSpecifier::TableDataBatch)
        } else {
            None
        }
    }

    /// The number that stands for this value in a header
    fn value(self) -> (c: u16)
        ensures
            c == self.code(),
    {
        match self {
            FileSpecifier::GNSTxnLog => 0,
            FileSpecifier::TableDataBatch => 1,
        }
    }

    /// The value that the number `c` stands for in a header, if any
    fn try_new(c: u16) -> (r: Option<FileSpecifier>)
        ensures
            r == FileSpecifier::from_code(c),
    {
        if c == 0 {
            Some(FileSpecifier::GNSTxnLog)
        } else if c == 1 {
            Some(FileSpecifier::TableDataBatch)
        } else {
            None
        }
    }
}

impl HostRunMode {
    /// The number that stands for this value in a header
    pub open spec fn code(self) -> u8 {
        match self {
            HostRunMode::Dev => 0,
            HostRunMode::Prod => 1,
        }
    }

    /// The value that the number `c` stands for in a header, if any
    pub open spec fn from_code(c: u8) -> Option<HostRunMode> {
        if c == 0 {
            Some(HostRunMode::Dev)
        } else if c == 1 {
            Some(HostRunMode::Prod)
        } else {
            None
        }
    }

    /// The number that stands for this value in a header
    fn value(self) -> (c: u8)
        ensures
            c == self.code(),
    {
        match self {
            HostRunMode::Dev => 0,
            HostRunMode::Prod => 1,
        }
    }

    /// The value that the number `c` stands for in a header, if any
    fn try_new(c: u8) -> (r: Option<HostRunMode>)
        ensures
            r == HostRunMode::from_code(c),
    {
        if c == 0 {
            Some(HostRunMode::Dev)
        } else if c == 1 {
            Some(HostRunMode::Prod)
        } else {
            None
        }
    }
}

impl HostPointerWidth {
    /// The number that stands for this value in a header
    pub open spec fn code(self) -> u8 {
        match self {
            HostPointerWidth::P32 => 0,
            HostPointerWidth::P64 => 1,
        }
    }

    /// The value that the number `c` stands for in a header, if any
    pub open spec fn from_code(c: u8) -> Option<HostPointerWidth> {
        if c == 0 {
            Some(HostPointerWidth::P32)
        } else if c == 1 {
            Some(HostPointerWidth::P64)
        } else {
            None
        }
    }

    /// The pointer width of this host
    pub open spec fn host() -> HostPointerWidth {
        if usize::BITS == 64 {
            HostPointerWidth::P64
        } else {
            HostPointerWidth::P32
        }
    }

    /// The pointer width of this host
    pub fn new() -> (r: HostPointerWidth)
        ensures
            r == HostPointerWidth::host(),
    {
        if usize::BITS == 64 {
            HostPointerWidth::P64
        } else {
            HostPointerWidth::P32
        }
    }

    /// The number that stands for this value in a header
    fn value(self) -> (c: u8)
        ensures
            c == self.code(),
    {
        match self {
            HostPointerWidth::P32 => 0,
            HostPointerWidth::P64 => 1,
        }
    }

    /// The value that the number `c` stands for in a header, if any
    fn try_new(c: u8) -> (r: Option<HostPointerWidth>)
        ensures
            r == HostPointerWidth::from_code(c),
    {
        if c == 0 {
            Some(HostPointerWidth::P32)
        } else if c == 1 {
            Some(HostPointerWidth::P64)
        } else {
            None
        }
    }
}

/// The byte at position `i` of the encoding of the header `h`
pub open spec fn encoded_byte(h: SDSSHeader, i: int) -> u8 {
    if 0 <= i < 8 {
        spec_u64_to_le_bytes(MAGIC)[i]
    } else if 8 <= i < 10 {
        spec_u16_to_le_bytes(HEADER_VERSION)[i - 8]
    } else if i == 11 {
        h.pointer_width.code()
    } else if 16 <= i < 18 {
        spec_u16_to_le_bytes(h.file_scope.code())[i - 16]
    } else if 18 <= i < 20 {
        spec_u16_to_le_bytes(h.file_specifier.code())[i - 18]
    } else if 20 <= i < 24 {
        spec_u32_to_le_bytes(h.file_specifier_version.0)[i - 20]
    } else if 32 <= i < 36 {
        spec_u32_to_le_bytes(h.dr.host_setting_version)[i - 32]
    } else if i == 36 {
        h.dr.host_run_mode.code()
    } else if 37 <= i < 45 {
        spec_u64_to_le_bytes(h.dr.host_startup_counter)[i - 37]
    } else if 45 <= i < 53 {
        spec_u64_to_le_bytes(h.dr.modify_count)[i - 45]
    } else {
        0
    }
}

/// The encoding of the header `h`
pub open spec fn encode(h: SDSSHeader) -> Seq<u8> {
    Seq::new(HEADER_SIZE as nat, |i: int| encoded_byte(h, i))
}

/// The header that the bytes `b` encode, if they are 64 bytes that begin with the magic
/// and the format version of this format, give the byte order as little-endian, and hold
/// a known code in each of the other fields
pub open spec fn decode(b: Seq<u8>) -> Option<SDSSHeader> {
    let pointer_width = HostPointerWidth::from_code(b[11]);
    let file_scope = FileScope::from_code(spec_u16_from_le_bytes(b.subrange(16, 18)));
    let file_specifier = FileSpecifier::from_code(spec_u16_from_le_bytes(b.subrange(18, 20)));
    let host_run_mode = HostRunMode::from_code(b[36]);
    if b.len() == HEADER_SIZE && spec_u64_from_le_bytes(b.subrange(0, 8)) == MAGIC
        && spec_u16_from_le_bytes(b.subrange(8, 10)) == HEADER_VERSION && b[10] == 0
        && pointer_width is Some && file_scope is Some && file_specifier is Some
        && host_run_mode is Some {
        Some(
            SDSSHeader {
                pointer_width: pointer_width->Some_0,
                file_scope: file_scope->Some_0,
                file_specifier: file_specifier->Some_0,
                file_specifier_version: FileSpecifierVersion(
                    spec_u32_from_le_bytes(b.subrange(20, 24)),
                ),
                dr: DynamicRecord {
                    host_setting_version: spec_u32_from_le_bytes(b.subrange(32, 36)),
                    host_run_mode: host_run_mode->Some_0,
                    host_startup_counter: spec_u64_from_le_bytes(b.subrange(37, 45)),
                    modify_count: spec_u64_from_le_bytes(b.subrange(45, 53)),
                },
            },
        )
    } else {
        None
    }
}

/// Decoding what was encoded gives the header back, field for field, and the header
/// passes the check against its own scope, specifier and specifier version
pub proof fn lemma_decode_encode(h: SDSSHeader)
    ensures
        decode(encode(h)) == Some(h),
        h.matches_tuple(h.file_scope, h.file_specifier, h.file_specifier_version),
{
    lemma_auto_spec_u16_to_from_le_bytes();
    lemma_auto_spec_u32_to_from_le_bytes();
    lemma_auto_spec_u64_to_from_le_bytes();
    let b = encode(h);
    assert(b.subrange(0, 8) =~= spec_u64_to_le_bytes(MAGIC));
    assert(b.subrange(8, 10) =~= spec_u16_to_le_bytes(HEADER_VERSION));
    assert(b.subrange(16, 18) =~= spec_u16_to_le_bytes(h.file_scope.code()));
    assert(b.subrange(18, 20) =~= spec_u16_to_le_bytes(h.file_specifier.code()));
    assert(b.subrange(20, 24) =~= spec_u32_to_le_bytes(h.file_specifier_version.0));
    assert(b.subrange(32, 36) =~= spec_u32_to_le_bytes(h.dr.host_setting_version));
    assert(b.subrange(37, 45) =~= spec_u64_to_le_bytes(h.dr.host_startup_counter));
    assert(b.subrange(45, 53) =~= spec_u64_to_le_bytes(h.dr.modify_count));
}

/// An encoded header
#[derive(Debug, Clone, Copy)]
pub struct SDSSHeaderRaw {
    data: [u8; 64],
}

impl View for SDSSHeaderRaw {
    type V = Seq<u8>;

    closed spec fn view(&self) -> Seq<u8> {
        self.data@
    }
}

/// Writes `bytes` into `buf` from position `at` on
fn put(buf: &mut [u8; 64], at: usize, bytes: &Vec<u8>)
    requires
        at + bytes@.len() <= 64,
    ensures
        forall|i: int|
            0 <= i < 64 ==> #[trigger] final(buf)@[i] == if at <= i < at + bytes@.len() {
                bytes@[i - at]
            } else {
                old(buf)@[i]
            },
{
    let mut k: usize = 0;
    while k < bytes.len()
        invariant
            k <= bytes@.len(),
            at + bytes@.len() <= 64,
            forall|i: int|
                0 <= i < 64 ==> #[trigger] buf@[i] == if at <= i < at + k {
                    bytes@[i - at]
                } else {
                    old(buf)@[i]
                },
        decreases bytes@.len() - k,
    {
        buf[at + k] = bytes[k];
        k += 1;
    }
}

impl SDSSHeader {
    /// Whether the header is that of a file of the given scope, specifier and specifier
    /// version
    pub open spec fn matches_tuple(
        self,
        file_scope: FileScope,
        file_specifier: FileSpecifier,
        file_specifier_version: FileSpecifierVersion,
    ) -> bool {
        self.file_scope == file_scope && self.file_specifier == file_specifier
            && self.file_specifier_version == file_specifier_version
    }

    /// The header with its modify counter raised by one
    pub open spec fn bumped(self) -> SDSSHeader {
        SDSSHeader {
            dr: DynamicRecord { modify_count: (self.dr.modify_count + 1) as u64, ..self.dr },
            ..self
        }
    }

    /// Encodes the header
    pub fn encoded(&self) -> (r: SDSSHeaderRaw)
        ensures
            r@ == encode(*self),
    {
        let mut data: [u8; 64] = [0u8; 64];
        put(&mut data, 0, &u64_to_le_bytes(MAGIC));
        put(&mut data, 8, &u16_to_le_bytes(HEADER_VERSION));
        data[11] = self.pointer_width.value();
        put(&mut data, 16, &u16_to_le_bytes(self.file_scope.value()));
        put(&mut data, 18, &u16_to_le_bytes(self.file_specifier.value()));
        put(&mut data, 20, &u32_to_le_bytes(self.file_specifier_version.0));
        put(&mut data, 32, &u32_to_le_bytes(self.dr.host_setting_version));
        data[36] = self.dr.host_run_mode.value();
        put(&mut data, 37, &u64_to_le_bytes(self.dr.host_startup_counter));
        put(&mut data, 45, &u64_to_le_bytes(self.dr.modify_count));
        assert(data@ =~= encode(*self));
        SDSSHeaderRaw { data }
    }

    /// Checks that the header is that of a file of the given scope, specifier and specifier
    /// version
    pub fn verify(
        &self,
        expected_file_scope: FileScope,
        expected_file_specifier: FileSpecifier,
        expected_file_specifier_version: FileSpecifierVersion,
    ) -> (r: SDSSResult<()>)
        ensures
            self.matches_tuple(
                expected_file_scope,
                expected_file_specifier,
                expected_file_specifier_version,
            ) ==> r is Ok,
            !self.matches_tuple(
                expected_file_scope,
                expected_file_specifier,
                expected_file_specifier_version,
            ) ==> r matches Err(SDSSError::HeaderMismatch),
    {
        if self.file_scope == expected_file_scope && self.file_specifier
            == expected_file_specifier && self.file_specifier_version.0
            == expected_file_specifier_version.0 {
            Ok(())
        } else {
            Err(SDSSError::HeaderMismatch)
        }
    }

    /// The dynamic record, to be changed in place
    pub fn dr_rs_mut(&mut self) -> (r: &mut DynamicRecord)
        ensures
            *r == old(self).dr,
            *final(self) == (SDSSHeader { dr: *final(r), ..*old(self) }),
    {
        &mut self.dr
    }
}

impl DynamicRecord {
    /// Raises the modify counter by one. A counter that stands at its greatest value
    /// stays there, and the result is `ModifyCounterExhausted`.
    pub fn bump_modify_count(&mut self) -> (r: SDSSResult<()>)
        ensures
            old(self).modify_count < u64::MAX ==> r is Ok && *final(self) == (DynamicRecord {
                modify_count: (old(self).modify_count + 1) as u64,
                ..*old(self)
            }),
            old(self).modify_count == u64::MAX ==> (r matches Err(
                SDSSError::ModifyCounterExhausted,
            )) && *final(self) == *old(self),
    {
        if self.modify_count == u64::MAX {
            Err(SDSSError::ModifyCounterExhausted)
        } else {
            self.modify_count += 1;
            Ok(())
        }
    }
}

impl SDSSHeaderRaw {
    /// The size of a header in bytes
    pub fn header_size() -> (r: usize)
        ensures
            r == HEADER_SIZE,
    {
        HEADER_SIZE
    }

    /// The encoded header as an array
    pub fn array(&self) -> (r: [u8; 64])
        ensures
            r@ == self@,
    {
        self.data
    }

    /// Encodes the header of a file of the given kind, written by this host
    pub fn new_auto(
        file_scope: FileScope,
        file_specifier: FileSpecifier,
        file_specifier_version: FileSpecifierVersion,
        host_setting_version: u32,
        host_run_mode: HostRunMode,
        host_startup_counter: u64,
        modify_count: u64,
    ) -> (r: SDSSHeaderRaw)
        ensures
            r@ == encode(
                SDSSHeader {
                    pointer_width: HostPointerWidth::host(),
                    file_scope,
                    file_specifier,
                    file_specifier_version,
                    dr: DynamicRecord {
                        host_setting_version,
                        host_run_mode,
                        host_startup_counter,
                        modify_count,
                    },
                },
            ),
    {
        let header = SDSSHeader {
            pointer_width: HostPointerWidth::new(),
            file_scope,
            file_specifier,
            file_specifier_version,
            dr: DynamicRecord {
                host_setting_version,
                host_run_mode,
                host_startup_counter,
                modify_count,
            },
        };
        header.encoded()
    }

    /// Decodes a header without holding it against what the caller expects of the file.
    /// The result is `None` where the bytes are no header of this format.
    pub fn decode_noverify(bytes: [u8; 64]) -> (r: Option<SDSSHeader>)
        ensures
            r == decode(bytes@),
    {
        let b = bytes.as_slice();
        let magic = u64_from_le_bytes(&b[0..8]);
        let version = u16_from_le_bytes(&b[8..10]);
        if magic != MAGIC || version != HEADER_VERSION || b[10] != 0 {
            return None;
        }
        let pointer_width = match HostPointerWidth::try_new(b[11]) {
            Some(p) => p,
            None => {
                return None;
            },
        };
        let file_scope = match FileScope::try_new(u16_from_le_bytes(&b[16..18])) {
            Some(s) => s,
            None => {
                return None;
            },
        };
        let file_specifier = match FileSpecifier::try_new(u16_from_le_bytes(&b[18..20])) {
            Some(s) => s,
            None => {
                return None;
            },
        };
        let host_run_mode = match HostRunMode::try_new(b[36]) {
            Some(m) => m,
            None => {
                return None;
            },
        };
        Some(
            SDSSHeader {
                pointer_width,
                file_scope,
                file_specifier,
                file_specifier_version: FileSpecifierVersion(u32_from_le_bytes(&b[20..24])),
                dr: DynamicRecord {
                    host_setting_version: u32_from_le_bytes(&b[32..36]),
                    host_run_mode,
                    host_startup_counter: u64_from_le_bytes(&b[37..45]),
                    modify_count: u64_from_le_bytes(&b[45..53]),
                },
            },
        )
    }
}

} // verus!
