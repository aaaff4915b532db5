//! A raw file that lives in memory.
use vstd::prelude::*;
use crate::error::{SDSSError, SDSSResult};
use crate::storage::header::{decode, encode, lemma_decode_encode, FileScope, FileSpecifier};
use crate::storage::header::{FileSpecifierVersion, SDSSHeader, HEADER_SIZE};
use crate::storage::rw::{opened_by, verdict, FileOpen, FileView, RawFileIOInterface};
use crate::storage::rw::{RawFileOpen, SDSSFileIO, Verdict};

verus! {

/// `std::io::Error::from` with `ErrorKind::InvalidInput`: the error that std's in-memory
/// cursor reports for a position that a vector cannot have. Nothing is claimed of it.
#[verifier::external_body]
fn invalid_input() -> std::io::Error {
    std::io::Error::from(std::io::ErrorKind::InvalidInput)
}

/// A file in memory: its bytes and a position.
///
/// It is not kept under a path, so that opening one by path always makes a new, empty
/// file. To open again what was written, make the file of its bytes with
/// [`MemFile::from_bytes`] and hand it on as an existing file.
#[derive(Debug)]
pub struct MemFile {
    data: Vec<u8>,
    pos: usize,
}

impl MemFile {
    /// A new, empty file
    pub fn new() -> (r: Self)
        ensures
            r.file() == FileView::empty(),
    {
        MemFile { data: Vec::new(), pos: 0 }
    }

    /// A file that holds the given bytes, with the position at its start
    pub fn from_bytes(data: Vec<u8>) -> (r: Self)
        ensures
            r.file() == (FileView { data: data@, pos: 0 }),
    {
        MemFile { data, pos: 0 }
    }

    /// The bytes of the file
    pub fn bytes(&self) -> (r: &[u8])
        ensures
            r@ == self.file().data,
    {
        self.data.as_slice()
    }

    /// Where the next read or write begins
    pub fn position(&self) -> (r: usize)
        ensures
            r == self.file().pos,
    {
        self.pos
    }
}

impl RawFileIOInterface for MemFile {
    closed spec fn file(&self) -> FileView {
        FileView { data: self.data@, pos: self.pos as nat }
    }

    /// Always makes a new, empty file
    fn fopen_or_create_rw(file_path: &str) -> (r: SDSSResult<RawFileOpen<Self>>)
        ensures
            r matches Ok(RawFileOpen::Created(_)),
    {
        Ok(RawFileOpen::Created(MemFile::new()))
    }

    /// Fails with `ShortRead`, and changes nothing, exactly where the file ends before the
    /// buffer is full
    fn fread_exact(&mut self, buf: &mut [u8]) -> (r: SDSSResult<()>)
        ensures
            old(self).file().can_read(old(buf)@.len()) ==> r is Ok,
            !old(self).file().can_read(old(buf)@.len()) ==> (r matches Err(
                SDSSError::ShortRead,
            )) && final(self).file() == old(self).file() && final(buf)@ == old(buf)@,
    {
        let n = buf.len();
        if self.pos > self.data.len() || n > self.data.len() - self.pos {
            return Err(SDSSError::ShortRead);
        }
        let mut k: usize = 0;
        while k < n
            invariant
                k <= n,
                n == buf@.len(),
                self.pos + n <= self.data@.len() <= usize::MAX,
                self.pos == old(self).pos,
                self.data@ == old(self).data@,
                forall|i: int| 0 <= i < k ==> #[trigger] buf@[i] == self.data@[self.pos + i],
            decreases n - k,
        {
            buf[k] = self.data[self.pos + k];
            k += 1;
        }
        assert(buf@ =~= old(self).file().peek(n as nat));
        self.pos += n;
        Ok(())
    }

    /// Fails, and changes nothing, exactly where the end of what is written would lie
    /// beyond what a vector can hold
    fn fwrite_all(&mut self, bytes: &[u8]) -> (r: SDSSResult<()>)
        ensures
            old(self).file().pos + bytes@.len() <= usize::MAX ==> r is Ok,
            old(self).file().pos + bytes@.len() > usize::MAX ==> (r matches Err(
                SDSSError::IoError(_),
            )) && final(self).file() == old(self).file(),
    {
        let n = bytes.len();
        if n > usize::MAX - self.pos {
            return Err(SDSSError::IoError(invalid_input()));
        }
        // fill the gap, if the position lies beyond the end
        while self.data.len() < self.pos
            invariant
                self.pos == old(self).pos,
                old(self).data@.len() <= self.data@.len(),
                self.data@.len() <= self.pos || self.data@ == old(self).data@,
                forall|i: int|
                    0 <= i < self.data@.len() ==> #[trigger] self.data@[i] == if i < old(
                        self,
                    ).data@.len() {
                        old(self).data@[i]
                    } else {
                        0u8
                    },
            decreases self.pos - self.data@.len(),
        {
            self.data.push(0);
        }
        let mut k: usize = 0;
        while k < n
            invariant
                k <= n,
                n == bytes@.len(),
                self.pos == old(self).pos,
                self.pos + n <= usize::MAX,
                self.pos <= self.data@.len(),
                self.data@.len() == if old(self).data@.len() > self.pos + k {
                    old(self).data@.len() as int
                } else {
                    self.pos + k
                },
                forall|i: int|
                    0 <= i < self.data@.len() ==> #[trigger] self.data@[i] == if self.pos <= i
                        < self.pos + k {
                        bytes@[i - self.pos]
                    } else if i < old(self).data@.len() {
                        old(self).data@[i]
                    } else {
                        0u8
                    },
            decreases n - k,
        {
            if self.pos + k < self.data.len() {
                self.data[self.pos + k] = bytes[k];
            } else {
                self.data.push(bytes[k]);
            }
            k += 1;
        }
        self.pos += n;
        assert(self.file().data =~= old(self).file().write(bytes@).data);
        Ok(())
    }

    /// Always succeeds
    fn fsync_all(&mut self) -> (r: SDSSResult<()>)
        ensures
            r is Ok,
    {
        Ok(())
    }

    /// Fails, and changes nothing, exactly where the position is one that a vector cannot
    /// have
    fn fseek_ahead(&mut self, by: u64) -> (r: SDSSResult<()>)
        ensures
            by <= usize::MAX ==> r is Ok,
            by > usize::MAX ==> (r matches Err(SDSSError::IoError(_))) && final(self).file()
                == old(self).file(),
    {
        if by > usize::MAX as u64 {
            return Err(SDSSError::IoError(invalid_input()));
        }
        self.pos = by as usize;
        Ok(())
    }

    /// Always succeeds
    fn flen(&self) -> (r: SDSSResult<u64>)
        ensures
            r is Ok,
    {
        Ok(self.data.len() as u64)
    }
}

/// What opening a file in memory comes to, for every file: a file in memory fails only
/// where the request cannot be met, so that the outcome is settled by what the file
/// holds.
///
/// - A file that was created gets the header `fresh` at its position, unless the header
///   would end beyond what a vector can hold.
/// - A file that was there and holds nothing gets the header `fresh`.
/// - A file that holds less than a header is a `ShortRead`.
/// - Of any other file the header decides, as [`verdict`] says: one that is in order is
///   handed out as it was found and written back with its modify counter raised by one;
///   bytes that are no header are a `CorruptedHeader`; the header of another kind of file
///   is a `HeaderMismatch`; a modify counter that cannot be raised is a
///   `ModifyCounterExhausted`.
pub proof fn lemma_mem_opened(
    raw: RawFileOpen<MemFile>,
    r: SDSSResult<FileOpen<SDSSFileIO<MemFile>>>,
    file_scope: FileScope,
    file_specifier: FileSpecifier,
    file_specifier_version: FileSpecifierVersion,
    fresh: SDSSHeader,
)
    requires
        opened_by(raw, r, file_scope, file_specifier, file_specifier_version, fresh),
    ensures
        match raw {
            RawFileOpen::Created(file) => if file.file().pos + HEADER_SIZE <= usize::MAX {
                r matches Ok(FileOpen::Created(f)) && f.file() == file.file().write(
                    encode(fresh),
                )
            } else {
                r matches Err(SDSSError::IoError(_))
            },
            RawFileOpen::Existing(file) => if file.file().data.len() == 0 {
                r matches Ok(FileOpen::Created(f)) && f.file() == file.file().seek(0).write(
                    encode(fresh),
                )
            } else if file.file().data.len() < HEADER_SIZE {
                r matches Err(SDSSError::ShortRead)
            } else {
                match verdict(
                    file.file().data.subrange(0, HEADER_SIZE as int),
                    file_scope,
                    file_specifier,
                    file_specifier_version,
                ) {
                    Verdict::Accept(found) => r matches Ok(FileOpen::Existing(f, h)) && h
                        == found && f.file() == file.file().seek(0).write(
                        encode(found.bumped()),
                    ),
                    Verdict::Corrupted => r matches Err(SDSSError::CorruptedHeader),
                    Verdict::Mismatch => r matches Err(SDSSError::HeaderMismatch),
                    Verdict::Exhausted => r matches Err(SDSSError::ModifyCounterExhausted),
                }
            },
        },
{
}

/// A file in memory that begins with the encoding of a header opens as the file that the
/// header says it is: where the header `stored` is that of a file of the kind asked for
/// and its modify counter can be raised, the file opens as an existing file, the header
/// handed out is `stored`, field for field, and the file then begins with `stored` with
/// its modify counter raised by one. What the host says of itself when it opens the file
/// plays no part.
pub proof fn lemma_mem_opens_what_was_encoded(
    file: MemFile,
    stored: SDSSHeader,
    r: SDSSResult<FileOpen<SDSSFileIO<MemFile>>>,
    file_scope: FileScope,
    file_specifier: FileSpecifier,
    file_specifier_version: FileSpecifierVersion,
    fresh: SDSSHeader,
)
    requires
        file.file().data.len() >= HEADER_SIZE,
        file.file().data.subrange(0, HEADER_SIZE as int) == encode(stored),
        stored.matches_tuple(file_scope, file_specifier, file_specifier_version),
        stored.dr.modify_count < u64::MAX,
        opened_by(
            RawFileOpen::Existing(file),
            r,
            file_scope,
            file_specifier,
            file_specifier_version,
            fresh,
        ),
    ensures
        r matches Ok(FileOpen::Existing(f, h)) && h == stored && f.file()
            == file.file().seek(0).write(encode(stored.bumped())) && decode(
            f.file().data.subrange(0, HEADER_SIZE as int),
        ) == Some(stored.bumped()),
{
    lemma_decode_encode(stored);
    lemma_decode_encode(stored.bumped());
    lemma_mem_opened(
        RawFileOpen::Existing(file),
        r,
        file_scope,
        file_specifier,
        file_specifier_version,
        fresh,
    );
    let after = file.file().seek(0).write(encode(stored.bumped()));
    assert(after.data.subrange(0, HEADER_SIZE as int) =~= encode(stored.bumped()));
}

} // verus!
