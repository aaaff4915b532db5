//! The raw file that the driver works on, and the driver.
//!
//! A file is modelled by its bytes and a position in them. Reads and writes begin at the
//! position and move it. A write past the end extends the file, and a write that begins
//! beyond the end first fills the gap with zeros. Nothing here models a crash: a file
//! that is opened again is assumed to hold what was last written to it.
use vstd::prelude::*;
use crate::error::{SDSSError, SDSSResult};
use crate::storage::header::{decode, encode, DynamicRecord, FileScope, FileSpecifier};
use crate::storage::header::{FileSpecifierVersion, HostPointerWidth, HostRunMode, SDSSHeader};
use crate::storage::header::{SDSSHeaderRaw, HEADER_SIZE};

verus! {

/// What a file amounts to
pub struct FileView {
    /// The bytes of the file
    pub data: Seq<u8>,
    /// Where the next read or write begins
    pub pos: nat,
}

impl FileView {
    /// A new, empty file
    pub open spec fn empty() -> FileView {
        FileView { data: Seq::empty(), pos: 0 }
    }

    /// Whether `n` bytes can be read at the position
    pub open spec fn can_read(self, n: nat) -> bool {
        self.pos + n <= self.data.len()
    }

    /// The `n` bytes at the position
    pub open spec fn peek(self, n: nat) -> Seq<u8> {
        self.data.subrange(self.pos as int, (self.pos + n) as int)
    }

    /// The file with the position moved ahead by `n`
    pub open spec fn skip(self, n: nat) -> FileView {
        FileView { pos: self.pos + n, ..self }
    }

    /// The file with the position at `pos`, counted from the start
    pub open spec fn seek(self, pos: nat) -> FileView {
        FileView { pos, ..self }
    }

    /// The file after `bytes` are written at the position
    pub open spec fn write(self, bytes: Seq<u8>) -> FileView {
        let end = self.pos + bytes.len();
        let len = if end > self.data.len() {
            end
        } else {
            self.data.len()
        };
        FileView {
            data: Seq::new(
                len,
                |i: int|
                    if self.pos <= i < end {
                        bytes[i - self.pos]
                    } else if i < self.data.len() {
                        self.data[i]
                    } else {
                        0u8
                    },
            ),
            pos: end,
        }
    }
}

/// How a raw file came to be open
#[derive(Debug)]
pub enum RawFileOpen<F> {
    /// The file did not exist and is empty
    Created(F),
    /// The file was there already
    Existing(F),
}

/// How an SDSS file came to be open
#[derive(Debug)]
pub enum FileOpen<F> {
    /// The file was created, and its header written
    Created(F),
    /// The file was there already; this is its header as it was found
    Existing(F, SDSSHeader),
}

/// What the driver needs of a file.
///
/// An operation that fails may have moved the position, and a failed write may have
/// written a part of the bytes. Of a failed read and of a sync, failed or not, it is
/// known that they leave the bytes of the file alone. The error of an operation that
/// fails is an `IoError` or a `ShortRead`: the other errors are the driver's to report.
pub trait RawFileIOInterface: Sized {
    /// What the file amounts to
    spec fn file(&self) -> FileView;

    /// Opens the file at the path for reading and writing, and creates it if it is not
    /// there
    fn fopen_or_create_rw(file_path: &str) -> (r: SDSSResult<RawFileOpen<Self>>)
        ensures
            r matches Ok(RawFileOpen::Created(f)) ==> f.file() == FileView::empty(),
            r matches Ok(RawFileOpen::Existing(f)) ==> f.file().pos == 0,
            r matches Err(e) ==> e is IoError || e is ShortRead,
    ;

    /// Fills the buffer with the bytes at the position
    fn fread_exact(&mut self, buf: &mut [u8]) -> (r: SDSSResult<()>)
        ensures
            final(buf)@.len() == old(buf)@.len(),
            final(self).file().data == old(self).file().data,
            r is Ok ==> {
                &&& old(self).file().can_read(old(buf)@.len())
                &&& final(buf)@ == old(self).file().peek(old(buf)@.len())
                &&& final(self).file() == old(self).file().skip(old(buf)@.len())
            },
            r matches Err(e) ==> e is IoError || e is ShortRead,
    ;

    /// Writes all the bytes at the position
    fn fwrite_all(&mut self, bytes: &[u8]) -> (r: SDSSResult<()>)
        ensures
            r is Ok ==> final(self).file() == old(self).file().write(bytes@),
            r matches Err(e) ==> e is IoError || e is ShortRead,
    ;

    /// Makes what was written durable
    fn fsync_all(&mut self) -> (r: SDSSResult<()>)
        ensures
            final(self).file() == old(self).file(),
            r matches Err(e) ==> e is IoError || e is ShortRead,
    ;

    /// Moves the position to `by`, counted from the start of the file
    fn fseek_ahead(&mut self, by: u64) -> (r: SDSSResult<()>)
        ensures
            final(self).file().data == old(self).file().data,
            r is Ok ==> final(self).file() == old(self).file().seek(by as nat),
            r matches Err(e) ==> e is IoError || e is ShortRead,
    ;

    /// The length of the file in bytes
    fn flen(&self) -> (r: SDSSResult<u64>)
        ensures
            r matches Ok(n) ==> n == self.file().data.len(),
            r matches Err(e) ==> e is IoError || e is ShortRead,
    ;
}

/// What is to be done with the header found in an existing file
pub enum Verdict {
    /// The header is in order; the file is opened and the header written back with its
    /// modify counter raised by one
    Accept(SDSSHeader),
    /// The bytes are no header
    Corrupted,
    /// The header is that of another kind of file
    Mismatch,
    /// The modify counter cannot be raised
    Exhausted,
}

/// What is to be done with an existing file that begins with the bytes `raw`, where a
/// file of the given scope, specifier and specifier version is expected
pub open spec fn verdict(
    raw: Seq<u8>,
    file_scope: FileScope,
    file_specifier: FileSpecifier,
    file_specifier_version: FileSpecifierVersion,
) -> Verdict {
    match decode(raw) {
        None => Verdict::Corrupted,
        Some(h) => if !h.matches_tuple(file_scope, file_specifier, file_specifier_version) {
            Verdict::Mismatch
        } else if h.dr.modify_count == u64::MAX {
            Verdict::Exhausted
        } else {
            Verdict::Accept(h)
        },
    }
}

/// Whether `r` is what the verdict `v` calls for: the header as it was found together
/// with the encoded header that replaces it, or the error
pub open spec fn verdict_agrees(r: SDSSResult<(SDSSHeader, SDSSHeaderRaw)>, v: Verdict) -> bool {
    match v {
        Verdict::Accept(h) => r matches Ok((found, next)) && found == h && next@ == encode(
            h.bumped(),
        ),
        Verdict::Corrupted => r matches Err(SDSSError::CorruptedHeader),
        Verdict::Mismatch => r matches Err(SDSSError::HeaderMismatch),
        Verdict::Exhausted => r matches Err(SDSSError::ModifyCounterExhausted),
    }
}

/// Examines the header read from an existing file: decodes it, holds it against what is
/// expected of the file, and prepares the header that is to replace it
pub fn check_header(
    header_raw: [u8; 64],
    file_scope: FileScope,
    file_specifier: FileSpecifier,
    file_specifier_version: FileSpecifierVersion,
) -> (r: SDSSResult<(SDSSHeader, SDSSHeaderRaw)>)
    ensures
        verdict_agrees(
            r,
            verdict(header_raw@, file_scope, file_specifier, file_specifier_version),
        ),
{
    let header = match SDSSHeaderRaw::decode_noverify(header_raw) {
        Some(h) => h,
        None => {
            return Err(SDSSError::CorruptedHeader);
        },
    };
    // now validate the header
    match header.verify(file_scope, file_specifier, file_specifier_version) {
        Ok(()) => {},
        Err(e) => {
            return Err(e);
        },
    }
    // since we updated this file, let us update the header
    let mut new_header = header;
    match new_header.dr_rs_mut().bump_modify_count() {
        Ok(()) => {},
        Err(e) => {
            return Err(e);
        },
    }
    Ok((header, new_header.encoded()))
}

/// The header that a new file of the given kind begins with
pub open spec fn fresh_header(
    file_scope: FileScope,
    file_specifier: FileSpecifier,
    file_specifier_version: FileSpecifierVersion,
    host_setting_version: u32,
    host_run_mode: HostRunMode,
    host_startup_counter: u64,
) -> SDSSHeader {
    SDSSHeader {
        pointer_width: HostPointerWidth::host(),
        file_scope,
        file_specifier,
        file_specifier_version,
        dr: DynamicRecord {
            host_setting_version,
            host_run_mode,
            host_startup_counter,
            modify_count: 0,
        },
    }
}

/// An open SDSS file
#[derive(Debug)]
pub struct SDSSFileIO<F> {
    f: F,
}

impl<F: RawFileIOInterface> SDSSFileIO<F> {
    /// What the file amounts to
    pub open spec fn file(&self) -> FileView {
        self.raw().file()
    }

    /// Whether `r` is a way in which opening `raw` as a file of the given kind can end.
    ///
    /// - A file that was created gets the header of a new file at its position.
    /// - A file that was there and holds nothing is taken for one that was created: the
    ///   raw file may not be able to tell the two apart.
    /// - A file that was there and holds something begins with a header that is in
    ///   order, which is handed out as it was found; the file holds it with its modify
    ///   counter raised by one.
    /// - Each of the header errors comes only where [`verdict`] names it.
    ///
    /// In each case the position is right after the header. An error of the raw file
    /// may come at any time.
    pub open spec fn opened(
        raw: RawFileOpen<F>,
        r: SDSSResult<FileOpen<Self>>,
        file_scope: FileScope,
        file_specifier: FileSpecifier,
        file_specifier_version: FileSpecifierVersion,
        fresh: SDSSHeader,
    ) -> bool {
        match raw {
            RawFileOpen::Created(f0) => match r {
                Ok(FileOpen::Created(f)) => f.file() == f0.file().write(encode(fresh)),
                Ok(FileOpen::Existing(_, _)) => false,
                Err(SDSSError::IoError(_)) | Err(SDSSError::ShortRead) => true,
                Err(_) => false,
            },
            RawFileOpen::Existing(f0) => {
                let v = verdict(
                    f0.file().data.subrange(0, HEADER_SIZE as int),
                    file_scope,
                    file_specifier,
                    file_specifier_version,
                );
                match r {
                    Ok(FileOpen::Created(f)) => f0.file().data.len() == 0 && f.file()
                        == f0.file().seek(0).write(encode(fresh)),
                    Ok(FileOpen::Existing(f, h)) => {
                        &&& f0.file().data.len() >= HEADER_SIZE
                        &&& v == Verdict::Accept(h)
                        &&& f.file() == f0.file().seek(0).write(encode(h.bumped()))
                    },
                    Err(SDSSError::IoError(_)) | Err(SDSSError::ShortRead) => true,
                    Err(SDSSError::CorruptedHeader) => f0.file().data.len() >= HEADER_SIZE && v
                        == Verdict::Corrupted,
                    Err(SDSSError::HeaderMismatch) => f0.file().data.len() >= HEADER_SIZE && v
                        == Verdict::Mismatch,
                    Err(SDSSError::ModifyCounterExhausted) => f0.file().data.len()
                        >= HEADER_SIZE && v == Verdict::Exhausted,
                }
            },
        }
    }

    /// Opens the SDSS file at the path, or creates it.
    ///
    /// What the raw file finds at the path is not known here; see [`Self::open_raw`] for
    /// what is done with it.
    pub fn open_or_create_perm_rw(
        file_path: &str,
        file_scope: FileScope,
        file_specifier: FileSpecifier,
        file_specifier_version: FileSpecifierVersion,
        host_setting_version: u32,
        host_run_mode: HostRunMode,
        host_startup_counter: u64,
    ) -> (r: SDSSResult<FileOpen<Self>>)
        ensures
            r matches Ok(FileOpen::Created(f)) ==> f.file() == FileView::empty().write(
                encode(
                    fresh_header(
                        file_scope,
                        file_specifier,
                        file_specifier_version,
                        host_setting_version,
                        host_run_mode,
                        host_startup_counter,
                    ),
                ),
            ),
            r matches Ok(FileOpen::Existing(f, h)) ==> {
                &&& h.matches_tuple(file_scope, file_specifier, file_specifier_version)
                &&& h.dr.modify_count < u64::MAX
                &&& f.file().pos == HEADER_SIZE
                &&& f.file().data.len() >= HEADER_SIZE
                &&& f.file().data.subrange(0, HEADER_SIZE as int) == encode(h.bumped())
            },
            opened_at(
                file_path,
                r,
                file_scope,
                file_specifier,
                file_specifier_version,
                fresh_header(
                    file_scope,
                    file_specifier,
                    file_specifier_version,
                    host_setting_version,
                    host_run_mode,
                    host_startup_counter,
                ),
            ),
    {
        let first = F::fopen_or_create_rw(file_path);
        let ghost first_outcome = first;
        let raw = match first {
            Ok(raw) => raw,
            Err(e) => {
                return Err(e);
            },
        };
        assert(raw matches RawFileOpen::Existing(f0) ==> (f0.file().data.len() == 0
            ==> f0.file().data =~= Seq::<u8>::empty()));
        let r = Self::open_raw(
            raw,
            file_scope,
            file_specifier,
            file_specifier_version,
            host_setting_version,
            host_run_mode,
            host_startup_counter,
        );
        assert(r matches Ok(FileOpen::Existing(f, h)) ==> f.file().data.subrange(
            0,
            HEADER_SIZE as int,
        ) =~= encode(h.bumped()));
        r
    }

    /// Makes an SDSS file of a raw file that was just opened.
    ///
    /// A file that was created gets the header of a new file, with the modify counter at
    /// zero, and so does a file that was there and holds nothing. Of a file that holds
    /// something the header is read from the start, checked, and written back over the
    /// start with its modify counter raised by one. Every write is followed by a sync.
    /// An error of the raw file ends the work and is handed on as it came.
    pub fn open_raw(
        raw: RawFileOpen<F>,
        file_scope: FileScope,
        file_specifier: FileSpecifier,
        file_specifier_version: FileSpecifierVersion,
        host_setting_version: u32,
        host_run_mode: HostRunMode,
        host_startup_counter: u64,
    ) -> (r: SDSSResult<FileOpen<Self>>)
        ensures
            Self::opened(
                raw,
                r,
                file_scope,
                file_specifier,
                file_specifier_version,
                fresh_header(
                    file_scope,
                    file_specifier,
                    file_specifier_version,
                    host_setting_version,
                    host_run_mode,
                    host_startup_counter,
                ),
            ),
            opened_by(
                raw,
                r,
                file_scope,
                file_specifier,
                file_specifier_version,
                fresh_header(
                    file_scope,
                    file_specifier,
                    file_specifier_version,
                    host_setting_version,
                    host_run_mode,
                    host_startup_counter,
                ),
            ),
    {
        let fresh = SDSSHeaderRaw::new_auto(
            file_scope,
            file_specifier,
            file_specifier_version,
            host_setting_version,
            host_run_mode,
            host_startup_counter,
            0,
        );
        match raw {
            RawFileOpen::Created(f) => {
                // since this file was just created, we need to append the header
                Self::create(f, fresh)
            },
            RawFileOpen::Existing(f) => {
                let ghost f0 = f;
                let measured = f.flen();
                let ghost len_outcome = measured;
                assert(measured_len(f0, len_outcome));
                let len = match measured {
                    Ok(len) => len,
                    Err(e) => {
                        return Err(e);
                    },
                };
                let (f, moved) = raw_seek(f, 0);
                let ghost f1 = f;
                let ghost seek_outcome = moved;
                assert(sought(f0, 0, f1, seek_outcome));
                match moved {
                    Ok(()) => {},
                    Err(e) => {
                        return Err(e);
                    },
                }
                if len == 0 {
                    // nothing was ever written to this file: it has yet to get its header
                    return Self::create(f, fresh);
                }
                // this is an existing file. decode the header
                Self::reopen(f, file_scope, file_specifier, file_specifier_version)
            },
        }
    }

    /// Writes the header of a new file and makes it durable
    fn create(file: F, header: SDSSHeaderRaw) -> (r: SDSSResult<FileOpen<Self>>)
        ensures
            created_by(file, r, header@),
            match r {
                Ok(FileOpen::Created(f)) => f.file() == file.file().write(header@),
                Ok(FileOpen::Existing(_, _)) => false,
                Err(e) => e is IoError || e is ShortRead,
            },
    {
        let (f, written) = raw_write_sync(file, header.array().as_slice());
        match written {
            Ok(()) => Ok(FileOpen::Created(Self::_new(f))),
            Err(e) => Err(e),
        }
    }

    /// Reads the header of a file that holds something, from its position, checks it, and
    /// writes it back over the start of the file with its modify counter raised by one
    fn reopen(
        file: F,
        file_scope: FileScope,
        file_specifier: FileSpecifier,
        file_specifier_version: FileSpecifierVersion,
    ) -> (r: SDSSResult<FileOpen<Self>>)
        ensures
            existing_by(file, r, file_scope, file_specifier, file_specifier_version),
            match r {
                Ok(FileOpen::Created(_)) => false,
                Ok(FileOpen::Existing(f, h)) => {
                    &&& file.file().can_read(HEADER_SIZE as nat)
                    &&& verdict(
                        file.file().peek(HEADER_SIZE as nat),
                        file_scope,
                        file_specifier,
                        file_specifier_version,
                    ) == Verdict::Accept(h)
                    &&& f.file() == file.file().seek(0).write(encode(h.bumped()))
                },
                Err(e) => e is IoError || e is ShortRead || (file.file().can_read(
                    HEADER_SIZE as nat,
                ) && verdict_agrees(
                    Err::<(SDSSHeader, SDSSHeaderRaw), SDSSError>(e),
                    verdict(
                        file.file().peek(HEADER_SIZE as nat),
                        file_scope,
                        file_specifier,
                        file_specifier_version,
                    ),
                )),
            },
    {
        let ghost f1 = file;
        let (f, header_raw, read) = raw_read_header(file);
        let ghost f2 = f;
        let ghost read_outcome = read;
        assert(header_read(f1, f2, header_raw@, read_outcome));
        match read {
            Ok(()) => {},
            Err(e) => {
                return Err(e);
            },
        }
        let (header, new_header) = match check_header(
            header_raw,
            file_scope,
            file_specifier,
            file_specifier_version,
        ) {
            Ok(pair) => pair,
            Err(e) => {
                return Err(e);
            },
        };
        let (f, moved) = raw_seek(f, 0);
        let ghost f3 = f;
        let ghost seek_outcome = moved;
        assert(sought(f2, 0, f3, seek_outcome));
        match moved {
            Ok(()) => {},
            Err(e) => {
                return Err(e);
            },
        }
        let (f, written) = raw_write_sync(f, new_header.array().as_slice());
        let ghost f4 = f;
        let ghost write_outcome = written;
        assert(wrote_and_synced(f3, encode(header.bumped()), f4, write_outcome));
        match written {
            Ok(()) => Ok(FileOpen::Existing(Self::_new(f), header)),
            Err(e) => Err(e),
        }
    }

    fn _new(f: F) -> (r: Self)
        ensures
            r.raw() == f,
    {
        Self { f }
    }

    /// Writes the bytes at the position, without a sync: the result and the change of the
    /// file are those of the raw file's `fwrite_all`
    pub fn unfsynced_write(&mut self, data: &[u8]) -> (r: SDSSResult<()>)
        ensures
            r is Ok ==> final(self).file() == old(self).file().write(data@),
            exists|raw: &mut F|
                {
                    &&& mut_ref_current(raw) == old(self).raw()
                    &&& mut_ref_future(raw) == final(self).raw()
                    &&& #[trigger] call_ensures(F::fwrite_all, (raw, data), r)
                },
    {
        self.f.fwrite_all(data)
    }

    /// Makes what was written durable: the result and the change of the file are those of
    /// the raw file's `fsync_all`
    pub fn fsync_all(&mut self) -> (r: SDSSResult<()>)
        ensures
            final(self).file() == old(self).file(),
            exists|raw: &mut F|
                {
                    &&& mut_ref_current(raw) == old(self).raw()
                    &&& mut_ref_future(raw) == final(self).raw()
                    &&& #[trigger] call_ensures(F::fsync_all, (raw,), r)
                },
    {
        self.f.fsync_all()
    }

    /// Writes the bytes at the position and makes them durable: the raw file's `fwrite_all`
    /// is called, and `fsync_all` after it if it succeeds. The result is the error of the
    /// write, or what the sync returns.
    pub fn fsynced_write(&mut self, data: &[u8]) -> (r: SDSSResult<()>)
        ensures
            r is Ok ==> final(self).file() == old(self).file().write(data@),
            exists|write: &mut F, written: SDSSResult<()>|
                {
                    &&& mut_ref_current(write) == old(self).raw()
                    &&& #[trigger] call_ensures(F::fwrite_all, (write, data), written)
                    &&& match written {
                        Ok(()) => exists|sync: &mut F|
                            {
                                &&& mut_ref_current(sync) == mut_ref_future(write)
                                &&& mut_ref_future(sync) == final(self).raw()
                                &&& #[trigger] call_ensures(F::fsync_all, (sync,), r)
                            },
                        Err(e) => mut_ref_future(write) == final(self).raw() && r == Err::<
                            (),
                            SDSSError,
                        >(e),
                    }
                },
    {
        match self.f.fwrite_all(data) {
            Ok(()) => {},
            Err(e) => {
                return Err(e);
            },
        }
        self.f.fsync_all()
    }

    /// Fills the buffer with the bytes at the position: the result and the changes of the
    /// file and of the buffer are those of the raw file's `fread_exact`
    pub fn read_to_buffer(&mut self, buffer: &mut [u8]) -> (r: SDSSResult<()>)
        ensures
            final(buffer)@.len() == old(buffer)@.len(),
            final(self).file().data == old(self).file().data,
            r is Ok ==> {
                &&& old(self).file().can_read(old(buffer)@.len())
                &&& final(buffer)@ == old(self).file().peek(old(buffer)@.len())
                &&& final(self).file() == old(self).file().skip(old(buffer)@.len())
            },
            exists|raw: &mut F, buf: &mut [u8]|
                {
                    &&& mut_ref_current(raw) == old(self).raw()
                    &&& mut_ref_future(raw) == final(self).raw()
                    &&& buf@ == old(buffer)@
                    &&& final(buf)@ == final(buffer)@
                    &&& #[trigger] call_ensures(F::fread_exact, (raw, buf), r)
                },
    {
        self.f.fread_exact(buffer)
    }

    /// The length of the file in bytes: the result is that of the raw file's `flen`
    pub fn file_length(&self) -> (r: SDSSResult<u64>)
        ensures
            r matches Ok(n) ==> n == self.file().data.len(),
            call_ensures(F::flen, (&self.raw(),), r),
    {
        self.f.flen()
    }

    /// Moves the position to `by`, counted from the start of the file: the result and the
    /// change of the file are those of the raw file's `fseek_ahead`
    pub fn seek_ahead(&mut self, by: u64) -> (r: SDSSResult<()>)
        ensures
            final(self).file().data == old(self).file().data,
            r is Ok ==> final(self).file() == old(self).file().seek(by as nat),
            exists|raw: &mut F|
                {
                    &&& mut_ref_current(raw) == old(self).raw()
                    &&& mut_ref_future(raw) == final(self).raw()
                    &&& #[trigger] call_ensures(F::fseek_ahead, (raw, by), r)
                },
    {
        self.f.fseek_ahead(by)
    }

    /// The raw file that the driver works on
    pub closed spec fn raw(&self) -> F {
        self.f
    }
}

/// The raw file's `fwrite_all`, with the file handed in and handed back.
///
/// Contracts speak of a step of a raw file through this function and the three after it:
/// what a step may come to is what the raw file's own contract allows, which for a raw
/// file that can be relied on says when the step succeeds.
pub fn raw_write<F: RawFileIOInterface>(file: F, bytes: &[u8]) -> (out: (F, SDSSResult<()>))
    ensures
        out.1 is Ok ==> out.0.file() == file.file().write(bytes@),
        out.1 matches Err(e) ==> e is IoError || e is ShortRead,
        exists|raw: &mut F|
            {
                &&& mut_ref_current(raw) == file
                &&& mut_ref_future(raw) == out.0
                &&& #[trigger] call_ensures(F::fwrite_all, (raw, bytes), out.1)
            },
{
    let mut local = file;
    let r = local.fwrite_all(bytes);
    let ghost after = local;
    let ghost outcome = r;
    assert(exists|raw: &mut F|
        {
            &&& mut_ref_current(raw) == file
            &&& mut_ref_future(raw) == after
            &&& #[trigger] call_ensures(F::fwrite_all, (raw, bytes), outcome)
        });
    (local, r)
}

/// The raw file's `fsync_all`, with the file handed in and handed back
pub fn raw_sync<F: RawFileIOInterface>(file: F) -> (out: (F, SDSSResult<()>))
    ensures
        out.0.file() == file.file(),
        out.1 matches Err(e) ==> e is IoError || e is ShortRead,
        exists|raw: &mut F|
            {
                &&& mut_ref_current(raw) == file
                &&& mut_ref_future(raw) == out.0
                &&& #[trigger] call_ensures(F::fsync_all, (raw,), out.1)
            },
{
    let mut local = file;
    let r = local.fsync_all();
    let ghost after = local;
    let ghost outcome = r;
    assert(exists|raw: &mut F|
        {
            &&& mut_ref_current(raw) == file
            &&& mut_ref_future(raw) == after
            &&& #[trigger] call_ensures(F::fsync_all, (raw,), outcome)
        });
    (local, r)
}

/// The raw file's `fseek_ahead`, with the file handed in and handed back
pub fn raw_seek<F: RawFileIOInterface>(file: F, by: u64) -> (out: (F, SDSSResult<()>))
    ensures
        out.0.file().data == file.file().data,
        out.1 is Ok ==> out.0.file() == file.file().seek(by as nat),
        out.1 matches Err(e) ==> e is IoError || e is ShortRead,
        exists|raw: &mut F|
            {
                &&& mut_ref_current(raw) == file
                &&& mut_ref_future(raw) == out.0
                &&& #[trigger] call_ensures(F::fseek_ahead, (raw, by), out.1)
            },
{
    let mut local = file;
    let r = local.fseek_ahead(by);
    let ghost after = local;
    let ghost outcome = r;
    assert(exists|raw: &mut F|
        {
            &&& mut_ref_current(raw) == file
            &&& mut_ref_future(raw) == after
            &&& #[trigger] call_ensures(F::fseek_ahead, (raw, by), outcome)
        });
    (local, r)
}

/// The raw file's `fread_exact` into a buffer of the size of a header, which holds zeros
/// before; the file is handed in and handed back
pub fn raw_read_header<F: RawFileIOInterface>(file: F) -> (out: (F, [u8; 64], SDSSResult<()>))
    ensures
        out.0.file().data == file.file().data,
        out.2 is Ok ==> {
            &&& file.file().can_read(HEADER_SIZE as nat)
            &&& out.1@ == file.file().peek(HEADER_SIZE as nat)
            &&& out.0.file() == file.file().skip(HEADER_SIZE as nat)
        },
        out.2 matches Err(e) ==> e is IoError || e is ShortRead,
        exists|raw: &mut F, buf: &mut [u8]|
            {
                &&& mut_ref_current(raw) == file
                &&& mut_ref_future(raw) == out.0
                &&& buf@ == Seq::new(HEADER_SIZE as nat, |i: int| 0u8)
                &&& final(buf)@ == out.1@
                &&& #[trigger] call_ensures(F::fread_exact, (raw, buf), out.2)
            },
{
    let mut local = file;
    let mut header: [u8; 64] = [0u8; 64];
    proof {
        vstd::array::axiom_spec_array_fill_for_copy_type::<u8, 64>(0u8);
    }
    assert(header@ =~= Seq::new(HEADER_SIZE as nat, |i: int| 0u8));
    let r = local.fread_exact(&mut header);
    let ghost after = local;
    let ghost outcome = r;
    let ghost read = header@;
    assert(exists|raw: &mut F, buf: &mut [u8]|
        {
            &&& mut_ref_current(raw) == file
            &&& mut_ref_future(raw) == after
            &&& buf@ == Seq::new(HEADER_SIZE as nat, |i: int| 0u8)
            &&& final(buf)@ == read
            &&& #[trigger] call_ensures(F::fread_exact, (raw, buf), outcome)
        });
    (local, header, r)
}

/// Writes the bytes at the position and makes them durable, with the file handed in and
/// handed back: a write, and a sync after it if it succeeds
pub fn raw_write_sync<F: RawFileIOInterface>(file: F, bytes: &[u8]) -> (out: (
    F,
    SDSSResult<()>,
))
    ensures
        out.1 is Ok ==> out.0.file() == file.file().write(bytes@),
        out.1 matches Err(e) ==> e is IoError || e is ShortRead,
        wrote_and_synced(file, bytes@, out.0, out.1),
{
    let (f, written) = raw_write(file, bytes);
    let ghost mid = f;
    let ghost write_outcome = written;
    assert(wrote(file, bytes@, mid, write_outcome));
    match written {
        Ok(()) => {},
        Err(e) => {
            return (f, Err(e));
        },
    }
    let (f, done) = raw_sync(f);
    let ghost after = f;
    let ghost sync_outcome = done;
    assert(synced(mid, after, sync_outcome));
    (f, done)
}

/// Whether a write of `bytes` may take the raw file `before` to `after` and return `r`
pub open spec fn wrote<F: RawFileIOInterface>(
    before: F,
    bytes: Seq<u8>,
    after: F,
    r: SDSSResult<()>,
) -> bool {
    exists|given: &[u8]|
        given@ == bytes && #[trigger] call_ensures(raw_write::<F>, (before, given), (after, r))
}

/// Whether a sync may take the raw file `before` to `after` and return `r`
pub open spec fn synced<F: RawFileIOInterface>(before: F, after: F, r: SDSSResult<()>) -> bool {
    call_ensures(raw_sync::<F>, (before,), (after, r))
}

/// Whether a seek to `by` may take the raw file `before` to `after` and return `r`
pub open spec fn sought<F: RawFileIOInterface>(
    before: F,
    by: u64,
    after: F,
    r: SDSSResult<()>,
) -> bool {
    call_ensures(raw_seek::<F>, (before, by), (after, r))
}

/// Whether reading a header may take the raw file `before` to `after`, leave `header` in
/// the buffer and return `r`
pub open spec fn header_read<F: RawFileIOInterface>(
    before: F,
    after: F,
    header: Seq<u8>,
    r: SDSSResult<()>,
) -> bool {
    exists|buffer: [u8; 64]|
        buffer@ == header && #[trigger] call_ensures(
            raw_read_header::<F>,
            (before,),
            (after, buffer, r),
        )
}

/// Whether the raw file `file` may give `r` for its length
pub open spec fn measured_len<F: RawFileIOInterface>(file: F, r: SDSSResult<u64>) -> bool {
    call_ensures(F::flen, (&file,), r)
}

/// Whether a write of `bytes` that is followed by a sync may take the raw file `before`
/// to `after` and return `r`: `r` is the error of the write, after which nothing more is
/// done, or what the sync returns after a write that succeeded
pub open spec fn wrote_and_synced<F: RawFileIOInterface>(
    before: F,
    bytes: Seq<u8>,
    after: F,
    r: SDSSResult<()>,
) -> bool {
    exists|mid: F, written: SDSSResult<()>|
        {
            &&& #[trigger] wrote(before, bytes, mid, written)
            &&& match written {
                Ok(()) => synced(mid, after, r),
                Err(e) => after == mid && r == Err::<(), SDSSError>(e),
            }
        }
}

/// Whether `r` is the error `e`
pub open spec fn failed_with<T>(r: SDSSResult<T>, e: SDSSError) -> bool {
    r matches Err(x) && x == e
}

/// Whether `r` is a way in which giving the raw file `file` the header of a new file can
/// end: the header is written at the position and made durable, and the file is handed
/// out as created; an error of the raw file is handed on
pub open spec fn created_by<F: RawFileIOInterface>(
    file: F,
    r: SDSSResult<FileOpen<SDSSFileIO<F>>>,
    header: Seq<u8>,
) -> bool {
    exists|after: F, written: SDSSResult<()>|
        {
            &&& #[trigger] wrote_and_synced(file, header, after, written)
            &&& match written {
                Ok(()) => r matches Ok(FileOpen::Created(f)) && f.raw() == after,
                Err(e) => failed_with(r, e),
            }
        }
}

/// Whether `r` is a way in which taking the header of the raw file `after`, which is
/// in order and is `found`, back to the start of the file can end: a seek to the start,
/// then the header with its modify counter raised by one is written and made durable,
/// and the file is handed out with the header as it was found; an error of the raw file
/// is handed on
pub open spec fn header_renewed_by<F: RawFileIOInterface>(
    file: F,
    r: SDSSResult<FileOpen<SDSSFileIO<F>>>,
    found: SDSSHeader,
) -> bool {
    exists|at_start: F, moved: SDSSResult<()>|
        {
            &&& #[trigger] sought(file, 0, at_start, moved)
            &&& match moved {
                Err(e) => failed_with(r, e),
                Ok(()) => exists|after: F, written: SDSSResult<()>|
                    {
                        &&& #[trigger] wrote_and_synced(
                            at_start,
                            encode(found.bumped()),
                            after,
                            written,
                        )
                        &&& match written {
                            Ok(()) => r matches Ok(FileOpen::Existing(f, h)) && f.raw() == after
                                && h == found,
                            Err(e) => failed_with(r, e),
                        }
                    },
            }
        }
}

/// Whether `r` is a way in which opening the raw file `file`, which holds something, can
/// end: the header is read at the position; what is done with it is what [`verdict`]
/// says; a header that is in order is taken back to the start of the file; an error of
/// the raw file is handed on
pub open spec fn existing_by<F: RawFileIOInterface>(
    file: F,
    r: SDSSResult<FileOpen<SDSSFileIO<F>>>,
    file_scope: FileScope,
    file_specifier: FileSpecifier,
    file_specifier_version: FileSpecifierVersion,
) -> bool {
    exists|after: F, header: Seq<u8>, read: SDSSResult<()>|
        {
            &&& #[trigger] header_read(file, after, header, read)
            &&& match read {
                Err(e) => failed_with(r, e),
                Ok(()) => match verdict(
                    header,
                    file_scope,
                    file_specifier,
                    file_specifier_version,
                ) {
                    Verdict::Accept(found) => header_renewed_by(after, r, found),
                    Verdict::Corrupted => r matches Err(SDSSError::CorruptedHeader),
                    Verdict::Mismatch => r matches Err(SDSSError::HeaderMismatch),
                    Verdict::Exhausted => r matches Err(SDSSError::ModifyCounterExhausted),
                },
            }
        }
}

/// Whether `r` is a way in which opening `raw` as a file of the given kind can end, step
/// by step:
///
/// - a file that was created gets the header `fresh`;
/// - of a file that was there the length is taken, then the position is set to the
///   start; a file that holds nothing gets the header `fresh`, and a file that holds
///   something is opened as [`existing_by`] says;
/// - the first error of the raw file ends the work and is the result.
pub open spec fn opened_by<F: RawFileIOInterface>(
    raw: RawFileOpen<F>,
    r: SDSSResult<FileOpen<SDSSFileIO<F>>>,
    file_scope: FileScope,
    file_specifier: FileSpecifier,
    file_specifier_version: FileSpecifierVersion,
    fresh: SDSSHeader,
) -> bool {
    match raw {
        RawFileOpen::Created(file) => created_by(file, r, encode(fresh)),
        RawFileOpen::Existing(file) => exists|measured: SDSSResult<u64>|
            {
                &&& #[trigger] measured_len(file, measured)
                &&& match measured {
                    Err(e) => failed_with(r, e),
                    Ok(len) => exists|at_start: F, moved: SDSSResult<()>|
                        {
                            &&& #[trigger] sought(file, 0, at_start, moved)
                            &&& match moved {
                                Err(e) => failed_with(r, e),
                                Ok(()) => if len == 0 {
                                    created_by(at_start, r, encode(fresh))
                                } else {
                                    existing_by(
                                        at_start,
                                        r,
                                        file_scope,
                                        file_specifier,
                                        file_specifier_version,
                                    )
                                },
                            }
                        },
                }
            },
    }
}

/// Whether `r` is a way in which opening the file at `file_path` can end: the error with
/// which the raw file fails to open it, or what [`SDSSFileIO::opened`] and [`opened_by`]
/// allow for the raw file that was opened
pub open spec fn opened_at<F: RawFileIOInterface>(
    file_path: &str,
    r: SDSSResult<FileOpen<SDSSFileIO<F>>>,
    file_scope: FileScope,
    file_specifier: FileSpecifier,
    file_specifier_version: FileSpecifierVersion,
    fresh: SDSSHeader,
) -> bool {
    exists|first: SDSSResult<RawFileOpen<F>>|
        {
            &&& #[trigger] call_ensures(F::fopen_or_create_rw, (file_path,), first)
            &&& match first {
                Ok(raw) => SDSSFileIO::<F>::opened(
                    raw,
                    r,
                    file_scope,
                    file_specifier,
                    file_specifier_version,
                    fresh,
                ) && opened_by(raw, r, file_scope, file_specifier, file_specifier_version, fresh),
                Err(e) => failed_with(r, e),
            }
        }
}

/// What a write puts at the end of a file can be read back from there: after `bytes`
/// are written so that they reach or pass the end of the file, the last `bytes.len()`
/// bytes of the file are `bytes`.
///
/// A write that ends before the end of the file is left out: the file then ends with
/// what it held before.
pub proof fn lemma_written_tail_reads_back(f: FileView, bytes: Seq<u8>)
    requires
        f.pos + bytes.len() >= f.data.len(),
    ensures
        ({
            let written = f.write(bytes);
            let back = written.seek((written.data.len() - bytes.len()) as nat);
            back.can_read(bytes.len()) && back.peek(bytes.len()) == bytes
        }),
{
    let written = f.write(bytes);
    let back = written.seek((written.data.len() - bytes.len()) as nat);
    assert(back.peek(bytes.len()) =~= bytes);
}

/// Opening an existing file leaves a file that can be opened again as the same kind of
/// file: the header that the next open finds has the same scope, specifier and specifier
/// version, and a modify counter that is greater by one. What follows the header stays
/// as it is.
pub proof fn lemma_reopen_raises_modify_count(
    f: FileView,
    found: SDSSHeader,
    file_scope: FileScope,
    file_specifier: FileSpecifier,
    file_specifier_version: FileSpecifierVersion,
)
    requires
        f.data.len() >= HEADER_SIZE,
        verdict(
            f.data.subrange(0, HEADER_SIZE as int),
            file_scope,
            file_specifier,
            file_specifier_version,
        ) == Verdict::Accept(found),
    ensures
        ({
            let after = f.seek(0).write(encode(found.bumped()));
            let next = found.bumped();
            &&& after.data.len() == f.data.len()
            &&& after.data.subrange(HEADER_SIZE as int, after.data.len() as int)
                == f.data.subrange(HEADER_SIZE as int, f.data.len() as int)
            &&& decode(after.data.subrange(0, HEADER_SIZE as int)) == Some(next)
            &&& next.matches_tuple(file_scope, file_specifier, file_specifier_version)
            &&& next.dr.modify_count == found.dr.modify_count + 1
            &&& next.dr.modify_count < u64::MAX ==> verdict(
                after.data.subrange(0, HEADER_SIZE as int),
                file_scope,
                file_specifier,
                file_specifier_version,
            ) == Verdict::Accept(next)
        }),
{
    let after = f.seek(0).write(encode(found.bumped()));
    crate::storage::header::lemma_decode_encode(found.bumped());
    assert(after.data.subrange(0, HEADER_SIZE as int) =~= encode(found.bumped()));
    assert(after.data.subrange(HEADER_SIZE as int, after.data.len() as int) =~= f.data.subrange(
        HEADER_SIZE as int,
        f.data.len() as int,
    ));
}

} // verus!
