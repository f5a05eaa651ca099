//! The archive container, behind trusted wrappers around the `zip` crate.
//!
//! The engine never inspects container bytes itself: an [`ArchiveBuilder`]
//! accumulates members (stored name, uncompressed bytes) and finishes into
//! the container's byte form; a [`ZipHandle`] opens such bytes again. What
//! the container holds is named by two uninterpreted functions,
//! [`archive_listing`] and [`archive_member_data`]; the one fact the
//! wrappers assume beyond the `zip` crate's per-call documentation is that
//! reading an archive back yields exactly the members that were written:
//! same stored names, in insertion order, and — compression being lossless
//! and checksummed — the same bytes.

use vstd::prelude::*;

verus! {

use crate::ErrorKind;

/// The compression applied uniformly to file members.
#[derive(Clone, Copy, PartialEq, Eq, Structural, Debug)]
pub enum Method {
    /// Members are stored without compression.
    Store,
    /// Members are deflate-compressed.
    Deflate,
}

/// The stored names of the members of the archive `bytes`, in stored order,
/// or `None` when the bytes are not a well-formed container. Opening and
/// listing a container is a function of its bytes alone.
pub uninterp spec fn archive_listing(bytes: Seq<u8>) -> Option<Seq<Seq<u8>>>;

/// The decompressed bytes of member `i` of the archive `bytes`, or `None`
/// when the member cannot be read back intact (index out of range, corrupt
/// data, or a checksum mismatch). Deterministic in the bytes alone.
pub uninterp spec fn archive_member_data(bytes: Seq<u8>, i: int) -> Option<Seq<u8>>;

/// The members written into a builder so far: (stored name, uncompressed
/// bytes), in insertion order.
pub uninterp spec fn builder_members(b: ArchiveBuilder) -> Seq<(Seq<u8>, Seq<u8>)>;

/// The container bytes a handle was opened on.
pub uninterp spec fn handle_bytes(h: ZipHandle) -> Seq<u8>;

/// The stored names of a member sequence.
pub open spec fn member_names(ms: Seq<(Seq<u8>, Seq<u8>)>) -> Seq<Seq<u8>> {
    ms.map_values(|m: (Seq<u8>, Seq<u8>)| m.0)
}

/// An in-memory archive under construction.
///
/// Relies on `zip::ZipWriter` over an in-memory cursor.
#[verifier::external_body]
pub struct ArchiveBuilder {
    inner: zip::ZipWriter<std::io::Cursor<Vec<u8>>>,
    method: zip::CompressionMethod,
}

/// The error type of the `zip` crate, opaque to the engine.
#[verifier::external_type_specification]
#[verifier::external_body]
pub struct ExZipError(zip::result::ZipError);

/// Classify a `zip` error: its `Io` variant wraps an I/O failure; every
/// other variant reports a malformed, unsupported or inconsistent container.
#[verifier::external_body]
pub fn kind_of_zip_error(e: &zip::result::ZipError) -> (r: ErrorKind) {
    match e {
        zip::result::ZipError::Io(_) => ErrorKind::FilesystemError,
        zip::result::ZipError::InvalidArchive(_) => ErrorKind::ArchiveFormatError,
        zip::result::ZipError::UnsupportedArchive(_) => ErrorKind::ArchiveFormatError,
        zip::result::ZipError::FileNotFound => ErrorKind::ArchiveFormatError,
        zip::result::ZipError::InvalidPassword => ErrorKind::ArchiveFormatError,
        zip::result::ZipError::CompressionMethodNotSupported(_) => ErrorKind::ArchiveFormatError,
        _ => ErrorKind::ArchiveFormatError,
    }
}

impl ArchiveBuilder {
    /// A fresh, empty archive using `method` for file members.
    ///
    /// Relies on `zip::ZipWriter::new`: a new writer holds no members.
    #[verifier::external_body]
    pub fn new(method: Method) -> (r: ArchiveBuilder)
        ensures
            builder_members(r) == Seq::<(Seq<u8>, Seq<u8>)>::empty(),
    {
        let m = match method {
            Method::Store => zip::CompressionMethod::Stored,
            Method::Deflate => zip::CompressionMethod::Deflated,
        };
        ArchiveBuilder { inner: zip::ZipWriter::new(std::io::Cursor::new(Vec::new())), method: m }
    }

    /// Append a file member with the given stored name and bytes.
    ///
    /// Relies on `zip::ZipWriter::start_file` followed by `write_all`: on
    /// success exactly one member with that name and those bytes was
    /// appended (`start_file` rejects duplicate names). A name that is not
    /// valid UTF-8 cannot be stored and is reported as a filesystem error.
    /// After an error the builder is in an unspecified state and is only
    /// dropped.
    #[verifier::external_body]
    pub fn add_file(&mut self, name: &Vec<u8>, data: &Vec<u8>) -> (r: Result<(), ErrorKind>)
        ensures
            r is Ok ==> builder_members(*final(self)) == builder_members(*old(self)).push(
                (name@, data@),
            ),
    {
        let s = match std::str::from_utf8(name) {
            Ok(s) => s,
            Err(_) => return Err(ErrorKind::FilesystemError),
        };
        let opts = zip::write::SimpleFileOptions::default().compression_method(self.method);
        if let Err(e) = self.inner.start_file(s, opts) {
            return Err(kind_of_zip_error(&e));
        }
        match std::io::Write::write_all(&mut self.inner, data) {
            Ok(()) => Ok(()),
            Err(_) => Err(ErrorKind::FilesystemError),
        }
    }

    /// Append a zero-length directory member. The stored name must already
    /// carry its trailing `/`, so the stored name is the name given.
    ///
    /// Relies on `zip::ZipWriter::add_directory`, which keeps a name that
    /// already ends in `/` as it is and appends one empty, stored member.
    #[verifier::external_body]
    pub fn add_dir(&mut self, name: &Vec<u8>) -> (r: Result<(), ErrorKind>)
        requires
            name@.len() > 0,
            name@[name@.len() - 1] == crate::paths::SLASH,
        ensures
            r is Ok ==> builder_members(*final(self)) == builder_members(*old(self)).push(
                (name@, Seq::<u8>::empty()),
            ),
    {
        let s = match std::str::from_utf8(name) {
            Ok(s) => s,
            Err(_) => return Err(ErrorKind::FilesystemError),
        };
        let opts = zip::write::SimpleFileOptions::default();
        match self.inner.add_directory(s, opts) {
            Ok(()) => Ok(()),
            Err(e) => Err(kind_of_zip_error(&e)),
        }
    }

    /// Write the trailing central directory and hand back the container
    /// bytes.
    ///
    /// Relies on `zip::ZipWriter::finish` writing a central directory that
    /// lists the members in insertion order, and on reading the result back:
    /// `zip::ZipArchive` iterates members in stored order and returns, for
    /// each, the stored name and the decompressed bytes, which equal the
    /// bytes written because store and deflate are lossless and the stored
    /// checksum is computed from the original bytes.
    #[verifier::external_body]
    pub fn finish(self) -> (r: Result<Vec<u8>, ErrorKind>)
        ensures
            r is Ok ==> archive_listing(r.unwrap()@) == Some(member_names(builder_members(self))),
            r is Ok ==> forall|i: int|
                0 <= i < builder_members(self).len() ==> archive_member_data(r.unwrap()@, i)
                    == Some(builder_members(self)[i].1),
    {
        match self.inner.finish() {
            Ok(cursor) => Ok(cursor.into_inner()),
            Err(e) => Err(kind_of_zip_error(&e)),
        }
    }
}

/// An archive opened for reading.
///
/// Relies on `zip::ZipArchive` over an in-memory cursor.
#[verifier::external_body]
pub struct ZipHandle {
    inner: zip::ZipArchive<std::io::Cursor<Vec<u8>>>,
}

impl ZipHandle {
    /// Open container bytes, parsing the trailing central directory.
    ///
    /// Relies on `zip::ZipArchive::new`: it succeeds exactly when the bytes
    /// form a well-formed container, which is what [`archive_listing`] being
    /// `Some` names.
    #[verifier::external_body]
    pub fn open(bytes: &Vec<u8>) -> (r: Result<ZipHandle, ErrorKind>)
        ensures
            r is Ok ==> handle_bytes(r.unwrap()) == bytes@ && archive_listing(bytes@) is Some,
            r is Err ==> archive_listing(bytes@) is None,
    {
        match zip::ZipArchive::new(std::io::Cursor::new(bytes.clone())) {
            Ok(inner) => Ok(ZipHandle { inner }),
            Err(e) => Err(kind_of_zip_error(&e)),
        }
    }

    /// The number of members listed in the central directory.
    ///
    /// Relies on `zip::ZipArchive::len`. A handle exists only for bytes that
    /// opened successfully, so the listing is present.
    #[verifier::external_body]
    pub fn count(&self) -> (r: usize)
        ensures
            r == archive_listing(handle_bytes(*self)).unwrap().len(),
    {
        self.inner.len()
    }

    /// The stored name of member `i`.
    ///
    /// Relies on `zip::ZipArchive::name_for_index`, which returns the stored
    /// name for every index below the member count and nothing otherwise.
    #[verifier::external_body]
    pub fn name_at(&self, i: usize) -> (r: Result<Vec<u8>, ErrorKind>)
        ensures
            r is Ok <==> i < archive_listing(handle_bytes(*self)).unwrap().len(),
            r is Ok ==> r.unwrap()@ == archive_listing(handle_bytes(*self)).unwrap()[i as int],
            r is Err ==> r.unwrap_err() == ErrorKind::ArchiveFormatError,
    {
        match self.inner.name_for_index(i) {
            Some(s) => Ok(s.as_bytes().to_vec()),
            None => Err(ErrorKind::ArchiveFormatError),
        }
    }

    /// The decompressed bytes of member `i`.
    ///
    /// Relies on `zip::ZipArchive::by_index` and `read_to_end`: the bytes
    /// come back exactly when the member decompresses intact and its stored
    /// checksum matches, which is what [`archive_member_data`] being `Some`
    /// names; reading leaves the archive's contents untouched.
    #[verifier::external_body]
    pub fn read_data(&mut self, i: usize) -> (r: Result<Vec<u8>, ErrorKind>)
        ensures
            handle_bytes(*final(self)) == handle_bytes(*old(self)),
            r is Ok ==> archive_member_data(handle_bytes(*old(self)), i as int) == Some(
                r.unwrap()@,
            ),
            r is Err ==> archive_member_data(handle_bytes(*old(self)), i as int) is None,
    {
        let mut f = match self.inner.by_index(i) {
            Ok(f) => f,
            Err(e) => return Err(kind_of_zip_error(&e)),
        };
        let mut buf: Vec<u8> = Vec::new();
        match std::io::Read::read_to_end(&mut f, &mut buf) {
            Ok(_) => Ok(buf),
            Err(_) => Err(ErrorKind::ArchiveFormatError),
        }
    }
}

} // verus!
