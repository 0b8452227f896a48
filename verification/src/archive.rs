//! Reading a package archive: a zip container whose file entries are
//! written below the install root under their own paths.
//!
//! The archive is decoded by the `zip` crate. This module decides which
//! entries are written and where, and it names the errors; writing the
//! files is left to the caller.

use crate::error::{CobraError, ErrorView};
use crate::package_manager::path_below;
use crate::text::{concat, to_chars};
use std::io::Cursor;
use vstd::prelude::*;
use zip::result::InvalidPassword;
use zip::result::ZipError;
use zip::ZipArchive;

verus! {

#[verifier::external_type_specification]
#[verifier::external_body]
#[verifier::reject_recursive_types(R)]
pub struct ExZipArchive<R>(ZipArchive<R>);

#[verifier::external_type_specification]
#[verifier::external_body]
#[verifier::reject_recursive_types(T)]
pub struct ExCursor<T>(Cursor<T>);

#[verifier::external_type_specification]
#[verifier::external_body]
pub struct ExZipError(ZipError);

#[verifier::external_type_specification]
#[verifier::external_body]
pub struct ExInvalidPassword(InvalidPassword);

/// The bytes that an archive was opened from.
pub uninterp spec fn archive_source(a: ZipArchive<Cursor<Vec<u8>>>) -> Seq<u8>;

/// What `ZipArchive::new` makes of `bytes`: the number of entries in the
/// central directory, or the text of its error.
pub uninterp spec fn zip_entry_count(bytes: Seq<u8>) -> Result<nat, Seq<char>>;

/// What `ZipArchive::by_index_raw` and `ZipFile::name` make of the entry
/// `index` of the archive `bytes`: the entry's path, or the text of the
/// error.
pub uninterp spec fn zip_entry_name(bytes: Seq<u8>, index: int) -> Result<Seq<char>, Seq<char>>;

/// What `ZipArchive::by_index_decrypt` with the empty password and reading
/// to the end make of the entry `index` of the archive `bytes`: the
/// entry's contents, nothing for an entry that the empty password does not
/// open, or the text of the error.
pub uninterp spec fn zip_entry_data(bytes: Seq<u8>, index: int) -> Result<
    Option<Seq<u8>>,
    Seq<char>,
>;

/// The text that a `ZipError` displays.
pub uninterp spec fn zip_error_text(e: ZipError) -> Seq<char>;

/// `ZipArchive::new` on a cursor over `data`: reads the central directory.
#[verifier::external_body]
fn archive_open(data: Vec<u8>) -> (r: Result<ZipArchive<Cursor<Vec<u8>>>, ZipError>)
    ensures
        match r {
            Ok(a) => archive_source(a) == data@ && zip_entry_count(data@) is Ok,
            Err(e) => zip_entry_count(data@) == Err::<nat, Seq<char>>(zip_error_text(e)),
        },
{
    ZipArchive::new(Cursor::new(data))
}

/// `ZipArchive::len`: the number of entries in the central directory.
#[verifier::external_body]
fn archive_len(a: &ZipArchive<Cursor<Vec<u8>>>) -> (n: usize)
    ensures
        match zip_entry_count(archive_source(*a)) {
            Ok(count) => n == count,
            Err(_) => false,
        },
{
    a.len()
}

/// `ZipArchive::by_index_raw` and `ZipFile::name`: the path of an entry,
/// read from the central directory once the entry's local header was
/// found. The archive stays what it was.
#[verifier::external_body]
fn archive_entry_name(a: &mut ZipArchive<Cursor<Vec<u8>>>, index: usize) -> (r: Result<
    String,
    ZipError,
>)
    ensures
        archive_source(*final(a)) == archive_source(*old(a)),
        match r {
            Ok(name) => zip_entry_name(archive_source(*old(a)), index as int) == Ok::<
                Seq<char>,
                Seq<char>,
            >(name@),
            Err(e) => zip_entry_name(archive_source(*old(a)), index as int) == Err::<
                Seq<char>,
                Seq<char>,
            >(zip_error_text(e)),
        },
{
    Ok(a.by_index_raw(index)?.name().to_string())
}

/// `ZipArchive::by_index_decrypt` with the empty password and
/// `Read::read_to_end`: the contents of an entry, decompressed and checked
/// against its checksum, or the inner error of an entry that the empty
/// password does not open. The archive stays what it was.
#[verifier::external_body]
fn archive_entry_data(a: &mut ZipArchive<Cursor<Vec<u8>>>, index: usize) -> (r: Result<
    Result<Vec<u8>, InvalidPassword>,
    ZipError,
>)
    ensures
        archive_source(*final(a)) == archive_source(*old(a)),
        match r {
            Ok(Ok(data)) => zip_entry_data(archive_source(*old(a)), index as int) == Ok::<
                Option<Seq<u8>>,
                Seq<char>,
            >(Some(data@)),
            Ok(Err(_)) => zip_entry_data(archive_source(*old(a)), index as int) == Ok::<
                Option<Seq<u8>>,
                Seq<char>,
            >(None),
            Err(e) => zip_entry_data(archive_source(*old(a)), index as int) == Err::<
                Option<Seq<u8>>,
                Seq<char>,
            >(zip_error_text(e)),
        },
{
    let mut file = match a.by_index_decrypt(index, &[])? {
        Ok(file) => file,
        Err(e) => return Ok(Err(e)),
    };
    let mut data = Vec::new();
    std::io::Read::read_to_end(&mut file, &mut data)?;
    Ok(Ok(data))
}

/// The text that a `ZipError` displays.
#[verifier::external_body]
fn zip_error_message(e: &ZipError) -> (text: String)
    ensures
        text@ == zip_error_text(*e),
{
    e.to_string()
}

/// One file that extraction writes.
#[derive(Debug)]
pub struct FileWrite {
    /// Where the file goes: the entry's path below the install root.
    pub path: String,
    pub data: Vec<u8>,
}

/// The mathematical value of a [`FileWrite`].
pub struct FileWriteView {
    pub path: Seq<char>,
    pub data: Seq<u8>,
}

impl View for FileWrite {
    type V = FileWriteView;

    open spec fn view(&self) -> FileWriteView {
        FileWriteView { path: self.path@, data: self.data@ }
    }
}

/// The values of a sequence of writes, in order.
pub open spec fn write_views(writes: Seq<FileWrite>) -> Seq<FileWriteView> {
    Seq::new(writes.len(), |i: int| writes[i]@)
}

/// Whether an entry path names a directory: it ends in a slash or a
/// backslash. Every other entry is a file.
pub open spec fn names_directory(name: Seq<char>) -> bool {
    name.len() > 0 && (name.last() == '/' || name.last() == '\\')
}

/// Tests whether an entry path names a directory.
pub fn is_directory_name(name: &str) -> (r: bool)
    ensures
        r == names_directory(name@),
{
    let v = to_chars(name);
    let n = v.len();
    n > 0 && (v[n - 1] == '/' || v[n - 1] == '\\')
}

/// What the entry `index` of the archive `bytes` contributes to an
/// extraction below `root`: nothing for a directory entry, one write for a
/// file entry, an error for an entry that cannot be read or that is
/// encrypted.
pub open spec fn entry_outcome(bytes: Seq<u8>, root: Seq<char>, index: int) -> Result<
    Option<FileWriteView>,
    ErrorView,
> {
    match zip_entry_name(bytes, index) {
        Err(text) => Err(ErrorView::Archive("Failed to read file: "@ + text)),
        Ok(name) => if names_directory(name) {
            Ok(None)
        } else {
            match zip_entry_data(bytes, index) {
                Err(text) => Err(ErrorView::Archive("Failed to read file: "@ + text)),
                Ok(None) => Err(ErrorView::Archive("Failed to read file: entry needs a password"@)),
                Ok(Some(data)) => Ok(Some(FileWriteView { path: path_below(root, name), data })),
            }
        },
    }
}

/// What the first `upto` entries of the archive `bytes` contribute to an
/// extraction below `root`: the writes of their file entries in order, or
/// the error of the first entry that cannot be read.
pub open spec fn extracted(bytes: Seq<u8>, root: Seq<char>, upto: int) -> Result<
    Seq<FileWriteView>,
    ErrorView,
>
    decreases upto,
{
    if upto <= 0 {
        Ok(Seq::empty())
    } else {
        match extracted(bytes, root, upto - 1) {
            Err(e) => Err(e),
            Ok(writes) => match entry_outcome(bytes, root, upto - 1) {
                Err(e) => Err(e),
                Ok(None) => Ok(writes),
                Ok(Some(write)) => Ok(writes.push(write)),
            },
        }
    }
}

/// The extraction of the archive `bytes` below `root`.
pub open spec fn extraction(bytes: Seq<u8>, root: Seq<char>) -> Result<
    Seq<FileWriteView>,
    ErrorView,
> {
    match zip_entry_count(bytes) {
        Err(text) => Err(ErrorView::Archive("Failed to read archive: "@ + text)),
        Ok(n) => extracted(bytes, root, n as int),
    }
}

/// An opened package archive.
pub struct PackageArchive {
    archive: ZipArchive<Cursor<Vec<u8>>>,
}

impl View for PackageArchive {
    type V = Seq<u8>;

    /// The bytes of the archive.
    closed spec fn view(&self) -> Seq<u8> {
        archive_source(self.archive)
    }
}

impl PackageArchive {
    /// Opens an archive.
    pub fn open(data: Vec<u8>) -> (r: Result<PackageArchive, CobraError>)
        ensures
            match r {
                Ok(a) => a@ == data@ && zip_entry_count(data@) is Ok,
                Err(e) => match zip_entry_count(data@) {
                    Err(text) => e@ == ErrorView::Archive("Failed to read archive: "@ + text),
                    Ok(_) => false,
                },
            },
    {
        match archive_open(data) {
            Ok(archive) => Ok(PackageArchive { archive }),
            Err(e) => {
                let text = zip_error_message(&e);
                Err(CobraError::Archive(concat("Failed to read archive: ", text.as_str())))
            },
        }
    }

    /// The number of entries.
    pub fn len(&self) -> (n: usize)
        ensures
            zip_entry_count(self@) == Ok::<nat, Seq<char>>(n as nat),
    {
        let n = archive_len(&self.archive);
        assert(zip_entry_count(self@) is Ok);
        n
    }

    /// Reads the entry `index` for an extraction below `install_root`.
    pub fn entry(&mut self, index: usize, install_root: &str) -> (r: Result<
        Option<FileWrite>,
        CobraError,
    >)
        ensures
            final(self)@ == old(self)@,
            match r {
                Ok(Some(write)) => entry_outcome(old(self)@, install_root@, index as int) == Ok::<
                    Option<FileWriteView>,
                    ErrorView,
                >(Some(write@)),
                Ok(None) => entry_outcome(old(self)@, install_root@, index as int) == Ok::<
                    Option<FileWriteView>,
                    ErrorView,
                >(None),
                Err(e) => entry_outcome(old(self)@, install_root@, index as int) == Err::<
                    Option<FileWriteView>,
                    ErrorView,
                >(e@),
            },
    {
        let name = match archive_entry_name(&mut self.archive, index) {
            Ok(name) => name,
            Err(e) => {
                let text = zip_error_message(&e);
                return Err(CobraError::Archive(concat("Failed to read file: ", text.as_str())));
            },
        };
        if is_directory_name(name.as_str()) {
            return Ok(None);
        }
        match archive_entry_data(&mut self.archive, index) {
            Ok(Ok(data)) => {
                let below = concat(install_root, "/");
                let path = concat(below.as_str(), name.as_str());
                Ok(Some(FileWrite { path, data }))
            },
            Ok(Err(_)) => Err(
                CobraError::Archive(
                    String::from_str("Failed to read file: entry needs a password"),
                ),
            ),
            Err(e) => {
                let text = zip_error_message(&e);
                Err(CobraError::Archive(concat("Failed to read file: ", text.as_str())))
            },
        }
    }
}

/// Reads a package archive for an extraction below `install_root`: one
/// write for each file entry, in the order of the entries.
pub fn extract_package(data: Vec<u8>, install_root: &str) -> (r: Result<Vec<FileWrite>, CobraError>)
    ensures
        match r {
            Ok(writes) => extraction(data@, install_root@) == Ok::<Seq<FileWriteView>, ErrorView>(
                write_views(writes@),
            ),
            Err(e) => extraction(data@, install_root@) == Err::<Seq<FileWriteView>, ErrorView>(e@),
        },
{
    let mut archive = match PackageArchive::open(data) {
        Ok(archive) => archive,
        Err(e) => {
            return Err(e);
        },
    };
    let n = archive.len();
    let mut writes: Vec<FileWrite> = Vec::new();
    let mut i: usize = 0;
    assert(write_views(writes@) =~= Seq::<FileWriteView>::empty());
    while i < n
        invariant
            i <= n,
            archive@ == data@,
            zip_entry_count(data@) == Ok::<nat, Seq<char>>(n as nat),
            extracted(data@, install_root@, i as int) == Ok::<Seq<FileWriteView>, ErrorView>(
                write_views(writes@),
            ),
        decreases n - i,
    {
        let ghost before = write_views(writes@);
        match archive.entry(i, install_root) {
            Ok(Some(write)) => {
                writes.push(write);
                assert(write_views(writes@) =~= before.push(write@));
            },
            Ok(None) => {},
            Err(e) => {
                proof {
                    lemma_extraction_fails(data@, install_root@, i as int, n as int);
                }
                return Err(e);
            },
        }
        i += 1;
    }
    Ok(writes)
}

/// An extraction that has failed at one entry fails with the same error
/// however many entries follow.
pub proof fn lemma_extraction_fails(bytes: Seq<u8>, root: Seq<char>, at: int, upto: int)
    requires
        0 <= at < upto,
        extracted(bytes, root, at) is Ok,
        entry_outcome(bytes, root, at) is Err,
    ensures
        match entry_outcome(bytes, root, at) {
            Err(e) => extracted(bytes, root, upto) == Err::<Seq<FileWriteView>, ErrorView>(e),
            Ok(_) => false,
        },
    decreases upto,
{
    if upto > at + 1 {
        lemma_extraction_fails(bytes, root, at, upto - 1);
    }
}

/// Every write of an extraction lies below the install root, and there are
/// no more writes than entries.
pub proof fn lemma_extracted_below_root(bytes: Seq<u8>, root: Seq<char>, upto: int)
    requires
        extracted(bytes, root, upto) is Ok,
    ensures
        match extracted(bytes, root, upto) {
            Ok(writes) => writes.len() <= (if upto < 0 { 0 } else { upto }) && forall|k: int|
                0 <= k < writes.len() ==> (root + "/"@).is_prefix_of((#[trigger] writes[k]).path),
            Err(_) => false,
        },
    decreases upto,
{
    if upto > 0 {
        lemma_extracted_below_root(bytes, root, upto - 1);
        match entry_outcome(bytes, root, upto - 1) {
            Ok(Some(write)) => {
                match zip_entry_name(bytes, upto - 1) {
                    Ok(name) => {
                        assert(write.path == root + "/"@ + name);
                        assert((root + "/"@).is_prefix_of(write.path));
                    },
                    Err(_) => {},
                }
            },
            _ => {},
        }
    }
}

} // verus!
