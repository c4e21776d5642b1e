//! Access to the entries of a ZIP archive held in memory, through the
//! `zip` crate.
use vstd::prelude::*;

verus! {

#[verifier::external_type_specification]
#[verifier::external_body]
#[verifier::reject_recursive_types(R)]
pub struct ExZipArchive<R>(zip::ZipArchive<R>);

#[verifier::external_type_specification]
#[verifier::external_body]
#[verifier::reject_recursive_types(T)]
pub struct ExCursor<T>(std::io::Cursor<T>);

#[verifier::external_type_specification]
#[verifier::external_body]
pub struct ExZipError(zip::result::ZipError);

#[verifier::external_type_specification]
#[verifier::external_body]
pub struct ExIoError(std::io::Error);

/// The entries that `zip::ZipArchive::new` finds in the central directory
/// of `data`, by name, each as `ZipArchive::by_name` and reading it to the
/// end give it: `None` when the entry cannot be opened, `Some(None)` when
/// its contents cannot be read to the end, else `Some(Some(contents))`, the
/// decompressed contents; `None` when `data` is not a ZIP archive the crate
/// can open.
pub uninterp spec fn zip_central_directory(data: Seq<u8>) -> Option<
    Map<Seq<char>, Option<Option<Seq<u8>>>>,
>;

/// The entries that an opened archive holds, by name, each as in
/// `zip_central_directory`.
pub uninterp spec fn zip_archive_entries(a: zip::ZipArchive<std::io::Cursor<Vec<u8>>>) -> Map<
    Seq<char>,
    Option<Option<Seq<u8>>>,
>;

/// `zip::ZipArchive::new` on the bytes (wrapped in `std::io::Cursor::new`).
/// Claims: it opens exactly when the central directory of `data` can be
/// read, and the opened archive holds the entries of that directory.
#[verifier::external_body]
pub fn zip_open(data: Vec<u8>) -> (res: Result<zip::ZipArchive<std::io::Cursor<Vec<u8>>>, zip::result::ZipError>)
    ensures
        res is Ok <==> zip_central_directory(data@) is Some,
        res matches Ok(a) ==> zip_central_directory(data@) == Some(zip_archive_entries(a)),
{
    zip::ZipArchive::new(std::io::Cursor::new(data))
}

/// `zip::ZipArchive::index_for_name(name).is_some()`. Claims: the result
/// says whether an entry of that name is in the archive.
#[verifier::external_body]
pub fn zip_has_entry(a: &zip::ZipArchive<std::io::Cursor<Vec<u8>>>, name: &str) -> (res: bool)
    ensures
        res == zip_archive_entries(*a).contains_key(name@),
{
    a.index_for_name(name).is_some()
}

/// `zip::ZipArchive::by_name(name)`, its `ZipFile` read to the end with
/// `std::io::Read::read_to_end`. `ZipError::FileNotFound` becomes
/// `Ok(None)`; the I/O error of reading is given as `Ok(Some(Err(..)))`.
/// Claims: the archive's entries are unchanged; a missing name gives
/// `Ok(None)`; a present entry gives an error exactly when it cannot be
/// opened, else its contents, or the I/O error exactly when they cannot be
/// read to the end.
#[verifier::external_body]
pub fn zip_read_entry(a: &mut zip::ZipArchive<std::io::Cursor<Vec<u8>>>, name: &str) -> (res: Result<Option<Result<Vec<u8>, std::io::Error>>, zip::result::ZipError>)
    ensures
        zip_archive_entries(*final(a)) == zip_archive_entries(*old(a)),
        !zip_archive_entries(*old(a)).contains_key(name@) ==> res matches Ok(None),
        zip_archive_entries(*old(a)).contains_key(name@) ==> match res {
            Ok(Some(Ok(v))) => zip_archive_entries(*old(a))[name@] == Some(Some(v@)),
            Ok(Some(Err(_))) => zip_archive_entries(*old(a))[name@] == Some(None::<Seq<u8>>),
            Ok(None) => false,
            Err(_) => zip_archive_entries(*old(a))[name@] is None,
        },
{
    match a.by_name(name) {
        Ok(mut file) => {
            let mut buf: Vec<u8> = Vec::new();
            match std::io::Read::read_to_end(&mut file, &mut buf) {
                Ok(_) => Ok(Some(Ok(buf))),
                Err(e) => Ok(Some(Err(e))),
            }
        },
        Err(zip::result::ZipError::FileNotFound) => Ok(None),
        Err(e) => Err(e),
    }
}

/// What reading the entry `name` of `data` gives: `None` when there is no
/// such entry (or no archive), else the entry as in `zip_central_directory`.
pub open spec fn entry_of(data: Seq<u8>, name: Seq<char>) -> Option<Option<Option<Seq<u8>>>> {
    match zip_central_directory(data) {
        Some(dir) => if dir.contains_key(name) {
            Some(dir[name])
        } else {
            None
        },
        None => None,
    }
}

} // verus!
