//! Reading ZIP archives held in memory, through the `zip` crate.

use std::io::{self, Cursor};

use vstd::prelude::*;
use zip::ZipArchive;

use crate::install::ErrorKind;

verus! {

/// `std::io::Cursor`, the in-memory reader that archives are read through.
#[verifier::external_type_specification]
#[verifier::external_body]
#[verifier::reject_recursive_types(T)]
pub struct ExCursor<T>(Cursor<T>);

/// `zip::ZipArchive`.
#[verifier::external_type_specification]
#[verifier::external_body]
#[verifier::reject_recursive_types(R)]
pub struct ExZipArchive<R>(ZipArchive<R>);

/// The bytes of the ZIP file that an archive reads.
pub uninterp spec fn archive_bytes(a: ZipArchive<Cursor<Vec<u8>>>) -> Seq<u8>;

/// What `ZipArchive::new` finds in the bytes of a ZIP file: the names of its
/// entries in order, or `None` where it fails.
pub uninterp spec fn zip_names(bytes: Seq<u8>) -> Option<Seq<Seq<char>>>;

/// What `ZipArchive::by_index(i)` and then `ZipFile::name` give on the
/// archive of `bytes`: the entry's name, or `None` where either fails.
pub uninterp spec fn entry_name_of(bytes: Seq<u8>, i: int) -> Option<Seq<char>>;

/// What `ZipArchive::by_index(i)` and then reading the entry to its end give
/// on the archive of `bytes`: `None` where the entry cannot be opened,
/// `Some(Err(kind))` where reading it fails with an error of that kind, else
/// its bytes.
pub uninterp spec fn entry_data_of(bytes: Seq<u8>, i: int) -> Option<Result<Seq<u8>, ErrorKind>>;

/// What `ZipArchive::by_name(name)` and then reading the entry to its end
/// give on the archive of `bytes`: `None` where no entry is found,
/// `Some(Err(kind))` where reading it fails with an error of that kind, else
/// its bytes.
pub uninterp spec fn named_data_of(bytes: Seq<u8>, name: Seq<char>) -> Option<
    Result<Seq<u8>, ErrorKind>,
>;

/// The number of entries that the archive of `bytes` holds.
pub open spec fn entry_count(bytes: Seq<u8>) -> nat {
    match zip_names(bytes) {
        Some(ns) => ns.len(),
        None => 0,
    }
}

/// `ZipArchive::new` over the bytes `bytes`, or the error's text.
#[verifier::external_body]
pub(crate) fn open_archive(bytes: Vec<u8>) -> (r: Result<ZipArchive<Cursor<Vec<u8>>>, String>)
    ensures
        r is Ok <==> zip_names(bytes@) is Some,
        r matches Ok(a) ==> archive_bytes(a) == bytes@,
{
    match ZipArchive::new(Cursor::new(bytes)) {
        Ok(a) => Ok(a),
        Err(e) => Err(e.to_string()),
    }
}

/// `ZipArchive::len`: the number of entries.
#[verifier::external_body]
pub(crate) fn archive_len(a: &ZipArchive<Cursor<Vec<u8>>>) -> (n: usize)
    ensures
        n == entry_count(archive_bytes(*a)),
{
    a.len()
}

/// `ZipArchive::by_index` and then `ZipFile::name`: the name of entry `i`, or
/// the error's text.
#[verifier::external_body]
pub(crate) fn entry_name(a: &mut ZipArchive<Cursor<Vec<u8>>>, i: usize) -> (r: Result<String, String>)
    ensures
        archive_bytes(*final(a)) == archive_bytes(*old(a)),
        match r {
            Ok(n) => entry_name_of(archive_bytes(*old(a)), i as int) == Some(n@),
            Err(_) => entry_name_of(archive_bytes(*old(a)), i as int) is None,
        },
{
    match a.by_index(i) {
        Ok(f) => match f.name() {
            Ok(n) => Ok(n.to_string()),
            Err(e) => Err(e.to_string()),
        },
        Err(e) => Err(e.to_string()),
    }
}

/// `ZipArchive::by_index` and then reading the entry to its end: the bytes of
/// entry `i`; `Err(Err(text))` where it cannot be opened, `Err(Ok((kind,
/// text)))` where reading it fails, with the kind of the `std::io::Error`.
#[verifier::external_body]
pub(crate) fn entry_bytes(a: &mut ZipArchive<Cursor<Vec<u8>>>, i: usize) -> (r: Result<
    Vec<u8>,
    Result<(ErrorKind, String), String>,
>)
    ensures
        archive_bytes(*final(a)) == archive_bytes(*old(a)),
        match r {
            Ok(b) => entry_data_of(archive_bytes(*old(a)), i as int) == Some(Ok::<Seq<u8>, ErrorKind>(b@)),
            Err(Ok((k, _))) => entry_data_of(archive_bytes(*old(a)), i as int) == Some(
                Err::<Seq<u8>, ErrorKind>(k),
            ),
            Err(Err(_)) => entry_data_of(archive_bytes(*old(a)), i as int) is None,
        },
{
    let mut f = match a.by_index(i) {
        Ok(f) => f,
        Err(e) => return Err(Err(e.to_string())),
    };
    let mut buf = Vec::new();
    match io::copy(&mut f, &mut buf) {
        Ok(_) => Ok(buf),
        Err(e) => Err(Ok((match e.kind() {
            io::ErrorKind::NotFound => ErrorKind::NotFound,
            io::ErrorKind::AlreadyExists => ErrorKind::AlreadyExists,
            io::ErrorKind::ConnectionRefused => ErrorKind::ConnectionRefused,
            io::ErrorKind::InvalidData => ErrorKind::InvalidData,
            _ => ErrorKind::Other,
        }, e.to_string()))),
    }
}

/// `ZipArchive::by_name` and then reading the entry to its end: the bytes of
/// the entry named `name`; `Err(Err(text))` where none is found,
/// `Err(Ok((kind, text)))` where reading it fails, with the kind of the
/// `std::io::Error`.
#[verifier::external_body]
pub(crate) fn named_entry_bytes(a: &mut ZipArchive<Cursor<Vec<u8>>>, name: &str) -> (r: Result<
    Vec<u8>,
    Result<(ErrorKind, String), String>,
>)
    ensures
        archive_bytes(*final(a)) == archive_bytes(*old(a)),
        match r {
            Ok(b) => named_data_of(archive_bytes(*old(a)), name@) == Some(Ok::<Seq<u8>, ErrorKind>(b@)),
            Err(Ok((k, _))) => named_data_of(archive_bytes(*old(a)), name@) == Some(
                Err::<Seq<u8>, ErrorKind>(k),
            ),
            Err(Err(_)) => named_data_of(archive_bytes(*old(a)), name@) is None,
        },
{
    let mut f = match a.by_name(name) {
        Ok(f) => f,
        Err(e) => return Err(Err(e.to_string())),
    };
    let mut buf = Vec::new();
    match io::copy(&mut f, &mut buf) {
        Ok(_) => Ok(buf),
        Err(e) => Err(Ok((match e.kind() {
            io::ErrorKind::NotFound => ErrorKind::NotFound,
            io::ErrorKind::AlreadyExists => ErrorKind::AlreadyExists,
            io::ErrorKind::ConnectionRefused => ErrorKind::ConnectionRefused,
            io::ErrorKind::InvalidData => ErrorKind::InvalidData,
            _ => ErrorKind::Other,
        }, e.to_string()))),
    }
}

} // verus!
