//! Installing a tool from a downloaded zip archive: which entry holds the
//! executable, and its bytes.

use vstd::prelude::*;

use crate::text::str_eq;

verus! {

/// `s` ends with `suffix`.
pub open spec fn ends_with(s: Seq<char>, suffix: Seq<char>) -> bool {
    suffix.len() <= s.len() && s.skip(s.len() - suffix.len()) == suffix
}

/// The texts of a sequence of strings.
pub open spec fn texts_of(v: Seq<String>) -> Seq<Seq<char>> {
    v.map_values(|s: String| s@)
}

/// Entry `i` is the one to install: the first named exactly `expected`,
/// or, when none is, the first whose name ends with the executable suffix.
pub open spec fn is_chosen_entry(
    names: Seq<Seq<char>>,
    expected: Seq<char>,
    suffix: Seq<char>,
    i: int,
) -> bool {
    &&& 0 <= i < names.len()
    &&& if names[i] == expected {
        forall|j: int| 0 <= j < i ==> names[j] != expected
    } else {
        &&& forall|j: int| 0 <= j < names.len() ==> names[j] != expected
        &&& ends_with(names[i], suffix)
        &&& forall|j: int| 0 <= j < i ==> !ends_with(names[j], suffix)
    }
}

/// No entry is the executable: none has the expected name or the suffix.
pub open spec fn no_executable(names: Seq<Seq<char>>, expected: Seq<char>, suffix: Seq<char>) -> bool {
    forall|j: int| 0 <= j < names.len() ==> names[j] != expected && !ends_with(names[j], suffix)
}

pub fn str_ends_with(s: &str, suffix: &str) -> (r: bool)
    ensures
        r == ends_with(s@, suffix@),
{
    let n = s.unicode_len();
    let m = suffix.unicode_len();
    if m > n {
        return false;
    }
    let tail = s.substring_char(n - m, n);
    assert(tail@ =~= s@.skip(n - m));
    str_eq(tail, suffix)
}

/// The position of the entry to install from an archive whose entries are
/// `names`, for a tool whose executable is `expected`.
pub fn choose_entry(names: &Vec<String>, expected: &str, suffix: &str) -> (r: Option<usize>)
    ensures
        match r {
            Some(i) => is_chosen_entry(texts_of(names@), expected@, suffix@, i as int),
            None => no_executable(texts_of(names@), expected@, suffix@),
        },
{
    let ghost ns = texts_of(names@);
    let mut i: usize = 0;
    while i < names.len()
        invariant
            i <= names@.len(),
            ns == texts_of(names@),
            forall|j: int| 0 <= j < i ==> ns[j] != expected@,
        decreases names@.len() - i,
    {
        if str_eq(names[i].as_str(), expected) {
            return Some(i);
        }
        i = i + 1;
    }
    let mut i: usize = 0;
    while i < names.len()
        invariant
            i <= names@.len(),
            ns == texts_of(names@),
            forall|j: int| 0 <= j < names@.len() ==> ns[j] != expected@,
            forall|j: int| 0 <= j < i ==> !ends_with(ns[j], suffix@),
        decreases names@.len() - i,
    {
        if str_ends_with(names[i].as_str(), suffix) {
            return Some(i);
        }
        i = i + 1;
    }
    None
}

#[verifier::external_type_specification]
#[verifier::external_body]
pub struct ExZipError(zip::result::ZipError);

/// The names of the entries of the zip archive `bytes`, in order.
pub uninterp spec fn zip_entry_names(bytes: Seq<u8>) -> Seq<Seq<char>>;

/// The decompressed contents of entry `index` of the zip archive `bytes`.
pub uninterp spec fn zip_entry_data(bytes: Seq<u8>, index: int) -> Seq<u8>;

/// Relies on `zip::ZipArchive::new`, `len`, `by_index` and `ZipFile::name`:
/// the names of the archive's entries, by index.
#[verifier::external_body]
fn read_entry_names(bytes: &[u8]) -> (r: Result<Vec<String>, zip::result::ZipError>)
    ensures
        r matches Ok(v) ==> texts_of(v@) == zip_entry_names(bytes@),
{
    let mut zip = zip::ZipArchive::new(std::io::Cursor::new(bytes))?;
    let mut names = Vec::new();
    for i in 0..zip.len() {
        names.push(zip.by_index(i)?.name().to_owned());
    }
    Ok(names)
}

/// Relies on `zip::ZipArchive::by_index` and `Read for ZipFile`: the
/// decompressed bytes of one entry.
#[verifier::external_body]
fn read_entry(bytes: &[u8], index: usize) -> (r: Result<Vec<u8>, zip::result::ZipError>)
    ensures
        r matches Ok(v) ==> v@ == zip_entry_data(bytes@, index as int),
{
    let mut zip = zip::ZipArchive::new(std::io::Cursor::new(bytes))?;
    let mut entry = zip.by_index(index)?;
    let mut out = Vec::new();
    std::io::Read::read_to_end(&mut entry, &mut out)?;
    Ok(out)
}

/// Why no executable came out of an archive.
#[derive(Debug)]
pub enum ArchiveError {
    /// The archive could not be read.
    Zip(zip::result::ZipError),
    /// No entry is the executable.
    NoExecutable,
}

/// The executable in the zip archive `bytes`: the entry named `expected`,
/// or else the first entry that ends with the platform's executable suffix.
pub fn extract_executable(bytes: &[u8], expected: &str, suffix: &str) -> (r: Result<
    Vec<u8>,
    ArchiveError,
>)
    ensures
        r matches Ok(data) ==> exists|i: int|
            is_chosen_entry(zip_entry_names(bytes@), expected@, suffix@, i) && data@
                == zip_entry_data(bytes@, i),
        r matches Err(ArchiveError::NoExecutable) ==> no_executable(
            zip_entry_names(bytes@),
            expected@,
            suffix@,
        ),
{
    let names = match read_entry_names(bytes) {
        Ok(n) => n,
        Err(e) => return Err(ArchiveError::Zip(e)),
    };
    match choose_entry(&names, expected, suffix) {
        None => Err(ArchiveError::NoExecutable),
        Some(i) => match read_entry(bytes, i) {
            Ok(data) => Ok(data),
            Err(e) => Err(ArchiveError::Zip(e)),
        },
    }
}

} // verus!
