//! File metadata records, the file-name suffix of a path, and queries
//! against the file system.

use std::path::Path;

use vstd::prelude::*;
use vstd::string::{StrSliceExecFns, StringExecFns};

use crate::errors::CustomError;

verus! {

/// Name, location and (optionally) content of one file.
#[derive(Debug, Clone)]
pub struct FileInfo {
    pub file_name: String,
    pub absolute_path: String,
    pub file_data: Box<Vec<u8>>,
}

impl FileInfo {
    /// Bundles the three fields into a record.
    pub fn new(file_name: String, absolute_path: String, file_data: Box<Vec<u8>>) -> (r: Self)
        ensures
            r.file_name@ == file_name@,
            r.absolute_path@ == absolute_path@,
            r.file_data@ == file_data@,
    {
        Self { file_name, absolute_path, file_data }
    }
}

impl Default for FileInfo {
    /// An empty record: no name, no path, no content.
    fn default() -> (r: Self)
        ensures
            r.file_name@ == Seq::<char>::empty(),
            r.absolute_path@ == Seq::<char>::empty(),
            r.file_data@ == Seq::<u8>::empty(),
    {
        Self {
            file_name: String::new(),
            absolute_path: String::new(),
            file_data: Box::new(Vec::new()),
        }
    }
}

/// How an archive is packed.
#[derive(Debug, Clone, Copy, PartialEq, Eq, Structural)]
pub enum CompressType {
    Zip,
    Tar,
}

/// Relies on `std::path::Path::exists`: whether the path names an existing
/// file-system entry. The answer depends on the state of the disk, so
/// nothing is promised of it.
#[verifier::external_body]
pub fn is_exist(path: &str) -> bool {
    Path::new(path).exists()
}

/// Relies on `std::path::Path::is_dir`: whether the path names an existing
/// directory. The answer depends on the state of the disk.
#[verifier::external_body]
pub fn is_dir(path: &str) -> bool {
    Path::new(path).is_dir()
}

/// Relies on `std::path::Path::is_file`: whether the path names an existing
/// regular file. The answer depends on the state of the disk.
#[verifier::external_body]
pub fn is_file(path: &str) -> bool {
    Path::new(path).is_file()
}

/// The characters after the last `/` of `p`; all of `p` when it has none.
pub open spec fn spec_file_name(p: Seq<char>) -> Seq<char>
    decreases p.len(),
{
    if p.len() == 0 {
        Seq::empty()
    } else if p.last() == '/' {
        Seq::empty()
    } else {
        spec_file_name(p.drop_last()).push(p.last())
    }
}

proof fn lemma_file_name_split(p: Seq<char>, i: int)
    requires
        0 <= i <= p.len(),
        forall|j: int| i <= j < p.len() ==> p[j] != '/',
    ensures
        spec_file_name(p) == spec_file_name(p.take(i)) + p.subrange(i, p.len() as int),
    decreases p.len() - i,
{
    if i == p.len() {
        assert(p.take(i) =~= p);
        assert(p.subrange(i, p.len() as int) =~= Seq::<char>::empty());
        assert(spec_file_name(p) + Seq::<char>::empty() =~= spec_file_name(p));
    } else {
        lemma_file_name_split(p.drop_last(), i);
        assert(p.drop_last().take(i) =~= p.take(i));
        assert(spec_file_name(p) == spec_file_name(p.drop_last()).push(p.last()));
        assert(spec_file_name(p.take(i)) + p.subrange(i, p.len() as int) =~= (spec_file_name(
            p.take(i),
        ) + p.drop_last().subrange(i, p.len() - 1)).push(p.last()));
    }
}

/// The file-name part of a path: everything after its last `/` separator.
pub fn file_name_of(path: &str) -> (r: String)
    ensures
        r@ == spec_file_name(path@),
{
    let len = path.unicode_len();
    let mut i: usize = len;
    while i > 0 && path.get_char(i - 1) != '/'
        invariant
            0 <= i <= len,
            len == path@.len(),
            forall|j: int| i <= j < len ==> path@[j] != '/',
        decreases i,
    {
        i = i - 1;
    }
    proof {
        lemma_file_name_split(path@, i as int);
        if i > 0 {
            assert(path@.take(i as int).last() == '/');
            assert(spec_file_name(path@.take(i as int)) == Seq::<char>::empty());
        } else {
            assert(path@.take(0) =~= Seq::<char>::empty());
        }
        assert(spec_file_name(path@) =~= path@.subrange(i as int, path@.len() as int));
    }
    let tail = path.substring_char(i, len);
    tail.to_owned()
}

/// The name of the file the path points at.
///
/// The path must name an existing regular file (a disk check); when it does
/// not, the error carries the offending path. On success the returned name
/// is exactly the part of the path after its last separator.
pub fn get_file_name(path: &str) -> (r: Result<String, CustomError>)
    ensures
        r matches Ok(name) ==> name@ == spec_file_name(path@),
        r matches Err(e) ==> e@ == "path ["@ + path@ + "] is not a file"@,
{
    if !is_file(path) {
        let mut msg = String::from_str("path [");
        msg.append(path);
        msg.append("] is not a file");
        Err(CustomError::new(msg))
    } else {
        Ok(file_name_of(path))
    }
}

/// Reads the metadata of a file without loading its content: the name and
/// the path are filled in, the data stays empty.
pub fn read_file_info_without_file_data(path: &str) -> (r: Result<FileInfo, CustomError>)
    ensures
        r matches Ok(fi) ==> fi.file_name@ == spec_file_name(path@) && fi.absolute_path@ == path@
            && fi.file_data@ == Seq::<u8>::empty(),
        r matches Err(e) ==> e@ == "path ["@ + path@ + "] is not a file"@,
{
    match get_file_name(path) {
        Ok(file_name) => Ok(
            FileInfo::new(file_name, String::from_str(path), Box::new(Vec::new())),
        ),
        Err(e) => Err(e),
    }
}

} // verus!
