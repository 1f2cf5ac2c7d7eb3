//! Pool-file helpers: architecture inference from a filename stem, matching
//! of discovered `.deb` files against manifest package names, and the path
//! validation behind the stale-artifact pruner.
use vstd::prelude::*;

verus! {

use crate::error::{IoError, IoKind};
use crate::strings::{
    ends_with,
    find_char,
    first_index_of,
    last_index_of,
    rfind_char,
    str_ends_with,
    str_eq,
};
use vstd::string::StrSliceExecFns;

/// Architecture token inferred from a filename stem: a known token the stem
/// ends with, else the segment after the last `_` (the whole stem when there
/// is none), truncated at the first `-`.
pub open spec fn arch_from_stem_spec(stem: Seq<char>) -> Seq<char> {
    if ends_with(stem, "amd64"@) {
        "amd64"@
    } else if ends_with(stem, "i386"@) {
        "i386"@
    } else {
        let segment = match last_index_of(stem, '_') {
            None => stem,
            Some(i) => stem.skip(i + 1),
        };
        match first_index_of(segment, '-') {
            None => segment,
            Some(j) => segment.take(j),
        }
    }
}

/// Infer the architecture token for a pool filename stem.
///
/// The fallback heuristic can misclassify stems whose final `_`-delimited
/// segment is not an architecture; that limitation is part of the contract.
pub fn get_arch_from_stem(stem: &str) -> (r: String)
    ensures
        r@ == arch_from_stem_spec(stem@),
{
    if str_ends_with(stem, "amd64") {
        return "amd64".to_owned();
    }
    if str_ends_with(stem, "i386") {
        return "i386".to_owned();
    }
    let n: usize = stem.unicode_len();
    let start: usize = match rfind_char(stem, '_') {
        Some(i) => i + 1,
        None => 0,
    };
    let segment = stem.substring_char(start, n);
    proof {
        match last_index_of(stem@, '_') {
            None => {
                assert(segment@ =~= stem@);
            },
            Some(i) => {
                assert(segment@ =~= stem@.skip(i + 1));
            },
        }
    }
    let end: usize = match find_char(segment, '-') {
        Some(j) => j,
        None => segment.unicode_len(),
    };
    let out = segment.substring_char(0, end);
    proof {
        match first_index_of(segment@, '-') {
            None => {
                assert(out@ =~= segment@);
            },
            Some(j) => {
                assert(out@ =~= segment@.take(j));
            },
        }
    }
    out.to_owned()
}

/// Failure of matching a pool filename against the manifest.
#[derive(Clone, Debug, PartialEq, Eq)]
pub enum MatchError {
    /// The filename lacks the `_` separating package name from version, so
    /// the package name cannot be recovered; carries the filename.
    MalformedFilename(String),
}

/// The package name encoded in a pool filename: the substring before the
/// first `_`, or nothing when the filename lacks the separator.
pub open spec fn deb_package_prefix(file: Seq<char>) -> Option<Seq<char>> {
    match first_index_of(file, '_') {
        None => None,
        Some(i) => Some(file.take(i)),
    }
}

/// Index of the first package whose name reads `name`, if any.
pub open spec fn package_position(packages: Seq<String>, name: Seq<char>) -> Option<int>
    decreases packages.len(),
{
    if packages.len() == 0 {
        None
    } else if packages[0]@ == name {
        Some(0)
    } else {
        match package_position(packages.drop_first(), name) {
            None => None,
            Some(i) => Some(i + 1),
        }
    }
}

proof fn lemma_package_position_witness(packages: Seq<String>, name: Seq<char>, k: int)
    requires
        0 <= k < packages.len(),
        packages[k]@ == name,
        forall|j: int| 0 <= j < k ==> packages[j]@ != name,
    ensures
        package_position(packages, name) == Some(k),
    decreases k,
{
    if k > 0 {
        assert(packages.drop_first()[k - 1] == packages[k]);
        assert forall|j: int| 0 <= j < k - 1 implies packages.drop_first()[j]@ != name by {
            assert(packages.drop_first()[j] == packages[j + 1]);
        }
        lemma_package_position_witness(packages.drop_first(), name, k - 1);
    }
}

proof fn lemma_package_position_none(packages: Seq<String>, name: Seq<char>)
    requires
        forall|j: int| 0 <= j < packages.len() ==> packages[j]@ != name,
    ensures
        package_position(packages, name) == None::<int>,
    decreases packages.len(),
{
    if packages.len() > 0 {
        assert forall|j: int| 0 <= j < packages.drop_first().len() implies packages.drop_first()[j]@
            != name by {
            assert(packages.drop_first()[j] == packages[j + 1]);
        }
        lemma_package_position_none(packages.drop_first(), name);
    }
}

/// Match one discovered pool file against the manifest's package names.
///
/// The package name is the part of `file_name` before the first `_`; a
/// filename without `_` breaks the pool naming contract and is reported
/// rather than matched. On a match, the result carries `path` and the index
/// of the first manifest package with that name.
pub fn match_deb(file_name: &str, path: &str, packages: &Vec<String>) -> (r: Result<
    Option<(String, usize)>,
    MatchError,
>)
    ensures
        match deb_package_prefix(file_name@) {
            None => r matches Err(MatchError::MalformedFilename(f)) && f@ == file_name@,
            Some(name) => match package_position(packages@, name) {
                None => r matches Ok(o) && o is None,
                Some(p) => r matches Ok(Some(m)) && m.0@ == path@ && m.1 == p,
            },
        },
{
    match find_char(file_name, '_') {
        None => Err(MatchError::MalformedFilename(file_name.to_owned())),
        Some(i) => {
            let package = file_name.substring_char(0, i);
            proof {
                assert(package@ =~= file_name@.take(i as int));
            }
            let len: usize = packages.len();
            let mut k: usize = 0;
            while k < len
                invariant
                    k <= len,
                    len == packages@.len(),
                    first_index_of(file_name@, '_') == Some(i as int),
                    package@ == file_name@.take(i as int),
                    forall|j: int| 0 <= j < k ==> packages@[j]@ != package@,
                decreases len - k,
            {
                if str_eq(packages[k].as_str(), package) {
                    proof {
                        lemma_package_position_witness(packages@, package@, k as int);
                    }
                    return Ok(Some((path.to_owned(), k)));
                }
                k = k + 1;
            }
            proof {
                lemma_package_position_none(packages@, package@);
            }
            Ok(None)
        },
    }
}

/// Whether a file name marks a `.deb` candidate for reconciliation.
pub fn is_deb_name(file_name: &str) -> (r: bool)
    ensures
        r == ends_with(file_name@, ".deb"@),
{
    str_ends_with(file_name, ".deb")
}

/// Validate a path, given as its byte encoding, for the removal primitive:
/// a path with an interior NUL byte cannot be handed to the operating system
/// and is reported as invalid input.
pub fn check_unlink_path(path_bytes: &Vec<u8>) -> (r: Result<(), IoError>)
    ensures
        (r is Ok) <==> (forall|j: int| 0 <= j < path_bytes@.len() ==> path_bytes@[j] != 0u8),
        r matches Err(e) ==> e.kind == IoKind::InvalidInput,
{
    let n: usize = path_bytes.len();
    let mut i: usize = 0;
    while i < n
        invariant
            i <= n,
            n == path_bytes@.len(),
            forall|j: int| 0 <= j < i ==> path_bytes@[j] != 0u8,
        decreases n - i,
    {
        if path_bytes[i] == 0u8 {
            assert(path_bytes@[i as int] == 0u8);
            return Err(
                IoError {
                    kind: IoKind::InvalidInput,
                    message: "path contains an interior NUL byte".to_owned(),
                },
            );
        }
        i = i + 1;
    }
    Ok(())
}

} // verus!
