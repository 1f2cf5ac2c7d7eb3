//! Canonical pool filename and destination derivation: extension splitting
//! (with compound `tar.gz`/`tar.xz` handling), architecture choice, debug
//! symbol naming, and the fixed pool path shape
//! `repo/pool/<branch>/main/{source|binary-<arch>}/<first char>/<name>/<filename>`.
use vstd::prelude::*;

verus! {

use crate::misc::{arch_from_stem_spec, deb_package_prefix, get_arch_from_stem};
use crate::strings::{
    first_index_of,
    last_index_of,
    lemma_first_index_append,
    lemma_first_index_witness,
    rfind_char,
    str_eq,
};
use vstd::string::{StrSliceExecFns, StringExecFns};

/// Extensions routed to the `source` subtree and written without an
/// architecture segment.
pub open spec fn is_source_ext(ext: Seq<char>) -> bool {
    ext == "tar.gz"@ || ext == "tar.xz"@ || ext == "dsc"@
}

/// The canonical pool filename: `<name>` then `-dbgsym_` for debug-symbol
/// packages (`ddeb`) or `_` otherwise, then `<version>`, then either
/// `.<ext>` for source extensions or `_<arch>.<ext>` for binary ones.
pub open spec fn filename_spec(
    name: Seq<char>,
    version: Seq<char>,
    arch: Seq<char>,
    ext: Seq<char>,
) -> Seq<char> {
    let sep: Seq<char> = if ext == "ddeb"@ {
        "-dbgsym_"@
    } else {
        "_"@
    };
    if is_source_ext(ext) {
        name + sep + version + "."@ + ext
    } else {
        name + sep + version + "_"@ + arch + "."@ + ext
    }
}

/// The file component of a URL: the substring after the last `/`. A URL
/// without `/` loses its first character, as the pool layout assumes one.
pub open spec fn file_component(url: Seq<char>) -> Seq<char> {
    match last_index_of(url, '/') {
        Some(i) => url.skip(i + 1),
        None => if url.len() >= 1 {
            url.skip(1)
        } else {
            url
        },
    }
}

/// Index at which the extension of `file` starts: after the last `.`,
/// except that a `gz`/`xz` tail preceded by `tar.` yields the combined
/// `tar.gz`/`tar.xz` extension.
pub open spec fn ext_start(file: Seq<char>) -> int
    recommends
        last_index_of(file, '.') is Some,
{
    let d = last_index_of(file, '.')->Some_0;
    let tail = file.skip(d + 1);
    if (tail == "gz"@ || tail == "xz"@) && d >= 3 && file.subrange(d - 3, d) == "tar"@ {
        d - 3
    } else {
        d + 1
    }
}

/// The extension of the file component of `url`.
pub open spec fn extension_spec(url: Seq<char>) -> Seq<char> {
    let file = file_component(url);
    file.skip(ext_start(file))
}

/// The stem of the file component of `url`: everything before the extension
/// and its separator.
pub open spec fn stem_spec(url: Seq<char>) -> Seq<char> {
    let file = file_component(url);
    file.take(ext_start(file) - 1)
}

/// URLs whose file component supports derivation: the component has a `.`,
/// a `gz`/`xz` tail leaves room for the `tar.` look-behind, and a separator
/// precedes the extension.
pub open spec fn derivable_url(url: Seq<char>) -> bool {
    let file = file_component(url);
    &&& url.len() > 0
    &&& last_index_of(file, '.') is Some
    &&& ({
        let d = last_index_of(file, '.')->Some_0;
        (file.skip(d + 1) == "gz"@ || file.skip(d + 1) == "xz"@) ==> d >= 3
    })
    &&& ext_start(file) >= 1
}

/// The subtree under `main` that a file belongs to.
pub open spec fn subtree_spec(arch: Seq<char>, ext: Seq<char>) -> Seq<char> {
    if is_source_ext(ext) {
        "/main/source/"@
    } else {
        "/main/binary-"@ + arch + "/"@
    }
}

/// The full pool-relative destination path.
pub open spec fn pool_path_spec(
    branch: Seq<char>,
    name: Seq<char>,
    version: Seq<char>,
    arch: Seq<char>,
    ext: Seq<char>,
) -> Seq<char> {
    "repo/pool/"@ + branch + subtree_spec(arch, ext) + name.take(1) + "/"@ + name + "/"@
        + filename_spec(name, version, arch, ext)
}

/// A derived destination: the pool-relative path together with the filename,
/// architecture and extension it was built from. Computed fresh per download
/// attempt and never persisted.
#[derive(Clone, Debug, PartialEq, Eq)]
pub struct ResolvedDestination {
    pub path: String,
    pub filename: String,
    pub arch: String,
    pub extension: String,
}

/// Build the canonical pool filename for one artifact.
pub fn gen_filename(name: &str, version: &str, arch: &str, ext: &str) -> (r: String)
    ensures
        r@ == filename_spec(name@, version@, arch@, ext@),
{
    let mut out: String = name.to_owned();
    if str_eq(ext, "ddeb") {
        out.append("-dbgsym_");
    } else {
        out.append("_");
    }
    out.append(version);
    if str_eq(ext, "tar.gz") || str_eq(ext, "tar.xz") || str_eq(ext, "dsc") {
        out.append(".");
        out.append(ext);
    } else {
        out.append("_");
        out.append(arch);
        out.append(".");
        out.append(ext);
    }
    out
}

/// Whether the file component of `url` supports destination derivation.
pub fn can_derive(url: &str) -> (r: bool)
    ensures
        r == derivable_url(url@),
{
    let n: usize = url.unicode_len();
    if n == 0 {
        return false;
    }
    let file_start: usize = match rfind_char(url, '/') {
        Some(i) => i + 1,
        None => 1,
    };
    let file = url.substring_char(file_start, n);
    proof {
        assert(file@ =~= file_component(url@));
    }
    let fl: usize = file.unicode_len();
    match rfind_char(file, '.') {
        None => false,
        Some(d) => {
            let tail = file.substring_char(d + 1, fl);
            proof {
                assert(tail@ =~= file@.skip(d + 1));
            }
            let gzxz = str_eq(tail, "gz") || str_eq(tail, "xz");
            if gzxz && d < 3 {
                return false;
            }
            let ext_pos: usize = if gzxz {
                let pre = file.substring_char(d - 3, d);
                if str_eq(pre, "tar") {
                    d - 3
                } else {
                    d + 1
                }
            } else {
                d + 1
            };
            proof {
                assert(ext_pos as int == ext_start(file@));
            }
            ext_pos >= 1
        },
    }
}

/// Derive the destination for one artifact: split the extension off the
/// URL's file component, pick the architecture (explicit override, else
/// inference from the stem), build the filename, and assemble the pool path
/// under `branch`.
pub fn derive_destination(
    url: &str,
    name: &str,
    version: &str,
    arch_override: Option<&str>,
    branch: &str,
) -> (r: ResolvedDestination)
    requires
        name@.len() > 0,
        derivable_url(url@),
    ensures
        r.extension@ == extension_spec(url@),
        r.arch@ == (match arch_override {
            Some(a) => a@,
            None => arch_from_stem_spec(stem_spec(url@)),
        }),
        r.filename@ == filename_spec(name@, version@, r.arch@, r.extension@),
        r.path@ == pool_path_spec(branch@, name@, version@, r.arch@, r.extension@),
{
    let n: usize = url.unicode_len();
    let file_start: usize = match rfind_char(url, '/') {
        Some(i) => i + 1,
        None => 1,
    };
    let file = url.substring_char(file_start, n);
    proof {
        assert(file@ =~= file_component(url@));
    }
    let fl: usize = file.unicode_len();
    let d: usize = rfind_char(file, '.').unwrap();
    let tail = file.substring_char(d + 1, fl);
    proof {
        assert(tail@ =~= file@.skip(d + 1));
    }
    let gzxz = str_eq(tail, "gz") || str_eq(tail, "xz");
    let ext_pos: usize = if gzxz {
        let pre = file.substring_char(d - 3, d);
        if str_eq(pre, "tar") {
            d - 3
        } else {
            d + 1
        }
    } else {
        d + 1
    };
    proof {
        assert(ext_pos as int == ext_start(file@));
    }
    let extension = file.substring_char(ext_pos, fl);
    let stem = file.substring_char(0, ext_pos - 1);
    proof {
        assert(extension@ =~= extension_spec(url@));
        assert(stem@ =~= stem_spec(url@));
    }
    let arch: String = match arch_override {
        Some(a) => a.to_owned(),
        None => get_arch_from_stem(stem),
    };
    let filename = gen_filename(name, version, arch.as_str(), extension);
    let subtree: String = if str_eq(extension, "tar.gz") || str_eq(extension, "tar.xz") || str_eq(
        extension,
        "dsc",
    ) {
        "/main/source/".to_owned()
    } else {
        let mut s: String = "/main/binary-".to_owned();
        s.append(arch.as_str());
        s.append("/");
        s
    };
    let first = name.substring_char(0, 1);
    proof {
        assert(first@ =~= name@.take(1));
    }
    let mut path: String = "repo/pool/".to_owned();
    path.append(branch);
    path.append(subtree.as_str());
    path.append(first);
    path.append("/");
    path.append(name);
    path.append("/");
    path.append(filename.as_str());
    ResolvedDestination { path, filename, arch, extension: extension.to_owned() }
}

/// Filename derivation is invertible: for a non-empty name without `_` and a
/// non-debug-symbol extension, the package name recovered from the derived
/// filename (the substring before the first `_`) is the original name.
pub proof fn lemma_filename_roundtrip(
    name: Seq<char>,
    version: Seq<char>,
    arch: Seq<char>,
    ext: Seq<char>,
)
    requires
        name.len() > 0,
        forall|j: int| 0 <= j < name.len() ==> name[j] != '_',
        ext != "ddeb"@,
    ensures
        deb_package_prefix(filename_spec(name, version, arch, ext)) == Some(name),
{
    reveal_strlit("_");
    let f = filename_spec(name, version, arch, ext);
    let rest = if is_source_ext(ext) {
        version + "."@ + ext
    } else {
        version + "_"@ + arch + "."@ + ext
    };
    assert(f =~= name + ("_"@ + rest));
    assert(("_"@).len() == 1);
    assert(("_"@ + rest)[0] == '_');
    lemma_first_index_witness("_"@ + rest, '_', 0);
    lemma_first_index_append(name, "_"@ + rest, '_');
    assert(first_index_of(f, '_') == Some(name.len() as int));
    assert(f.take(name.len() as int) =~= name);
}

} // verus!
