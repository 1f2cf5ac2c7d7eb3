use debpool::dest::{can_derive, derive_destination, gen_filename};
use debpool::direct::{download, parallel, DownloadResult, FileEntry, PackageItem};
use debpool::error::{IoError, IoKind};
use debpool::misc::{check_unlink_path, get_arch_from_stem, is_deb_name, match_deb, MatchError};
use debpool::template::{TemplateError, UrlTokenizer};

fn entry(url_template: &str) -> FileEntry {
    FileEntry {
        url_template: url_template.to_string(),
        name_override: None,
        arch_override: None,
        checksum: None,
    }
}

fn item(name: &str, version: &str, urls: Vec<FileEntry>) -> PackageItem {
    PackageItem { name: name.to_string(), version: version.to_string(), urls }
}

fn io_error(kind: IoKind, message: &str) -> IoError {
    IoError { kind, message: message.to_string() }
}

#[test]
fn filename_roundtrip_concrete() {
    let f = gen_filename("foo", "1.2", "amd64", "deb");
    assert_eq!(f, "foo_1.2_amd64.deb");
    let recovered = &f[..f.find('_').unwrap()];
    assert_eq!(recovered, "foo");
}

#[test]
fn filename_debug_symbol() {
    assert_eq!(gen_filename("foo", "1.2", "amd64", "ddeb"), "foo-dbgsym_1.2_amd64.ddeb");
}

#[test]
fn filename_source_forms() {
    assert_eq!(gen_filename("foo", "1.2", "amd64", "tar.gz"), "foo_1.2.tar.gz");
    assert_eq!(gen_filename("foo", "1.2", "amd64", "tar.xz"), "foo_1.2.tar.xz");
    assert_eq!(gen_filename("foo", "1.2", "amd64", "dsc"), "foo_1.2.dsc");
}

#[test]
fn derive_binary_path_with_explicit_arch() {
    let d = derive_destination(
        "https://example.com/pool/foo_1.2.deb",
        "foo",
        "1.2",
        Some("amd64"),
        "stable",
    );
    assert_eq!(d.path, "repo/pool/stable/main/binary-amd64/f/foo/foo_1.2_amd64.deb");
    assert_eq!(d.filename, "foo_1.2_amd64.deb");
    assert_eq!(d.arch, "amd64");
    assert_eq!(d.extension, "deb");
}

#[test]
fn derive_binary_path_with_inferred_arch() {
    let d = derive_destination(
        "https://example.com/pool/foo_1.2_amd64.deb",
        "foo",
        "1.2",
        None,
        "stable",
    );
    assert_eq!(d.path, "repo/pool/stable/main/binary-amd64/f/foo/foo_1.2_amd64.deb");
    assert_eq!(d.arch, "amd64");
}

#[test]
fn derive_source_path_without_arch_segment() {
    let d = derive_destination("https://example.com/foo-1.2.tar.gz", "foo", "1.2", None, "stable");
    assert_eq!(d.path, "repo/pool/stable/main/source/f/foo/foo_1.2.tar.gz");
    assert_eq!(d.filename, "foo_1.2.tar.gz");
    assert_eq!(d.extension, "tar.gz");
}

#[test]
fn derive_source_path_tar_xz_and_dsc() {
    let d = derive_destination("https://example.com/foo-1.2.tar.xz", "foo", "1.2", None, "stable");
    assert_eq!(d.path, "repo/pool/stable/main/source/f/foo/foo_1.2.tar.xz");
    let d = derive_destination("https://example.com/foo-1.2.dsc", "foo", "1.2", None, "stable");
    assert_eq!(d.path, "repo/pool/stable/main/source/f/foo/foo_1.2.dsc");
}

#[test]
fn derive_plain_gz_without_tar_prefix() {
    let d = derive_destination("https://example.com/data_1.0.bin.gz", "data", "1.0", Some("all"), "stable");
    assert_eq!(d.extension, "gz");
    assert_eq!(d.filename, "data_1.0_all.gz");
}

#[test]
fn derivable_url_checks() {
    assert!(can_derive("https://example.com/foo_1.2_amd64.deb"));
    assert!(can_derive("https://example.com/foo-1.2.tar.gz"));
    assert!(!can_derive("https://example.com/nodot"));
    assert!(!can_derive("https://example.com/a.gz"));
    assert!(!can_derive("https://example.com/tar.gz"));
    assert!(!can_derive(""));
}

#[test]
fn arch_from_known_token() {
    assert_eq!(get_arch_from_stem("foo_1.0_amd64"), "amd64");
    assert_eq!(get_arch_from_stem("foo_1.0_i386"), "i386");
    assert_eq!(get_arch_from_stem("amd64"), "amd64");
}

#[test]
fn arch_from_fallback_segment() {
    assert_eq!(get_arch_from_stem("pkg_1.0_armhf-custom"), "armhf");
    assert_eq!(get_arch_from_stem("plain"), "plain");
    assert_eq!(get_arch_from_stem("a_b-c"), "b");
    assert_eq!(get_arch_from_stem("trailing_"), "");
}

#[test]
fn template_substitutes_placeholders() {
    let url = UrlTokenizer::finalize("https://example.com/{name}/{version}/x.deb", "foo", "1.2");
    assert_eq!(url.unwrap(), "https://example.com/foo/1.2/x.deb");
}

#[test]
fn template_without_placeholders_is_kept() {
    let url = UrlTokenizer::finalize("https://example.com/x}y.deb", "foo", "1.2");
    assert_eq!(url.unwrap(), "https://example.com/x}y.deb");
}

#[test]
fn template_unsupported_variable_reports_token() {
    match UrlTokenizer::finalize("{foo}", "n", "1") {
        Err(TemplateError::UnsupportedVariable(token)) => assert_eq!(token, "foo"),
        other => panic!("expected an unsupported-variable failure, got {:?}", other),
    }
}

#[test]
fn template_unclosed_brace_reports_rest() {
    match UrlTokenizer::finalize("a{bc", "n", "1") {
        Err(TemplateError::UnsupportedVariable(token)) => assert_eq!(token, "bc"),
        other => panic!("expected an unsupported-variable failure, got {:?}", other),
    }
}

#[test]
fn orchestrator_isolates_failing_item() {
    let items = vec![
        item("a", "1.0", vec![entry("https://x/a_1.0_amd64.deb")]),
        item("b", "1.0", vec![entry("https://x/b_1.0_amd64.deb")]),
        item("c", "1.0", vec![entry("https://x/c_1.0_amd64.deb")]),
    ];
    let outcomes = vec![
        vec![Ok(10u64)],
        vec![Err(io_error(IoKind::Other, "connection reset"))],
        vec![Ok(5u64)],
    ];
    let results = parallel(&items, &outcomes);
    assert_eq!(results.len(), 3);
    assert!(matches!(results[0], Ok(DownloadResult::Downloaded(10))));
    assert!(matches!(results[1], Err(ref e) if e.kind == IoKind::Other));
    assert!(matches!(results[2], Ok(DownloadResult::Downloaded(5))));
}

#[test]
fn download_sums_entry_bytes() {
    let it = item(
        "a",
        "1.0",
        vec![entry("https://x/a_1.0_amd64.deb"), entry("https://x/a_1.0_amd64.ddeb")],
    );
    let outcomes = vec![Ok(2u64), Ok(3u64)];
    assert!(matches!(download(&it, &outcomes), Ok(DownloadResult::Downloaded(5))));
}

#[test]
fn download_fails_fast_on_first_error() {
    let it = item(
        "a",
        "1.0",
        vec![entry("https://x/a_1.0_amd64.deb"), entry("https://x/a_1.0_amd64.ddeb")],
    );
    let outcomes = vec![
        Err(io_error(IoKind::NotFound, "missing")),
        Err(io_error(IoKind::Other, "later")),
    ];
    match download(&it, &outcomes) {
        Err(e) => {
            assert_eq!(e.kind, IoKind::NotFound);
            assert_eq!(e.message, "missing");
        },
        other => panic!("expected the first failure, got {:?}", other),
    }
}

#[test]
fn download_reports_unsupported_template_variable() {
    let it = item("a", "1.0", vec![entry("https://x/{bad}.deb")]);
    let outcomes = vec![Ok(0u64)];
    match download(&it, &outcomes) {
        Err(e) => {
            assert_eq!(e.kind, IoKind::InvalidData);
            assert_eq!(e.message, "unsupported variable: bad");
        },
        other => panic!("expected a template failure, got {:?}", other),
    }
}

#[test]
fn matcher_finds_manifest_package() {
    let packages = vec!["a".to_string(), "b".to_string()];
    let r = match_deb("a_1.0_amd64.deb", "pool/a_1.0_amd64.deb", &packages);
    assert_eq!(r, Ok(Some(("pool/a_1.0_amd64.deb".to_string(), 0))));
}

#[test]
fn matcher_excludes_unknown_package() {
    let packages = vec!["a".to_string(), "b".to_string()];
    let r = match_deb("c_1.0_amd64.deb", "pool/c_1.0_amd64.deb", &packages);
    assert_eq!(r, Ok(None));
}

#[test]
fn matcher_picks_first_of_equal_names() {
    let packages = vec!["x".to_string(), "a".to_string(), "a".to_string()];
    let r = match_deb("a_1.0_amd64.deb", "p", &packages);
    assert_eq!(r, Ok(Some(("p".to_string(), 1))));
}

#[test]
fn matcher_reports_malformed_filename() {
    let packages = vec!["a".to_string()];
    match match_deb("noseparator.deb", "p", &packages) {
        Err(MatchError::MalformedFilename(f)) => assert_eq!(f, "noseparator.deb"),
        other => panic!("expected a malformed-filename failure, got {:?}", other),
    }
}

#[test]
fn deb_candidate_name_test() {
    assert!(is_deb_name("a_1.0_amd64.deb"));
    assert!(!is_deb_name("a_1.0_amd64.ddeb"));
    assert!(!is_deb_name("a_1.0_amd64.tar.gz"));
    assert!(!is_deb_name(""));
}

#[test]
fn unlink_path_validation() {
    assert_eq!(check_unlink_path(&b"repo/pool/a.deb".to_vec()), Ok(()));
    match check_unlink_path(&b"repo/\0pool".to_vec()) {
        Err(e) => assert_eq!(e.kind, IoKind::InvalidInput),
        Ok(()) => panic!("a path with an interior NUL must be rejected"),
    }
}
