use knast::blobs::{BuildError, FetchStep, Fetcher, ImageStore};
use knast::digest::{content_digest, digest_matches, verify_digest, DigestError};
use knast::image::{
    cache_key, is_whiteout, normalize_image_name, whiteout_target, Archive, LayerDownloadStatus,
    Unpacker, Whiteout,
};
use knast::manifest::{Descriptor, Manifest};
use knast::manifest_index::{Manifest as IndexEntry, ManifestIndex, Platform, PlatformError};

const EMPTY_SHA256: &str =
    "sha256:e3b0c44298fc1c149afbf4c8996fb92427ae41e4649b934ca495991b7852b855";
const ABC_SHA256: &str =
    "sha256:ba7816bf8f01cfea414140de5dae2223b00361a396177a9cb410ff61f20015ad";

fn descriptor(digest: &str) -> Descriptor {
    Descriptor {
        media_type: "application/vnd.oci.image.layer.v1.tar+gzip".to_string(),
        digest: digest.to_string(),
        size: 3,
        urls: None,
    }
}

fn entry(digest: &str, platform: Option<(&str, &str)>) -> IndexEntry {
    IndexEntry {
        descriptor: descriptor(digest),
        platform: platform.map(|(arch, os)| Platform {
            architecture: arch.to_string(),
            os: os.to_string(),
            os_version: None,
            os_features: None,
            variant: None,
        }),
    }
}

#[test]
fn image_names_get_library_prefix() {
    assert_eq!(normalize_image_name("nginx"), "library/nginx");
    assert_eq!(normalize_image_name("akhramov/nginx"), "akhramov/nginx");
    assert_eq!(cache_key(&normalize_image_name("nginx"), "1.17.10"), "library/nginx:1.17.10");
}

#[test]
fn first_matching_platform_wins() {
    let index = ManifestIndex {
        schema_version: 2,
        manifests: vec![
            entry("sha256:none", None),
            entry("sha256:arm", Some(("arm64", "linux"))),
            entry("sha256:amd-windows", Some(("amd64", "windows"))),
            entry("sha256:amd-linux", Some(("amd64", "linux"))),
            entry("sha256:amd-freebsd", Some(("amd64", "freebsd"))),
        ],
        annotations: None,
    };
    let os = vec!["linux".to_string(), "freebsd".to_string()];
    assert_eq!(index.resolve_manifest_digest(&"amd64".to_string(), &os), Ok("sha256:amd-linux".to_string()));
    assert_eq!(
        index.resolve_manifest_digest(&"riscv64".to_string(), &os),
        Err(PlatformError::NoMatchingPlatform)
    );
}

#[test]
fn whiteout_removes_sibling() {
    match whiteout_target("/dest", "dir/.wh.file") {
        Some(Whiteout::RemoveFile(path)) => assert_eq!(path, "/dest/dir/file"),
        _ => panic!("expected a file whiteout"),
    }
    assert!(is_whiteout("dir/.wh.file"));
    assert!(!is_whiteout("dir/file"));
    assert!(!is_whiteout("dir/.whfile"));
}

#[test]
fn opaque_whiteout_removes_directory() {
    match whiteout_target("/dest", "usr/share/.wh..wh..opq") {
        Some(Whiteout::RemoveDir(path)) => assert_eq!(path, "/dest/usr/share"),
        _ => panic!("expected a directory whiteout"),
    }
    assert!(whiteout_target("/dest", "usr/share/doc").is_none());
    match whiteout_target("/dest", ".wh.top") {
        Some(Whiteout::RemoveFile(path)) => assert_eq!(path, "/dest/top"),
        _ => panic!("expected a file whiteout"),
    }
}

#[test]
fn unpacker_lists_whiteouts_in_order() {
    let unpacker = Unpacker::new("/dest");
    assert_eq!(unpacker.destination(), "/dest");
    let entries = vec![
        "etc/".to_string(),
        "etc/.wh.passwd".to_string(),
        "etc/hosts".to_string(),
        "var/.wh..wh..opq".to_string(),
    ];
    let actions = unpacker.handle_whiteouts(&entries);
    assert_eq!(actions.len(), 2);
    assert!(matches!(&actions[0], Whiteout::RemoveFile(p) if p == "/dest/etc/passwd"));
    assert!(matches!(&actions[1], Whiteout::RemoveDir(p) if p == "/dest/var"));
}

#[test]
fn archive_holds_its_bytes() {
    let archive = Archive::new(vec![1, 2, 3]);
    assert_eq!(archive.data(), &vec![1, 2, 3]);
}

#[test]
fn layer_progress_completion() {
    assert!(LayerDownloadStatus::InProgress("sha256:a".to_string(), 100, 100).is_complete());
    assert!(!LayerDownloadStatus::InProgress("sha256:a".to_string(), 10, 100).is_complete());
    assert!(!LayerDownloadStatus::Cached("sha256:a".to_string()).is_complete());
}

#[test]
fn digests_of_known_inputs() {
    assert_eq!(content_digest(b""), EMPTY_SHA256);
    assert_eq!(content_digest(b"abc"), ABC_SHA256);
    assert_eq!(verify_digest(ABC_SHA256, b"abc"), Ok(()));
}

#[test]
fn test_hashsum_mismatch() {
    assert_eq!(
        verify_digest("sha256:this is simply wrong", b"abc"),
        Err(DigestError::ContentHashMismatch)
    );
    assert_eq!(verify_digest(EMPTY_SHA256, b"abc"), Err(DigestError::ContentHashMismatch));
}

#[test]
fn digest_comparison() {
    assert!(digest_matches("sha256:00ff", "00ff"));
    assert!(!digest_matches("sha512:00ff", "00ff"));
    assert!(!digest_matches("sha256:00FF", "00ff"));
}

fn manifest() -> Manifest {
    Manifest {
        schema_version: 2,
        media_type: None,
        config: descriptor(EMPTY_SHA256),
        layers: vec![descriptor(ABC_SHA256)],
        annotations: None,
    }
}

#[test]
fn images_are_recorded_only_when_complete() {
    let mut store = ImageStore::new();
    let manifest_body = b"{\"schemaVersion\":2}".to_vec();
    let manifest_digest = content_digest(&manifest_body);
    assert_eq!(store.put_blob(&manifest_digest, manifest_body.clone()), Ok(()));
    assert_eq!(
        store.record_image("library/nginx:1.17.10", &manifest_digest, &manifest()),
        Err(BuildError::StorageCorruption)
    );
    assert_eq!(store.put_blob(EMPTY_SHA256, b"abc".to_vec()), Err(BuildError::ContentHashMismatch));
    assert!(!store.contains_blob(EMPTY_SHA256));
    store.put_blob(EMPTY_SHA256, Vec::new()).unwrap();
    store.put_blob(ABC_SHA256, b"abc".to_vec()).unwrap();
    assert!(store.layers_cached(&manifest()));
    assert_eq!(store.record_image("library/nginx:1.17.10", &manifest_digest, &manifest()), Ok(()));
    assert_eq!(store.get(ABC_SHA256), Some(&b"abc".to_vec()));
    assert_eq!(store.cached_image("library/nginx:1.17.10"), Some(manifest_digest.clone()));
    match store.begin_fetch("nginx", "1.17.10") {
        FetchStep::Cached(d) => assert_eq!(d, manifest_digest),
        FetchStep::Resolve(..) => panic!("the image is cached"),
    }
}

#[test]
fn uncached_image_is_resolved() {
    let store = ImageStore::new();
    match store.begin_fetch("nginx", "1.17.10") {
        FetchStep::Resolve(name, key) => {
            assert_eq!(name, "library/nginx");
            assert_eq!(key, "library/nginx:1.17.10");
        }
        FetchStep::Cached(_) => panic!("nothing is cached"),
    }
}

#[test]
fn fetcher_skips_cached_layers_and_reports_progress() {
    let fetcher = Fetcher::new("amd64".to_string(), vec!["linux".to_string(), "freebsd".to_string()]);
    let index = ManifestIndex {
        schema_version: 2,
        manifests: vec![
            entry("sha256:amd-windows", Some(("amd64", "windows"))),
            entry("sha256:amd-freebsd", Some(("amd64", "freebsd"))),
        ],
        annotations: None,
    };
    assert_eq!(fetcher.resolve_manifest_digest(&index), Ok("sha256:amd-freebsd".to_string()));
    let mut store = ImageStore::new();
    let layer = descriptor(ABC_SHA256);
    assert!(fetcher.cached_layer(&store, &layer).is_none());
    let partial = fetcher.progress(&layer, 1);
    assert!(!partial.is_complete());
    let last = fetcher.progress(&layer, layer.size);
    assert!(matches!(&last, LayerDownloadStatus::InProgress(d, 3, 3) if d == ABC_SHA256));
    assert!(last.is_complete());
    store.put_blob(ABC_SHA256, b"abc".to_vec()).unwrap();
    assert!(matches!(
        fetcher.cached_layer(&store, &layer),
        Some(LayerDownloadStatus::Cached(d)) if d == ABC_SHA256
    ));
}

#[test]
fn unpack_lists_layers_in_manifest_order() {
    let mut store = ImageStore::new();
    let unpacker = Unpacker::new("/bundle/rootfs");
    let manifest_body = b"manifest".to_vec();
    let manifest_digest = content_digest(&manifest_body);
    assert_eq!(unpacker.unpack(&store, &manifest_digest, &manifest()), Err(BuildError::StorageCorruption));
    store.put_blob(&manifest_digest, manifest_body).unwrap();
    assert_eq!(unpacker.unpack(&store, &manifest_digest, &manifest()), Err(BuildError::StorageCorruption));
    store.put_blob(ABC_SHA256, b"abc".to_vec()).unwrap();
    assert_eq!(unpacker.unpack(&store, &manifest_digest, &manifest()), Ok(vec![ABC_SHA256.to_string()]));
}

#[test]
fn progress_completeness() {
    let fetcher = Fetcher::new("amd64".to_string(), vec!["linux".to_string()]);
    let mut store = ImageStore::new();
    store.put_blob(EMPTY_SHA256, Vec::new()).unwrap();
    let mut m = manifest();
    m.layers = vec![descriptor(ABC_SHA256), descriptor(EMPTY_SHA256)];
    let updates = fetcher.final_updates(&store, &m);
    assert_eq!(updates.len(), 2);
    assert!(matches!(&updates[0], LayerDownloadStatus::InProgress(d, 3, 3) if d == ABC_SHA256));
    assert!(matches!(&updates[1], LayerDownloadStatus::Cached(d) if d == EMPTY_SHA256));
}
