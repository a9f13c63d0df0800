use knast::auth::{AuthError, WwwAuthenticate};
use knast::filesystem::{devfs_operations, mount_request, post_mount_operations, MountError, Operation, DEVFS_MAGIC, DRB_HIDE, DRB_UNHIDE};
use knast::image_config::{Config, Container, RootFs};
use knast::paths::prefixed_destination;
use knast::runtime_config::{generate_annotations, Mount, RuntimeConfig, User};
use knast::user::UserError;

const PASSWD: &str = "tests:x:977:977:Test runner:/home/tests:/bin/sh\n";
const GROUP: &str = "games:x:13:\n";

#[test]
fn test_parsing() {
    let header = "Bearer realm=\"https://auth.docker.io/token\",service=\"registry.docker.io\",scope=\"repository:library/nginx:pull\"";
    let parsed_header = WwwAuthenticate::parse(header).expect("Failed to parse WwwAuthenticate header");
    assert_eq!(parsed_header.realm, "https://auth.docker.io/token");
    assert_eq!(parsed_header.service, "registry.docker.io");
    assert_eq!(parsed_header.scope, "repository:library/nginx:pull");
}

#[test]
fn malformed_challenge() {
    assert_eq!(WwwAuthenticate::parse("Bearer realm=\"x\",service=\"y\"").err(), Some(AuthError::Malformed));
    assert_eq!(WwwAuthenticate::parse("").err(), Some(AuthError::Malformed));
}

fn image_config(user: Option<&str>) -> Config {
    Config {
        author: None,
        architecture: "amd64".to_string(),
        os: "linux".to_string(),
        config: Some(Container {
            user: user.map(|u| u.to_string()),
            exposed_ports: None,
            env: Some(vec![
                "PATH=/usr/local/sbin:/usr/local/bin:/usr/sbin:/usr/bin:/sbin:/bin".to_string(),
                "NGINX_VERSION=1.17.10".to_string(),
            ]),
            entrypoint: Some(vec!["/docker-entrypoint.sh".to_string()]),
            cmd: Some(vec!["nginx".to_string(), "-g".to_string(), "daemon off;".to_string()]),
            volumes: None,
            working_dir: "/".to_string(),
            labels: None,
            stop_signal: Some("SIGTERM".to_string()),
        }),
        rootfs: RootFs { kind: "layers".to_string(), diff_ids: vec![] },
    }
}

#[test]
fn runtime_config_test_conversion() {
    let runtime_config =
        RuntimeConfig::from_image(&image_config(Some("tests:games")), "/bundle/rootfs", PASSWD.as_bytes(), GROUP.as_bytes())
            .unwrap();
    let process = runtime_config.process.unwrap();
    let User { uid, gid, .. } = process.user;
    let env_var = &process.env.unwrap()[1];
    assert_eq!(env_var, "NGINX_VERSION=1.17.10");
    assert_eq!((uid, gid), (977, 13));
    assert_eq!(
        process.args.unwrap(),
        vec!["/docker-entrypoint.sh".to_string(), "nginx".to_string(), "-g".to_string(), "daemon off;".to_string()]
    );
    assert_eq!(runtime_config.oci_version, "1.0");
    let root = runtime_config.root.unwrap();
    assert_eq!(root.path, "/bundle/rootfs");
    assert_eq!(root.readonly, Some(false));
}

#[test]
fn empty_user_is_root() {
    let rc = RuntimeConfig::from_image(&image_config(Some("")), "/r", b"", b"").unwrap();
    let user = rc.process.unwrap().user;
    assert_eq!((user.uid, user.gid), (0, 0));
    let rc = RuntimeConfig::from_image(&image_config(None), "/r", b"", b"").unwrap();
    let user = rc.process.unwrap().user;
    assert_eq!((user.uid, user.gid), (0, 0));
    assert!(matches!(
        RuntimeConfig::from_image(&image_config(Some("nobody")), "/r", b"", b""),
        Err(UserError::Unresolved)
    ));
}

#[test]
fn annotations_name_manager_and_stop_signal() {
    let a = generate_annotations();
    assert_eq!(a[0], ("io.container.manager".to_string(), "werft".to_string()));
    assert_eq!(a[1], ("org.opencontainers.image.stopSignal".to_string(), "15".to_string()));
}

#[test]
fn destinations_stay_under_rootfs() {
    assert_eq!(prefixed_destination("/rootfs", "/dev"), "/rootfs/dev");
    assert_eq!(prefixed_destination("/rootfs", "../../etc/./passwd"), "/rootfs/etc/passwd");
    assert_eq!(prefixed_destination("/rootfs/", "a//b/"), "/rootfs/a/b");
    assert_eq!(prefixed_destination("/rootfs", ""), "/rootfs");
}

#[test]
fn mount_request_for_nullfs() {
    let m = Mount {
        destination: "/mnt/../data".to_string(),
        source: Some("/srv/data".to_string()),
        options: Some(vec!["ro".to_string(), "size=10m".to_string()]),
        kind: Some("nullfs".to_string()),
    };
    let req = mount_request(&m, "/rootfs").unwrap();
    assert_eq!(req.fstype, "nullfs");
    assert_eq!(req.source, "/srv/data");
    assert_eq!(req.destination, "/rootfs/mnt/data");
    assert_eq!(
        req.options,
        vec![("ro".to_string(), None), ("size".to_string(), Some("10m".to_string()))]
    );
    assert!(post_mount_operations(&m).is_empty());
    let untyped = Mount { kind: None, ..m };
    assert_eq!(mount_request(&untyped, "/rootfs").err(), Some(MountError::MissingKind));
}

#[test]
fn devfs_hides_all_then_unhides_defaults() {
    let ops = devfs_operations();
    assert_eq!(ops.len(), 11);
    assert!(matches!(ops[0], Operation::HideAll));
    let names: Vec<String> = ops[1..]
        .iter()
        .map(|o| match o {
            Operation::Unhide(n) => n.clone(),
            Operation::HideAll => panic!("hide all only comes first"),
        })
        .collect();
    assert_eq!(names, vec!["null", "zero", "full", "random", "urandom", "tty", "console", "pts", "pts/*", "fd"]);
    let hide = ops[0].rule().unwrap();
    assert_eq!((hide.magic, hide.bacts), (DEVFS_MAGIC, DRB_HIDE));
    let unhide = ops[1].rule().unwrap();
    assert_eq!((unhide.bacts, unhide.pathptrn.as_str()), (DRB_UNHIDE, "null"));
    let long = Operation::Unhide("x".repeat(200));
    assert_eq!(long.rule().err(), Some(MountError::PatternTooLong));
    let devfs = Mount { destination: "/dev".to_string(), source: None, options: None, kind: Some("devfs".to_string()) };
    assert_eq!(post_mount_operations(&devfs).len(), 11);
    assert_eq!(mount_request(&devfs, "/r").unwrap().source, "devfs");
}
