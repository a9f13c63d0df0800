use knast::lifecycle::{decode_env, LifecycleError, OciOperations, ProcessStatus};
use knast::runtime_config::{Mount, Process, Root, RuntimeConfig, User};
use knast::storage::Storage;

fn process(args: &[&str]) -> Process {
    Process {
        terminal: None,
        console_size: None,
        cwd: "/var/../www/./html".to_string(),
        env: Some(vec![
            "PATH=/usr/bin:/bin".to_string(),
            "EMPTY=".to_string(),
            "BROKEN".to_string(),
            "EQ=a=b".to_string(),
        ]),
        args: Some(args.iter().map(|a| a.to_string()).collect()),
        rlimits: None,
        user: User { uid: 977, gid: 13, umask: None, additional_gids: None },
        hostname: None,
    }
}

fn mount(destination: &str) -> Mount {
    Mount {
        destination: destination.to_string(),
        source: None,
        options: None,
        kind: Some("devfs".to_string()),
    }
}

fn config(args: &[&str]) -> RuntimeConfig {
    RuntimeConfig {
        oci_version: "1.0".to_string(),
        root: Some(Root { path: "rootfs".to_string(), readonly: Some(false) }),
        mounts: Some(vec![mount("/dev"), mount("/proc")]),
        process: Some(process(args)),
        hooks: None,
        annotations: None,
    }
}

fn created(name: &str, args: &[&str]) -> OciOperations {
    let mut ops = OciOperations::new(Storage::new("/var/db/knast"), name);
    let rootfs = ops.create("/tmp/bundle", config(args)).unwrap();
    assert_eq!(rootfs, "/tmp/bundle/rootfs");
    ops
}

#[test]
fn lifecycle_happy_path() {
    let mut ops = created("linux", &["id"]);
    let plan = ops.start().unwrap();
    assert_eq!(plan.command, "id");
    assert!(plan.args.is_empty());
    assert_eq!(plan.cwd, "/tmp/bundle/rootfs/var/www/html");
    assert_eq!((plan.uid, plan.gid), (977, 13));
    assert_eq!(ops.get_process("").unwrap().status, ProcessStatus::Starting);
    ops.spawned("", Some((4242, 7))).unwrap();
    let running = ops.get_process("").unwrap();
    assert_eq!(running.status, ProcessStatus::Running);
    assert_eq!((running.pid, running.jid), (4242, 7));
    assert_eq!(ops.wait_target(""), Ok(4242));
    ops.do_wait("", Some(0), 1_600_000_000).unwrap();
    let stopped = ops.get_process("").unwrap();
    assert_eq!(stopped.status, ProcessStatus::Stopped);
    assert_eq!((stopped.pid, stopped.exit_status, stopped.exited_at), (0, Some(0), 1_600_000_000));
    assert_eq!(stopped.oci_version, "1.0.2-dev-freebsd");
    let unmounts = ops.delete(false).unwrap();
    assert_eq!(unmounts, vec!["/tmp/bundle/rootfs/proc".to_string(), "/tmp/bundle/rootfs/dev".to_string()]);
    assert_eq!(ops.get_process("").err(), Some(LifecycleError::NotFound));
}

#[test]
fn illegal_kill_leaves_state_unchanged() {
    let mut ops = created("container3", &["/quitely_stop.sh"]);
    ops.start().unwrap();
    ops.spawned("", Some((99, 3))).unwrap();
    assert_eq!(ops.kill(), Ok(99));
    ops.do_wait("", None, 5).unwrap();
    assert_eq!(ops.kill(), Err(LifecycleError::InvalidState));
    let after = ops.get_process("").unwrap();
    assert_eq!(after.status, ProcessStatus::Stopped);
    assert_eq!((after.pid, after.jid, after.exit_status, after.exited_at), (0, 3, None, 5));
}

#[test]
fn second_start_is_refused() {
    let mut ops = created("racer", &["sleep", "10"]);
    let first = ops.start();
    let second = ops.start();
    assert!(first.is_ok());
    assert_eq!(second.err(), Some(LifecycleError::InvalidState));
    ops.spawned("", Some((10, 1))).unwrap();
    assert_eq!(ops.start().err(), Some(LifecycleError::InvalidState));
    assert_eq!(ops.get_process("").unwrap().status, ProcessStatus::Running);
}

#[test]
fn failed_spawn_stops_the_process() {
    let mut ops = created("broken", &["/nonexistent"]);
    ops.start().unwrap();
    ops.spawned("", None).unwrap();
    assert_eq!(ops.get_process("").unwrap().status, ProcessStatus::Stopped);
    assert_eq!(ops.spawned("", None), Err(LifecycleError::InvalidState));
}

#[test]
fn create_twice_and_without_root() {
    let mut ops = created("dup", &["true"]);
    ops.start().unwrap();
    assert_eq!(ops.create("/tmp/bundle", config(&["true"])).err(), Some(LifecycleError::AlreadyExists));
    let mut bare = config(&["true"]);
    bare.root = None;
    let mut other = OciOperations::new(Storage::new("/var/db/knast"), "bare");
    assert_eq!(other.create("/tmp/bundle", bare).err(), Some(LifecycleError::MissingRoot));
}

#[test]
fn root_path_stays_inside_the_bundle() {
    let mut cfg = config(&["true"]);
    cfg.root = Some(Root { path: "/../../etc".to_string(), readonly: None });
    let mut ops = OciOperations::new(Storage::new("/var/db/knast"), "escape");
    assert_eq!(ops.create("/tmp/bundle", cfg).unwrap(), "/tmp/bundle/etc");
}

#[test]
fn start_errors() {
    let mut missing = OciOperations::new(Storage::new("/var/db/knast"), "ghost");
    assert_eq!(missing.start().err(), Some(LifecycleError::NotFound));
    let mut no_cmd = created("nocmd", &[]);
    assert_eq!(no_cmd.start().err(), Some(LifecycleError::MissingCommand));
    assert_eq!(no_cmd.get_process("").err(), Some(LifecycleError::NotFound));
    let mut cfg = config(&["true"]);
    cfg.process = None;
    let mut no_process = OciOperations::new(Storage::new("/var/db/knast"), "noproc");
    no_process.create("/tmp/bundle", cfg).unwrap();
    assert_eq!(no_process.start().err(), Some(LifecycleError::MissingProcess));
}

#[test]
fn exec_runs_beside_the_main_process() {
    let mut ops = created("exec", &["nginx"]);
    assert_eq!(ops.do_exec("", &process(&["sh"])).err(), Some(LifecycleError::ReservedExecId));
    let plan = ops.do_exec("shell", &process(&["sh", "-c", "ls"])).unwrap();
    assert_eq!(plan.command, "sh");
    assert_eq!(plan.args, vec!["-c".to_string(), "ls".to_string()]);
    assert_eq!(ops.get_process("shell").unwrap().status, ProcessStatus::Starting);
    assert_eq!(ops.get_process("").err(), Some(LifecycleError::NotFound));
    assert_eq!(ops.process_id("shell"), b"exec/shell".to_vec());
}

#[test]
fn state_downgrades_running_without_jail() {
    let mut ops = created("vanished", &["sleep"]);
    ops.start().unwrap();
    ops.spawned("", Some((5, 6))).unwrap();
    assert_eq!(ops.get_state("", true).unwrap().status, ProcessStatus::Running);
    assert_eq!(ops.get_state("", false).unwrap().status, ProcessStatus::Stopped);
    assert_eq!(ops.get_process("").unwrap().status, ProcessStatus::Running);
    assert_eq!(ops.do_delete("", true).err(), Some(LifecycleError::InvalidState));
    assert!(ops.do_delete("", false).is_ok());
}

#[test]
fn env_entries_split_at_first_equals() {
    let env = decode_env(&process(&["x"]).env);
    let pairs: Vec<(String, String)> = env;
    assert_eq!(
        pairs,
        vec![
            ("PATH".to_string(), "/usr/bin:/bin".to_string()),
            ("EMPTY".to_string(), "".to_string()),
            ("EQ".to_string(), "a=b".to_string()),
        ]
    );
    assert!(decode_env(&None).is_empty());
}

#[test]
fn storage_keeps_its_folder() {
    let storage = Storage::new("/var/db/knast");
    assert_eq!(storage.folder(), "/var/db/knast");
    let ops = OciOperations::new(storage, "k");
    assert_eq!(ops.key(), "k");
    assert_eq!(ops.storage().folder(), "/var/db/knast");
}

#[test]
fn status_names_are_lowercase() {
    assert_eq!(ProcessStatus::Created.name(), "created");
    assert_eq!(ProcessStatus::Starting.name(), "starting");
    assert_eq!(ProcessStatus::Running.name(), "running");
    assert_eq!(ProcessStatus::Stopped.name(), "stopped");
}

#[test]
fn exec_on_an_existing_record_is_refused() {
    let mut ops = created("twice", &["nginx"]);
    ops.do_exec("shell", &process(&["sh"])).unwrap();
    assert_eq!(ops.do_exec("shell", &process(&["sh"])).err(), Some(LifecycleError::InvalidState));
    assert_eq!(ops.get_process("shell").unwrap().status, ProcessStatus::Starting);
    ops.spawned("shell", Some((8, 2))).unwrap();
    ops.do_wait("shell", Some(1), 9).unwrap();
    assert_eq!(ops.do_exec("shell", &process(&["sh"])).err(), Some(LifecycleError::InvalidState));
    let after = ops.get_process("shell").unwrap();
    assert_eq!((after.status, after.exit_status, after.exited_at), (ProcessStatus::Stopped, Some(1), 9));
}
