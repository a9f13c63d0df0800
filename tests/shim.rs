use knast::lifecycle::{LifecycleError, OciOperations};
use knast::manifest::{blob_path, manifest_path};
use knast::shim::{io_setup, IoError, IoSetup, StdioTriple, StdoutSink, TaskService};
use knast::storage::Storage;

fn triple(stdin: &str, stdout: &str, terminal: bool) -> StdioTriple {
    StdioTriple {
        stdin: stdin.to_string(),
        stdout: stdout.to_string(),
        stderr: "/run/fifo/err".to_string(),
        terminal,
    }
}

#[test]
fn terminal_processes_get_a_pty() {
    match io_setup(&triple("/run/fifo/in", "/run/fifo/out", true)).unwrap() {
        IoSetup::Terminal { input, output } => {
            assert_eq!(input, "/run/fifo/in");
            assert_eq!(output, "/run/fifo/out");
        }
        IoSetup::Direct { .. } => panic!("a terminal was asked for"),
    }
}

#[test]
fn direct_io_uses_files() {
    match io_setup(&triple("", "/run/fifo/out", false)).unwrap() {
        IoSetup::Direct { stdin, stdout: StdoutSink::File(out), stderr } => {
            assert_eq!(stdin, None);
            assert_eq!(out, "/run/fifo/out");
            assert_eq!(stderr, Some("/run/fifo/err".to_string()));
        }
        _ => panic!("expected files"),
    }
}

#[test]
fn binary_stdout_goes_to_a_helper() {
    match io_setup(&triple("/in", "binary:///usr/bin/logger?tag=web&level=info%20x", false)).unwrap() {
        IoSetup::Direct { stdin, stdout: StdoutSink::Binary { path, env }, stderr } => {
            assert_eq!(stdin, Some("/in".to_string()));
            assert_eq!(path, "/usr/bin/logger");
            assert_eq!(
                env,
                vec![("tag".to_string(), "web".to_string()), ("level".to_string(), "info x".to_string())]
            );
            assert_eq!(stderr, None);
        }
        _ => panic!("expected a helper binary"),
    }
    assert!(matches!(
        io_setup(&triple("/in", "binarylog", false)),
        Ok(IoSetup::Direct { stdout: StdoutSink::File(_), .. })
    ));
    assert!(matches!(io_setup(&triple("/in", "binary://[oops", false)), Err(IoError::InvalidUrl)));
}

#[test]
fn stdio_and_pty_are_kept_per_process() {
    let service = TaskService::new(Storage::new("/var/db/knast"), "em0".to_string());
    assert_eq!(service.nat_interface(), "em0");
    let mut ops: OciOperations = service.operations("web");
    assert_eq!(ops.key(), "web");
    assert_eq!(ops.stdio_triple("").err(), Some(LifecycleError::NotFound));
    ops.save_stdio_triple("", triple("/in", "/out", true));
    let stored = ops.stdio_triple("").ok().unwrap();
    assert_eq!((stored.stdin.as_str(), stored.stdout.as_str(), stored.terminal), ("/in", "/out", true));
    assert_eq!(ops.pty_state("exec1"), Err(LifecycleError::NotFound));
    ops.save_pty_state("exec1", (5, 6));
    assert_eq!(ops.pty_state("exec1"), Ok((5, 6)));
    assert_eq!(ops.pty_state(""), Err(LifecycleError::NotFound));
}

#[test]
fn registry_paths() {
    assert_eq!(manifest_path("library/nginx", "1.17.10"), "/v2/library/nginx/manifests/1.17.10");
    assert_eq!(blob_path("library/nginx", "sha256:abde"), "/v2/library/nginx/blobs/sha256:abde");
}
