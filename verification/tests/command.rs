use testauskameli::cmd::{Command, Environment};

fn env(limits: [Option<&str>; 4], run_user: Option<&str>, user: Option<&str>) -> Environment {
    let o = |x: Option<&str>| x.map(|s| s.to_string());
    Environment {
        process_limit: o(limits[0]),
        memory_limit: o(limits[1]),
        file_limit: o(limits[2]),
        time_limit: o(limits[3]),
        run_user: o(run_user),
        user: o(user),
    }
}

fn strs(v: &[&str]) -> Vec<String> {
    v.iter().map(|s| s.to_string()).collect()
}

#[test]
fn restricted_command_uses_defaults() {
    let e = env([None, None, None, None], Some("nobody"), Some("me"));
    let inv = Command::new("idris-runner", &e).run_with_content("/tmp/f", Some("hs"), "/tmp/d", "");
    assert_eq!(inv.program, "sudo");
    assert_eq!(
        inv.args,
        strs(&[
            "-u", "nobody", "timeout", "-s", "KILL", "10", "s6-softlimit", "-a", "1000000000", "-f",
            "40000", "-p", "1", "env", "KAMELI_FILELIMIT=40000", "KAMELI_MEMLIMIT=1000000000",
            "KAMELI_TIMELIMIT=10", "KAMELI_PROCESSLIMIT=1", "GHC_ARGS=", "idris-runner", "/tmp/f", "hs",
        ])
    );
    assert_eq!(inv.current_dir.as_deref(), Some("/tmp/d"));
    assert_eq!(
        inv.envs,
        vec![
            ("KAMELI_FILELIMIT".to_string(), "40000".to_string()),
            ("KAMELI_MEMLIMIT".to_string(), "1000000000".to_string()),
            ("KAMELI_PROCESSLIMIT".to_string(), "1".to_string()),
            ("KAMELI_TIMELIMIT".to_string(), "10".to_string()),
        ]
    );
}

#[test]
fn restricted_command_reads_environment() {
    let e = env([Some("5"), Some("+2048"), Some("7"), Some("30")], None, Some("me"));
    let inv = Command::new("p", &e).arg("x").run("-O2");
    assert_eq!(
        inv.args,
        strs(&[
            "-u", "me", "timeout", "-s", "KILL", "30", "s6-softlimit", "-a", "2048", "-f", "7", "-p",
            "5", "env", "KAMELI_FILELIMIT=7", "KAMELI_MEMLIMIT=2048", "KAMELI_TIMELIMIT=30",
            "KAMELI_PROCESSLIMIT=5", "GHC_ARGS=-O2", "p", "x",
        ])
    );
    assert_eq!(inv.current_dir, None);
}

#[test]
fn unlimited_command_with_directory_and_paths() {
    let e = env([Some("1"), None, None, None], Some("runner"), None);
    let c = Command::unlimited("whois", &e).args(&strs(&["a", "b"])).current_dir("/work");
    assert_eq!(c.get_current_dir().as_deref(), Some("/work"));
    let inv = c.run_with_paths(&strs(&["/x", "/y"]), "/tmp/unused", "");
    assert_eq!(
        inv.args,
        strs(&[
            "-u", "runner", "timeout", "-s", "KILL", "100", "s6-softlimit", "-a", "1000000000000",
            "-f", "100000000000", "-p", "100000", "env", "KAMELI_FILELIMIT=100000000000",
            "KAMELI_MEMLIMIT=1000000000000", "KAMELI_TIMELIMIT=100", "KAMELI_PROCESSLIMIT=100000",
            "GHC_ARGS=", "whois", "a", "b", "/x", "/y",
        ])
    );
    assert_eq!(inv.current_dir.as_deref(), Some("/work"));
}

#[test]
fn content_without_extension() {
    let e = env([None, None, None, None], Some("u"), None);
    let inv = Command::unlimited("c-runner", &e).current_dir("/here").run_with_content("/f.c", None, "/tmp/d", "");
    assert_eq!(inv.args.last().unwrap(), "/f.c");
    assert_eq!(inv.current_dir.as_deref(), Some("/here"));
}
