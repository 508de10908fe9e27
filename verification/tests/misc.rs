use testauskameli::cmd::Environment;
use testauskameli::haskell_bot::{
    compile_error_reply, ghc_arguments, haskell_request, run_reply, runghc_arguments, source_path,
    work_files, ReplyStyle,
};
use testauskameli::utils::{needed_programs_report, rand_path_with_extension, random_file_path};

#[test]
fn haskell_requests() {
    assert_eq!(haskell_request("```hs\nmain = pure ()\n```", false), None);
    assert_eq!(haskell_request("```hs\nmain = pure ()\n```", true).unwrap(), "\nmain = pure ()\n");
    assert_eq!(haskell_request("x ```haskell\nmain\n```", true).unwrap(), "\nmain\n");
    assert_eq!(haskell_request("no code", true), None);
}

#[test]
fn ghc_and_runghc_arguments() {
    assert_eq!(ghc_arguments(42, " -O2  -Wall "), vec!["-o", "42", "-O2", "-Wall", "42.hs"]);
    assert_eq!(ghc_arguments(7, ""), vec!["-o", "7", "7.hs"]);
    let env = Environment {
        process_limit: None,
        memory_limit: Some("5".into()),
        file_limit: None,
        time_limit: None,
        run_user: None,
        user: Some("ignored".into()),
    };
    assert_eq!(
        runghc_arguments(9, &env),
        vec!["-u", "runhaskell", "timeout", "-s", "KILL", "10", "s6-softlimit", "-a", "5", "-f", "40000", "-p", "1", "./9"]
    );
    assert_eq!(source_path(9), "/tmp/9.hs");
    assert_eq!(work_files(9), vec!["/tmp/9.hs", "/tmp/9", "/tmp/9.hi", "/tmp/9.o"]);
}

#[test]
fn haskell_replies() {
    assert_eq!(compile_error_reply(ReplyStyle::Inline, "oops"), "Error compiling the code: ```\noops```");
    assert_eq!(compile_error_reply(ReplyStyle::Block, "oops"), "Error compiling the code:\n```\noops```");
    assert_eq!(run_reply(ReplyStyle::Inline, true, "hi".into(), "".into()), "output\n```hi```");
    assert_eq!(run_reply(ReplyStyle::Block, false, "hi".into(), "e".repeat(3000)), format!("Code ran unsuccessfully\n```\n{}```", "e".repeat(1950)));
    assert_eq!(run_reply(ReplyStyle::Block, true, "o".repeat(3000), "".into()), format!("output\n```\n{}```", "o".repeat(1984)));
}

#[test]
fn random_paths() {
    let p = rand_path_with_extension("/tmp", "png");
    assert!(p.starts_with("/tmp/"));
    assert!(p.ends_with(".png"));
    let name = &p[5..p.len() - 4];
    assert_eq!(name.len(), 16);
    assert!(name.chars().all(|c| c.is_ascii_alphanumeric()));
    let q = rand_path_with_extension("/tmp/", ".png");
    assert!(q.starts_with("/tmp/") && q.ends_with(".png") && !q.ends_with("..png") && q.len() == 5 + 16 + 4);
    assert_ne!(p, rand_path_with_extension("/tmp", "png"));
    let r = rand_path_with_extension("", "x");
    assert_eq!(r.len(), 18);
}

#[test]
fn missing_programs_are_listed() {
    let names: Vec<String> = vec!["gcc".into(), "c-runner".into(), "clisp".into()];
    assert_eq!(needed_programs_report(&names, &vec![true, true, true]), Ok(()));
    assert_eq!(
        needed_programs_report(&names, &vec![false, true, false]),
        Err("missing binaries: gcc,clisp".to_string())
    );
    assert_eq!(needed_programs_report(&vec![], &vec![]), Ok(()));
}

#[test]
fn random_file_paths_are_assembled_from_the_draws() {
    assert_eq!(random_file_path("/tmp", &b"aB3".to_vec(), "png"), "/tmp/aB3.png");
    assert_eq!(random_file_path("/tmp/", &b"x".to_vec(), ".png"), "/tmp/x.png");
    assert_eq!(random_file_path("", &vec![], "x"), ".x");
    let name = b"Zz09Zz09Zz09Zz09".to_vec();
    assert_eq!(random_file_path("/var", &name, "tex"), "/var/Zz09Zz09Zz09Zz09.tex");
}
