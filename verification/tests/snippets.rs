use testauskameli::cmd::Environment;
use testauskameli::executor::{route, Action};
use testauskameli::runner::{Job, Report};
use testauskameli::snippets::code::{haskell_fences_ordered, H264ify, Haskell, Idris, Lisp, C, JS};
use testauskameli::snippets::echo::{Echo, Whois};
use testauskameli::snippets::latex::{latex_math, Latex};
use testauskameli::snippets::nomeme::{meme_lines, meme_lines_of, meme_subject, NoMeme};
use testauskameli::snippets::{register_all, MrSnippet, Snippet};
use testauskameli::{Either, Mismatch, Runner, RunnerOutput};

fn runner(r: Either<Runner, Mismatch>) -> Runner {
    match r {
        Either::Left(r) => r,
        Either::Right(_) => panic!("expected a runner"),
    }
}

fn is_continue(r: &Either<Runner, Mismatch>) -> bool {
    matches!(r, Either::Right(Mismatch::Continue))
}

#[test]
fn c_block_runs_code() {
    let r = runner(C.try_or_continue("@kameli ```c\nint main(){return 0;}\n```"));
    assert_eq!(r.service, "c");
    assert_eq!(r.name, "c");
    match r.dispatch() {
        Job::Sandboxed(s) => {
            assert_eq!(s.program, "c-runner");
            assert!(!s.restricted);
            assert!(s.arg.is_none());
            let src = s.source.unwrap();
            assert_eq!(src.content, "\nint main(){return 0;}\n");
            assert_eq!(src.extension, "c");
            assert!(s.report == Report::Truncated);
        }
        _ => panic!("expected a sandboxed job"),
    }
}

#[test]
fn code_block_ends_at_last_fence() {
    let r = runner(JS.try_or_continue("```js\na```b\n```\ntrailing"));
    match r.dispatch() {
        Job::Sandboxed(s) => assert_eq!(s.source.unwrap().content, "\na```b\n"),
        _ => panic!(),
    }
}

#[test]
fn no_tag_continues() {
    assert!(is_continue(&C.try_or_continue("just talking")));
    assert!(is_continue(&Lisp.try_or_continue("```c\nx\n```")));
    assert!(is_continue(&Idris.try_or_continue("")));
}

fn complaint(r: Either<Runner, Mismatch>) -> String {
    match r {
        Either::Right(Mismatch::WrongUsage(e)) => e,
        _ => panic!("expected a complaint"),
    }
}

#[test]
fn unclosed_block_is_wrong_usage() {
    let missing = "You done fucked up, missing closing backtics";
    assert_eq!(complaint(C.try_or_continue("```c")), missing);
    assert_eq!(complaint(C.try_or_continue("```c\nint main;")), missing);
    assert_eq!(complaint(H264ify.try_or_continue("```h264ify\nhttps://example.com/a.mp4")), missing);
    assert_eq!(complaint(Haskell.try_or_continue("```haskell main")), missing);
    let r = runner(C.try_or_continue("```c```"));
    match r.dispatch() {
        Job::Sandboxed(s) => assert_eq!(s.source.unwrap().content, ""),
        _ => panic!(),
    }
}

#[test]
fn haskell_fence_order() {
    assert!(haskell_fences_ordered("```hs ```haskell"));
    assert!(haskell_fences_ordered("no code here"));
    assert!(!haskell_fences_ordered("```hs main"));
    assert!(!haskell_fences_ordered("```haskell"));
}

#[test]
fn haskell_prefers_short_tag() {
    let r = runner(Haskell.try_or_continue("```haskell\nmain = print 1\n```"));
    match r.dispatch() {
        Job::Sandboxed(s) => {
            assert_eq!(s.program, "haskell-runner");
            let src = s.source.unwrap();
            assert_eq!(src.content, "\nmain = print 1\n");
            assert_eq!(src.extension, "hs");
            assert!(s.report == Report::ErrorsOnly);
        }
        _ => panic!(),
    }
    let r = runner(Haskell.try_or_continue("```hs ```haskell"));
    match r.dispatch() {
        Job::Sandboxed(s) => assert_eq!(s.source.unwrap().content, " "),
        _ => panic!(),
    }
}

#[test]
fn idris_runs_restricted() {
    let r = runner(Idris.try_or_continue("```idris\nmain : IO ()\n```"));
    match r.dispatch() {
        Job::Sandboxed(s) => {
            assert!(s.restricted);
            assert_eq!(s.program, "idris-runner");
            assert_eq!(s.source.unwrap().extension, "hs");
            assert!(s.report == Report::Whole);
        }
        _ => panic!(),
    }
}

#[test]
fn h264ify_lists_urls() {
    let r = runner(H264ify.try_or_continue("```h264ify\nhttps://a/x.mkv\nhttps://b/y.webm```"));
    match r.dispatch() {
        Job::Recode(urls) => assert_eq!(urls, vec!["", "https://a/x.mkv", "https://b/y.webm"]),
        _ => panic!(),
    }
}

#[test]
fn echo_returns_rest() {
    let r = runner(Echo.try_or_continue("<@1> echo hello  world"));
    assert_eq!(r.service, "echo");
    assert_eq!(r.name, "test");
    match r.dispatch() {
        Job::Echo(t) => assert_eq!(t, "hello  world"),
        _ => panic!(),
    }
    assert!(is_continue(&Echo.try_or_continue("echo")));
}

#[test]
fn whois_trims_domain() {
    let r = runner(Whois.try_or_continue("whois   example.com \n"));
    match r.dispatch() {
        Job::Sandboxed(s) => {
            assert_eq!(s.program, "whois");
            assert_eq!(s.arg.unwrap(), "example.com");
            assert!(s.source.is_none());
        }
        _ => panic!(),
    }
    assert!(is_continue(&Whois.try_or_continue("who is")));
}

#[test]
fn whois_looks_up_the_one_domain() {
    let r = runner(Whois.try_or_continue("whois example.com"));
    let env = Environment {
        process_limit: None,
        memory_limit: None,
        file_limit: None,
        time_limit: None,
        run_user: Some("runner".into()),
        user: None,
    };
    match r.dispatch() {
        Job::Sandboxed(s) => {
            let inv = s.command(&env).run("");
            assert_eq!(inv.program, "sudo");
            let n = inv.args.len();
            assert_eq!(&inv.args[n - 2..], &["whois".to_string(), "example.com".to_string()]);
            assert_eq!(inv.args.iter().filter(|a| a.as_str() == "whois").count(), 1);
        }
        _ => panic!(),
    }
}

#[test]
fn latex_takes_text_between_dollars() {
    assert_eq!(latex_math("see $x^2 + 1$ and $y$").unwrap(), "x^2 + 1");
    assert_eq!(latex_math("$$").unwrap(), "");
    assert_eq!(latex_math("only $ one"), None);
    assert_eq!(latex_math("a\n$b\nc$"), Some("b\nc".to_string()));
    let r = runner(Latex::new().try_or_continue("$\\frac12$"));
    match r.dispatch() {
        Job::Latex(l) => assert_eq!(l, "\\frac12"),
        _ => panic!(),
    }
}

#[test]
fn meme_subject_follows_pattern() {
    assert_eq!(meme_subject("no bitches?").unwrap(), "bitches");
    assert_eq!(meme_subject("no  way? really?").unwrap(), "way? really");
    assert_eq!(meme_subject("nothing?"), None);
    assert_eq!(meme_subject("no\nfoo?").unwrap(), "foo");
    assert_eq!(meme_subject("no x\n?"), None);
    assert_eq!(meme_subject("so no?? no problem?").unwrap(), "problem");
    assert_eq!(meme_subject("no ?").unwrap(), "");
    let r = runner(NoMeme::new().try_or_continue("no fun?"));
    assert_eq!(r.service, "no meme");
    match r.dispatch() {
        Job::Meme(t) => assert_eq!(t, "fun"),
        _ => panic!(),
    }
}

#[test]
fn meme_lines_are_laid_out() {
    let lines = meme_lines("bitches").unwrap();
    assert_eq!(lines.len(), 1);
    assert_eq!(lines[0].text, "NO BITCHES?");
    assert_eq!(lines[0].x, 3 * 48);
    assert_eq!(lines[0].y, 10);
    let lines = meme_lines("friends to talk to at all").unwrap();
    let texts: Vec<&str> = lines.iter().map(|l| l.text.as_str()).collect();
    assert_eq!(texts, vec!["NO FRIENDS TO TAL", "K TO AT ALL?"]);
    assert_eq!(lines[0].x, 0);
    assert_eq!(lines[1].x, 2 * 48);
    assert_eq!(lines[1].y, 58);
    // "NO A" and eight "Ä" put byte 17 inside a character; std's drain panics there.
    assert!(meme_lines("aääääääää").is_none());
    assert!(meme_lines("äääääää").is_some());
    let lines = meme_lines_of("NO bitches?").unwrap();
    assert_eq!(lines.len(), 1);
    assert_eq!(lines[0].text, "NO bitches?");
    assert_eq!(lines[0].x, 3 * 48);
    assert!(meme_lines_of("").unwrap().is_empty());
    assert!(meme_lines_of("NO Aääääääää?").is_none());
}

#[test]
fn names_and_dependencies() {
    let all = register_all();
    let names: Vec<&str> = all.iter().map(|s| s.name()).collect();
    assert_eq!(names, vec!["h264ify", "c", "haskell", "idris", "lisp", "no meme", "echo", "whois", "latex"]);
    assert_eq!(C.dependencies(), vec!["gcc", "c-runner"]);
    assert_eq!(Idris.dependencies(), vec!["idris2", "idris-runner", "chez"]);
    assert!(Echo.dependencies().is_empty());
    assert_eq!(JS.name(), "js");
}

#[test]
fn route_stops_at_first_taker() {
    let handlers = vec![Snippet::Echo(Echo), Snippet::Whois(Whois)];
    let msg = "echo whois example.org";
    match route(&handlers, msg) {
        Some(Action::Dispatch(r)) => assert_eq!(r.service, "echo"),
        _ => panic!(),
    }
    let handlers = vec![Snippet::Whois(Whois), Snippet::Echo(Echo)];
    match route(&handlers, msg) {
        Some(Action::Dispatch(r)) => assert_eq!(r.service, "whois"),
        _ => panic!(),
    }
}

#[test]
fn route_with_no_taker_does_nothing() {
    let handlers = register_all();
    assert!(route(&handlers, "hello there").is_none());
    assert!(route(&Vec::<Snippet>::new(), "echo hi").is_none());
}

#[test]
fn route_complaint_ends_search() {
    let handlers = vec![Snippet::C(C), Snippet::Echo(Echo)];
    match route(&handlers, "```c echo hi") {
        Some(Action::Send(RunnerOutput::WrongUsage(e))) => {
            assert_eq!(e, "You done fucked up, missing closing backtics")
        }
        _ => panic!("expected the complaint alone"),
    }
    match route(&handlers, "```c\nx\n``` echo hi") {
        Some(Action::Dispatch(r)) => assert_eq!(r.service, "c"),
        _ => panic!(),
    }
}

#[test]
fn route_all_services() {
    let handlers = register_all();
    match route(&handlers, "```lisp\n(print 1)\n```") {
        Some(Action::Dispatch(r)) => assert_eq!(r.service, "lisp"),
        _ => panic!(),
    }
    match route(&handlers, "```c") {
        Some(Action::Send(RunnerOutput::WrongUsage(_))) => {}
        _ => panic!(),
    }
    match route(&handlers, "```h264ify\nhttps://example.com/a.mp4") {
        Some(Action::Send(RunnerOutput::WrongUsage(_))) => {}
        _ => panic!(),
    }
}
