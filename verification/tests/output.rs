use testauskameli::bot::{incoming_message, Attachment};
use testauskameli::jobs::{
    echo_output, ffmpeg_arguments, latex_failure, latex_output, latex_url, meme_output,
    recode_output, recoded_file_name, video_file_name,
};
use testauskameli::reply::{discord_reply, terminal_text, DiscordReply};
use testauskameli::runner::{report_output, Report};
use testauskameli::snippets::code::H264ify;
use testauskameli::snippets::MrSnippet;
use testauskameli::{Either, RunnerOutput};
use testauskameli::runner::Job;

fn output(r: &RunnerOutput) -> (String, Option<String>) {
    match r {
        RunnerOutput::Output(o) => (o.clone(), None),
        RunnerOutput::WithError(o, e) => (o.clone(), Some(e.clone())),
        _ => panic!("unexpected output"),
    }
}

#[test]
fn report_truncated_cuts_both() {
    let long_out = "o".repeat(2000);
    let long_err = "e".repeat(2000);
    let r = report_output(Report::Truncated, true, long_out.clone(), long_err.clone());
    assert_eq!(output(&r), ("o".repeat(1900), None));
    let r = report_output(Report::Truncated, false, long_out.clone(), long_err.clone());
    assert_eq!(output(&r), ("o".repeat(1900), Some("e".repeat(1950))));
}

#[test]
fn report_errors_only_drops_output_on_failure() {
    let r = report_output(Report::ErrorsOnly, false, "partial".into(), "boom".into());
    assert_eq!(output(&r), (String::new(), Some("boom".into())));
    let r = report_output(Report::ErrorsOnly, true, "ok".into(), "warn".into());
    assert_eq!(output(&r), ("ok".into(), None));
}

#[test]
fn report_whole_keeps_everything() {
    let long = "x".repeat(5000);
    let r = report_output(Report::Whole, false, long.clone(), long.clone());
    assert_eq!(output(&r), (long.clone(), Some(long)));
}

#[test]
fn discord_output_reply() {
    match discord_reply(RunnerOutput::Output("a`b".into())) {
        DiscordReply::Text(t) => assert_eq!(t, "Output:\n```\na\\`b\n```"),
        _ => panic!(),
    }
    match discord_reply(RunnerOutput::Output("z".repeat(3000))) {
        DiscordReply::Text(t) => assert_eq!(t, format!("Output:\n```\n{}\n```", "z".repeat(1900))),
        _ => panic!(),
    }
}

#[test]
fn discord_error_reply() {
    match discord_reply(RunnerOutput::WithError("  \n".into(), "bad".into())) {
        DiscordReply::Text(t) => assert_eq!(t, "Error:\n```\nbad\n\n```"),
        _ => panic!(),
    }
    match discord_reply(RunnerOutput::WithError("out".repeat(400), "err".into())) {
        DiscordReply::Text(t) => assert_eq!(
            t,
            format!("Output:\n```\n{}\n\n```\nError:\n```\nerr\n```", &"out".repeat(400)[..900])
        ),
        _ => panic!(),
    }
}

#[test]
fn discord_files_and_usage_replies() {
    match discord_reply(RunnerOutput::WithFiles(" ".into(), vec!["a.png".into()], true)) {
        DiscordReply::Files { content, files, delete } => {
            assert_eq!(content, None);
            assert_eq!(files, vec!["a.png".to_string()]);
            assert!(delete);
        }
        _ => panic!(),
    }
    match discord_reply(RunnerOutput::WithFiles("see `this`".into(), vec![], false)) {
        DiscordReply::Files { content, .. } => assert_eq!(content.unwrap(), "see \\`this\\`"),
        _ => panic!(),
    }
    match discord_reply(RunnerOutput::WrongUsage("no `".into())) {
        DiscordReply::Text(t) => assert_eq!(t, "Incorrect: no \\`"),
        _ => panic!(),
    }
    assert!(matches!(discord_reply(RunnerOutput::NoOutput), DiscordReply::Nothing));
}

#[test]
fn terminal_texts() {
    assert_eq!(terminal_text(&RunnerOutput::Output("hi".into())), "Output:\n\nhi\n");
    assert_eq!(terminal_text(&RunnerOutput::WithError("o".into(), "e".into())), "Output:\n\no\nError:e\n");
    assert_eq!(
        terminal_text(&RunnerOutput::WithFiles("t".into(), vec!["/a".into(), "/b".into()], true)),
        "Output:\n\nt\n\nThe following files were also created\n    - /a\n    - /b\nFile deletion hint: true\n"
    );
    assert_eq!(terminal_text(&RunnerOutput::WrongUsage("x".into())), "Wrong usage: x\n");
    assert_eq!(terminal_text(&RunnerOutput::NoOutput), "");
}

fn attachment(url: &str, ty: Option<&str>, height: Option<u64>) -> Attachment {
    Attachment { url: url.into(), content_type: ty.map(|s| s.into()), height }
}

#[test]
fn incoming_messages() {
    assert_eq!(incoming_message("hi", true, true, &vec![]), None);
    assert_eq!(incoming_message("hi", false, false, &vec![]), None);
    assert_eq!(incoming_message("hi", false, true, &vec![]).unwrap(), "hi");
    let atts = vec![
        attachment("https://c/1.mkv", Some("video/x-matroska"), None),
        attachment("https://c/2.png", Some("image/png"), Some(10)),
        attachment("https://c/3.mp4", Some("video/mp4"), Some(720)),
        attachment("https://c/4.webm", Some("video/webm"), None),
    ];
    let m = incoming_message("hi", false, false, &atts).unwrap();
    assert_eq!(m, "```h264ifyhttps://c/1.mkv\nhttps://c/4.webm```");
    let previewable = vec![attachment("https://c/3.mp4", Some("video/mp4"), Some(720))];
    assert_eq!(incoming_message("hi", false, false, &previewable), None);
    assert_eq!(incoming_message("hi", false, true, &previewable).unwrap(), "hi");
}

#[test]
fn recoding_request_round_trip() {
    let atts = vec![
        attachment("https://c/1.mkv", Some("video/x-matroska"), None),
        attachment("https://c/4.webm", Some("video/webm"), None),
    ];
    let m = incoming_message("", false, false, &atts).unwrap();
    match H264ify.try_or_continue(&m) {
        Either::Left(r) => match r.dispatch() {
            Job::Recode(urls) => {
                assert_eq!(urls, vec!["https://c/1.mkv", "https://c/4.webm"]);
                match recode_output(&urls) {
                    RunnerOutput::WithFiles(_, f, true) => {
                        assert_eq!(f, vec!["1.mkv-fixed.mp4", "4.webm-fixed.mp4"])
                    }
                    _ => panic!(),
                }
            }
            _ => panic!(),
        },
        _ => panic!(),
    }
}

#[test]
fn video_names_and_ffmpeg() {
    assert_eq!(video_file_name("https://cdn/x/y/clip.mkv"), "clip.mkv");
    assert_eq!(video_file_name("clip.mkv"), "clip.mkv");
    assert_eq!(video_file_name("https://cdn/"), "");
    assert_eq!(recoded_file_name("clip.mkv"), "clip.mkv-fixed.mp4");
    assert_eq!(
        ffmpeg_arguments("v.mkv"),
        vec!["-i", "v.mkv", "-vcodec", "libx264", "-vprofile", "baseline", "-level", "3.0", "-pix_fmt", "yuv420p", "v.mkv-fixed.mp4"]
    );
    match recode_output(&vec!["https://cdn/x/a.webm".into(), "b".into()]) {
        RunnerOutput::WithFiles(t, f, d) => {
            assert_eq!(t, "");
            assert_eq!(f, vec!["a.webm-fixed.mp4".to_string(), "b-fixed.mp4".to_string()]);
            assert!(d);
        }
        _ => panic!(),
    }
    match recode_output(&vec![]) {
        RunnerOutput::WithFiles(t, f, d) => assert!(t.is_empty() && f.is_empty() && d),
        _ => panic!(),
    }
}

#[test]
fn latex_and_meme_outputs() {
    assert_eq!(latex_url("x^2"), "https://latex.codecogs.com/png.latex?\\dpi{300} x^2");
    assert_eq!(output(&latex_failure("404 Not Found")), ("Failed".into(), Some("Failed to get image, status: 404 Not Found".into())));
    match latex_output("/tmp/a.png".into()) {
        RunnerOutput::WithFiles(t, f, d) => assert!(t.is_empty() && f == vec!["/tmp/a.png".to_string()] && d),
        _ => panic!(),
    }
    match meme_output() {
        RunnerOutput::WithFiles(t, f, d) => assert!(t.is_empty() && f == vec!["test.png".to_string()] && !d),
        _ => panic!(),
    }
    assert_eq!(output(&echo_output("hey".into())), ("hey".into(), None));
}
