//! How the output of a runner is put into a reply: a Discord message, or
//! text for a terminal.

use vstd::prelude::*;

use crate::runner::{OutputView, RunnerOutput};
use crate::text::{
    can_truncate, chars_of, escape_backticks, escape_backticks_spec, keeps_prefix,
    lemma_truncate_keeps_prefix, trim_bounds, trim_spec, truncatable, truncate, truncate_spec,
};

verus! {

/// Bytes of output kept in a Discord reply that shows one block.
pub const REPLY_LIMIT: usize = 1900;
/// Bytes of output, and of errors, kept in a Discord reply that shows both.
pub const SHARED_REPLY_LIMIT: usize = 900;

/// A reply to the message that asked for the run.
pub enum DiscordReply {
    /// Reply with this text.
    Text(String),
    /// Send the files, with the text if there is one, as a reply; then delete
    /// the files if `delete` is set.
    Files { content: Option<String>, files: Vec<String>, delete: bool },
    /// Send nothing.
    Nothing,
}

/// The abstract value of a [`DiscordReply`].
pub enum DiscordReplyView {
    Text(Seq<char>),
    Files { content: Option<Seq<char>>, files: Seq<Seq<char>>, delete: bool },
    Nothing,
}

impl View for DiscordReply {
    type V = DiscordReplyView;

    open spec fn view(&self) -> DiscordReplyView {
        match self {
            DiscordReply::Text(t) => DiscordReplyView::Text(t@),
            DiscordReply::Files { content, files, delete } => DiscordReplyView::Files {
                content: match content {
                    Some(c) => Some(c@),
                    None => None,
                },
                files: files.deep_view(),
                delete: *delete,
            },
            DiscordReply::Nothing => DiscordReplyView::Nothing,
        }
    }
}

/// `s` is blank: nothing but whitespace.
pub open spec fn blank(s: Seq<char>) -> bool {
    trim_spec(s).len() == 0
}

/// `s` cut to `n` bytes, with its backticks escaped so that it cannot close
/// the code block it is shown in.
pub open spec fn shown(s: Seq<char>, n: int) -> Seq<char> {
    escape_backticks_spec(truncate_spec(s, n))
}

/// The reply on Discord for an output.
pub open spec fn discord_reply_spec(o: OutputView) -> DiscordReplyView {
    match o {
        OutputView::Output(text) => DiscordReplyView::Text(
            "Output:\n```\n"@ + shown(text, REPLY_LIMIT as int) + "\n```"@,
        ),
        OutputView::WithError(output, error) => if blank(output) {
            DiscordReplyView::Text(
                "Error:\n```\n"@ + shown(error, REPLY_LIMIT as int) + "\n\n```"@,
            )
        } else {
            DiscordReplyView::Text(
                "Output:\n```\n"@ + shown(output, SHARED_REPLY_LIMIT as int) + "\n\n```\nError:\n```\n"@
                    + shown(error, SHARED_REPLY_LIMIT as int) + "\n```"@,
            )
        },
        OutputView::WithFiles(output, files, delete) => DiscordReplyView::Files {
            content: if blank(output) {
                None
            } else {
                Some(escape_backticks_spec(output))
            },
            files,
            delete,
        },
        OutputView::WrongUsage(error) => DiscordReplyView::Text(
            "Incorrect: "@ + escape_backticks_spec(error),
        ),
        OutputView::NoOutput => DiscordReplyView::Nothing,
    }
}

/// The cuts that the Discord reply makes do not split a character.
pub open spec fn discord_cuttable(o: OutputView) -> bool {
    match o {
        OutputView::Output(text) => truncatable(text, REPLY_LIMIT as int),
        OutputView::WithError(output, error) => if blank(output) {
            truncatable(error, REPLY_LIMIT as int)
        } else {
            truncatable(output, SHARED_REPLY_LIMIT as int) && truncatable(
                error,
                SHARED_REPLY_LIMIT as int,
            )
        },
        _ => true,
    }
}

fn is_blank(s: &str) -> (r: bool)
    ensures
        r == blank(s@),
{
    let v = chars_of(s);
    assert(v@.skip(0) =~= v@);
    let (a, b) = trim_bounds(&v, 0);
    a == b
}

fn cut_and_escape(s: String, n: usize) -> (r: String)
    requires
        truncatable(s@, n as int),
    ensures
        r@ == shown(s@, n as int),
{
    let mut s = s;
    truncate(&mut s, n);
    escape_backticks(s.as_str())
}

fn concat3(a: &str, b: &str, c: &str) -> (r: String)
    ensures
        r@ == a@ + b@ + c@,
{
    let mut r = a.to_owned();
    r.append(b);
    r.append(c);
    r
}

/// Whether [`discord_reply`] can cut the output ([`discord_cuttable`]).
pub fn discord_can_cut(content: &RunnerOutput) -> (r: bool)
    ensures
        r == discord_cuttable(content@),
{
    match content {
        RunnerOutput::Output(text) => can_truncate(text.as_str(), REPLY_LIMIT),
        RunnerOutput::WithError(output, error) => if is_blank(output.as_str()) {
            can_truncate(error.as_str(), REPLY_LIMIT)
        } else {
            can_truncate(output.as_str(), SHARED_REPLY_LIMIT) && can_truncate(
                error.as_str(),
                SHARED_REPLY_LIMIT,
            )
        },
        _ => true,
    }
}

/// The reply on Discord for what a runner produced.
pub fn discord_reply(content: RunnerOutput) -> (r: DiscordReply)
    requires
        discord_cuttable(content@),
    ensures
        r@ == discord_reply_spec(content@),
{
    match content {
        RunnerOutput::Output(text) => {
            let shown = cut_and_escape(text, REPLY_LIMIT);
            DiscordReply::Text(concat3("Output:\n```\n", shown.as_str(), "\n```"))
        },
        RunnerOutput::WithError(output, error) => {
            if is_blank(output.as_str()) {
                let shown = cut_and_escape(error, REPLY_LIMIT);
                DiscordReply::Text(concat3("Error:\n```\n", shown.as_str(), "\n\n```"))
            } else {
                let out = cut_and_escape(output, SHARED_REPLY_LIMIT);
                let err = cut_and_escape(error, SHARED_REPLY_LIMIT);
                let mut r = concat3("Output:\n```\n", out.as_str(), "\n\n```\nError:\n```\n");
                r.append(err.as_str());
                r.append("\n```");
                DiscordReply::Text(r)
            }
        },
        RunnerOutput::WithFiles(output, files, delete) => {
            let content = if is_blank(output.as_str()) {
                None
            } else {
                Some(escape_backticks(output.as_str()))
            };
            DiscordReply::Files { content, files, delete }
        },
        RunnerOutput::WrongUsage(error) => {
            let mut r = "Incorrect: ".to_owned();
            let e = escape_backticks(error.as_str());
            r.append(e.as_str());
            DiscordReply::Text(r)
        },
        RunnerOutput::NoOutput => DiscordReply::Nothing,
    }
}

/// The text printed on a terminal for an output.
pub open spec fn terminal_text_spec(o: OutputView) -> Seq<char> {
    match o {
        OutputView::Output(text) => "Output:\n\n"@ + text + "\n"@,
        OutputView::WithError(text, error) => "Output:\n\n"@ + text + "\nError:"@ + error + "\n"@,
        OutputView::WithFiles(text, files, delete) => "Output:\n\n"@ + text + "\n\n"@
            + "The following files were also created\n"@ + file_list(files) + "File deletion hint: "@
            + (if delete {
            "true"@
        } else {
            "false"@
        }) + "\n"@,
        OutputView::WrongUsage(error) => "Wrong usage: "@ + error + "\n"@,
        OutputView::NoOutput => Seq::empty(),
    }
}

/// One line `    - <file>` per file.
pub open spec fn file_list(files: Seq<Seq<char>>) -> Seq<char>
    decreases files.len(),
{
    if files.len() == 0 {
        Seq::empty()
    } else {
        file_list(files.drop_last()) + "    - "@ + files.last() + "\n"@
    }
}

/// The text printed on a terminal for what a runner produced.
pub fn terminal_text(content: &RunnerOutput) -> (r: String)
    ensures
        r@ == terminal_text_spec(content@),
{
    match content {
        RunnerOutput::Output(text) => concat3("Output:\n\n", text.as_str(), "\n"),
        RunnerOutput::WithError(text, error) => {
            let mut r = concat3("Output:\n\n", text.as_str(), "\nError:");
            r.append(error.as_str());
            r.append("\n");
            r
        },
        RunnerOutput::WithFiles(text, files, delete) => {
            let mut r = concat3("Output:\n\n", text.as_str(), "\n\n");
            r.append("The following files were also created\n");
            let ghost head = r@;
            let mut i: usize = 0;
            while i < files.len()
                invariant
                    i <= files.len(),
                    r@ == head + file_list(files.deep_view().take(i as int)),
                decreases files.len() - i,
            {
                assert(files.deep_view().take(i + 1).drop_last() =~= files.deep_view().take(
                    i as int,
                ));
                r.append("    - ");
                r.append(files[i].as_str());
                r.append("\n");
                i += 1;
            }
            assert(files.deep_view().take(files.len() as int) =~= files.deep_view());
            r.append("File deletion hint: ");
            if *delete {
                r.append("true");
            } else {
                r.append("false");
            }
            r.append("\n");
            r
        },
        RunnerOutput::WrongUsage(error) => concat3("Wrong usage: ", error.as_str(), "\n"),
        RunnerOutput::NoOutput => String::new(),
    }
}

/// What a Discord reply shows of each output, with every backtick escaped:
/// plain output, cut to [`REPLY_LIMIT`] bytes, in an "Output:" block; the
/// errors of a run that printed nothing but whitespace, cut to
/// [`REPLY_LIMIT`] bytes, in an "Error:" block; otherwise both, each cut to
/// [`SHARED_REPLY_LIMIT`] bytes, output first. Files are sent with the
/// text, unless it is blank, and deleted as asked; a complaint is shown after
/// "Incorrect: "; no output sends nothing.
pub proof fn lemma_discord_reply(o: OutputView)
    requires
        discord_cuttable(o),
    ensures
        match o {
            OutputView::Output(t) => exists|c: Seq<char>|
                keeps_prefix(t, c, REPLY_LIMIT as int) && discord_reply_spec(o) == DiscordReplyView::Text(
                    "Output:\n```\n"@ + escape_backticks_spec(c) + "\n```"@,
                ),
            OutputView::WithError(out, err) => if trim_spec(out).len() == 0 {
                exists|c: Seq<char>|
                    keeps_prefix(err, c, REPLY_LIMIT as int) && discord_reply_spec(o)
                        == DiscordReplyView::Text(
                        "Error:\n```\n"@ + escape_backticks_spec(c) + "\n\n```"@,
                    )
            } else {
                exists|a: Seq<char>, b: Seq<char>|
                    keeps_prefix(out, a, SHARED_REPLY_LIMIT as int) && keeps_prefix(
                        err,
                        b,
                        SHARED_REPLY_LIMIT as int,
                    ) && discord_reply_spec(o) == DiscordReplyView::Text(
                        "Output:\n```\n"@ + escape_backticks_spec(a) + "\n\n```\nError:\n```\n"@
                            + escape_backticks_spec(b) + "\n```"@,
                    )
            },
            OutputView::WithFiles(out, files, delete) => discord_reply_spec(o)
                == DiscordReplyView::Files {
                content: if trim_spec(out).len() == 0 {
                    None
                } else {
                    Some(escape_backticks_spec(out))
                },
                files,
                delete,
            },
            OutputView::WrongUsage(e) => discord_reply_spec(o) == DiscordReplyView::Text(
                "Incorrect: "@ + escape_backticks_spec(e),
            ),
            OutputView::NoOutput => discord_reply_spec(o) == DiscordReplyView::Nothing,
        },
{
    match o {
        OutputView::Output(t) => {
            lemma_truncate_keeps_prefix(t, REPLY_LIMIT as int);
            let c = truncate_spec(t, REPLY_LIMIT as int);
            assert(keeps_prefix(t, c, REPLY_LIMIT as int));
        },
        OutputView::WithError(out, err) => {
            if trim_spec(out).len() == 0 {
                lemma_truncate_keeps_prefix(err, REPLY_LIMIT as int);
                let c = truncate_spec(err, REPLY_LIMIT as int);
                assert(keeps_prefix(err, c, REPLY_LIMIT as int));
            } else {
                lemma_truncate_keeps_prefix(out, SHARED_REPLY_LIMIT as int);
                lemma_truncate_keeps_prefix(err, SHARED_REPLY_LIMIT as int);
                let a = truncate_spec(out, SHARED_REPLY_LIMIT as int);
                let b = truncate_spec(err, SHARED_REPLY_LIMIT as int);
                assert(keeps_prefix(out, a, SHARED_REPLY_LIMIT as int));
                assert(keeps_prefix(err, b, SHARED_REPLY_LIMIT as int));
            }
        },
        _ => {},
    }
}

/// What a terminal shows of each output: the output under "Output:" and a
/// blank line, whole; after it, the errors following "Error:"; or the list
/// of created files, one "    - " line each, and whether they are to be
/// deleted; a complaint after "Wrong usage: "; and nothing for no output.
pub proof fn lemma_terminal_text(o: OutputView)
    ensures
        match o {
            OutputView::Output(t) => terminal_text_spec(o) == "Output:\n\n"@ + t + "\n"@,
            OutputView::WithError(t, e) => terminal_text_spec(o) == "Output:\n\n"@ + t + "\nError:"@
                + e + "\n"@,
            OutputView::WithFiles(t, files, delete) => terminal_text_spec(o) == "Output:\n\n"@ + t
                + "\n\n"@ + "The following files were also created\n"@ + file_list(files)
                + "File deletion hint: "@ + (if delete {
                "true"@
            } else {
                "false"@
            }) + "\n"@,
            OutputView::WrongUsage(e) => terminal_text_spec(o) == "Wrong usage: "@ + e + "\n"@,
            OutputView::NoOutput => terminal_text_spec(o).len() == 0,
        },
{
}

/// The list of files has one line per file, in order: listing one more file
/// adds its line at the end.
pub proof fn lemma_file_list(files: Seq<Seq<char>>, file: Seq<char>)
    ensures
        file_list(files.push(file)) == file_list(files) + "    - "@ + file + "\n"@,
        file_list(Seq::empty()).len() == 0,
{
    assert(files.push(file).drop_last() =~= files);
}

} // verus!
