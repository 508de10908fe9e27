//! The first bot: a message that mentions it and holds a Haskell block is
//! compiled with `ghc` in `/tmp`, the program is run as another user under
//! limits, and the output or the errors are sent back.

use vstd::prelude::*;

use crate::cmd::{lemma_limit_read_back, opt_view, restricted_view, sandbox_args, Environment};
use crate::snippets::code::{fenced_block, fenced_bounds, haskell_fences_in_order};
use crate::text::{
    can_truncate, chars_of, decimal, find, keeps_prefix, lemma_find_spec, lemma_truncate_keeps_prefix, decimal_spec, split_whitespace, string_of_range, truncatable, truncate,
    truncate_spec, words_spec,
};

verus! {

/// Where the bot compiles and runs programs.
pub open spec fn work_dir() -> Seq<char> {
    "/tmp"@
}

/// How the replies are laid out.
#[derive(PartialEq, Eq, Structural, Clone, Copy)]
pub enum ReplyStyle {
    /// The text follows the opening fence directly.
    Inline,
    /// The text starts on the line after the opening fence.
    Block,
}

/// Bytes of standard error kept in a reply.
pub const ERROR_LIMIT: usize = 1950;
/// Bytes of standard output kept in a reply.
pub const OUTPUT_LIMIT: usize = 1984;

/// The code a message asks the bot to run: the block opened by "```hs" if
/// there is one, else the block opened by "```haskell"; nothing unless the
/// message mentions the bot.
pub open spec fn haskell_request_spec(content: Seq<char>, mentioned: bool) -> Option<Seq<char>> {
    if !mentioned {
        None
    } else {
        match fenced_block(content, "```hs"@) {
            Some(block) => block,
            None => match fenced_block(content, "```haskell"@) {
                Some(block) => block,
                None => None,
            },
        }
    }
}

/// The code a message asks the bot to run, if any.
pub fn haskell_request(content: &str, mentioned: bool) -> (r: Option<String>)
    requires
        mentioned ==> haskell_fences_in_order(content@),
    ensures
        match r {
            Some(code) => haskell_request_spec(content@, mentioned) == Some(code@),
            None => haskell_request_spec(content@, mentioned) is None,
        },
{
    if !mentioned {
        return None;
    }
    let v = chars_of(content);
    let short = chars_of("```hs");
    proof {
        lemma_find_spec(v@, short@);
    }
    let bounds = if find(&v, &short).is_some() {
        match fenced_bounds(&v, "```hs") {
            Some(b) => b,
            None => None,
        }
    } else {
        match fenced_bounds(&v, "```haskell") {
            Some(b) => b,
            None => None,
        }
    };
    match bounds {
        Some((a, b)) => Some(string_of_range(&v, a, b)),
        None => None,
    }
}

/// The file that the code of message `id` is written to.
pub open spec fn source_path_spec(id: u64) -> Seq<char> {
    "/tmp/"@ + decimal_spec(id as nat) + ".hs"@
}

/// The file that the code of message `id` is written to.
pub fn source_path(id: u64) -> (r: String)
    ensures
        r@ == source_path_spec(id),
{
    let mut r = "/tmp/".to_owned();
    r.append(decimal(id).as_str());
    r.append(".hs");
    r
}

/// The arguments to `ghc`, run in `/tmp`, that compile the code of message
/// `id` into a program named after it, with the words of `ghc_args` (the
/// `GHC_ARGS` variable) as extra options.
pub open spec fn ghc_arguments_spec(id: u64, ghc_args: Seq<char>) -> Seq<Seq<char>> {
    seq!["-o"@, decimal_spec(id as nat)] + words_spec(ghc_args) + seq![decimal_spec(id as nat) + ".hs"@]
}

/// The arguments to `ghc` for message `id` ([`ghc_arguments_spec`]).
pub fn ghc_arguments(id: u64, ghc_args: &str) -> (r: Vec<String>)
    ensures
        r.deep_view() == ghc_arguments_spec(id, ghc_args@),
{
    let name = decimal(id);
    let mut r: Vec<String> = vec!["-o".to_owned(), name.clone()];
    let words = split_whitespace(ghc_args);
    let ghost head = r.deep_view();
    assert(head =~= seq!["-o"@, decimal_spec(id as nat)]);
    let mut i: usize = 0;
    while i < words.len()
        invariant
            i <= words.len(),
            r.deep_view() == head + words.deep_view().take(i as int),
        decreases words.len() - i,
    {
        let w = words[i].clone();
        let ghost before = r.deep_view();
        r.push(w);
        assert(r.deep_view() =~= before.push(words.deep_view()[i as int]));
        assert(words.deep_view().take(i + 1) =~= words.deep_view().take(i as int).push(
            words.deep_view()[i as int],
        ));
        i += 1;
    }
    assert(words.deep_view().take(words.len() as int) =~= words.deep_view());
    let mut file = name;
    file.append(".hs");
    let ghost before = r.deep_view();
    r.push(file);
    assert(r.deep_view() =~= before.push(decimal_spec(id as nat) + ".hs"@));
    r
}

/// A variable of the environment, or `default` where it is unset.
pub open spec fn var_or(v: Option<Seq<char>>, default: Seq<char>) -> Seq<char> {
    match v {
        Some(s) => s,
        None => default,
    }
}

fn var_or_exec(v: &Option<String>, default: &str) -> (r: String)
    ensures
        r@ == var_or(opt_view(*v), default@),
{
    match v {
        Some(s) => s.clone(),
        None => default.to_owned(),
    }
}

/// The arguments to `sudo`, run in `/tmp`, that run the program of message
/// `id` as the `KAMELI_RUNUSER` user (`runhaskell` by default) under the
/// `KAMELI_*` limits, taken as they are written (10 s, 1000000000 bytes,
/// 40000, 1 process by default).
pub open spec fn runghc_arguments_spec(id: u64, env: Environment) -> Seq<Seq<char>> {
    seq![
        "-u"@,
        var_or(opt_view(env.run_user), "runhaskell"@),
        "timeout"@,
        "-s"@,
        "KILL"@,
        var_or(opt_view(env.time_limit), "10"@),
        "s6-softlimit"@,
        "-a"@,
        var_or(opt_view(env.memory_limit), "1000000000"@),
        "-f"@,
        var_or(opt_view(env.file_limit), "40000"@),
        "-p"@,
        var_or(opt_view(env.process_limit), "1"@),
        "./"@ + decimal_spec(id as nat),
    ]
}

/// The arguments to `sudo` that run the program of message `id`
/// ([`runghc_arguments_spec`]).
pub fn runghc_arguments(id: u64, env: &Environment) -> (r: Vec<String>)
    ensures
        r.deep_view() == runghc_arguments_spec(id, *env),
{
    let mut program = "./".to_owned();
    program.append(decimal(id).as_str());
    let r = vec![
        "-u".to_owned(),
        var_or_exec(&env.run_user, "runhaskell"),
        "timeout".to_owned(),
        "-s".to_owned(),
        "KILL".to_owned(),
        var_or_exec(&env.time_limit, "10"),
        "s6-softlimit".to_owned(),
        "-a".to_owned(),
        var_or_exec(&env.memory_limit, "1000000000"),
        "-f".to_owned(),
        var_or_exec(&env.file_limit, "40000"),
        "-p".to_owned(),
        var_or_exec(&env.process_limit, "1"),
        program,
    ];
    assert(r.deep_view() =~= seq![
        "-u"@,
        var_or(opt_view(env.run_user), "runhaskell"@),
        "timeout"@,
        "-s"@,
        "KILL"@,
        var_or(opt_view(env.time_limit), "10"@),
        "s6-softlimit"@,
        "-a"@,
        var_or(opt_view(env.memory_limit), "1000000000"@),
        "-f"@,
        var_or(opt_view(env.file_limit), "40000"@),
        "-p"@,
        var_or(opt_view(env.process_limit), "1"@),
        "./"@ + decimal_spec(id as nat),
    ]);
    r
}

/// Whether the work files are removed once the reply is sent: always with
/// block replies; with inline replies only after the program compiled and
/// ran successfully.
pub open spec fn cleans_up_spec(style: ReplyStyle, compiled: bool, success: bool) -> bool {
    match style {
        ReplyStyle::Block => true,
        ReplyStyle::Inline => compiled && success,
    }
}

/// Whether the work files are removed once the reply is sent.
pub fn cleans_up(style: ReplyStyle, compiled: bool, success: bool) -> (r: bool)
    ensures
        r == cleans_up_spec(style, compiled, success),
{
    match style {
        ReplyStyle::Block => true,
        ReplyStyle::Inline => compiled && success,
    }
}

/// The files that compiling and running message `id` leaves in `/tmp`.
pub open spec fn work_files_spec(id: u64) -> Seq<Seq<char>> {
    seq![
        "/tmp/"@ + decimal_spec(id as nat) + ".hs"@,
        "/tmp/"@ + decimal_spec(id as nat),
        "/tmp/"@ + decimal_spec(id as nat) + ".hi"@,
        "/tmp/"@ + decimal_spec(id as nat) + ".o"@,
    ]
}

/// The files that compiling and running message `id` leaves in `/tmp`.
pub fn work_files(id: u64) -> (r: Vec<String>)
    ensures
        r.deep_view() == work_files_spec(id),
{
    let name = decimal(id);
    let mut base = "/tmp/".to_owned();
    base.append(name.as_str());
    let mut hs = base.clone();
    hs.append(".hs");
    let mut hi = base.clone();
    hi.append(".hi");
    let mut o = base.clone();
    o.append(".o");
    let r = vec![hs, base, hi, o];
    assert(r.deep_view() =~= seq![
        "/tmp/"@ + decimal_spec(id as nat) + ".hs"@,
        "/tmp/"@ + decimal_spec(id as nat),
        "/tmp/"@ + decimal_spec(id as nat) + ".hi"@,
        "/tmp/"@ + decimal_spec(id as nat) + ".o"@,
    ]);
    r
}

/// The opening of a block in `style`.
pub open spec fn opening(style: ReplyStyle) -> Seq<char> {
    match style {
        ReplyStyle::Inline => "```"@,
        ReplyStyle::Block => "```\n"@,
    }
}

fn opening_exec(style: ReplyStyle) -> (r: &'static str)
    ensures
        r@ == opening(style),
{
    match style {
        ReplyStyle::Inline => "```",
        ReplyStyle::Block => "```\n",
    }
}

/// The reply when `ghc` fails, showing all it printed on standard error.
pub open spec fn compile_error_reply_spec(style: ReplyStyle, stderr: Seq<char>) -> Seq<char> {
    match style {
        ReplyStyle::Inline => "Error compiling the code: ```\n"@ + stderr + "```"@,
        ReplyStyle::Block => "Error compiling the code:\n```\n"@ + stderr + "```"@,
    }
}

/// The reply when `ghc` fails.
pub fn compile_error_reply(style: ReplyStyle, stderr: &str) -> (r: String)
    ensures
        r@ == compile_error_reply_spec(style, stderr@),
{
    let mut r = match style {
        ReplyStyle::Inline => "Error compiling the code: ```\n".to_owned(),
        ReplyStyle::Block => "Error compiling the code:\n```\n".to_owned(),
    };
    r.append(stderr);
    r.append("```");
    r
}

/// The reply once the program has run: its standard error, cut to
/// [`ERROR_LIMIT`] bytes, if it failed; else its standard output, cut to
/// [`OUTPUT_LIMIT`] bytes.
pub open spec fn run_reply_spec(style: ReplyStyle, success: bool, stdout: Seq<char>, stderr: Seq<char>) -> Seq<char> {
    if !success {
        "Code ran unsuccessfully\n"@ + opening(style) + truncate_spec(stderr, ERROR_LIMIT as int)
            + "```"@
    } else {
        "output\n"@ + opening(style) + truncate_spec(stdout, OUTPUT_LIMIT as int) + "```"@
    }
}

/// The cuts that the run reply makes do not split a character: standard
/// error is always cut, standard output only after a success.
pub open spec fn run_reply_cuttable(success: bool, stdout: Seq<char>, stderr: Seq<char>) -> bool {
    truncatable(stderr, ERROR_LIMIT as int) && (success ==> truncatable(stdout, OUTPUT_LIMIT as int))
}

/// Whether [`run_reply`] can cut the outputs ([`run_reply_cuttable`]).
pub fn run_reply_can_cut(success: bool, stdout: &str, stderr: &str) -> (r: bool)
    ensures
        r == run_reply_cuttable(success, stdout@, stderr@),
{
    can_truncate(stderr, ERROR_LIMIT) && (!success || can_truncate(stdout, OUTPUT_LIMIT))
}

/// The reply once the program has run.
pub fn run_reply(style: ReplyStyle, success: bool, stdout: String, stderr: String) -> (r: String)
    requires
        run_reply_cuttable(success, stdout@, stderr@),
    ensures
        r@ == run_reply_spec(style, success, stdout@, stderr@),
{
    let mut stdout = stdout;
    let mut stderr = stderr;
    truncate(&mut stderr, ERROR_LIMIT);
    if !success {
        let mut r = "Code ran unsuccessfully\n".to_owned();
        r.append(opening_exec(style));
        r.append(stderr.as_str());
        r.append("```");
        r
    } else {
        truncate(&mut stdout, OUTPUT_LIMIT);
        let mut r = "output\n".to_owned();
        r.append(opening_exec(style));
        r.append(stdout.as_str());
        r.append("```");
        r
    }
}

/// The pieces of one run fit together: `ghc` compiles the file that the
/// code is written to (seen from `/tmp`) into a program named after the
/// message, with the words of `GHC_ARGS` in between and nothing else;
/// `sudo` then runs that same program and nothing else; and the files
/// removed afterwards are that source, that program, and the `.hi` and `.o`
/// files `ghc` leaves beside them.
pub proof fn lemma_haskell_run_fits(id: u64, ghc_args: Seq<char>, env: Environment)
    ensures
        ({
            let g = ghc_arguments_spec(id, ghc_args);
            let r = runghc_arguments_spec(id, env);
            let w = work_files_spec(id);
            &&& g.len() == words_spec(ghc_args).len() + 3
            &&& g[0] == "-o"@
            &&& g.subrange(2, g.len() - 1) == words_spec(ghc_args)
            &&& "/tmp/"@ + g.last() == source_path_spec(id)
            &&& r.last() == "./"@ + g[1]
            &&& w[0] == source_path_spec(id)
            &&& w[1] == "/tmp/"@ + g[1]
            &&& w[2] == "/tmp/"@ + g[1] + ".hi"@
            &&& w[3] == "/tmp/"@ + g[1] + ".o"@
        }),
{
    let g = ghc_arguments_spec(id, ghc_args);
    assert(g.subrange(2, g.len() - 1) =~= words_spec(ghc_args));
    assert("/tmp/"@ + (decimal_spec(id as nat) + ".hs"@) =~= "/tmp/"@ + decimal_spec(id as nat) + ".hs"@);
}

/// The first bot runs programs under the same limits as a restricted
/// command of the second: where the four limit variables hold decimal
/// numbers and `KAMELI_RUNUSER` is set, its `sudo` arguments up to the
/// program are those of the sandbox of [`Command::new`](crate::cmd::Command::new).
pub proof fn lemma_runghc_limits_match_sandbox(
    id: u64,
    env: Environment,
    program: Seq<char>,
    ghc_args: Seq<char>,
    p: nat,
    m: nat,
    f: nat,
    t: nat,
)
    requires
        p <= usize::MAX,
        m <= usize::MAX,
        f <= usize::MAX,
        t <= usize::MAX,
        opt_view(env.process_limit) == Some(decimal_spec(p)),
        opt_view(env.memory_limit) == Some(decimal_spec(m)),
        opt_view(env.file_limit) == Some(decimal_spec(f)),
        opt_view(env.time_limit) == Some(decimal_spec(t)),
        env.run_user is Some,
    ensures
        runghc_arguments_spec(id, env).take(13) == sandbox_args(restricted_view(program, env), ghc_args).take(
            13,
        ),
{
    lemma_limit_read_back(p, 0);
    lemma_limit_read_back(m, 0);
    lemma_limit_read_back(f, 0);
    lemma_limit_read_back(t, 0);
    assert(runghc_arguments_spec(id, env).take(13) =~= sandbox_args(
        restricted_view(program, env),
        ghc_args,
    ).take(13));
}

/// The bot only runs code for messages that mention it; then it runs the
/// block opened by "```hs" when the message has that tag, else the block
/// opened by "```haskell"; an unclosed block, or a message with neither tag,
/// runs nothing.
pub proof fn lemma_haskell_request(content: Seq<char>)
    ensures
        haskell_request_spec(content, false) is None,
        fenced_block(content, "```hs"@) matches Some(b) ==> haskell_request_spec(content, true) == b,
        fenced_block(content, "```hs"@) is None ==> haskell_request_spec(content, true) == match fenced_block(
            content,
            "```haskell"@,
        ) {
            Some(b) => b,
            None => None,
        },
{
}

/// The work files are always removed after a block reply; after an inline
/// reply, only once the program compiled and ran successfully, so that a
/// failure leaves them to look at.
pub proof fn lemma_cleans_up(compiled: bool, success: bool)
    ensures
        cleans_up_spec(ReplyStyle::Block, compiled, success),
        cleans_up_spec(ReplyStyle::Inline, compiled, success) <==> compiled && success,
{
}

/// A failed run is answered with its errors, in either style: a heading,
/// an opening fence, what keeping [`ERROR_LIMIT`] bytes of standard error
/// leaves, and a closing fence. What the program printed on standard
/// output plays no part, and the two styles differ only in the line break
/// that block replies put after the opening fence.
pub proof fn lemma_failed_run_reply(stdout: Seq<char>, other_stdout: Seq<char>, stderr: Seq<char>)
    requires
        truncatable(stderr, ERROR_LIMIT as int),
    ensures
        exists|e: Seq<char>|
            {
                &&& keeps_prefix(stderr, e, ERROR_LIMIT as int)
                &&& run_reply_spec(ReplyStyle::Inline, false, stdout, stderr)
                    == "Code ran unsuccessfully\n"@ + "```"@ + e + "```"@
                &&& run_reply_spec(ReplyStyle::Block, false, other_stdout, stderr)
                    == "Code ran unsuccessfully\n"@ + "```\n"@ + e + "```"@
            },
{
    let e = truncate_spec(stderr, ERROR_LIMIT as int);
    lemma_truncate_keeps_prefix(stderr, ERROR_LIMIT as int);
    assert(keeps_prefix(stderr, e, ERROR_LIMIT as int));
}

/// A successful run is answered with what it printed, in either style: a
/// heading, an opening fence, what keeping [`OUTPUT_LIMIT`] bytes of
/// standard output leaves, and a closing fence. What the program printed on
/// standard error plays no part, and the two styles differ only in the line
/// break that block replies put after the opening fence.
pub proof fn lemma_successful_run_reply(stdout: Seq<char>, stderr: Seq<char>, other_stderr: Seq<char>)
    requires
        truncatable(stdout, OUTPUT_LIMIT as int),
    ensures
        exists|o: Seq<char>|
            {
                &&& keeps_prefix(stdout, o, OUTPUT_LIMIT as int)
                &&& run_reply_spec(ReplyStyle::Inline, true, stdout, stderr) == "output\n"@ + "```"@
                    + o + "```"@
                &&& run_reply_spec(ReplyStyle::Block, true, stdout, other_stderr) == "output\n"@
                    + "```\n"@ + o + "```"@
            },
{
    let o = truncate_spec(stdout, OUTPUT_LIMIT as int);
    lemma_truncate_keeps_prefix(stdout, OUTPUT_LIMIT as int);
    assert(keeps_prefix(stdout, o, OUTPUT_LIMIT as int));
}

/// A failed compilation is answered with everything `ghc` printed on
/// standard error, uncut, between an opening and a closing fence, in either
/// style; the styles differ only in the heading's line break.
pub proof fn lemma_compile_error_reply(stderr: Seq<char>)
    ensures
        compile_error_reply_spec(ReplyStyle::Inline, stderr) == "Error compiling the code: "@ + "```\n"@
            + stderr + "```"@,
        compile_error_reply_spec(ReplyStyle::Block, stderr) == "Error compiling the code:\n"@
            + "```\n"@ + stderr + "```"@,
{
    reveal_strlit("Error compiling the code: ```\n");
    reveal_strlit("Error compiling the code: ");
    reveal_strlit("```\n");
    reveal_strlit("Error compiling the code:\n```\n");
    reveal_strlit("Error compiling the code:\n");
    assert("Error compiling the code: ```\n"@ =~= "Error compiling the code: "@ + "```\n"@);
    assert("Error compiling the code:\n```\n"@ =~= "Error compiling the code:\n"@ + "```\n"@);
}

} // verus!
