//! Handlers that run the code of a fenced block: C, Haskell, Idris,
//! JavaScript, Common Lisp, and the video recoder whose block lists URLs.

use vstd::prelude::*;

use super::MrSnippet;
use crate::runner::{
    Either, Job, JobView, Mismatch, MismatchView, Report, Runner, RunnerView, Sandboxed,
    SandboxedView, Source,
};
use crate::text::{
    chars_of, find, find_spec, is_first_occurrence, is_last_occurrence, occurs_at, lemma_find_spec, lemma_rfind_spec, rfind, rfind_spec, split_range, split_spec, string_of_range,
};

verus! {

/// What a fence is made of.
pub open spec fn fence() -> Seq<char> {
    "```"@
}

/// What a handler answers when a block has no closing fence.
pub open spec fn missing_fence_message() -> Seq<char> {
    "You done fucked up, missing closing backtics"@
}

/// The block that opens with `tag`: `None` if `tag` does not occur; else
/// `Some(Some(code))` when a fence starts at or after the end of the first
/// `tag`, `code` running from there up to the last fence; else `Some(None)`:
/// the block is never closed.
pub open spec fn fenced_block(s: Seq<char>, tag: Seq<char>) -> Option<Option<Seq<char>>> {
    match find_spec(s, tag) {
        None => None,
        Some(i) => match rfind_spec(s, fence()) {
            Some(j) => if i + tag.len() <= j {
                Some(Some(s.subrange(i + tag.len(), j)))
            } else {
                Some(None)
            },
            None => Some(None),
        },
    }
}

/// The last fence does not start before the end of the first `tag`, so that
/// the text between them can be sliced out.
pub open spec fn fence_in_order(s: Seq<char>, tag: Seq<char>) -> bool {
    match (find_spec(s, tag), rfind_spec(s, fence())) {
        (Some(i), Some(j)) => i + tag.len() <= j,
        _ => true,
    }
}

/// The answer of a handler of blocks opened by `tag`, whose runner does
/// `job(code)` on the code of the block.
pub open spec fn block_answer(
    s: Seq<char>,
    tag: Seq<char>,
    service: Seq<char>,
    name: Seq<char>,
    job: spec_fn(Seq<char>) -> JobView,
) -> Either<RunnerView, MismatchView> {
    match fenced_block(s, tag) {
        None => Either::Right(MismatchView::Continue),
        Some(None) => Either::Right(MismatchView::WrongUsage(missing_fence_message())),
        Some(Some(code)) => Either::Left(RunnerView { service, name, job: job(code) }),
    }
}

/// The job that runs `code` with `program`, reporting the `report` way.
pub open spec fn run_code(
    program: Seq<char>,
    restricted: bool,
    extension: Seq<char>,
    report: Report,
    code: Seq<char>,
) -> JobView {
    JobView::Sandboxed(
        SandboxedView {
            program,
            restricted,
            arg: None,
            source: Some((code, extension)),
            report,
        },
    )
}

/// The bounds of the block opened by `tag` in `v`, as [`fenced_block`] says.
pub fn fenced_bounds(v: &Vec<char>, tag: &str) -> (r: Option<Option<(usize, usize)>>)
    ensures
        match fenced_block(v@, tag@) {
            None => r is None,
            Some(None) => r == Some(Option::<(usize, usize)>::None),
            Some(Some(code)) => r matches Some(Some((a, b))) && a <= b <= v.len() && code
                == v@.subrange(a as int, b as int),
        },
{
    let t = chars_of(tag);
    match find(v, &t) {
        None => None,
        Some(i) => {
            proof {
                lemma_find_spec(v@, tag@);
                assert(occurs_at(v@, t@, i as int));
            }
            let f = chars_of("```");
            match rfind(v, &f) {
                None => Some(None),
                Some(j) => {
                    proof {
                        lemma_rfind_spec(v@, fence());
                    }
                    assert(i + t@.len() <= v@.len() && v@.len() == v.len() && t@.len() == t.len());
                    if i + t.len() <= j {
                        Some(Some((i + t.len(), j)))
                    } else {
                        Some(None)
                    }
                },
            }
        },
    }
}

/// Whether the block opened by `tag` can be taken out of `v` ([`fence_in_order`]).
pub fn fence_ordered(v: &Vec<char>, tag: &str) -> (r: bool)
    ensures
        r == fence_in_order(v@, tag@),
{
    let t = chars_of(tag);
    let f = chars_of("```");
    match (find(v, &t), rfind(v, &f)) {
        (Some(i), Some(j)) => {
            proof {
                lemma_find_spec(v@, tag@);
            }
            i as u128 + t.len() as u128 <= j as u128
        },
        _ => true,
    }
}

/// Answers a message for a handler of blocks opened by `tag` whose runner
/// runs the code with `program`.
fn answer_code_block(
    content: &str,
    tag: &str,
    service: &str,
    name: &str,
    program: &str,
    restricted: bool,
    extension: &str,
    report: Report,
) -> (r: Either<Runner, Mismatch>)
    ensures
        r@ == block_answer(
            content@,
            tag@,
            service@,
            name@,
            |code: Seq<char>| run_code(program@, restricted, extension@, report, code),
        ),
{
    let v = chars_of(content);
    match fenced_bounds(&v, tag) {
        None => Either::Right(Mismatch::Continue),
        Some(None) => Either::Right(
            Mismatch::WrongUsage("You done fucked up, missing closing backtics".to_owned()),
        ),
        Some(Some((a, b))) => {
            let code = string_of_range(&v, a, b);
            let job = Job::Sandboxed(
                Sandboxed {
                    program: program.to_owned(),
                    restricted,
                    arg: None,
                    source: Some(Source { content: code, extension: extension.to_owned() }),
                    report,
                },
            );
            Either::Left(Runner::new(service, name, job))
        },
    }
}

/// The service for C needs no data so far, and so it is a unit struct.
#[derive(Clone, Copy)]
pub struct C;

impl MrSnippet for C {
    open spec fn answer(&self, content: Seq<char>) -> Either<RunnerView, MismatchView> {
        block_answer(
            content,
            "```c"@,
            "c"@,
            "c"@,
            |code: Seq<char>| run_code("c-runner"@, false, "c"@, Report::Truncated, code),
        )
    }

    open spec fn required_programs(&self) -> Seq<Seq<char>> {
        seq!["gcc"@, "c-runner"@]
    }

    fn dependencies(&self) -> (r: Vec<String>) {
        let r = vec!["gcc".to_owned(), "c-runner".to_owned()];
        assert(r.deep_view() =~= seq!["gcc"@, "c-runner"@]);
        r
    }

    open spec fn service_name(&self) -> Seq<char> {
        "c"@
    }

    fn name(&self) -> (r: &'static str) {
        "c"
    }

    fn try_or_continue(&self, content: &str) -> (r: Either<Runner, Mismatch>) {
        answer_code_block(content, "```c", "c", "c", "c-runner", false, "c", Report::Truncated)
    }
}


/// The block that a Haskell message uses can be taken out: the one opened by
/// "```hs" if there is one, else the one opened by "```haskell".
pub open spec fn haskell_fences_in_order(s: Seq<char>) -> bool {
    if fenced_block(s, "```hs"@) is Some {
        fence_in_order(s, "```hs"@)
    } else {
        fence_in_order(s, "```haskell"@)
    }
}

/// The C handler: the code of a closed "```c" block is run with
/// c-runner as a ".c" file; a failed run is reported with both what it printed and its errors, each cut ([`Report::Truncated`]). An unclosed block gets the complaint,
/// and a message without the tag lets the search continue.
pub proof fn lemma_c_handler(content: Seq<char>)
    ensures
        match fenced_block(content, "```c"@) {
            Some(Some(code)) => C.answer(content) == Either::<RunnerView, MismatchView>::Left(
                RunnerView {
                    service: "c"@,
                    name: "c"@,
                    job: JobView::Sandboxed(
                        SandboxedView {
                            program: "c-runner"@,
                            restricted: false,
                            arg: None,
                            source: Some((code, "c"@)),
                            report: Report::Truncated,
                        },
                    ),
                },
            ),
            Some(None) => C.answer(content) == Either::<RunnerView, MismatchView>::Right(
                MismatchView::WrongUsage(missing_fence_message()),
            ),
            None => C.answer(content) == Either::<RunnerView, MismatchView>::Right(
                MismatchView::Continue,
            ),
        },
{
}
/// The Idris handler: the code of a closed "```idris" block is run with
/// idris-runner as a ".hs" file; in the restricted sandbox, and its output and errors are reported whole ([`Report::Whole`]). An unclosed block gets the complaint,
/// and a message without the tag lets the search continue.
pub proof fn lemma_idris_handler(content: Seq<char>)
    ensures
        match fenced_block(content, "```idris"@) {
            Some(Some(code)) => Idris.answer(content) == Either::<RunnerView, MismatchView>::Left(
                RunnerView {
                    service: "idris"@,
                    name: "idris"@,
                    job: JobView::Sandboxed(
                        SandboxedView {
                            program: "idris-runner"@,
                            restricted: true,
                            arg: None,
                            source: Some((code, "hs"@)),
                            report: Report::Whole,
                        },
                    ),
                },
            ),
            Some(None) => Idris.answer(content) == Either::<RunnerView, MismatchView>::Right(
                MismatchView::WrongUsage(missing_fence_message()),
            ),
            None => Idris.answer(content) == Either::<RunnerView, MismatchView>::Right(
                MismatchView::Continue,
            ),
        },
{
}
/// The JS handler: the code of a closed "```js" block is run with
/// js-runner as a ".js" file; a failed run is reported with both what it printed and its errors, each cut ([`Report::Truncated`]). An unclosed block gets the complaint,
/// and a message without the tag lets the search continue.
pub proof fn lemma_js_handler(content: Seq<char>)
    ensures
        match fenced_block(content, "```js"@) {
            Some(Some(code)) => JS.answer(content) == Either::<RunnerView, MismatchView>::Left(
                RunnerView {
                    service: "js"@,
                    name: "js"@,
                    job: JobView::Sandboxed(
                        SandboxedView {
                            program: "js-runner"@,
                            restricted: false,
                            arg: None,
                            source: Some((code, "js"@)),
                            report: Report::Truncated,
                        },
                    ),
                },
            ),
            Some(None) => JS.answer(content) == Either::<RunnerView, MismatchView>::Right(
                MismatchView::WrongUsage(missing_fence_message()),
            ),
            None => JS.answer(content) == Either::<RunnerView, MismatchView>::Right(
                MismatchView::Continue,
            ),
        },
{
}
/// The Lisp handler: the code of a closed "```lisp" block is run with
/// lisp-runner as a ".lisp" file; a failed run is reported with both what it printed and its errors, each cut ([`Report::Truncated`]). An unclosed block gets the complaint,
/// and a message without the tag lets the search continue.
pub proof fn lemma_lisp_handler(content: Seq<char>)
    ensures
        match fenced_block(content, "```lisp"@) {
            Some(Some(code)) => Lisp.answer(content) == Either::<RunnerView, MismatchView>::Left(
                RunnerView {
                    service: "lisp"@,
                    name: "lisp"@,
                    job: JobView::Sandboxed(
                        SandboxedView {
                            program: "lisp-runner"@,
                            restricted: false,
                            arg: None,
                            source: Some((code, "lisp"@)),
                            report: Report::Truncated,
                        },
                    ),
                },
            ),
            Some(None) => Lisp.answer(content) == Either::<RunnerView, MismatchView>::Right(
                MismatchView::WrongUsage(missing_fence_message()),
            ),
            None => Lisp.answer(content) == Either::<RunnerView, MismatchView>::Right(
                MismatchView::Continue,
            ),
        },
{
}
/// The Haskell handler: the code of a "```hs" block if the message has one,
/// else of a "```haskell" block, is run with haskell-runner as a ".hs" file;
/// a successful run reports what it printed, a failed one only its errors
/// ([`Report::ErrorsOnly`]). An unclosed block gets the complaint, and a
/// message without either tag lets the search continue.
pub proof fn lemma_haskell_handler(content: Seq<char>)
    ensures
        fenced_block(content, "```hs"@) is Some ==> match fenced_block(content, "```hs"@) {
            Some(Some(code)) => Haskell.answer(content) == Either::<RunnerView, MismatchView>::Left(
                RunnerView {
                    service: "haskell"@,
                    name: "haskell"@,
                    job: JobView::Sandboxed(
                        SandboxedView {
                            program: "haskell-runner"@,
                            restricted: false,
                            arg: None,
                            source: Some((code, "hs"@)),
                            report: Report::ErrorsOnly,
                        },
                    ),
                },
            ),
            Some(None) => Haskell.answer(content) == Either::<RunnerView, MismatchView>::Right(
                MismatchView::WrongUsage(missing_fence_message()),
            ),
            None => Haskell.answer(content) == Either::<RunnerView, MismatchView>::Right(
                MismatchView::Continue,
            ),
        },
        fenced_block(content, "```hs"@) is None ==> match fenced_block(content, "```haskell"@) {
            Some(Some(code)) => Haskell.answer(content) == Either::<RunnerView, MismatchView>::Left(
                RunnerView {
                    service: "haskell"@,
                    name: "haskell"@,
                    job: JobView::Sandboxed(
                        SandboxedView {
                            program: "haskell-runner"@,
                            restricted: false,
                            arg: None,
                            source: Some((code, "hs"@)),
                            report: Report::ErrorsOnly,
                        },
                    ),
                },
            ),
            Some(None) => Haskell.answer(content) == Either::<RunnerView, MismatchView>::Right(
                MismatchView::WrongUsage(missing_fence_message()),
            ),
            None => Haskell.answer(content) == Either::<RunnerView, MismatchView>::Right(
                MismatchView::Continue,
            ),
        },
{
}

/// The video handler: the lines of a closed "```h264ify" block are the URLs
/// of the videos to recode, in order. An unclosed block gets the complaint,
/// and a message without the tag lets the search continue.
pub proof fn lemma_h264ify_handler(content: Seq<char>)
    ensures
        match fenced_block(content, "```h264ify"@) {
            Some(Some(code)) => H264ify.answer(content) == Either::<RunnerView, MismatchView>::Left(
                RunnerView {
                    service: "h264ify"@,
                    name: "h264ify"@,
                    job: JobView::Recode(split_spec(code, '\n')),
                },
            ),
            Some(None) => H264ify.answer(content) == Either::<RunnerView, MismatchView>::Right(
                MismatchView::WrongUsage(missing_fence_message()),
            ),
            None => H264ify.answer(content) == Either::<RunnerView, MismatchView>::Right(
                MismatchView::Continue,
            ),
        },
{
}

/// The block opened by `tag`: none where `tag` does not occur; where it
/// does, the code runs from the end of its first occurrence up to the start
/// of the last fence, when that fence starts there or later; otherwise the
/// block is never closed.
pub proof fn lemma_fenced_block(s: Seq<char>, tag: Seq<char>)
    ensures
        fenced_block(s, tag) is None <==> forall|k: int| !occurs_at(s, tag, k),
        fenced_block(s, tag) matches Some(Some(code)) ==> exists|i: int, j: int|
            is_first_occurrence(s, tag, i) && is_last_occurrence(s, fence(), j) && i + tag.len()
                <= j && code == s.subrange(i + tag.len(), j),
        fenced_block(s, tag) == Some(Option::<Seq<char>>::None) ==> (exists|i: int|
            is_first_occurrence(s, tag, i)) && forall|i: int, j: int|
            #![trigger is_first_occurrence(s, tag, i), occurs_at(s, fence(), j)]
            is_first_occurrence(s, tag, i) && occurs_at(s, fence(), j) ==> j < i + tag.len(),
{
    lemma_find_spec(s, tag);
    lemma_rfind_spec(s, fence());
    if let Some(i) = find_spec(s, tag) {
        assert(is_first_occurrence(s, tag, i));
        assert forall|a: int| is_first_occurrence(s, tag, a) implies a == i by {
            if a < i {
                assert(!occurs_at(s, tag, a));
            } else if a > i {
                assert(!occurs_at(s, tag, i));
            }
        }
        if let Some(j) = rfind_spec(s, fence()) {
            assert(is_last_occurrence(s, fence(), j));
        }
    }
}

/// Whether the block that a Haskell message uses can be taken out
/// ([`haskell_fences_in_order`]).
pub fn haskell_fences_ordered(content: &str) -> (r: bool)
    ensures
        r == haskell_fences_in_order(content@),
{
    let v = chars_of(content);
    let short = chars_of("```hs");
    proof {
        lemma_find_spec(v@, short@);
    }
    if find(&v, &short).is_some() {
        fence_ordered(&v, "```hs")
    } else {
        fence_ordered(&v, "```haskell")
    }
}

/// The service for Haskell needs no data so far, and so it is a unit struct.
#[derive(Clone, Copy)]
pub struct Haskell;

impl MrSnippet for Haskell {
    /// A block opened by "```hs" if there is one, else one opened by "```haskell".
    open spec fn answer(&self, content: Seq<char>) -> Either<RunnerView, MismatchView> {
        let job = |code: Seq<char>|
            run_code("haskell-runner"@, false, "hs"@, Report::ErrorsOnly, code);
        if fenced_block(content, "```hs"@) is Some {
            block_answer(content, "```hs"@, "haskell"@, "haskell"@, job)
        } else {
            block_answer(content, "```haskell"@, "haskell"@, "haskell"@, job)
        }
    }

    open spec fn required_programs(&self) -> Seq<Seq<char>> {
        Seq::<Seq<char>>::empty()
    }

    fn dependencies(&self) -> (r: Vec<String>) {
        let r: Vec<String> = Vec::new();
        assert(r.deep_view() =~= Seq::<Seq<char>>::empty());
        r
    }

    open spec fn service_name(&self) -> Seq<char> {
        "haskell"@
    }

    fn name(&self) -> (r: &'static str) {
        "haskell"
    }

    fn try_or_continue(&self, content: &str) -> (r: Either<Runner, Mismatch>) {
        let v = chars_of(content);
        let short = chars_of("```hs");
        proof {
            lemma_find_spec(v@, short@);
        }
        if find(&v, &short).is_some() {
            answer_code_block(
                content,
                "```hs",
                "haskell",
                "haskell",
                "haskell-runner",
                false,
                "hs",
                Report::ErrorsOnly,
            )
        } else {
            answer_code_block(
                content,
                "```haskell",
                "haskell",
                "haskell",
                "haskell-runner",
                false,
                "hs",
                Report::ErrorsOnly,
            )
        }
    }
}

/// The service for Idris needs no data so far, and so it is a unit struct.
/// Its programs run with the limits of the environment.
#[derive(Clone, Copy)]
pub struct Idris;

impl MrSnippet for Idris {
    open spec fn answer(&self, content: Seq<char>) -> Either<RunnerView, MismatchView> {
        block_answer(
            content,
            "```idris"@,
            "idris"@,
            "idris"@,
            |code: Seq<char>| run_code("idris-runner"@, true, "hs"@, Report::Whole, code),
        )
    }

    open spec fn required_programs(&self) -> Seq<Seq<char>> {
        seq!["idris2"@, "idris-runner"@, "chez"@]
    }

    fn dependencies(&self) -> (r: Vec<String>) {
        let r = vec!["idris2".to_owned(), "idris-runner".to_owned(), "chez".to_owned()];
        assert(r.deep_view() =~= seq!["idris2"@, "idris-runner"@, "chez"@]);
        r
    }

    open spec fn service_name(&self) -> Seq<char> {
        "idris"@
    }

    fn name(&self) -> (r: &'static str) {
        "idris"
    }

    fn try_or_continue(&self, content: &str) -> (r: Either<Runner, Mismatch>) {
        answer_code_block(content, "```idris", "idris", "idris", "idris-runner", true, "hs", Report::Whole)
    }
}

/// The service for JS needs no data so far, and so it is a unit struct.
#[derive(Clone, Copy)]
pub struct JS;

impl MrSnippet for JS {
    open spec fn answer(&self, content: Seq<char>) -> Either<RunnerView, MismatchView> {
        block_answer(
            content,
            "```js"@,
            "js"@,
            "js"@,
            |code: Seq<char>| run_code("js-runner"@, false, "js"@, Report::Truncated, code),
        )
    }

    open spec fn required_programs(&self) -> Seq<Seq<char>> {
        seq!["js-runner"@, "node"@]
    }

    fn dependencies(&self) -> (r: Vec<String>) {
        let r = vec!["js-runner".to_owned(), "node".to_owned()];
        assert(r.deep_view() =~= seq!["js-runner"@, "node"@]);
        r
    }

    open spec fn service_name(&self) -> Seq<char> {
        "js"@
    }

    fn name(&self) -> (r: &'static str) {
        "js"
    }

    fn try_or_continue(&self, content: &str) -> (r: Either<Runner, Mismatch>) {
        answer_code_block(content, "```js", "js", "js", "js-runner", false, "js", Report::Truncated)
    }
}

/// The service for Lisp needs no data so far, and so it is a unit struct.
#[derive(Clone, Copy)]
pub struct Lisp;

impl MrSnippet for Lisp {
    open spec fn answer(&self, content: Seq<char>) -> Either<RunnerView, MismatchView> {
        block_answer(
            content,
            "```lisp"@,
            "lisp"@,
            "lisp"@,
            |code: Seq<char>| run_code("lisp-runner"@, false, "lisp"@, Report::Truncated, code),
        )
    }

    open spec fn required_programs(&self) -> Seq<Seq<char>> {
        seq!["clisp"@]
    }

    fn dependencies(&self) -> (r: Vec<String>) {
        let r = vec!["clisp".to_owned()];
        assert(r.deep_view() =~= seq!["clisp"@]);
        r
    }

    open spec fn service_name(&self) -> Seq<char> {
        "lisp"@
    }

    fn name(&self) -> (r: &'static str) {
        "lisp"
    }

    fn try_or_continue(&self, content: &str) -> (r: Either<Runner, Mismatch>) {
        answer_code_block(content, "```lisp", "lisp", "lisp", "lisp-runner", false, "lisp", Report::Truncated)
    }
}

/// The h264ify service converts videos from different codecs to h264 so that
/// previewing them works on official Discord clients. Its block holds the
/// URLs of the videos, one per line.
#[derive(Clone, Copy)]
pub struct H264ify;

impl MrSnippet for H264ify {
    open spec fn answer(&self, content: Seq<char>) -> Either<RunnerView, MismatchView> {
        block_answer(
            content,
            "```h264ify"@,
            "h264ify"@,
            "h264ify"@,
            |code: Seq<char>| JobView::Recode(split_spec(code, '\n')),
        )
    }

    open spec fn required_programs(&self) -> Seq<Seq<char>> {
        seq!["ffmpeg"@]
    }

    fn dependencies(&self) -> (r: Vec<String>) {
        let r = vec!["ffmpeg".to_owned()];
        assert(r.deep_view() =~= seq!["ffmpeg"@]);
        r
    }

    open spec fn service_name(&self) -> Seq<char> {
        "h264ify"@
    }

    fn name(&self) -> (r: &'static str) {
        "h264ify"
    }

    fn try_or_continue(&self, content: &str) -> (r: Either<Runner, Mismatch>) {
        let v = chars_of(content);
        match fenced_bounds(&v, "```h264ify") {
            None => Either::Right(Mismatch::Continue),
            Some(None) => Either::Right(
                Mismatch::WrongUsage("You done fucked up, missing closing backtics".to_owned()),
            ),
            Some(Some((a, b))) => {
                let urls = split_range(&v, a, b, '\n');
                Either::Left(Runner::new("h264ify", "h264ify", Job::Recode(urls)))
            },
        }
    }
}

} // verus!
