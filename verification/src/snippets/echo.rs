//! A testing handler that just echoes text back, and the WHOIS handler.

use vstd::prelude::*;

use super::MrSnippet;
use crate::runner::{
    Either, Job, JobView, Mismatch, MismatchView, Report, Runner, RunnerView, Sandboxed,
    SandboxedView,
};
use crate::text::{is_first_occurrence, occurs_at, chars_of, find, find_spec, lemma_find_spec, string_of_range, trim_bounds, trim_spec};

verus! {

/// Echo handler, simply returns the text of the message it received in reply:
/// everything after the first "echo ".
#[derive(Clone, Copy)]
pub struct Echo;

impl MrSnippet for Echo {
    open spec fn answer(&self, content: Seq<char>) -> Either<RunnerView, MismatchView> {
        match find_spec(content, "echo "@) {
            None => Either::Right(MismatchView::Continue),
            Some(i) => Either::Left(
                RunnerView {
                    service: "echo"@,
                    name: "test"@,
                    job: JobView::Echo(content.skip(i + 5)),
                },
            ),
        }
    }

    open spec fn required_programs(&self) -> Seq<Seq<char>> {
        Seq::<Seq<char>>::empty()
    }

    fn dependencies(&self) -> (r: Vec<String>) {
        let r: Vec<String> = Vec::new();
        assert(r.deep_view() =~= Seq::<Seq<char>>::empty());
        r
    }

    open spec fn service_name(&self) -> Seq<char> {
        "echo"@
    }

    fn name(&self) -> (r: &'static str) {
        "echo"
    }

    fn try_or_continue(&self, content: &str) -> (r: Either<Runner, Mismatch>) {
        let v = chars_of(content);
        let pat = chars_of("echo ");
        proof {
            lemma_find_spec(v@, pat@);
            reveal_strlit("echo ");
            assert(pat@.len() == 5);
        }
        match find(&v, &pat) {
            None => Either::Right(Mismatch::Continue),
            Some(i) => {
                assert(occurs_at(v@, pat@, i as int) && pat@.len() == 5);
                assert(i + 5 <= v@.len() && v@.len() == v.len());
                let text = string_of_range(&v, i + 5, v.len());
                assert(v@.subrange(i + 5, v.len() as int) =~= v@.skip(i + 5));
                Either::Left(Runner::new("echo", "test", Job::Echo(text)))
            },
        }
    }
}

/// The service for WHOIS is a unit struct: "whois [domain]" looks the domain
/// up, the domain being what follows the first "whois ", trimmed.
#[derive(Clone, Copy)]
pub struct Whois;

impl MrSnippet for Whois {
    open spec fn answer(&self, content: Seq<char>) -> Either<RunnerView, MismatchView> {
        match find_spec(content, "whois "@) {
            None => Either::Right(MismatchView::Continue),
            Some(i) => Either::Left(
                RunnerView {
                    service: "whois"@,
                    name: "whois"@,
                    job: JobView::Sandboxed(
                        SandboxedView {
                            program: "whois"@,
                            restricted: false,
                            arg: Some(trim_spec(content.skip(i + 6))),
                            source: None,
                            report: Report::Truncated,
                        },
                    ),
                },
            ),
        }
    }

    open spec fn required_programs(&self) -> Seq<Seq<char>> {
        seq!["whois"@]
    }

    fn dependencies(&self) -> (r: Vec<String>) {
        let r = vec!["whois".to_owned()];
        assert(r.deep_view() =~= seq!["whois"@]);
        r
    }

    open spec fn service_name(&self) -> Seq<char> {
        "whois"@
    }

    fn name(&self) -> (r: &'static str) {
        "whois"
    }

    fn try_or_continue(&self, content: &str) -> (r: Either<Runner, Mismatch>) {
        let v = chars_of(content);
        let pat = chars_of("whois ");
        proof {
            lemma_find_spec(v@, pat@);
            reveal_strlit("whois ");
            assert(pat@.len() == 6);
        }
        match find(&v, &pat) {
            None => Either::Right(Mismatch::Continue),
            Some(i) => {
                assert(occurs_at(v@, pat@, i as int) && pat@.len() == 6);
                assert(i + 6 <= v@.len() && v@.len() == v.len());
                let (a, b) = trim_bounds(&v, i + 6);
                let domain = string_of_range(&v, a, b);
                let job = Job::Sandboxed(
                    Sandboxed {
                        program: "whois".to_owned(),
                        restricted: false,
                        arg: Some(domain),
                        source: None,
                        report: Report::Truncated,
                    },
                );
                Either::Left(Runner::new("whois", "whois", job))
            },
        }
    }
}

/// The echo handler: a message holding "echo " gets back everything after
/// its first occurrence, as it is; any other message lets the search
/// continue.
pub proof fn lemma_echo_handler(content: Seq<char>)
    ensures
        forall|i: int| #[trigger]
            is_first_occurrence(content, "echo "@, i) ==> Echo.answer(content) == Either::<
                RunnerView,
                MismatchView,
            >::Left(RunnerView { service: "echo"@, name: "test"@, job: JobView::Echo(content.skip(i + 5)) }),
        (forall|i: int| !occurs_at(content, "echo "@, i)) ==> Echo.answer(content) == Either::<
            RunnerView,
            MismatchView,
        >::Right(MismatchView::Continue),
{
    lemma_find_spec(content, "echo "@);
    lemma_first_occurrence_unique(content, "echo "@);
}

/// The WHOIS handler: a message holding "whois " looks up the text after
/// its first occurrence, trimmed, as the one argument of the whois program,
/// unrestricted; a failed lookup is reported with what whois printed as
/// well as its errors, each cut ([`Report::Truncated`]). Any other message
/// lets the search continue.
pub proof fn lemma_whois_handler(content: Seq<char>)
    ensures
        forall|i: int| #[trigger]
            is_first_occurrence(content, "whois "@, i) ==> Whois.answer(content) == Either::<
                RunnerView,
                MismatchView,
            >::Left(
                RunnerView {
                    service: "whois"@,
                    name: "whois"@,
                    job: JobView::Sandboxed(
                        SandboxedView {
                            program: "whois"@,
                            restricted: false,
                            arg: Some(trim_spec(content.skip(i + 6))),
                            source: None,
                            report: Report::Truncated,
                        },
                    ),
                },
            ),
        (forall|i: int| !occurs_at(content, "whois "@, i)) ==> Whois.answer(content) == Either::<
            RunnerView,
            MismatchView,
        >::Right(MismatchView::Continue),
{
    lemma_find_spec(content, "whois "@);
    lemma_first_occurrence_unique(content, "whois "@);
}

/// A pattern has at most one first occurrence, the one `find_spec` gives.
proof fn lemma_first_occurrence_unique(s: Seq<char>, pat: Seq<char>)
    ensures
        forall|i: int| #[trigger] is_first_occurrence(s, pat, i) ==> find_spec(s, pat) == Some(i),
{
    lemma_find_spec(s, pat);
    assert forall|i: int| #[trigger] is_first_occurrence(s, pat, i) implies find_spec(s, pat) == Some(i) by {
        match find_spec(s, pat) {
            Some(k) => {
                if k < i {
                    assert(!occurs_at(s, pat, k));
                } else if k > i {
                    assert(!occurs_at(s, pat, i));
                }
            },
            None => {
                assert(!occurs_at(s, pat, i));
            },
        }
    }
}

} // verus!
