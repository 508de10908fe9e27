//! The provided snippet handlers, and the trait they implement.

use vstd::prelude::*;

use crate::runner::{Either, Mismatch, MismatchView, Runner, RunnerView};

pub mod code;
pub mod echo;
pub mod latex;
pub mod nomeme;

use code::{H264ify, Haskell, Idris, Lisp, C, JS};
use echo::{Echo, Whois};
use latex::Latex;
use nomeme::NoMeme;

verus! {

/// Trait for a provided service. Implement for every language or another funny.
///
/// [`MrSnippet::dependencies`] names the programs that the host system must
/// have for this service, and [`MrSnippet::name`] a reasonably unique yet
/// constant name, which identifies this snippeter.
pub trait MrSnippet {
    /// What [`MrSnippet::try_or_continue`] decides on `content`.
    spec fn answer(&self, content: Seq<char>) -> Either<RunnerView, MismatchView>;

    /// The programs this service needs on the host.
    spec fn required_programs(&self) -> Seq<Seq<char>>;

    /// The name of this service.
    spec fn service_name(&self) -> Seq<char>;

    /// The programs this service needs on the host; without them it cannot
    /// run its snippets.
    fn dependencies(&self) -> (r: Vec<String>)
        ensures
            r.deep_view() == self.required_programs(),
    ;

    /// Readable, constant name of this service.
    fn name(&self) -> (r: &'static str)
        ensures
            r@ == self.service_name(),
    ;

    /// Determine whether the input is valid for you, invalid, or unrelated.
    /// The snippets are in a cooperative relationship: it is up to each
    /// service to properly indicate that search should continue.
    /// If the input is valid, produce a runner.
    fn try_or_continue(&self, content: &str) -> (r: Either<Runner, Mismatch>)
        ensures
            r@ == self.answer(content@),
    ;
}


/// Any of the provided handlers.
#[derive(Clone, Copy)]
pub enum Snippet {
    C(C),
    Echo(Echo),
    H264ify(H264ify),
    Haskell(Haskell),
    Idris(Idris),
    JS(JS),
    Latex(Latex),
    Lisp(Lisp),
    NoMeme(NoMeme),
    Whois(Whois),
}

impl MrSnippet for Snippet {
    open spec fn answer(&self, content: Seq<char>) -> Either<RunnerView, MismatchView> {
        match self {
            Snippet::C(s) => s.answer(content),
            Snippet::Echo(s) => s.answer(content),
            Snippet::H264ify(s) => s.answer(content),
            Snippet::Haskell(s) => s.answer(content),
            Snippet::Idris(s) => s.answer(content),
            Snippet::JS(s) => s.answer(content),
            Snippet::Latex(s) => s.answer(content),
            Snippet::Lisp(s) => s.answer(content),
            Snippet::NoMeme(s) => s.answer(content),
            Snippet::Whois(s) => s.answer(content),
        }
    }

    open spec fn required_programs(&self) -> Seq<Seq<char>> {
        match self {
            Snippet::C(s) => s.required_programs(),
            Snippet::Echo(s) => s.required_programs(),
            Snippet::H264ify(s) => s.required_programs(),
            Snippet::Haskell(s) => s.required_programs(),
            Snippet::Idris(s) => s.required_programs(),
            Snippet::JS(s) => s.required_programs(),
            Snippet::Latex(s) => s.required_programs(),
            Snippet::Lisp(s) => s.required_programs(),
            Snippet::NoMeme(s) => s.required_programs(),
            Snippet::Whois(s) => s.required_programs(),
        }
    }

    open spec fn service_name(&self) -> Seq<char> {
        match self {
            Snippet::C(s) => s.service_name(),
            Snippet::Echo(s) => s.service_name(),
            Snippet::H264ify(s) => s.service_name(),
            Snippet::Haskell(s) => s.service_name(),
            Snippet::Idris(s) => s.service_name(),
            Snippet::JS(s) => s.service_name(),
            Snippet::Latex(s) => s.service_name(),
            Snippet::Lisp(s) => s.service_name(),
            Snippet::NoMeme(s) => s.service_name(),
            Snippet::Whois(s) => s.service_name(),
        }
    }

    fn dependencies(&self) -> (r: Vec<String>) {
        match self {
            Snippet::C(s) => s.dependencies(),
            Snippet::Echo(s) => s.dependencies(),
            Snippet::H264ify(s) => s.dependencies(),
            Snippet::Haskell(s) => s.dependencies(),
            Snippet::Idris(s) => s.dependencies(),
            Snippet::JS(s) => s.dependencies(),
            Snippet::Latex(s) => s.dependencies(),
            Snippet::Lisp(s) => s.dependencies(),
            Snippet::NoMeme(s) => s.dependencies(),
            Snippet::Whois(s) => s.dependencies(),
        }
    }

    fn name(&self) -> (r: &'static str) {
        match self {
            Snippet::C(s) => s.name(),
            Snippet::Echo(s) => s.name(),
            Snippet::H264ify(s) => s.name(),
            Snippet::Haskell(s) => s.name(),
            Snippet::Idris(s) => s.name(),
            Snippet::JS(s) => s.name(),
            Snippet::Latex(s) => s.name(),
            Snippet::Lisp(s) => s.name(),
            Snippet::NoMeme(s) => s.name(),
            Snippet::Whois(s) => s.name(),
        }
    }

    fn try_or_continue(&self, content: &str) -> (r: Either<Runner, Mismatch>) {
        match self {
            Snippet::C(s) => s.try_or_continue(content),
            Snippet::Echo(s) => s.try_or_continue(content),
            Snippet::H264ify(s) => s.try_or_continue(content),
            Snippet::Haskell(s) => s.try_or_continue(content),
            Snippet::Idris(s) => s.try_or_continue(content),
            Snippet::JS(s) => s.try_or_continue(content),
            Snippet::Latex(s) => s.try_or_continue(content),
            Snippet::Lisp(s) => s.try_or_continue(content),
            Snippet::NoMeme(s) => s.try_or_continue(content),
            Snippet::Whois(s) => s.try_or_continue(content),
        }
    }
}

/// Every service currently available, with default configuration, in the
/// order in which they are registered.
pub open spec fn all_services() -> Seq<Snippet> {
    seq![
        Snippet::H264ify(H264ify),
        Snippet::C(C),
        Snippet::Haskell(Haskell),
        Snippet::Idris(Idris),
        Snippet::Lisp(Lisp),
        Snippet::NoMeme(NoMeme),
        Snippet::Echo(Echo),
        Snippet::Whois(Whois),
        Snippet::Latex(Latex),
    ]
}

/// Register every service currently available with default configuration:
/// the handlers, in the order an executor registers them.
pub fn register_all() -> (r: Vec<Snippet>)
    ensures
        r@ == all_services(),
{
    let r = vec![
        Snippet::H264ify(H264ify),
        Snippet::C(C),
        Snippet::Haskell(Haskell),
        Snippet::Idris(Idris),
        Snippet::Lisp(Lisp),
        Snippet::NoMeme(NoMeme::new()),
        Snippet::Echo(Echo),
        Snippet::Whois(Whois),
        Snippet::Latex(Latex::new()),
    ];
    assert(r@ =~= all_services());
    r
}

} // verus!
