//! The LaTeX handler: renders the formula between dollar signs.

use vstd::prelude::*;

use super::MrSnippet;
use crate::runner::{Either, Job, JobView, Mismatch, MismatchView, Runner, RunnerView};
use crate::text::{chars_of, string_of_range};

verus! {

/// `s` holds a dollar sign at `i`.
pub open spec fn is_dollar(s: Seq<char>, i: int) -> bool {
    0 <= i < s.len() && s[i] == '$'
}

/// The first two dollar signs of `s` are at `i` and `j`.
pub open spec fn first_two_dollars(s: Seq<char>, i: int, j: int) -> bool {
    &&& i < j
    &&& is_dollar(s, i)
    &&& is_dollar(s, j)
    &&& forall|k: int| 0 <= k < j && k != i ==> !is_dollar(s, k)
}

/// What the first match of the pattern `\$([^$]*)\$` captures in `s`: the
/// text between its first two dollar signs, if it has two.
pub open spec fn latex_capture(s: Seq<char>) -> Option<Seq<char>> {
    if exists|i: int, j: int| first_two_dollars(s, i, j) {
        let (i, j) = choose|i: int, j: int| first_two_dollars(s, i, j);
        Some(s.subrange(i + 1, j))
    } else {
        None
    }
}

/// The text between the first two dollar signs of `s`.
pub fn latex_math(s: &str) -> (r: Option<String>)
    ensures
        opt_seq(r) == latex_capture(s@),
{
    let v = chars_of(s);
    let mut a: usize = 0;
    while a < v.len() && v[a] != '$'
        invariant
            a <= v.len(),
            v@ == s@,
            forall|k: int| 0 <= k < a ==> !is_dollar(v@, k),
        decreases v.len() - a,
    {
        a += 1;
    }
    if a == v.len() {
        assert(!exists|i: int, j: int| first_two_dollars(v@, i, j));
        return None;
    }
    let mut b: usize = a + 1;
    while b < v.len() && v[b] != '$'
        invariant
            a < b <= v.len(),
            v@ == s@,
            is_dollar(v@, a as int),
            forall|k: int| 0 <= k < a ==> !is_dollar(v@, k),
            forall|k: int| a < k < b ==> !is_dollar(v@, k),
        decreases v.len() - b,
    {
        b += 1;
    }
    if b == v.len() {
        assert forall|i: int, j: int| !first_two_dollars(v@, i, j) by {
            if first_two_dollars(v@, i, j) {
                if i != a {
                    assert(!is_dollar(v@, a as int));
                }
            }
        }
        return None;
    }
    assert(first_two_dollars(v@, a as int, b as int));
    let ghost pair = choose|i: int, j: int| first_two_dollars(v@, i, j);
    assert(pair.0 == a && pair.1 == b) by {
        let (i, j) = pair;
        if i != a {
            if i > a {
                assert(!is_dollar(v@, a as int));
            }
        }
        if j > b {
            assert(!is_dollar(v@, b as int));
        } else if j < b {
            assert(!is_dollar(v@, j));
        }
    }
    Some(string_of_range(&v, a + 1, b))
}

/// The views of an optional string.
pub open spec fn opt_seq(o: Option<String>) -> Option<Seq<char>> {
    match o {
        Some(s) => Some(s@),
        None => None,
    }
}

/// LaTeX handler: renders the formula between the first two dollar signs.
#[derive(Clone, Copy)]
pub struct Latex;

impl Latex {
    /// Create a new [`Latex`] handler.
    pub fn new() -> (r: Latex) {
        Latex
    }
}

impl MrSnippet for Latex {
    open spec fn answer(&self, content: Seq<char>) -> Either<RunnerView, MismatchView> {
        match latex_capture(content) {
            None => Either::Right(MismatchView::Continue),
            Some(latex) => Either::Left(
                RunnerView { service: "latex"@, name: "latex"@, job: JobView::Latex(latex) },
            ),
        }
    }

    open spec fn required_programs(&self) -> Seq<Seq<char>> {
        Seq::<Seq<char>>::empty()
    }

    fn dependencies(&self) -> (r: Vec<String>) {
        let r: Vec<String> = Vec::new();
        assert(r.deep_view() =~= Seq::<Seq<char>>::empty());
        r
    }

    open spec fn service_name(&self) -> Seq<char> {
        "latex"@
    }

    fn name(&self) -> (r: &'static str) {
        "latex"
    }

    fn try_or_continue(&self, content: &str) -> (r: Either<Runner, Mismatch>) {
        match latex_math(content) {
            None => Either::Right(Mismatch::Continue),
            Some(latex) => Either::Left(Runner::new("latex", "latex", Job::Latex(latex))),
        }
    }
}

/// What the LaTeX pattern captures is the text between the first two
/// dollar signs of the message: it holds no dollar sign, a dollar sign
/// comes just before and just after it, and none comes earlier. Nothing is
/// captured exactly when the message has fewer than two dollar signs.
pub proof fn lemma_latex_capture(s: Seq<char>)
    ensures
        latex_capture(s) matches Some(t) ==> exists|i: int|
            {
                &&& 0 <= i && i + t.len() + 1 < s.len()
                &&& #[trigger] s[i] == '$' && s[i + t.len() + 1] == '$'
                &&& s.subrange(i + 1, i + 1 + t.len()) == t
                &&& forall|k: int| 0 <= k < t.len() ==> #[trigger] t[k] != '$'
                &&& forall|k: int| 0 <= k < i ==> #[trigger] s[k] != '$'
            },
        latex_capture(s) is None <==> forall|i: int, j: int|
            #![trigger is_dollar(s, i), is_dollar(s, j)]
            i < j && is_dollar(s, i) ==> !is_dollar(s, j),
{
    if exists|i: int, j: int| first_two_dollars(s, i, j) {
        let (i, j) = choose|i: int, j: int| first_two_dollars(s, i, j);
        let t = s.subrange(i + 1, j);
        assert(s.subrange(i + 1, i + 1 + t.len()) =~= t);
        assert forall|k: int| 0 <= k < t.len() implies #[trigger] t[k] != '$' by {
            assert(t[k] == s[i + 1 + k]);
            assert(!is_dollar(s, i + 1 + k));
        }
        assert forall|k: int| 0 <= k < i implies #[trigger] s[k] != '$' by {
            assert(!is_dollar(s, k));
        }
        assert(!(forall|a: int, b: int|
            #![trigger is_dollar(s, a), is_dollar(s, b)]
            a < b && is_dollar(s, a) ==> !is_dollar(s, b)));
    } else {
        assert forall|a: int, b: int|
            #![trigger is_dollar(s, a), is_dollar(s, b)]
            a < b && is_dollar(s, a) implies !is_dollar(s, b) by {
            if is_dollar(s, b) {
                let fa = choose|x: int| 0 <= x <= a && is_dollar(s, x) && forall|y: int|
                    0 <= y < x ==> !is_dollar(s, y);
                lemma_first_dollar(s, a);
                let fb = choose|x: int| fa < x <= b && is_dollar(s, x) && forall|y: int|
                    fa < y < x ==> !is_dollar(s, y);
                lemma_next_dollar(s, fa, b);
                assert(first_two_dollars(s, fa, fb));
            }
        }
    }
}

proof fn lemma_first_dollar(s: Seq<char>, a: int)
    requires
        is_dollar(s, a),
    ensures
        exists|x: int| 0 <= x <= a && is_dollar(s, x) && forall|y: int| 0 <= y < x ==> !is_dollar(s, y),
    decreases a,
{
    if exists|y: int| 0 <= y < a && is_dollar(s, y) {
        let y = choose|y: int| 0 <= y < a && is_dollar(s, y);
        lemma_first_dollar(s, y);
    } else {
        assert(forall|y: int| 0 <= y < a ==> !is_dollar(s, y));
    }
}

proof fn lemma_next_dollar(s: Seq<char>, f: int, b: int)
    requires
        f < b,
        is_dollar(s, b),
    ensures
        exists|x: int| f < x <= b && is_dollar(s, x) && forall|y: int| f < y < x ==> !is_dollar(s, y),
    decreases b - f,
{
    if exists|y: int| f < y < b && is_dollar(s, y) {
        let y = choose|y: int| f < y < b && is_dollar(s, y);
        lemma_next_dollar(s, f, y);
    } else {
        assert(forall|y: int| f < y < b ==> !is_dollar(s, y));
    }
}

/// The LaTeX handler: a message with two dollar signs gets a runner that
/// renders the text between the first two; any other message lets the
/// search continue.
pub proof fn lemma_latex_handler(content: Seq<char>)
    ensures
        match latex_capture(content) {
            Some(t) => Latex.answer(content) == Either::<RunnerView, MismatchView>::Left(
                RunnerView { service: "latex"@, name: "latex"@, job: JobView::Latex(t) },
            ),
            None => Latex.answer(content) == Either::<RunnerView, MismatchView>::Right(
                MismatchView::Continue,
            ),
        },
{
}

} // verus!
