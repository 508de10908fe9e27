//! The heart and the brains of the whole operation: which handler gets a
//! message, and what is sent back.
//!
//! Each message is offered to the handlers in turn.  A handler that does
//! not recognise it lets the search continue.  The first handler that
//! recognises it ends the search: if the message is malformed, its
//! complaint is sent back; otherwise the runner it produces is dispatched.
//! A message that no handler recognises gets no answer.

use vstd::prelude::*;

use crate::runner::{Either, Mismatch, MismatchView, OutputView, Runner, RunnerOutput, RunnerView};
use crate::snippets::MrSnippet;

verus! {

/// What the executor does for a message.
pub enum Action {
    /// Dispatch the runner and send back what it produces.
    Dispatch(Runner),
    /// Send this back.
    Send(RunnerOutput),
}

/// The abstract value of an [`Action`].
pub enum ActionView {
    Dispatch(RunnerView),
    Send(OutputView),
}

impl View for Action {
    type V = ActionView;

    open spec fn view(&self) -> ActionView {
        match self {
            Action::Dispatch(r) => ActionView::Dispatch(r@),
            Action::Send(o) => ActionView::Send(o@),
        }
    }
}

/// What to do for `content` when it is offered to `handlers` in order.
pub open spec fn route_spec<H: MrSnippet>(handlers: Seq<H>, content: Seq<char>) -> Option<ActionView>
    decreases handlers.len(),
{
    if handlers.len() == 0 {
        None
    } else {
        match handlers[0].answer(content) {
            Either::Left(r) => Some(ActionView::Dispatch(r)),
            Either::Right(MismatchView::Continue) => route_spec(handlers.drop_first(), content),
            Either::Right(MismatchView::WrongUsage(e)) => Some(
                ActionView::Send(OutputView::WrongUsage(e)),
            ),
        }
    }
}

/// Offers `content` to the handlers in order and says what to do.
pub fn route<H: MrSnippet>(handlers: &Vec<H>, content: &str) -> (r: Option<Action>)
    ensures
        match r {
            Some(a) => route_spec(handlers@, content@) == Some(a@),
            None => route_spec(handlers@, content@) is None,
        },
{
    let mut i: usize = 0;
    assert(handlers@.skip(0) =~= handlers@);
    while i < handlers.len()
        invariant
            i <= handlers.len(),
            route_spec(handlers@.skip(i as int), content@) == route_spec(handlers@, content@),
        decreases handlers.len() - i,
    {
        assert(handlers@.skip(i as int)[0] == handlers@[i as int]);
        assert(handlers@.skip(i as int).drop_first() =~= handlers@.skip(i + 1));
        match handlers[i].try_or_continue(content) {
            Either::Left(runner) => {
                return Some(Action::Dispatch(runner));
            },
            Either::Right(Mismatch::Continue) => {},
            Either::Right(Mismatch::WrongUsage(e)) => {
                return Some(Action::Send(RunnerOutput::WrongUsage(e)));
            },
        }
        i += 1;
    }
    assert(handlers@.skip(i as int).len() == 0);
    None
}

/// Handler `k` is the first of `handlers` that does not let the search for
/// `content` continue.
pub open spec fn first_decider<H: MrSnippet>(handlers: Seq<H>, content: Seq<char>, k: int) -> bool {
    &&& 0 <= k < handlers.len()
    &&& !(handlers[k].answer(content) matches Either::Right(MismatchView::Continue))
    &&& forall|j: int|
        0 <= j < k ==> #[trigger] handlers[j].answer(content) matches Either::Right(
            MismatchView::Continue,
        )
}

/// The search ends at the first handler that recognises the message: its
/// runner is dispatched, or its complaint is sent back, and nothing else
/// happens for the message. When every handler lets the search continue,
/// nothing is done at all, and only then.
pub proof fn lemma_route_first_decider<H: MrSnippet>(handlers: Seq<H>, content: Seq<char>)
    ensures
        forall|k: int| #[trigger]
            first_decider(handlers, content, k) ==> match handlers[k].answer(content) {
                Either::Left(r) => route_spec(handlers, content) == Some(ActionView::Dispatch(r)),
                Either::Right(MismatchView::WrongUsage(e)) => route_spec(handlers, content) == Some(
                    ActionView::Send(OutputView::WrongUsage(e)),
                ),
                Either::Right(MismatchView::Continue) => false,
            },
        route_spec(handlers, content) is None <==> forall|k: int|
            0 <= k < handlers.len() ==> #[trigger] handlers[k].answer(content) matches Either::Right(
                MismatchView::Continue,
            ),
    decreases handlers.len(),
{
    if handlers.len() > 0 {
        let tail = handlers.drop_first();
        lemma_route_first_decider(tail, content);
        assert forall|k: int| #[trigger] first_decider(handlers, content, k) implies match handlers[k].answer(
            content,
        ) {
            Either::Left(r) => route_spec(handlers, content) == Some(ActionView::Dispatch(r)),
            Either::Right(MismatchView::WrongUsage(e)) => route_spec(handlers, content) == Some(
                ActionView::Send(OutputView::WrongUsage(e)),
            ),
            Either::Right(MismatchView::Continue) => false,
        } by {
            if k > 0 {
                assert(handlers[0].answer(content) matches Either::Right(MismatchView::Continue));
                assert(first_decider(tail, content, k - 1)) by {
                    assert forall|j: int| 0 <= j < k - 1 implies #[trigger] tail[j].answer(
                        content,
                    ) matches Either::Right(MismatchView::Continue) by {
                        assert(tail[j] == handlers[j + 1]);
                    }
                }
                assert(tail[k - 1] == handlers[k]);
            }
        }
        if forall|k: int|
            0 <= k < handlers.len() ==> #[trigger] handlers[k].answer(content) matches Either::Right(
                MismatchView::Continue,
            ) {
            assert(handlers[0].answer(content) matches Either::Right(MismatchView::Continue));
            assert forall|k: int| 0 <= k < tail.len() implies #[trigger] tail[k].answer(
                content,
            ) matches Either::Right(MismatchView::Continue) by {
                assert(tail[k] == handlers[k + 1]);
            }
        }
        if route_spec(handlers, content) is None {
            assert(handlers[0].answer(content) matches Either::Right(MismatchView::Continue));
            assert forall|k: int| 0 <= k < handlers.len() implies #[trigger] handlers[k].answer(
                content,
            ) matches Either::Right(MismatchView::Continue) by {
                if k > 0 {
                    assert(tail[k - 1] == handlers[k]);
                }
            }
        }
    }
}

} // verus!
