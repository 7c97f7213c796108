//! Procedures that alternate between deciding and being answered.
use vstd::prelude::*;

verus! {

/// Where a procedure stands once a reply has been taken in.
#[derive(Debug, PartialEq, Eq)]
pub enum Progress<S, T> {
    /// There is more to do, from this state on.
    Continue(S),
    /// The procedure is over, with this outcome.
    Finished(T),
}

/// A procedure that has one request outstanding at a time. Whoever drives it
/// performs the request and resumes it with the reply.
pub trait Procedure: Sized {
    /// What the procedure can ask for.
    type Request;

    /// What it can be answered.
    type Reply;

    /// What it ends with.
    type Outcome;

    /// The states that the procedure can be in.
    spec fn wf(self) -> bool;

    /// The request that is outstanding in this state.
    spec fn asks(self) -> Self::Request;

    /// Whether `reply` is an answer to the outstanding request.
    spec fn accepts(self, reply: Self::Reply) -> bool;

    /// Where `reply` takes the procedure.
    spec fn after(self, reply: Self::Reply) -> Progress<Self, Self::Outcome>;

    /// The request to perform now.
    fn request(&self) -> (request: Self::Request)
        requires
            self.wf(),
        ensures
            request == self.asks(),
    ;

    /// Takes in the reply to the outstanding request.
    fn resume(self, reply: Self::Reply) -> (progress: Progress<Self, Self::Outcome>)
        requires
            self.wf(),
            self.accepts(reply),
        ensures
            progress == self.after(reply),
            progress matches Progress::Continue(next) ==> next.wf(),
    ;
}

/// Where a procedure stands after the replies from index `at` on, one for each
/// request, in order. Replies left over at the end are not looked at.
pub open spec fn run<P: Procedure>(p: P, replies: Seq<P::Reply>, at: int) -> Progress<P, P::Outcome>
    decreases replies.len() - at,
{
    if at >= replies.len() {
        Progress::Continue(p)
    } else {
        match p.after(replies[at]) {
            Progress::Continue(next) => run(next, replies, at + 1),
            Progress::Finished(outcome) => Progress::Finished(outcome),
        }
    }
}

/// The requests that are performed in the course of such a run, in order.
pub open spec fn requests<P: Procedure>(p: P, replies: Seq<P::Reply>, at: int) -> Seq<P::Request>
    decreases replies.len() - at,
{
    if at >= replies.len() {
        Seq::empty()
    } else {
        seq![p.asks()] + match p.after(replies[at]) {
            Progress::Continue(next) => requests(next, replies, at + 1),
            Progress::Finished(_) => Seq::empty(),
        }
    }
}

/// Every reply taken in during the run is an answer to the request then
/// outstanding.
pub open spec fn answered<P: Procedure>(p: P, replies: Seq<P::Reply>, at: int) -> bool
    decreases replies.len() - at,
{
    at >= replies.len() || {
        &&& p.accepts(replies[at])
        &&& p.after(replies[at]) matches Progress::Continue(next) ==> answered(
            next,
            replies,
            at + 1,
        )
    }
}

} // verus!
