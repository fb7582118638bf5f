//! Failure handling: every proxy that was reported as failed is handed to
//! the recovery logic; a recovery that fails is left for a later pass.

use super::error::CoordinateError;
use super::pass::{first_error, outcomes_of, retrieval_results, run_pass, Progress};
use vstd::prelude::*;

verus! {

/// The address of a proxy that was reported as failed.
pub type ProxyFailure = String;

/// Where the reported failures come from.
pub trait ProxyFailureRetriever: Sync + Send + 'static {
    fn retrieve_proxy_failures(&self) -> Vec<Result<ProxyFailure, CoordinateError>>;
}

/// The recovery logic for one failed proxy.
pub trait ProxyFailureHandler: Sync + Send + 'static {
    fn handle_proxy_failure(&self, proxy_failure: ProxyFailure) -> Result<(), CoordinateError>;
}

/// A component that works off the reported failures, one pass at a time.
pub trait FailureHandler: Sized {
    type PFRetriever: ProxyFailureRetriever;

    type Handler: ProxyFailureHandler;

    fn new(proxy_failure_retriever: Self::PFRetriever, handler: Self::Handler) -> Self;

    fn run(&self) -> Vec<Result<(), CoordinateError>>;
}

/// How many failures are handled side by side.
pub const HANDLER_BATCH_SIZE: usize = 10;

/// What handling one failure asks of the outside.
pub enum HandleRequest {
    Handle(ProxyFailure),
}

/// What the outside answers.
pub enum HandleReply {
    Handled(Result<(), CoordinateError>),
}

/// The handling of one failure, between its calls.
pub enum HandleFailure {
    Handling,
}

impl HandleFailure {
    /// How many calls handling may still make.
    pub open spec fn steps_left(progress: Progress<HandleFailure, HandleRequest>) -> nat {
        match progress {
            Progress::Call(_, _) => 1,
            Progress::Done(_) => 0,
        }
    }

    /// Handling a failure starts by asking for its recovery.
    pub open spec fn spec_begin(proxy_failure: ProxyFailure) -> Progress<
        HandleFailure,
        HandleRequest,
    > {
        Progress::Call(HandleFailure::Handling, HandleRequest::Handle(proxy_failure))
    }

    /// Whatever the recovery came to, the failure counts as worked off.
    pub open spec fn spec_resume(self, reply: HandleReply) -> Progress<
        HandleFailure,
        HandleRequest,
    > {
        Progress::Done(Ok(()))
    }

    pub fn begin(proxy_failure: ProxyFailure) -> (progress: Progress<HandleFailure, HandleRequest>)
        ensures
            progress == Self::spec_begin(proxy_failure),
    {
        Progress::Call(HandleFailure::Handling, HandleRequest::Handle(proxy_failure))
    }

    pub fn resume(self, reply: HandleReply) -> (progress: Progress<HandleFailure, HandleRequest>)
        ensures
            progress == self.spec_resume(reply),
    {
        Progress::Done(Ok(()))
    }
}

/// Handles the reported failures one batch after the other.
pub struct SeqFailureHandler<PFRetriever: ProxyFailureRetriever, Handler: ProxyFailureHandler> {
    proxy_failure_retriever: PFRetriever,
    handler: Handler,
}

impl<P: ProxyFailureRetriever, H: ProxyFailureHandler> SeqFailureHandler<P, H> {
    /// The retriever this handler was made with.
    pub closed spec fn retriever(&self) -> &P {
        &self.proxy_failure_retriever
    }

    /// The recovery logic this handler was made with.
    pub closed spec fn handler(&self) -> &H {
        &self.handler
    }

    /// `reply` is something the recovery logic may answer to `request`.
    pub open spec fn answers(&self, request: HandleRequest, reply: HandleReply) -> bool {
        match (request, reply) {
            (HandleRequest::Handle(proxy_failure), HandleReply::Handled(r)) => call_ensures(
                H::handle_proxy_failure,
                (self.handler(), proxy_failure),
                r,
            ),
        }
    }

    /// The retriever may hand out `failures`.
    pub open spec fn retrieves(
        &self,
        failures: Vec<Result<ProxyFailure, CoordinateError>>,
    ) -> bool {
        call_ensures(P::retrieve_proxy_failures, (self.retriever(),), failures)
    }

    /// From `progress`, with every request answered by the recovery logic,
    /// handling may come to `r`.
    pub open spec fn may_finish(
        &self,
        progress: Progress<HandleFailure, HandleRequest>,
        r: Result<(), CoordinateError>,
    ) -> bool
        decreases HandleFailure::steps_left(progress),
    {
        match progress {
            Progress::Done(result) => r == result,
            Progress::Call(stage, request) => exists|reply: HandleReply| #[trigger]
                self.answers(request, reply) && self.may_finish(stage.spec_resume(reply), r),
        }
    }

    /// What a retrieved entry may come to: its own failure, if it could not
    /// be retrieved, and else what handling the failure may come to.
    pub open spec fn entry_may_yield(
        &self,
        entry: Result<ProxyFailure, CoordinateError>,
        outcome: Result<(), CoordinateError>,
    ) -> bool {
        match entry {
            Err(err) => outcome == Err::<(), CoordinateError>(err),
            Ok(proxy_failure) => self.may_finish(HandleFailure::spec_begin(proxy_failure), outcome),
        }
    }

    /// The pass over `failures` may come to `r`: every entry has an outcome,
    /// whatever became of the others, and `r` is the first failure among the
    /// outcomes, in the order of the entries.
    pub open spec fn pass_may_yield(
        &self,
        failures: Seq<Result<ProxyFailure, CoordinateError>>,
        r: Result<(), CoordinateError>,
    ) -> bool {
        exists|outcomes: Seq<Result<(), CoordinateError>>|
            {
                &&& outcomes.len() == failures.len()
                &&& forall|i: int|
                    0 <= i < failures.len() ==> self.entry_may_yield(
                        failures[i],
                        #[trigger] outcomes[i],
                    )
                &&& r == #[trigger] first_error(outcomes)
            }
    }

    /// Handling a failure comes to success, whatever the recovery came to.
    pub proof fn lemma_handling_succeeds(
        &self,
        proxy_failure: ProxyFailure,
        r: Result<(), CoordinateError>,
    )
        requires
            self.may_finish(HandleFailure::spec_begin(proxy_failure), r),
        ensures
            r == Ok::<(), CoordinateError>(()),
    {
        let reply = choose|reply: HandleReply| #[trigger]
            self.answers(HandleRequest::Handle(proxy_failure), reply) && self.may_finish(
                HandleFailure::Handling.spec_resume(reply),
                r,
            );
        assert(self.may_finish(HandleFailure::Handling.spec_resume(reply), r));
    }

    /// A pass fails only where retrieval failed, and then with the first
    /// such failure: no recovery that fails makes the pass fail.
    pub proof fn lemma_only_retrieval_fails_a_pass(
        &self,
        failures: Seq<Result<ProxyFailure, CoordinateError>>,
        r: Result<(), CoordinateError>,
    )
        requires
            self.pass_may_yield(failures, r),
        ensures
            r == first_error(retrieval_results(failures)),
    {
        let outcomes = choose|outcomes: Seq<Result<(), CoordinateError>>|
            {
                &&& outcomes.len() == failures.len()
                &&& forall|i: int|
                    0 <= i < failures.len() ==> self.entry_may_yield(
                        failures[i],
                        #[trigger] outcomes[i],
                    )
                &&& r == #[trigger] first_error(outcomes)
            };
        assert forall|i: int| 0 <= i < failures.len() implies outcomes[i] == retrieval_results(
            failures,
        )[i] by {
            assert(self.entry_may_yield(failures[i], outcomes[i]));
            match failures[i] {
                Ok(proxy_failure) => {
                    self.lemma_handling_succeeds(proxy_failure, outcomes[i]);
                },
                Err(_) => {},
            }
        }
        assert(outcomes =~= retrieval_results(failures));
    }

    /// Carries out one request against the recovery logic.
    fn perform(&self, request: HandleRequest) -> (reply: HandleReply)
        ensures
            self.answers(request, reply),
    {
        match request {
            HandleRequest::Handle(proxy_failure) => HandleReply::Handled(
                self.handler.handle_proxy_failure(proxy_failure),
            ),
        }
    }

    /// Has one failure handled. A recovery that fails does not fail the pass.
    pub fn handle(&self, proxy_failure: ProxyFailure) -> (r: Result<(), CoordinateError>)
        ensures
            self.may_finish(HandleFailure::spec_begin(proxy_failure), r),
            r == Ok::<(), CoordinateError>(()),
    {
        let ghost start = HandleFailure::spec_begin(proxy_failure);
        let mut progress = HandleFailure::begin(proxy_failure);
        loop
            invariant
                start == HandleFailure::spec_begin(proxy_failure),
                forall|r: Result<(), CoordinateError>| #[trigger]
                    self.may_finish(progress, r) ==> self.may_finish(start, r),
            decreases HandleFailure::steps_left(progress),
        {
            let ghost current = progress;
            match progress {
                Progress::Done(r) => {
                    assert(self.may_finish(current, r));
                    proof {
                        self.lemma_handling_succeeds(proxy_failure, r);
                    }
                    return r;
                },
                Progress::Call(stage, request) => {
                    let reply = self.perform(request);
                    progress = stage.resume(reply);
                    assert forall|r: Result<(), CoordinateError>| #[trigger]
                        self.may_finish(progress, r) implies self.may_finish(start, r) by {
                        assert(self.answers(request, reply));
                        assert(self.may_finish(current, r));
                    }
                },
            }
        }
    }

    /// One pass over `failures`, as the retriever handed them out: every
    /// failure is handled, and the pass fails only where retrieval failed,
    /// with the first such failure.
    pub fn run_with(&self, failures: Vec<Result<ProxyFailure, CoordinateError>>) -> (r: Result<
        (),
        CoordinateError,
    >)
        ensures
            self.pass_may_yield(failures@, r),
            r == first_error(retrieval_results(failures@)),
    {
        let work = |proxy_failure: ProxyFailure| -> (r: Result<(), CoordinateError>)
            ensures
                self.may_finish(HandleFailure::spec_begin(proxy_failure), r),
            { self.handle(proxy_failure) };
        let r = run_pass(failures, HANDLER_BATCH_SIZE, &work);
        proof {
            let outcomes = choose|outcomes: Seq<Result<(), CoordinateError>>| #[trigger]
                outcomes_of(&work, failures@, outcomes) && r == first_error(outcomes);
            assert forall|i: int| 0 <= i < failures@.len() implies self.entry_may_yield(
                failures@[i],
                #[trigger] outcomes[i],
            ) by {}
            self.lemma_only_retrieval_fails_a_pass(failures@, r);
        }
        r
    }
}

impl<P: ProxyFailureRetriever, H: ProxyFailureHandler> FailureHandler for SeqFailureHandler<P, H> {
    type PFRetriever = P;

    type Handler = H;

    fn new(proxy_failure_retriever: P, handler: H) -> (this: Self)
        ensures
            this.retriever() == proxy_failure_retriever,
            this.handler() == handler,
    {
        Self { proxy_failure_retriever, handler }
    }

    /// One full handling pass. It comes to a single result, which is a
    /// failure only where retrieval failed.
    fn run(&self) -> (results: Vec<Result<(), CoordinateError>>)
        ensures
            results@.len() == 1,
            exists|failures: Vec<Result<ProxyFailure, CoordinateError>>| #[trigger]
                self.retrieves(failures) && self.pass_may_yield(failures@, results@[0])
                    && results@[0] == first_error(retrieval_results(failures@)),
    {
        let failures = self.proxy_failure_retriever.retrieve_proxy_failures();
        let ghost retrieved = failures;
        let r = self.run_with(failures);
        let results = vec![r];
        proof {
            assert(self.retrieves(retrieved));
        }
        results
    }
}

} // verus!
