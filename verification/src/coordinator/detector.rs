//! Failure detection: every known proxy is checked, and each one found
//! unhealthy is reported.

use super::error::CoordinateError;
use super::pass::{first_error, outcomes_of, run_pass, Progress, ProxiesRetriever};
use vstd::prelude::*;

verus! {

/// The liveness probe. It answers with the address to report, or with
/// `None` for a healthy proxy.
pub trait FailureChecker: Sync + Send + 'static {
    fn check(&self, address: String) -> Result<Option<String>, CoordinateError>;
}

/// Where failures are reported to.
pub trait FailureReporter: Sync + Send + 'static {
    fn report(&self, address: String) -> Result<(), CoordinateError>;
}

/// A component that checks the fleet, one pass at a time.
pub trait FailureDetector: Sized {
    type Retriever: ProxiesRetriever;

    type Checker: FailureChecker;

    type Reporter: FailureReporter;

    fn new(retriever: Self::Retriever, checker: Self::Checker, reporter: Self::Reporter) -> Self;

    fn run(&self) -> Result<(), CoordinateError>;
}

/// How many proxies are checked side by side.
pub const DETECTOR_BATCH_SIZE: usize = 30;

/// What checking one proxy asks of the outside.
pub enum DetectRequest {
    Check(String),
    Report(String),
}

/// What the outside answers.
pub enum DetectReply {
    Checked(Result<Option<String>, CoordinateError>),
    Reported(Result<(), CoordinateError>),
}

/// The check of one proxy, between its calls.
pub enum CheckAndReport {
    Checking,
    Reporting,
}

impl CheckAndReport {
    /// The check of a proxy starts by probing it.
    pub open spec fn spec_begin(address: String) -> Progress<CheckAndReport, DetectRequest> {
        Progress::Call(CheckAndReport::Checking, DetectRequest::Check(address))
    }

    /// A healthy proxy needs nothing more. An unhealthy one is reported, under
    /// the address the probe gave, and the report's result is the result. A
    /// probe that failed is the result as it is. An answer to a question that
    /// was not asked is an invalid reply.
    pub open spec fn spec_resume(self, reply: DetectReply) -> Progress<
        CheckAndReport,
        DetectRequest,
    > {
        match (self, reply) {
            (CheckAndReport::Checking, DetectReply::Checked(Ok(Some(failed)))) => Progress::Call(
                CheckAndReport::Reporting,
                DetectRequest::Report(failed),
            ),
            (CheckAndReport::Checking, DetectReply::Checked(Ok(None))) => Progress::Done(Ok(())),
            (CheckAndReport::Checking, DetectReply::Checked(Err(err))) => Progress::Done(
                Err(err),
            ),
            (CheckAndReport::Reporting, DetectReply::Reported(r)) => Progress::Done(r),
            _ => Progress::Done(Err(CoordinateError::InvalidReply)),
        }
    }

    /// How many calls the check may still make.
    pub open spec fn steps_left(progress: Progress<CheckAndReport, DetectRequest>) -> nat {
        match progress {
            Progress::Call(CheckAndReport::Checking, _) => 2,
            Progress::Call(CheckAndReport::Reporting, _) => 1,
            Progress::Done(_) => 0,
        }
    }

    /// The requests the check makes from `progress` on while the outside
    /// answers with `replies`, in this order.
    pub open spec fn requests(
        progress: Progress<CheckAndReport, DetectRequest>,
        replies: Seq<DetectReply>,
    ) -> Seq<DetectRequest>
        decreases replies.len(),
    {
        match progress {
            Progress::Done(_) => Seq::empty(),
            Progress::Call(stage, request) => if replies.len() == 0 {
                seq![request]
            } else {
                seq![request] + Self::requests(stage.spec_resume(replies[0]), replies.skip(1))
            },
        }
    }

    pub fn begin(address: String) -> (progress: Progress<CheckAndReport, DetectRequest>)
        ensures
            progress == Self::spec_begin(address),
    {
        Progress::Call(CheckAndReport::Checking, DetectRequest::Check(address))
    }

    pub fn resume(self, reply: DetectReply) -> (progress: Progress<CheckAndReport, DetectRequest>)
        ensures
            progress == self.spec_resume(reply),
    {
        match self {
            CheckAndReport::Checking => match reply {
                DetectReply::Checked(Ok(Some(failed))) => Progress::Call(
                    CheckAndReport::Reporting,
                    DetectRequest::Report(failed),
                ),
                DetectReply::Checked(Ok(None)) => Progress::Done(Ok(())),
                DetectReply::Checked(Err(err)) => Progress::Done(Err(err)),
                DetectReply::Reported(_) => Progress::Done(Err(CoordinateError::InvalidReply)),
            },
            CheckAndReport::Reporting => match reply {
                DetectReply::Reported(r) => Progress::Done(r),
                DetectReply::Checked(_) => Progress::Done(Err(CoordinateError::InvalidReply)),
            },
        }
    }
}

/// How many of `requests` are reports.
pub open spec fn count_reports(requests: Seq<DetectRequest>) -> nat
    decreases requests.len(),
{
    if requests.len() == 0 {
        0
    } else {
        count_reports(requests.drop_last()) + if requests.last() is Report {
            1nat
        } else {
            0nat
        }
    }
}

/// How many of the probe's answers call a proxy unhealthy.
pub open spec fn count_unhealthy(checks: Seq<Result<Option<String>, CoordinateError>>) -> nat
    decreases checks.len(),
{
    if checks.len() == 0 {
        0
    } else {
        count_unhealthy(checks.drop_last()) + if checks.last() matches Ok(Some(_)) {
            1nat
        } else {
            0nat
        }
    }
}

/// Every request made over a fleet, proxy after proxy, when the probe
/// answers `checks[i]` for the proxy at `addresses[i]` and a report for it
/// would be answered with `reported[i]`.
pub open spec fn fleet_requests(
    addresses: Seq<String>,
    checks: Seq<Result<Option<String>, CoordinateError>>,
    reported: Seq<Result<(), CoordinateError>>,
) -> Seq<DetectRequest>
    decreases addresses.len(),
{
    if addresses.len() == 0 {
        Seq::empty()
    } else {
        fleet_requests(addresses.drop_last(), checks.drop_last(), reported.drop_last())
            + CheckAndReport::requests(
            CheckAndReport::spec_begin(addresses.last()),
            seq![DetectReply::Checked(checks.last()), DetectReply::Reported(reported.last())],
        )
    }
}

/// The check of one proxy probes it first and reports it exactly when the
/// probe calls it unhealthy, under the address the probe gave.
pub proof fn lemma_report_follows_probe(
    address: String,
    checked: Result<Option<String>, CoordinateError>,
    reported: Result<(), CoordinateError>,
)
    ensures
        CheckAndReport::requests(
            CheckAndReport::spec_begin(address),
            seq![DetectReply::Checked(checked), DetectReply::Reported(reported)],
        ) == match checked {
            Ok(Some(failed)) => seq![DetectRequest::Check(address), DetectRequest::Report(failed)],
            _ => seq![DetectRequest::Check(address)],
        },
{
    let replies = seq![DetectReply::Checked(checked), DetectReply::Reported(reported)];
    let after_probe = CheckAndReport::Checking.spec_resume(replies[0]);
    assert(replies.skip(1) =~= seq![DetectReply::Reported(reported)]);
    assert(replies.skip(1).skip(1) =~= Seq::<DetectReply>::empty());
    match checked {
        Ok(Some(failed)) => {
            let after_report = CheckAndReport::Reporting.spec_resume(replies.skip(1)[0]);
            assert(CheckAndReport::requests(after_report, replies.skip(1).skip(1))
                =~= Seq::<DetectRequest>::empty());
            assert(CheckAndReport::requests(after_probe, replies.skip(1)) =~= seq![
                DetectRequest::Report(failed),
            ]);
            assert(CheckAndReport::requests(CheckAndReport::spec_begin(address), replies) =~= seq![
                DetectRequest::Check(address),
                DetectRequest::Report(failed),
            ]);
        },
        _ => {
            assert(CheckAndReport::requests(after_probe, replies.skip(1))
                =~= Seq::<DetectRequest>::empty());
            assert(CheckAndReport::requests(CheckAndReport::spec_begin(address), replies) =~= seq![
                DetectRequest::Check(address),
            ]);
        },
    }
}

/// Counting reports goes along with putting requests one after another.
pub proof fn lemma_count_reports_concat(a: Seq<DetectRequest>, b: Seq<DetectRequest>)
    ensures
        count_reports(a + b) == count_reports(a) + count_reports(b),
    decreases b.len(),
{
    if b.len() == 0 {
        assert(a + b =~= a);
    } else {
        assert((a + b).drop_last() =~= a + b.drop_last());
        lemma_count_reports_concat(a, b.drop_last());
    }
}

/// Over a fleet there are exactly as many reports as the probe called
/// proxies unhealthy, whatever the reports themselves came to: a report that
/// fails keeps no other proxy from being reported.
pub proof fn lemma_reports_match_unhealthy(
    addresses: Seq<String>,
    checks: Seq<Result<Option<String>, CoordinateError>>,
    reported: Seq<Result<(), CoordinateError>>,
)
    requires
        addresses.len() == checks.len(),
        addresses.len() == reported.len(),
    ensures
        count_reports(fleet_requests(addresses, checks, reported)) == count_unhealthy(checks),
    decreases addresses.len(),
{
    if addresses.len() > 0 {
        let before = fleet_requests(
            addresses.drop_last(),
            checks.drop_last(),
            reported.drop_last(),
        );
        let own = CheckAndReport::requests(
            CheckAndReport::spec_begin(addresses.last()),
            seq![DetectReply::Checked(checks.last()), DetectReply::Reported(reported.last())],
        );
        lemma_reports_match_unhealthy(
            addresses.drop_last(),
            checks.drop_last(),
            reported.drop_last(),
        );
        lemma_report_follows_probe(addresses.last(), checks.last(), reported.last());
        lemma_count_reports_concat(before, own);
        reveal_with_fuel(count_reports, 3);
        match checks.last() {
            Ok(Some(failed)) => {
                assert(own.drop_last() =~= seq![DetectRequest::Check(addresses.last())]);
                assert(own.drop_last().drop_last() =~= Seq::<DetectRequest>::empty());
                assert(count_reports(own.drop_last()) == 0);
                assert(count_reports(own) == 1);
            },
            _ => {
                assert(own.drop_last() =~= Seq::<DetectRequest>::empty());
                assert(count_reports(own) == 0);
            },
        }
    }
}

/// Checks the fleet one batch after the other.
pub struct SeqFailureDetector<
    Retriever: ProxiesRetriever,
    Checker: FailureChecker,
    Reporter: FailureReporter,
> {
    retriever: Retriever,
    checker: Checker,
    reporter: Reporter,
}

impl<T: ProxiesRetriever, C: FailureChecker, P: FailureReporter> SeqFailureDetector<T, C, P> {
    /// The retriever this detector was made with.
    pub closed spec fn retriever(&self) -> &T {
        &self.retriever
    }

    /// The probe this detector was made with.
    pub closed spec fn checker(&self) -> &C {
        &self.checker
    }

    /// The reporter this detector was made with.
    pub closed spec fn reporter(&self) -> &P {
        &self.reporter
    }

    /// The retriever may hand out `proxies`.
    pub open spec fn retrieves(&self, proxies: Vec<Result<String, CoordinateError>>) -> bool {
        call_ensures(T::retrieve_proxies, (self.retriever(),), proxies)
    }

    /// `reply` is something the collaborator that `request` goes to may
    /// answer to it.
    pub open spec fn answers(&self, request: DetectRequest, reply: DetectReply) -> bool {
        match (request, reply) {
            (DetectRequest::Check(address), DetectReply::Checked(r)) => call_ensures(
                C::check,
                (self.checker(), address),
                r,
            ),
            (DetectRequest::Report(address), DetectReply::Reported(r)) => call_ensures(
                P::report,
                (self.reporter(), address),
                r,
            ),
            _ => false,
        }
    }

    /// From `progress`, with every request answered by the collaborator it
    /// goes to, the check may come to `r`.
    pub open spec fn may_finish(
        &self,
        progress: Progress<CheckAndReport, DetectRequest>,
        r: Result<(), CoordinateError>,
    ) -> bool
        decreases CheckAndReport::steps_left(progress),
    {
        match progress {
            Progress::Done(result) => r == result,
            Progress::Call(stage, request) => exists|reply: DetectReply| #[trigger]
                self.answers(request, reply) && self.may_finish(stage.spec_resume(reply), r),
        }
    }

    /// Checking the proxy at `address` may come to `r`: the probe, asked
    /// about `address`, gives some answer. If the probe fails, `r` is its
    /// failure; if it calls the proxy healthy, `r` is success; if it names a
    /// proxy to report, `r` is what the reporter answers when told of it.
    pub open spec fn may_check_and_report(
        &self,
        address: String,
        r: Result<(), CoordinateError>,
    ) -> bool {
        exists|checked: Result<Option<String>, CoordinateError>| #[trigger]
            self.answers(DetectRequest::Check(address), DetectReply::Checked(checked))
                && match checked {
                Err(err) => r == Err::<(), CoordinateError>(err),
                Ok(None) => r == Ok::<(), CoordinateError>(()),
                Ok(Some(failed)) => self.answers(
                    DetectRequest::Report(failed),
                    DetectReply::Reported(r),
                ),
            }
    }

    /// Step by step or said at once, the check of a proxy comes to the same.
    pub proof fn lemma_check_and_report(&self, address: String, r: Result<(), CoordinateError>)
        ensures
            self.may_finish(CheckAndReport::spec_begin(address), r) <==> self.may_check_and_report(
                address,
                r,
            ),
    {
        reveal_with_fuel(SeqFailureDetector::may_finish, 3);
        let probe = DetectRequest::Check(address);
        if self.may_finish(CheckAndReport::spec_begin(address), r) {
            let reply = choose|reply: DetectReply| #[trigger]
                self.answers(probe, reply) && self.may_finish(
                    CheckAndReport::Checking.spec_resume(reply),
                    r,
                );
            let checked = reply->Checked_0;
            assert(self.answers(probe, DetectReply::Checked(checked)));
            match checked {
                Ok(Some(failed)) => {
                    let second = choose|second: DetectReply| #[trigger]
                        self.answers(DetectRequest::Report(failed), second) && self.may_finish(
                            CheckAndReport::Reporting.spec_resume(second),
                            r,
                        );
                    assert(second == DetectReply::Reported(r));
                },
                _ => {},
            }
        }
        if self.may_check_and_report(address, r) {
            let checked = choose|checked: Result<Option<String>, CoordinateError>| #[trigger]
                self.answers(probe, DetectReply::Checked(checked)) && match checked {
                    Err(err) => r == Err::<(), CoordinateError>(err),
                    Ok(None) => r == Ok::<(), CoordinateError>(()),
                    Ok(Some(failed)) => self.answers(
                        DetectRequest::Report(failed),
                        DetectReply::Reported(r),
                    ),
                };
            let reply = DetectReply::Checked(checked);
            assert(self.answers(probe, reply));
            match checked {
                Ok(Some(failed)) => {
                    let second = DetectReply::Reported(r);
                    assert(self.answers(DetectRequest::Report(failed), second));
                    assert(self.may_finish(CheckAndReport::Reporting.spec_resume(second), r));
                    assert(self.may_finish(CheckAndReport::Checking.spec_resume(reply), r));
                },
                _ => {
                    assert(self.may_finish(CheckAndReport::Checking.spec_resume(reply), r));
                },
            }
        }
    }

    /// What a retrieved entry may come to: its own failure, if it could not
    /// be retrieved, and else what the check of its address may come to.
    pub open spec fn entry_may_yield(
        &self,
        entry: Result<String, CoordinateError>,
        outcome: Result<(), CoordinateError>,
    ) -> bool {
        match entry {
            Err(err) => outcome == Err::<(), CoordinateError>(err),
            Ok(address) => self.may_check_and_report(address, outcome),
        }
    }

    /// The pass over `proxies` may come to `r`: every entry has an outcome,
    /// whatever became of the others, and `r` is the first failure among the
    /// outcomes, in the order of the entries.
    pub open spec fn pass_may_yield(
        &self,
        proxies: Seq<Result<String, CoordinateError>>,
        r: Result<(), CoordinateError>,
    ) -> bool {
        exists|outcomes: Seq<Result<(), CoordinateError>>|
            {
                &&& outcomes.len() == proxies.len()
                &&& forall|i: int|
                    0 <= i < proxies.len() ==> self.entry_may_yield(
                        proxies[i],
                        #[trigger] outcomes[i],
                    )
                &&& r == #[trigger] first_error(outcomes)
            }
    }

    /// Carries out one request against the collaborator it goes to.
    fn perform(&self, request: DetectRequest) -> (reply: DetectReply)
        ensures
            self.answers(request, reply),
    {
        match request {
            DetectRequest::Check(address) => DetectReply::Checked(self.checker.check(address)),
            DetectRequest::Report(address) => DetectReply::Reported(
                self.reporter.report(address),
            ),
        }
    }

    /// Checks one proxy and reports it if the probe says so.
    pub fn check_and_report(&self, address: String) -> (r: Result<(), CoordinateError>)
        ensures
            self.may_check_and_report(address, r),
            self.may_finish(CheckAndReport::spec_begin(address), r),
    {
        let ghost start = CheckAndReport::spec_begin(address);
        let mut progress = CheckAndReport::begin(address);
        loop
            invariant
                start == CheckAndReport::spec_begin(address),
                forall|r: Result<(), CoordinateError>| #[trigger]
                    self.may_finish(progress, r) ==> self.may_finish(start, r),
            decreases CheckAndReport::steps_left(progress),
        {
            let ghost current = progress;
            match progress {
                Progress::Done(r) => {
                    assert(self.may_finish(current, r));
                    proof {
                        self.lemma_check_and_report(address, r);
                    }
                    return r;
                },
                Progress::Call(stage, request) => {
                    let reply = self.perform(request);
                    progress = stage.resume(reply);
                    assert forall|r: Result<(), CoordinateError>| #[trigger]
                        self.may_finish(progress, r) implies self.may_finish(start, r) by {
                        assert(self.answers(request, reply));
                        assert(self.may_finish(current, r));
                    }
                },
            }
        }
    }

    /// One pass over `proxies`, as the retriever handed them out.
    pub fn run_with(&self, proxies: Vec<Result<String, CoordinateError>>) -> (r: Result<
        (),
        CoordinateError,
    >)
        ensures
            self.pass_may_yield(proxies@, r),
    {
        let work = |address: String| -> (r: Result<(), CoordinateError>)
            ensures
                self.may_check_and_report(address, r),
            { self.check_and_report(address) };
        let r = run_pass(proxies, DETECTOR_BATCH_SIZE, &work);
        proof {
            let outcomes = choose|outcomes: Seq<Result<(), CoordinateError>>| #[trigger]
                outcomes_of(&work, proxies@, outcomes) && r == first_error(outcomes);
            assert forall|i: int| 0 <= i < proxies@.len() implies self.entry_may_yield(
                proxies@[i],
                #[trigger] outcomes[i],
            ) by {}
        }
        r
    }
}

impl<T: ProxiesRetriever, C: FailureChecker, P: FailureReporter> FailureDetector
    for SeqFailureDetector<T, C, P> {
    type Retriever = T;

    type Checker = C;

    type Reporter = P;

    fn new(retriever: T, checker: C, reporter: P) -> (this: Self)
        ensures
            this.retriever() == retriever,
            this.checker() == checker,
            this.reporter() == reporter,
    {
        Self { retriever, checker, reporter }
    }

    /// One full detection pass: every proxy the retriever hands out is
    /// checked, and the pass fails with the first failure met, if any.
    fn run(&self) -> (r: Result<(), CoordinateError>)
        ensures
            exists|proxies: Vec<Result<String, CoordinateError>>| #[trigger]
                self.retrieves(proxies) && self.pass_may_yield(proxies@, r),
    {
        let proxies = self.retriever.retrieve_proxies();
        let ghost retrieved = proxies;
        let r = self.run_with(proxies);
        proof {
            assert(self.retrieves(retrieved));
        }
        r
    }
}

} // verus!
