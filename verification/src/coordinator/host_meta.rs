//! Host metadata synchronisation: every known proxy is sent the metadata the
//! broker holds for it.

use super::error::CoordinateError;
use super::pass::{first_error, outcomes_of, run_pass, Progress, ProxiesRetriever};
use crate::common::cluster::Host;
use vstd::prelude::*;

verus! {

/// Pushes metadata down to the proxy it is about.
pub trait HostMetaSender: Sync + Send + 'static {
    fn send_meta(&self, host: Host) -> Result<(), CoordinateError>;
}

/// Looks up the metadata of the proxy at an address; `None` where the broker
/// knows no such proxy.
pub trait HostMetaRetriever: Sync + Send + 'static {
    fn get_host_meta(&self, address: String) -> Result<Option<Host>, CoordinateError>;
}

/// A component that brings the proxies' metadata up to date, one pass at a
/// time.
pub trait HostMetaSynchronizer: Sized {
    type PRetriever: ProxiesRetriever;

    type MRetriever: HostMetaRetriever;

    type Sender: HostMetaSender;

    fn new(
        proxy_retriever: Self::PRetriever,
        meta_retriever: Self::MRetriever,
        sender: Self::Sender,
    ) -> Self;

    fn run(&self) -> Vec<Result<(), CoordinateError>>;
}

/// How many proxies are synchronised side by side.
pub const HOST_META_BATCH_SIZE: usize = 10;

/// What synchronising one proxy asks of the outside.
pub enum MetaRequest {
    GetHostMeta(String),
    SendMeta(Host),
}

/// What the outside answers.
pub enum MetaReply {
    HostMeta(Result<Option<Host>, CoordinateError>),
    Sent(Result<(), CoordinateError>),
}

/// The synchronisation of one proxy, between its calls.
pub enum RetrieveAndSendMeta {
    Retrieving,
    Sending,
}

impl RetrieveAndSendMeta {
    /// Synchronising a proxy starts by looking its metadata up.
    pub open spec fn spec_begin(address: String) -> Progress<RetrieveAndSendMeta, MetaRequest> {
        Progress::Call(RetrieveAndSendMeta::Retrieving, MetaRequest::GetHostMeta(address))
    }

    /// Metadata that was found is sent on as it is, and the result of
    /// sending is the result. A proxy the broker does not know needs nothing.
    /// A lookup that failed is the result as it is. An answer to a question
    /// that was not asked is an invalid reply.
    pub open spec fn spec_resume(self, reply: MetaReply) -> Progress<
        RetrieveAndSendMeta,
        MetaRequest,
    > {
        match (self, reply) {
            (RetrieveAndSendMeta::Retrieving, MetaReply::HostMeta(Ok(Some(host)))) => {
                Progress::Call(RetrieveAndSendMeta::Sending, MetaRequest::SendMeta(host))
            },
            (RetrieveAndSendMeta::Retrieving, MetaReply::HostMeta(Ok(None))) => Progress::Done(
                Ok(()),
            ),
            (RetrieveAndSendMeta::Retrieving, MetaReply::HostMeta(Err(err))) => Progress::Done(
                Err(err),
            ),
            (RetrieveAndSendMeta::Sending, MetaReply::Sent(r)) => Progress::Done(r),
            _ => Progress::Done(Err(CoordinateError::InvalidReply)),
        }
    }

    /// How many calls the synchronisation may still make.
    pub open spec fn steps_left(progress: Progress<RetrieveAndSendMeta, MetaRequest>) -> nat {
        match progress {
            Progress::Call(RetrieveAndSendMeta::Retrieving, _) => 2,
            Progress::Call(RetrieveAndSendMeta::Sending, _) => 1,
            Progress::Done(_) => 0,
        }
    }

    /// The requests the synchronisation makes from `progress` on while the
    /// outside answers with `replies`, in this order.
    pub open spec fn requests(
        progress: Progress<RetrieveAndSendMeta, MetaRequest>,
        replies: Seq<MetaReply>,
    ) -> Seq<MetaRequest>
        decreases replies.len(),
    {
        match progress {
            Progress::Done(_) => Seq::empty(),
            Progress::Call(stage, request) => if replies.len() == 0 {
                seq![request]
            } else {
                seq![request] + Self::requests(stage.spec_resume(replies[0]), replies.skip(1))
            },
        }
    }

    pub fn begin(address: String) -> (progress: Progress<RetrieveAndSendMeta, MetaRequest>)
        ensures
            progress == Self::spec_begin(address),
    {
        Progress::Call(RetrieveAndSendMeta::Retrieving, MetaRequest::GetHostMeta(address))
    }

    pub fn resume(self, reply: MetaReply) -> (progress: Progress<
        RetrieveAndSendMeta,
        MetaRequest,
    >)
        ensures
            progress == self.spec_resume(reply),
    {
        match self {
            RetrieveAndSendMeta::Retrieving => match reply {
                MetaReply::HostMeta(Ok(Some(host))) => Progress::Call(
                    RetrieveAndSendMeta::Sending,
                    MetaRequest::SendMeta(host),
                ),
                MetaReply::HostMeta(Ok(None)) => Progress::Done(Ok(())),
                MetaReply::HostMeta(Err(err)) => Progress::Done(Err(err)),
                MetaReply::Sent(_) => Progress::Done(Err(CoordinateError::InvalidReply)),
            },
            RetrieveAndSendMeta::Sending => match reply {
                MetaReply::Sent(r) => Progress::Done(r),
                MetaReply::HostMeta(_) => Progress::Done(Err(CoordinateError::InvalidReply)),
            },
        }
    }
}

/// How many of `requests` send metadata.
pub open spec fn count_sends(requests: Seq<MetaRequest>) -> nat
    decreases requests.len(),
{
    if requests.len() == 0 {
        0
    } else {
        count_sends(requests.drop_last()) + if requests.last() is SendMeta {
            1nat
        } else {
            0nat
        }
    }
}

/// How many of the lookups found metadata.
pub open spec fn count_found(lookups: Seq<Result<Option<Host>, CoordinateError>>) -> nat
    decreases lookups.len(),
{
    if lookups.len() == 0 {
        0
    } else {
        count_found(lookups.drop_last()) + if lookups.last() matches Ok(Some(_)) {
            1nat
        } else {
            0nat
        }
    }
}

/// Every request made over a fleet, proxy after proxy, when the lookup for
/// the proxy at `addresses[i]` is answered with `lookups[i]` and sending to
/// it would be answered with `sent[i]`.
pub open spec fn fleet_requests(
    addresses: Seq<String>,
    lookups: Seq<Result<Option<Host>, CoordinateError>>,
    sent: Seq<Result<(), CoordinateError>>,
) -> Seq<MetaRequest>
    decreases addresses.len(),
{
    if addresses.len() == 0 {
        Seq::empty()
    } else {
        fleet_requests(addresses.drop_last(), lookups.drop_last(), sent.drop_last())
            + RetrieveAndSendMeta::requests(
            RetrieveAndSendMeta::spec_begin(addresses.last()),
            seq![MetaReply::HostMeta(lookups.last()), MetaReply::Sent(sent.last())],
        )
    }
}

/// The synchronisation of one proxy looks its metadata up first and sends
/// exactly what was found. Where nothing was found nothing is sent, and the
/// proxy counts as done.
pub proof fn lemma_send_follows_lookup(
    address: String,
    lookup: Result<Option<Host>, CoordinateError>,
    sent: Result<(), CoordinateError>,
)
    ensures
        RetrieveAndSendMeta::requests(
            RetrieveAndSendMeta::spec_begin(address),
            seq![MetaReply::HostMeta(lookup), MetaReply::Sent(sent)],
        ) == match lookup {
            Ok(Some(host)) => seq![MetaRequest::GetHostMeta(address), MetaRequest::SendMeta(host)],
            _ => seq![MetaRequest::GetHostMeta(address)],
        },
        lookup matches Ok(None) ==> RetrieveAndSendMeta::Retrieving.spec_resume(
            MetaReply::HostMeta(lookup),
        ) == Progress::<RetrieveAndSendMeta, MetaRequest>::Done(Ok(())),
{
    let replies = seq![MetaReply::HostMeta(lookup), MetaReply::Sent(sent)];
    let after_lookup = RetrieveAndSendMeta::Retrieving.spec_resume(replies[0]);
    assert(replies.skip(1) =~= seq![MetaReply::Sent(sent)]);
    assert(replies.skip(1).skip(1) =~= Seq::<MetaReply>::empty());
    match lookup {
        Ok(Some(host)) => {
            let after_send = RetrieveAndSendMeta::Sending.spec_resume(replies.skip(1)[0]);
            assert(RetrieveAndSendMeta::requests(after_send, replies.skip(1).skip(1))
                =~= Seq::<MetaRequest>::empty());
            assert(RetrieveAndSendMeta::requests(after_lookup, replies.skip(1)) =~= seq![
                MetaRequest::SendMeta(host),
            ]);
            assert(RetrieveAndSendMeta::requests(
                RetrieveAndSendMeta::spec_begin(address),
                replies,
            ) =~= seq![MetaRequest::GetHostMeta(address), MetaRequest::SendMeta(host)]);
        },
        _ => {
            assert(RetrieveAndSendMeta::requests(after_lookup, replies.skip(1))
                =~= Seq::<MetaRequest>::empty());
            assert(RetrieveAndSendMeta::requests(
                RetrieveAndSendMeta::spec_begin(address),
                replies,
            ) =~= seq![MetaRequest::GetHostMeta(address)]);
        },
    }
}

/// Counting sends goes along with putting requests one after another.
pub proof fn lemma_count_sends_concat(a: Seq<MetaRequest>, b: Seq<MetaRequest>)
    ensures
        count_sends(a + b) == count_sends(a) + count_sends(b),
    decreases b.len(),
{
    if b.len() == 0 {
        assert(a + b =~= a);
    } else {
        assert((a + b).drop_last() =~= a + b.drop_last());
        lemma_count_sends_concat(a, b.drop_last());
    }
}

/// Over a fleet metadata is sent exactly as often as a lookup found some,
/// whatever sending came to: a proxy that cannot be served keeps no other
/// from being served.
pub proof fn lemma_sends_match_found(
    addresses: Seq<String>,
    lookups: Seq<Result<Option<Host>, CoordinateError>>,
    sent: Seq<Result<(), CoordinateError>>,
)
    requires
        addresses.len() == lookups.len(),
        addresses.len() == sent.len(),
    ensures
        count_sends(fleet_requests(addresses, lookups, sent)) == count_found(lookups),
    decreases addresses.len(),
{
    if addresses.len() > 0 {
        let before = fleet_requests(addresses.drop_last(), lookups.drop_last(), sent.drop_last());
        let own = RetrieveAndSendMeta::requests(
            RetrieveAndSendMeta::spec_begin(addresses.last()),
            seq![MetaReply::HostMeta(lookups.last()), MetaReply::Sent(sent.last())],
        );
        lemma_sends_match_found(addresses.drop_last(), lookups.drop_last(), sent.drop_last());
        lemma_send_follows_lookup(addresses.last(), lookups.last(), sent.last());
        lemma_count_sends_concat(before, own);
        reveal_with_fuel(count_sends, 3);
        match lookups.last() {
            Ok(Some(host)) => {
                assert(own.drop_last() =~= seq![MetaRequest::GetHostMeta(addresses.last())]);
                assert(own.drop_last().drop_last() =~= Seq::<MetaRequest>::empty());
                assert(count_sends(own) == 1);
            },
            _ => {
                assert(own.drop_last() =~= Seq::<MetaRequest>::empty());
                assert(count_sends(own) == 0);
            },
        }
    }
}

/// Synchronises the proxies one batch after the other.
pub struct HostMetaRespSynchronizer<
    PRetriever: ProxiesRetriever,
    MRetriever: HostMetaRetriever,
    Sender: HostMetaSender,
> {
    proxy_retriever: PRetriever,
    meta_retriever: MRetriever,
    sender: Sender,
}

impl<P: ProxiesRetriever, M: HostMetaRetriever, S: HostMetaSender> HostMetaRespSynchronizer<
    P,
    M,
    S,
> {
    /// The source of addresses this synchroniser was made with.
    pub closed spec fn proxy_retriever(&self) -> &P {
        &self.proxy_retriever
    }

    /// The source of metadata this synchroniser was made with.
    pub closed spec fn meta_retriever(&self) -> &M {
        &self.meta_retriever
    }

    /// The sender this synchroniser was made with.
    pub closed spec fn sender(&self) -> &S {
        &self.sender
    }

    /// The retriever may hand out `proxies`.
    pub open spec fn retrieves(&self, proxies: Vec<Result<String, CoordinateError>>) -> bool {
        call_ensures(P::retrieve_proxies, (self.proxy_retriever(),), proxies)
    }

    /// `reply` is something the collaborator that `request` goes to may
    /// answer to it.
    pub open spec fn answers(&self, request: MetaRequest, reply: MetaReply) -> bool {
        match (request, reply) {
            (MetaRequest::GetHostMeta(address), MetaReply::HostMeta(r)) => call_ensures(
                M::get_host_meta,
                (self.meta_retriever(), address),
                r,
            ),
            (MetaRequest::SendMeta(host), MetaReply::Sent(r)) => call_ensures(
                S::send_meta,
                (self.sender(), host),
                r,
            ),
            _ => false,
        }
    }

    /// From `progress`, with every request answered by the collaborator it
    /// goes to, the synchronisation may come to `r`.
    pub open spec fn may_finish(
        &self,
        progress: Progress<RetrieveAndSendMeta, MetaRequest>,
        r: Result<(), CoordinateError>,
    ) -> bool
        decreases RetrieveAndSendMeta::steps_left(progress),
    {
        match progress {
            Progress::Done(result) => r == result,
            Progress::Call(stage, request) => exists|reply: MetaReply| #[trigger]
                self.answers(request, reply) && self.may_finish(stage.spec_resume(reply), r),
        }
    }

    /// Synchronising the proxy at `address` may come to `r`: the lookup for
    /// `address` gives some answer. If the lookup fails, `r` is its failure;
    /// if it finds nothing, `r` is success; if it finds metadata, `r` is what
    /// the sender answers when given exactly that.
    pub open spec fn may_retrieve_and_send_meta(
        &self,
        address: String,
        r: Result<(), CoordinateError>,
    ) -> bool {
        exists|lookup: Result<Option<Host>, CoordinateError>| #[trigger]
            self.answers(MetaRequest::GetHostMeta(address), MetaReply::HostMeta(lookup))
                && match lookup {
                Err(err) => r == Err::<(), CoordinateError>(err),
                Ok(None) => r == Ok::<(), CoordinateError>(()),
                Ok(Some(host)) => self.answers(MetaRequest::SendMeta(host), MetaReply::Sent(r)),
            }
    }

    /// Step by step or said at once, the synchronisation of a proxy comes to
    /// the same.
    pub proof fn lemma_retrieve_and_send_meta(
        &self,
        address: String,
        r: Result<(), CoordinateError>,
    )
        ensures
            self.may_finish(RetrieveAndSendMeta::spec_begin(address), r)
                <==> self.may_retrieve_and_send_meta(address, r),
    {
        reveal_with_fuel(HostMetaRespSynchronizer::may_finish, 3);
        let ask = MetaRequest::GetHostMeta(address);
        if self.may_finish(RetrieveAndSendMeta::spec_begin(address), r) {
            let reply = choose|reply: MetaReply| #[trigger]
                self.answers(ask, reply) && self.may_finish(
                    RetrieveAndSendMeta::Retrieving.spec_resume(reply),
                    r,
                );
            let lookup = reply->HostMeta_0;
            assert(self.answers(ask, MetaReply::HostMeta(lookup)));
            match lookup {
                Ok(Some(host)) => {
                    let second = choose|second: MetaReply| #[trigger]
                        self.answers(MetaRequest::SendMeta(host), second) && self.may_finish(
                            RetrieveAndSendMeta::Sending.spec_resume(second),
                            r,
                        );
                    assert(second == MetaReply::Sent(r));
                },
                _ => {},
            }
        }
        if self.may_retrieve_and_send_meta(address, r) {
            let lookup = choose|lookup: Result<Option<Host>, CoordinateError>| #[trigger]
                self.answers(ask, MetaReply::HostMeta(lookup)) && match lookup {
                    Err(err) => r == Err::<(), CoordinateError>(err),
                    Ok(None) => r == Ok::<(), CoordinateError>(()),
                    Ok(Some(host)) => self.answers(
                        MetaRequest::SendMeta(host),
                        MetaReply::Sent(r),
                    ),
                };
            let reply = MetaReply::HostMeta(lookup);
            assert(self.answers(ask, reply));
            match lookup {
                Ok(Some(host)) => {
                    let second = MetaReply::Sent(r);
                    assert(self.answers(MetaRequest::SendMeta(host), second));
                    assert(self.may_finish(RetrieveAndSendMeta::Sending.spec_resume(second), r));
                    assert(self.may_finish(RetrieveAndSendMeta::Retrieving.spec_resume(reply), r));
                },
                _ => {
                    assert(self.may_finish(RetrieveAndSendMeta::Retrieving.spec_resume(reply), r));
                },
            }
        }
    }

    /// What a retrieved entry may come to: its own failure, if it could not
    /// be retrieved, and else what synchronising its address may come to.
    pub open spec fn entry_may_yield(
        &self,
        entry: Result<String, CoordinateError>,
        outcome: Result<(), CoordinateError>,
    ) -> bool {
        match entry {
            Err(err) => outcome == Err::<(), CoordinateError>(err),
            Ok(address) => self.may_retrieve_and_send_meta(address, outcome),
        }
    }

    /// The pass over `proxies` may come to `r`: every entry has an outcome,
    /// whatever became of the others, and `r` is the first failure among the
    /// outcomes, in the order of the entries.
    pub open spec fn pass_may_yield(
        &self,
        proxies: Seq<Result<String, CoordinateError>>,
        r: Result<(), CoordinateError>,
    ) -> bool {
        exists|outcomes: Seq<Result<(), CoordinateError>>|
            {
                &&& outcomes.len() == proxies.len()
                &&& forall|i: int|
                    0 <= i < proxies.len() ==> self.entry_may_yield(
                        proxies[i],
                        #[trigger] outcomes[i],
                    )
                &&& r == #[trigger] first_error(outcomes)
            }
    }

    /// Carries out one request against the collaborator it goes to.
    fn perform(&self, request: MetaRequest) -> (reply: MetaReply)
        ensures
            self.answers(request, reply),
    {
        match request {
            MetaRequest::GetHostMeta(address) => MetaReply::HostMeta(
                self.meta_retriever.get_host_meta(address),
            ),
            MetaRequest::SendMeta(host) => MetaReply::Sent(self.sender.send_meta(host)),
        }
    }

    /// Looks up the metadata of one proxy and sends it on if there is any.
    pub fn retrieve_and_send_meta(&self, address: String) -> (r: Result<(), CoordinateError>)
        ensures
            self.may_retrieve_and_send_meta(address, r),
            self.may_finish(RetrieveAndSendMeta::spec_begin(address), r),
    {
        let ghost start = RetrieveAndSendMeta::spec_begin(address);
        let mut progress = RetrieveAndSendMeta::begin(address);
        loop
            invariant
                start == RetrieveAndSendMeta::spec_begin(address),
                forall|r: Result<(), CoordinateError>| #[trigger]
                    self.may_finish(progress, r) ==> self.may_finish(start, r),
            decreases RetrieveAndSendMeta::steps_left(progress),
        {
            let ghost current = progress;
            match progress {
                Progress::Done(r) => {
                    assert(self.may_finish(current, r));
                    proof {
                        self.lemma_retrieve_and_send_meta(address, r);
                    }
                    return r;
                },
                Progress::Call(stage, request) => {
                    let reply = self.perform(request);
                    progress = stage.resume(reply);
                    assert forall|r: Result<(), CoordinateError>| #[trigger]
                        self.may_finish(progress, r) implies self.may_finish(start, r) by {
                        assert(self.answers(request, reply));
                        assert(self.may_finish(current, r));
                    }
                },
            }
        }
    }

    /// One pass over `proxies`, as the retriever handed them out.
    pub fn run_with(&self, proxies: Vec<Result<String, CoordinateError>>) -> (r: Result<
        (),
        CoordinateError,
    >)
        ensures
            self.pass_may_yield(proxies@, r),
    {
        let work = |address: String| -> (r: Result<(), CoordinateError>)
            ensures
                self.may_retrieve_and_send_meta(address, r),
            { self.retrieve_and_send_meta(address) };
        let r = run_pass(proxies, HOST_META_BATCH_SIZE, &work);
        proof {
            let outcomes = choose|outcomes: Seq<Result<(), CoordinateError>>| #[trigger]
                outcomes_of(&work, proxies@, outcomes) && r == first_error(outcomes);
            assert forall|i: int| 0 <= i < proxies@.len() implies self.entry_may_yield(
                proxies@[i],
                #[trigger] outcomes[i],
            ) by {}
        }
        r
    }
}

impl<P: ProxiesRetriever, M: HostMetaRetriever, S: HostMetaSender> HostMetaSynchronizer
    for HostMetaRespSynchronizer<P, M, S> {
    type PRetriever = P;

    type MRetriever = M;

    type Sender = S;

    fn new(proxy_retriever: P, meta_retriever: M, sender: S) -> (this: Self)
        ensures
            this.proxy_retriever() == proxy_retriever,
            this.meta_retriever() == meta_retriever,
            this.sender() == sender,
    {
        Self { proxy_retriever, meta_retriever, sender }
    }

    /// One full synchronisation pass. It comes to a single result: the first
    /// failure met, if any.
    fn run(&self) -> (results: Vec<Result<(), CoordinateError>>)
        ensures
            results@.len() == 1,
            exists|proxies: Vec<Result<String, CoordinateError>>| #[trigger]
                self.retrieves(proxies) && self.pass_may_yield(proxies@, results@[0]),
    {
        let proxies = self.proxy_retriever.retrieve_proxies();
        let ghost retrieved = proxies;
        let r = self.run_with(proxies);
        let results = vec![r];
        proof {
            assert(self.retrieves(retrieved));
        }
        results
    }
}

} // verus!
