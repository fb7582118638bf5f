//! Migration state synchronisation: every migration task a proxy reports is
//! committed to the metadata store, and the proxies at both ends are then
//! told of the new metadata, the destination first.

use super::error::CoordinateError;
use super::host_meta::{HostMetaRetriever, HostMetaSender};
use super::pass::{
    first_error, lemma_ok_is_unit, outcomes_of, run_pass, Progress, ProxiesRetriever,
};
use crate::common::cluster::{Host, MigrationTaskMeta};
use vstd::prelude::*;

verus! {

/// Asks a proxy for the migration tasks it holds ready. A task that could
/// not be read stands in the list as its failure.
pub trait MigrationStateChecker: Sync + Send + 'static {
    fn check(&self, address: String) -> Vec<Result<MigrationTaskMeta, CoordinateError>>;
}

/// Commits a migration task to the metadata store.
pub trait MigrationCommitter: Sync + Send + 'static {
    fn commit(&self, meta: MigrationTaskMeta) -> Result<(), CoordinateError>;
}

/// A component that commits finished migrations, one pass at a time.
pub trait MigrationStateSynchronizer: Sized + Sync + Send + 'static {
    type PRetriever: ProxiesRetriever;

    type Checker: MigrationStateChecker;

    type Committer: MigrationCommitter;

    type MRetriever: HostMetaRetriever;

    type Sender: HostMetaSender;

    fn new(
        proxy_retriever: Self::PRetriever,
        checker: Self::Checker,
        committer: Self::Committer,
        meta_retriever: Self::MRetriever,
        sender: Self::Sender,
    ) -> Self;

    fn run(&self) -> Vec<Result<(), CoordinateError>>;
}

/// How many proxies are synchronised side by side.
pub const MIGRATION_BATCH_SIZE: usize = 10;

/// What synchronising the migrations of one proxy asks of the outside.
pub enum MigrationRequest {
    /// The next task the proxy reported.
    NextTask,
    Commit(MigrationTaskMeta),
    GetHostMeta(String),
    SendMeta(Host),
}

/// What the outside answers.
pub enum MigrationReply {
    /// The next task, or `None` when the proxy has no more.
    Task(Option<Result<MigrationTaskMeta, CoordinateError>>),
    Committed(Result<(), CoordinateError>),
    HostMeta(Result<Option<Host>, CoordinateError>),
    Sent(Result<(), CoordinateError>),
}

/// The synchronisation of one proxy's migrations, between its calls. While
/// a task is under way the stage remembers the addresses still to be served.
pub enum CheckAndSync {
    /// Waiting for the next task.
    Listing,
    /// Waiting for the commit of a task that migrates from `src` to `dst`.
    Committing { src: String, dst: String },
    /// Waiting for the destination's metadata; `src` comes after it.
    LocatingDst { src: String },
    /// Waiting for the destination to take its metadata; `src` comes after it.
    SendingDst { src: String },
    /// Waiting for the source's metadata.
    LocatingSrc,
    /// Waiting for the source to take its metadata.
    SendingSrc,
}

impl CheckAndSync {
    /// Synchronisation starts by asking for the first task.
    pub open spec fn spec_begin() -> Progress<CheckAndSync, MigrationRequest> {
        Progress::Call(CheckAndSync::Listing, MigrationRequest::NextTask)
    }

    /// What a task asks for first: a task whose range carries the two ends
    /// of its migration is committed; any other is passed over.
    pub open spec fn spec_take_up(meta: MigrationTaskMeta) -> Progress<
        CheckAndSync,
        MigrationRequest,
    > {
        match meta.slot_range.tag.spec_migration_meta() {
            Some(ends) => Progress::Call(
                CheckAndSync::Committing {
                    src: ends.src_proxy_address,
                    dst: ends.dst_proxy_address,
                },
                MigrationRequest::Commit(meta),
            ),
            None => Progress::Call(CheckAndSync::Listing, MigrationRequest::NextTask),
        }
    }

    /// One step of the synchronisation.
    ///
    /// A task is committed first. Once it is committed the destination's
    /// metadata is looked up and sent, and only then the source's. An address
    /// that the broker does not know is passed over. The first failure, of a
    /// task that could not be read or of any call, ends the synchronisation
    /// of this proxy. An answer to a question that was not asked is an
    /// invalid reply.
    pub open spec fn spec_resume(self, reply: MigrationReply) -> Progress<
        CheckAndSync,
        MigrationRequest,
    > {
        match (self, reply) {
            (CheckAndSync::Listing, MigrationReply::Task(None)) => Progress::Done(Ok(())),
            (CheckAndSync::Listing, MigrationReply::Task(Some(Err(err)))) => Progress::Done(
                Err(err),
            ),
            (CheckAndSync::Listing, MigrationReply::Task(Some(Ok(meta)))) => Self::spec_take_up(
                meta,
            ),
            (CheckAndSync::Committing { src, dst }, MigrationReply::Committed(Ok(_))) => {
                Progress::Call(CheckAndSync::LocatingDst { src }, MigrationRequest::GetHostMeta(dst))
            },
            (CheckAndSync::Committing { .. }, MigrationReply::Committed(Err(err))) => {
                Progress::Done(Err(err))
            },
            (CheckAndSync::LocatingDst { src }, MigrationReply::HostMeta(Ok(Some(host)))) => {
                Progress::Call(CheckAndSync::SendingDst { src }, MigrationRequest::SendMeta(host))
            },
            (CheckAndSync::LocatingDst { src }, MigrationReply::HostMeta(Ok(None))) => {
                Progress::Call(CheckAndSync::LocatingSrc, MigrationRequest::GetHostMeta(src))
            },
            (CheckAndSync::LocatingDst { .. }, MigrationReply::HostMeta(Err(err))) => {
                Progress::Done(Err(err))
            },
            (CheckAndSync::SendingDst { src }, MigrationReply::Sent(Ok(_))) => Progress::Call(
                CheckAndSync::LocatingSrc,
                MigrationRequest::GetHostMeta(src),
            ),
            (CheckAndSync::SendingDst { .. }, MigrationReply::Sent(Err(err))) => Progress::Done(
                Err(err),
            ),
            (CheckAndSync::LocatingSrc, MigrationReply::HostMeta(Ok(Some(host)))) => {
                Progress::Call(CheckAndSync::SendingSrc, MigrationRequest::SendMeta(host))
            },
            (CheckAndSync::LocatingSrc, MigrationReply::HostMeta(Ok(None))) => Progress::Call(
                CheckAndSync::Listing,
                MigrationRequest::NextTask,
            ),
            (CheckAndSync::LocatingSrc, MigrationReply::HostMeta(Err(err))) => Progress::Done(
                Err(err),
            ),
            (CheckAndSync::SendingSrc, MigrationReply::Sent(Ok(_))) => Progress::Call(
                CheckAndSync::Listing,
                MigrationRequest::NextTask,
            ),
            (CheckAndSync::SendingSrc, MigrationReply::Sent(Err(err))) => Progress::Done(
                Err(err),
            ),
            _ => Progress::Done(Err(CoordinateError::InvalidReply)),
        }
    }

    /// How many calls the task under way may still need.
    pub open spec fn steps_left(progress: Progress<CheckAndSync, MigrationRequest>) -> nat {
        match progress {
            Progress::Call(CheckAndSync::Committing { .. }, _) => 6,
            Progress::Call(CheckAndSync::LocatingDst { .. }, _) => 5,
            Progress::Call(CheckAndSync::SendingDst { .. }, _) => 4,
            Progress::Call(CheckAndSync::LocatingSrc, _) => 3,
            Progress::Call(CheckAndSync::SendingSrc, _) => 2,
            Progress::Call(CheckAndSync::Listing, _) => 1,
            Progress::Done(_) => 0,
        }
    }

    /// The requests the synchronisation makes from `progress` on while the
    /// outside answers with `replies`, in this order.
    pub open spec fn requests(
        progress: Progress<CheckAndSync, MigrationRequest>,
        replies: Seq<MigrationReply>,
    ) -> Seq<MigrationRequest>
        decreases replies.len(),
    {
        match progress {
            Progress::Done(_) => Seq::empty(),
            Progress::Call(stage, request) => if replies.len() == 0 {
                seq![request]
            } else {
                seq![request] + Self::requests(stage.spec_resume(replies[0]), replies.skip(1))
            },
        }
    }

    pub fn begin() -> (progress: Progress<CheckAndSync, MigrationRequest>)
        ensures
            progress == Self::spec_begin(),
    {
        Progress::Call(CheckAndSync::Listing, MigrationRequest::NextTask)
    }

    /// Takes up one task: finds the two ends of its migration and asks for
    /// its commit, or passes it over if its range carries none.
    pub fn take_up(meta: MigrationTaskMeta) -> (progress: Progress<CheckAndSync, MigrationRequest>)
        ensures
            progress == Self::spec_take_up(meta),
    {
        let ends = match meta.slot_range.tag.get_migration_meta() {
            Some(ends) => Some((ends.src_proxy_address.clone(), ends.dst_proxy_address.clone())),
            None => None,
        };
        match ends {
            Some((src, dst)) => Progress::Call(
                CheckAndSync::Committing { src, dst },
                MigrationRequest::Commit(meta),
            ),
            None => Progress::Call(CheckAndSync::Listing, MigrationRequest::NextTask),
        }
    }

    pub fn resume(self, reply: MigrationReply) -> (progress: Progress<
        CheckAndSync,
        MigrationRequest,
    >)
        ensures
            progress == self.spec_resume(reply),
    {
        match self {
            CheckAndSync::Listing => match reply {
                MigrationReply::Task(None) => Progress::Done(Ok(())),
                MigrationReply::Task(Some(Err(err))) => Progress::Done(Err(err)),
                MigrationReply::Task(Some(Ok(meta))) => Self::take_up(meta),
                _ => Progress::Done(Err(CoordinateError::InvalidReply)),
            },
            CheckAndSync::Committing { src, dst } => match reply {
                MigrationReply::Committed(Ok(_)) => Progress::Call(
                    CheckAndSync::LocatingDst { src },
                    MigrationRequest::GetHostMeta(dst),
                ),
                MigrationReply::Committed(Err(err)) => Progress::Done(Err(err)),
                _ => Progress::Done(Err(CoordinateError::InvalidReply)),
            },
            CheckAndSync::LocatingDst { src } => match reply {
                MigrationReply::HostMeta(Ok(Some(host))) => Progress::Call(
                    CheckAndSync::SendingDst { src },
                    MigrationRequest::SendMeta(host),
                ),
                MigrationReply::HostMeta(Ok(None)) => Progress::Call(
                    CheckAndSync::LocatingSrc,
                    MigrationRequest::GetHostMeta(src),
                ),
                MigrationReply::HostMeta(Err(err)) => Progress::Done(Err(err)),
                _ => Progress::Done(Err(CoordinateError::InvalidReply)),
            },
            CheckAndSync::SendingDst { src } => match reply {
                MigrationReply::Sent(Ok(_)) => Progress::Call(
                    CheckAndSync::LocatingSrc,
                    MigrationRequest::GetHostMeta(src),
                ),
                MigrationReply::Sent(Err(err)) => Progress::Done(Err(err)),
                _ => Progress::Done(Err(CoordinateError::InvalidReply)),
            },
            CheckAndSync::LocatingSrc => match reply {
                MigrationReply::HostMeta(Ok(Some(host))) => Progress::Call(
                    CheckAndSync::SendingSrc,
                    MigrationRequest::SendMeta(host),
                ),
                MigrationReply::HostMeta(Ok(None)) => Progress::Call(
                    CheckAndSync::Listing,
                    MigrationRequest::NextTask,
                ),
                MigrationReply::HostMeta(Err(err)) => Progress::Done(Err(err)),
                _ => Progress::Done(Err(CoordinateError::InvalidReply)),
            },
            CheckAndSync::SendingSrc => match reply {
                MigrationReply::Sent(Ok(_)) => Progress::Call(
                    CheckAndSync::Listing,
                    MigrationRequest::NextTask,
                ),
                MigrationReply::Sent(Err(err)) => Progress::Done(Err(err)),
                _ => Progress::Done(Err(CoordinateError::InvalidReply)),
            },
        }
    }
}

/// The answers that bringing one proxy's metadata up to date meets: that of
/// the lookup and, if it found something, that of sending it.
pub open spec fn push_replies(
    lookup: Result<Option<Host>, CoordinateError>,
    sent: Result<(), CoordinateError>,
) -> Seq<MigrationReply> {
    match lookup {
        Ok(Some(_)) => seq![MigrationReply::HostMeta(lookup), MigrationReply::Sent(sent)],
        _ => seq![MigrationReply::HostMeta(lookup)],
    }
}

/// The calls that bring the metadata of the proxy at `address` up to date:
/// the lookup and, if it found something, the sending of what it found.
pub open spec fn push_requests(
    address: String,
    lookup: Result<Option<Host>, CoordinateError>,
) -> Seq<MigrationRequest> {
    match lookup {
        Ok(Some(host)) => seq![
            MigrationRequest::GetHostMeta(address),
            MigrationRequest::SendMeta(host),
        ],
        _ => seq![MigrationRequest::GetHostMeta(address)],
    }
}

/// Bringing a proxy's metadata up to date failed: the lookup failed, or it
/// found something that could not be sent.
pub open spec fn push_failed(
    lookup: Result<Option<Host>, CoordinateError>,
    sent: Result<(), CoordinateError>,
) -> bool {
    match lookup {
        Ok(Some(_)) => sent is Err,
        Ok(None) => false,
        Err(_) => true,
    }
}

/// What the outside answered in the course of one task.
pub struct TaskAnswers {
    pub committed: Result<(), CoordinateError>,
    pub dst_lookup: Result<Option<Host>, CoordinateError>,
    pub dst_sent: Result<(), CoordinateError>,
    pub src_lookup: Result<Option<Host>, CoordinateError>,
    pub src_sent: Result<(), CoordinateError>,
}

impl TaskAnswers {
    /// The task came through: it was committed and both ends were served.
    pub open spec fn came_through(self) -> bool {
        &&& self.committed is Ok
        &&& !push_failed(self.dst_lookup, self.dst_sent)
        &&& !push_failed(self.src_lookup, self.src_sent)
    }

    /// The answers in the order in which the task meets them. It meets none
    /// beyond its first failure.
    pub open spec fn replies(self) -> Seq<MigrationReply> {
        if self.committed is Err {
            seq![MigrationReply::Committed(self.committed)]
        } else if push_failed(self.dst_lookup, self.dst_sent) {
            seq![MigrationReply::Committed(self.committed)] + push_replies(
                self.dst_lookup,
                self.dst_sent,
            )
        } else {
            seq![MigrationReply::Committed(self.committed)] + push_replies(
                self.dst_lookup,
                self.dst_sent,
            ) + push_replies(self.src_lookup, self.src_sent)
        }
    }

    /// The calls a task from `src` to `dst` makes under these answers: the
    /// commit; then, only if that succeeded, the destination's lookup and
    /// push; then, only if those did not fail, the source's lookup and push.
    pub open spec fn calls(self, meta: MigrationTaskMeta, src: String, dst: String) -> Seq<
        MigrationRequest,
    > {
        if self.committed is Err {
            seq![MigrationRequest::Commit(meta)]
        } else if push_failed(self.dst_lookup, self.dst_sent) {
            seq![MigrationRequest::Commit(meta)] + push_requests(dst, self.dst_lookup)
        } else {
            seq![MigrationRequest::Commit(meta)] + push_requests(dst, self.dst_lookup)
                + push_requests(src, self.src_lookup)
        }
    }
}

/// With answers at hand, the requests made are the one that is open followed
/// by those made once it is answered.
pub proof fn lemma_requests_unfold(
    stage: CheckAndSync,
    request: MigrationRequest,
    first: MigrationReply,
    rest: Seq<MigrationReply>,
)
    ensures
        CheckAndSync::requests(Progress::Call(stage, request), seq![first] + rest) == seq![
            request,
        ] + CheckAndSync::requests(stage.spec_resume(first), rest),
{
    let replies = seq![first] + rest;
    assert(replies.skip(1) =~= rest);
    assert(replies[0] == first);
}

/// Serving the source asks for its lookup and its push and, where neither
/// failed, for the next task.
pub proof fn lemma_source_push(
    src: String,
    lookup: Result<Option<Host>, CoordinateError>,
    sent: Result<(), CoordinateError>,
)
    ensures
        CheckAndSync::requests(
            Progress::Call(CheckAndSync::LocatingSrc, MigrationRequest::GetHostMeta(src)),
            push_replies(lookup, sent),
        ) == push_requests(src, lookup) + if push_failed(lookup, sent) {
            Seq::<MigrationRequest>::empty()
        } else {
            seq![MigrationRequest::NextTask]
        },
{
    let none = Seq::<MigrationReply>::empty();
    let first = MigrationReply::HostMeta(lookup);
    let open_lookup = MigrationRequest::GetHostMeta(src);
    match lookup {
        Ok(Some(host)) => {
            let second = MigrationReply::Sent(sent);
            assert(push_replies(lookup, sent) =~= seq![first] + (seq![second] + none));
            lemma_requests_unfold(CheckAndSync::LocatingSrc, open_lookup, first, seq![second] + none);
            lemma_requests_unfold(
                CheckAndSync::SendingSrc,
                MigrationRequest::SendMeta(host),
                second,
                none,
            );
            let end = CheckAndSync::SendingSrc.spec_resume(second);
            if sent is Err {
                assert(CheckAndSync::requests(end, none) =~= Seq::<MigrationRequest>::empty());
            } else {
                assert(CheckAndSync::requests(end, none) =~= seq![MigrationRequest::NextTask]);
            }
            assert(CheckAndSync::requests(
                Progress::Call(CheckAndSync::LocatingSrc, open_lookup),
                push_replies(lookup, sent),
            ) =~= push_requests(src, lookup) + if push_failed(lookup, sent) {
                Seq::<MigrationRequest>::empty()
            } else {
                seq![MigrationRequest::NextTask]
            });
        },
        _ => {
            assert(push_replies(lookup, sent) =~= seq![first] + none);
            lemma_requests_unfold(CheckAndSync::LocatingSrc, open_lookup, first, none);
            let end = CheckAndSync::LocatingSrc.spec_resume(first);
            if lookup is Err {
                assert(CheckAndSync::requests(end, none) =~= Seq::<MigrationRequest>::empty());
            } else {
                assert(CheckAndSync::requests(end, none) =~= seq![MigrationRequest::NextTask]);
            }
            assert(CheckAndSync::requests(
                Progress::Call(CheckAndSync::LocatingSrc, open_lookup),
                push_replies(lookup, sent),
            ) =~= push_requests(src, lookup) + if push_failed(lookup, sent) {
                Seq::<MigrationRequest>::empty()
            } else {
                seq![MigrationRequest::NextTask]
            });
        },
    }
}

/// Serving the destination asks for its lookup and its push; the source is
/// turned to only after that, and only where neither failed.
pub proof fn lemma_destination_push(
    src: String,
    dst: String,
    lookup: Result<Option<Host>, CoordinateError>,
    sent: Result<(), CoordinateError>,
    later: Seq<MigrationReply>,
)
    ensures
        CheckAndSync::requests(
            Progress::Call(CheckAndSync::LocatingDst { src }, MigrationRequest::GetHostMeta(dst)),
            push_replies(lookup, sent) + later,
        ) == push_requests(dst, lookup) + if push_failed(lookup, sent) {
            Seq::<MigrationRequest>::empty()
        } else {
            CheckAndSync::requests(
                Progress::Call(CheckAndSync::LocatingSrc, MigrationRequest::GetHostMeta(src)),
                later,
            )
        },
{
    let first = MigrationReply::HostMeta(lookup);
    let open_lookup = MigrationRequest::GetHostMeta(dst);
    let stage = CheckAndSync::LocatingDst { src };
    let turn_to_source = Progress::Call(
        CheckAndSync::LocatingSrc,
        MigrationRequest::GetHostMeta(src),
    );
    match lookup {
        Ok(Some(host)) => {
            let second = MigrationReply::Sent(sent);
            assert(push_replies(lookup, sent) + later =~= seq![first] + (seq![second] + later));
            lemma_requests_unfold(stage, open_lookup, first, seq![second] + later);
            lemma_requests_unfold(
                CheckAndSync::SendingDst { src },
                MigrationRequest::SendMeta(host),
                second,
                later,
            );
            let end = CheckAndSync::SendingDst { src }.spec_resume(second);
            if sent is Err {
                assert(CheckAndSync::requests(end, later) =~= Seq::<MigrationRequest>::empty());
            } else {
                assert(end == turn_to_source);
            }
            assert(CheckAndSync::requests(
                Progress::Call(stage, open_lookup),
                push_replies(lookup, sent) + later,
            ) =~= push_requests(dst, lookup) + if push_failed(lookup, sent) {
                Seq::<MigrationRequest>::empty()
            } else {
                CheckAndSync::requests(turn_to_source, later)
            });
        },
        _ => {
            assert(push_replies(lookup, sent) + later =~= seq![first] + later);
            lemma_requests_unfold(stage, open_lookup, first, later);
            let end = stage.spec_resume(first);
            if lookup is Err {
                assert(CheckAndSync::requests(end, later) =~= Seq::<MigrationRequest>::empty());
            } else {
                assert(end == turn_to_source);
            }
            assert(CheckAndSync::requests(
                Progress::Call(stage, open_lookup),
                push_replies(lookup, sent) + later,
            ) =~= push_requests(dst, lookup) + if push_failed(lookup, sent) {
                Seq::<MigrationRequest>::empty()
            } else {
                CheckAndSync::requests(turn_to_source, later)
            });
        },
    }
}

/// The order of a task's calls is fixed. A task that names both ends of its
/// migration is committed first. If the commit fails, no metadata is pushed.
/// If it succeeds, the destination's metadata is looked up and pushed before
/// the source is so much as looked up; a lookup that finds nothing only
/// leaves its own push out; a lookup or a push that fails ends the task
/// there. A task that came through is followed by the request for the next.
pub proof fn lemma_destination_before_source(meta: MigrationTaskMeta, answers: TaskAnswers)
    requires
        meta.slot_range.tag.spec_migration_meta() is Some,
    ensures
        ({
            let ends = meta.slot_range.tag.spec_migration_meta()->Some_0;
            CheckAndSync::requests(CheckAndSync::spec_take_up(meta), answers.replies())
                == answers.calls(meta, ends.src_proxy_address, ends.dst_proxy_address)
                + if answers.came_through() {
                seq![MigrationRequest::NextTask]
            } else {
                Seq::<MigrationRequest>::empty()
            }
        }),
{
    let ends = meta.slot_range.tag.spec_migration_meta()->Some_0;
    let src = ends.src_proxy_address;
    let dst = ends.dst_proxy_address;
    let none = Seq::<MigrationReply>::empty();
    let first = MigrationReply::Committed(answers.committed);
    let stage = CheckAndSync::Committing { src, dst };
    let commit = MigrationRequest::Commit(meta);
    let expected = answers.calls(meta, src, dst) + if answers.came_through() {
        seq![MigrationRequest::NextTask]
    } else {
        Seq::<MigrationRequest>::empty()
    };
    if answers.committed is Err {
        assert(answers.replies() =~= seq![first] + none);
        lemma_requests_unfold(stage, commit, first, none);
        assert(CheckAndSync::requests(stage.spec_resume(first), none)
            =~= Seq::<MigrationRequest>::empty());
        assert(CheckAndSync::requests(CheckAndSync::spec_take_up(meta), answers.replies())
            =~= expected);
    } else {
        let later = if push_failed(answers.dst_lookup, answers.dst_sent) {
            none
        } else {
            push_replies(answers.src_lookup, answers.src_sent)
        };
        let served = push_replies(answers.dst_lookup, answers.dst_sent) + later;
        assert(answers.replies() =~= seq![first] + served);
        lemma_requests_unfold(stage, commit, first, served);
        lemma_ok_is_unit(answers.committed);
        lemma_destination_push(src, dst, answers.dst_lookup, answers.dst_sent, later);
        if !push_failed(answers.dst_lookup, answers.dst_sent) {
            lemma_source_push(src, answers.src_lookup, answers.src_sent);
        }
        assert(CheckAndSync::requests(CheckAndSync::spec_take_up(meta), answers.replies())
            =~= expected);
    }
}

/// A task whose range does not name the two ends of a migration is passed
/// over: nothing is committed and nothing is pushed for it.
pub proof fn lemma_task_without_ends_is_passed_over(meta: MigrationTaskMeta)
    requires
        meta.slot_range.tag.spec_migration_meta() is None,
    ensures
        CheckAndSync::Listing.spec_resume(MigrationReply::Task(Some(Ok(meta))))
            == Progress::Call(CheckAndSync::Listing, MigrationRequest::NextTask),
{
}

/// Every task in `tasks` could be read and names no ends of a migration.
pub open spec fn all_without_ends(tasks: Seq<Result<MigrationTaskMeta, CoordinateError>>) -> bool {
    forall|i: int|
        0 <= i < tasks.len() ==> match #[trigger] tasks[i] {
            Ok(meta) => meta.slot_range.tag.spec_migration_meta() is None,
            Err(_) => false,
        }
}

/// The answers a proxy gives that reports `tasks` and then no more.
pub open spec fn task_replies(tasks: Seq<Result<MigrationTaskMeta, CoordinateError>>) -> Seq<
    MigrationReply,
> {
    Seq::new(
        tasks.len() + 1,
        |i: int|
            if i < tasks.len() {
                MigrationReply::Task(Some(tasks[i]))
            } else {
                MigrationReply::Task(None)
            },
    )
}

/// A proxy that reports only tasks without ends is asked for its tasks, one
/// after the other, and for nothing else: no commit, no lookup, no push.
pub proof fn lemma_tasks_without_ends_ask_nothing(
    tasks: Seq<Result<MigrationTaskMeta, CoordinateError>>,
)
    requires
        all_without_ends(tasks),
    ensures
        CheckAndSync::requests(CheckAndSync::spec_begin(), task_replies(tasks)) == Seq::new(
            tasks.len() + 1,
            |i: int| MigrationRequest::NextTask,
        ),
    decreases tasks.len(),
{
    let replies = task_replies(tasks);
    let expected = Seq::new(tasks.len() + 1, |i: int| MigrationRequest::NextTask);
    let rest = replies.skip(1);
    assert(replies =~= seq![replies[0]] + rest);
    lemma_requests_unfold(
        CheckAndSync::Listing,
        MigrationRequest::NextTask,
        replies[0],
        rest,
    );
    if tasks.len() == 0 {
        assert(CheckAndSync::requests(CheckAndSync::Listing.spec_resume(replies[0]), rest)
            =~= Seq::<MigrationRequest>::empty());
        assert(CheckAndSync::requests(CheckAndSync::spec_begin(), replies) =~= expected);
    } else {
        assert(tasks[0] is Ok);
        assert(all_without_ends(tasks.skip(1))) by {
            assert forall|i: int| 0 <= i < tasks.skip(1).len() implies match #[trigger] tasks.skip(
                1,
            )[i] {
                Ok(meta) => meta.slot_range.tag.spec_migration_meta() is None,
                Err(_) => false,
            } by {
                assert(tasks.skip(1)[i] == tasks[i + 1]);
            }
        }
        lemma_tasks_without_ends_ask_nothing(tasks.skip(1));
        assert(rest =~= task_replies(tasks.skip(1)));
        assert(CheckAndSync::requests(CheckAndSync::spec_begin(), replies) =~= expected);
    }
}

/// Synchronises the migrations of the proxies one batch after the other.
pub struct SeqMigrationStateSynchronizer<
    PR: ProxiesRetriever,
    SC: MigrationStateChecker,
    MC: MigrationCommitter,
    MR: HostMetaRetriever,
    S: HostMetaSender,
> {
    proxy_retriever: PR,
    checker: SC,
    committer: MC,
    meta_retriever: MR,
    sender: S,
}

impl<
    PR: ProxiesRetriever,
    SC: MigrationStateChecker,
    MC: MigrationCommitter,
    MR: HostMetaRetriever,
    S: HostMetaSender,
> SeqMigrationStateSynchronizer<PR, SC, MC, MR, S> {
    /// The source of addresses this synchroniser was made with.
    pub closed spec fn proxy_retriever(&self) -> &PR {
        &self.proxy_retriever
    }

    /// The source of tasks this synchroniser was made with.
    pub closed spec fn checker(&self) -> &SC {
        &self.checker
    }

    /// The committer this synchroniser was made with.
    pub closed spec fn committer(&self) -> &MC {
        &self.committer
    }

    /// The source of metadata this synchroniser was made with.
    pub closed spec fn meta_retriever(&self) -> &MR {
        &self.meta_retriever
    }

    /// The sender this synchroniser was made with.
    pub closed spec fn sender(&self) -> &S {
        &self.sender
    }

    /// The retriever may hand out `proxies`.
    pub open spec fn retrieves(&self, proxies: Vec<Result<String, CoordinateError>>) -> bool {
        call_ensures(PR::retrieve_proxies, (self.proxy_retriever(),), proxies)
    }

    /// The proxy at `address` may report `tasks`.
    pub open spec fn lists(
        &self,
        address: String,
        tasks: Vec<Result<MigrationTaskMeta, CoordinateError>>,
    ) -> bool {
        call_ensures(SC::check, (self.checker(), address), tasks)
    }

    /// `reply` is something the collaborator that `request` goes to may
    /// answer to it. The next task is not asked of a collaborator: it is
    /// taken from what the proxy reported.
    pub open spec fn answers(&self, request: MigrationRequest, reply: MigrationReply) -> bool {
        match (request, reply) {
            (MigrationRequest::Commit(meta), MigrationReply::Committed(r)) => call_ensures(
                MC::commit,
                (self.committer(), meta),
                r,
            ),
            (MigrationRequest::GetHostMeta(address), MigrationReply::HostMeta(r)) => call_ensures(
                MR::get_host_meta,
                (self.meta_retriever(), address),
                r,
            ),
            (MigrationRequest::SendMeta(host), MigrationReply::Sent(r)) => call_ensures(
                S::send_meta,
                (self.sender(), host),
                r,
            ),
            _ => false,
        }
    }

    /// The answer to a request for the next task, with `tasks` still to come.
    pub open spec fn next_task(
        tasks: Seq<Result<MigrationTaskMeta, CoordinateError>>,
    ) -> MigrationReply {
        if tasks.len() == 0 {
            MigrationReply::Task(None)
        } else {
            MigrationReply::Task(Some(tasks[0]))
        }
    }

    /// What is still to come once the next task has been handed out.
    pub open spec fn after_next(tasks: Seq<Result<MigrationTaskMeta, CoordinateError>>) -> Seq<
        Result<MigrationTaskMeta, CoordinateError>,
    > {
        if tasks.len() == 0 {
            tasks
        } else {
            tasks.skip(1)
        }
    }

    /// From `progress`, with `tasks` still to come in this order and every
    /// other request answered by the collaborator it goes to, the
    /// synchronisation may come to `r`.
    pub open spec fn may_finish(
        &self,
        progress: Progress<CheckAndSync, MigrationRequest>,
        tasks: Seq<Result<MigrationTaskMeta, CoordinateError>>,
        r: Result<(), CoordinateError>,
    ) -> bool
        decreases tasks.len(), CheckAndSync::steps_left(progress),
    {
        match progress {
            Progress::Done(result) => r == result,
            Progress::Call(stage, MigrationRequest::NextTask) => self.may_finish(
                stage.spec_resume(Self::next_task(tasks)),
                Self::after_next(tasks),
                r,
            ),
            Progress::Call(stage, request) => exists|reply: MigrationReply| #[trigger]
                self.answers(request, reply) && self.may_finish(
                    stage.spec_resume(reply),
                    tasks,
                    r,
                ),
        }
    }

    /// Bringing the metadata of the proxy at `address` up to date may come
    /// to `r`: the lookup for `address` gives some answer. If the lookup
    /// fails, `r` is its failure; if it finds nothing, `r` is success; if it
    /// finds metadata, `r` is what the sender answers when given exactly that.
    pub open spec fn may_set_db_meta(&self, address: String, r: Result<(), CoordinateError>) -> bool {
        exists|lookup: Result<Option<Host>, CoordinateError>| #[trigger]
            self.answers(MigrationRequest::GetHostMeta(address), MigrationReply::HostMeta(lookup))
                && match lookup {
                Err(err) => r == Err::<(), CoordinateError>(err),
                Ok(None) => r == Ok::<(), CoordinateError>(()),
                Ok(Some(host)) => self.answers(
                    MigrationRequest::SendMeta(host),
                    MigrationReply::Sent(r),
                ),
            }
    }

    /// Synchronising one task may come to `r`. A task that does not name
    /// the ends of its migration comes to success as it is. Any other is
    /// committed, and a commit that fails is the result. After the commit
    /// the destination is brought up to date; if that fails it is the
    /// result, and else the result is what bringing the source up to date
    /// comes to.
    pub open spec fn may_sync_migration_state(
        &self,
        meta: MigrationTaskMeta,
        r: Result<(), CoordinateError>,
    ) -> bool {
        match meta.slot_range.tag.spec_migration_meta() {
            None => r == Ok::<(), CoordinateError>(()),
            Some(ends) => exists|committed: Result<(), CoordinateError>| #[trigger]
                self.answers(MigrationRequest::Commit(meta), MigrationReply::Committed(committed))
                    && match committed {
                    Err(err) => r == Err::<(), CoordinateError>(err),
                    Ok(_) => exists|dst_done: Result<(), CoordinateError>| #[trigger]
                        self.may_set_db_meta(ends.dst_proxy_address, dst_done) && if dst_done
                            is Err {
                            r == dst_done
                        } else {
                            self.may_set_db_meta(ends.src_proxy_address, r)
                        },
                },
        }
    }

    /// Synchronising `tasks`, in this order, may come to `r`: the first task
    /// that could not be read, or that could not be synchronised, is the
    /// result, and no task after it is touched; if there is none, `r` is
    /// success.
    pub open spec fn may_sync_tasks(
        &self,
        tasks: Seq<Result<MigrationTaskMeta, CoordinateError>>,
        r: Result<(), CoordinateError>,
    ) -> bool
        decreases tasks.len(),
    {
        if tasks.len() == 0 {
            r == Ok::<(), CoordinateError>(())
        } else {
            match tasks[0] {
                Err(err) => r == Err::<(), CoordinateError>(err),
                Ok(meta) => exists|done: Result<(), CoordinateError>| #[trigger]
                    self.may_sync_migration_state(meta, done) && if done is Err {
                        r == done
                    } else {
                        self.may_sync_tasks(tasks.skip(1), r)
                    },
            }
        }
    }

    /// The synchronisation of the proxy at `address` may come to `r`: the
    /// proxy reports some tasks, and synchronising them may come to `r`.
    pub open spec fn address_may_yield(
        &self,
        address: String,
        r: Result<(), CoordinateError>,
    ) -> bool {
        exists|tasks: Vec<Result<MigrationTaskMeta, CoordinateError>>| #[trigger]
            self.lists(address, tasks) && self.may_sync_tasks(tasks@, r)
    }

    /// Serving the source, step by step, is bringing its metadata up to
    /// date and then, unless that failed, going on with the next task.
    pub proof fn lemma_source_is_set(
        &self,
        src: String,
        tasks: Seq<Result<MigrationTaskMeta, CoordinateError>>,
        r: Result<(), CoordinateError>,
    )
        requires
            self.may_finish(
                Progress::Call(CheckAndSync::LocatingSrc, MigrationRequest::GetHostMeta(src)),
                tasks,
                r,
            ),
        ensures
            exists|done: Result<(), CoordinateError>| #[trigger]
                self.may_set_db_meta(src, done) && if done is Err {
                    r == done
                } else {
                    self.may_finish(CheckAndSync::spec_begin(), tasks, r)
                },
    {
        let ask = MigrationRequest::GetHostMeta(src);
        let reply = choose|reply: MigrationReply| #[trigger]
            self.answers(ask, reply) && self.may_finish(
                CheckAndSync::LocatingSrc.spec_resume(reply),
                tasks,
                r,
            );
        let lookup = reply->HostMeta_0;
        assert(self.answers(ask, MigrationReply::HostMeta(lookup)));
        match lookup {
            Ok(Some(host)) => {
                let send = MigrationRequest::SendMeta(host);
                let second = choose|second: MigrationReply| #[trigger]
                    self.answers(send, second) && self.may_finish(
                        CheckAndSync::SendingSrc.spec_resume(second),
                        tasks,
                        r,
                    );
                let sent = second->Sent_0;
                assert(self.answers(send, MigrationReply::Sent(sent)));
                assert(self.may_set_db_meta(src, sent));
                if sent is Ok {
                    lemma_ok_is_unit(sent);
                }
            },
            Ok(None) => {
                assert(self.may_set_db_meta(src, Ok(())));
            },
            Err(err) => {
                assert(self.may_set_db_meta(src, Err(err)));
            },
        }
    }

    /// Serving the destination, step by step, is bringing its metadata up
    /// to date and then, unless that failed, turning to the source.
    pub proof fn lemma_destination_is_set(
        &self,
        src: String,
        dst: String,
        tasks: Seq<Result<MigrationTaskMeta, CoordinateError>>,
        r: Result<(), CoordinateError>,
    )
        requires
            self.may_finish(
                Progress::Call(
                    CheckAndSync::LocatingDst { src },
                    MigrationRequest::GetHostMeta(dst),
                ),
                tasks,
                r,
            ),
        ensures
            exists|done: Result<(), CoordinateError>| #[trigger]
                self.may_set_db_meta(dst, done) && if done is Err {
                    r == done
                } else {
                    self.may_finish(
                        Progress::Call(
                            CheckAndSync::LocatingSrc,
                            MigrationRequest::GetHostMeta(src),
                        ),
                        tasks,
                        r,
                    )
                },
    {
        let ask = MigrationRequest::GetHostMeta(dst);
        let stage = CheckAndSync::LocatingDst { src };
        let reply = choose|reply: MigrationReply| #[trigger]
            self.answers(ask, reply) && self.may_finish(stage.spec_resume(reply), tasks, r);
        let lookup = reply->HostMeta_0;
        assert(self.answers(ask, MigrationReply::HostMeta(lookup)));
        match lookup {
            Ok(Some(host)) => {
                let send = MigrationRequest::SendMeta(host);
                let second = choose|second: MigrationReply| #[trigger]
                    self.answers(send, second) && self.may_finish(
                        CheckAndSync::SendingDst { src }.spec_resume(second),
                        tasks,
                        r,
                    );
                let sent = second->Sent_0;
                assert(self.answers(send, MigrationReply::Sent(sent)));
                assert(self.may_set_db_meta(dst, sent));
                if sent is Ok {
                    lemma_ok_is_unit(sent);
                }
            },
            Ok(None) => {
                assert(self.may_set_db_meta(dst, Ok(())));
            },
            Err(err) => {
                assert(self.may_set_db_meta(dst, Err(err)));
            },
        }
    }

    /// Working a task off, step by step, is synchronising it and then,
    /// unless that failed, going on with the next task.
    pub proof fn lemma_task_is_synchronised(
        &self,
        meta: MigrationTaskMeta,
        tasks: Seq<Result<MigrationTaskMeta, CoordinateError>>,
        r: Result<(), CoordinateError>,
    )
        requires
            self.may_finish(CheckAndSync::spec_take_up(meta), tasks, r),
        ensures
            exists|done: Result<(), CoordinateError>| #[trigger]
                self.may_sync_migration_state(meta, done) && if done is Err {
                    r == done
                } else {
                    self.may_finish(CheckAndSync::spec_begin(), tasks, r)
                },
    {
        match meta.slot_range.tag.spec_migration_meta() {
            None => {
                assert(self.may_sync_migration_state(meta, Ok(())));
            },
            Some(ends) => {
                let src = ends.src_proxy_address;
                let dst = ends.dst_proxy_address;
                let commit = MigrationRequest::Commit(meta);
                let stage = CheckAndSync::Committing { src, dst };
                let reply = choose|reply: MigrationReply| #[trigger]
                    self.answers(commit, reply) && self.may_finish(
                        stage.spec_resume(reply),
                        tasks,
                        r,
                    );
                let committed = reply->Committed_0;
                assert(self.answers(commit, MigrationReply::Committed(committed)));
                match committed {
                    Err(err) => {
                        assert(self.may_sync_migration_state(meta, Err(err)));
                    },
                    Ok(_) => {
                        self.lemma_destination_is_set(src, dst, tasks, r);
                        let dst_done = choose|done: Result<(), CoordinateError>| #[trigger]
                            self.may_set_db_meta(dst, done) && if done is Err {
                                r == done
                            } else {
                                self.may_finish(
                                    Progress::Call(
                                        CheckAndSync::LocatingSrc,
                                        MigrationRequest::GetHostMeta(src),
                                    ),
                                    tasks,
                                    r,
                                )
                            };
                        if dst_done is Err {
                            assert(self.may_sync_migration_state(meta, dst_done));
                        } else {
                            self.lemma_source_is_set(src, tasks, r);
                            let src_done = choose|done: Result<(), CoordinateError>| #[trigger]
                                self.may_set_db_meta(src, done) && if done is Err {
                                    r == done
                                } else {
                                    self.may_finish(CheckAndSync::spec_begin(), tasks, r)
                                };
                            assert(self.may_set_db_meta(dst, dst_done));
                            assert(self.may_sync_migration_state(meta, src_done));
                        }
                    },
                }
            },
        }
    }

    /// Working the tasks of a proxy off step by step is synchronising them
    /// one after the other, up to the first failure.
    pub proof fn lemma_tasks_are_synchronised(
        &self,
        tasks: Seq<Result<MigrationTaskMeta, CoordinateError>>,
        r: Result<(), CoordinateError>,
    )
        requires
            self.may_finish(CheckAndSync::spec_begin(), tasks, r),
        ensures
            self.may_sync_tasks(tasks, r),
        decreases tasks.len(),
    {
        let next = CheckAndSync::Listing.spec_resume(Self::next_task(tasks));
        assert(self.may_finish(next, Self::after_next(tasks), r));
        if tasks.len() > 0 {
            match tasks[0] {
                Err(_) => {},
                Ok(meta) => {
                    let rest = tasks.skip(1);
                    self.lemma_task_is_synchronised(meta, rest, r);
                    let done = choose|done: Result<(), CoordinateError>| #[trigger]
                        self.may_sync_migration_state(meta, done) && if done is Err {
                            r == done
                        } else {
                            self.may_finish(CheckAndSync::spec_begin(), rest, r)
                        };
                    if done is Ok {
                        self.lemma_tasks_are_synchronised(rest, r);
                    }
                },
            }
        }
    }

    /// What a retrieved entry may come to: its own failure, if it could not
    /// be retrieved, and else what synchronising its address may come to.
    pub open spec fn entry_may_yield(
        &self,
        entry: Result<String, CoordinateError>,
        outcome: Result<(), CoordinateError>,
    ) -> bool {
        match entry {
            Err(err) => outcome == Err::<(), CoordinateError>(err),
            Ok(address) => self.address_may_yield(address, outcome),
        }
    }

    /// The pass over `proxies` may come to `r`: every entry has an outcome,
    /// whatever became of the others, and `r` is the first failure among the
    /// outcomes, in the order of the entries.
    pub open spec fn pass_may_yield(
        &self,
        proxies: Seq<Result<String, CoordinateError>>,
        r: Result<(), CoordinateError>,
    ) -> bool {
        exists|outcomes: Seq<Result<(), CoordinateError>>|
            {
                &&& outcomes.len() == proxies.len()
                &&& forall|i: int|
                    0 <= i < proxies.len() ==> self.entry_may_yield(
                        proxies[i],
                        #[trigger] outcomes[i],
                    )
                &&& r == #[trigger] first_error(outcomes)
            }
    }

    /// A proxy that reports only tasks without ends comes to success.
    pub proof fn lemma_tasks_without_ends_succeed(
        &self,
        tasks: Seq<Result<MigrationTaskMeta, CoordinateError>>,
        r: Result<(), CoordinateError>,
    )
        requires
            all_without_ends(tasks),
            self.may_sync_tasks(tasks, r),
        ensures
            r == Ok::<(), CoordinateError>(()),
        decreases tasks.len(),
    {
        if tasks.len() > 0 {
            assert(tasks[0] is Ok);
            assert(all_without_ends(tasks.skip(1))) by {
                assert forall|i: int| 0 <= i < tasks.skip(1).len() implies match #[trigger] tasks.skip(
                    1,
                )[i] {
                    Ok(meta) => meta.slot_range.tag.spec_migration_meta() is None,
                    Err(_) => false,
                } by {
                    assert(tasks.skip(1)[i] == tasks[i + 1]);
                }
            }
            self.lemma_tasks_without_ends_succeed(tasks.skip(1), r);
        }
    }

    /// Carries out one request: the next task is taken from the front of
    /// `tasks`, every other request goes to its collaborator.
    fn perform(
        &self,
        request: MigrationRequest,
        tasks: &mut Vec<Result<MigrationTaskMeta, CoordinateError>>,
    ) -> (reply: MigrationReply)
        ensures
            request is NextTask ==> reply == Self::next_task(old(tasks)@) && final(tasks)@
                == Self::after_next(old(tasks)@),
            !(request is NextTask) ==> self.answers(request, reply) && final(tasks)@ == old(
                tasks,
            )@,
    {
        match request {
            MigrationRequest::NextTask => {
                if tasks.len() == 0 {
                    MigrationReply::Task(None)
                } else {
                    let task = tasks.remove(0);
                    assert(tasks@ =~= old(tasks)@.skip(1));
                    MigrationReply::Task(Some(task))
                }
            },
            MigrationRequest::Commit(meta) => MigrationReply::Committed(
                self.committer.commit(meta),
            ),
            MigrationRequest::GetHostMeta(address) => MigrationReply::HostMeta(
                self.meta_retriever.get_host_meta(address),
            ),
            MigrationRequest::SendMeta(host) => MigrationReply::Sent(self.sender.send_meta(host)),
        }
    }

    /// Asks one proxy for its tasks and works them off in the order given,
    /// up to the first failure.
    pub fn check_and_sync(&self, address: String) -> (r: Result<(), CoordinateError>)
        ensures
            self.address_may_yield(address, r),
            exists|tasks: Vec<Result<MigrationTaskMeta, CoordinateError>>| #[trigger]
                self.lists(address, tasks) && self.may_finish(
                    CheckAndSync::spec_begin(),
                    tasks@,
                    r,
                ),
    {
        let mut tasks = self.checker.check(address);
        let ghost listed = tasks;
        let ghost start = CheckAndSync::spec_begin();
        let mut progress = CheckAndSync::begin();
        loop
            invariant
                self.lists(address, listed),
                start == CheckAndSync::spec_begin(),
                forall|r: Result<(), CoordinateError>| #[trigger]
                    self.may_finish(progress, tasks@, r) ==> self.may_finish(start, listed@, r),
            decreases tasks@.len(), CheckAndSync::steps_left(progress),
        {
            let ghost current = progress;
            let ghost coming = tasks@;
            match progress {
                Progress::Done(r) => {
                    assert(self.may_finish(current, coming, r));
                    proof {
                        self.lemma_tasks_are_synchronised(listed@, r);
                    }
                    return r;
                },
                Progress::Call(stage, request) => {
                    let reply = self.perform(request, &mut tasks);
                    progress = stage.resume(reply);
                    assert forall|r: Result<(), CoordinateError>| #[trigger]
                        self.may_finish(progress, tasks@, r) implies self.may_finish(
                        start,
                        listed@,
                        r,
                    ) by {
                        if !(request is NextTask) {
                            assert(self.answers(request, reply));
                        }
                        assert(self.may_finish(current, coming, r));
                    }
                },
            }
        }
    }

    /// One pass over `proxies`, as the retriever handed them out.
    pub fn run_with(&self, proxies: Vec<Result<String, CoordinateError>>) -> (r: Result<
        (),
        CoordinateError,
    >)
        ensures
            self.pass_may_yield(proxies@, r),
    {
        let work = |address: String| -> (r: Result<(), CoordinateError>)
            ensures
                self.address_may_yield(address, r),
            { self.check_and_sync(address) };
        let r = run_pass(proxies, MIGRATION_BATCH_SIZE, &work);
        proof {
            let outcomes = choose|outcomes: Seq<Result<(), CoordinateError>>| #[trigger]
                outcomes_of(&work, proxies@, outcomes) && r == first_error(outcomes);
            assert forall|i: int| 0 <= i < proxies@.len() implies self.entry_may_yield(
                proxies@[i],
                #[trigger] outcomes[i],
            ) by {}
        }
        r
    }
}

impl<
    PR: ProxiesRetriever,
    SC: MigrationStateChecker,
    MC: MigrationCommitter,
    MR: HostMetaRetriever,
    S: HostMetaSender,
> MigrationStateSynchronizer for SeqMigrationStateSynchronizer<PR, SC, MC, MR, S> {
    type PRetriever = PR;

    type Checker = SC;

    type Committer = MC;

    type MRetriever = MR;

    type Sender = S;

    fn new(proxy_retriever: PR, checker: SC, committer: MC, meta_retriever: MR, sender: S) -> (this:
        Self)
        ensures
            this.proxy_retriever() == proxy_retriever,
            this.checker() == checker,
            this.committer() == committer,
            this.meta_retriever() == meta_retriever,
            this.sender() == sender,
    {
        Self { proxy_retriever, checker, committer, meta_retriever, sender }
    }

    /// One full synchronisation pass. It comes to a single result: the first
    /// failure met, if any.
    fn run(&self) -> (results: Vec<Result<(), CoordinateError>>)
        ensures
            results@.len() == 1,
            exists|proxies: Vec<Result<String, CoordinateError>>| #[trigger]
                self.retrieves(proxies) && self.pass_may_yield(proxies@, results@[0]),
    {
        let proxies = self.proxy_retriever.retrieve_proxies();
        let ghost retrieved = proxies;
        let r = self.run_with(proxies);
        let results = vec![r];
        proof {
            assert(self.retrieves(retrieved));
        }
        results
    }
}

} // verus!
