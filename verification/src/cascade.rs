//! Cascades: ordered runs of single requests to a store that has no
//! transaction across collections.
//!
//! A cascade is planned in full before its first request goes out. The caller
//! then asks `next_move` what to do, performs the request it names, adds the
//! store's reply to the replies so far, and asks again. Each step is attempted
//! only after the one before it was answered as expected; the first other
//! answer ends the run with an error that names the step. What was written
//! before that step stays written, but for a step that names a request to
//! undo one earlier write.

use vstd::prelude::*;

verus! {

/// One request to the store. `T` is the type of a text: `String` in a
/// request that is sent, `Seq<char>` in what stands for it in contracts.
#[derive(Debug, Clone, PartialEq, Eq)]
pub enum Request<T> {
    /// Is there a guild that was made with this nonce?
    GuildNonce { nonce: T },
    /// Is there a channel that was made with this nonce?
    ChannelNonce { nonce: T },
    /// Is this user a member of this guild?
    Member { guild: T, user: T },
    /// Insert a guild channel.
    InsertChannel { id: T, nonce: Option<T>, guild: T, name: T, description: T },
    /// Insert the member record of this user in this guild. The store keeps
    /// one record for each pair, and refuses a second.
    InsertMember { guild: T, user: T },
    /// Insert a guild with one channel, no invites and no bans.
    InsertGuild {
        id: T,
        nonce: T,
        name: T,
        description: T,
        owner: T,
        channel: T,
        default_permissions: u32,
    },
    /// Delete one channel.
    DeleteChannel { id: T },
    /// Delete every message whose channel belongs to the guild.
    DeleteMessages { guild: T },
    /// Delete every channel of the guild.
    DeleteChannels { guild: T },
    /// Delete every member record of the guild.
    DeleteMembers { guild: T },
    /// Delete the guild document.
    DeleteGuild { id: T },
    /// Delete the member record of this user in this guild.
    DeleteMember { guild: T, user: T },
    /// Add a channel id to the guild's list of channels, unless it is there.
    ListChannel { guild: T, channel: T },
    /// Append an invite to the guild's invites. The store keeps one invite
    /// for each code, over all guilds, and refuses a second.
    PushInvite { guild: T, code: T, creator: T, channel: T },
    /// Remove the invite with this code from the guild's invites.
    PullInvite { guild: T, code: T },
    /// Append a ban to the guild's bans.
    PushBan { guild: T, user: T, reason: T },
    /// Remove the bans of this user from the guild's bans.
    PullBan { guild: T, user: T },
}

/// What a request stands for in contracts.
pub type RequestView = Request<Seq<char>>;

/// The view of an optional text.
pub open spec fn text_view(text: Option<String>) -> Option<Seq<char>> {
    match text {
        Some(t) => Some(t@),
        None => None,
    }
}

impl View for Request<String> {
    type V = Request<Seq<char>>;

    open spec fn view(&self) -> Request<Seq<char>> {
        match *self {
            Request::GuildNonce { nonce } => Request::GuildNonce { nonce: nonce@ },
            Request::ChannelNonce { nonce } => Request::ChannelNonce { nonce: nonce@ },
            Request::Member { guild, user } => Request::Member { guild: guild@, user: user@ },
            Request::InsertChannel { id, nonce, guild, name, description } => Request::InsertChannel {
                id: id@,
                nonce: text_view(nonce),
                guild: guild@,
                name: name@,
                description: description@,
            },
            Request::InsertMember { guild, user } => Request::InsertMember {
                guild: guild@,
                user: user@,
            },
            Request::InsertGuild {
                id,
                nonce,
                name,
                description,
                owner,
                channel,
                default_permissions,
            } => Request::InsertGuild {
                id: id@,
                nonce: nonce@,
                name: name@,
                description: description@,
                owner: owner@,
                channel: channel@,
                default_permissions,
            },
            Request::DeleteChannel { id } => Request::DeleteChannel { id: id@ },
            Request::DeleteMessages { guild } => Request::DeleteMessages { guild: guild@ },
            Request::DeleteChannels { guild } => Request::DeleteChannels { guild: guild@ },
            Request::DeleteMembers { guild } => Request::DeleteMembers { guild: guild@ },
            Request::DeleteGuild { id } => Request::DeleteGuild { id: id@ },
            Request::DeleteMember { guild, user } => Request::DeleteMember {
                guild: guild@,
                user: user@,
            },
            Request::ListChannel { guild, channel } => Request::ListChannel {
                guild: guild@,
                channel: channel@,
            },
            Request::PushInvite { guild, code, creator, channel } => Request::PushInvite {
                guild: guild@,
                code: code@,
                creator: creator@,
                channel: channel@,
            },
            Request::PullInvite { guild, code } => Request::PullInvite { guild: guild@, code: code@ },
            Request::PushBan { guild, user, reason } => Request::PushBan {
                guild: guild@,
                user: user@,
                reason: reason@,
            },
            Request::PullBan { guild, user } => Request::PullBan { guild: guild@, user: user@ },
        }
    }
}

/// The store's answer to one request.
#[derive(Debug, Clone, Copy, PartialEq, Eq, Structural)]
pub enum Reply {
    /// The write was made.
    Done,
    /// The write was refused, because what it inserts is there already.
    Duplicate,
    /// What was asked for is there.
    Found,
    /// What was asked for is not there.
    Absent,
    /// The store failed, timed out, or gave an answer that could not be read.
    Failed,
}

/// Why a cascade was refused though the store did its part.
#[derive(Debug, Clone, Copy, PartialEq, Eq, Structural)]
pub enum Conflict {
    /// The nonce was used before: the request is a repeat.
    DuplicateNonce,
    /// The invite code is taken.
    InviteCodeTaken,
    /// The user is a member of the guild already.
    AlreadyMember,
    /// The user is no member of the guild.
    NotMember,
    /// The user is not banned from the guild.
    NotBanned,
    /// The acting user is the target.
    SelfTarget,
}

/// A capability that an operation asks of the acting user.
#[derive(Debug, Clone, Copy, PartialEq, Eq, Structural)]
pub enum Permission {
    VerifiedEmail,
    ManageChannels,
    CreateInvite,
    ManageServer,
    KickMembers,
    BanMembers,
}

/// What was looked for and not found.
#[derive(Debug, Clone, Copy, PartialEq, Eq, Structural)]
pub enum Missing {
    /// The guild, for a user who has no access to it.
    Guild,
    Invite,
    Channel,
    Member,
}

/// The name of a step: the kind of its request.
#[derive(Debug, Clone, Copy, PartialEq, Eq, Structural)]
pub enum StepName {
    GuildNonce,
    ChannelNonce,
    Member,
    InsertChannel,
    InsertMember,
    InsertGuild,
    DeleteChannel,
    DeleteMessages,
    DeleteChannels,
    DeleteMembers,
    DeleteGuild,
    DeleteMember,
    ListChannel,
    PushInvite,
    PullInvite,
    PushBan,
    PullBan,
    /// The read of a channel through the cache.
    FetchChannel,
    /// The listing of a guild's members.
    ListMembers,
}

/// How an operation ends without success.
#[derive(Debug, Clone, Copy, PartialEq, Eq, Structural)]
pub enum CascadeError {
    /// Something that the operation needs does not exist.
    NotFound(Missing),
    /// The operation is refused as a bad request. Nothing was written.
    Conflict(Conflict),
    /// The acting user lacks this capability. Nothing was written.
    PermissionDenied(Permission),
    /// The store failed at this step. Nothing was written.
    StoreUnavailable(StepName),
    /// This step was not made, and the writes of the steps before it stay.
    PartialCascadeFailure(StepName),
}

impl<T> Request<T> {
    /// The name of the step that makes this request.
    pub open spec fn name(self) -> StepName {
        match self {
            Request::GuildNonce { .. } => StepName::GuildNonce,
            Request::ChannelNonce { .. } => StepName::ChannelNonce,
            Request::Member { .. } => StepName::Member,
            Request::InsertChannel { .. } => StepName::InsertChannel,
            Request::InsertMember { .. } => StepName::InsertMember,
            Request::InsertGuild { .. } => StepName::InsertGuild,
            Request::DeleteChannel { .. } => StepName::DeleteChannel,
            Request::DeleteMessages { .. } => StepName::DeleteMessages,
            Request::DeleteChannels { .. } => StepName::DeleteChannels,
            Request::DeleteMembers { .. } => StepName::DeleteMembers,
            Request::DeleteGuild { .. } => StepName::DeleteGuild,
            Request::DeleteMember { .. } => StepName::DeleteMember,
            Request::ListChannel { .. } => StepName::ListChannel,
            Request::PushInvite { .. } => StepName::PushInvite,
            Request::PullInvite { .. } => StepName::PullInvite,
            Request::PushBan { .. } => StepName::PushBan,
            Request::PullBan { .. } => StepName::PullBan,
        }
    }
}

impl Request<String> {
    /// The name of the step that makes this request.
    pub fn step_name(&self) -> (name: StepName)
        ensures
            name == self@.name(),
    {
        match self {
            Request::GuildNonce { .. } => StepName::GuildNonce,
            Request::ChannelNonce { .. } => StepName::ChannelNonce,
            Request::Member { .. } => StepName::Member,
            Request::InsertChannel { .. } => StepName::InsertChannel,
            Request::InsertMember { .. } => StepName::InsertMember,
            Request::InsertGuild { .. } => StepName::InsertGuild,
            Request::DeleteChannel { .. } => StepName::DeleteChannel,
            Request::DeleteMessages { .. } => StepName::DeleteMessages,
            Request::DeleteChannels { .. } => StepName::DeleteChannels,
            Request::DeleteMembers { .. } => StepName::DeleteMembers,
            Request::DeleteGuild { .. } => StepName::DeleteGuild,
            Request::DeleteMember { .. } => StepName::DeleteMember,
            Request::ListChannel { .. } => StepName::ListChannel,
            Request::PushInvite { .. } => StepName::PushInvite,
            Request::PullInvite { .. } => StepName::PullInvite,
            Request::PushBan { .. } => StepName::PushBan,
            Request::PullBan { .. } => StepName::PullBan,
        }
    }
}

/// One step of a cascade.
#[derive(Debug, Clone, PartialEq, Eq)]
pub struct Step<T> {
    /// The request to make.
    pub request: Request<T>,
    /// The answer after which the cascade goes on: `Done` for a write,
    /// `Found` or `Absent` for a question.
    pub expect: Reply,
    /// What it means when the store gives the opposite answer, where that
    /// answer is no failure of the store.
    pub conflict: Option<Conflict>,
    /// A request that takes back an earlier write, to be made when this step
    /// fails.
    pub undo: Option<Request<T>>,
}

/// What a step stands for in contracts.
pub type StepView = Step<Seq<char>>;

/// The view of an optional request.
pub open spec fn request_view(request: Option<Request<String>>) -> Option<Request<Seq<char>>> {
    match request {
        Some(r) => Some(r@),
        None => None,
    }
}

impl View for Step<String> {
    type V = Step<Seq<char>>;

    open spec fn view(&self) -> Step<Seq<char>> {
        Step {
            request: self.request@,
            expect: self.expect,
            conflict: self.conflict,
            undo: request_view(self.undo),
        }
    }
}

/// The views of a list of steps.
pub open spec fn step_views(steps: Seq<Step<String>>) -> Seq<StepView> {
    Seq::new(steps.len(), |i: int| steps[i]@)
}

/// The answer that refuses what `expect` would have granted.
pub open spec fn opposite(expect: Reply) -> Reply {
    match expect {
        Reply::Done => Reply::Duplicate,
        Reply::Duplicate => Reply::Done,
        Reply::Found => Reply::Absent,
        Reply::Absent => Reply::Found,
        Reply::Failed => Reply::Failed,
    }
}

/// The number of leading replies that are what their steps expect.
pub open spec fn agreed(steps: Seq<StepView>, replies: Seq<Reply>) -> int
    decreases steps.len(),
{
    if steps.len() > 0 && replies.len() > 0 && replies[0] == steps[0].expect {
        1 + agreed(steps.drop_first(), replies.drop_first())
    } else {
        0
    }
}

/// Whether one of the first `n` steps is a write.
pub open spec fn wrote_before(steps: Seq<StepView>, n: int) -> bool {
    exists|j: int| 0 <= j < n && j < steps.len() && (#[trigger] steps[j]).expect == Reply::Done
}

/// The error with which a cascade ends when step `at` is answered by `reply`,
/// which is not what the step expects. After an earlier write the failure is
/// partial, whatever the answer. Before any write, the opposite of the expected
/// answer is the conflict that the step names, if it names one, and any other
/// answer a failure of the store.
pub open spec fn verdict(steps: Seq<StepView>, at: int, reply: Reply) -> CascadeError
    recommends
        0 <= at < steps.len(),
{
    if wrote_before(steps, at) {
        CascadeError::PartialCascadeFailure(steps[at].request.name())
    } else if reply == opposite(steps[at].expect) && steps[at].conflict is Some {
        CascadeError::Conflict(steps[at].conflict->0)
    } else {
        CascadeError::StoreUnavailable(steps[at].request.name())
    }
}

/// What to do next in a cascade.
#[derive(Debug, PartialEq, Eq)]
pub enum Move<'a> {
    /// Make this request, and come back with the store's reply to it.
    Ask(&'a Request<String>),
    /// Every step was made: the cascade succeeded.
    Finished,
    /// The cascade ended at the step that the error names.
    Failed(CascadeError),
}

/// What a move stands for in contracts.
pub enum MoveView {
    Ask(RequestView),
    Finished,
    Failed(CascadeError),
}

impl<'a> View for Move<'a> {
    type V = MoveView;

    open spec fn view(&self) -> MoveView {
        match *self {
            Move::Ask(request) => MoveView::Ask(request@),
            Move::Finished => MoveView::Finished,
            Move::Failed(error) => MoveView::Failed(error),
        }
    }
}

/// The move that follows `replies`, the answers to the requests made so far,
/// in their order. While every answer is what its step expects, the next
/// step is asked for, and after the last the cascade is finished. The first
/// other answer ends it: a step that names an undo has that request made
/// once, and then, or at once where it names none, the cascade fails with the
/// verdict on the step. An undo that is not answered by `Done` fails the
/// cascade with a partial failure that names the undo.
pub open spec fn move_after(steps: Seq<StepView>, replies: Seq<Reply>) -> MoveView {
    let at = agreed(steps, replies);
    if at == steps.len() {
        MoveView::Finished
    } else if at == replies.len() {
        MoveView::Ask(steps[at].request)
    } else {
        match steps[at].undo {
            Some(undo) => if replies.len() == at + 1 {
                MoveView::Ask(undo)
            } else if replies[at + 1] == Reply::Done {
                MoveView::Failed(verdict(steps, at, replies[at]))
            } else {
                MoveView::Failed(CascadeError::PartialCascadeFailure(undo.name()))
            },
            None => MoveView::Failed(verdict(steps, at, replies[at])),
        }
    }
}

/// `agreed` gives the first place at which a reply is not what its step
/// expects, or at which the steps or the replies end.
pub proof fn lemma_agreed(steps: Seq<StepView>, replies: Seq<Reply>)
    ensures
        0 <= agreed(steps, replies) <= steps.len(),
        agreed(steps, replies) <= replies.len(),
        forall|j: int| 0 <= j < agreed(steps, replies) ==> replies[j] == steps[j].expect,
        agreed(steps, replies) < steps.len() && agreed(steps, replies) < replies.len()
            ==> replies[agreed(steps, replies)] != steps[agreed(steps, replies)].expect,
    decreases steps.len(),
{
    if steps.len() > 0 && replies.len() > 0 && replies[0] == steps[0].expect {
        let s = steps.drop_first();
        let r = replies.drop_first();
        lemma_agreed(s, r);
        assert forall|j: int| 0 <= j < agreed(steps, replies) implies replies[j]
            == steps[j].expect by {
            if j > 0 {
                assert(r[j - 1] == replies[j] && s[j - 1] == steps[j]);
            }
        }
        let a = agreed(s, r);
        if a < s.len() && a < r.len() {
            assert(r[a] == replies[a + 1] && s[a] == steps[a + 1]);
        }
    }
}

/// A place up to which every reply is what its step expects, and at which
/// one is not unless the steps or the replies end there, is what `agreed`
/// gives.
pub proof fn lemma_agreed_is(steps: Seq<StepView>, replies: Seq<Reply>, at: int)
    requires
        0 <= at <= steps.len(),
        at <= replies.len(),
        forall|j: int| 0 <= j < at ==> replies[j] == steps[j].expect,
        at < steps.len() && at < replies.len() ==> replies[at] != steps[at].expect,
    ensures
        agreed(steps, replies) == at,
{
    lemma_agreed(steps, replies);
}

fn opposite_of(expect: Reply) -> (reply: Reply)
    ensures
        reply == opposite(expect),
{
    match expect {
        Reply::Done => Reply::Duplicate,
        Reply::Duplicate => Reply::Done,
        Reply::Found => Reply::Absent,
        Reply::Absent => Reply::Found,
        Reply::Failed => Reply::Failed,
    }
}

fn has_written(steps: &Vec<Step<String>>, n: usize) -> (wrote: bool)
    requires
        n <= steps.len(),
    ensures
        wrote == wrote_before(step_views(steps@), n as int),
{
    let mut j: usize = 0;
    while j < n
        invariant
            j <= n <= steps.len(),
            forall|k: int| 0 <= k < j ==> step_views(steps@)[k].expect != Reply::Done,
        decreases n - j,
    {
        if steps[j].expect == Reply::Done {
            assert(step_views(steps@)[j as int].expect == Reply::Done);
            return true;
        }
        j += 1;
    }
    false
}

fn verdict_on(steps: &Vec<Step<String>>, at: usize, reply: Reply) -> (error: CascadeError)
    requires
        at < steps.len(),
    ensures
        error == verdict(step_views(steps@), at as int, reply),
{
    if has_written(steps, at) {
        CascadeError::PartialCascadeFailure(steps[at].request.step_name())
    } else {
        match steps[at].conflict {
            Some(conflict) if reply == opposite_of(steps[at].expect) => CascadeError::Conflict(
                conflict,
            ),
            _ => CascadeError::StoreUnavailable(steps[at].request.step_name()),
        }
    }
}

/// What to do next in the cascade `steps`, after the requests made so far
/// were answered by `replies`.
pub fn next_move<'a>(steps: &'a Vec<Step<String>>, replies: &Vec<Reply>) -> (next: Move<'a>)
    ensures
        next@ == move_after(step_views(steps@), replies@),
{
    let mut at: usize = 0;
    while at < steps.len() && at < replies.len() && replies[at] == steps[at].expect
        invariant
            at <= steps.len(),
            at <= replies.len(),
            forall|j: int| 0 <= j < at ==> replies[j] == step_views(steps@)[j].expect,
        decreases steps.len() - at,
    {
        at += 1;
    }
    proof {
        lemma_agreed_is(step_views(steps@), replies@, at as int);
    }
    if at == steps.len() {
        Move::Finished
    } else if at == replies.len() {
        Move::Ask(&steps[at].request)
    } else {
        match &steps[at].undo {
            Some(undo) => {
                if replies.len() == at + 1 {
                    Move::Ask(undo)
                } else if replies[at + 1] == Reply::Done {
                    Move::Failed(verdict_on(steps, at, replies[at]))
                } else {
                    Move::Failed(CascadeError::PartialCascadeFailure(undo.step_name()))
                }
            },
            None => Move::Failed(verdict_on(steps, at, replies[at])),
        }
    }
}

} // verus!
