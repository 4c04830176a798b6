//! What the cascades do to a store: a store that keeps its documents as the
//! requests say, a run of a cascade against it, and what such runs leave
//! behind when they succeed, fail or race.
//!
//! Nothing here is executed. The store below is the yardstick for any store
//! that the cascades are run against: it answers one request at a time, keeps
//! one member record for each pair of guild and user, and has no transaction
//! over several requests.

use vstd::prelude::*;
use crate::cascade::{
    CascadeError,
    Conflict,
    MoveView,
    Reply,
    StepName,
    StepView,
    Request,
    agreed,
    lemma_agreed,
    lemma_agreed_is,
    move_after,
    verdict,
    wrote_before,
};
use crate::guild::{
    DEFAULT_PERMISSIONS,
    ban_plan,
    delete_guild_plan,
    create_channel_plan,
    create_guild_plan,
    default_channel_name,
    join_plan,
    no_description,
    unban_plan,
};

verus! {

/// A text.
pub type Text = Seq<char>;

/// A channel document of a guild.
pub struct ChannelDoc {
    pub nonce: Option<Text>,
    pub guild: Text,
    pub name: Text,
    pub description: Text,
}

/// An invite in a guild document.
pub struct InviteDoc {
    pub code: Text,
    pub creator: Text,
    pub channel: Text,
}

/// A ban in a guild document.
pub struct BanDoc {
    pub user: Text,
    pub reason: Text,
}

/// A guild document.
pub struct GuildDoc {
    pub nonce: Text,
    pub name: Text,
    pub description: Text,
    pub owner: Text,
    pub channels: Seq<Text>,
    pub invites: Seq<InviteDoc>,
    pub bans: Seq<BanDoc>,
    pub default_permissions: u32,
}

/// The four collections: channels and guilds by id, member records as pairs
/// of guild and user, and for each message the channel it is in.
pub struct Store {
    pub channels: Map<Text, ChannelDoc>,
    pub guilds: Map<Text, GuildDoc>,
    pub members: Set<(Text, Text)>,
    pub messages: Map<Text, Text>,
}

/// Whether a guild was made with this nonce.
pub open spec fn guild_nonce_used(store: Store, nonce: Text) -> bool {
    exists|id: Text| #[trigger] store.guilds.dom().contains(id) && store.guilds[id].nonce == nonce
}

/// Whether a channel was made with this nonce.
pub open spec fn channel_nonce_used(store: Store, nonce: Text) -> bool {
    exists|id: Text| #[trigger]
        store.channels.dom().contains(id) && store.channels[id].nonce == Some(nonce)
}

/// Whether some guild holds an invite with this code.
pub open spec fn code_used(store: Store, code: Text) -> bool {
    exists|id: Text, i: int| #[trigger]
        store.guilds.dom().contains(id) && 0 <= i < store.guilds[id].invites.len() && (
        #[trigger] store.guilds[id].invites[i]).code == code
}

/// The store with the guild document changed, where the guild exists.
pub open spec fn with_guild(store: Store, id: Text, change: spec_fn(GuildDoc) -> GuildDoc) -> Store {
    if store.guilds.dom().contains(id) {
        Store { guilds: store.guilds.insert(id, change(store.guilds[id])), ..store }
    } else {
        store
    }
}

/// Whether the message's channel is a channel of the guild.
pub open spec fn message_in_guild(store: Store, message: Text, guild: Text) -> bool {
    store.channels.dom().contains(store.messages[message])
        && store.channels[store.messages[message]].guild == guild
}

/// The store after a request that it did not fail on, and its answer.
pub open spec fn serve(store: Store, request: Request<Text>) -> (Store, Reply) {
    match request {
        Request::GuildNonce { nonce } => (
            store,
            if guild_nonce_used(store, nonce) {
                Reply::Found
            } else {
                Reply::Absent
            },
        ),
        Request::ChannelNonce { nonce } => (
            store,
            if channel_nonce_used(store, nonce) {
                Reply::Found
            } else {
                Reply::Absent
            },
        ),
        Request::Member { guild, user } => (
            store,
            if store.members.contains((guild, user)) {
                Reply::Found
            } else {
                Reply::Absent
            },
        ),
        Request::InsertChannel { id, nonce, guild, name, description } => if store.channels.dom().contains(
            id,
        ) {
            (store, Reply::Duplicate)
        } else {
            (
                Store {
                    channels: store.channels.insert(
                        id,
                        ChannelDoc { nonce, guild, name, description },
                    ),
                    ..store
                },
                Reply::Done,
            )
        },
        Request::InsertMember { guild, user } => if store.members.contains((guild, user)) {
            (store, Reply::Duplicate)
        } else {
            (Store { members: store.members.insert((guild, user)), ..store }, Reply::Done)
        },
        Request::InsertGuild {
            id,
            nonce,
            name,
            description,
            owner,
            channel,
            default_permissions,
        } => if store.guilds.dom().contains(id) {
            (store, Reply::Duplicate)
        } else {
            (
                Store {
                    guilds: store.guilds.insert(
                        id,
                        GuildDoc {
                            nonce,
                            name,
                            description,
                            owner,
                            channels: seq![channel],
                            invites: Seq::empty(),
                            bans: Seq::empty(),
                            default_permissions,
                        },
                    ),
                    ..store
                },
                Reply::Done,
            )
        },
        Request::DeleteChannel { id } => (
            Store { channels: store.channels.remove(id), ..store },
            Reply::Done,
        ),
        Request::DeleteMessages { guild } => (
            Store {
                messages: store.messages.restrict(
                    Set::new(|m: Text| !message_in_guild(store, m, guild)),
                ),
                ..store
            },
            Reply::Done,
        ),
        Request::DeleteChannels { guild } => (
            Store {
                channels: store.channels.restrict(
                    Set::new(|c: Text| store.channels[c].guild != guild),
                ),
                ..store
            },
            Reply::Done,
        ),
        Request::DeleteMembers { guild } => (
            Store { members: store.members.filter(|m: (Text, Text)| m.0 != guild), ..store },
            Reply::Done,
        ),
        Request::DeleteGuild { id } => (
            Store { guilds: store.guilds.remove(id), ..store },
            Reply::Done,
        ),
        Request::DeleteMember { guild, user } => (
            Store { members: store.members.remove((guild, user)), ..store },
            Reply::Done,
        ),
        Request::ListChannel { guild, channel } => (
            with_guild(
                store,
                guild,
                |g: GuildDoc|
                    if g.channels.contains(channel) {
                        g
                    } else {
                        GuildDoc { channels: g.channels.push(channel), ..g }
                    },
            ),
            Reply::Done,
        ),
        Request::PushInvite { guild, code, creator, channel } => if code_used(store, code) {
            (store, Reply::Duplicate)
        } else {
            (
                with_guild(
                    store,
                    guild,
                    |g: GuildDoc|
                        GuildDoc {
                            invites: g.invites.push(InviteDoc { code, creator, channel }),
                            ..g
                        },
                ),
                Reply::Done,
            )
        },
        Request::PullInvite { guild, code } => (
            with_guild(
                store,
                guild,
                |g: GuildDoc|
                    GuildDoc { invites: g.invites.filter(|i: InviteDoc| i.code != code), ..g },
            ),
            Reply::Done,
        ),
        Request::PushBan { guild, user, reason } => (
            with_guild(
                store,
                guild,
                |g: GuildDoc| GuildDoc { bans: g.bans.push(BanDoc { user, reason }), ..g },
            ),
            Reply::Done,
        ),
        Request::PullBan { guild, user } => (
            with_guild(
                store,
                guild,
                |g: GuildDoc| GuildDoc { bans: g.bans.filter(|b: BanDoc| b.user != user), ..g },
            ),
            Reply::Done,
        ),
    }
}

/// How a run ended, and the store it left.
pub struct End {
    pub store: Store,
    pub last: MoveView,
}

/// A run of a cascade from the point at which `replies` were given: each
/// request that `move_after` names is served, and its answer added, until the
/// cascade is finished or has failed. The store fails on the requests whose
/// place in the run is in `faults`, and is not changed by them. `fuel` bounds
/// the number of requests.
pub open spec fn run(
    store: Store,
    steps: Seq<StepView>,
    replies: Seq<Reply>,
    faults: Set<int>,
    fuel: nat,
) -> End
    decreases fuel,
{
    match move_after(steps, replies) {
        MoveView::Ask(request) => if fuel == 0 {
            End { store, last: MoveView::Ask(request) }
        } else if faults.contains(replies.len() as int) {
            run(store, steps, replies.push(Reply::Failed), faults, (fuel - 1) as nat)
        } else {
            run(
                serve(store, request).0,
                steps,
                replies.push(serve(store, request).1),
                faults,
                (fuel - 1) as nat,
            )
        },
        last => End { store, last },
    }
}

/// A whole run of a cascade: no cascade makes more requests than it has
/// steps, and one more to undo.
pub open spec fn whole_run(store: Store, steps: Seq<StepView>, faults: Set<int>) -> End {
    run(store, steps, Seq::empty(), faults, steps.len() + 1)
}

/// A run that may make as many requests as the cascade has steps, and one
/// more, comes to an end: the cascade is then finished or has failed, and
/// asks for nothing.
pub proof fn law_run_ends(
    store: Store,
    steps: Seq<StepView>,
    replies: Seq<Reply>,
    faults: Set<int>,
    fuel: nat,
)
    requires
        fuel + replies.len() >= steps.len() + 1,
    ensures
        !(run(store, steps, replies, faults, fuel).last is Ask),
    decreases fuel,
{
    lemma_agreed(steps, replies);
    if move_after(steps, replies) is Ask {
        assert(replies.len() <= steps.len());
        let next_store = if faults.contains(replies.len() as int) {
            store
        } else {
            serve(store, move_after(steps, replies)->Ask_0).0
        };
        let reply = if faults.contains(replies.len() as int) {
            Reply::Failed
        } else {
            serve(store, move_after(steps, replies)->Ask_0).1
        };
        law_run_ends(next_store, steps, replies.push(reply), faults, (fuel - 1) as nat);
    }
}

/// A cascade that has failed stays failed, with the same error, whatever
/// replies are added; one that has no undo to make fails as soon as one reply
/// is not what its step expects.
pub proof fn law_failure_is_final(steps: Seq<StepView>, replies: Seq<Reply>, more: Reply)
    requires
        move_after(steps, replies) is Failed,
    ensures
        move_after(steps, replies.push(more)) == move_after(steps, replies),
{
    lemma_agreed(steps, replies);
    let at = agreed(steps, replies);
    let longer = replies.push(more);
    assert forall|j: int| 0 <= j < at implies longer[j] == steps[j].expect by {
        assert(longer[j] == replies[j]);
    }
    assert(longer[at] == replies[at]);
    lemma_agreed_is(steps, longer, at);
    if steps[at].undo is Some {
        assert(longer[at + 1] == replies[at + 1]);
    }
}

/// What a cascade asks for is the step that follows the replies, all of
/// which are what their steps expect; or it is the undo of the step whose
/// reply, the last, was the first that its step did not expect.
pub proof fn law_steps_in_order(steps: Seq<StepView>, replies: Seq<Reply>)
    requires
        move_after(steps, replies) is Ask,
    ensures
        ({
            let asked = move_after(steps, replies)->Ask_0;
            let at = agreed(steps, replies);
            &&& 0 <= at < steps.len()
            &&& forall|j: int| 0 <= j < at ==> replies[j] == steps[j].expect
            &&& at == replies.len() ==> asked == steps[at].request
            &&& at != replies.len() ==> at + 1 == replies.len() && replies[at] != steps[at].expect
                && steps[at].undo == Some(asked)
        }),
{
    lemma_agreed(steps, replies);
}

/// When the deletion of a guild fails at one of its steps, the guild document
/// is still there: no channel and no member record is left that belongs to a
/// guild that is gone. When no step fails, the guild is gone with all its
/// channels and member records.
pub proof fn law_delete_guild_leaves_no_orphans(store: Store, guild: Text, fault: int)
    requires
        store.guilds.dom().contains(guild),
    ensures
        ({
            let end = whole_run(store, delete_guild_plan(guild).steps, set![fault]);
            let failed = 0 <= fault < 4;
            &&& failed ==> end.last is Failed && end.store.guilds == store.guilds
            &&& !failed ==> end.last == MoveView::Finished && !end.store.guilds.dom().contains(
                guild,
            )
            &&& !failed || fault > 1 ==> forall|c: Text| #[trigger]
                end.store.channels.dom().contains(c) ==> end.store.channels[c].guild != guild
            &&& !failed || fault > 2 ==> forall|u: Text| !end.store.members.contains((guild, u))
        }),
{
    let steps = delete_guild_plan(guild).steps;
    let faults = set![fault];
    let r0 = Seq::<Reply>::empty();
    let d1 = r0.push(Reply::Done);
    let d2 = d1.push(Reply::Done);
    let d3 = d2.push(Reply::Done);
    let d4 = d3.push(Reply::Done);
    let s1 = serve(store, steps[0].request).0;
    let s2 = serve(s1, steps[1].request).0;
    let s3 = serve(s2, steps[2].request).0;
    let s4 = serve(s3, steps[3].request).0;
    lemma_agreed_is(steps, r0, 0);
    lemma_agreed_is(steps, d1, 1);
    lemma_agreed_is(steps, d2, 2);
    lemma_agreed_is(steps, d3, 3);
    lemma_agreed_is(steps, d4, 4);
    lemma_agreed_is(steps, r0.push(Reply::Failed), 0);
    lemma_agreed_is(steps, d1.push(Reply::Failed), 1);
    lemma_agreed_is(steps, d2.push(Reply::Failed), 2);
    lemma_agreed_is(steps, d3.push(Reply::Failed), 3);
    if fault == 0 {
        let f = r0.push(Reply::Failed);
        assert(run(store, steps, f, faults, 4) == End { store, last: move_after(steps, f) });
        assert(run(store, steps, r0, faults, 5) == run(store, steps, f, faults, 4));
    } else if fault == 1 {
        let f = d1.push(Reply::Failed);
        assert(run(s1, steps, f, faults, 3) == End { store: s1, last: move_after(steps, f) });
        assert(run(s1, steps, d1, faults, 4) == run(s1, steps, f, faults, 3));
        assert(run(store, steps, r0, faults, 5) == run(s1, steps, d1, faults, 4));
    } else if fault == 2 {
        let f = d2.push(Reply::Failed);
        assert(run(s2, steps, f, faults, 2) == End { store: s2, last: move_after(steps, f) });
        assert(run(s2, steps, d2, faults, 3) == run(s2, steps, f, faults, 2));
        assert(run(s1, steps, d1, faults, 4) == run(s2, steps, d2, faults, 3));
        assert(run(store, steps, r0, faults, 5) == run(s1, steps, d1, faults, 4));
    } else if fault == 3 {
        let f = d3.push(Reply::Failed);
        assert(run(s3, steps, f, faults, 1) == End { store: s3, last: move_after(steps, f) });
        assert(run(s3, steps, d3, faults, 2) == run(s3, steps, f, faults, 1));
        assert(run(s2, steps, d2, faults, 3) == run(s3, steps, d3, faults, 2));
        assert(run(s1, steps, d1, faults, 4) == run(s2, steps, d2, faults, 3));
        assert(run(store, steps, r0, faults, 5) == run(s1, steps, d1, faults, 4));
    } else {
        assert(run(s4, steps, d4, faults, 1) == End { store: s4, last: MoveView::Finished });
        assert(run(s3, steps, d3, faults, 2) == run(s4, steps, d4, faults, 1));
        assert(run(s2, steps, d2, faults, 3) == run(s3, steps, d3, faults, 2));
        assert(run(s1, steps, d1, faults, 4) == run(s2, steps, d2, faults, 3));
        assert(run(store, steps, r0, faults, 5) == run(s1, steps, d1, faults, 4));
    }
}

/// The channel document that `create_channel` writes.
pub open spec fn new_channel_doc(
    guild: Text,
    nonce: Text,
    name: Text,
    description: Option<Text>,
) -> ChannelDoc {
    ChannelDoc {
        nonce: Some(nonce),
        guild,
        name,
        description: match description {
            Some(d) => d,
            None => Seq::empty(),
        },
    }
}

/// Where the store fails when the guild is to list a new channel, after the
/// channel document was written, the channel exists in the store, the guild
/// documents are as they were, so that no guild lists the channel unless one
/// did before, and the cascade reports a partial failure at that step.
pub proof fn law_unlisted_channel(
    store: Store,
    guild: Text,
    nonce: Text,
    name: Text,
    description: Option<Text>,
    id: Text,
)
    requires
        !channel_nonce_used(store, nonce),
        !store.channels.dom().contains(id),
    ensures
        ({
            let end = whole_run(
                store,
                create_channel_plan(guild, nonce, name, description, id).steps,
                set![2int],
            );
            &&& end.last == MoveView::Failed(
                CascadeError::PartialCascadeFailure(StepName::ListChannel),
            )
            &&& end.store.channels == store.channels.insert(
                id,
                new_channel_doc(guild, nonce, name, description),
            )
            &&& end.store.guilds == store.guilds
            &&& end.store.members == store.members
            &&& end.store.messages == store.messages
        }),
{
    let steps = create_channel_plan(guild, nonce, name, description, id).steps;
    let faults = set![2int];
    let r0 = Seq::<Reply>::empty();
    let r1 = r0.push(Reply::Absent);
    let r2 = r1.push(Reply::Done);
    let r3 = r2.push(Reply::Failed);
    let s1 = serve(store, steps[1].request).0;
    lemma_agreed_is(steps, r0, 0);
    lemma_agreed_is(steps, r1, 1);
    lemma_agreed_is(steps, r2, 2);
    lemma_agreed_is(steps, r3, 2);
    assert(wrote_before(steps, 2)) by {
        assert(steps[1].expect == Reply::Done);
    }
    assert(run(store, steps, r3, faults, 1) == End { store, last: move_after(steps, r3) });
    assert(run(s1, steps, r3, faults, 1).last == MoveView::Failed(
        CascadeError::PartialCascadeFailure(StepName::ListChannel),
    ));
    assert(run(s1, steps, r2, faults, 2) == run(s1, steps, r3, faults, 1));
    assert(run(store, steps, r1, faults, 3) == run(s1, steps, r2, faults, 2));
    assert(run(store, steps, r0, faults, 4) == run(store, steps, r1, faults, 3));
}

/// The guild document that `create_guild` writes.
pub open spec fn new_guild_doc(
    user: Text,
    name: Text,
    description: Option<Text>,
    nonce: Text,
    channel: Text,
) -> GuildDoc {
    GuildDoc {
        nonce,
        name,
        description: match description {
            Some(d) => d,
            None => no_description(),
        },
        owner: user,
        channels: seq![channel],
        invites: Seq::empty(),
        bans: Seq::empty(),
        default_permissions: DEFAULT_PERMISSIONS,
    }
}

/// A guild that is created twice with one nonce is created once. The first
/// cascade, with ids that the store does not hold yet, adds one guild, its
/// default channel and the creator's member record. The second, whatever ids
/// it was given, ends in a conflict and leaves the store as the first left it.
pub proof fn law_create_guild_once(
    store: Store,
    user: Text,
    name: Text,
    description: Option<Text>,
    nonce: Text,
    id: Text,
    channel: Text,
    second_id: Text,
    second_channel: Text,
)
    requires
        !guild_nonce_used(store, nonce),
        !store.guilds.dom().contains(id),
        !store.channels.dom().contains(channel),
        !store.members.contains((id, user)),
    ensures
        ({
            let first = whole_run(
                store,
                create_guild_plan(user, name, description, nonce, id, channel).steps,
                Set::empty(),
            );
            let second = whole_run(
                first.store,
                create_guild_plan(
                    user,
                    name,
                    description,
                    nonce,
                    second_id,
                    second_channel,
                ).steps,
                Set::empty(),
            );
            &&& first.last == MoveView::Finished
            &&& first.store.guilds == store.guilds.insert(
                id,
                new_guild_doc(user, name, description, nonce, channel),
            )
            &&& first.store.channels == store.channels.insert(
                channel,
                ChannelDoc {
                    nonce: None,
                    guild: id,
                    name: default_channel_name(),
                    description: Seq::empty(),
                },
            )
            &&& first.store.members == store.members.insert((id, user))
            &&& first.store.messages == store.messages
            &&& second.last == MoveView::Failed(CascadeError::Conflict(Conflict::DuplicateNonce))
            &&& second.store == first.store
        }),
{
    let steps = create_guild_plan(user, name, description, nonce, id, channel).steps;
    let none = Set::<int>::empty();
    let r0 = Seq::<Reply>::empty();
    let r1 = r0.push(Reply::Absent);
    let r2 = r1.push(Reply::Done);
    let r3 = r2.push(Reply::Done);
    let r4 = r3.push(Reply::Done);
    let s1 = serve(store, steps[1].request).0;
    let s2 = serve(s1, steps[2].request).0;
    let s3 = serve(s2, steps[3].request).0;
    lemma_agreed_is(steps, r0, 0);
    lemma_agreed_is(steps, r1, 1);
    lemma_agreed_is(steps, r2, 2);
    lemma_agreed_is(steps, r3, 3);
    lemma_agreed_is(steps, r4, 4);
    assert(run(s3, steps, r4, none, 1) == End { store: s3, last: MoveView::Finished });
    assert(run(s2, steps, r3, none, 2) == run(s3, steps, r4, none, 1));
    assert(run(s1, steps, r2, none, 3) == run(s2, steps, r3, none, 2));
    assert(run(store, steps, r1, none, 4) == run(s1, steps, r2, none, 3));
    assert(run(store, steps, r0, none, 5) == run(store, steps, r1, none, 4));
    assert(whole_run(store, steps, none).store == s3);

    let again = create_guild_plan(
        user,
        name,
        description,
        nonce,
        second_id,
        second_channel,
    ).steps;
    let q1 = r0.push(Reply::Found);
    assert(s3.guilds.dom().contains(id) && s3.guilds[id].nonce == nonce);
    assert(guild_nonce_used(s3, nonce));
    lemma_agreed_is(again, r0, 0);
    lemma_agreed_is(again, q1, 0);
    assert(!wrote_before(again, 0));
    assert(verdict(again, 0, Reply::Found) == CascadeError::Conflict(Conflict::DuplicateNonce));
    assert(run(s3, again, q1, none, 4) == End { store: s3, last: move_after(again, q1) });
    assert(run(s3, again, r0, none, 5) == run(s3, again, q1, none, 4));
}

/// Two joins of one user to one guild that both find no member record: the
/// store takes the insert of the one and refuses that of the other. The first
/// cascade succeeds, the second ends in the conflict `AlreadyMember`, and the
/// store holds the one record.
pub proof fn law_join_race(store: Store, guild: Text, channel: Text, user: Text)
    requires
        !store.members.contains((guild, user)),
    ensures
        ({
            let steps = join_plan(guild, channel, user).steps;
            let checked = seq![serve(store, steps[0].request).1];
            let first = serve(store, steps[1].request);
            let second = serve(first.0, steps[1].request);
            &&& move_after(steps, Seq::empty()) == MoveView::Ask(steps[0].request)
            &&& move_after(steps, checked) == MoveView::Ask(steps[1].request)
            &&& move_after(steps, checked.push(first.1)) == MoveView::Finished
            &&& move_after(steps, checked.push(second.1)) == MoveView::Failed(
                CascadeError::Conflict(Conflict::AlreadyMember),
            )
            &&& second.0 == first.0
            &&& first.0.members == store.members.insert((guild, user))
        }),
{
    let steps = join_plan(guild, channel, user).steps;
    let r0 = Seq::<Reply>::empty();
    let r1 = seq![Reply::Absent];
    assert(seq![serve(store, steps[0].request).1] =~= r1);
    lemma_agreed_is(steps, r0, 0);
    lemma_agreed_is(steps, r1, 1);
    lemma_agreed_is(steps, r1.push(Reply::Done), 2);
    lemma_agreed_is(steps, r1.push(Reply::Duplicate), 1);
    assert(!wrote_before(steps, 1));
}

/// A member who is banned and then unbanned, with no failure of the store, is
/// no member any more and is not banned: the guild's bans are those it had.
pub proof fn law_ban_then_unban(store: Store, guild: Text, other: Text, reason: Option<Text>)
    requires
        store.guilds.dom().contains(guild),
        store.members.contains((guild, other)),
        forall|i: int|
            0 <= i < store.guilds[guild].bans.len() ==> (
            #[trigger] store.guilds[guild].bans[i]).user != other,
    ensures
        ({
            let banned = whole_run(store, ban_plan(guild, other, reason).steps, Set::empty());
            let lifted = whole_run(banned.store, unban_plan(guild, other).steps, Set::empty());
            &&& banned.last == MoveView::Finished
            &&& !banned.store.members.contains((guild, other))
            &&& banned.store.guilds[guild].bans.len() == store.guilds[guild].bans.len() + 1
            &&& banned.store.guilds[guild].bans.last().user == other
            &&& lifted.last == MoveView::Finished
            &&& lifted.store.members == store.members.remove((guild, other))
            &&& lifted.store.guilds[guild].bans == store.guilds[guild].bans
        }),
{
    let steps = ban_plan(guild, other, reason).steps;
    let none = Set::<int>::empty();
    let r0 = Seq::<Reply>::empty();
    let r1 = r0.push(Reply::Found);
    let r2 = r1.push(Reply::Done);
    let r3 = r2.push(Reply::Done);
    let s1 = serve(store, steps[1].request).0;
    let s2 = serve(s1, steps[2].request).0;
    lemma_agreed_is(steps, r0, 0);
    lemma_agreed_is(steps, r1, 1);
    lemma_agreed_is(steps, r2, 2);
    lemma_agreed_is(steps, r3, 3);
    assert(run(s2, steps, r3, none, 1) == End { store: s2, last: MoveView::Finished });
    assert(run(s1, steps, r2, none, 2) == run(s2, steps, r3, none, 1));
    assert(run(store, steps, r1, none, 3) == run(s1, steps, r2, none, 2));
    assert(run(store, steps, r0, none, 4) == run(store, steps, r1, none, 3));

    let lift = unban_plan(guild, other).steps;
    let q1 = r0.push(Reply::Done);
    let s3 = serve(s2, lift[0].request).0;
    lemma_agreed_is(lift, r0, 0);
    lemma_agreed_is(lift, q1, 1);
    assert(run(s3, lift, q1, none, 1) == End { store: s3, last: MoveView::Finished });
    assert(run(s2, lift, r0, none, 2) == run(s3, lift, q1, none, 1));
    let old_bans = store.guilds[guild].bans;
    let new_bans = s2.guilds[guild].bans;
    assert(new_bans == old_bans.push(BanDoc { user: other, reason: match reason {
        Some(r) => r,
        None => crate::guild::no_reason(),
    } }));
    lemma_filter_keeps(old_bans, new_bans.last(), other);
    assert(s3.guilds[guild].bans == old_bans);
}

/// Taking the bans of one user out of a list that holds one at its end, and
/// none before it, gives the list without its end.
proof fn lemma_filter_keeps(bans: Seq<BanDoc>, last: BanDoc, user: Text)
    requires
        last.user == user,
        forall|i: int| 0 <= i < bans.len() ==> (#[trigger] bans[i]).user != user,
    ensures
        bans.push(last).filter(|b: BanDoc| b.user != user) == bans,
{
    reveal(Seq::filter);
    assert(bans.push(last).drop_last() =~= bans);
    lemma_filter_all(bans, user);
}

/// A list that holds no ban of the user stays as it is when that user's bans
/// are taken out.
proof fn lemma_filter_all(bans: Seq<BanDoc>, user: Text)
    requires
        forall|i: int| 0 <= i < bans.len() ==> (#[trigger] bans[i]).user != user,
    ensures
        bans.filter(|b: BanDoc| b.user != user) == bans,
    decreases bans.len(),
{
    reveal(Seq::filter);
    if bans.len() > 0 {
        lemma_filter_all(bans.drop_last(), user);
        assert(bans.drop_last().push(bans.last()) =~= bans);
    } else {
        assert(bans.filter(|b: BanDoc| b.user != user) =~= bans);
    }
}

} // verus!
