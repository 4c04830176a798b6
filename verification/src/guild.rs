//! The operations on guilds, each as a decision and a plan.
//!
//! An operation looks at who acts, with which capabilities, on what, and
//! either refuses or plans its cascade: the requests to the store, in the
//! order in which they are to be made. Every refusal is decided before the
//! first request; `cascade::next_move` then runs the plan.

use ulid::Ulid;
use vstd::prelude::*;
use vstd::string::*;
use crate::cache::FetchError;
use crate::cascade::{
    CascadeError,
    Conflict,
    Missing,
    Permission,
    Reply,
    Step,
    StepName,
    StepView,
    Request,
    step_views,
    text_view,
};
use crate::channel::{Channel, copy_text};

verus! {

/// The permissions a new guild gives to every member.
pub const DEFAULT_PERMISSIONS: u32 = 51;

/// The number of characters of a generated id.
pub const ID_LENGTH: usize = 26;

/// The most characters that are kept of a nonce.
pub const NONCE_LIMIT: usize = 32;

/// The most characters that are kept of a name.
pub const NAME_LIMIT: usize = 32;

/// The most characters that are kept of a description.
pub const DESCRIPTION_LIMIT: usize = 255;

/// The most characters that are kept of the reason of a ban.
pub const REASON_LIMIT: usize = 64;

/// The first `limit` characters of a text, or all of it where it has no more.
pub open spec fn clipped(text: Seq<char>, limit: usize) -> Seq<char> {
    if text.len() <= limit {
        text
    } else {
        text.subrange(0, limit as int)
    }
}

/// The first `limit` characters of a text that was given.
pub open spec fn clipped_if_given(text: Option<Seq<char>>, limit: usize) -> Option<Seq<char>> {
    match text {
        Some(t) => Some(clipped(t, limit)),
        None => None,
    }
}

/// The first `limit` characters of a text, or all of it where it has no more.
pub fn clip(text: &String, limit: usize) -> (kept: String)
    ensures
        kept@ == clipped(text@, limit),
{
    let whole = text.as_str();
    if whole.unicode_len() <= limit {
        text.clone()
    } else {
        whole.substring_char(0, limit).to_owned()
    }
}

/// The acting user.
#[derive(Debug, Clone, PartialEq, Eq)]
pub struct User {
    pub id: String,
    /// Whether the user's email address was verified.
    pub email_verified: bool,
}

/// What the acting user may do in the guild at hand, as the permission
/// calculator found it.
#[derive(Debug, Clone, Copy, PartialEq, Eq, Structural)]
pub struct Capabilities {
    pub access: bool,
    pub manage_channels: bool,
    pub create_invite: bool,
    pub manage_server: bool,
    pub kick_members: bool,
    pub ban_members: bool,
}

impl Capabilities {
    /// Whether the capabilities hold this permission. That an email address
    /// is verified is known of the user, and no guild grants it.
    pub open spec fn grants(self, permission: Permission) -> bool {
        match permission {
            Permission::VerifiedEmail => false,
            Permission::ManageChannels => self.manage_channels,
            Permission::CreateInvite => self.create_invite,
            Permission::ManageServer => self.manage_server,
            Permission::KickMembers => self.kick_members,
            Permission::BanMembers => self.ban_members,
        }
    }

    /// Whether an operation on the guild may go ahead.
    pub open spec fn permit_decision(self, needed: Option<Permission>) -> Result<(), CascadeError> {
        if !self.access {
            Err(CascadeError::NotFound(Missing::Guild))
        } else if needed is Some && !self.grants(needed->0) {
            Err(CascadeError::PermissionDenied(needed->0))
        } else {
            Ok(())
        }
    }

    /// Decides whether an operation on the guild may go ahead: to one without
    /// access the guild does not exist, and one who lacks the permission that
    /// the operation needs is told which.
    pub fn permit(&self, needed: Option<Permission>) -> (decision: Result<(), CascadeError>)
        ensures
            decision == self.permit_decision(needed),
    {
        if !self.access {
            return Err(CascadeError::NotFound(Missing::Guild));
        }
        match needed {
            None => Ok(()),
            Some(permission) => {
                let granted = match permission {
                    Permission::VerifiedEmail => false,
                    Permission::ManageChannels => self.manage_channels,
                    Permission::CreateInvite => self.create_invite,
                    Permission::ManageServer => self.manage_server,
                    Permission::KickMembers => self.kick_members,
                    Permission::BanMembers => self.ban_members,
                };
                if granted {
                    Ok(())
                } else {
                    Err(CascadeError::PermissionDenied(permission))
                }
            },
        }
    }
}

/// An invite: a code that leads to one channel of a guild.
#[derive(Debug, Clone, PartialEq, Eq)]
pub struct Invite {
    pub code: String,
    pub creator: String,
    pub channel: String,
}

/// A ban of one user from a guild.
#[derive(Debug, Clone, PartialEq, Eq)]
pub struct Ban {
    pub id: String,
    pub reason: String,
}

/// A guild document.
#[derive(Debug, Clone, PartialEq, Eq)]
pub struct Guild {
    pub id: String,
    pub name: String,
    pub description: String,
    pub owner: String,
    pub channels: Vec<String>,
    pub invites: Vec<Invite>,
    pub bans: Vec<Ban>,
    pub default_permissions: u32,
}

/// A member of a guild.
#[derive(Debug, Clone, PartialEq, Eq)]
pub struct Member {
    pub user: String,
    pub nickname: Option<String>,
}

/// An invite as a code resolved to it: the one guild that holds it, and the
/// invite.
#[derive(Debug, Clone, PartialEq, Eq)]
pub struct ResolvedInvite {
    pub guild_id: String,
    pub guild_name: String,
    pub invite: Invite,
}

/// What is shown of an invite before it is used.
#[derive(Debug, Clone, PartialEq, Eq)]
pub struct InvitePreview {
    pub guild_id: String,
    pub guild_name: String,
    pub channel_id: String,
    pub channel_name: Option<String>,
}

/// A request for a new channel.
#[derive(Debug, Clone, PartialEq, Eq)]
pub struct CreateChannel {
    pub nonce: String,
    pub name: String,
    pub description: Option<String>,
}

/// The options of a new invite. There are none yet.
#[derive(Debug, Clone, Copy, PartialEq, Eq, Structural)]
pub struct InviteOptions {}

/// A request for a new guild.
#[derive(Debug, Clone, PartialEq, Eq)]
pub struct CreateGuild {
    pub name: String,
    pub description: Option<String>,
    pub nonce: String,
}

/// The options of a ban.
#[derive(Debug, Clone, PartialEq, Eq)]
pub struct BanOptions {
    pub reason: Option<String>,
}

/// What a cascade that succeeded has changed: the payload of the answer, and
/// the event to publish. `T` is the type of a text, as in `Request`.
#[derive(Debug, Clone, PartialEq, Eq)]
pub enum Receipt<T> {
    GuildCreated { id: T },
    GuildDeleted { id: T },
    ChannelCreated { guild: T, id: T },
    InviteCreated { code: T },
    InviteDeleted { guild: T, code: T },
    Joined { guild: T, channel: T, user: T },
    /// The user left the guild, was kicked, or was banned.
    MemberLeft { guild: T, user: T, banned: bool },
    Unbanned { guild: T, user: T },
}

impl View for Receipt<String> {
    type V = Receipt<Seq<char>>;

    open spec fn view(&self) -> Receipt<Seq<char>> {
        match *self {
            Receipt::GuildCreated { id } => Receipt::GuildCreated { id: id@ },
            Receipt::GuildDeleted { id } => Receipt::GuildDeleted { id: id@ },
            Receipt::ChannelCreated { guild, id } => Receipt::ChannelCreated {
                guild: guild@,
                id: id@,
            },
            Receipt::InviteCreated { code } => Receipt::InviteCreated { code: code@ },
            Receipt::InviteDeleted { guild, code } => Receipt::InviteDeleted {
                guild: guild@,
                code: code@,
            },
            Receipt::Joined { guild, channel, user } => Receipt::Joined {
                guild: guild@,
                channel: channel@,
                user: user@,
            },
            Receipt::MemberLeft { guild, user, banned } => Receipt::MemberLeft {
                guild: guild@,
                user: user@,
                banned,
            },
            Receipt::Unbanned { guild, user } => Receipt::Unbanned { guild: guild@, user: user@ },
        }
    }
}

/// A planned cascade: its steps in their order, and what it will have changed
/// when all of them are made.
#[derive(Debug, Clone, PartialEq, Eq)]
pub struct Plan {
    pub steps: Vec<Step<String>>,
    pub receipt: Receipt<String>,
}

/// What a plan stands for in contracts.
pub struct PlanView {
    pub steps: Seq<StepView>,
    pub receipt: Receipt<Seq<char>>,
}

impl View for Plan {
    type V = PlanView;

    open spec fn view(&self) -> PlanView {
        PlanView { steps: step_views(self.steps@), receipt: self.receipt@ }
    }
}

/// What a decision stands for in contracts.
pub open spec fn decided(decision: Result<Plan, CascadeError>) -> Result<PlanView, CascadeError> {
    match decision {
        Ok(plan) => Ok(plan@),
        Err(error) => Err(error),
    }
}

/// A write, which the store answers by `Done`.
pub open spec fn write_step(request: Request<Seq<char>>) -> StepView {
    Step { request, expect: Reply::Done, conflict: None, undo: None }
}

/// A question whose answer has to be `expect`; the other answer is `conflict`.
pub open spec fn check_step(request: Request<Seq<char>>, expect: Reply, conflict: Conflict) -> StepView {
    Step { request, expect, conflict: Some(conflict), undo: None }
}

/// An insert that the store may refuse as a duplicate, which is `conflict`.
pub open spec fn insert_step(request: Request<Seq<char>>, conflict: Conflict) -> StepView {
    Step { request, expect: Reply::Done, conflict: Some(conflict), undo: None }
}

fn write(request: Request<String>) -> (step: Step<String>)
    ensures
        step@ == write_step(request@),
{
    Step { request, expect: Reply::Done, conflict: None, undo: None }
}

fn check(request: Request<String>, expect: Reply, conflict: Conflict) -> (step: Step<String>)
    ensures
        step@ == check_step(request@, expect, conflict),
{
    Step { request, expect, conflict: Some(conflict), undo: None }
}

fn insert(request: Request<String>, conflict: Conflict) -> (step: Step<String>)
    ensures
        step@ == insert_step(request@, conflict),
{
    Step { request, expect: Reply::Done, conflict: Some(conflict), undo: None }
}

/// Calls `Ulid::generate` and `Ulid::to_string`: a new identifier made of the time
/// and of random bits, written as 26 characters.
#[verifier::external_body]
fn fresh_id() -> (id: String)
    ensures
        id@.len() == ID_LENGTH,
{
    Ulid::generate().to_string()
}

/// The cascade that deletes a guild: its messages first, then its channels,
/// then its member records, and the guild document last. Whatever step fails,
/// what the store then holds refers upwards to documents that exist: a
/// channel or a member record of the guild is gone before the guild is, so a
/// failure may leave the guild listing channels that were deleted, and never
/// a channel or a member of a guild that was.
pub open spec fn delete_guild_plan(guild: Seq<char>) -> PlanView {
    PlanView {
        steps: seq![
            write_step(Request::DeleteMessages { guild }),
            write_step(Request::DeleteChannels { guild }),
            write_step(Request::DeleteMembers { guild }),
            write_step(Request::DeleteGuild { id: guild }),
        ],
        receipt: Receipt::GuildDeleted { id: guild },
    }
}

/// The one step by which a user leaves a guild.
pub open spec fn leave_guild_plan(guild: Seq<char>, user: Seq<char>) -> PlanView {
    PlanView {
        steps: seq![write_step(Request::DeleteMember { guild, user })],
        receipt: Receipt::MemberLeft { guild, user, banned: false },
    }
}

/// What `remove_guild` decides.
pub open spec fn remove_guild_decision(
    user: Seq<char>,
    caps: Capabilities,
    guild: Seq<char>,
    owner: Seq<char>,
) -> Result<PlanView, CascadeError> {
    if !caps.access {
        Err(CascadeError::NotFound(Missing::Guild))
    } else if user == owner {
        Ok(delete_guild_plan(guild))
    } else {
        Ok(leave_guild_plan(guild, user))
    }
}

/// Deletes the guild where its owner acts, and else removes the acting user
/// from it.
pub fn remove_guild(user: &User, caps: &Capabilities, target: &Guild) -> (decision: Result<
    Plan,
    CascadeError,
>)
    ensures
        decided(decision) == remove_guild_decision(user.id@, *caps, target.id@, target.owner@),
{
    if let Err(refusal) = caps.permit(None) {
        return Err(refusal);
    }
    if user.id == target.owner {
        let steps = vec![
            write(Request::DeleteMessages { guild: target.id.clone() }),
            write(Request::DeleteChannels { guild: target.id.clone() }),
            write(Request::DeleteMembers { guild: target.id.clone() }),
            write(Request::DeleteGuild { id: target.id.clone() }),
        ];
        assert(step_views(steps@) =~= delete_guild_plan(target.id@).steps);
        Ok(Plan { steps, receipt: Receipt::GuildDeleted { id: target.id.clone() } })
    } else {
        let steps = vec![
            write(Request::DeleteMember { guild: target.id.clone(), user: user.id.clone() }),
        ];
        assert(step_views(steps@) =~= leave_guild_plan(target.id@, user.id@).steps);
        Ok(
            Plan {
                steps,
                receipt: Receipt::MemberLeft {
                    guild: target.id.clone(),
                    user: user.id.clone(),
                    banned: false,
                },
            },
        )
    }
}

/// The description of a guild that was given none.
pub open spec fn no_description() -> Seq<char> {
    "No description."@
}

/// The name of the channel that every new guild has.
pub open spec fn default_channel_name() -> Seq<char> {
    "general"@
}

/// The cascade that creates a guild. The nonce must be new. The default
/// channel is made first, then the creator's member record, then the guild
/// document that names both. Where the guild document cannot be written, the
/// channel is deleted again: nothing would ever list it.
pub open spec fn create_guild_plan(
    user: Seq<char>,
    name: Seq<char>,
    description: Option<Seq<char>>,
    nonce: Seq<char>,
    id: Seq<char>,
    channel: Seq<char>,
) -> PlanView {
    PlanView {
        steps: seq![
            check_step(Request::GuildNonce { nonce }, Reply::Absent, Conflict::DuplicateNonce),
            write_step(
                Request::InsertChannel {
                    id: channel,
                    nonce: None,
                    guild: id,
                    name: default_channel_name(),
                    description: Seq::empty(),
                },
            ),
            write_step(Request::InsertMember { guild: id, user }),
            Step {
                request: Request::InsertGuild {
                    id,
                    nonce,
                    name,
                    description: match description {
                        Some(d) => d,
                        None => no_description(),
                    },
                    owner: user,
                    channel,
                    default_permissions: DEFAULT_PERMISSIONS,
                },
                expect: Reply::Done,
                conflict: None,
                undo: Some(Request::DeleteChannel { id: channel }),
            },
        ],
        receipt: Receipt::GuildCreated { id },
    }
}

/// What `create_guild` decides, given the ids for the guild and its channel.
/// Of the name, the description and the nonce the first characters are kept,
/// up to the limit of each.
pub open spec fn create_guild_decision(
    user: Seq<char>,
    verified: bool,
    name: Seq<char>,
    description: Option<Seq<char>>,
    nonce: Seq<char>,
    id: Seq<char>,
    channel: Seq<char>,
) -> Result<PlanView, CascadeError> {
    if !verified {
        Err(CascadeError::PermissionDenied(Permission::VerifiedEmail))
    } else {
        Ok(
            create_guild_plan(
                user,
                clipped(name, NAME_LIMIT),
                clipped_if_given(description, DESCRIPTION_LIMIT),
                clipped(nonce, NONCE_LIMIT),
                id,
                channel,
            ),
        )
    }
}

/// Creates a guild under `id`, with a default channel under `channel`.
pub fn create_guild_with(user: &User, info: &CreateGuild, id: String, channel: String) -> (decision:
    Result<Plan, CascadeError>)
    ensures
        decided(decision) == create_guild_decision(
            user.id@,
            user.email_verified,
            info.name@,
            text_view(info.description),
            info.nonce@,
            id@,
            channel@,
        ),
{
    if !user.email_verified {
        return Err(CascadeError::PermissionDenied(Permission::VerifiedEmail));
    }
    let description = match &info.description {
        Some(d) => clip(d, DESCRIPTION_LIMIT),
        None => "No description.".to_owned(),
    };
    let nonce = clip(&info.nonce, NONCE_LIMIT);
    let last = Step {
        request: Request::InsertGuild {
            id: id.clone(),
            nonce: nonce.clone(),
            name: clip(&info.name, NAME_LIMIT),
            description,
            owner: user.id.clone(),
            channel: channel.clone(),
            default_permissions: DEFAULT_PERMISSIONS,
        },
        expect: Reply::Done,
        conflict: None,
        undo: Some(Request::DeleteChannel { id: channel.clone() }),
    };
    let steps = vec![
        check(Request::GuildNonce { nonce }, Reply::Absent, Conflict::DuplicateNonce),
        write(
            Request::InsertChannel {
                id: channel,
                nonce: None,
                guild: id.clone(),
                name: "general".to_owned(),
                description: String::new(),
            },
        ),
        write(Request::InsertMember { guild: id.clone(), user: user.id.clone() }),
        last,
    ];
    assert(step_views(steps@) =~= create_guild_plan(
        user.id@,
        clipped(info.name@, NAME_LIMIT),
        clipped_if_given(text_view(info.description), DESCRIPTION_LIMIT),
        clipped(info.nonce@, NONCE_LIMIT),
        id@,
        channel@,
    ).steps);
    Ok(Plan { steps, receipt: Receipt::GuildCreated { id } })
}

/// Creates a guild with a default channel, each under a new id. The decision
/// is that of `create_guild_with` for the two ids.
pub fn create_guild(user: &User, info: &CreateGuild) -> (decision: Result<Plan, CascadeError>)
    ensures
        exists|id: Seq<char>, channel: Seq<char>|
            id.len() == ID_LENGTH && channel.len() == ID_LENGTH && decided(decision)
                == #[trigger] create_guild_decision(
                user.id@,
                user.email_verified,
                info.name@,
                text_view(info.description),
                info.nonce@,
                id,
                channel,
            ),
{
    let id = fresh_id();
    let channel = fresh_id();
    let ghost i = id@;
    let ghost c = channel@;
    let decision = create_guild_with(user, info, id, channel);
    assert(decided(decision) == create_guild_decision(
        user.id@,
        user.email_verified,
        info.name@,
        text_view(info.description),
        info.nonce@,
        i,
        c,
    ));
    decision
}

/// The cascade that creates a channel in a guild. The nonce must be new. The
/// channel document is written first, and then the guild lists it. Where the
/// second step fails, the channel exists and no guild lists it.
pub open spec fn create_channel_plan(
    guild: Seq<char>,
    nonce: Seq<char>,
    name: Seq<char>,
    description: Option<Seq<char>>,
    id: Seq<char>,
) -> PlanView {
    PlanView {
        steps: seq![
            check_step(Request::ChannelNonce { nonce }, Reply::Absent, Conflict::DuplicateNonce),
            write_step(
                Request::InsertChannel {
                    id,
                    nonce: Some(nonce),
                    guild,
                    name,
                    description: match description {
                        Some(d) => d,
                        None => Seq::empty(),
                    },
                },
            ),
            write_step(Request::ListChannel { guild, channel: id }),
        ],
        receipt: Receipt::ChannelCreated { guild, id },
    }
}

/// What `create_channel` decides, given the id for the channel. Of the nonce,
/// the name and the description the first characters are kept, up to the
/// limit of each.
pub open spec fn create_channel_decision(
    caps: Capabilities,
    guild: Seq<char>,
    nonce: Seq<char>,
    name: Seq<char>,
    description: Option<Seq<char>>,
    id: Seq<char>,
) -> Result<PlanView, CascadeError> {
    if !caps.access {
        Err(CascadeError::NotFound(Missing::Guild))
    } else if !caps.manage_channels {
        Err(CascadeError::PermissionDenied(Permission::ManageChannels))
    } else {
        Ok(
            create_channel_plan(
                guild,
                clipped(nonce, NONCE_LIMIT),
                clipped(name, NAME_LIMIT),
                clipped_if_given(description, DESCRIPTION_LIMIT),
                id,
            ),
        )
    }
}

/// Creates a channel under `id` in the guild.
pub fn create_channel_with(caps: &Capabilities, target: &Guild, info: &CreateChannel, id: String) -> (
    decision: Result<Plan, CascadeError>)
    ensures
        decided(decision) == create_channel_decision(
            *caps,
            target.id@,
            info.nonce@,
            info.name@,
            text_view(info.description),
            id@,
        ),
{
    if let Err(refusal) = caps.permit(None) {
        return Err(refusal);
    }
    if let Err(refusal) = caps.permit(Some(Permission::ManageChannels)) {
        return Err(refusal);
    }
    let description = match &info.description {
        Some(d) => clip(d, DESCRIPTION_LIMIT),
        None => String::new(),
    };
    let nonce = clip(&info.nonce, NONCE_LIMIT);
    let steps = vec![
        check(
            Request::ChannelNonce { nonce: nonce.clone() },
            Reply::Absent,
            Conflict::DuplicateNonce,
        ),
        write(
            Request::InsertChannel {
                id: id.clone(),
                nonce: Some(nonce),
                guild: target.id.clone(),
                name: clip(&info.name, NAME_LIMIT),
                description,
            },
        ),
        write(Request::ListChannel { guild: target.id.clone(), channel: id.clone() }),
    ];
    assert(step_views(steps@) =~= create_channel_plan(
        target.id@,
        clipped(info.nonce@, NONCE_LIMIT),
        clipped(info.name@, NAME_LIMIT),
        clipped_if_given(text_view(info.description), DESCRIPTION_LIMIT),
        id@,
    ).steps);
    Ok(Plan { steps, receipt: Receipt::ChannelCreated { guild: target.id.clone(), id } })
}

/// Creates a channel in the guild, under a new id. The decision is that of
/// `create_channel_with` for that id.
pub fn create_channel(caps: &Capabilities, target: &Guild, info: &CreateChannel) -> (decision:
    Result<Plan, CascadeError>)
    ensures
        exists|id: Seq<char>|
            id.len() == ID_LENGTH && decided(decision) == #[trigger] create_channel_decision(
                *caps,
                target.id@,
                info.nonce@,
                info.name@,
                text_view(info.description),
                id,
            ),
{
    let id = fresh_id();
    let ghost i = id@;
    let decision = create_channel_with(caps, target, info, id);
    assert(decided(decision) == create_channel_decision(
        *caps,
        target.id@,
        info.nonce@,
        info.name@,
        text_view(info.description),
        i,
    ));
    decision
}

/// The reason of a ban that was given none.
pub open spec fn no_reason() -> Seq<char> {
    "No reason specified."@
}

/// The cascade that bans a member: the ban is recorded in the guild first, and
/// the member record is deleted after it. Where the second write fails, the
/// user is banned and still a member, and the failure is reported as partial.
pub open spec fn ban_plan(guild: Seq<char>, other: Seq<char>, reason: Option<Seq<char>>) -> PlanView {
    PlanView {
        steps: seq![
            check_step(Request::Member { guild, user: other }, Reply::Found, Conflict::NotMember),
            write_step(
                Request::PushBan {
                    guild,
                    user: other,
                    reason: match reason {
                        Some(r) => r,
                        None => no_reason(),
                    },
                },
            ),
            write_step(Request::DeleteMember { guild, user: other }),
        ],
        receipt: Receipt::MemberLeft { guild, user: other, banned: true },
    }
}

/// What `ban_member` decides. Of a reason that was given the first
/// characters are kept, up to the limit.
pub open spec fn ban_decision(
    user: Seq<char>,
    caps: Capabilities,
    guild: Seq<char>,
    other: Seq<char>,
    reason: Option<Seq<char>>,
) -> Result<PlanView, CascadeError> {
    if !caps.access {
        Err(CascadeError::NotFound(Missing::Guild))
    } else if user == other {
        Err(CascadeError::Conflict(Conflict::SelfTarget))
    } else if !caps.ban_members {
        Err(CascadeError::PermissionDenied(Permission::BanMembers))
    } else {
        Ok(ban_plan(guild, other, clipped_if_given(reason, REASON_LIMIT)))
    }
}

/// Bans `other`, a member of the guild, from it.
pub fn ban_member(
    user: &User,
    caps: &Capabilities,
    target: &Guild,
    other: &String,
    options: &BanOptions,
) -> (decision: Result<Plan, CascadeError>)
    ensures
        decided(decision) == ban_decision(
            user.id@,
            *caps,
            target.id@,
            other@,
            text_view(options.reason),
        ),
{
    if let Err(refusal) = caps.permit(None) {
        return Err(refusal);
    }
    if user.id == *other {
        return Err(CascadeError::Conflict(Conflict::SelfTarget));
    }
    if let Err(refusal) = caps.permit(Some(Permission::BanMembers)) {
        return Err(refusal);
    }
    let reason = match &options.reason {
        Some(r) => clip(r, REASON_LIMIT),
        None => "No reason specified.".to_owned(),
    };
    let steps = vec![
        check(
            Request::Member { guild: target.id.clone(), user: other.clone() },
            Reply::Found,
            Conflict::NotMember,
        ),
        write(Request::PushBan { guild: target.id.clone(), user: other.clone(), reason }),
        write(Request::DeleteMember { guild: target.id.clone(), user: other.clone() }),
    ];
    assert(step_views(steps@) =~= ban_plan(
        target.id@,
        other@,
        clipped_if_given(text_view(options.reason), REASON_LIMIT),
    ).steps);
    Ok(
        Plan {
            steps,
            receipt: Receipt::MemberLeft {
                guild: target.id.clone(),
                user: other.clone(),
                banned: true,
            },
        },
    )
}

/// The cascade by which a user joins a guild: the user must not be a member
/// yet, and then the member record is inserted. Two joins of one user may both
/// find no record; the store then refuses the second insert, which is
/// reported as the conflict that the check would have found.
pub open spec fn join_plan(guild: Seq<char>, channel: Seq<char>, user: Seq<char>) -> PlanView {
    PlanView {
        steps: seq![
            check_step(Request::Member { guild, user }, Reply::Absent, Conflict::AlreadyMember),
            insert_step(Request::InsertMember { guild, user }, Conflict::AlreadyMember),
        ],
        receipt: Receipt::Joined { guild, channel, user },
    }
}

/// The guild and the channel of a resolved invite.
pub open spec fn resolved_view(invite: Option<ResolvedInvite>) -> Option<(Seq<char>, Seq<char>)> {
    match invite {
        Some(r) => Some((r.guild_id@, r.invite.channel@)),
        None => None,
    }
}

/// What `use_invite` decides, given the guild and the channel that the code
/// leads to.
pub open spec fn join_decision(user: Seq<char>, invite: Option<(Seq<char>, Seq<char>)>) -> Result<
    PlanView,
    CascadeError,
> {
    match invite {
        None => Err(CascadeError::NotFound(Missing::Invite)),
        Some((guild, channel)) => Ok(join_plan(guild, channel, user)),
    }
}

/// Joins the guild to which an invite leads. `invite` is what the code was
/// resolved to for this user, `None` where it leads nowhere.
pub fn use_invite(user: &User, invite: &Option<ResolvedInvite>) -> (decision: Result<
    Plan,
    CascadeError,
>)
    ensures
        decided(decision) == join_decision(user.id@, resolved_view(*invite)),
{
    match invite {
        None => Err(CascadeError::NotFound(Missing::Invite)),
        Some(resolved) => {
            let steps = vec![
                check(
                    Request::Member { guild: resolved.guild_id.clone(), user: user.id.clone() },
                    Reply::Absent,
                    Conflict::AlreadyMember,
                ),
                insert(
                    Request::InsertMember {
                        guild: resolved.guild_id.clone(),
                        user: user.id.clone(),
                    },
                    Conflict::AlreadyMember,
                ),
            ];
            assert(step_views(steps@) =~= join_plan(
                resolved.guild_id@,
                resolved.invite.channel@,
                user.id@,
            ).steps);
            Ok(
                Plan {
                    steps,
                    receipt: Receipt::Joined {
                        guild: resolved.guild_id.clone(),
                        channel: resolved.invite.channel.clone(),
                        user: user.id.clone(),
                    },
                },
            )
        },
    }
}

/// The cascade that kicks a member: the user must be a member, and then the
/// member record is deleted.
pub open spec fn kick_plan(guild: Seq<char>, other: Seq<char>) -> PlanView {
    PlanView {
        steps: seq![
            check_step(Request::Member { guild, user: other }, Reply::Found, Conflict::NotMember),
            write_step(Request::DeleteMember { guild, user: other }),
        ],
        receipt: Receipt::MemberLeft { guild, user: other, banned: false },
    }
}

/// What `kick_member` decides.
pub open spec fn kick_decision(
    user: Seq<char>,
    caps: Capabilities,
    guild: Seq<char>,
    other: Seq<char>,
) -> Result<PlanView, CascadeError> {
    if !caps.access {
        Err(CascadeError::NotFound(Missing::Guild))
    } else if user == other {
        Err(CascadeError::Conflict(Conflict::SelfTarget))
    } else if !caps.kick_members {
        Err(CascadeError::PermissionDenied(Permission::KickMembers))
    } else {
        Ok(kick_plan(guild, other))
    }
}

/// Removes `other`, a member of the guild, from it.
pub fn kick_member(user: &User, caps: &Capabilities, target: &Guild, other: &String) -> (decision:
    Result<Plan, CascadeError>)
    ensures
        decided(decision) == kick_decision(user.id@, *caps, target.id@, other@),
{
    if let Err(refusal) = caps.permit(None) {
        return Err(refusal);
    }
    if user.id == *other {
        return Err(CascadeError::Conflict(Conflict::SelfTarget));
    }
    if let Err(refusal) = caps.permit(Some(Permission::KickMembers)) {
        return Err(refusal);
    }
    let steps = vec![
        check(
            Request::Member { guild: target.id.clone(), user: other.clone() },
            Reply::Found,
            Conflict::NotMember,
        ),
        write(Request::DeleteMember { guild: target.id.clone(), user: other.clone() }),
    ];
    assert(step_views(steps@) =~= kick_plan(target.id@, other@).steps);
    Ok(
        Plan {
            steps,
            receipt: Receipt::MemberLeft {
                guild: target.id.clone(),
                user: other.clone(),
                banned: false,
            },
        },
    )
}

/// Whether one of the bans is a ban of `user`.
pub open spec fn banned(bans: Seq<Ban>, user: Seq<char>) -> bool {
    exists|i: int| 0 <= i < bans.len() && (#[trigger] bans[i]).id@ == user
}

/// The one step that lifts a ban.
pub open spec fn unban_plan(guild: Seq<char>, other: Seq<char>) -> PlanView {
    PlanView {
        steps: seq![write_step(Request::PullBan { guild, user: other })],
        receipt: Receipt::Unbanned { guild, user: other },
    }
}

/// What `unban_member` decides, given whether the guild holds a ban of the
/// user.
pub open spec fn unban_decision(
    user: Seq<char>,
    caps: Capabilities,
    guild: Seq<char>,
    other: Seq<char>,
    is_banned: bool,
) -> Result<PlanView, CascadeError> {
    if !caps.access {
        Err(CascadeError::NotFound(Missing::Guild))
    } else if user == other {
        Err(CascadeError::Conflict(Conflict::SelfTarget))
    } else if !caps.ban_members {
        Err(CascadeError::PermissionDenied(Permission::BanMembers))
    } else if !is_banned {
        Err(CascadeError::Conflict(Conflict::NotBanned))
    } else {
        Ok(unban_plan(guild, other))
    }
}

/// Whether the guild holds a ban of `user`.
pub fn is_banned(target: &Guild, user: &String) -> (found: bool)
    ensures
        found == banned(target.bans@, user@),
{
    let mut i: usize = 0;
    while i < target.bans.len()
        invariant
            i <= target.bans.len(),
            forall|j: int| 0 <= j < i ==> target.bans[j].id@ != user@,
        decreases target.bans.len() - i,
    {
        if target.bans[i].id == *user {
            return true;
        }
        i += 1;
    }
    false
}

/// Lifts the ban of `other` from the guild. A user who is not banned cannot
/// be unbanned.
pub fn unban_member(user: &User, caps: &Capabilities, target: &Guild, other: &String) -> (decision:
    Result<Plan, CascadeError>)
    ensures
        decided(decision) == unban_decision(
            user.id@,
            *caps,
            target.id@,
            other@,
            banned(target.bans@, other@),
        ),
{
    if let Err(refusal) = caps.permit(None) {
        return Err(refusal);
    }
    if user.id == *other {
        return Err(CascadeError::Conflict(Conflict::SelfTarget));
    }
    if let Err(refusal) = caps.permit(Some(Permission::BanMembers)) {
        return Err(refusal);
    }
    if !is_banned(target, other) {
        return Err(CascadeError::Conflict(Conflict::NotBanned));
    }
    let steps = vec![write(Request::PullBan { guild: target.id.clone(), user: other.clone() })];
    assert(step_views(steps@) =~= unban_plan(target.id@, other@).steps);
    Ok(
        Plan {
            steps,
            receipt: Receipt::Unbanned { guild: target.id.clone(), user: other.clone() },
        },
    )
}

/// The one step that deletes an invite from the guild that holds it.
pub open spec fn remove_invite_plan(guild: Seq<char>, code: Seq<char>) -> PlanView {
    PlanView {
        steps: seq![write_step(Request::PullInvite { guild, code })],
        receipt: Receipt::InviteDeleted { guild, code },
    }
}

/// The guild and the creator of a resolved invite.
pub open spec fn holder_view(invite: Option<ResolvedInvite>) -> Option<(Seq<char>, Seq<char>)> {
    match invite {
        Some(r) => Some((r.guild_id@, r.invite.creator@)),
        None => None,
    }
}

/// What `remove_invite` decides, given the guild that holds the invite and
/// the invite's creator.
pub open spec fn remove_invite_decision(
    user: Seq<char>,
    caps: Capabilities,
    code: Seq<char>,
    invite: Option<(Seq<char>, Seq<char>)>,
) -> Result<PlanView, CascadeError> {
    if !caps.access {
        Err(CascadeError::NotFound(Missing::Guild))
    } else {
        match invite {
            None => Err(CascadeError::NotFound(Missing::Invite)),
            Some((guild, creator)) => if creator != user && !caps.manage_server {
                Err(CascadeError::PermissionDenied(Permission::ManageServer))
            } else {
                Ok(remove_invite_plan(guild, code))
            },
        }
    }
}

/// Deletes an invite, for its creator or for one who manages the server.
/// `invite` is what the code was resolved to, `None` where it leads nowhere.
pub fn remove_invite(
    user: &User,
    caps: &Capabilities,
    code: &String,
    invite: &Option<ResolvedInvite>,
) -> (decision: Result<Plan, CascadeError>)
    ensures
        decided(decision) == remove_invite_decision(user.id@, *caps, code@, holder_view(*invite)),
{
    if let Err(refusal) = caps.permit(None) {
        return Err(refusal);
    }
    match invite {
        None => Err(CascadeError::NotFound(Missing::Invite)),
        Some(resolved) => {
            if resolved.invite.creator != user.id && !caps.manage_server {
                return Err(CascadeError::PermissionDenied(Permission::ManageServer));
            }
            let steps = vec![
                write(Request::PullInvite { guild: resolved.guild_id.clone(), code: code.clone() }),
            ];
            assert(step_views(steps@) =~= remove_invite_plan(resolved.guild_id@, code@).steps);
            Ok(
                Plan {
                    steps,
                    receipt: Receipt::InviteDeleted {
                        guild: resolved.guild_id.clone(),
                        code: code.clone(),
                    },
                },
            )
        },
    }
}

/// The one step that creates an invite. A code that is taken is refused by
/// the store, and the invite is not created.
pub open spec fn create_invite_plan(
    guild: Seq<char>,
    code: Seq<char>,
    creator: Seq<char>,
    channel: Seq<char>,
) -> PlanView {
    PlanView {
        steps: seq![
            insert_step(
                Request::PushInvite { guild, code, creator, channel },
                Conflict::InviteCodeTaken,
            ),
        ],
        receipt: Receipt::InviteCreated { code },
    }
}

/// What `create_invite` decides.
pub open spec fn create_invite_decision(
    user: Seq<char>,
    caps: Capabilities,
    guild: Seq<char>,
    channel: Seq<char>,
    code: Seq<char>,
) -> Result<PlanView, CascadeError> {
    if !caps.access {
        Err(CascadeError::NotFound(Missing::Guild))
    } else if !caps.create_invite {
        Err(CascadeError::PermissionDenied(Permission::CreateInvite))
    } else {
        Ok(create_invite_plan(guild, code, user, channel))
    }
}

/// Creates an invite to a channel of the guild under `code`, a token that the
/// caller has drawn at random.
pub fn create_invite(
    user: &User,
    caps: &Capabilities,
    target: &Guild,
    channel: &Channel,
    _options: &InviteOptions,
    code: String,
) -> (decision: Result<Plan, CascadeError>)
    ensures
        decided(decision) == create_invite_decision(
            user.id@,
            *caps,
            target.id@,
            channel.id@,
            code@,
        ),
{
    if let Err(refusal) = caps.permit(None) {
        return Err(refusal);
    }
    if let Err(refusal) = caps.permit(Some(Permission::CreateInvite)) {
        return Err(refusal);
    }
    let steps = vec![
        insert(
            Request::PushInvite {
                guild: target.id.clone(),
                code: code.clone(),
                creator: user.id.clone(),
                channel: channel.id.clone(),
            },
            Conflict::InviteCodeTaken,
        ),
    ];
    assert(step_views(steps@) =~= create_invite_plan(
        target.id@,
        code@,
        user.id@,
        channel.id@,
    ).steps);
    Ok(Plan { steps, receipt: Receipt::InviteCreated { code } })
}

/// Shows an invite before it is used. `invite` is what the code was resolved
/// to, and `fetched` what the read of the invite's channel gave; it is looked
/// at only where the code leads somewhere. Whoever holds the code may look:
/// no capability is asked for.
pub fn fetch_invite(invite: &Option<ResolvedInvite>, fetched: &Result<Option<Channel>, FetchError>) -> (
    preview: Result<InvitePreview, CascadeError>)
    ensures
        invite is None ==> preview is Err && preview->Err_0 == CascadeError::NotFound(
            Missing::Invite,
        ),
        invite is Some && fetched is Err ==> preview is Err && preview->Err_0
            == CascadeError::StoreUnavailable(StepName::FetchChannel),
        invite is Some && fetched == Ok::<Option<Channel>, FetchError>(None) ==> preview is Err
            && preview->Err_0 == CascadeError::NotFound(Missing::Channel),
        invite matches Some(resolved) ==> (fetched matches Ok(Some(channel)) ==> preview matches Ok(
            shown,
        ) && shown.guild_id@ == resolved.guild_id@ && shown.guild_name@ == resolved.guild_name@
            && shown.channel_id@ == channel.id@ && text_view(shown.channel_name) == text_view(
            channel.name,
        )),
{
    match invite {
        None => Err(CascadeError::NotFound(Missing::Invite)),
        Some(resolved) => match fetched {
            Err(_) => Err(CascadeError::StoreUnavailable(StepName::FetchChannel)),
            Ok(None) => Err(CascadeError::NotFound(Missing::Channel)),
            Ok(Some(channel)) => Ok(
                InvitePreview {
                    guild_id: resolved.guild_id.clone(),
                    guild_name: resolved.guild_name.clone(),
                    channel_id: channel.id.clone(),
                    channel_name: copy_text(&channel.name),
                },
            ),
        },
    }
}

/// The invites of the guild, for one who manages the server.
pub fn fetch_invites<'a>(caps: &Capabilities, target: &'a Guild) -> (invites: Result<
    &'a Vec<Invite>,
    CascadeError,
>)
    ensures
        !caps.access ==> invites is Err && invites->Err_0 == CascadeError::NotFound(
            Missing::Guild,
        ),
        caps.access && !caps.manage_server ==> invites is Err && invites->Err_0
            == CascadeError::PermissionDenied(Permission::ManageServer),
        caps.access && caps.manage_server ==> invites is Ok && *invites->Ok_0 == target.invites,
{
    if !caps.access {
        Err(CascadeError::NotFound(Missing::Guild))
    } else if !caps.manage_server {
        Err(CascadeError::PermissionDenied(Permission::ManageServer))
    } else {
        Ok(&target.invites)
    }
}

/// What stands for a member in contracts: the user's id and the nickname.
pub open spec fn member_view(member: Member) -> (Seq<char>, Option<Seq<char>>) {
    (member.user@, text_view(member.nickname))
}

/// The members among the first `n` records that could be read, in their order.
pub open spec fn readable_members(records: Seq<Option<Member>>, n: int) -> Seq<
    (Seq<char>, Option<Seq<char>>),
>
    decreases n,
{
    if n <= 0 {
        Seq::empty()
    } else {
        match records[n - 1] {
            Some(m) => readable_members(records, n - 1).push(member_view(m)),
            None => readable_members(records, n - 1),
        }
    }
}

/// The views of a list of members.
pub open spec fn member_views(members: Seq<Member>) -> Seq<(Seq<char>, Option<Seq<char>>)> {
    Seq::new(members.len(), |i: int| member_view(members[i]))
}

/// The members of the guild. `listed` is what the store gave for the guild:
/// `None` where it did not answer, else one record for each member, `None`
/// for a record that could not be read. Such a record is left out.
pub fn fetch_members(caps: &Capabilities, listed: &Option<Vec<Option<Member>>>) -> (members: Result<
    Vec<Member>,
    CascadeError,
>)
    ensures
        !caps.access ==> members is Err && members->Err_0 == CascadeError::NotFound(
            Missing::Guild,
        ),
        caps.access && listed is None ==> members is Err && members->Err_0
            == CascadeError::StoreUnavailable(StepName::ListMembers),
        caps.access && listed is Some ==> members is Ok && member_views(members->Ok_0@)
            == readable_members(listed->Some_0@, listed->Some_0.len() as int),
{
    if let Err(refusal) = caps.permit(None) {
        return Err(refusal);
    }
    match listed {
        None => Err(CascadeError::StoreUnavailable(StepName::ListMembers)),
        Some(records) => {
            let mut members: Vec<Member> = Vec::new();
            let mut i: usize = 0;
            while i < records.len()
                invariant
                    i <= records.len(),
                    member_views(members@) == readable_members(records@, i as int),
                decreases records.len() - i,
            {
                let ghost before = members@;
                match &records[i] {
                    Some(m) => {
                        members.push(
                            Member { user: m.user.clone(), nickname: copy_text(&m.nickname) },
                        );
                        assert(member_views(members@) =~= member_views(before).push(
                            member_view(*m),
                        ));
                    },
                    None => {},
                }
                i += 1;
            }
            Ok(members)
        },
    }
}

/// One member of the guild. `found` is what the store gave for the guild and
/// the user: `None` where it did not answer, else the member record, if there
/// is one.
pub fn fetch_member(caps: &Capabilities, found: Option<Option<Member>>) -> (member: Result<
    Member,
    CascadeError,
>)
    ensures
        !caps.access ==> member is Err && member->Err_0 == CascadeError::NotFound(Missing::Guild),
        caps.access && found is None ==> member is Err && member->Err_0
            == CascadeError::StoreUnavailable(StepName::Member),
        caps.access && found == Some(None::<Member>) ==> member is Err && member->Err_0
            == CascadeError::NotFound(Missing::Member),
        caps.access ==> (found matches Some(Some(m)) ==> member is Ok && member->Ok_0 == m),
{
    if let Err(refusal) = caps.permit(None) {
        return Err(refusal);
    }
    match found {
        None => Err(CascadeError::StoreUnavailable(StepName::Member)),
        Some(None) => Err(CascadeError::NotFound(Missing::Member)),
        Some(Some(m)) => Ok(m),
    }
}

} // verus!
