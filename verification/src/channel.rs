//! Channel objects and the payload that is shown of each kind of channel.

use vstd::prelude::*;

verus! {

/// Tag of a direct-message channel.
pub const DIRECT: u8 = 0;

/// Tag of a group channel.
pub const GROUP: u8 = 1;

/// Tag of a channel that belongs to a guild.
pub const GUILD_CHANNEL: u8 = 2;

/// The most recent message of a direct or group channel.
#[derive(Debug, Clone, PartialEq, Eq)]
pub struct LastMessage {
    /// Message id.
    pub id: String,
    /// Id of the message's author.
    pub user_id: String,
    /// Truncated content, with the author's name in front.
    pub short_content: String,
}

/// What a `LastMessage` stands for in contracts.
pub struct LastMessageView {
    pub id: Seq<char>,
    pub user_id: Seq<char>,
    pub short_content: Seq<char>,
}

impl View for LastMessage {
    type V = LastMessageView;

    open spec fn view(&self) -> LastMessageView {
        LastMessageView { id: self.id@, user_id: self.user_id@, short_content: self.short_content@ }
    }
}

impl LastMessage {
    /// An independent copy.
    pub fn duplicate(&self) -> (copy: LastMessage)
        ensures
            copy@ == self@,
    {
        LastMessage {
            id: self.id.clone(),
            user_id: self.user_id.clone(),
            short_content: self.short_content.clone(),
        }
    }
}

/// A channel document. `channel_type` says which of the optional fields are
/// meaningful: `active`, `last_message` and `recipients` for a direct channel;
/// `last_message`, `recipients`, `owner`, `name` and `description` for a
/// group; `guild`, `name` and `description` for a guild channel.
#[derive(Debug, Clone, PartialEq, Eq)]
pub struct Channel {
    pub id: String,
    pub channel_type: u8,
    pub active: Option<bool>,
    pub last_message: Option<LastMessage>,
    pub recipients: Option<Vec<String>>,
    pub owner: Option<String>,
    pub guild: Option<String>,
    pub name: Option<String>,
    pub description: Option<String>,
}

/// What a `Channel` stands for in contracts.
pub struct ChannelView {
    pub id: Seq<char>,
    pub channel_type: u8,
    pub active: Option<bool>,
    pub last_message: Option<LastMessageView>,
    pub recipients: Option<Seq<Seq<char>>>,
    pub owner: Option<Seq<char>>,
    pub guild: Option<Seq<char>>,
    pub name: Option<Seq<char>>,
    pub description: Option<Seq<char>>,
}

/// The view of an optional message.
pub open spec fn message_view(m: Option<LastMessage>) -> Option<LastMessageView> {
    match m {
        Some(m) => Some(m@),
        None => None,
    }
}

impl View for Channel {
    type V = ChannelView;

    open spec fn view(&self) -> ChannelView {
        ChannelView {
            id: self.id@,
            channel_type: self.channel_type,
            active: self.active,
            last_message: message_view(self.last_message),
            recipients: self.recipients.deep_view(),
            owner: self.owner.deep_view(),
            guild: self.guild.deep_view(),
            name: self.name.deep_view(),
            description: self.description.deep_view(),
        }
    }
}

/// The three kinds of channel.
#[derive(Debug, Clone, Copy, PartialEq, Eq, Structural)]
pub enum ChannelKind {
    Direct,
    Group,
    Guild,
}

/// The kind that a tag stands for, if it stands for one.
pub open spec fn kind_of_tag(tag: u8) -> Option<ChannelKind> {
    if tag == DIRECT {
        Some(ChannelKind::Direct)
    } else if tag == GROUP {
        Some(ChannelKind::Group)
    } else if tag == GUILD_CHANNEL {
        Some(ChannelKind::Guild)
    } else {
        None
    }
}

/// Whether the channel has the fields of its kind, and no others: a direct
/// channel its `active` flag and two recipients; a group its recipients,
/// owner, name and description; a guild channel its guild, name and
/// description. The last message of a direct channel or a group may be
/// absent. A channel whose tag stands for no kind is never consistent.
pub open spec fn consistent(c: ChannelView) -> bool {
    match kind_of_tag(c.channel_type) {
        Some(ChannelKind::Direct) => {
            &&& c.active is Some
            &&& c.recipients is Some
            &&& c.recipients->0.len() == 2
            &&& c.owner is None
            &&& c.guild is None
            &&& c.name is None
            &&& c.description is None
        },
        Some(ChannelKind::Group) => {
            &&& c.active is None
            &&& c.recipients is Some
            &&& c.owner is Some
            &&& c.guild is None
            &&& c.name is Some
            &&& c.description is Some
        },
        Some(ChannelKind::Guild) => {
            &&& c.active is None
            &&& c.last_message is None
            &&& c.recipients is None
            &&& c.owner is None
            &&& c.guild is Some
            &&& c.name is Some
            &&& c.description is Some
        },
        None => false,
    }
}

/// What is shown of a channel: for each kind the fields that belong to it, and
/// no others.
#[derive(Debug, Clone, PartialEq, Eq)]
pub enum ChannelPayload {
    Direct { id: String, last_message: Option<LastMessage>, recipients: Option<Vec<String>> },
    Group {
        id: String,
        last_message: Option<LastMessage>,
        recipients: Option<Vec<String>>,
        name: Option<String>,
        owner: Option<String>,
        description: Option<String>,
    },
    Guild { id: String, guild: Option<String>, name: Option<String>, description: Option<String> },
}

/// What a `ChannelPayload` stands for in contracts.
pub enum ChannelPayloadView {
    Direct {
        id: Seq<char>,
        last_message: Option<LastMessageView>,
        recipients: Option<Seq<Seq<char>>>,
    },
    Group {
        id: Seq<char>,
        last_message: Option<LastMessageView>,
        recipients: Option<Seq<Seq<char>>>,
        name: Option<Seq<char>>,
        owner: Option<Seq<char>>,
        description: Option<Seq<char>>,
    },
    Guild {
        id: Seq<char>,
        guild: Option<Seq<char>>,
        name: Option<Seq<char>>,
        description: Option<Seq<char>>,
    },
}

impl View for ChannelPayload {
    type V = ChannelPayloadView;

    open spec fn view(&self) -> ChannelPayloadView {
        match *self {
            ChannelPayload::Direct { id, last_message, recipients } => ChannelPayloadView::Direct {
                id: id@,
                last_message: message_view(last_message),
                recipients: recipients.deep_view(),
            },
            ChannelPayload::Group {
                id,
                last_message,
                recipients,
                name,
                owner,
                description,
            } => ChannelPayloadView::Group {
                id: id@,
                last_message: message_view(last_message),
                recipients: recipients.deep_view(),
                name: name.deep_view(),
                owner: owner.deep_view(),
                description: description.deep_view(),
            },
            ChannelPayload::Guild { id, guild, name, description } => ChannelPayloadView::Guild {
                id: id@,
                guild: guild.deep_view(),
                name: name.deep_view(),
                description: description.deep_view(),
            },
        }
    }
}

/// The payload of a channel whose tag stands for a kind.
pub open spec fn payload_of(c: ChannelView) -> ChannelPayloadView
    recommends
        c.channel_type <= GUILD_CHANNEL,
{
    if c.channel_type == DIRECT {
        ChannelPayloadView::Direct {
            id: c.id,
            last_message: c.last_message,
            recipients: c.recipients,
        }
    } else if c.channel_type == GROUP {
        ChannelPayloadView::Group {
            id: c.id,
            last_message: c.last_message,
            recipients: c.recipients,
            name: c.name,
            owner: c.owner,
            description: c.description,
        }
    } else {
        ChannelPayloadView::Guild {
            id: c.id,
            guild: c.guild,
            name: c.name,
            description: c.description,
        }
    }
}

/// An independent copy of an optional text.
pub fn copy_text(text: &Option<String>) -> (copy: Option<String>)
    ensures
        copy.deep_view() == text.deep_view(),
{
    match text {
        Some(t) => Some(t.clone()),
        None => None,
    }
}

/// An independent copy of a list of texts.
pub fn copy_texts(texts: &Vec<String>) -> (copy: Vec<String>)
    ensures
        copy.deep_view() == texts.deep_view(),
{
    let mut copy: Vec<String> = Vec::new();
    let mut i: usize = 0;
    while i < texts.len()
        invariant
            i <= texts.len(),
            copy.len() == i,
            forall|j: int| 0 <= j < i ==> copy[j]@ == texts[j]@,
        decreases texts.len() - i,
    {
        copy.push(texts[i].clone());
        i += 1;
    }
    assert(copy.deep_view() =~= texts.deep_view());
    copy
}

fn copy_recipients(list: &Option<Vec<String>>) -> (copy: Option<Vec<String>>)
    ensures
        copy.deep_view() == list.deep_view(),
{
    match list {
        Some(l) => Some(copy_texts(l)),
        None => None,
    }
}

fn copy_message(message: &Option<LastMessage>) -> (copy: Option<LastMessage>)
    ensures
        message_view(copy) == message_view(*message),
{
    match message {
        Some(m) => Some(m.duplicate()),
        None => None,
    }
}

impl Channel {
    /// An independent copy: no part of it is shared with `self`.
    pub fn duplicate(&self) -> (copy: Channel)
        ensures
            copy@ == self@,
    {
        Channel {
            id: self.id.clone(),
            channel_type: self.channel_type,
            active: self.active,
            last_message: copy_message(&self.last_message),
            recipients: copy_recipients(&self.recipients),
            owner: copy_text(&self.owner),
            guild: copy_text(&self.guild),
            name: copy_text(&self.name),
            description: copy_text(&self.description),
        }
    }

    /// The kind of this channel, or `None` where the tag stands for none.
    pub fn kind(&self) -> (kind: Option<ChannelKind>)
        ensures
            kind == kind_of_tag(self.channel_type),
    {
        if self.channel_type == DIRECT {
            Some(ChannelKind::Direct)
        } else if self.channel_type == GROUP {
            Some(ChannelKind::Group)
        } else if self.channel_type == GUILD_CHANNEL {
            Some(ChannelKind::Guild)
        } else {
            None
        }
    }

    /// Whether this channel has the fields of its kind, and no others.
    pub fn is_consistent(&self) -> (yes: bool)
        ensures
            yes == consistent(self@),
    {
        match self.kind() {
            Some(ChannelKind::Direct) => {
                let two = match &self.recipients {
                    Some(r) => r.len() == 2,
                    None => false,
                };
                assert(self.recipients is Some ==> self.recipients.deep_view()->0.len()
                    == self.recipients->0.len());
                two && self.active.is_some() && self.owner.is_none() && self.guild.is_none()
                    && self.name.is_none() && self.description.is_none()
            },
            Some(ChannelKind::Group) => {
                self.active.is_none() && self.recipients.is_some() && self.owner.is_some()
                    && self.guild.is_none() && self.name.is_some() && self.description.is_some()
            },
            Some(ChannelKind::Guild) => {
                self.active.is_none() && self.last_message.is_none() && self.recipients.is_none()
                    && self.owner.is_none() && self.guild.is_some() && self.name.is_some()
                    && self.description.is_some()
            },
            None => false,
        }
    }

    /// What is shown of this channel: the fields of its kind and no others.
    /// A channel whose tag stands for no kind has no payload.
    pub fn serialise(self) -> (payload: ChannelPayload)
        requires
            self.channel_type <= GUILD_CHANNEL,
        ensures
            payload@ == payload_of(self@),
    {
        if self.channel_type == DIRECT {
            ChannelPayload::Direct {
                id: self.id,
                last_message: self.last_message,
                recipients: self.recipients,
            }
        } else if self.channel_type == GROUP {
            ChannelPayload::Group {
                id: self.id,
                last_message: self.last_message,
                recipients: self.recipients,
                name: self.name,
                owner: self.owner,
                description: self.description,
            }
        } else {
            ChannelPayload::Guild {
                id: self.id,
                guild: self.guild,
                name: self.name,
                description: self.description,
            }
        }
    }
}

} // verus!
