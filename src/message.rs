use vstd::prelude::*;
use crate::identity::{UserIdentity, UserView};

verus! {

/// How a message refers to another one. Only a true reply is followed.
#[derive(Clone, Copy, PartialEq, Eq, Structural, Debug)]
pub enum ReplyKind {
    Default,
    Forwarded,
    Other,
}

/// The reference a message carries to the message it answers.
#[derive(Clone, Copy, PartialEq, Eq, Structural, Debug)]
pub struct ReplyLink {
    pub channel_id: u64,
    pub message_id: Option<u64>,
    pub kind: ReplyKind,
}

/// A chat message, with the referenced message when the platform delivered
/// it inline.
pub struct Message {
    pub id: u64,
    pub channel_id: u64,
    pub author: UserIdentity,
    pub content: String,
    pub mentions: Vec<UserIdentity>,
    pub reply: Option<ReplyLink>,
    pub embedded: Option<Box<Message>>,
}

/// The mathematical model of a [`Message`].
pub struct MessageView {
    pub id: u64,
    pub channel_id: u64,
    pub author: UserView,
    pub content: Seq<char>,
    pub mentions: Seq<UserView>,
    pub reply: Option<ReplyLink>,
    pub embedded: Option<Box<MessageView>>,
}

pub open spec fn users_view(v: Seq<UserIdentity>) -> Seq<UserView> {
    v.map_values(|u: UserIdentity| u@)
}

pub open spec fn message_view(m: Message) -> MessageView
    decreases m,
{
    MessageView {
        id: m.id,
        channel_id: m.channel_id,
        author: m.author@,
        content: m.content@,
        mentions: users_view(m.mentions@),
        reply: m.reply,
        embedded: match m.embedded {
            Some(b) => Some(Box::new(message_view(*b))),
            None => None,
        },
    }
}

impl View for Message {
    type V = MessageView;

    open spec fn view(&self) -> MessageView {
        message_view(*self)
    }
}

impl Message {
    /// Every user named in the message has a platform id.
    pub open spec fn wf(&self) -> bool {
        &&& self.author.wf()
        &&& forall|i: int| 0 <= i < self.mentions@.len() ==> (#[trigger] self.mentions@[i]).wf()
    }
}

pub fn copy_users(v: &Vec<UserIdentity>) -> (r: Vec<UserIdentity>)
    ensures
        users_view(r@) == users_view(v@),
{
    let mut r: Vec<UserIdentity> = Vec::new();
    let mut i: usize = 0;
    while i < v.len()
        invariant
            i <= v.len(),
            r@.len() == i,
            forall|j: int| 0 <= j < i ==> (#[trigger] r@[j])@ == v@[j]@,
        decreases v.len() - i,
    {
        r.push(v[i].duplicate());
        i = i + 1;
    }
    assert(users_view(r@) =~= users_view(v@));
    r
}

impl Message {
    /// A deep copy that has the same model.
    pub fn duplicate(&self) -> (r: Message)
        ensures
            r@ == self@,
        decreases self,
    {
        let embedded = match &self.embedded {
            Some(b) => {
                let inner: &Message = &**b;
                Some(Box::new(inner.duplicate()))
            },
            None => None,
        };
        Message {
            id: self.id,
            channel_id: self.channel_id,
            author: self.author.duplicate(),
            content: self.content.clone(),
            mentions: copy_users(&self.mentions),
            reply: self.reply,
            embedded,
        }
    }
}

} // verus!
