use vstd::prelude::*;
use crate::identity::{UserIdentity, UserView, handle_of};
use crate::mention::{attributed, format_message_contents, formatted, message_to_string, says_marker};
use crate::message::{Message, MessageView};
use crate::walk::views;

verus! {

/// Who speaks a dialogue turn, from the language model's side.
#[derive(Clone, Copy, PartialEq, Eq, Structural, Debug)]
pub enum Role {
    User,
    Model,
}

/// One role-tagged unit of conversation text.
pub struct DialogueTurn {
    pub role: Role,
    pub text: String,
}

/// The model of a [`DialogueTurn`].
pub struct TurnView {
    pub role: Role,
    pub text: Seq<char>,
}

impl View for DialogueTurn {
    type V = TurnView;

    open spec fn view(&self) -> TurnView {
        TurnView { role: self.role, text: self.text@ }
    }
}

pub open spec fn turns_view(v: Seq<DialogueTurn>) -> Seq<TurnView> {
    v.map_values(|t: DialogueTurn| t@)
}

/// The turn for one chain message: the relay's own messages become model
/// turns of their formatted text; any other author's become user turns
/// attributed to the author.
pub open spec fn turn_for(m: MessageView, me: UserView) -> TurnView {
    if m.author.id == me.id {
        TurnView { role: Role::Model, text: formatted(m) }
    } else {
        TurnView { role: Role::User, text: attributed(m) }
    }
}

/// The dialogue for a chain, one turn per message, in chain order.
pub open spec fn dialogue(chain: Seq<MessageView>, me: UserView) -> Seq<TurnView> {
    chain.map_values(|m: MessageView| turn_for(m, me))
}

/// Whether the relay, with identity `me`, is among the users `msg` mentions.
pub fn is_addressed(msg: &Message, me: &UserIdentity) -> (r: bool)
    ensures
        r == exists|i: int| 0 <= i < msg.mentions@.len() && (#[trigger] msg.mentions@[i]).id == me.id,
{
    let mut i: usize = 0;
    while i < msg.mentions.len()
        invariant
            i <= msg.mentions.len(),
            forall|j: int| 0 <= j < i ==> (#[trigger] msg.mentions@[j]).id != me.id,
        decreases msg.mentions.len() - i,
    {
        if msg.mentions[i].id == me.id {
            return true;
        }
        i = i + 1;
    }
    false
}

/// The turn for one message of the chain.
pub fn message_turn(msg: &Message, me: &UserIdentity) -> (r: DialogueTurn)
    requires
        msg.wf(),
    ensures
        r@ == turn_for(msg@, me@),
{
    if msg.author.id == me.id {
        DialogueTurn { role: Role::Model, text: format_message_contents(msg) }
    } else {
        DialogueTurn { role: Role::User, text: message_to_string(msg) }
    }
}

/// The dialogue for `chain` as seen by the relay whose identity is `me`.
pub fn build_history(chain: &Vec<Message>, me: &UserIdentity) -> (r: Vec<DialogueTurn>)
    requires
        forall|i: int| 0 <= i < chain@.len() ==> (#[trigger] chain@[i]).wf(),
    ensures
        turns_view(r@) == dialogue(views(chain@), me@),
{
    let mut r: Vec<DialogueTurn> = Vec::new();
    let mut i: usize = 0;
    while i < chain.len()
        invariant
            i <= chain.len(),
            forall|j: int| 0 <= j < chain@.len() ==> (#[trigger] chain@[j]).wf(),
            r@.len() == i,
            forall|j: int| 0 <= j < i ==> (#[trigger] r@[j])@ == turn_for(chain@[j]@, me@),
        decreases chain.len() - i,
    {
        let turn = message_turn(&chain[i], me);
        r.push(turn);
        i = i + 1;
    }
    assert(turns_view(r@) =~= dialogue(views(chain@), me@));
    r
}

/// The dialogue has one turn per chain message, in chain order: a model turn
/// of the bare formatted text for each message of the relay's own, and a user
/// turn that starts with `@name says:` and a line break for any other.
pub proof fn lemma_dialogue_turns(chain: Seq<MessageView>, me: UserView)
    ensures
        dialogue(chain, me).len() == chain.len(),
        forall|i: int| 0 <= i < chain.len() && (#[trigger] chain[i]).author.id == me.id ==> dialogue(chain, me)[i] == (TurnView {
            role: Role::Model,
            text: formatted(chain[i]),
        }),
        forall|i: int| 0 <= i < chain.len() && (#[trigger] chain[i]).author.id != me.id ==> dialogue(chain, me)[i] == (TurnView {
            role: Role::User,
            text: handle_of(chain[i].author) + says_marker() + formatted(chain[i]),
        }),
{
}

} // verus!
