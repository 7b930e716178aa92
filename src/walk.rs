use vstd::prelude::*;
use crate::message::{Message, MessageView, ReplyKind, ReplyLink};

verus! {

/// Where the walk looks next for the parent of the oldest message found.
#[derive(Clone, Copy, PartialEq, Eq, Structural, Debug)]
pub enum Lookup {
    /// Ask the local message cache for this (channel id, message id).
    Cache { channel_id: u64, message_id: u64 },
    /// Fetch this (channel id, message id) over the network.
    Network { channel_id: u64, message_id: u64 },
    /// No further ancestor is known: the chain is complete.
    Finished,
}

/// The model of a walk: the messages found, newest first, and the pending lookup.
pub struct WalkState {
    pub found: Seq<MessageView>,
    pub next: Lookup,
}

/// A message whose reply link is present and a true reply.
pub open spec fn follows(m: MessageView) -> bool {
    m.reply matches Some(l) && l.kind == ReplyKind::Default
}

/// The ancestors of `m` that the platform delivered inline, newest first.
pub open spec fn embedded_run(m: MessageView) -> Seq<MessageView>
    decreases m,
{
    if follows(m) && m.embedded is Some {
        let e = *m.embedded->0;
        seq![e] + embedded_run(e)
    } else {
        seq![]
    }
}

/// The oldest message reached from `m` through inline ancestors.
pub open spec fn frontier(m: MessageView) -> MessageView
    decreases m,
{
    if follows(m) && m.embedded is Some {
        frontier(*m.embedded->0)
    } else {
        m
    }
}

/// The lookup that resolves the parent of a message delivered without it:
/// the cache, keyed by the message's channel and the target id, when the link
/// is a true reply that names its target; otherwise none.
pub open spec fn lookup_for(m: MessageView) -> Lookup {
    if follows(m) && m.reply->0.message_id is Some {
        Lookup::Cache { channel_id: m.channel_id, message_id: m.reply->0.message_id->0 }
    } else {
        Lookup::Finished
    }
}

/// The state after `m` is resolved: `m` and its inline ancestors are appended,
/// and the next lookup concerns the oldest of them.
pub open spec fn absorb(found: Seq<MessageView>, m: MessageView) -> WalkState {
    WalkState { found: found + seq![m] + embedded_run(m), next: lookup_for(frontier(m)) }
}

/// The state of a walk that begins at `start`.
pub open spec fn start_state(start: MessageView) -> WalkState {
    absorb(seq![], start)
}

/// The state after the pending lookup of `w` answered `r`.
pub open spec fn supply_state(w: WalkState, r: Option<MessageView>) -> WalkState {
    match w.next {
        Lookup::Cache { channel_id, message_id } => match r {
            Some(m) => absorb(w.found, m),
            None => WalkState { found: w.found, next: Lookup::Network { channel_id, message_id } },
        },
        Lookup::Network { .. } => match r {
            Some(m) => absorb(w.found, m),
            None => WalkState { found: w.found, next: Lookup::Finished },
        },
        Lookup::Finished => w,
    }
}

/// The conversation chain of a walk: oldest ancestor first.
pub open spec fn chain_of(w: WalkState) -> Seq<MessageView> {
    w.found.reverse()
}

pub open spec fn views(v: Seq<Message>) -> Seq<MessageView> {
    v.map_values(|m: Message| m@)
}

/// A walk backward through a reply thread. The caller answers each pending
/// lookup in turn and takes the chain once the walk is finished.
pub struct ReplyWalk {
    found: Vec<Message>,
    next: Lookup,
}

impl View for ReplyWalk {
    type V = WalkState;

    closed spec fn view(&self) -> WalkState {
        WalkState { found: views(self.found@), next: self.next }
    }
}

/// Whether the walk goes on from `m`: its link is present and a true reply.
pub fn is_followed(m: &Message) -> (r: bool)
    ensures
        r == follows(m@),
{
    match &m.reply {
        Some(l) => l.kind == ReplyKind::Default,
        None => false,
    }
}

/// The lookup for the parent of `m` when it was not delivered inline.
pub fn get_reply(m: &Message) -> (r: Lookup)
    ensures
        r == lookup_for(m@),
{
    match &m.reply {
        Some(ReplyLink { message_id: Some(id), kind: ReplyKind::Default, .. }) => Lookup::Cache {
            channel_id: m.channel_id,
            message_id: *id,
        },
        _ => Lookup::Finished,
    }
}

impl ReplyWalk {
    fn absorb(&mut self, m: Message)
        ensures
            final(self)@ == absorb(old(self)@.found, m@),
    {
        let ghost target = absorb(self@.found, m@);
        let mut cur = m;
        loop
            invariant_except_break
                self@.found + seq![cur@] + embedded_run(cur@) == target.found,
                lookup_for(frontier(cur@)) == target.next,
            ensures
                self@ == target,
            decreases embedded_run(cur@).len(),
        {
            let parent = if is_followed(&cur) {
                match &cur.embedded {
                    Some(b) => {
                        let inner: &Message = &**b;
                        Some(inner.duplicate())
                    },
                    None => None,
                }
            } else {
                None
            };
            let ghost before = self@.found;
            let ghost c = cur@;
            match parent {
                Some(p) => {
                    self.found.push(cur);
                    proof {
                        assert(views(self.found@) =~= before.push(c));
                        assert(embedded_run(c) == seq![p@] + embedded_run(p@));
                        assert(before + seq![c] + embedded_run(c) =~= before.push(c) + seq![p@]
                            + embedded_run(p@));
                    }
                    cur = p;
                },
                None => {
                    self.next = get_reply(&cur);
                    self.found.push(cur);
                    proof {
                        assert(views(self.found@) =~= before.push(c));
                        assert(embedded_run(c) == Seq::<MessageView>::empty());
                        assert(frontier(c) == c);
                        assert(before + seq![c] + embedded_run(c) =~= before.push(c));
                    }
                    break;
                },
            }
        }
    }

    /// Begins a walk at `start`, taking in every ancestor delivered inline.
    pub fn start(start: Message) -> (r: ReplyWalk)
        ensures
            r@ == start_state(start@),
    {
        let mut w = ReplyWalk { found: Vec::new(), next: Lookup::Finished };
        assert(views(w.found@) =~= Seq::<MessageView>::empty());
        w.absorb(start);
        w
    }

    /// The pending lookup.
    pub fn next_lookup(&self) -> (r: Lookup)
        ensures
            r == self@.next,
    {
        self.next
    }

    /// Whether the walk is complete.
    pub fn is_finished(&self) -> (r: bool)
        ensures
            r == (self@.next == Lookup::Finished),
    {
        matches!(self.next, Lookup::Finished)
    }

    /// Hands the walk the answer to its pending lookup: the message found, or
    /// `None` on a miss. A cache miss leads to one network fetch of the same
    /// key; a failed fetch ends the walk.
    pub fn supply(&mut self, answer: Option<Message>)
        ensures
            final(self)@ == supply_state(old(self)@, match answer {
                Some(m) => Some(m@),
                None => None,
            }),
    {
        match self.next {
            Lookup::Cache { channel_id, message_id } => match answer {
                Some(m) => self.absorb(m),
                None => {
                    self.next = Lookup::Network { channel_id, message_id };
                },
            },
            Lookup::Network { .. } => match answer {
                Some(m) => self.absorb(m),
                None => {
                    self.next = Lookup::Finished;
                },
            },
            Lookup::Finished => {},
        }
    }

    /// The messages found, oldest ancestor first.
    pub fn into_chain(self) -> (r: Vec<Message>)
        ensures
            views(r@) == chain_of(self@),
    {
        let mut found = self.found;
        let ghost orig = views(found@);
        let mut r: Vec<Message> = Vec::new();
        while found.len() > 0
            invariant
                views(found@) + views(r@).reverse() == orig,
            decreases found.len(),
        {
            let ghost f = views(found@);
            let ghost rv = views(r@);
            let m = found.pop().unwrap();
            r.push(m);
            proof {
                assert(views(found@) =~= f.drop_last());
                assert(views(r@) =~= rv.push(f.last()));
                assert(views(r@).reverse() =~= seq![f.last()] + rv.reverse());
                assert(f =~= f.drop_last() + seq![f.last()]);
                assert(views(found@) + views(r@).reverse() =~= f + rv.reverse());
            }
        }
        assert(views(r@).reverse().reverse() =~= views(r@));
        r
    }
}

/// `child` carries `parent` inline as the message it replies to.
pub open spec fn carries(child: MessageView, parent: MessageView) -> bool {
    child.embedded is Some && *child.embedded->0 == parent
}

/// A thread, oldest first, in which each later message is a true reply that
/// carries its predecessor inline, and the oldest is not a true reply.
pub open spec fn inline_thread(s: Seq<MessageView>) -> bool {
    &&& s.len() > 0
    &&& !follows(s[0])
    &&& forall|i: int|
        1 <= i < s.len() ==> follows(#[trigger] s[i]) && carries(s[i], s[i - 1])
}

/// A walk that begins at a message whose link is absent, or is not a true
/// reply, is finished at once and its chain is that message alone.
pub proof fn lemma_walk_unlinked(m: MessageView)
    requires
        !follows(m),
    ensures
        start_state(m).next == Lookup::Finished,
        chain_of(start_state(m)) == seq![m],
{
    assert(embedded_run(m) =~= Seq::<MessageView>::empty());
    assert(frontier(m) == m);
    assert(chain_of(start_state(m)) =~= seq![m]);
}

proof fn lemma_inline_prefix(s: Seq<MessageView>, k: int)
    requires
        inline_thread(s),
        0 <= k < s.len(),
    ensures
        embedded_run(s[k]) == s.subrange(0, k).reverse(),
        frontier(s[k]) == s[0],
    decreases k,
{
    if k == 0 {
        assert(s.subrange(0, 0).reverse() =~= Seq::<MessageView>::empty());
    } else {
        lemma_inline_prefix(s, k - 1);
        assert(follows(s[k]) && carries(s[k], s[k - 1]));
        assert(s.subrange(0, k).reverse() =~= seq![s[k - 1]] + s.subrange(0, k - 1).reverse());
    }
}

/// When every ancestor of a thread was delivered inline, a walk from its
/// newest message finds them all without a cache or network lookup, and its
/// chain is the thread, oldest first.
pub proof fn lemma_walk_inline_thread(s: Seq<MessageView>)
    requires
        inline_thread(s),
    ensures
        start_state(s.last()).next == Lookup::Finished,
        chain_of(start_state(s.last())) == s,
{
    let n = s.len() as int;
    lemma_inline_prefix(s, n - 1);
    assert(s[0].reply is None || s[0].reply->0.kind != ReplyKind::Default);
    assert(start_state(s.last()).found =~= s.reverse());
    assert(s.reverse().reverse() =~= s);
}

/// A walk from `m` concerns the same messages as a walk from its parent,
/// with `m` in front.
pub open spec fn walk_through(m: MessageView, parent: MessageView) -> WalkState {
    WalkState {
        found: seq![m] + start_state(parent).found,
        next: start_state(parent).next,
    }
}

/// The parent found in the cache leads to the same walk as the parent
/// delivered inline: one cache lookup, no network fetch.
pub proof fn lemma_cache_hit_as_inline(m: MessageView, parent: MessageView)
    requires
        follows(m),
        m.embedded is None,
        m.reply->0.message_id is Some,
    ensures
        start_state(m).next == (Lookup::Cache {
            channel_id: m.channel_id,
            message_id: m.reply->0.message_id->0,
        }),
        supply_state(start_state(m), Some(parent)) == walk_through(m, parent),
        start_state(MessageView { embedded: Some(Box::new(parent)), ..m }) == walk_through(
            MessageView { embedded: Some(Box::new(parent)), ..m },
            parent,
        ),
{
    let e = MessageView { embedded: Some(Box::new(parent)), ..m };
    assert(embedded_run(m) =~= Seq::<MessageView>::empty());
    assert(frontier(m) == m);
    assert(supply_state(start_state(m), Some(parent)).found =~= walk_through(m, parent).found);
    assert(embedded_run(e) == seq![parent] + embedded_run(parent));
    assert(frontier(e) == frontier(parent));
    assert(start_state(e).found =~= walk_through(e, parent).found);
}

/// After a cache miss the walk fetches the same key over the network, once:
/// no answer to a fetch leads to a second fetch. A failed fetch ends the walk
/// with the messages found so far; a fetched parent leads where a cached one
/// would.
pub proof fn lemma_cache_miss_fetches_once(w: WalkState, r: Option<MessageView>)
    requires
        w.next is Cache,
    ensures
        supply_state(w, None) == (WalkState {
            found: w.found,
            next: Lookup::Network {
                channel_id: w.next->Cache_channel_id,
                message_id: w.next->Cache_message_id,
            },
        }),
        !(supply_state(supply_state(w, None), r).next is Network),
        r is None ==> supply_state(supply_state(w, None), r) == (WalkState {
            found: w.found,
            next: Lookup::Finished,
        }),
        r is Some ==> supply_state(supply_state(w, None), r) == supply_state(w, r),
{
    if let Some(m) = r {
        let f = frontier(m);
        assert(!(lookup_for(f) is Network));
    }
}

} // verus!
