use vstd::prelude::*;
use vstd::string::*;
use crate::identity::{UserIdentity, UserView, handle_of, user_to_string};
use crate::message::{Message, MessageView};

verus! {

/// The decimal digits of `n`, most significant first.
pub open spec fn decimal(n: nat) -> Seq<char>
    decreases n,
{
    let digit = seq!['0', '1', '2', '3', '4', '5', '6', '7', '8', '9'][(n % 10) as int];
    if n < 10 {
        seq![digit]
    } else {
        decimal(n / 10) + seq![digit]
    }
}

/// The raw token by which message text mentions a user: `<@id>`.
pub open spec fn mention_token(id: u64) -> Seq<char> {
    seq!['<', '@'] + decimal(id as nat) + seq!['>']
}

/// `s` with every match of `pat`, taken left to right without overlap,
/// replaced by `with`.
pub open spec fn replaced(s: Seq<char>, pat: Seq<char>, with: Seq<char>) -> Seq<char>
    decreases s.len(),
{
    if pat.len() == 0 || s.len() < pat.len() {
        s
    } else if s.subrange(0, pat.len() as int) == pat {
        with + replaced(s.subrange(pat.len() as int, s.len() as int), pat, with)
    } else {
        seq![s[0]] + replaced(s.subrange(1, s.len() as int), pat, with)
    }
}

/// `content` with the mentions of `users` rewritten, first user first.
pub open spec fn rewrite_mentions(content: Seq<char>, users: Seq<UserView>) -> Seq<char>
    decreases users.len(),
{
    if users.len() == 0 {
        content
    } else {
        let u = users.last();
        replaced(rewrite_mentions(content, users.drop_last()), mention_token(u.id), handle_of(u))
    }
}

/// The text of a message with each mentioned user's token shown as a handle.
pub open spec fn formatted(m: MessageView) -> Seq<char> {
    rewrite_mentions(m.content, m.mentions)
}

/// The separator between a speaker's handle and what they said.
pub open spec fn says_marker() -> Seq<char> {
    seq![' ', 's', 'a', 'y', 's', ':', '\n']
}

/// A message rendered as `@name says:` followed by its formatted text.
pub open spec fn attributed(m: MessageView) -> Seq<char> {
    handle_of(m.author) + says_marker() + formatted(m)
}

/// Relies on serenity's `Display` for `Mention::User`, which writes `<@{id}>`
/// where the id prints as its inner `NonZeroU64`, in decimal; `UserId::new`
/// panics on zero.
#[verifier::external_body]
fn mention_string(id: u64) -> (r: String)
    requires
        id != 0,
    ensures
        r@ == mention_token(id),
{
    serenity::model::mention::Mention::User(serenity::model::id::UserId::new(id)).to_string()
}

/// Relies on `str::replace`: every match of `from`, left to right without
/// overlap, replaced by `to`.
#[verifier::external_body]
fn replace_str(s: &str, from: &str, to: &str) -> (r: String)
    requires
        from@.len() > 0,
    ensures
        r@ == replaced(s@, from@, to@),
{
    s.replace(from, to)
}

proof fn lemma_token_nonempty(id: u64)
    ensures
        mention_token(id).len() > 0,
{
}

/// The content of `msg` with every mention token of a mentioned user replaced
/// by that user's handle; any other text stays as it is.
pub fn format_message_contents(msg: &Message) -> (r: String)
    requires
        msg.wf(),
    ensures
        r@ == formatted(msg@),
{
    let mut content = msg.content.clone();
    let mut i: usize = 0;
    let ghost users = msg@.mentions;
    assert(users == msg.mentions@.map_values(|u: UserIdentity| u@));
    while i < msg.mentions.len()
        invariant
            i <= msg.mentions.len(),
            msg.wf(),
            users == msg@.mentions,
            users.len() == msg.mentions@.len(),
            forall|j: int| 0 <= j < users.len() ==> users[j] == (#[trigger] msg.mentions@[j])@,
            content@ == rewrite_mentions(msg@.content, users.subrange(0, i as int)),
        decreases msg.mentions.len() - i,
    {
        let user = &msg.mentions[i];
        assert(msg.mentions@[i as int].wf());
        let token = mention_string(user.id);
        let handle = user_to_string(user);
        proof {
            lemma_token_nonempty(user.id);
        }
        content = replace_str(content.as_str(), token.as_str(), handle.as_str());
        proof {
            let pre = users.subrange(0, i + 1);
            assert(pre.drop_last() =~= users.subrange(0, i as int));
            assert(pre.last() == users[i as int]);
        }
        i = i + 1;
    }
    assert(users.subrange(0, users.len() as int) =~= users);
    content
}

/// `@name says:` on one line, then the formatted content of `msg`.
pub fn message_to_string(msg: &Message) -> (r: String)
    requires
        msg.wf(),
    ensures
        r@ == attributed(msg@),
{
    let mut s = user_to_string(&msg.author);
    proof {
        reveal_strlit(" says:\n");
    }
    s.append(" says:\n");
    assert(" says:\n"@ =~= says_marker());
    let body = format_message_contents(msg);
    s.append(body.as_str());
    s
}

/// `pat` occurs somewhere in `s`.
pub open spec fn occurs_in(pat: Seq<char>, s: Seq<char>) -> bool {
    exists|i: int| 0 <= i && i + pat.len() <= s.len() && #[trigger] s.subrange(i, i + pat.len()) == pat
}

/// Text in which a non-empty pattern does not occur is left as it is.
pub proof fn lemma_replaced_absent(s: Seq<char>, pat: Seq<char>, with: Seq<char>)
    requires
        pat.len() > 0,
        !occurs_in(pat, s),
    ensures
        replaced(s, pat, with) == s,
    decreases s.len(),
{
    if s.len() >= pat.len() {
        assert(s.subrange(0, pat.len() as int) != pat) by {
            if s.subrange(0, pat.len() as int) == pat {
                assert(s.subrange(0int, 0int + pat.len()) == pat);
            }
        }
        let t = s.subrange(1, s.len() as int);
        assert(!occurs_in(pat, t)) by {
            if occurs_in(pat, t) {
                let i = choose|i: int|
                    0 <= i && i + pat.len() <= t.len() && #[trigger] t.subrange(i, i + pat.len()) == pat;
                assert(t.subrange(i, i + pat.len()) =~= s.subrange(i + 1, i + 1 + pat.len()));
            }
        }
        lemma_replaced_absent(t, pat, with);
        assert(seq![s[0]] + t =~= s);
    }
}

/// The content of a message in which no mentioned user's token occurs is
/// left as it is: plain `@word` text is never taken for a mention.
pub proof fn lemma_formatted_without_tokens(m: MessageView)
    requires
        forall|i: int| 0 <= i < m.mentions.len() ==> !occurs_in(mention_token((#[trigger] m.mentions[i]).id), m.content),
    ensures
        formatted(m) == m.content,
{
    lemma_rewrite_untouched(m.content, m.mentions);
}

proof fn lemma_rewrite_untouched(content: Seq<char>, users: Seq<UserView>)
    requires
        forall|i: int| 0 <= i < users.len() ==> !occurs_in(mention_token((#[trigger] users[i]).id), content),
    ensures
        rewrite_mentions(content, users) == content,
    decreases users.len(),
{
    if users.len() > 0 {
        let rest = users.drop_last();
        assert forall|i: int| 0 <= i < rest.len() implies !occurs_in(mention_token((#[trigger] rest[i]).id), content) by {
            assert(rest[i] == users[i]);
        }
        lemma_rewrite_untouched(content, rest);
        let u = users.last();
        assert(users[users.len() - 1] == u);
        lemma_token_nonempty(u.id);
        lemma_replaced_absent(content, mention_token(u.id), handle_of(u));
    }
}

} // verus!
