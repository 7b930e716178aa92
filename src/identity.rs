use vstd::prelude::*;
use vstd::string::*;

verus! {

/// A platform user as seen by the relay: unique id, global username,
/// optional global display name and optional per-server nickname.
pub struct UserIdentity {
    pub id: u64,
    pub username: String,
    pub global_name: Option<String>,
    pub nickname: Option<String>,
}

/// The mathematical model of a [`UserIdentity`].
pub struct UserView {
    pub id: u64,
    pub username: Seq<char>,
    pub global_name: Option<Seq<char>>,
    pub nickname: Option<Seq<char>>,
}

pub open spec fn opt_view(s: Option<String>) -> Option<Seq<char>> {
    match s {
        Some(v) => Some(v@),
        None => None,
    }
}

impl View for UserIdentity {
    type V = UserView;

    open spec fn view(&self) -> UserView {
        UserView {
            id: self.id,
            username: self.username@,
            global_name: opt_view(self.global_name),
            nickname: opt_view(self.nickname),
        }
    }
}

impl UserIdentity {
    /// Platform ids are never zero.
    pub open spec fn wf(&self) -> bool {
        self.id != 0
    }
}

/// The account-wide name: the global display name, else the username.
pub open spec fn global_display(u: UserView) -> Seq<char> {
    match u.global_name {
        Some(g) => g,
        None => u.username,
    }
}

/// The name shown for a user: nickname, else global display name, else username.
pub open spec fn shown_name(u: UserView) -> Seq<char> {
    match u.nickname {
        Some(n) => n,
        None => global_display(u),
    }
}

/// The rendering of a user in a transcript: `@` followed by the shown name.
pub open spec fn handle_of(u: UserView) -> Seq<char> {
    seq!['@'] + shown_name(u)
}

pub fn copy_opt_string(s: &Option<String>) -> (r: Option<String>)
    ensures
        opt_view(r) == opt_view(*s),
{
    match s {
        Some(v) => Some(v.clone()),
        None => None,
    }
}

impl UserIdentity {
    /// A copy that has the same model.
    pub fn duplicate(&self) -> (r: UserIdentity)
        ensures
            r@ == self@,
    {
        UserIdentity {
            id: self.id,
            username: self.username.clone(),
            global_name: copy_opt_string(&self.global_name),
            nickname: copy_opt_string(&self.nickname),
        }
    }

    /// The global display name if there is one, else the username.
    pub fn display_name(&self) -> (r: &str)
        ensures
            r@ == global_display(self@),
    {
        match &self.global_name {
            Some(g) => g.as_str(),
            None => self.username.as_str(),
        }
    }

    /// The name shown for this user, by the precedence nickname, global display
    /// name, username.
    pub fn shown_name(&self) -> (r: &str)
        ensures
            r@ == shown_name(self@),
    {
        match &self.nickname {
            Some(n) => n.as_str(),
            None => self.display_name(),
        }
    }
}

/// `@` followed by the user's shown name.
pub fn user_to_string(user: &UserIdentity) -> (r: String)
    ensures
        r@ == handle_of(user@),
{
    let mut s = String::from_str("@");
    proof {
        reveal_strlit("@");
    }
    s.append(user.shown_name());
    s
}

} // verus!
