//! The role-keyed token store that gates every handshake.

use vstd::prelude::*;
use crate::text::str_eq;

verus! {

/// The role associated with a token.
#[derive(Clone, Copy, Debug, PartialEq, Eq, Structural)]
pub enum Role {
    User,
    Admin,
}

impl Role {
    pub open spec fn name_of(self) -> Seq<char> {
        match self {
            Role::User => seq!['U', 's', 'e', 'r'],
            Role::Admin => seq!['A', 'd', 'm', 'i', 'n'],
        }
    }

    /// The role's display name.
    pub fn as_str(&self) -> (r: &'static str)
        ensures
            r@ == self.name_of(),
    {
        match self {
            Role::User => {
                proof {
                    reveal_strlit("User");
                }
                "User"
            },
            Role::Admin => {
                proof {
                    reveal_strlit("Admin");
                }
                "Admin"
            },
        }
    }
}

/// The token accepted for the Admin role while no Admin token is configured.
pub open spec fn fallback_admin_token() -> Seq<char> {
    seq!['a', 'd', 'm', 'i', 'n']
}

/// What a token store holds: the tokens of each role, and the emptiness of
/// the Admin tokens as last seen by the insecure-configuration check.
pub ghost struct TokensView {
    pub web: Seq<Seq<char>>,
    pub admin: Seq<Seq<char>>,
    pub admin_seen_empty: Option<bool>,
}

impl TokensView {
    pub open spec fn empty() -> TokensView {
        TokensView { web: seq![], admin: seq![], admin_seen_empty: None }
    }

    pub open spec fn added(self, role: Role, token: Seq<char>) -> TokensView {
        match role {
            Role::User => TokensView { web: self.web.push(token), ..self },
            Role::Admin => TokensView { admin: self.admin.push(token), ..self },
        }
    }

    /// The check warns when the Admin tokens are empty now and were not
    /// already seen empty by the previous check.
    pub open spec fn warns(self) -> bool {
        self.admin.len() == 0 && self.admin_seen_empty != Some(true)
    }

    pub open spec fn checked(self) -> TokensView {
        TokensView { admin_seen_empty: Some(self.admin.len() == 0), ..self }
    }

    pub open spec fn accepts_web(self, token: Seq<char>) -> bool {
        self.web.contains(token)
    }

    pub open spec fn accepts_admin(self, token: Seq<char>) -> bool {
        if self.admin.len() == 0 {
            token == fallback_admin_token()
        } else {
            self.admin.contains(token)
        }
    }

    pub open spec fn accepts(self, role: Role, token: Seq<char>) -> bool {
        match role {
            Role::User => self.accepts_web(token),
            Role::Admin => self.accepts_admin(token),
        }
    }

    /// The store after adding each token of `adds` in turn to a fresh one.
    pub open spec fn from_adds(adds: Seq<(Role, Seq<char>)>) -> TokensView
        decreases adds.len(),
    {
        if adds.len() == 0 {
            TokensView::empty()
        } else {
            let last = adds.last();
            TokensView::from_adds(adds.drop_last()).added(last.0, last.1)
        }
    }
}

/// The token store. Membership does not depend on the order in which tokens
/// were added.
pub struct Tokens {
    web: Vec<String>,
    admin: Vec<String>,
    admin_seen_empty: Option<bool>,
}

impl View for Tokens {
    type V = TokensView;

    closed spec fn view(&self) -> TokensView {
        TokensView {
            web: self.web@.map_values(|s: String| s@),
            admin: self.admin@.map_values(|s: String| s@),
            admin_seen_empty: self.admin_seen_empty,
        }
    }
}

fn contains_token(tokens: &Vec<String>, token: &str) -> (r: bool)
    ensures
        r == tokens@.map_values(|s: String| s@).contains(token@),
{
    let ghost seqs = tokens@.map_values(|s: String| s@);
    let mut i: usize = 0;
    while i < tokens.len()
        invariant
            seqs == tokens@.map_values(|s: String| s@),
            i <= tokens.len(),
            forall|j: int| 0 <= j < i ==> seqs[j] != token@,
        decreases tokens.len() - i,
    {
        if str_eq(tokens[i].as_str(), token) {
            assert(seqs[i as int] == token@);
            return true;
        }
        i = i + 1;
    }
    false
}

impl Tokens {
    /// An empty store that has not been checked yet.
    pub fn new() -> (r: Tokens)
        ensures
            r@ == TokensView::empty(),
    {
        let r = Tokens { web: Vec::new(), admin: Vec::new(), admin_seen_empty: None };
        assert(r@.web =~= seq![]);
        assert(r@.admin =~= seq![]);
        r
    }

    /// Adds a token for the given role.
    pub fn add(&mut self, role: Role, token: String)
        ensures
            final(self)@ == old(self)@.added(role, token@),
    {
        match role {
            Role::User => self.web.push(token),
            Role::Admin => self.admin.push(token),
        }
        assert(self@.web =~= old(self)@.added(role, token@).web);
        assert(self@.admin =~= old(self)@.added(role, token@).admin);
    }

    /// Reports, once per change into that state, that no Admin token is set.
    pub fn check_warn_insecure(&mut self) -> (r: bool)
        ensures
            r == old(self)@.warns(),
            final(self)@ == old(self)@.checked(),
    {
        let empty = self.admin.len() == 0;
        let warn = empty && self.admin_seen_empty != Some(true);
        self.admin_seen_empty = Some(empty);
        warn
    }

    /// Whether `token` is a User token.
    pub fn is_web_token(&self, token: &str) -> (r: bool)
        ensures
            r == self@.accepts_web(token@),
    {
        contains_token(&self.web, token)
    }

    /// Whether `token` is an Admin token; with none configured, only the
    /// token `admin` is accepted.
    pub fn is_admin_token(&self, token: &str) -> (r: bool)
        ensures
            r == self@.accepts_admin(token@),
    {
        if self.admin.len() == 0 {
            let fallback = "admin";
            proof {
                reveal_strlit("admin");
                assert(fallback@ =~= fallback_admin_token());
            }
            return str_eq(token, fallback);
        }
        contains_token(&self.admin, token)
    }
}

impl Default for Tokens {
    fn default() -> (r: Tokens)
        ensures
            r@ == TokensView::empty(),
    {
        Tokens::new()
    }
}

/// Every token added to a fresh store is accepted for the role it was added
/// for, in whatever order the tokens came, and a token that was never added
/// for a role is refused for it (for Admin, once any Admin token was added).
pub proof fn lemma_added_tokens_found(adds: Seq<(Role, Seq<char>)>)
    ensures
        forall|t: Seq<char>|
            TokensView::from_adds(adds).accepts_web(t) <==> exists|i: int|
                0 <= i < adds.len() && #[trigger] adds[i] == (Role::User, t),
        (exists|i: int| 0 <= i < adds.len() && (#[trigger] adds[i]).0 == Role::Admin) ==> forall|
            t: Seq<char>,
        |
            TokensView::from_adds(adds).accepts_admin(t) <==> exists|i: int|
                0 <= i < adds.len() && #[trigger] adds[i] == (Role::Admin, t),
    decreases adds.len(),
{
    if adds.len() > 0 {
        let rest = adds.drop_last();
        lemma_added_tokens_found(rest);
        lemma_from_adds_contents(adds);
    } else {
        lemma_from_adds_contents(adds);
    }
}

proof fn lemma_from_adds_contents(adds: Seq<(Role, Seq<char>)>)
    ensures
        forall|t: Seq<char>|
            TokensView::from_adds(adds).web.contains(t) <==> exists|i: int|
                0 <= i < adds.len() && #[trigger] adds[i] == (Role::User, t),
        forall|t: Seq<char>|
            TokensView::from_adds(adds).admin.contains(t) <==> exists|i: int|
                0 <= i < adds.len() && #[trigger] adds[i] == (Role::Admin, t),
        TokensView::from_adds(adds).admin.len() > 0 <==> exists|i: int|
            0 <= i < adds.len() && (#[trigger] adds[i]).0 == Role::Admin,
    decreases adds.len(),
{
    if adds.len() > 0 {
        let rest = adds.drop_last();
        let last = adds.last();
        lemma_from_adds_contents(rest);
        let v = TokensView::from_adds(rest);
        let w = TokensView::from_adds(adds);
        assert forall|t: Seq<char>| w.web.contains(t) <==> exists|i: int|
            0 <= i < adds.len() && #[trigger] adds[i] == (Role::User, t) by {
            if w.web.contains(t) {
                if v.web.contains(t) {
                    let i = choose|i: int| 0 <= i < rest.len() && #[trigger] rest[i] == (Role::User, t);
                    assert(adds[i] == rest[i]);
                } else {
                    let k = choose|k: int| 0 <= k < w.web.len() && w.web[k] == t;
                    if last.0 == Role::User {
                        assert(k == v.web.len());
                        assert(adds[adds.len() - 1] == (Role::User, t));
                    } else {
                        assert(v.web.contains(t));
                    }
                }
            }
            if exists|i: int| 0 <= i < adds.len() && #[trigger] adds[i] == (Role::User, t) {
                let i = choose|i: int| 0 <= i < adds.len() && #[trigger] adds[i] == (Role::User, t);
                if i < adds.len() - 1 {
                    assert(rest[i] == adds[i]);
                    assert(v.web.contains(t));
                    let k = choose|k: int| 0 <= k < v.web.len() && v.web[k] == t;
                    if last.0 == Role::User {
                        assert(w.web == v.web.push(last.1));
                    }
                    assert(w.web[k] == t);
                } else {
                    assert(w.web[w.web.len() - 1] == t);
                }
            }
        }
        assert forall|t: Seq<char>| w.admin.contains(t) <==> exists|i: int|
            0 <= i < adds.len() && #[trigger] adds[i] == (Role::Admin, t) by {
            if w.admin.contains(t) {
                if v.admin.contains(t) {
                    let i = choose|i: int| 0 <= i < rest.len() && #[trigger] rest[i] == (Role::Admin, t);
                    assert(adds[i] == rest[i]);
                } else {
                    let k = choose|k: int| 0 <= k < w.admin.len() && w.admin[k] == t;
                    if last.0 == Role::Admin {
                        assert(k == v.admin.len());
                        assert(adds[adds.len() - 1] == (Role::Admin, t));
                    } else {
                        assert(v.admin.contains(t));
                    }
                }
            }
            if exists|i: int| 0 <= i < adds.len() && #[trigger] adds[i] == (Role::Admin, t) {
                let i = choose|i: int| 0 <= i < adds.len() && #[trigger] adds[i] == (Role::Admin, t);
                if i < adds.len() - 1 {
                    assert(rest[i] == adds[i]);
                    assert(v.admin.contains(t));
                    let k = choose|k: int| 0 <= k < v.admin.len() && v.admin[k] == t;
                    if last.0 == Role::Admin {
                        assert(w.admin == v.admin.push(last.1));
                    }
                    assert(w.admin[k] == t);
                } else {
                    assert(w.admin[w.admin.len() - 1] == t);
                }
            }
        }
        if exists|i: int| 0 <= i < adds.len() && (#[trigger] adds[i]).0 == Role::Admin {
            let i = choose|i: int| 0 <= i < adds.len() && (#[trigger] adds[i]).0 == Role::Admin;
            if i < adds.len() - 1 {
                assert(rest[i] == adds[i]);
            }
        }
        if w.admin.len() > 0 && last.0 != Role::Admin {
            let i = choose|i: int| 0 <= i < rest.len() && (#[trigger] rest[i]).0 == Role::Admin;
            assert(adds[i] == rest[i]);
        }
    }
}

/// The insecure-configuration warning fires at most once for an unchanged
/// store: a second check right after a first one stays silent, a store with
/// Admin tokens never warns, and a store seen non-empty that is now empty
/// warns.
pub proof fn lemma_warns_once(v: TokensView)
    ensures
        !v.checked().warns(),
        v.checked().checked() == v.checked(),
        v.admin.len() > 0 ==> !v.warns(),
        v.admin.len() == 0 && v.admin_seen_empty != Some(true) ==> v.warns(),
        TokensView::empty().warns(),
{
}

/// With no Admin token configured, `admin` is accepted as an Admin token and
/// nothing else is.
pub proof fn lemma_fallback_admin_token(v: TokensView)
    requires
        v.admin.len() == 0,
    ensures
        v.accepts_admin(fallback_admin_token()),
        forall|t: Seq<char>| t != fallback_admin_token() ==> !v.accepts_admin(t),
{
}

} // verus!
