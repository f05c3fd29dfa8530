use vstd::prelude::*;

verus! {

/// A server-side record of one issued, not-yet-revoked refresh token.
/// Persisted under its token; never mutated in place — a session is created
/// once and deleted exactly once, on logout or on a successful refresh.
pub struct Session {
    pub username: String,
    pub token: String,
    pub created_at: i64,
    pub updated_at: i64,
}

pub struct SessionView {
    pub username: Seq<char>,
    pub token: Seq<char>,
    pub created_at: int,
    pub updated_at: int,
}

impl View for Session {
    type V = SessionView;

    open spec fn view(&self) -> SessionView {
        SessionView {
            username: self.username@,
            token: self.token@,
            created_at: self.created_at as int,
            updated_at: self.updated_at as int,
        }
    }
}

impl Clone for Session {
    fn clone(&self) -> (r: Self)
        ensures
            r@ == self@,
    {
        Session {
            username: self.username.clone(),
            token: self.token.clone(),
            created_at: self.created_at,
            updated_at: self.updated_at,
        }
    }
}

impl Session {
    pub fn new(username: String, token: String, now: i64) -> (s: Session)
        ensures
            s@ == (SessionView {
                username: username@,
                token: token@,
                created_at: now as int,
                updated_at: now as int,
            }),
    {
        Session { username, token, created_at: now, updated_at: now }
    }
}

/// The session records that refresh tokens are checked against, modelled as
/// a map from refresh token to session. At most one live session exists per
/// token.
pub struct SessionStore {
    sessions: Vec<Session>,
}

pub open spec fn distinct_tokens(s: Seq<Session>) -> bool {
    forall|i: int, j: int| 0 <= i < j < s.len() ==> s[i]@.token != s[j]@.token
}

pub open spec fn spec_map_of(s: Seq<Session>) -> Map<Seq<char>, SessionView>
    decreases s.len(),
{
    if s.len() == 0 {
        Map::empty()
    } else {
        spec_map_of(s.drop_last()).insert(s.last()@.token, s.last()@)
    }
}

/// The fold above answers membership and lookup exactly as the vector does,
/// once tokens are distinct.
proof fn lemma_map_of_props(s: Seq<Session>)
    requires
        distinct_tokens(s),
    ensures
        forall|i: int|
            0 <= i < s.len() ==> spec_map_of(s).contains_key(#[trigger] s[i]@.token)
                && spec_map_of(s)[s[i]@.token] == s[i]@,
        forall|t: Seq<char>|
            #[trigger] spec_map_of(s).contains_key(t) ==> exists|i: int|
                0 <= i < s.len() && s[i]@.token == t,
    decreases s.len(),
{
    if s.len() > 0 {
        let s2 = s.drop_last();
        assert(distinct_tokens(s2)) by {
            assert(forall|i: int, j: int|
                0 <= i < j < s2.len() ==> s[i]@.token != s[j]@.token);
        }
        lemma_map_of_props(s2);
        assert forall|i: int|
            0 <= i < s.len() implies spec_map_of(s).contains_key(#[trigger] s[i]@.token)
            && spec_map_of(s)[s[i]@.token] == s[i]@ by {
            if i < s.len() - 1 {
                assert(s2[i] == s[i]);
                assert(s[i]@.token != s.last()@.token);
            }
        }
        assert forall|t: Seq<char>| #[trigger] spec_map_of(s).contains_key(t) implies exists|i: int|
            0 <= i < s.len() && s[i]@.token == t by {
            if t == s.last()@.token {
                assert(s[s.len() - 1]@.token == t);
            } else {
                assert(spec_map_of(s2).contains_key(t));
                let i = choose|i: int| 0 <= i < s2.len() && s2[i]@.token == t;
                assert(s2[i] == s[i]);
                assert(s[i]@.token == t);
            }
        }
    }
}

/// Removing the one record that holds a token removes exactly that key from
/// the fold.
proof fn lemma_map_of_remove(s: Seq<Session>, i: int)
    requires
        distinct_tokens(s),
        0 <= i < s.len(),
    ensures
        spec_map_of(s.remove(i)) == spec_map_of(s).remove(s[i]@.token),
        distinct_tokens(s.remove(i)),
    decreases s.len(),
{
    let t = s[i]@.token;
    lemma_map_of_props(s);
    assert(distinct_tokens(s.remove(i))) by {
        assert forall|a: int, b: int|
            0 <= a < b < s.remove(i).len() implies s.remove(i)[a]@.token != s.remove(
            i,
        )[b]@.token by {
            let a0: int = if a < i {
                a
            } else {
                a + 1
            };
            let b0: int = if b < i {
                b
            } else {
                b + 1
            };
            assert(s.remove(i)[a] == s[a0] && s.remove(i)[b] == s[b0]);
        }
    }
    if i == s.len() - 1 {
        let s2 = s.drop_last();
        assert(s.remove(i) =~= s2);
        assert(distinct_tokens(s2));
        lemma_map_of_props(s2);
        assert(!spec_map_of(s2).contains_key(t)) by {
            if spec_map_of(s2).contains_key(t) {
                let j = choose|j: int| 0 <= j < s2.len() && s2[j]@.token == t;
                assert(s[j]@.token == s[i]@.token);
            }
        }
        assert(spec_map_of(s.remove(i)) =~= spec_map_of(s).remove(t));
    } else {
        let s2 = s.drop_last();
        assert(distinct_tokens(s2));
        assert(s.remove(i).drop_last() =~= s2.remove(i));
        assert(s.remove(i).last() == s.last());
        lemma_map_of_remove(s2, i);
        assert(s2[i] == s[i]);
        assert(spec_map_of(s.remove(i)) == spec_map_of(s2.remove(i)).insert(
            s.last()@.token,
            s.last()@,
        ));
        assert(s.last()@.token != t);
        assert(spec_map_of(s2).remove(t).insert(s.last()@.token, s.last()@) =~= spec_map_of(
            s2,
        ).insert(s.last()@.token, s.last()@).remove(t));
    }
}

impl View for SessionStore {
    type V = Map<Seq<char>, SessionView>;

    closed spec fn view(&self) -> Map<Seq<char>, SessionView> {
        spec_map_of(self.sessions@)
    }
}

impl SessionStore {
    /// Tokens of the stored records never repeat; every operation keeps it
    /// that way.
    pub closed spec fn wf(&self) -> bool {
        distinct_tokens(self.sessions@)
    }

    pub fn new() -> (s: SessionStore)
        ensures
            s.wf(),
            s@ == Map::<Seq<char>, SessionView>::empty(),
    {
        SessionStore { sessions: Vec::new() }
    }

    /// Records a session under its token; an older record under the same
    /// token is replaced.
    pub fn insert(&mut self, s: Session)
        requires
            old(self).wf(),
        ensures
            final(self).wf(),
            final(self)@ == old(self)@.insert(s@.token, s@),
    {
        let _ = self.delete_by_token(s.token.as_str());
        proof {
            lemma_map_of_props(self.sessions@);
            if exists|i: int|
                0 <= i < self.sessions@.len() && self.sessions@[i]@.token == s@.token {
                let i = choose|i: int|
                    0 <= i < self.sessions@.len() && self.sessions@[i]@.token == s@.token;
                assert(self@.contains_key(s@.token));
            }
        }
        let ghost pre = self.sessions@;
        self.sessions.push(s);
        proof {
            assert(self.sessions@.drop_last() =~= pre);
            assert(self@ =~= old(self)@.insert(s@.token, s@));
            assert forall|i: int, j: int|
                0 <= i < j < self.sessions@.len() implies self.sessions@[i]@.token
                != self.sessions@[j]@.token by {
                if j == self.sessions@.len() - 1 {
                    assert(self.sessions@[i] == pre[i]);
                }
            }
        }
    }

    /// Point lookup by refresh token.
    pub fn find_by_token(&self, token: &str) -> (r: Option<&Session>)
        requires
            self.wf(),
        ensures
            r matches Some(s) ==> self@.contains_key(token@) && s@ == self@[token@] && s@.token
                == token@,
            r is None ==> !self@.contains_key(token@),
    {
        proof {
            lemma_map_of_props(self.sessions@);
        }
        let needle = token.to_owned();
        let n = self.sessions.len();
        let mut i: usize = 0;
        while i < n
            invariant
                needle@ == token@,
                self.wf(),
                n == self.sessions@.len(),
                0 <= i <= n,
                forall|j: int| 0 <= j < i ==> self.sessions@[j]@.token != token@,
                forall|j: int|
                    0 <= j < self.sessions@.len()
                        ==> self@.contains_key(#[trigger] self.sessions@[j]@.token) && self@[
                        self.sessions@[j]@.token] == self.sessions@[j]@,
                forall|t: Seq<char>|
                    #[trigger] self@.contains_key(t) ==> exists|j: int|
                        0 <= j < self.sessions@.len() && self.sessions@[j]@.token == t,
            decreases n - i,
        {
            if self.sessions[i].token.eq(&needle) {
                return Some(&self.sessions[i]);
            }
            i = i + 1;
        }
        proof {
            if self@.contains_key(token@) {
                let j = choose|j: int|
                    0 <= j < self.sessions@.len() && self.sessions@[j]@.token == token@;
                assert(false);
            }
        }
        None
    }

    /// Deletes the session recorded under `token` and reports how many
    /// records went away: one when the token was present, zero when it was
    /// not — the count that lets callers tell a replayed token apart.
    pub fn delete_by_token(&mut self, token: &str) -> (n: usize)
        requires
            old(self).wf(),
        ensures
            final(self).wf(),
            final(self)@ == old(self)@.remove(token@),
            n == 1 <==> old(self)@.contains_key(token@),
            n == 0 <==> !old(self)@.contains_key(token@),
    {
        proof {
            lemma_map_of_props(self.sessions@);
        }
        let needle = token.to_owned();
        let len = self.sessions.len();
        let mut i: usize = 0;
        while i < len
            invariant
                needle@ == token@,
                self.wf(),
                self.sessions@ == old(self).sessions@,
                len == self.sessions@.len(),
                0 <= i <= len,
                forall|j: int| 0 <= j < i ==> self.sessions@[j]@.token != token@,
                forall|j: int|
                    0 <= j < self.sessions@.len()
                        ==> self@.contains_key(#[trigger] self.sessions@[j]@.token),
                forall|t: Seq<char>|
                    #[trigger] self@.contains_key(t) ==> exists|j: int|
                        0 <= j < self.sessions@.len() && self.sessions@[j]@.token == t,
            decreases len - i,
        {
            if self.sessions[i].token.eq(&needle) {
                proof {
                    lemma_map_of_remove(self.sessions@, i as int);
                }
                self.sessions.remove(i);
                return 1;
            }
            i = i + 1;
        }
        proof {
            if self@.contains_key(token@) {
                let j = choose|j: int|
                    0 <= j < self.sessions@.len() && self.sessions@[j]@.token == token@;
                assert(false);
            }
            assert(self@ =~= old(self)@.remove(token@));
        }
        0
    }

    /// All sessions belonging to a user: each returned record is stored, and
    /// every stored record of that user is returned.
    pub fn list_by_username(&self, username: &str) -> (r: Vec<Session>)
        requires
            self.wf(),
        ensures
            lists_user_sessions(self@, username@, r@),
    {
        proof {
            lemma_map_of_props(self.sessions@);
        }
        let needle = username.to_owned();
        let n = self.sessions.len();
        let mut r: Vec<Session> = Vec::new();
        let mut i: usize = 0;
        while i < n
            invariant
                needle@ == username@,
                self.wf(),
                n == self.sessions@.len(),
                0 <= i <= n,
                forall|j: int|
                    0 <= j < self.sessions@.len()
                        ==> self@.contains_key(#[trigger] self.sessions@[j]@.token) && self@[
                        self.sessions@[j]@.token] == self.sessions@[j]@,
                forall|t: Seq<char>|
                    #[trigger] self@.contains_key(t) ==> exists|j: int|
                        0 <= j < self.sessions@.len() && self.sessions@[j]@.token == t,
                forall|k: int|
                    0 <= k < r@.len() ==> (#[trigger] r@[k]@).username == username@,
                forall|k: int|
                    0 <= k < r@.len() ==> self@.contains_key((#[trigger] r@[k]@).token),
                forall|k: int|
                    0 <= k < r@.len() ==> self@[(#[trigger] r@[k]@).token] == r@[k]@,
                forall|j: int|
                    0 <= j < i && self.sessions@[j]@.username == username@ ==> exists|k: int|
                        0 <= k < r@.len() && r@[k]@.token == #[trigger] self.sessions@[j]@.token,
            decreases n - i,
        {
            let ghost r_old = r@;
            if self.sessions[i].username.eq(&needle) {
                let item = self.sessions[i].clone();
                proof {
                    assert(item@ == self.sessions@[i as int]@);
                    assert(item@.username == username@);
                    assert(self@.contains_key(item@.token) && self@[item@.token] == item@);
                }
                r.push(item);
            }
            proof {
                assert forall|k: int|
                    0 <= k < r@.len() implies (#[trigger] r@[k]@).username == username@
                    && self@.contains_key(r@[k]@.token) && self@[r@[k]@.token] == r@[k]@ by {
                    if k < r_old.len() {
                        assert(self@.contains_key(r_old[k]@.token));
                        assert(r@[k] == r_old[k]);
                    } else {
                        assert(r@.len() == r_old.len() + 1);
                        assert(k == r@.len() - 1);
                        assert(r@[k]@ == self.sessions@[i as int]@);
                        assert(self@.contains_key(self.sessions@[i as int]@.token));
                        assert(self@[self.sessions@[i as int]@.token] == self.sessions@[i as int]@);
                        assert(self.sessions@[i as int]@.username == needle@);
                    }
                }
                assert forall|j: int|
                    0 <= j < i + 1 && self.sessions@[j]@.username == username@ implies exists|
                    k: int,
                |
                    0 <= k < r@.len() && r@[k]@.token == #[trigger] self.sessions@[j]@.token by {
                    if j < i {
                        let k = choose|k: int|
                            0 <= k < r_old.len() && r_old[k]@.token == self.sessions@[j]@.token;
                        assert(r@[k]@.token == self.sessions@[j]@.token);
                    } else {
                        assert(r@[r@.len() - 1]@.token == self.sessions@[j]@.token);
                    }
                }
            }
            i = i + 1;
        }
        proof {
            assert forall|t: Seq<char>|
                #[trigger] self@.contains_key(t) && self@[t].username == username@ implies exists|
                k: int,
            |
                0 <= k < r@.len() && r@[k]@.token == t by {
                let j = choose|j: int|
                    0 <= j < self.sessions@.len() && self.sessions@[j]@.token == t;
                assert(self.sessions@[j]@.username == username@);
            }
        }
        r
    }

    /// How many sessions are stored.
    pub fn len(&self) -> (n: usize)
        requires
            self.wf(),
        ensures
            n == self@.dom().len(),
    {
        proof {
            lemma_map_of_len(self.sessions@);
        }
        self.sessions.len()
    }
}

/// `r` holds exactly the stored sessions of `username`: each entry is a
/// stored record of that user, and every stored record of that user shows
/// up in `r`.
pub open spec fn lists_user_sessions(
    m: Map<Seq<char>, SessionView>,
    username: Seq<char>,
    r: Seq<Session>,
) -> bool {
    &&& forall|k: int| 0 <= k < r.len() ==> (#[trigger] r[k]@).username == username
    &&& forall|k: int| 0 <= k < r.len() ==> m.contains_key((#[trigger] r[k]@).token)
    &&& forall|k: int| 0 <= k < r.len() ==> m[(#[trigger] r[k]@).token] == r[k]@
    &&& forall|t: Seq<char>|
        #[trigger] m.contains_key(t) && m[t].username == username ==> exists|k: int|
            0 <= k < r.len() && r[k]@.token == t
}

/// With distinct tokens the fold's domain is as large as the vector.
proof fn lemma_map_of_len(s: Seq<Session>)
    requires
        distinct_tokens(s),
    ensures
        spec_map_of(s).dom().len() == s.len(),
        spec_map_of(s).dom().finite(),
    decreases s.len(),
{
    if s.len() > 0 {
        let s2 = s.drop_last();
        assert(distinct_tokens(s2));
        lemma_map_of_len(s2);
        lemma_map_of_props(s2);
        assert(!spec_map_of(s2).contains_key(s.last()@.token)) by {
            if spec_map_of(s2).contains_key(s.last()@.token) {
                let j = choose|j: int|
                    0 <= j < s2.len() && s2[j]@.token == s.last()@.token;
                assert(s[j]@.token == s[s.len() - 1]@.token);
            }
        }
        assert(spec_map_of(s).dom() =~= spec_map_of(s2).dom().insert(s.last()@.token));
        vstd::set::axiom_set_insert_finite(spec_map_of(s2).dom(), s.last()@.token);
        vstd::set::axiom_set_insert_len(spec_map_of(s2).dom(), s.last()@.token);
    }
}

} // verus!
