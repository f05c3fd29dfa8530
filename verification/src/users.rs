use vstd::prelude::*;

use crate::errors::{spec_internal, spec_not_found, spec_unprocessable, AuthError};
use crate::text::plain_field;

verus! {

/// A stored account: identity, role, and the salted one-way hash of its
/// password. The credential store owns it; the token service only reads
/// username and role.
pub struct User {
    pub id: String,
    pub username: String,
    pub role: String,
    pub hash: String,
    pub created_at: i64,
    pub updated_at: i64,
}

pub struct UserView {
    pub id: Seq<char>,
    pub username: Seq<char>,
    pub role: Seq<char>,
    pub hash: Seq<char>,
    pub created_at: int,
    pub updated_at: int,
}

impl View for User {
    type V = UserView;

    open spec fn view(&self) -> UserView {
        UserView {
            id: self.id@,
            username: self.username@,
            role: self.role@,
            hash: self.hash@,
            created_at: self.created_at as int,
            updated_at: self.updated_at as int,
        }
    }
}

impl Clone for User {
    fn clone(&self) -> (r: Self)
        ensures
            r@ == self@,
    {
        User {
            id: self.id.clone(),
            username: self.username.clone(),
            role: self.role.clone(),
            hash: self.hash.clone(),
            created_at: self.created_at,
            updated_at: self.updated_at,
        }
    }
}

// The encoded hash that rust-argon2's `hash_encoded` derives from a password
// and a salt with the default configuration: a pure function of the two.
pub uninterp spec fn argon_hash_of(password: Seq<char>, salt: Seq<u8>) -> Seq<char>;

// What rust-argon2's `verify_encoded` answers for an encoded hash and a
// password: `None` when the hash does not parse as an encoded argon2 hash,
// `Some(verdict)` otherwise. The parameters and salt are read back out of
// the encoded hash, so the whole outcome is a pure function of the two
// arguments; it is `Some(true)` for a hash derived from that password.
pub uninterp spec fn argon_check(hash: Seq<char>, password: Seq<char>) -> Option<bool>;

/// Relies on uuid::Uuid::new_v4 and its display form: 36 lowercase
/// hexadecimal and hyphen characters. Nothing is assumed about which
/// identifier comes back.
#[verifier::external_body]
pub(crate) fn fresh_uuid() -> (r: String)
    ensures
        plain_field(r@),
{
    uuid::Uuid::new_v4().to_string()
}

/// Relies on rand::random: a fresh 32-byte salt. Nothing is assumed about
/// the bytes themselves.
#[verifier::external_body]
fn gen_salt() -> (r: Vec<u8>)
    ensures
        r@.len() == 32,
{
    let salt: [u8; 32] = rand::random();
    salt.to_vec()
}

/// Relies on rust-argon2's hash_encoded with the default configuration: the
/// encoded hash is a deterministic function of password and salt, and
/// verify_encoded accepts it for the same password, as the crate documents.
/// With the default configuration the call fails only on a salt or password
/// outside the crate's length bounds, so within them success is owed.
#[verifier::external_body]
fn argon2_hash(password: &str, salt: &Vec<u8>) -> (r: Option<String>)
    requires
        salt@.len() >= 8,
    ensures
        salt@.len() <= 0xFFFF_FFFF && password@.len() <= 0xFFFF_FFFF ==> r is Some,
        r matches Some(h) ==> h@ == argon_hash_of(password@, salt@) && argon_check(h@, password@)
            == Some(true),
{
    argon2::hash_encoded(password.as_bytes(), salt.as_slice(), &argon2::Config::default()).ok()
}

/// Relies on rust-argon2's verify_encoded: the whole outcome, including
/// whether the encoded hash parses at all, is deterministic in the hash and
/// the password.
#[verifier::external_body]
fn argon2_verify(hash: &str, password: &str) -> (r: Option<bool>)
    ensures
        r == argon_check(hash@, password@),
{
    argon2::verify_encoded(hash, password.as_bytes()).ok()
}

impl User {
    /// The stored account a submission creates: a fresh identifier, the
    /// "user" role, and the raw password still sitting in `hash`, awaiting
    /// `password_hashing`.
    pub fn from_new(nu: &NewUser, now: i64) -> (u: User)
        ensures
            u@.username == nu.username@,
            u@.role == "user"@,
            u@.hash == nu.password@,
            u@.created_at == now,
            u@.updated_at == now,
            plain_field(u@.id),
    {
        User {
            id: fresh_uuid(),
            username: nu.username.clone(),
            role: String::from_str("user"),
            hash: nu.password.clone(),
            created_at: now,
            updated_at: now,
        }
    }

    /// Checks a presented password against this account's stored hash.
    /// Fails exactly when the stored hash is not a parseable encoded hash.
    pub fn password_verify(&self, password: &str) -> (r: Result<bool, AuthError>)
        ensures
            r matches Ok(b) ==> argon_check(self@.hash, password@) == Some(b),
            r is Ok <==> argon_check(self@.hash, password@) is Some,
            r matches Err(e) ==> spec_internal(e),
    {
        match argon2_verify(self.hash.as_str(), password) {
            Some(b) => Ok(b),
            None => Err(AuthError::Internal(String::from_str("failed to verify password"))),
        }
    }

    /// Replaces the raw password held in `hash` by its salted one-way hash
    /// and returns the updated account. The new hash verifies against the
    /// password it replaced; only a password beyond the primitive's length
    /// bound can make it fail.
    pub fn password_hashing(&mut self) -> (r: Result<User, AuthError>)
        ensures
            old(self)@.hash.len() <= 0xFFFF_FFFF ==> r is Ok,
            r matches Ok(u) ==> argon_check(final(self)@.hash, old(self)@.hash) == Some(true) && u@
                == final(self)@ && final(self)@ == (UserView {
                hash: final(self)@.hash,
                ..old(self)@
            }),
            r matches Err(e) ==> spec_internal(e) && final(self)@ == old(self)@,
    {
        let salt = gen_salt();
        match argon2_hash(self.hash.as_str(), &salt) {
            Some(h) => {
                self.hash = h;
                Ok(self.clone())
            },
            None => Err(
                AuthError::Internal(String::from_str("failed to create password hash")),
            ),
        }
    }

    /// Hashes a password on its own, for the password-change path; only a
    /// password beyond the primitive's length bound can make it fail.
    pub fn password_hashing_apart(password: &str) -> (r: Result<String, AuthError>)
        ensures
            password@.len() <= 0xFFFF_FFFF ==> r is Ok,
            r matches Ok(h) ==> argon_check(h@, password@) == Some(true),
            r matches Err(e) ==> spec_internal(e),
    {
        let salt = gen_salt();
        match argon2_hash(password, &salt) {
            Some(h) => Ok(h),
            None => Err(
                AuthError::Internal(String::from_str("failed to create password hash")),
            ),
        }
    }
}

/// What a registration submits: a username and a raw password, both bounded
/// and drawn from the plain identifier characters.
pub struct NewUser {
    pub username: String,
    pub password: String,
}

pub open spec fn spec_valid_username(s: Seq<char>) -> bool {
    plain_field(s) && 4 <= s.len() <= 10
}

pub open spec fn spec_valid_password(s: Seq<char>) -> bool {
    plain_field(s) && 8 <= s.len() <= 20
}

impl NewUser {
    /// Accepts exactly the submissions whose username and password have the
    /// right length and character class.
    pub fn validate(&self) -> (r: Result<(), AuthError>)
        ensures
            r is Ok <==> spec_valid_username(self.username@) && spec_valid_password(
                self.password@,
            ),
            r matches Err(e) ==> spec_unprocessable(e),
    {
        let ulen = self.username.as_str().unicode_len();
        let plen = self.password.as_str().unicode_len();
        if !(4 <= ulen && ulen <= 10) || !crate::text::is_plain_field(self.username.as_str()) {
            return Err(AuthError::Unprocessable(String::from_str("invalid username")));
        }
        if !(8 <= plen && plen <= 20) || !crate::text::is_plain_field(self.password.as_str()) {
            return Err(AuthError::Unprocessable(String::from_str("invalid password")));
        }
        Ok(())
    }
}

/// The credential store, modelled as a map from username to account; at
/// most one account exists per username.
pub struct UserStore {
    users: Vec<User>,
}

pub open spec fn distinct_usernames(s: Seq<User>) -> bool {
    forall|i: int, j: int| 0 <= i < j < s.len() ==> s[i]@.username != s[j]@.username
}

/// Every stored account has a plain username and role, so tokens can be
/// minted for it.
pub open spec fn users_plain(s: Seq<User>) -> bool {
    forall|i: int|
        0 <= i < s.len() ==> plain_field((#[trigger] s[i]@).username) && plain_field(s[i]@.role)
}

pub open spec fn spec_user_map_of(s: Seq<User>) -> Map<Seq<char>, UserView>
    decreases s.len(),
{
    if s.len() == 0 {
        Map::empty()
    } else {
        spec_user_map_of(s.drop_last()).insert(s.last()@.username, s.last()@)
    }
}

proof fn lemma_user_map_props(s: Seq<User>)
    requires
        distinct_usernames(s),
    ensures
        forall|i: int|
            0 <= i < s.len() ==> spec_user_map_of(s).contains_key(#[trigger] s[i]@.username)
                && spec_user_map_of(s)[s[i]@.username] == s[i]@,
        forall|t: Seq<char>|
            #[trigger] spec_user_map_of(s).contains_key(t) ==> exists|i: int|
                0 <= i < s.len() && s[i]@.username == t,
    decreases s.len(),
{
    if s.len() > 0 {
        let s2 = s.drop_last();
        assert(distinct_usernames(s2)) by {
            assert(forall|i: int, j: int|
                0 <= i < j < s2.len() ==> s[i]@.username != s[j]@.username);
        }
        lemma_user_map_props(s2);
        assert forall|i: int|
            0 <= i < s.len() implies spec_user_map_of(s).contains_key(#[trigger] s[i]@.username)
            && spec_user_map_of(s)[s[i]@.username] == s[i]@ by {
            if i < s.len() - 1 {
                assert(s2[i] == s[i]);
                assert(s[i]@.username != s.last()@.username);
            }
        }
        assert forall|t: Seq<char>|
            #[trigger] spec_user_map_of(s).contains_key(t) implies exists|i: int|
            0 <= i < s.len() && s[i]@.username == t by {
            if t == s.last()@.username {
                assert(s[s.len() - 1]@.username == t);
            } else {
                assert(spec_user_map_of(s2).contains_key(t));
                let i = choose|i: int| 0 <= i < s2.len() && s2[i]@.username == t;
                assert(s2[i] == s[i]);
                assert(s[i]@.username == t);
            }
        }
    }
}

proof fn lemma_user_map_remove(s: Seq<User>, i: int)
    requires
        distinct_usernames(s),
        0 <= i < s.len(),
    ensures
        spec_user_map_of(s.remove(i)) == spec_user_map_of(s).remove(s[i]@.username),
        distinct_usernames(s.remove(i)),
    decreases s.len(),
{
    let t = s[i]@.username;
    lemma_user_map_props(s);
    assert(distinct_usernames(s.remove(i))) by {
        assert forall|a: int, b: int|
            0 <= a < b < s.remove(i).len() implies s.remove(i)[a]@.username != s.remove(
            i,
        )[b]@.username by {
            let a0: int = if a < i {
                a
            } else {
                a + 1
            };
            let b0: int = if b < i {
                b
            } else {
                b + 1
            };
            assert(s.remove(i)[a] == s[a0] && s.remove(i)[b] == s[b0]);
        }
    }
    if i == s.len() - 1 {
        let s2 = s.drop_last();
        assert(s.remove(i) =~= s2);
        assert(distinct_usernames(s2));
        lemma_user_map_props(s2);
        assert(!spec_user_map_of(s2).contains_key(t)) by {
            if spec_user_map_of(s2).contains_key(t) {
                let j = choose|j: int| 0 <= j < s2.len() && s2[j]@.username == t;
                assert(s[j]@.username == s[i]@.username);
            }
        }
        assert(spec_user_map_of(s.remove(i)) =~= spec_user_map_of(s).remove(t));
    } else {
        let s2 = s.drop_last();
        assert(distinct_usernames(s2));
        assert(s.remove(i).drop_last() =~= s2.remove(i));
        assert(s.remove(i).last() == s.last());
        lemma_user_map_remove(s2, i);
        assert(s2[i] == s[i]);
        assert(spec_user_map_of(s.remove(i)) == spec_user_map_of(s2.remove(i)).insert(
            s.last()@.username,
            s.last()@,
        ));
        assert(s.last()@.username != t);
        assert(spec_user_map_of(s2).remove(t).insert(s.last()@.username, s.last()@)
            =~= spec_user_map_of(s2).insert(s.last()@.username, s.last()@).remove(t));
    }
}

impl View for UserStore {
    type V = Map<Seq<char>, UserView>;

    closed spec fn view(&self) -> Map<Seq<char>, UserView> {
        spec_user_map_of(self.users@)
    }
}

impl UserStore {
    /// Usernames of stored accounts never repeat, and their username and
    /// role fields stay within the plain identifier characters.
    pub closed spec fn wf(&self) -> bool {
        distinct_usernames(self.users@) && users_plain(self.users@)
    }

    pub fn new() -> (s: UserStore)
        ensures
            s.wf(),
            s@ == Map::<Seq<char>, UserView>::empty(),
    {
        UserStore { users: Vec::new() }
    }

    /// Looks a stored account up under `i`'s position-free key. Absent
    /// usernames answer with the taxonomy's NotFound("user").
    pub fn get_by_username(&self, username: &str) -> (r: Result<User, AuthError>)
        requires
            self.wf(),
        ensures
            r matches Ok(u) ==> self@.contains_key(username@) && u@ == self@[username@]
                && u@.username == username@ && plain_field(u@.username) && plain_field(u@.role),
            r matches Err(e) ==> !self@.contains_key(username@) && spec_not_found(e, "user"@),
    {
        match self.find_index(username) {
            Some(i) => Ok(self.users[i].clone()),
            None => Err(AuthError::NotFound(String::from_str("user"))),
        }
    }

    /// The index holding `username`, when one does.
    fn find_index(&self, username: &str) -> (r: Option<usize>)
        requires
            self.wf(),
        ensures
            r matches Some(i) ==> i < self.users@.len() && self.users@[i as int]@.username
                == username@ && self@.contains_key(username@) && self@[username@]
                == self.users@[i as int]@,
            r is None ==> !self@.contains_key(username@),
    {
        proof {
            lemma_user_map_props(self.users@);
        }
        let needle = username.to_owned();
        let n = self.users.len();
        let mut i: usize = 0;
        while i < n
            invariant
                needle@ == username@,
                self.wf(),
                n == self.users@.len(),
                0 <= i <= n,
                forall|j: int| 0 <= j < i ==> (#[trigger] self.users@[j]@).username != username@,
                forall|j: int|
                    0 <= j < self.users@.len() ==> self@.contains_key(
                        (#[trigger] self.users@[j]@).username,
                    ) && self@[self.users@[j]@.username] == self.users@[j]@,
                forall|t: Seq<char>|
                    #[trigger] self@.contains_key(t) ==> exists|j: int|
                        0 <= j < self.users@.len() && self.users@[j]@.username == t,
            decreases n - i,
        {
            if self.users[i].username.eq(&needle) {
                return Some(i);
            }
            i = i + 1;
        }
        proof {
            if self@.contains_key(username@) {
                let j = choose|j: int|
                    0 <= j < self.users@.len() && self.users@[j]@.username == username@;
                assert(false);
            }
        }
        None
    }

    /// Stores a new account. A taken username is refused and the store is
    /// left as it was.
    pub fn create(&mut self, u: User) -> (r: Result<(), AuthError>)
        requires
            old(self).wf(),
            plain_field(u@.username),
            plain_field(u@.role),
        ensures
            final(self).wf(),
            r is Ok <==> !old(self)@.contains_key(u@.username),
            r is Ok ==> final(self)@ == old(self)@.insert(u@.username, u@),
            r matches Err(e) ==> final(self)@ == old(self)@ && spec_unprocessable(e),
    {
        match self.find_index(u.username.as_str()) {
            Some(_) => Err(AuthError::Unprocessable(String::from_str("username is taken"))),
            None => {
                proof {
                    lemma_user_map_props(self.users@);
                }
                let ghost pre = self.users@;
                self.users.push(u);
                proof {
                    assert(self.users@.drop_last() =~= pre);
                    assert forall|i: int, j: int|
                        0 <= i < j < self.users@.len() implies self.users@[i]@.username
                        != self.users@[j]@.username by {
                        if j == self.users@.len() - 1 {
                            assert(self.users@[i] == pre[i]);
                            if pre[i]@.username == self.users@[j]@.username {
                                assert(old(self)@.contains_key(pre[i]@.username));
                            }
                        }
                    }
                }
                Ok(())
            },
        }
    }

    /// Replaces the stored password hash of an account.
    pub fn update_password(&mut self, username: &str, new_hash: String, now: i64) -> (r: Result<
        (),
        AuthError,
    >)
        requires
            old(self).wf(),
        ensures
            final(self).wf(),
            r is Ok <==> old(self)@.contains_key(username@),
            r is Ok ==> final(self)@ == old(self)@.insert(
                username@,
                UserView { hash: new_hash@, updated_at: now as int, ..old(self)@[username@] },
            ),
            r matches Err(e) ==> final(self)@ == old(self)@ && spec_not_found(e, "user"@),
    {
        match self.find_index(username) {
            Some(i) => {
                proof {
                    lemma_user_map_remove(self.users@, i as int);
                }
                let mut u = self.users.remove(i);
                u.hash = new_hash;
                u.updated_at = now;
                self.finish_replace(u, Ghost(username@));
                Ok(())
            },
            None => Err(AuthError::NotFound(String::from_str("user"))),
        }
    }

    /// Replaces the stored role of an account.
    pub fn privilege_set(&mut self, username: &str, level: String, now: i64) -> (r: Result<
        (),
        AuthError,
    >)
        requires
            old(self).wf(),
            plain_field(level@),
        ensures
            final(self).wf(),
            r is Ok <==> old(self)@.contains_key(username@),
            r is Ok ==> final(self)@ == old(self)@.insert(
                username@,
                UserView { role: level@, updated_at: now as int, ..old(self)@[username@] },
            ),
            r matches Err(e) ==> final(self)@ == old(self)@ && spec_not_found(e, "user"@),
    {
        match self.find_index(username) {
            Some(i) => {
                proof {
                    lemma_user_map_remove(self.users@, i as int);
                }
                let mut u = self.users.remove(i);
                u.role = level;
                u.updated_at = now;
                self.finish_replace(u, Ghost(username@));
                Ok(())
            },
            None => Err(AuthError::NotFound(String::from_str("user"))),
        }
    }

    /// Pushes a record whose username is known to be absent.
    fn finish_replace(&mut self, u: User, key: Ghost<Seq<char>>)
        requires
            old(self).wf(),
            !old(self)@.contains_key(u@.username),
            u@.username == key@,
            plain_field(u@.username),
            plain_field(u@.role),
        ensures
            final(self).wf(),
            final(self)@ == old(self)@.insert(key@, u@),
    {
        proof {
            lemma_user_map_props(self.users@);
        }
        let ghost pre = self.users@;
        self.users.push(u);
        proof {
            assert(self.users@.drop_last() =~= pre);
            assert forall|i: int, j: int|
                0 <= i < j < self.users@.len() implies self.users@[i]@.username
                != self.users@[j]@.username by {
                if j == self.users@.len() - 1 {
                    assert(self.users@[i] == pre[i]);
                    if pre[i]@.username == self.users@[j]@.username {
                        assert(old(self)@.contains_key(pre[i]@.username));
                    }
                }
            }
        }
    }

    /// Deletes an account outright and reports how many records went away.
    pub fn del_by_username(&mut self, username: &str) -> (n: usize)
        requires
            old(self).wf(),
        ensures
            final(self).wf(),
            final(self)@ == old(self)@.remove(username@),
            n == 1 <==> old(self)@.contains_key(username@),
            n == 0 <==> !old(self)@.contains_key(username@),
    {
        match self.find_index(username) {
            Some(i) => {
                proof {
                    lemma_user_map_remove(self.users@, i as int);
                }
                self.users.remove(i);
                1
            },
            None => {
                proof {
                    assert(self@ =~= old(self)@.remove(username@));
                }
                0
            },
        }
    }
}

} // verus!
