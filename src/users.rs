use vstd::prelude::*;
use vstd::string::*;

verus! {

/// An identity record. The password hash never leaves the service.
#[derive(Debug)]
pub struct User {
    pub id: u128,
    pub username: String,
    pub email: String,
    pub password_hash: String,
    pub active: bool,
    pub code: Option<String>,
    pub access_token: Option<String>,
    /// Seconds since the Unix epoch.
    pub created_at: i64,
    /// Seconds since the Unix epoch.
    pub updated_at: i64,
}

/// A signup request.
#[derive(Debug, Clone)]
pub struct NewUser {
    pub username: String,
    pub password: String,
    pub email: String,
}

/// A new authorization code for a user.
#[derive(Debug, Clone)]
pub struct UpdateCode {
    pub code: String,
}

/// The upstream access token stored for a user.
#[derive(Debug, Clone)]
pub struct GetToken {
    pub access_token: String,
}

/// Which uniqueness rule a new user breaks.
#[derive(Debug, Clone, Copy, PartialEq, Eq, Structural)]
pub enum CreateError {
    EmailTaken,
    UsernameTaken,
    UsernameOrEmailTaken,
    IdTaken,
}

/// Whether the address is a syntactically valid email address.
pub uninterp spec fn email_valid(s: Seq<char>) -> bool;

/// Relies on validator::validate_email: the outcome depends on the text alone.
#[verifier::external_body]
fn check_email(s: &str) -> (r: bool)
    ensures
        r == email_valid(s@),
{
    validator::validate_email(s)
}

/// Which field of a signup request is refused first.
#[derive(Debug, Clone, Copy, PartialEq, Eq, Structural)]
pub enum InvalidField {
    Username,
    Email,
    Password,
}

/// The checks of a signup request, in the order they are reported: a username
/// of at least three characters, a valid email, a password of at least three
/// characters.
pub open spec fn validation_of(username: Seq<char>, password: Seq<char>, email: Seq<char>) -> Result<(), InvalidField> {
    if username.len() < 3 {
        Err(InvalidField::Username)
    } else if !email_valid(email) {
        Err(InvalidField::Email)
    } else if password.len() < 3 {
        Err(InvalidField::Password)
    } else {
        Ok(())
    }
}

impl NewUser {
    pub fn validate(&self) -> (r: Result<(), InvalidField>)
        ensures
            r == validation_of(self.username@, self.password@, self.email@),
    {
        if self.username.as_str().unicode_len() < 3 {
            Err(InvalidField::Username)
        } else if !check_email(self.email.as_str()) {
            Err(InvalidField::Email)
        } else if self.password.as_str().unicode_len() < 3 {
            Err(InvalidField::Password)
        } else {
            Ok(())
        }
    }
}

fn clone_opt(o: &Option<String>) -> (r: Option<String>)
    ensures
        r == *o,
{
    match o {
        Some(s) => Some(s.clone()),
        None => None,
    }
}

impl User {
    pub fn duplicate(&self) -> (r: User)
        ensures
            r == *self,
    {
        User {
            id: self.id,
            username: self.username.clone(),
            email: self.email.clone(),
            password_hash: self.password_hash.clone(),
            active: self.active,
            code: clone_opt(&self.code),
            access_token: clone_opt(&self.access_token),
            created_at: self.created_at,
            updated_at: self.updated_at,
        }
    }
}

/// No two users share an id, a username or an email.
pub open spec fn unique_keys(s: Seq<User>) -> bool {
    forall|i: int, j: int|
        0 <= i < s.len() && 0 <= j < s.len() && i != j ==> {
            &&& s[i].id != s[j].id
            &&& s[i].username@ != s[j].username@
            &&& s[i].email@ != s[j].email@
        }
}

pub open spec fn has_username(s: Seq<User>, name: Seq<char>) -> bool {
    exists|i: int| 0 <= i < s.len() && s[i].username@ == name
}

pub open spec fn has_email(s: Seq<User>, email: Seq<char>) -> bool {
    exists|i: int| 0 <= i < s.len() && s[i].email@ == email
}

pub open spec fn has_id(s: Seq<User>, id: u128) -> bool {
    exists|i: int| 0 <= i < s.len() && s[i].id == id
}

/// Why adding a user with these keys is refused, if it is.
pub open spec fn conflict_of(s: Seq<User>, id: u128, username: Seq<char>, email: Seq<char>) -> Option<CreateError> {
    if has_username(s, username) && has_email(s, email) {
        Some(CreateError::UsernameOrEmailTaken)
    } else if has_email(s, email) {
        Some(CreateError::EmailTaken)
    } else if has_username(s, username) {
        Some(CreateError::UsernameTaken)
    } else if has_id(s, id) {
        Some(CreateError::IdTaken)
    } else {
        None
    }
}

/// The record a successful signup stores: active, with no code or token yet.
pub open spec fn fresh_user(u: User, id: u128, username: Seq<char>, email: Seq<char>, hash: Seq<char>, now: i64) -> bool {
    &&& u.id == id
    &&& u.username@ == username
    &&& u.email@ == email
    &&& u.password_hash@ == hash
    &&& u.active
    &&& u.code is None
    &&& u.access_token is None
    &&& u.created_at == now
    &&& u.updated_at == now
}

/// `u` with its authorization code replaced.
pub open spec fn with_code(u: User, code: Option<String>, now: i64) -> User {
    User { code: code, updated_at: now, ..u }
}

/// `u` with its upstream access token replaced.
pub open spec fn with_token(u: User, token: Option<String>, now: i64) -> User {
    User { access_token: token, updated_at: now, ..u }
}

/// The users of the service, kept in the order they signed up.
pub struct UserRepository {
    users: Vec<User>,
}

impl View for UserRepository {
    type V = Seq<User>;

    closed spec fn view(&self) -> Seq<User> {
        self.users@
    }
}

impl UserRepository {
    pub open spec fn wf(&self) -> bool {
        unique_keys(self@)
    }

    pub fn new() -> (r: UserRepository)
        ensures
            r@ == Seq::<User>::empty(),
            r.wf(),
    {
        UserRepository { users: Vec::new() }
    }

    fn index_of_id(&self, id: u128) -> (r: Option<usize>)
        ensures
            r matches Some(i) ==> i < self@.len() && self@[i as int].id == id,
            r is None ==> !has_id(self@, id),
    {
        let mut i: usize = 0;
        while i < self.users.len()
            invariant
                i <= self@.len(),
                self@ == self.users@,
                forall|j: int| 0 <= j < i ==> self.users@[j].id != id,
            decreases self.users.len() - i,
        {
            if self.users[i].id == id {
                return Some(i);
            }
            i += 1;
        }
        None
    }

    /// Adds a user, unless its username, email or id is already taken.
    pub fn create(&mut self, id: u128, new_user: NewUser, password_hash: String, now: i64) -> (r: Result<User, CreateError>)
        requires
            old(self).wf(),
        ensures
            final(self).wf(),
            r matches Err(e) ==> conflict_of(old(self)@, id, new_user.username@, new_user.email@) == Some(e) && final(self)@ == old(self)@,
            r is Ok <==> conflict_of(old(self)@, id, new_user.username@, new_user.email@) is None,
            r matches Ok(u) ==> fresh_user(u, id, new_user.username@, new_user.email@, password_hash@, now) && final(self)@ == old(self)@.push(u),
    {
        let mut name_hit = false;
        let mut email_hit = false;
        let mut id_hit = false;
        let mut i: usize = 0;
        while i < self.users.len()
            invariant
                i <= self@.len(),
                self@ == self.users@,
                name_hit == exists|j: int| 0 <= j < i && self@[j].username@ == new_user.username@,
                email_hit == exists|j: int| 0 <= j < i && self@[j].email@ == new_user.email@,
                id_hit == exists|j: int| 0 <= j < i && self@[j].id == id,
            decreases self.users.len() - i,
        {
            if self.users[i].username == new_user.username {
                name_hit = true;
            }
            if self.users[i].email == new_user.email {
                email_hit = true;
            }
            if self.users[i].id == id {
                id_hit = true;
            }
            i += 1;
        }
        if name_hit && email_hit {
            return Err(CreateError::UsernameOrEmailTaken);
        } else if email_hit {
            return Err(CreateError::EmailTaken);
        } else if name_hit {
            return Err(CreateError::UsernameTaken);
        } else if id_hit {
            return Err(CreateError::IdTaken);
        }
        let user = User {
            id,
            username: new_user.username,
            email: new_user.email,
            password_hash,
            active: true,
            code: None,
            access_token: None,
            created_at: now,
            updated_at: now,
        };
        let stored = user.duplicate();
        self.users.push(stored);
        Ok(user)
    }

    pub fn find_by_username(&self, username: &str) -> (r: Option<User>)
        requires
            self.wf(),
        ensures
            r is Some <==> has_username(self@, username@),
            r matches Some(u) ==> self@.contains(u) && u.username@ == username@,
    {
        let wanted = String::from_str(username);
        let mut i: usize = 0;
        while i < self.users.len()
            invariant
                i <= self@.len(),
                self@ == self.users@,
                wanted@ == username@,
                forall|j: int| 0 <= j < i ==> self.users@[j].username@ != username@,
            decreases self.users.len() - i,
        {
            if self.users[i].username == wanted {
                return Some(self.users[i].duplicate());
            }
            i += 1;
        }
        None
    }

    pub fn find_by_id(&self, id: u128) -> (r: Option<User>)
        requires
            self.wf(),
        ensures
            r is Some <==> has_id(self@, id),
            r matches Some(u) ==> self@.contains(u) && u.id == id,
    {
        match self.index_of_id(id) {
            Some(i) => Some(self.users[i].duplicate()),
            None => None,
        }
    }

    /// Replaces the authorization code of user `id`; the record as updated, if any.
    pub fn update_code(&mut self, id: u128, code: String, now: i64) -> (r: Option<User>)
        requires
            old(self).wf(),
        ensures
            final(self).wf(),
            r is Some <==> has_id(old(self)@, id),
            r is None ==> final(self)@ == old(self)@,
            r matches Some(u) ==> exists|k: int| 0 <= k < old(self)@.len() && old(self)@[k].id == id
                && u == with_code(old(self)@[k], Some(code), now)
                && final(self)@ == old(self)@.update(k, u),
    {
        match self.index_of_id(id) {
            Some(i) => {
                let mut u = self.users[i].duplicate();
                u.code = Some(code);
                u.updated_at = now;
                let stored = u.duplicate();
                self.users.set(i, stored);
                proof {
                    assert(self@ == old(self)@.update(i as int, u));
                }
                Some(u)
            },
            None => None,
        }
    }

    /// Replaces the upstream access token of user `id`; the record as updated, if any.
    pub fn update_token(&mut self, id: u128, access_token: String, now: i64) -> (r: Option<User>)
        requires
            old(self).wf(),
        ensures
            final(self).wf(),
            r is Some <==> has_id(old(self)@, id),
            r is None ==> final(self)@ == old(self)@,
            r matches Some(u) ==> exists|k: int| 0 <= k < old(self)@.len() && old(self)@[k].id == id
                && u == with_token(old(self)@[k], Some(access_token), now)
                && final(self)@ == old(self)@.update(k, u),
    {
        match self.index_of_id(id) {
            Some(i) => {
                let mut u = self.users[i].duplicate();
                u.access_token = Some(access_token);
                u.updated_at = now;
                let stored = u.duplicate();
                self.users.set(i, stored);
                proof {
                    assert(self@ == old(self)@.update(i as int, u));
                }
                Some(u)
            },
            None => None,
        }
    }

    /// The upstream access token stored for user `id`, if the user exists and has one.
    pub fn get_token(&self, id: u128) -> (r: Option<GetToken>)
        requires
            self.wf(),
        ensures
            r is Some <==> exists|k: int| 0 <= k < self@.len() && self@[k].id == id && self@[k].access_token is Some,
            r matches Some(t) ==> exists|k: int| 0 <= k < self@.len() && self@[k].id == id
                && self@[k].access_token == Some(t.access_token),
    {
        match self.index_of_id(id) {
            Some(i) => match &self.users[i].access_token {
                Some(t) => Some(GetToken { access_token: t.clone() }),
                None => None,
            },
            None => None,
        }
    }
}

} // verus!

verus! {

/// The user named `name`, when there is one.
pub open spec fn user_named(s: Seq<User>, name: Seq<char>) -> User {
    s[choose|i: int| 0 <= i < s.len() && s[i].username@ == name]
}

/// The user whose id is `id`, when there is one.
pub open spec fn user_with_id(s: Seq<User>, id: u128) -> User {
    s[choose|i: int| 0 <= i < s.len() && s[i].id == id]
}

/// The access token stored for user `id`; none for an unknown user.
pub open spec fn stored_token(s: Seq<User>, id: u128) -> Option<String> {
    if has_id(s, id) {
        user_with_id(s, id).access_token
    } else {
        None
    }
}

pub proof fn lemma_named_unique(s: Seq<User>, k: int, name: Seq<char>)
    requires
        unique_keys(s),
        0 <= k < s.len(),
        s[k].username@ == name,
    ensures
        has_username(s, name),
        user_named(s, name) == s[k],
{
}

pub proof fn lemma_id_unique(s: Seq<User>, k: int, id: u128)
    requires
        unique_keys(s),
        0 <= k < s.len(),
        s[k].id == id,
    ensures
        has_id(s, id),
        user_with_id(s, id) == s[k],
{
}

/// A valid signup is taken once: after a user is added under fresh keys, a
/// second signup with the same username, the same email, or both, is refused
/// with the matching kind, and one with fresh keys is not.
pub proof fn lemma_signup_once(s: Seq<User>, u: User, id: u128, username: Seq<char>, email: Seq<char>)
    requires
        unique_keys(s),
        conflict_of(s, u.id, u.username@, u.email@) is None,
    ensures
        unique_keys(s.push(u)),
        username == u.username@ && email == u.email@ ==> conflict_of(s.push(u), id, username, email) == Some(CreateError::UsernameOrEmailTaken),
        username == u.username@ && email != u.email@ && !has_email(s, email) ==> conflict_of(s.push(u), id, username, email) == Some(CreateError::UsernameTaken),
        username != u.username@ && email == u.email@ && !has_username(s, username) ==> conflict_of(s.push(u), id, username, email) == Some(CreateError::EmailTaken),
        username != u.username@ && email != u.email@ && id != u.id ==> conflict_of(s.push(u), id, username, email) == conflict_of(s, id, username, email),
{
    let t = s.push(u);
    assert(t[s.len() as int] == u);
    assert forall|i: int| 0 <= i < s.len() implies t[i] == s[i] by {}
    if username == u.username@ {
        assert(has_username(t, username));
    }
    if email == u.email@ {
        assert(has_email(t, email));
    }
    if !has_email(s, email) && email != u.email@ {
        assert(!has_email(t, email)) by {
            if has_email(t, email) {
                let i = choose|i: int| 0 <= i < t.len() && t[i].email@ == email;
                assert(i < s.len());
            }
        }
    }
    if !has_username(s, username) && username != u.username@ {
        assert(!has_username(t, username)) by {
            if has_username(t, username) {
                let i = choose|i: int| 0 <= i < t.len() && t[i].username@ == username;
                assert(i < s.len());
            }
        }
    }
    if username != u.username@ && email != u.email@ && id != u.id {
        assert(has_username(t, username) == has_username(s, username)) by {
            if has_username(t, username) {
                let i = choose|i: int| 0 <= i < t.len() && t[i].username@ == username;
                assert(i < s.len());
            }
            if has_username(s, username) {
                let i = choose|i: int| 0 <= i < s.len() && s[i].username@ == username;
                assert(t[i] == s[i]);
            }
        }
        assert(has_email(t, email) == has_email(s, email)) by {
            if has_email(t, email) {
                let i = choose|i: int| 0 <= i < t.len() && t[i].email@ == email;
                assert(i < s.len());
            }
            if has_email(s, email) {
                let i = choose|i: int| 0 <= i < s.len() && s[i].email@ == email;
                assert(t[i] == s[i]);
            }
        }
        assert(has_id(t, id) == has_id(s, id)) by {
            if has_id(t, id) {
                let i = choose|i: int| 0 <= i < t.len() && t[i].id == id;
                assert(i < s.len());
            }
            if has_id(s, id) {
                let i = choose|i: int| 0 <= i < s.len() && s[i].id == id;
                assert(t[i] == s[i]);
            }
        }
    }
    assert(unique_keys(t)) by {
        assert forall|i: int, j: int| 0 <= i < t.len() && 0 <= j < t.len() && i != j implies {
            &&& t[i].id != t[j].id
            &&& t[i].username@ != t[j].username@
            &&& t[i].email@ != t[j].email@
        } by {
            if i == s.len() {
                assert(!(s[j].id == u.id));
                assert(!(s[j].username@ == u.username@));
                assert(!(s[j].email@ == u.email@));
            } else if j == s.len() {
                assert(!(s[i].id == u.id));
                assert(!(s[i].username@ == u.username@));
                assert(!(s[i].email@ == u.email@));
            }
        }
    }
}

} // verus!
