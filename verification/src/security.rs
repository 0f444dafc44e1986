//! Authentication, role-based permissions and access policy.
pub mod access;
pub mod redaction_laws;

use vstd::prelude::*;
use sha2::Digest;
use vstd::utf8::{encode_scalar, encode_utf8};
use crate::text::{
    chars_of, chars_eq, str_eq, string_from_str, string_from_chars, hex_bytes, hex_bytes_string,
    index_of_from, index_of_char_from, contains_spec, contains_chars, lemma_index_of_from_bounds,
    lowercase, to_lowercase, bytes_occur_at, bytes_occur_at_exec,
};

verus! {

/// The role a user acts in.
#[derive(Debug, Clone, Copy, PartialEq, Eq, Structural)]
pub enum UserRole {
    User,
    Admin,
    SupportOperator,
    Auditor,
}

/// One account of the local credentials database.
#[derive(Debug, Clone)]
pub struct UserCredentials {
    pub username: String,
    pub role: UserRole,
    /// Lower-case hexadecimal SHA-256 of the password followed by the salt.
    pub password_hash: String,
    pub salt: String,
}

/// The local credentials database.
#[derive(Debug, Clone)]
pub struct CredentialsDatabase {
    pub users: Vec<UserCredentials>,
}

/// Authenticates users and answers permission questions.
pub struct SecurityManager {
    db: CredentialsDatabase,
}

/// Why an authentication attempt was refused.
#[derive(Debug, Clone, Copy, PartialEq, Eq, Structural)]
pub enum AuthError {
    /// The secret was empty.
    EmptyPassword,
    /// Neither the local database nor the system accepted the secret.
    InvalidCredentials,
}

impl AuthError {
    pub open spec fn message_spec(self) -> Seq<char> {
        match self {
            AuthError::EmptyPassword => "Authentication failed: Empty password"@,
            AuthError::InvalidCredentials => "Authentication failed: Invalid credentials"@,
        }
    }

    /// The human-readable text of the refusal.
    pub fn message(&self) -> (r: String)
        ensures
            r@ == self.message_spec(),
    {
        match self {
            AuthError::EmptyPassword => string_from_str("Authentication failed: Empty password"),
            AuthError::InvalidCredentials => string_from_str("Authentication failed: Invalid credentials"),
        }
    }
}

/// What SHA-256 computes on a byte string.
pub uninterp spec fn sha256_digest(data: Seq<u8>) -> Seq<u8>;

/// SHA-256 of a byte string; wraps `sha2::Sha256::digest`. The digest is
/// named, not described; its length, 32 bytes, is the output size the type
/// declares.
#[verifier::external_body]
fn sha256(data: &[u8]) -> (r: Vec<u8>)
    ensures
        r@ == sha256_digest(data@),
        r@.len() == 32,
{
    sha2::Sha256::digest(data).to_vec()
}

/// The stored form of a password: lower-case hex of SHA-256 over the UTF-8
/// bytes of the password followed by those of the salt.
pub open spec fn password_hash_spec(password: Seq<char>, salt: Seq<char>) -> Seq<char> {
    hex_bytes(sha256_digest(vstd::utf8::encode_utf8(password) + vstd::utf8::encode_utf8(salt)))
}

/// Hash a password with its salt.
pub fn hash_password(password: &str, salt: &str) -> (r: String)
    ensures
        r@ == password_hash_spec(password@, salt@),
{
    let mut bytes: Vec<u8> = <str as vstd::string::StrSliceExecFns>::as_bytes_vec(password);
    let mut salt_bytes: Vec<u8> = <str as vstd::string::StrSliceExecFns>::as_bytes_vec(salt);
    bytes.append(&mut salt_bytes);
    let digest = sha256(bytes.as_slice());
    hex_bytes_string(&digest)
}

impl UserCredentials {
    /// The account for `username` with `role`, whose password is `password`.
    pub open spec fn is_account(self, username: Seq<char>, role: UserRole, password: Seq<char>, salt: Seq<char>) -> bool {
        &&& self.username@ == username
        &&& self.role == role
        &&& self.salt@ == salt
        &&& self.password_hash@ == password_hash_spec(password, salt)
    }

    fn account(username: &str, role: UserRole, password: &str, salt: String) -> (r: UserCredentials)
        ensures
            r.is_account(username@, role, password@, salt@),
    {
        let password_hash = hash_password(password, salt.as_str());
        UserCredentials { username: string_from_str(username), role, password_hash, salt }
    }
}

/// The first account of `users` whose name is `username`.
pub open spec fn first_account(users: Seq<UserCredentials>, username: Seq<char>) -> Option<int>
    decreases users.len(),
{
    if users.len() == 0 {
        None
    } else {
        match first_account(users.drop_last(), username) {
            Some(i) => Some(i),
            None => if users.last().username@ == username { Some(users.len() - 1) } else { None },
        }
    }
}

/// Whether the local database accepts `secret` for `username`, and with
/// which role.
pub open spec fn local_role(users: Seq<UserCredentials>, username: Seq<char>, secret: Seq<char>) -> Option<UserRole> {
    match first_account(users, username) {
        Some(i) => if password_hash_spec(secret, users[i].salt@) == users[i].password_hash@ {
            Some(users[i].role)
        } else {
            None
        },
        None => None,
    }
}

/// Whether `role` may perform `action`.
pub open spec fn permits(role: UserRole, action: Seq<char>) -> bool {
    match role {
        UserRole::Admin => true,
        UserRole::Auditor => action == "view_logs"@ || action == "export_audit"@,
        UserRole::SupportOperator => action == "connect"@ || action == "view_session"@ || action == "clipboard_sync"@,
        UserRole::User => action == "connect"@ || action == "clipboard_sync"@,
    }
}

proof fn lemma_first_account_found(users: Seq<UserCredentials>, username: Seq<char>, i: int)
    requires
        0 <= i < users.len(),
        users[i].username@ == username,
        forall|j: int| 0 <= j < i ==> users[j].username@ != username,
    ensures
        first_account(users, username) == Some(i),
    decreases users.len(),
{
    if i < users.len() - 1 {
        lemma_first_account_found(users.drop_last(), username, i);
    } else {
        lemma_first_account_absent(users.drop_last(), username);
    }
}

proof fn lemma_first_account_absent(users: Seq<UserCredentials>, username: Seq<char>)
    requires
        forall|j: int| 0 <= j < users.len() ==> users[j].username@ != username,
    ensures
        first_account(users, username) == None::<int>,
    decreases users.len(),
{
    if users.len() > 0 {
        lemma_first_account_absent(users.drop_last(), username);
    }
}

/// The text that replaces a secret value.
pub open spec fn redaction_marker() -> Seq<char> {
    "[REDACTED]"@
}

/// The number of bytes of the UTF-8 encoding of `c`.
pub open spec fn utf8_width(c: char) -> int {
    encode_scalar(c as u32).len() as int
}

/// The index of the character of `s` whose UTF-8 encoding starts at byte
/// `pos` (the length of `s` for the end); `None` when `pos` falls inside a
/// character or beyond the end.
pub open spec fn char_index_at_byte(s: Seq<char>, pos: int) -> Option<int>
    decreases s.len(),
{
    if pos == 0 {
        Some(0)
    } else if pos < 0 || s.len() == 0 {
        None
    } else if pos < utf8_width(s[0]) {
        None
    } else {
        match char_index_at_byte(s.drop_first(), pos - utf8_width(s[0])) {
            Some(i) => Some(i + 1),
            None => None,
        }
    }
}

/// Replace what the first double-quoted span after the first `=` at or
/// after character `pos` encloses.
pub open spec fn redact_value(s: Seq<char>, pos: int) -> Seq<char> {
    match index_of_from(s, '=', pos) {
        None => s,
        Some(eq) => match index_of_from(s, '"', eq) {
            None => s,
            Some(open) => match index_of_from(s, '"', open + 1) {
                None => s,
                Some(close) => s.subrange(0, open + 1) + redaction_marker() + s.subrange(close, s.len() as int),
            },
        },
    }
}

/// Whether the occurrence of a key of length `n` at byte `p` of `s` is
/// followed by `_`: then it is part of a structural name such as
/// `password_hash`, not the key itself.
pub open spec fn followed_by_underscore(s: Seq<u8>, n: int, p: int) -> bool {
    p + n < s.len() && s[p + n] == 0x5Fu8
}

/// The first byte position at or after `start` where `key` occurs in `s`
/// and is not part of a structural name.
pub open spec fn find_key_from(s: Seq<u8>, key: Seq<u8>, start: int) -> Option<int>
    decreases s.len() + 1 - start,
{
    if start < 0 || start + key.len() > s.len() {
        None
    } else if bytes_occur_at(s, key, start) && !followed_by_underscore(s, key.len() as int, start) {
        Some(start)
    } else {
        find_key_from(s, key, start + 1)
    }
}

/// Redact the value of `key` in `s`: find the first occurrence of `key`
/// in the UTF-8 bytes of the lower-cased text that is not followed by `_`
/// (occurrences inside structural names such as `password_hash` are
/// skipped) and redact the value from that byte offset of `s` on. `None`
/// when that offset does not fall on a character of `s` (the text is then
/// not redacted: slicing it there is refused).
pub open spec fn redact_key(s: Seq<char>, key: Seq<char>) -> Option<Seq<char>> {
    match find_key_from(encode_utf8(lowercase(s)), encode_utf8(key), 0) {
        None => Some(s),
        Some(p) => match char_index_at_byte(s, p) {
            None => None,
            Some(pos) => Some(redact_value(s, pos)),
        },
    }
}

fn find_key(s: &[u8], key: &[u8]) -> (r: Option<usize>)
    ensures
        match r {
            Some(i) => find_key_from(s@, key@, 0) == Some(i as int),
            None => find_key_from(s@, key@, 0) is None,
        },
{
    let mut i: usize = 0;
    while i <= s.len() && s.len() - i >= key.len()
        invariant
            find_key_from(s@, key@, 0) == find_key_from(s@, key@, i as int),
        decreases s.len() + 1 - i,
    {
        if bytes_occur_at_exec(s, key, i) {
            let end = i + key.len();
            let structural = end < s.len() && s[end] == 0x5Fu8;
            if !structural {
                return Some(i);
            }
        }
        if i == s.len() {
            proof {
                if key@.len() == 0 {
                    assert(s@.subrange(i as int, i as int) =~= key@);
                }
            }
            return None;
        }
        i = i + 1;
    }
    None
}

/// The keys whose values are redacted, in the order they are handled.
pub open spec fn redacted_keys() -> Seq<Seq<char>> {
    seq!["password"@, "passphrase"@, "secret"@, "private_key"@]
}

/// Redact every key of `keys`, one after the other.
pub open spec fn redact_keys(s: Seq<char>, keys: Seq<Seq<char>>) -> Option<Seq<char>>
    decreases keys.len(),
{
    if keys.len() == 0 {
        Some(s)
    } else {
        match redact_keys(s, keys.drop_last()) {
            None => None,
            Some(t) => redact_key(t, keys.last()),
        }
    }
}

/// The redacted form of a configuration text.
pub open spec fn redact_spec(s: Seq<char>) -> Option<Seq<char>> {
    redact_keys(s, redacted_keys())
}

/// The number of bytes of the UTF-8 encoding of `c`.
fn char_width(c: char) -> (r: usize)
    ensures
        r as int == utf8_width(c),
{
    let v = c as u32;
    if v <= 0x7F {
        1
    } else if v <= 0x7FF {
        2
    } else if v <= 0xFFFF {
        3
    } else {
        4
    }
}

fn char_index_at(s: &Vec<char>, pos: usize) -> (r: Option<usize>)
    ensures
        match r {
            Some(i) => char_index_at_byte(s@, pos as int) == Some(i as int),
            None => char_index_at_byte(s@, pos as int) is None,
        },
{
    let mut i: usize = 0;
    let mut acc: usize = 0;
    assert(s@.subrange(0, s@.len() as int) =~= s@);
    while acc < pos && i < s.len()
        invariant
            i <= s@.len(),
            acc <= pos,
            char_index_at_byte(s@, pos as int) == match char_index_at_byte(s@.subrange(i as int, s@.len() as int), pos - acc) {
                Some(j) => Some(j + i),
                None => None::<int>,
            },
        decreases s.len() - i,
    {
        let ghost rest = s@.subrange(i as int, s@.len() as int);
        assert(rest[0] == s@[i as int]);
        assert(rest.drop_first() =~= s@.subrange(i + 1, s@.len() as int));
        let w = char_width(s[i]);
        if pos - acc < w {
            return None;
        }
        acc = acc + w;
        i = i + 1;
    }
    if acc == pos {
        Some(i)
    } else {
        None
    }
}

fn redact_value_exec(s: Vec<char>, pos: usize) -> (r: Vec<char>)
    ensures
        r@ == redact_value(s@, pos as int),
{
    let eq = match index_of_char_from(&s, '=', pos) {
        Some(e) => e,
        None => return s,
    };
    let open = match index_of_char_from(&s, '"', eq) {
        Some(o) => o,
        None => return s,
    };
    assert(open < s@.len()) by {
        lemma_index_of_from_bounds(s@, '"', eq as int);
    }
    let n = s.len();
    let close = match index_of_char_from(&s, '"', open + 1) {
        Some(c) => c,
        None => return s,
    };
    assert(open + 1 <= close < s@.len()) by {
        lemma_index_of_from_bounds(s@, '"', open + 1);
    }
    let mut out: Vec<char> = Vec::new();
    let mut i: usize = 0;
    while i <= open
        invariant
            n == s@.len(),
            open < s@.len(),
            i <= open + 1,
            out@ == s@.subrange(0, i as int),
        decreases open + 1 - i,
    {
        out.push(s[i]);
        i = i + 1;
        assert(out@ =~= s@.subrange(0, i as int));
    }
    let marker = chars_of("[REDACTED]");
    let mut marker_copy = marker.clone();
    out.append(&mut marker_copy);
    let mut j: usize = close;
    while j < s.len()
        invariant
            close <= j <= s@.len(),
            out@ == s@.subrange(0, open + 1) + redaction_marker() + s@.subrange(close as int, j as int),
        decreases s.len() - j,
    {
        out.push(s[j]);
        j = j + 1;
        assert(out@ =~= s@.subrange(0, open + 1) + redaction_marker() + s@.subrange(close as int, j as int));
    }
    out
}

fn redact_one(s: Vec<char>, key: &str) -> (r: Option<Vec<char>>)
    ensures
        match r {
            Some(t) => redact_key(s@, key@) == Some(t@),
            None => redact_key(s@, key@) is None,
        },
{
    let text = string_from_chars(s.as_slice());
    let lower = to_lowercase(text.as_str());
    let p = match find_key(lower.as_str().as_bytes(), key.as_bytes()) {
        Some(p) => p,
        None => return Some(s),
    };
    match char_index_at(&s, p) {
        Some(pos) => Some(redact_value_exec(s, pos)),
        None => None,
    }
}

/// The redacted form of `input`, or `None` where a key's offset in the
/// lower-cased text does not fall on a character of the text.
pub fn redact_checked(input: &str) -> (r: Option<String>)
    ensures
        match r {
            Some(t) => redact_spec(input@) == Some(t@),
            None => redact_spec(input@) is None,
        },
{
    let k = Ghost(redacted_keys());
    proof {
        reveal_with_fuel(redact_keys, 5);
        assert(k@.drop_last().drop_last().drop_last().drop_last() =~= Seq::<Seq<char>>::empty());
        assert(k@.drop_last().drop_last().drop_last() =~= seq!["password"@]);
        assert(k@.drop_last().drop_last() =~= seq!["password"@, "passphrase"@]);
        assert(k@.drop_last() =~= seq!["password"@, "passphrase"@, "secret"@]);
    }
    let out = chars_of(input);
    let out = match redact_one(out, "password") {
        Some(t) => t,
        None => return None,
    };
    let out = match redact_one(out, "passphrase") {
        Some(t) => t,
        None => return None,
    };
    let out = match redact_one(out, "secret") {
        Some(t) => t,
        None => return None,
    };
    let out = match redact_one(out, "private_key") {
        Some(t) => t,
        None => return None,
    };
    Some(string_from_chars(out.as_slice()))
}

impl SecurityManager {
    pub closed spec fn users(&self) -> Seq<UserCredentials> {
        self.db.users@
    }

    /// A manager over the given credentials database.
    pub fn with_database(db: CredentialsDatabase) -> (r: SecurityManager)
        ensures
            r.users() == db.users@,
    {
        SecurityManager { db }
    }

    /// The manager over the database read from storage, or over the initial
    /// database (made with the given salts) when none could be read.
    pub fn new(loaded: Option<CredentialsDatabase>, admin_salt: String, operator_salt: String, auditor_salt: String)
        -> (r: SecurityManager)
        ensures
            match loaded {
                Some(db) => r.users() == db.users@,
                None => {
                    &&& r.users().len() == 3
                    &&& r.users()[0].is_account("admin"@, UserRole::Admin, "admin123"@, admin_salt@)
                    &&& r.users()[1].is_account("operator"@, UserRole::SupportOperator, "operator123"@, operator_salt@)
                    &&& r.users()[2].is_account("auditor"@, UserRole::Auditor, "auditor123"@, auditor_salt@)
                },
            },
    {
        match loaded {
            Some(db) => SecurityManager::with_database(db),
            None => SecurityManager::with_database(SecurityManager::default_database(admin_salt, operator_salt, auditor_salt)),
        }
    }

    /// The initial database: `admin`, `operator` and `auditor` with the
    /// passwords `admin123`, `operator123` and `auditor123` and the given salts.
    pub fn default_database(admin_salt: String, operator_salt: String, auditor_salt: String) -> (r: CredentialsDatabase)
        ensures
            r.users@.len() == 3,
            r.users@[0].is_account("admin"@, UserRole::Admin, "admin123"@, admin_salt@),
            r.users@[1].is_account("operator"@, UserRole::SupportOperator, "operator123"@, operator_salt@),
            r.users@[2].is_account("auditor"@, UserRole::Auditor, "auditor123"@, auditor_salt@),
    {
        let mut users: Vec<UserCredentials> = Vec::new();
        users.push(UserCredentials::account("admin", UserRole::Admin, "admin123", admin_salt));
        users.push(UserCredentials::account("operator", UserRole::SupportOperator, "operator123", operator_salt));
        users.push(UserCredentials::account("auditor", UserRole::Auditor, "auditor123", auditor_salt));
        CredentialsDatabase { users }
    }

    /// Check `secret` for `username` against the local database only:
    /// the role of the first account with that name when the secret hashes to
    /// its stored hash.
    pub fn authenticate_local(&self, username: &str, secret: &str) -> (r: Option<UserRole>)
        ensures
            r == local_role(self.users(), username@, secret@),
    {
        let users = &self.db.users;
        let mut i: usize = 0;
        while i < users.len()
            invariant
                users@ == self.users(),
                i <= users@.len(),
                forall|j: int| 0 <= j < i ==> users@[j].username@ != username@,
            decreases users.len() - i,
        {
            if str_eq(users[i].username.as_str(), username) {
                proof {
                    lemma_first_account_found(users@, username@, i as int);
                }
                let hash = hash_password(secret, users[i].salt.as_str());
                if str_eq(hash.as_str(), users[i].password_hash.as_str()) {
                    return Some(users[i].role);
                } else {
                    return None;
                }
            }
            i = i + 1;
        }
        proof {
            lemma_first_account_absent(users@, username@);
        }
        None
    }

    /// Authenticate: refuse an empty secret; accept the local database's
    /// answer; otherwise ask `system_check`, which grants the Admin role.
    pub fn authenticate<F: Fn(&str, &str) -> bool>(&self, username: &str, secret: &str, system_check: F) -> (r: Result<UserRole, AuthError>)
        requires
            call_requires(system_check, (username, secret)),
        ensures
            secret@.len() == 0 ==> r == Err::<UserRole, AuthError>(AuthError::EmptyPassword),
            secret@.len() > 0 && local_role(self.users(), username@, secret@) is Some ==>
                r == Ok::<UserRole, AuthError>(local_role(self.users(), username@, secret@)->0),
            secret@.len() > 0 && local_role(self.users(), username@, secret@) is None ==>
                exists|b: bool| #[trigger] call_ensures(system_check, (username, secret), b) && r == (if b {
                    Ok::<UserRole, AuthError>(UserRole::Admin)
                } else {
                    Err::<UserRole, AuthError>(AuthError::InvalidCredentials)
                }),
    {
        if secret.is_empty() {
            return Err(AuthError::EmptyPassword);
        }
        match self.authenticate_local(username, secret) {
            Some(role) => Ok(role),
            None => {
                let ok = system_check(username, secret);
                if ok {
                    Ok(UserRole::Admin)
                } else {
                    Err(AuthError::InvalidCredentials)
                }
            },
        }
    }

    /// Whether `role` may perform `action`.
    pub fn check_permission(&self, role: &UserRole, action: &str) -> (r: bool)
        ensures
            r == permits(*role, action@),
    {
        match role {
            UserRole::Admin => true,
            UserRole::Auditor => str_eq(action, "view_logs") || str_eq(action, "export_audit"),
            UserRole::SupportOperator => str_eq(action, "connect") || str_eq(action, "view_session")
                || str_eq(action, "clipboard_sync"),
            UserRole::User => str_eq(action, "connect") || str_eq(action, "clipboard_sync"),
        }
    }

    /// Replace the quoted values of `password`, `passphrase`, `secret` and
    /// `private_key` entries of a configuration text by `[REDACTED]`.
    pub fn redact_secrets(&self, input: &str) -> (r: String)
        requires
            redact_spec(input@) is Some,
        ensures
            redact_spec(input@) == Some(r@),
    {
        redact_checked(input).unwrap()
    }

    /// The redacted form of `input`, or `None` where it has none: where a
    /// key's offset in the lower-cased text does not fall on a character.
    pub fn try_redact_secrets(&self, input: &str) -> (r: Option<String>)
        ensures
            match r {
                Some(t) => redact_spec(input@) == Some(t@),
                None => redact_spec(input@) is None,
            },
    {
        match redact_checked(input) {
            Some(_) => Some(self.redact_secrets(input)),
            None => None,
        }
    }
}

/// Whether the system's own password check may vouch for `username`: only
/// for `admin`, `root` and the user the program runs as.
pub fn system_check_applies(username: &str, current_user: &str) -> (r: bool)
    ensures
        r == (username@ == "admin"@ || username@ == "root"@ || username@ == current_user@),
{
    str_eq(username, "admin") || str_eq(username, "root") || str_eq(username, current_user)
}

/// Roles are nested: whatever a user may do, a support operator may do, and
/// whatever a support operator may do, an administrator may do.
pub proof fn lemma_roles_are_nested(action: Seq<char>)
    ensures
        permits(UserRole::User, action) ==> permits(UserRole::SupportOperator, action),
        permits(UserRole::SupportOperator, action) ==> permits(UserRole::Admin, action),
        permits(UserRole::Admin, action),
{
}

/// An auditor may only read: view the logs or export the audit trail.
pub proof fn lemma_auditor_only_reads(action: Seq<char>)
    ensures
        permits(UserRole::Auditor, action) <==> (action == "view_logs"@ || action == "export_audit"@),
{
}

/// The initial database lets each of its accounts in with its documented
/// password, in its role.
pub proof fn lemma_default_accounts_authenticate(users: Seq<UserCredentials>, admin_salt: Seq<char>, operator_salt: Seq<char>, auditor_salt: Seq<char>)
    requires
        users.len() == 3,
        users[0].is_account("admin"@, UserRole::Admin, "admin123"@, admin_salt),
        users[1].is_account("operator"@, UserRole::SupportOperator, "operator123"@, operator_salt),
        users[2].is_account("auditor"@, UserRole::Auditor, "auditor123"@, auditor_salt),
    ensures
        local_role(users, "admin"@, "admin123"@) == Some(UserRole::Admin),
        local_role(users, "operator"@, "operator123"@) == Some(UserRole::SupportOperator),
        local_role(users, "auditor"@, "auditor123"@) == Some(UserRole::Auditor),
{
    reveal_strlit("admin");
    reveal_strlit("operator");
    reveal_strlit("auditor");
    assert("admin"@ != "operator"@ && "admin"@ != "auditor"@ && "operator"@ != "auditor"@) by {
        assert("admin"@[0] != "operator"@[0]);
        assert("admin"@.len() != "auditor"@.len() || "admin"@[1] != "auditor"@[1]);
        assert("operator"@.len() != "auditor"@.len());
    }
    lemma_first_account_found(users, "admin"@, 0);
    lemma_first_account_found(users, "operator"@, 1);
    lemma_first_account_found(users, "auditor"@, 2);
}

/// Text whose lower-cased form holds none of the redacted keys, other than
/// inside structural names such as `password_hash`, comes back unchanged.
pub proof fn lemma_redaction_keeps_text_without_keys(s: Seq<char>)
    requires
        forall|i: int| 0 <= i < redacted_keys().len()
            ==> find_key_from(encode_utf8(lowercase(s)), #[trigger] encode_utf8(redacted_keys()[i]), 0) is None,
    ensures
        redact_spec(s) == Some(s),
{
    let k = redacted_keys();
    reveal_with_fuel(redact_keys, 5);
    assert(k.drop_last().drop_last().drop_last().drop_last() =~= Seq::<Seq<char>>::empty());
    assert(k.drop_last().drop_last().drop_last() =~= seq!["password"@]);
    assert(k.drop_last().drop_last() =~= seq!["password"@, "passphrase"@]);
    assert(k.drop_last() =~= seq!["password"@, "passphrase"@, "secret"@]);
    assert(find_key_from(encode_utf8(lowercase(s)), encode_utf8(k[0]), 0) is None);
    assert(find_key_from(encode_utf8(lowercase(s)), encode_utf8(k[1]), 0) is None);
    assert(find_key_from(encode_utf8(lowercase(s)), encode_utf8(k[2]), 0) is None);
    assert(find_key_from(encode_utf8(lowercase(s)), encode_utf8(k[3]), 0) is None);
}

/// A plain user may connect and sync the clipboard, and nothing else; a
/// support operator may in addition view a session.
pub proof fn lemma_user_and_operator_permissions(action: Seq<char>)
    ensures
        permits(UserRole::User, action) <==> (action == "connect"@ || action == "clipboard_sync"@),
        permits(UserRole::SupportOperator, action)
            <==> (action == "connect"@ || action == "view_session"@ || action == "clipboard_sync"@),
        permits(UserRole::Admin, action),
{
}

}
