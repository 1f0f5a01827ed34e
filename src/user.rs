//! Accounts and the credential manager: registration, login and refresh.
use crate::config::Config;
use crate::password::{hash_password, is_hash_of, verification_outcome, verify_password, HashingError, MAX_PASSWORD_LEN};
use crate::token::{claims_for, claims_of_fields, issued_token, eddsa_decode, eddsa_key_signs, verdict, TokenError};
use vstd::prelude::*;
use vstd::string::StringSliceAdditionalSpecFns;

verus! {

/// A stored account.
#[derive(Debug)]
pub struct AppUser {
    pub id: u128,
    pub name: String,
    pub email: String,
    pub password_hash: String,
    pub locale: Option<String>,
}

/// The mathematical value of an account.
pub ghost struct AccountRow {
    pub id: u128,
    pub name: Seq<char>,
    pub email: Seq<char>,
    pub password_hash: Seq<char>,
    pub locale: Option<Seq<char>>,
}

pub open spec fn opt_view(s: Option<String>) -> Option<Seq<char>> {
    match s {
        Some(v) => Some(v@),
        None => None,
    }
}

impl View for AppUser {
    type V = AccountRow;

    open spec fn view(&self) -> AccountRow {
        AccountRow {
            id: self.id,
            name: self.name@,
            email: self.email@,
            password_hash: self.password_hash@,
            locale: opt_view(self.locale),
        }
    }
}

impl AppUser {
    /// A copy of this account.
    pub fn duplicate(&self) -> (r: AppUser)
        ensures
            r@ == self@,
    {
        AppUser {
            id: self.id,
            name: self.name.clone(),
            email: self.email.clone(),
            password_hash: self.password_hash.clone(),
            locale: match &self.locale {
                Some(l) => Some(l.clone()),
                None => None,
            },
        }
    }
}

/// The view of an account that leaves the password hash out.
#[derive(Debug)]
pub struct FilteredAppUserModel {
    pub id: u128,
    pub name: String,
    pub email: String,
    pub locale: Option<String>,
}

impl From<AppUser> for FilteredAppUserModel {
    fn from(val: AppUser) -> (r: FilteredAppUserModel)
        ensures
            r.id == val.id,
            r.name == val.name,
            r.email == val.email,
            r.locale == val.locale,
    {
        FilteredAppUserModel { id: val.id, name: val.name, email: val.email, locale: val.locale }
    }
}

impl vstd::std_specs::convert::FromSpecImpl<AppUser> for FilteredAppUserModel {
    open spec fn obeys_from_spec() -> bool {
        true
    }

    open spec fn from_spec(val: AppUser) -> FilteredAppUserModel {
        FilteredAppUserModel { id: val.id, name: val.name, email: val.email, locale: val.locale }
    }
}

pub open spec fn email_taken(rows: Seq<AccountRow>, email: Seq<char>) -> bool {
    exists|i: int| 0 <= i < rows.len() && (#[trigger] rows[i]).email == email
}

pub open spec fn id_taken(rows: Seq<AccountRow>, id: u128) -> bool {
    exists|i: int| 0 <= i < rows.len() && (#[trigger] rows[i]).id == id
}

/// No two accounts share an email or an identifier.
pub open spec fn rows_unique(rows: Seq<AccountRow>) -> bool {
    forall|i: int, j: int|
        0 <= i < rows.len() && 0 <= j < rows.len() && i != j ==> (#[trigger] rows[i]).email
            != (#[trigger] rows[j]).email && rows[i].id != rows[j].id
}

/// The account registered under `email`, when there is one.
pub open spec fn account_with_email(rows: Seq<AccountRow>, email: Seq<char>) -> AccountRow {
    rows[choose|i: int| 0 <= i < rows.len() && (#[trigger] rows[i]).email == email]
}

/// The account with identifier `id`, when there is one.
pub open spec fn account_with_id(rows: Seq<AccountRow>, id: u128) -> AccountRow {
    rows[choose|i: int| 0 <= i < rows.len() && (#[trigger] rows[i]).id == id]
}

/// Why the account table refused a new row.
#[derive(Debug, Clone, Copy, PartialEq, Eq, Structural)]
pub enum StoreError {
    DuplicateEmail,
    DuplicateId,
}

/// The account table: rows with unique emails and unique identifiers.
#[derive(Debug)]
pub struct AppUserTable {
    rows: Vec<AppUser>,
}

impl View for AppUserTable {
    type V = Seq<AccountRow>;

    closed spec fn view(&self) -> Seq<AccountRow> {
        self.rows@.map_values(|u: AppUser| u@)
    }
}

impl AppUserTable {
    pub open spec fn wf(&self) -> bool {
        rows_unique(self@)
    }

    pub fn new() -> (r: AppUserTable)
        ensures
            r.wf(),
            r@ == Seq::<AccountRow>::empty(),
    {
        let r = AppUserTable { rows: Vec::new() };
        assert(r@ =~= Seq::<AccountRow>::empty());
        r
    }

    pub fn len(&self) -> (r: usize)
        ensures
            r == self@.len(),
    {
        self.rows.len()
    }

    /// The account registered under `email`, if any.
    pub fn find_user_by_email(&self, email: &str) -> (r: Option<&AppUser>)
        requires
            self.wf(),
        ensures
            r is None <==> !email_taken(self@, email@),
            r matches Some(u) ==> u@ == account_with_email(self@, email@) && u@.email == email@,
    {
        let wanted = email.to_owned();
        let mut i: usize = 0;
        while i < self.rows.len()
            invariant
                i <= self.rows@.len(),
                self.wf(),
                wanted@ == email@,
                self@ == self.rows@.map_values(|u: AppUser| u@),
                forall|k: int| 0 <= k < i ==> (#[trigger] self@[k]).email != email@,
            decreases self.rows.len() - i,
        {
            if self.rows[i].email == wanted {
                assert(self@[i as int].email == email@);
                let ghost j = choose|j: int| 0 <= j < self@.len() && (#[trigger] self@[j]).email == email@;
                assert(j == i);
                return Some(&self.rows[i]);
            }
            i = i + 1;
        }
        None
    }

    /// The account with identifier `id`, if any.
    pub fn find_by_id(&self, id: u128) -> (r: Option<&AppUser>)
        requires
            self.wf(),
        ensures
            r is None <==> !id_taken(self@, id),
            r matches Some(u) ==> u@ == account_with_id(self@, id) && u.id == id,
    {
        let mut i: usize = 0;
        while i < self.rows.len()
            invariant
                i <= self.rows@.len(),
                self.wf(),
                self@ == self.rows@.map_values(|u: AppUser| u@),
                forall|k: int| 0 <= k < i ==> (#[trigger] self@[k]).id != id,
            decreases self.rows.len() - i,
        {
            if self.rows[i].id == id {
                assert(self@[i as int].id == id);
                let ghost j = choose|j: int| 0 <= j < self@.len() && (#[trigger] self@[j]).id == id;
                assert(j == i);
                return Some(&self.rows[i]);
            }
            i = i + 1;
        }
        None
    }

    /// Inserts a new account. The table's uniqueness constraints refuse a
    /// duplicate email, then a duplicate identifier, and leave it unchanged.
    pub fn create_user(
        &mut self,
        id: u128,
        name: &str,
        email: &str,
        password_hash: &str,
        locale: Option<&str>,
    ) -> (r: Result<AppUser, StoreError>)
        requires
            old(self).wf(),
        ensures
            final(self).wf(),
            email_taken(old(self)@, email@) ==> r == Err::<AppUser, StoreError>(StoreError::DuplicateEmail),
            !email_taken(old(self)@, email@) && id_taken(old(self)@, id) ==> r == Err::<AppUser, StoreError>(
                StoreError::DuplicateId,
            ),
            r is Err ==> final(self)@ == old(self)@,
            r matches Ok(u) ==> ({
                &&& u@ == (AccountRow {
                    id,
                    name: name@,
                    email: email@,
                    password_hash: password_hash@,
                    locale: match locale {
                        Some(l) => Some(l@),
                        None => None,
                    },
                })
                &&& final(self)@ == old(self)@.push(u@)
            }),
            !email_taken(old(self)@, email@) && !id_taken(old(self)@, id) ==> r is Ok,
    {
        if self.find_user_by_email(email).is_some() {
            return Err(StoreError::DuplicateEmail);
        }
        if self.find_by_id(id).is_some() {
            return Err(StoreError::DuplicateId);
        }
        let stored = AppUser {
            id,
            name: name.to_owned(),
            email: email.to_owned(),
            password_hash: password_hash.to_owned(),
            locale: match locale {
                Some(l) => Some(l.to_owned()),
                None => None,
            },
        };
        let returned = AppUser {
            id,
            name: name.to_owned(),
            email: email.to_owned(),
            password_hash: password_hash.to_owned(),
            locale: match locale {
                Some(l) => Some(l.to_owned()),
                None => None,
            },
        };
        let ghost before = self@;
        self.rows.push(stored);
        assert(self@ =~= before.push(returned@));
        assert(rows_unique(self@)) by {
            assert forall|i: int, j: int|
                0 <= i < self@.len() && 0 <= j < self@.len() && i != j implies (#[trigger] self@[i]).email
                    != (#[trigger] self@[j]).email && self@[i].id != self@[j].id by {
                if i < before.len() && j < before.len() {
                    assert(self@[i] == before[i] && self@[j] == before[j]);
                } else if i < before.len() {
                    assert(self@[i] == before[i]);
                } else {
                    assert(self@[j] == before[j]);
                }
            }
        }
        Ok(returned)
    }
}


/// Why registration failed.
#[derive(Debug)]
pub enum RegisterUserError {
    /// An account with this email already exists.
    UserAlreadyExists { email: String },
    /// The store refused the new account.
    DbError,
    /// The password could not be hashed.
    CouldNotHashError,
}

/// Why login or refresh failed.
#[derive(Debug)]
pub enum LoginUserError {
    /// No account has this email.
    UserNotFoundError(String),
    /// The password or the refresh token was not accepted.
    InvalidCredentialError,
    /// The store could not be queried.
    DbError,
    /// The stored hash is not a recognised encoding.
    CouldNotHashError,
    /// A token could not be issued.
    TokenGenerationError,
}

/// An access token and a refresh token issued together.
#[derive(Debug)]
pub struct Tokens {
    pub access_token: String,
    pub refresh_token: String,
}

/// Whether both lifetimes give representable expiry instants at `now`.
pub open spec fn lifetimes_fit(config: Config, now: u64) -> bool {
    claims_for(0, now, config.access_token_max_age) is Some
        && claims_for(0, now, config.refresh_token_max_age) is Some
}

/// Whether `t` is the pair issued for `user_id` at `now`: the access token under
/// the access key and lifetime, the refresh token under the refresh ones.
pub open spec fn tokens_issued(t: Tokens, user_id: u128, config: Config, now: u64) -> bool {
    &&& issued_token(
        t.access_token@,
        user_id,
        now,
        config.access_token_max_age,
        config.access_token_private_key@,
    )
    &&& issued_token(
        t.refresh_token@,
        user_id,
        now,
        config.refresh_token_max_age,
        config.refresh_token_private_key@,
    )
}

/// Whether a pair can be issued at `now`: both lifetimes fit and both
/// private keys sign.
pub open spec fn can_issue(config: Config, now: u64) -> bool {
    &&& lifetimes_fit(config, now)
    &&& eddsa_key_signs(config.access_token_private_key@)
    &&& eddsa_key_signs(config.refresh_token_private_key@)
}

/// What issuing a pair for `user_id` at `now` returns: the issued pair, both
/// tokens non-empty, exactly when a pair can be issued; else a generation error.
pub open spec fn issue_outcome(user_id: u128, config: Config, now: u64, r: Result<Tokens, LoginUserError>) -> bool {
    &&& r matches Ok(t) ==> tokens_issued(t, user_id, config, now) && t.access_token@.len() > 0
        && t.refresh_token@.len() > 0
    &&& r matches Err(e) ==> e is TokenGenerationError
    &&& r is Ok <==> can_issue(config, now)
}

/// What login returns for the account found under `email` (if any).
pub open spec fn login_outcome(
    found: Option<AccountRow>,
    email: Seq<char>,
    password: Seq<u8>,
    config: Config,
    now: u64,
    r: Result<Tokens, LoginUserError>,
) -> bool {
    match found {
        None => (r matches Err(LoginUserError::UserNotFoundError(e)) && e@ == email),
        Some(u) => match verification_outcome(password, u.password_hash) {
            Err(_) => r is Err && r->Err_0 is CouldNotHashError,
            Ok(false) => r is Err && r->Err_0 is InvalidCredentialError,
            Ok(true) => issue_outcome(u.id, config, now, r),
        },
    }
}

/// The account that a lookup of `email` in `rows` finds.
pub open spec fn lookup_email(rows: Seq<AccountRow>, email: Seq<char>) -> Option<AccountRow> {
    if email_taken(rows, email) {
        Some(account_with_email(rows, email))
    } else {
        None
    }
}

/// What refreshing with `token` at `now` returns.
pub open spec fn refresh_outcome(token: Seq<char>, config: Config, now: u64, r: Result<Tokens, LoginUserError>) -> bool {
    match verdict(eddsa_decode(token, config.refresh_token_public_key@), now) {
        Err(_) => r is Err && r->Err_0 is InvalidCredentialError,
        Ok(c) => issue_outcome(c.subject, config, now, r),
    }
}

/// Whether `after` is `before` with one new account appended: the given
/// identifier, name and email, no locale, and a hash of `password`.
pub open spec fn registered(
    before: Seq<AccountRow>,
    after: Seq<AccountRow>,
    id: u128,
    name: Seq<char>,
    email: Seq<char>,
    password: Seq<u8>,
) -> bool {
    &&& after.len() == before.len() + 1
    &&& after.drop_last() == before
    &&& after.last().id == id
    &&& after.last().name == name
    &&& after.last().email == email
    &&& after.last().locale is None
    &&& is_hash_of(password, after.last().password_hash)
}

/// What registration does to the account table and returns. Hashing comes
/// first and fails only for an over-long password; then a taken email is a conflict, then a
/// taken identifier is a store error; otherwise the account is added.
pub open spec fn register_outcome(
    before: Seq<AccountRow>,
    after: Seq<AccountRow>,
    id: u128,
    name: Seq<char>,
    email: Seq<char>,
    password: Seq<u8>,
    r: Result<FilteredAppUserModel, RegisterUserError>,
) -> bool {
    &&& r is Err ==> after == before
    &&& r matches Err(e) ==> match e {
        RegisterUserError::CouldNotHashError => password.len() > MAX_PASSWORD_LEN,
        RegisterUserError::UserAlreadyExists { email: taken } => taken@ == email && email_taken(before, email),
        RegisterUserError::DbError => !email_taken(before, email) && id_taken(before, id),
    }
    &&& r matches Ok(v) ==> {
        &&& !email_taken(before, email)
        &&& !id_taken(before, id)
        &&& registered(before, after, id, name, email, password)
        &&& v.id == id && v.name@ == name && v.email@ == email && v.locale is None
    }
}

impl RegisterUserError {
    /// The transport status: a taken email is the caller's to correct; the
    /// rest are internal failures.
    pub fn status_code(&self) -> (r: u16)
        ensures
            *self is UserAlreadyExists ==> r == 400,
            !(*self is UserAlreadyExists) ==> r == 500,
    {
        match self {
            RegisterUserError::UserAlreadyExists { .. } => 400,
            _ => 500,
        }
    }
}

/// The transport status and public message of a login or refresh failure. A
/// missing account and a rejected credential give the same answer, so that
/// the answer does not tell whether an email is registered.
pub fn translate_login_error(e: &LoginUserError) -> (r: (u16, Option<&'static str>))
    ensures
        (*e is UserNotFoundError || *e is InvalidCredentialError) ==> r.0 == 401 && (r.1 matches Some(m)
            && m@ == "Invalid credentials"@),
        !(*e is UserNotFoundError || *e is InvalidCredentialError) ==> r.0 == 500 && r.1 is None,
{
    match e {
        LoginUserError::UserNotFoundError(_) => (401, Some("Invalid credentials")),
        LoginUserError::InvalidCredentialError => (401, Some("Invalid credentials")),
        _ => (500, None),
    }
}

/// Issues an access token and a refresh token for `user_id` at instant `now`.
pub fn generate_tokens(user_id: u128, config: &Config, now: u64) -> (r: Result<Tokens, LoginUserError>)
    ensures
        issue_outcome(user_id, *config, now, r),
{
    let access = config.access_service().issue(user_id, now);
    let refresh = config.refresh_service().issue(user_id, now);
    match (access, refresh) {
        (Some(access_token), Some(refresh_token)) => Ok(Tokens { access_token, refresh_token }),
        _ => Err(LoginUserError::TokenGenerationError),
    }
}

/// The decisions of registration before the insert, given the hashing
/// outcome and what a lookup of `email` found: a hashing failure, then a
/// taken email, is refused; otherwise the hash to store is handed back.
pub fn admit_registration(
    email: &str,
    hashed: Result<String, HashingError>,
    existing: Option<&AppUser>,
) -> (r: Result<String, RegisterUserError>)
    ensures
        hashed is Err ==> r matches Err(RegisterUserError::CouldNotHashError),
        hashed is Ok && existing is Some ==> (r matches Err(RegisterUserError::UserAlreadyExists { email: e })
            && e@ == email@),
        hashed is Ok && existing is None ==> r == Ok::<String, RegisterUserError>(hashed->Ok_0),
{
    let password_hash = match hashed {
        Ok(h) => h,
        Err(_) => return Err(RegisterUserError::CouldNotHashError),
    };
    match existing {
        Some(_) => Err(RegisterUserError::UserAlreadyExists { email: email.to_owned() }),
        None => Ok(password_hash),
    }
}

/// The result of registration given the outcome of the insert: the stored
/// account without its hash, the error for a refusal by the store's
/// constraints, or a store error for any other failure (`None`).
pub fn finish_registration(
    email: &str,
    inserted: Result<AppUser, Option<StoreError>>,
) -> (r: Result<FilteredAppUserModel, RegisterUserError>)
    ensures
        inserted matches Ok(u) ==> (r matches Ok(v) && v.id == u.id && v.name == u.name && v.email == u.email
            && v.locale == u.locale),
        inserted matches Err(Some(e)) && e is DuplicateEmail ==> (r matches Err(
            RegisterUserError::UserAlreadyExists { email: x },
        ) && x@ == email@),
        inserted matches Err(Some(e)) && e is DuplicateId ==> (r matches Err(RegisterUserError::DbError)),
        inserted matches Err(None) ==> (r matches Err(RegisterUserError::DbError)),
{
    match inserted {
        Ok(user) => Ok(FilteredAppUserModel::from(user)),
        Err(Some(e)) => Err(store_failure(email, e)),
        Err(None) => Err(RegisterUserError::DbError),
    }
}

/// The registration error for a refusal by the table's constraints: a taken
/// email is the same conflict as one found by the lookup beforehand.
pub fn store_failure(email: &str, e: StoreError) -> (r: RegisterUserError)
    ensures
        e is DuplicateEmail ==> (r matches RegisterUserError::UserAlreadyExists { email: x } && x@ == email@),
        e is DuplicateId ==> r is DbError,
{
    match e {
        StoreError::DuplicateEmail => RegisterUserError::UserAlreadyExists { email: email.to_owned() },
        StoreError::DuplicateId => RegisterUserError::DbError,
    }
}

/// Registration once the password has been hashed (or has failed to hash):
/// a hashing failure, then a taken email, then a taken identifier, is
/// refused with the table unchanged; otherwise the account is stored with
/// the given hash and returned without it.
pub fn register_hashed(
    table: &mut AppUserTable,
    id: u128,
    name: &str,
    email: &str,
    hashed: Result<String, HashingError>,
) -> (r: Result<FilteredAppUserModel, RegisterUserError>)
    requires
        old(table).wf(),
    ensures
        final(table).wf(),
        r is Err ==> final(table)@ == old(table)@,
        hashed is Err ==> r matches Err(RegisterUserError::CouldNotHashError),
        hashed is Ok && email_taken(old(table)@, email@) ==> (r matches Err(
            RegisterUserError::UserAlreadyExists { email: e },
        ) && e@ == email@),
        hashed is Ok && !email_taken(old(table)@, email@) && id_taken(old(table)@, id) ==> r matches Err(
            RegisterUserError::DbError,
        ),
        hashed is Ok && !email_taken(old(table)@, email@) && !id_taken(old(table)@, id) ==> (r matches Ok(v) && {
            &&& final(table)@ == old(table)@.push(
                AccountRow {
                    id,
                    name: name@,
                    email: email@,
                    password_hash: hashed->Ok_0@,
                    locale: None,
                },
            )
            &&& v.id == id && v.name@ == name@ && v.email@ == email@ && v.locale is None
        }),
{
    let password_hash = admit_registration(email, hashed, table.find_user_by_email(email))?;
    let inserted = match table.create_user(id, name, email, password_hash.as_str(), None) {
        Ok(user) => Ok(user),
        Err(e) => Err(Some(e)),
    };
    finish_registration(email, inserted)
}

/// Registers an account with identifier `id`: hashes the password, refuses a
/// taken email, and stores the account. Returns the account without its hash.
pub fn register_user(
    table: &mut AppUserTable,
    id: u128,
    name: &str,
    email: &str,
    password: &str,
) -> (r: Result<FilteredAppUserModel, RegisterUserError>)
    requires
        old(table).wf(),
    ensures
        final(table).wf(),
        register_outcome(old(table)@, final(table)@, id, name@, email@, password.spec_bytes(), r),
        !email_taken(old(table)@, email@) && !id_taken(old(table)@, id) && password.spec_bytes().len()
            <= MAX_PASSWORD_LEN ==> r is Ok,
{
    let r = register_hashed(table, id, name, email, hash_password(password));
    proof {
        if r is Ok {
            assert(table@.drop_last() =~= old(table)@);
        }
    }
    r
}

/// Login against the account that a lookup of `email` found: checks the
/// password against the stored hash, then issues a token pair at `now`.
pub fn login_with_account(
    found: Option<&AppUser>,
    email: &str,
    password: &str,
    config: &Config,
    now: u64,
) -> (r: Result<Tokens, LoginUserError>)
    ensures
        login_outcome(
            match found {
                Some(u) => Some(u@),
                None => None,
            },
            email@,
            password.spec_bytes(),
            *config,
            now,
            r,
        ),
{
    let user = match found {
        Some(u) => u,
        None => return Err(LoginUserError::UserNotFoundError(email.to_owned())),
    };
    match verify_password(password, user.password_hash.as_str()) {
        Err(_) => Err(LoginUserError::CouldNotHashError),
        Ok(false) => Err(LoginUserError::InvalidCredentialError),
        Ok(true) => generate_tokens(user.id, config, now),
    }
}

/// Login with an email and a password against the account table.
pub fn login_user(
    table: &AppUserTable,
    email: &str,
    password: &str,
    config: &Config,
    now: u64,
) -> (r: Result<Tokens, LoginUserError>)
    requires
        table.wf(),
    ensures
        login_outcome(lookup_email(table@, email@), email@, password.spec_bytes(), *config, now, r),
{
    login_with_account(table.find_user_by_email(email), email, password, config, now)
}

/// Verifies a refresh token at `now` and issues a fresh pair for its subject.
/// Any failure of the token is reported as invalid credentials.
pub fn refresh_access_token(refresh_token: &str, config: &Config, now: u64) -> (r: Result<Tokens, LoginUserError>)
    ensures
        refresh_outcome(refresh_token@, *config, now, r),
{
    match config.refresh_service().verify(refresh_token, now) {
        Err(_) => Err(LoginUserError::InvalidCredentialError),
        Ok(claims) => generate_tokens(claims.subject, config, now),
    }
}

/// An account just registered can log in with the same email and password:
/// login issues a pair for the new account's identifier whenever a pair can
/// be issued, and otherwise reports only a token-generation failure.
pub proof fn register_then_login(
    before: Seq<AccountRow>,
    after: Seq<AccountRow>,
    id: u128,
    name: Seq<char>,
    email: Seq<char>,
    password: Seq<u8>,
    config: Config,
    now: u64,
    r: Result<Tokens, LoginUserError>,
)
    requires
        rows_unique(after),
        registered(before, after, id, name, email, password),
        login_outcome(lookup_email(after, email), email, password, config, now, r),
    ensures
        r matches Ok(t) ==> tokens_issued(t, id, config, now),
        r matches Err(e) ==> e is TokenGenerationError,
        r is Ok <==> can_issue(config, now),
{
    let last = after.len() - 1;
    assert(after[last].email == email);
    assert(email_taken(after, email));
    let k = choose|i: int| 0 <= i < after.len() && (#[trigger] after[i]).email == email;
    assert(k == last);
}

/// Registering a second time with a taken email is refused as a conflict,
/// and the table still holds exactly one account with it.
pub proof fn second_registration_conflicts(
    before: Seq<AccountRow>,
    after: Seq<AccountRow>,
    id: u128,
    name: Seq<char>,
    email: Seq<char>,
    password: Seq<u8>,
    final_rows: Seq<AccountRow>,
    id2: u128,
    name2: Seq<char>,
    password2: Seq<u8>,
    r: Result<FilteredAppUserModel, RegisterUserError>,
)
    requires
        rows_unique(after),
        registered(before, after, id, name, email, password),
        password2.len() <= MAX_PASSWORD_LEN,
        register_outcome(after, final_rows, id2, name2, email, password2, r),
    ensures
        (r matches Err(RegisterUserError::UserAlreadyExists { email: e }) && e@ == email),
        final_rows == after,
        email_taken(final_rows, email),
        forall|i: int, j: int|
            0 <= i < final_rows.len() && 0 <= j < final_rows.len() && (#[trigger] final_rows[i]).email == email
                && (#[trigger] final_rows[j]).email == email ==> i == j,
{
    let last = after.len() - 1;
    assert(after[last].email == email);
    assert(email_taken(after, email));
}

/// A refresh token whose signature is rejected, or which is presented at or
/// after its expiry, yields invalid credentials and no tokens.
pub proof fn refresh_rejects_bad_tokens(token: Seq<char>, config: Config, now: u64, r: Result<Tokens, LoginUserError>)
    requires
        refresh_outcome(token, config, now, r),
        eddsa_decode(token, config.refresh_token_public_key@) == Err::<crate::token::ClaimFields, TokenError>(
            TokenError::InvalidSignature,
        ) || (eddsa_decode(token, config.refresh_token_public_key@) matches Ok(f) && (claims_of_fields(f) matches Some(c)
            && c.expires_at <= now)),
    ensures
        r is Err && r->Err_0 is InvalidCredentialError,
{
}


/// Issuing a pair is deterministic: two issues for the same account, keys
/// and instant agree on success and give the same tokens.
pub proof fn token_generation_deterministic(
    user_id: u128,
    config: Config,
    now: u64,
    r1: Result<Tokens, LoginUserError>,
    r2: Result<Tokens, LoginUserError>,
)
    requires
        issue_outcome(user_id, config, now, r1),
        issue_outcome(user_id, config, now, r2),
    ensures
        r1 is Ok <==> r2 is Ok,
        r1 is Ok ==> r1->Ok_0.access_token@ == r2->Ok_0.access_token@ && r1->Ok_0.refresh_token@
            == r2->Ok_0.refresh_token@,
        r1 is Err ==> r1->Err_0 is TokenGenerationError && r2->Err_0 is TokenGenerationError,
{
}

/// Refresh tokens are not revoked: a refresh token that was accepted once is
/// accepted again at any later instant before its expiry at which a pair can
/// be issued, for the same subject.
pub proof fn refresh_token_reusable(
    token: Seq<char>,
    config: Config,
    now1: u64,
    now2: u64,
    r1: Result<Tokens, LoginUserError>,
    r2: Result<Tokens, LoginUserError>,
)
    requires
        refresh_outcome(token, config, now1, r1),
        r1 is Ok,
        eddsa_decode(token, config.refresh_token_public_key@) matches Ok(f) && (claims_of_fields(f) matches Some(
            c,
        ) && now2 < c.expires_at),
        lifetimes_fit(config, now2),
        refresh_outcome(token, config, now2, r2),
    ensures
        r2 is Ok,
{
}

} // verus!
