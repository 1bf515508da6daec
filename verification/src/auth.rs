//! Account and character bookkeeping rules. The database itself lives
//! outside the library: these functions validate and normalise requests,
//! say which query a request needs, and turn the query results into the
//! outcome the server reports.
use vstd::prelude::*;

use crate::text::{chars_eq, chars_of, string_of, trim_spec, trim_str};

verus! {

/// The six ability scores of a character, plus its guard rank.
#[derive(Debug, Clone, Copy, PartialEq, Eq, Structural)]
pub struct CharacterAttributes {
    pub str: u8,
    pub dex: u8,
    pub con: u8,
    pub int: u8,
    pub wis: u8,
    pub cha: u8,
    pub guard: u8,
}

/// A stored character.
#[derive(Debug, Clone)]
pub struct CharacterRecord {
    pub id: i64,
    pub name: String,
    pub created_at: i64,
    pub level: u32,
    pub max_hp: u32,
    pub attributes: CharacterAttributes,
}

/// Why an account or character request failed.
#[derive(Debug)]
pub enum AuthError {
    InvalidInput(&'static str),
    AccountAlreadyExists,
    AccountNotFound,
    InvalidPassword,
    InvalidCharacterName,
    CharacterLimitReached,
    CharacterNameAlreadyExists,
    CharacterNotFound,
    Database(String),
}

/// Most characters one account may hold.
pub const MAX_CHARACTERS_PER_ACCOUNT: i64 = 3;

/// The message a client is shown for each error.
pub open spec fn client_message_spec(e: AuthError) -> Seq<char> {
    match e {
        AuthError::InvalidInput(_) => "Account name and password are required"@,
        AuthError::AccountAlreadyExists => "Account already exists"@,
        AuthError::AccountNotFound => "Account not found"@,
        AuthError::InvalidPassword => "Invalid password"@,
        AuthError::InvalidCharacterName => "Character name is required"@,
        AuthError::CharacterLimitReached => "A maximum of 3 characters can be created per account"@,
        AuthError::CharacterNameAlreadyExists => "Character name already exists"@,
        AuthError::CharacterNotFound => "Character not found"@,
        AuthError::Database(_) => "Server auth database error"@,
    }
}

/// The full description of each error (what `Display` prints).
pub open spec fn describe_spec(e: AuthError) -> Seq<char> {
    match e {
        AuthError::InvalidInput(m) => m@,
        AuthError::AccountAlreadyExists => "Account already exists"@,
        AuthError::AccountNotFound => "Account not found"@,
        AuthError::InvalidPassword => "Invalid password"@,
        AuthError::InvalidCharacterName => "Character name is required"@,
        AuthError::CharacterLimitReached => "A maximum of 3 characters can be created per account"@,
        AuthError::CharacterNameAlreadyExists => "Character name already exists"@,
        AuthError::CharacterNotFound => "Character not found"@,
        AuthError::Database(m) => "Database error: "@ + m@,
    }
}

impl AuthError {
    /// The message a client is shown for this error.
    pub fn client_message(&self) -> (r: &'static str)
        ensures
            r@ == client_message_spec(*self),
    {
        match self {
            AuthError::InvalidInput(_) => "Account name and password are required",
            AuthError::AccountAlreadyExists => "Account already exists",
            AuthError::AccountNotFound => "Account not found",
            AuthError::InvalidPassword => "Invalid password",
            AuthError::InvalidCharacterName => "Character name is required",
            AuthError::CharacterLimitReached => "A maximum of 3 characters can be created per account",
            AuthError::CharacterNameAlreadyExists => "Character name already exists",
            AuthError::CharacterNotFound => "Character not found",
            AuthError::Database(_) => "Server auth database error",
        }
    }

    /// The full description of this error.
    pub fn describe(&self) -> (r: String)
        ensures
            r@ == describe_spec(*self),
    {
        match self {
            AuthError::InvalidInput(m) => String::from_str(m),
            AuthError::AccountAlreadyExists => String::from_str("Account already exists"),
            AuthError::AccountNotFound => String::from_str("Account not found"),
            AuthError::InvalidPassword => String::from_str("Invalid password"),
            AuthError::InvalidCharacterName => String::from_str("Character name is required"),
            AuthError::CharacterLimitReached => String::from_str("A maximum of 3 characters can be created per account"),
            AuthError::CharacterNameAlreadyExists => String::from_str("Character name already exists"),
            AuthError::CharacterNotFound => String::from_str("Character not found"),
            AuthError::Database(m) => String::from_str("Database error: ").concat(m.as_str()),
        }
    }
}

/// The database query an authentication request needs.
#[derive(Debug, PartialEq, Eq)]
pub enum AuthQuery {
    /// Insert a new account unless the name is taken.
    CreateAccount { player_name: String, password_hash: String },
    /// Compare the stored hash of the account with the given one.
    VerifyLogin { player_name: String, password_hash: String },
}

/// The account database handle: where the database file lives.
#[derive(Debug, Clone)]
pub struct AuthService {
    pub db_path: String,
}

/// Message of the missing-credentials error.
pub open spec fn credentials_required() -> Seq<char> {
    "Player name and password hash are required"@
}

/// Message of the missing-account-name error.
pub open spec fn account_name_required() -> Seq<char> {
    "Account name is required"@
}

impl AuthService {
    /// A handle on the database at `db_path`.
    pub fn new(db_path: String) -> (r: AuthService)
        ensures
            r.db_path@ == db_path@,
    {
        AuthService { db_path }
    }

    /// `data/game_data.db` when a `data` directory exists in the working
    /// directory, `../data/game_data.db` otherwise.
    pub fn default_db_path(data_dir_exists: bool) -> (r: String)
        ensures
            data_dir_exists ==> r@ == "data/game_data.db"@,
            !data_dir_exists ==> r@ == "../data/game_data.db"@,
    {
        if data_dir_exists {
            String::from_str("data/game_data.db")
        } else {
            String::from_str("../data/game_data.db")
        }
    }

    /// Normalise credentials (both trimmed) and say which query the
    /// request needs; empty credentials are refused.
    pub fn authenticate(&self, player_name: &str, password_hash: &str, create_account: bool) -> (r: Result<AuthQuery, AuthError>)
        ensures
            (trim_spec(player_name@).len() == 0 || trim_spec(password_hash@).len() == 0) ==> match r {
                Err(AuthError::InvalidInput(m)) => m@ == credentials_required(),
                _ => false,
            },
            (trim_spec(player_name@).len() > 0 && trim_spec(password_hash@).len() > 0) ==> match r {
                Ok(AuthQuery::CreateAccount { player_name: n, password_hash: h }) =>
                    create_account && n@ == trim_spec(player_name@) && h@ == trim_spec(password_hash@),
                Ok(AuthQuery::VerifyLogin { player_name: n, password_hash: h }) =>
                    !create_account && n@ == trim_spec(player_name@) && h@ == trim_spec(password_hash@),
                Err(_) => false,
            },
    {
        let name = trim_str(player_name);
        let hash = trim_str(password_hash);
        if name.len() == 0 || hash.len() == 0 {
            return Err(AuthError::InvalidInput("Player name and password hash are required"));
        }
        let player_name = string_of(&name);
        let password_hash = string_of(&hash);
        if create_account {
            Ok(AuthQuery::CreateAccount { player_name, password_hash })
        } else {
            Ok(AuthQuery::VerifyLogin { player_name, password_hash })
        }
    }

    /// Outcome of creating an account, given whether the name was taken.
    pub fn create_account_result(existing: bool) -> (r: Result<(), AuthError>)
        ensures
            existing ==> r matches Err(AuthError::AccountAlreadyExists),
            !existing ==> r is Ok,
    {
        if existing {
            Err(AuthError::AccountAlreadyExists)
        } else {
            Ok(())
        }
    }

    /// Outcome of a login, given the stored hash of the account (if the
    /// account exists).
    pub fn verify_login_result(stored_hash: Option<&str>, password_hash: &str) -> (r: Result<(), AuthError>)
        ensures
            stored_hash.is_none() ==> r matches Err(AuthError::AccountNotFound),
            stored_hash.is_some() && stored_hash.unwrap()@ == password_hash@ ==> r is Ok,
            stored_hash.is_some() && stored_hash.unwrap()@ != password_hash@ ==> r matches Err(AuthError::InvalidPassword),
    {
        match stored_hash {
            None => Err(AuthError::AccountNotFound),
            Some(hash) => {
                let a = chars_of(hash);
                let b = chars_of(password_hash);
                if chars_eq(&a, &b) {
                    Ok(())
                } else {
                    Err(AuthError::InvalidPassword)
                }
            },
        }
    }

    /// A trimmed, non-empty account name.
    pub fn normalize_account_name(account_name: &str) -> (r: Result<String, AuthError>)
        ensures
            trim_spec(account_name@).len() == 0 ==> match r {
                Err(AuthError::InvalidInput(m)) => m@ == account_name_required(),
                _ => false,
            },
            trim_spec(account_name@).len() > 0 ==> match r {
                Ok(n) => n@ == trim_spec(account_name@),
                Err(_) => false,
            },
    {
        let name = trim_str(account_name);
        if name.len() == 0 {
            return Err(AuthError::InvalidInput("Account name is required"));
        }
        Ok(string_of(&name))
    }

    /// Validate a request about one character of an account (delete or
    /// fetch): the trimmed account name, refused when empty, then a
    /// positive character id.
    pub fn character_request(account_name: &str, character_id: i64) -> (r: Result<String, AuthError>)
        ensures
            trim_spec(account_name@).len() == 0 ==> match r {
                Err(AuthError::InvalidInput(m)) => m@ == account_name_required(),
                _ => false,
            },
            trim_spec(account_name@).len() > 0 && character_id <= 0 ==> r matches Err(AuthError::CharacterNotFound),
            trim_spec(account_name@).len() > 0 && character_id > 0 ==> match r {
                Ok(n) => n@ == trim_spec(account_name@),
                Err(_) => false,
            },
    {
        let name = Self::normalize_account_name(account_name)?;
        if character_id <= 0 {
            return Err(AuthError::CharacterNotFound);
        }
        Ok(name)
    }

    /// Validate a character creation request: trimmed account and
    /// character names, neither empty.
    pub fn create_character_request(account_name: &str, character_name: &str) -> (r: Result<(String, String), AuthError>)
        ensures
            trim_spec(account_name@).len() == 0 ==> match r {
                Err(AuthError::InvalidInput(m)) => m@ == account_name_required(),
                _ => false,
            },
            trim_spec(account_name@).len() > 0 && trim_spec(character_name@).len() == 0
                ==> r matches Err(AuthError::InvalidCharacterName),
            trim_spec(account_name@).len() > 0 && trim_spec(character_name@).len() > 0 ==> match r {
                Ok((a, c)) => a@ == trim_spec(account_name@) && c@ == trim_spec(character_name@),
                Err(_) => false,
            },
    {
        let account = Self::normalize_account_name(account_name)?;
        let name = trim_str(character_name);
        if name.len() == 0 {
            return Err(AuthError::InvalidCharacterName);
        }
        Ok((account, string_of(&name)))
    }

    /// Outcome of the database checks before a character is inserted: the
    /// account must exist, hold fewer than three characters, and the name
    /// must be free.
    pub fn create_character_checks(account_exists: bool, character_count: i64, name_taken: bool) -> (r: Result<(), AuthError>)
        ensures
            !account_exists ==> r matches Err(AuthError::AccountNotFound),
            account_exists && character_count >= MAX_CHARACTERS_PER_ACCOUNT ==> r matches Err(AuthError::CharacterLimitReached),
            account_exists && character_count < MAX_CHARACTERS_PER_ACCOUNT && name_taken
                ==> r matches Err(AuthError::CharacterNameAlreadyExists),
            account_exists && character_count < MAX_CHARACTERS_PER_ACCOUNT && !name_taken ==> r is Ok,
            r is Ok <==> may_create_character(account_exists, character_count, name_taken),
    {
        if !account_exists {
            return Err(AuthError::AccountNotFound);
        }
        if character_count >= MAX_CHARACTERS_PER_ACCOUNT {
            return Err(AuthError::CharacterLimitReached);
        }
        if name_taken {
            return Err(AuthError::CharacterNameAlreadyExists);
        }
        Ok(())
    }

    /// Outcome of deleting a character, given how many rows the delete
    /// removed.
    pub fn delete_character_result(rows_affected: usize) -> (r: Result<(), AuthError>)
        ensures
            rows_affected == 0 ==> r matches Err(AuthError::CharacterNotFound),
            rows_affected > 0 ==> r is Ok,
    {
        if rows_affected == 0 {
            Err(AuthError::CharacterNotFound)
        } else {
            Ok(())
        }
    }
}

/// Whether the database checks let a character be inserted.
pub open spec fn may_create_character(account_exists: bool, character_count: i64, name_taken: bool) -> bool {
    account_exists && character_count < MAX_CHARACTERS_PER_ACCOUNT && !name_taken
}

/// No account ever holds more than `MAX_CHARACTERS_PER_ACCOUNT`
/// characters: an account within the limit stays within it whether a
/// creation request passes the checks (one more character) or not (none).
pub proof fn lemma_character_limit_kept(account_exists: bool, character_count: i64, name_taken: bool)
    requires
        0 <= character_count <= MAX_CHARACTERS_PER_ACCOUNT,
    ensures
        (if may_create_character(account_exists, character_count, name_taken) { character_count + 1 } else { character_count as int })
            <= MAX_CHARACTERS_PER_ACCOUNT,
{
}

/// A request that changes how many characters an account holds.
#[derive(Debug, Clone, Copy, PartialEq, Eq, Structural)]
pub enum CharacterChange {
    /// A creation request, with what the database checks found.
    Create { account_exists: bool, name_taken: bool },
    /// A deletion request, with whether it removed a row.
    Delete { removed: bool },
}

/// The account's character count after a run of requests: a creation adds
/// one exactly when the checks let it through, a deletion that removed a
/// row takes one away.
pub open spec fn count_after(count: int, changes: Seq<CharacterChange>) -> int
    decreases changes.len(),
{
    if changes.len() == 0 {
        count
    } else {
        let c = count_after(count, changes.drop_last());
        match changes.last() {
            CharacterChange::Create { account_exists, name_taken } =>
                if c <= i64::MAX && may_create_character(account_exists, c as i64, name_taken) { c + 1 } else { c },
            CharacterChange::Delete { removed } => if removed && c > 0 { c - 1 } else { c },
        }
    }
}

/// Whatever requests come, in any order, an account that starts within
/// the limit never holds more than `MAX_CHARACTERS_PER_ACCOUNT` characters.
pub proof fn lemma_character_limit_always(count: int, changes: Seq<CharacterChange>)
    requires
        0 <= count <= MAX_CHARACTERS_PER_ACCOUNT,
    ensures
        0 <= count_after(count, changes) <= MAX_CHARACTERS_PER_ACCOUNT,
    decreases changes.len(),
{
    if changes.len() > 0 {
        lemma_character_limit_always(count, changes.drop_last());
    }
}

} // verus!
