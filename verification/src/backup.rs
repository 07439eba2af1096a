//! Backups: the passphrase that wraps the database's key, the payload of a
//! backup, and what a restore must be before it is staged.

use crate::codec::{base64_bytes, base64_decode, base64_encode, base64_text};
use crate::db::{is_key, read_key};
use crate::text::{cat3, char_count, double_char, doubled, trim, trimmed};
use vstd::prelude::*;

verus! {

/// What a backup file holds.
#[derive(Debug)]
pub struct BackupData {
    /// The encrypted database.
    pub database_base64: String,
    /// The key of the database, itself encrypted under the passphrase.
    pub wrapped_key_base64: String,
    pub created_at: String,
    /// Which program's database it is.
    pub schema_version: String,
}

/// What a restore is given.
#[derive(Debug)]
pub struct RestoreInput {
    pub database_base64: String,
    pub wrapped_key_base64: String,
    pub passphrase: String,
}

/// Why a backup or a restore is refused.
#[derive(Clone, Copy, PartialEq, Eq, Structural, Debug)]
pub enum BackupError {
    /// The passphrase has fewer than eight characters.
    ShortPassphrase,
    /// The key section cannot be decoded.
    BadKeySection,
    /// What the key section holds is no key.
    NoKey,
    /// The database section cannot be decoded.
    BadDatabase,
    /// The database cannot be opened with the key.
    CannotOpen,
    /// The database is not one of this program.
    NotOurs,
}

/// The sentence for a refused backup or restore.
pub fn backup_error_text(e: BackupError) -> (s: &'static str)
    ensures
        s@ == match e {
            BackupError::ShortPassphrase => "a backup passphrase needs to be at least 8 characters"@,
            BackupError::BadKeySection => "could not decode the backup file's key section — it may be corrupted"@,
            BackupError::NoKey =>
                "invalid key recovered from backup — this doesn't look like a backup from this app"@,
            BackupError::BadDatabase => "could not decode the backup file — it may be corrupted"@,
            BackupError::CannotOpen =>
                "this backup could not be decrypted with the key provided — the file may be corrupted or from a different install"@,
            BackupError::NotOurs => "this file doesn't look like an SME Pro backup — missing expected tables"@,
        },
{
    match e {
        BackupError::ShortPassphrase => "a backup passphrase needs to be at least 8 characters",
        BackupError::BadKeySection => "could not decode the backup file's key section — it may be corrupted",
        BackupError::NoKey => "invalid key recovered from backup — this doesn't look like a backup from this app",
        BackupError::BadDatabase => "could not decode the backup file — it may be corrupted",
        BackupError::CannotOpen =>
            "this backup could not be decrypted with the key provided — the file may be corrupted or from a different install",
        BackupError::NotOurs => "this file doesn't look like an SME Pro backup — missing expected tables",
    }
}

/// The fewest characters of a passphrase, white space around it aside.
pub const MIN_PASSPHRASE: usize = 8;

/// Checks a passphrase before a key is wrapped with it.
pub fn check_passphrase(passphrase: &str) -> (r: Result<(), BackupError>)
    ensures
        r == (if trimmed(passphrase@).len() < MIN_PASSPHRASE {
            Err::<(), BackupError>(BackupError::ShortPassphrase)
        } else {
            Ok::<(), BackupError>(())
        }),
{
    if char_count(trim(passphrase).as_str()) < MIN_PASSPHRASE {
        Err(BackupError::ShortPassphrase)
    } else {
        Ok(())
    }
}

/// The statement that opens a database with a passphrase, quotes and all.
pub fn passphrase_statement(passphrase: &str) -> (s: String)
    ensures
        s@ == "PRAGMA key = '"@ + doubled(passphrase@, '\'') + "';"@,
{
    cat3("PRAGMA key = '", double_char(passphrase, '\'').as_str(), "';")
}

/// The payload of a backup: the encrypted database and the wrapped key as
/// text.
pub fn create_backup(database: &Vec<u8>, wrapped_key: &Vec<u8>, created_at: &str) -> (b: BackupData)
    requires
        database@.len() <= usize::MAX / 8,
        wrapped_key@.len() <= usize::MAX / 8,
    ensures
        b.database_base64@ == base64_text(database@),
        b.wrapped_key_base64@ == base64_text(wrapped_key@),
        base64_bytes(b.database_base64@) == Some(database@),
        base64_bytes(b.wrapped_key_base64@) == Some(wrapped_key@),
        b.created_at@ == created_at@,
        b.schema_version@ == "sme-pro-v1"@,
{
    BackupData {
        database_base64: base64_encode(database),
        wrapped_key_base64: base64_encode(wrapped_key),
        created_at: created_at.to_owned(),
        schema_version: "sme-pro-v1".to_owned(),
    }
}

/// The bytes of the wrapped key of a restore.
pub fn wrapped_key_of(input: &RestoreInput) -> (r: Result<Vec<u8>, BackupError>)
    ensures
        match r {
            Ok(b) => base64_bytes(input.wrapped_key_base64@) == Some(b@),
            Err(e) => base64_bytes(input.wrapped_key_base64@) is None && e == BackupError::BadKeySection,
        },
{
    match base64_decode(input.wrapped_key_base64.as_str()) {
        Some(b) => Ok(b),
        None => Err(BackupError::BadKeySection),
    }
}

/// A restore that is ready to be tried: the key and the database.
#[derive(Debug)]
pub struct StagedRestore {
    pub key_hex: String,
    pub database: Vec<u8>,
}

/// Reads a restore once its key was unwrapped. `unwrapped` is the text that
/// the wrapped key held.
pub fn stage_restore(input: &RestoreInput, unwrapped: &str) -> (r: Result<StagedRestore, BackupError>)
    ensures
        match r {
            Ok(s) => {
                &&& is_key(trimmed(unwrapped@)) && s.key_hex@ == trimmed(unwrapped@)
                &&& base64_bytes(input.database_base64@) == Some(s.database@)
            },
            Err(e) => if !is_key(trimmed(unwrapped@)) {
                e == BackupError::NoKey
            } else {
                base64_bytes(input.database_base64@) is None && e == BackupError::BadDatabase
            },
        },
{
    match read_key(unwrapped) {
        None => Err(BackupError::NoKey),
        Some(key_hex) => match base64_decode(input.database_base64.as_str()) {
            None => Err(BackupError::BadDatabase),
            Some(database) => Ok(StagedRestore { key_hex, database }),
        },
    }
}

/// Decides whether a restore may be staged, once its database was tried:
/// `opened` says whether the key fits, and `has_businesses` whether the table
/// that every database of this program has is there.
pub fn validation_result(opened: bool, has_businesses: bool) -> (r: Result<(), BackupError>)
    ensures
        r == (if !opened {
            Err::<(), BackupError>(BackupError::CannotOpen)
        } else if !has_businesses {
            Err::<(), BackupError>(BackupError::NotOurs)
        } else {
            Ok::<(), BackupError>(())
        }),
{
    if !opened {
        Err(BackupError::CannotOpen)
    } else if !has_businesses {
        Err(BackupError::NotOurs)
    } else {
        Ok(())
    }
}

} // verus!
