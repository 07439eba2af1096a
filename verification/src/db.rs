//! The key of the encrypted database, and the files that stand beside it.

use crate::codec::{all_hex, hex_encode, hex_text, is_all_hex, law_hex_round_trip, random_bytes};
use crate::text::{cat, cat3, char_count, opt_view, trim, trimmed};
use vstd::prelude::*;

verus! {

/// The bytes of a key.
pub const KEY_BYTES: usize = 32;

/// The hexadecimal digits of a key.
pub const KEY_DIGITS: usize = 64;

/// A name, or what stands in for a missing one.
pub open spec fn name_or(name: Option<Seq<char>>, default: Seq<char>) -> Seq<char> {
    match name {
        Some(n) => n,
        None => default,
    }
}

/// The name of the key file beside a database file of that name.
pub open spec fn key_file(db_name: Option<Seq<char>>) -> Seq<char> {
    name_or(db_name, "erp"@) + ".key"@
}

/// The name of the key file beside a database file. `db_name` is the last part
/// of the database's path, where it has one.
pub fn key_path_for(db_name: &Option<String>) -> (s: String)
    ensures
        s@ == key_file(opt_view(*db_name)),
{
    match db_name {
        Some(n) => cat(n.as_str(), ".key"),
        None => cat("erp", ".key"),
    }
}

/// The names of the files of a restore that waits for the next start.
#[derive(Debug)]
pub struct PendingNames {
    pub database: String,
    pub key: String,
}

/// The names of the files of a restore that waits for the next start: those of
/// the live files with a suffix.
pub fn pending_restore_names(db_name: &Option<String>) -> (p: PendingNames)
    ensures
        p.database@ == name_or(opt_view(*db_name), "erp.db"@) + ".restore-pending"@,
        p.key@ == key_file(opt_view(*db_name)) + ".restore-pending"@,
{
    let database = match db_name {
        Some(n) => cat(n.as_str(), ".restore-pending"),
        None => cat("erp.db", ".restore-pending"),
    };
    PendingNames { database, key: cat(key_path_for(db_name).as_str(), ".restore-pending") }
}

/// A waiting restore never has the name of a live file.
pub proof fn law_pending_files_are_apart(db_name: Seq<char>)
    ensures
        db_name + ".restore-pending"@ != db_name,
        db_name + ".restore-pending"@ != key_file(Some(db_name)),
        key_file(Some(db_name)) + ".restore-pending"@ != key_file(Some(db_name)),
        key_file(Some(db_name)) + ".restore-pending"@ != db_name,
        key_file(Some(db_name)) != db_name,
{
    reveal_strlit(".restore-pending");
    reveal_strlit(".key");
    assert((db_name + ".restore-pending"@).len() == db_name.len() + 16);
    assert(key_file(Some(db_name)).len() == db_name.len() + 4);
}

/// Whether a text is a key.
pub open spec fn is_key(text: Seq<char>) -> bool {
    text.len() == KEY_DIGITS && all_hex(text)
}

/// The key in the contents of a key file, without white space around it;
/// `None` where the file is corrupted.
pub fn read_key(contents: &str) -> (r: Option<String>)
    ensures
        match r {
            Some(k) => is_key(trimmed(contents@)) && k@ == trimmed(contents@),
            None => !is_key(trimmed(contents@)),
        },
{
    let k = trim(contents);
    if char_count(k.as_str()) == KEY_DIGITS && is_all_hex(k.as_str()) {
        Some(k)
    } else {
        None
    }
}

/// The key of some random bytes.
pub fn key_of(bytes: &Vec<u8>) -> (k: String)
    requires
        bytes@.len() == KEY_BYTES,
    ensures
        k@ == hex_text(bytes@),
        is_key(k@),
{
    proof {
        law_hex_round_trip(bytes@);
    }
    hex_encode(bytes)
}

/// Makes a new key. Which one cannot be said.
pub fn new_key() -> (k: String)
    ensures
        is_key(k@),
{
    key_of(&random_bytes(KEY_BYTES))
}

/// What is written as a key is read back as that key.
pub proof fn law_keys_come_back(bytes: Seq<u8>)
    requires
        bytes.len() == KEY_BYTES,
    ensures
        is_key(trimmed(hex_text(bytes))),
        trimmed(hex_text(bytes)) == hex_text(bytes),
{
    law_hex_round_trip(bytes);
    let s = hex_text(bytes);
    assert(crate::codec::hex_digit(s[0]) is Some);
    assert(crate::codec::hex_digit(s[s.len() - 1]) is Some);
    crate::text::lemma_trim_fixed(s);
}

/// The statement that opens a database with a raw key.
pub fn key_statement(key_hex: &str) -> (s: String)
    ensures
        s@ == "PRAGMA key = \"x'"@ + key_hex@ + "'\";"@,
{
    cat3("PRAGMA key = \"x'", key_hex, "'\";")
}

} // verus!
