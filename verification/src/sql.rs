//! The trusted boundary to the storage backend and the payload codec. Every
//! function here is `external_body`: its contract states, over the names
//! below, what the relied-on outside call does, and nothing in this file is
//! checked by the verifier.
//!
//! The names below treat the database state as a function of the connection
//! value: the contracts assume this connection is the file's only writer, the
//! exclusive-ownership model the store is specified under. A second
//! connection writing the same file is outside them. The schema statements
//! run outside any transaction and nothing in this crate drops a table, so
//! every statement wrapper leaves table existence unchanged, rollback
//! included.

use vstd::prelude::*;

use crate::model::{fresh_id, rows_enumerate, strip_dict, tables_wf, Tables, WordRow};

verus! {

#[verifier::external_type_specification]
#[verifier::external_body]
pub struct ExConnection(rusqlite::Connection);

/// What an open connection currently sees in the three tables (its own
/// uncommitted changes included).
pub uninterp spec fn db_tables(conn: rusqlite::Connection) -> Tables;

/// The table state saved when the currently open transaction began, or
/// `None` when no transaction is open.
pub uninterp spec fn db_pending(conn: rusqlite::Connection) -> Option<Tables>;

/// Whether the document, dict and word_def tables exist on this connection's
/// database, with the columns the store's statements use.
pub uninterp spec fn db_schema(conn: rusqlite::Connection) -> bool;

/// The canonical text encoding of a pinyin sequence and a definition
/// sequence, as `serde_json::to_string` renders the two-element array.
pub uninterp spec fn payload_of(pinyin: Seq<Seq<char>>, defs: Seq<Seq<char>>) -> Seq<char>;

/// What a stored payload text decodes to under `serde_json::from_str`:
/// the pair of sequences, or `None` for text that does not parse.
pub uninterp spec fn parsed_payload(data: Seq<char>) -> Option<(Seq<Seq<char>>, Seq<Seq<char>>)>;

/// The open transaction, if any, was discarded: the connection again sees
/// the state saved when the transaction began, and no transaction is open.
pub open spec fn rolled_back(c0: rusqlite::Connection, c1: rusqlite::Connection) -> bool {
    &&& db_pending(c1) is None
    &&& match db_pending(c0) {
        Some(t) => db_tables(c1) == t,
        None => db_tables(c1) == db_tables(c0),
    }
}

/// A failed statement left the connection as it was — or, for the error
/// classes that abort a transaction, rolled the open transaction back.
pub open spec fn stmt_err_effect(c0: rusqlite::Connection, c1: rusqlite::Connection) -> bool {
    ||| (db_tables(c1) == db_tables(c0) && db_pending(c1) == db_pending(c0))
    ||| (db_pending(c0) is Some && rolled_back(c0, c1))
}

/// Relies on `rusqlite::Connection::open_with_flags` with the CREATE and
/// READ_WRITE flags: it opens or creates the database file, outside any
/// transaction. SQLite keys each table's rows by distinct rowids, so each
/// name table maps distinct names to distinct ids, and every table is
/// finite.
#[verifier::external_body]
pub(crate) fn open_connection(path: &str) -> (r: Result<rusqlite::Connection, String>)
    ensures
        r matches Ok(c) ==> tables_wf(db_tables(c)) && db_pending(c) is None,
{
    rusqlite::Connection::open_with_flags(
        path,
        rusqlite::OpenFlags::SQLITE_OPEN_CREATE | rusqlite::OpenFlags::SQLITE_OPEN_READ_WRITE,
    ).map_err(|e| e.to_string())
}

/// Relies on `rusqlite::Connection::execute_batch` running the three
/// `create table if not exists` statements, with no transaction open: on
/// success all three tables exist; creating tables that may already exist
/// changes no row of any table, and a failure outside a transaction changes
/// no contents and opens no transaction.
#[verifier::external_body]
pub(crate) fn create_schema_tables(conn: &mut rusqlite::Connection) -> (r: Result<(), String>)
    requires
        db_pending(*old(conn)) is None,
    ensures
        db_tables(*final(conn)) == db_tables(*old(conn)),
        db_pending(*final(conn)) == db_pending(*old(conn)),
        r matches Ok(_) ==> db_schema(*final(conn)),
{
    conn.execute_batch(
        "create table if not exists document (name text not null unique) strict;
         create table if not exists dict (name text not null unique) strict;
         create table if not exists word_def (dict integer not null, simplified text not null, traditional text not null, data text not null) strict;",
    ).map_err(|e| e.to_string())
}

/// Relies on `rusqlite::Connection::execute` running `insert into document
/// (name) values (?1) on conflict(name) do nothing`: on success an existing
/// name leaves the table unchanged, an absent name is added under a fresh
/// rowid no other name holds; a failed statement changes nothing (or, inside
/// a transaction, at worst aborts it).
#[verifier::external_body]
pub(crate) fn insert_document_name(conn: &mut rusqlite::Connection, name: &str) -> (r: Result<
    (),
    String,
>)
    ensures
        db_schema(*final(conn)) == db_schema(*old(conn)),
        r matches Ok(_) ==> ({
            let t0 = db_tables(*old(conn));
            let t1 = db_tables(*final(conn));
            &&& t1.dicts == t0.dicts
            &&& t1.words == t0.words
            &&& db_pending(*final(conn)) == db_pending(*old(conn))
            &&& if t0.documents.contains_key(name@) {
                t1.documents == t0.documents
            } else {
                exists|i: u64|
                    #[trigger] fresh_id(t0.documents, i) && t1.documents == t0.documents.insert(
                        name@,
                        i,
                    )
            }
        }),
        r matches Err(_) ==> stmt_err_effect(*old(conn), *final(conn)),
{
    conn.execute("insert into document (name) values (?1) on conflict(name) do nothing", [name])
        .map(|_| ()).map_err(|e| e.to_string())
}

/// Relies on `rusqlite::Connection::execute` running `insert into dict
/// (name) values (?1) on conflict(name) do nothing`; as for the document
/// table.
#[verifier::external_body]
pub(crate) fn insert_dict_name(conn: &mut rusqlite::Connection, name: &str) -> (r: Result<(), String>)
    ensures
        db_schema(*final(conn)) == db_schema(*old(conn)),
        r matches Ok(_) ==> ({
            let t0 = db_tables(*old(conn));
            let t1 = db_tables(*final(conn));
            &&& t1.documents == t0.documents
            &&& t1.words == t0.words
            &&& db_pending(*final(conn)) == db_pending(*old(conn))
            &&& if t0.dicts.contains_key(name@) {
                t1.dicts == t0.dicts
            } else {
                exists|i: u64|
                    #[trigger] fresh_id(t0.dicts, i) && t1.dicts == t0.dicts.insert(name@, i)
            }
        }),
        r matches Err(_) ==> stmt_err_effect(*old(conn), *final(conn)),
{
    conn.execute("insert into dict (name) values (?1) on conflict(name) do nothing", [name])
        .map(|_| ()).map_err(|e| e.to_string())
}

/// Relies on `rusqlite::Connection::query_row` running `select rowid from
/// document where name = ?1`: a returned id is the id the document table
/// maps the name to; reading changes nothing.
#[verifier::external_body]
pub(crate) fn select_document_id(conn: &rusqlite::Connection, name: &str) -> (r: Result<u64, String>)
    ensures
        r matches Ok(i) ==> db_tables(*conn).documents.contains_key(name@) && i == db_tables(
            *conn,
        ).documents[name@],
{
    conn.query_row("select rowid from document where name = ?1", [name], |row| {
        row.get::<_, i64>(0).map(|v| v as u64)
    }).map_err(|e| e.to_string())
}

/// Relies on `rusqlite::Connection::query_row` running `select rowid from
/// dict where name = ?1`; as for the document table.
#[verifier::external_body]
pub(crate) fn select_dict_id(conn: &rusqlite::Connection, name: &str) -> (r: Result<u64, String>)
    ensures
        r matches Ok(i) ==> db_tables(*conn).dicts.contains_key(name@) && i == db_tables(
            *conn,
        ).dicts[name@],
{
    conn.query_row("select rowid from dict where name = ?1", [name], |row| {
        row.get::<_, i64>(0).map(|v| v as u64)
    }).map_err(|e| e.to_string())
}

/// Relies on `rusqlite::Connection::execute` running `BEGIN`: on success a
/// transaction is open, the state at its start saved, and the connection's
/// view unchanged; on failure no transaction is open and nothing changed.
#[verifier::external_body]
pub(crate) fn begin_tx(conn: &mut rusqlite::Connection) -> (r: Result<(), String>)
    requires
        db_pending(*old(conn)) is None,
    ensures
        db_schema(*final(conn)) == db_schema(*old(conn)),
        db_tables(*final(conn)) == db_tables(*old(conn)),
        r matches Ok(_) ==> db_pending(*final(conn)) == Some(db_tables(*old(conn))),
        r matches Err(_) ==> db_pending(*final(conn)) is None,
{
    conn.execute("BEGIN", []).map(|_| ()).map_err(|e| e.to_string())
}

/// Relies on `rusqlite::Connection::execute` running `COMMIT`: on success
/// the transaction is closed and the connection's view kept; a failed commit
/// leaves the transaction open with the view unchanged, or rolls it back.
#[verifier::external_body]
pub(crate) fn commit_tx(conn: &mut rusqlite::Connection) -> (r: Result<(), String>)
    requires
        db_pending(*old(conn)) is Some,
    ensures
        db_schema(*final(conn)) == db_schema(*old(conn)),
        r matches Ok(_) ==> db_tables(*final(conn)) == db_tables(*old(conn)) && db_pending(
            *final(conn),
        ) is None,
        r matches Err(_) ==> stmt_err_effect(*old(conn), *final(conn)),
{
    conn.execute("COMMIT", []).map(|_| ()).map_err(|e| e.to_string())
}

/// Relies on `rusqlite::Connection::execute` running `ROLLBACK`: it discards
/// the open transaction's changes, restoring the state saved when it began;
/// with no transaction open (none was begun, or a failed statement already
/// aborted it) it fails and changes nothing. No statement of this crate is
/// left in progress when this runs, so an open transaction can be rolled
/// back.
#[verifier::external_body]
pub(crate) fn rollback_tx(conn: &mut rusqlite::Connection) -> (r: Result<(), String>)
    ensures
        db_schema(*final(conn)) == db_schema(*old(conn)),
        rolled_back(*old(conn), *final(conn)),
{
    conn.execute("ROLLBACK", []).map(|_| ()).map_err(|e| e.to_string())
}

/// Relies on `rusqlite::Connection::execute` running `delete from word_def
/// where dict = ?1`: on success exactly the rows of that dictionary are
/// gone and everything else is untouched; a failed statement changes nothing
/// (or, inside a transaction, at worst aborts it).
#[verifier::external_body]
pub(crate) fn delete_word_rows(conn: &mut rusqlite::Connection, dict_id: u64) -> (r: Result<(), String>)
    ensures
        db_schema(*final(conn)) == db_schema(*old(conn)),
        r matches Ok(_) ==> ({
            let t0 = db_tables(*old(conn));
            let t1 = db_tables(*final(conn));
            &&& t1.documents == t0.documents
            &&& t1.dicts == t0.dicts
            &&& t1.words == strip_dict(t0.words, dict_id)
            &&& db_pending(*final(conn)) == db_pending(*old(conn))
        }),
        r matches Err(_) ==> stmt_err_effect(*old(conn), *final(conn)),
{
    conn.execute("delete from word_def where dict = ?1", [dict_id as i64]).map(|_| ()).map_err(
        |e| e.to_string(),
    )
}

/// Relies on `rusqlite::Connection::execute` running `insert into word_def
/// (dict, simplified, traditional, data) values (?1, ?2, ?3, ?4)`: on
/// success one row holding exactly those four columns is added under a fresh
/// rowid and everything else is untouched; a failed statement changes
/// nothing (or, inside a transaction, at worst aborts it).
#[verifier::external_body]
pub(crate) fn insert_word_row(
    conn: &mut rusqlite::Connection,
    dict_id: u64,
    simplified: &str,
    traditional: &str,
    data: &str,
) -> (r: Result<(), String>)
    ensures
        db_schema(*final(conn)) == db_schema(*old(conn)),
        r matches Ok(_) ==> ({
            let t0 = db_tables(*old(conn));
            let t1 = db_tables(*final(conn));
            &&& t1.documents == t0.documents
            &&& t1.dicts == t0.dicts
            &&& db_pending(*final(conn)) == db_pending(*old(conn))
            &&& exists|k: u64|
                !t0.words.contains_key(k) && t1.words == t0.words.insert(
                    k,
                    WordRow {
                        dict: dict_id,
                        simplified: simplified@,
                        traditional: traditional@,
                        data: data@,
                    },
                )
        }),
        r matches Err(_) ==> stmt_err_effect(*old(conn), *final(conn)),
{
    conn.execute(
        "insert into word_def (dict, simplified, traditional, data) values (?1, ?2, ?3, ?4)",
        (dict_id as i64, simplified, traditional, data),
    ).map(|_| ()).map_err(|e| e.to_string())
}

/// Relies on `rusqlite::Connection::prepare` and `Statement::query_map`
/// running `select rowid, dict, simplified, traditional, data from
/// word_def`: on success the returned vector lists every row of the word
/// table exactly once, keyed by its rowid; reading changes nothing.
#[verifier::external_body]
pub(crate) fn select_word_rows(conn: &rusqlite::Connection) -> (r: Result<
    Vec<(u64, u64, String, String, String)>,
    String,
>)
    ensures
        r matches Ok(v) ==> rows_enumerate(db_tables(*conn).words, v@),
{
    let run = || -> rusqlite::Result<Vec<(u64, u64, String, String, String)>> {
        let mut stmt = conn.prepare("select rowid, dict, simplified, traditional, data from word_def")?;
        let rows = stmt.query_map([], |row| {
            Ok((
                row.get::<_, i64>(0)? as u64,
                row.get::<_, i64>(1)? as u64,
                row.get(2)?,
                row.get(3)?,
                row.get(4)?,
            ))
        })?;
        rows.collect()
    };
    run().map_err(|e| e.to_string())
}

/// Relies on `serde_json::to_string` serialising a two-element array of
/// string vectors: the output is a deterministic function of the two
/// vectors alone, and `serde_json::from_str` parses it back to equal
/// vectors — serde_json round-trips these types losslessly.
#[verifier::external_body]
pub(crate) fn encode_payload(pinyin: &Vec<String>, defs: &Vec<String>) -> (r: Result<String, String>)
    ensures
        r matches Ok(s) ==> s@ == payload_of(pinyin.deep_view(), defs.deep_view())
            && parsed_payload(s@) == Some((pinyin.deep_view(), defs.deep_view())),
{
    serde_json::to_string(&[pinyin, defs]).map_err(|e| e.to_string())
}

/// Relies on `serde_json::from_str` parsing into a pair of string vectors:
/// the outcome is a deterministic function of the input text — the decoded
/// pair for text that parses, an error otherwise.
#[verifier::external_body]
pub(crate) fn decode_payload(data: &str) -> (r: Result<(Vec<String>, Vec<String>), String>)
    ensures
        match r {
            Ok(pd) => parsed_payload(data@) == Some((pd.0.deep_view(), pd.1.deep_view())),
            Err(e) => parsed_payload(data@) is None,
        },
{
    serde_json::from_str::<(Vec<String>, Vec<String>)>(data).map_err(|e| e.to_string())
}

} // verus!
