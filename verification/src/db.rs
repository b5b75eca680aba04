//! The dictionary store: owns the single storage connection and exposes
//! get-or-create lookups, the atomic dictionary replace, and prefix search.
//!
//! The store is a single-connection, synchronous component: every operation
//! runs to completion before returning, and the store must not be used from
//! two execution contexts at once without external mutual exclusion.

use vstd::prelude::*;
use vstd::string::StringExecFns;

use crate::ids::{Dict, Document, Id};
use crate::model::{
    all_matched_rows_parse, fresh_id, get_or_create_err, get_or_create_step,
    lemma_get_or_create_preserves_wf, lemma_step_implies_err, payload_round_trips, query_output,
    replace_witness, row_for, row_matches, rows_enumerate, strip_dict, tables_wf,
    words_replace_step, Tables, WordRow,
};
use crate::sql::{
    begin_tx, commit_tx, create_schema_tables, db_pending, db_schema, db_tables, decode_payload,
    delete_word_rows, encode_payload, insert_dict_name, insert_document_name, insert_word_row,
    open_connection, parsed_payload, rollback_tx, select_dict_id, select_document_id,
    select_word_rows,
};
use crate::text::{starts_with_chars, str_to_chars};
use crate::words::{WordDef, WordDefView};

verus! {

/// The dictionary store, owning the single live connection to the embedded
/// storage backend.
pub struct Db {
    conn: rusqlite::Connection,
}

impl Db {
    /// The contents of the store's three tables.
    pub closed spec fn tables(self) -> Tables {
        db_tables(self.conn)
    }

    /// No transaction is left open between calls.
    pub closed spec fn quiescent(self) -> bool {
        db_pending(self.conn) is None
    }

    /// The three tables of the schema exist.
    pub closed spec fn schema_ok(self) -> bool {
        db_schema(self.conn)
    }

    /// A well-formed store: the schema established, well-formed tables, no
    /// open transaction.
    pub open spec fn wf(self) -> bool {
        tables_wf(self.tables()) && self.quiescent() && self.schema_ok()
    }

    /// The returned query tuples as plain values.
    pub open spec fn query_view(out: Seq<(Id<WordDef>, Id<Dict>, WordDef)>) -> Seq<
        (u64, u64, WordDefView),
    > {
        out.map_values(|t: (Id<WordDef>, Id<Dict>, WordDef)| (t.0@, t.1@, t.2@))
    }

    /// Applies all table definitions with create-if-absent semantics: safe to
    /// call on every process start regardless of prior state, and never
    /// destructive. Runs outside any transaction; on success the schema is
    /// established.
    pub fn ensure_schema(conn: &mut rusqlite::Connection) -> (r: Result<(), String>)
        requires
            db_pending(*old(conn)) is None,
        ensures
            db_tables(*final(conn)) == db_tables(*old(conn)),
            db_pending(*final(conn)) == db_pending(*old(conn)),
            r matches Ok(_) ==> db_schema(*final(conn)),
    {
        match create_schema_tables(conn) {
            Ok(()) => Ok(()),
            Err(e) => Err(e),
        }
    }

    /// Opens (or creates) the store in the named database file and applies
    /// the schema.
    pub fn open_at(path: &str) -> (r: Result<Db, String>)
        ensures
            r matches Ok(db) ==> db.wf(),
    {
        let mut conn = match open_connection(path) {
            Ok(c) => c,
            Err(e) => {
                return Err(e);
            },
        };
        match Self::ensure_schema(&mut conn) {
            Ok(()) => {},
            Err(e) => {
                return Err(e);
            },
        }
        Ok(Db { conn })
    }

    /// Opens the store in its default database file, `writer.sqlite`.
    pub fn open() -> (r: Result<Db, String>)
        ensures
            r matches Ok(db) ==> db.wf(),
    {
        let mut conn = match open_connection("writer.sqlite") {
            Ok(c) => c,
            Err(_) => {
                return Err("Could not open writer.sqlite".to_owned());
            },
        };
        match Self::ensure_schema(&mut conn) {
            Ok(()) => {},
            Err(e) => {
                return Err(e);
            },
        }
        Ok(Db { conn })
    }

    /// Get-or-create lookup of a document by name: inserts the name only if
    /// it is absent, then resolves and returns the (possibly pre-existing)
    /// id. Idempotent: repeated calls with one name return one id and create
    /// no duplicate row.
    pub fn get_document(&mut self, name: &str) -> (r: Result<Id<Document>, String>)
        requires
            old(self).wf(),
        ensures
            final(self).wf(),
            final(self).tables().dicts == old(self).tables().dicts,
            final(self).tables().words == old(self).tables().words,
            match r {
                Ok(id) => get_or_create_step(
                    old(self).tables().documents,
                    name@,
                    id@,
                    final(self).tables().documents,
                ),
                Err(_) => get_or_create_err(
                    old(self).tables().documents,
                    name@,
                    final(self).tables().documents,
                ),
            },
    {
        let ghost m0 = old(self).tables().documents;
        match insert_document_name(&mut self.conn, name) {
            Ok(()) => {},
            Err(e) => {
                return Err(e);
            },
        }
        proof {
            if !m0.contains_key(name@) {
                let i = choose|i: u64|
                    #[trigger] fresh_id(m0, i) && db_tables(self.conn).documents == m0.insert(
                        name@,
                        i,
                    );
                assert(get_or_create_step(m0, name@, i, db_tables(self.conn).documents));
                lemma_get_or_create_preserves_wf(m0, name@, i, db_tables(self.conn).documents);
                lemma_step_implies_err(m0, name@, i, db_tables(self.conn).documents);
            }
        }
        match select_document_id(&self.conn, name) {
            Ok(i) => {
                proof {
                    let m1 = db_tables(self.conn).documents;
                    if !m0.contains_key(name@) {
                        let f = choose|f: u64|
                            #[trigger] fresh_id(m0, f) && m1 == m0.insert(name@, f);
                        assert(m1[name@] == f);
                    }
                }
                Ok(Id::new(i))
            },
            Err(e) => Err(e),
        }
    }

    /// Get-or-create lookup of a dictionary by name; the same contract as
    /// for documents, in the dictionary id space.
    pub fn get_dict(&mut self, name: &str) -> (r: Result<Id<Dict>, String>)
        requires
            old(self).wf(),
        ensures
            final(self).wf(),
            final(self).tables().documents == old(self).tables().documents,
            final(self).tables().words == old(self).tables().words,
            match r {
                Ok(id) => get_or_create_step(
                    old(self).tables().dicts,
                    name@,
                    id@,
                    final(self).tables().dicts,
                ),
                Err(_) => get_or_create_err(
                    old(self).tables().dicts,
                    name@,
                    final(self).tables().dicts,
                ),
            },
    {
        let ghost m0 = old(self).tables().dicts;
        match insert_dict_name(&mut self.conn, name) {
            Ok(()) => {},
            Err(e) => {
                return Err(e);
            },
        }
        proof {
            if !m0.contains_key(name@) {
                let i = choose|i: u64|
                    #[trigger] fresh_id(m0, i) && db_tables(self.conn).dicts == m0.insert(
                        name@,
                        i,
                    );
                assert(get_or_create_step(m0, name@, i, db_tables(self.conn).dicts));
                lemma_get_or_create_preserves_wf(m0, name@, i, db_tables(self.conn).dicts);
                lemma_step_implies_err(m0, name@, i, db_tables(self.conn).dicts);
            }
        }
        match select_dict_id(&self.conn, name) {
            Ok(i) => {
                proof {
                    let m1 = db_tables(self.conn).dicts;
                    if !m0.contains_key(name@) {
                        let f = choose|f: u64|
                            #[trigger] fresh_id(m0, f) && m1 == m0.insert(name@, f);
                        assert(m1[name@] == f);
                    }
                }
                Ok(Id::new(i))
            },
            Err(e) => Err(e),
        }
    }

    /// Replaces dictionary `name`'s entries as one unit: resolves or creates
    /// the dictionary id, then, inside a single transaction, deletes every
    /// row of that dictionary and inserts one row per entry. All-or-nothing:
    /// on any failure the word table is left exactly as it was, with no
    /// partial mixture of old and new entries ever committed.
    pub fn replace_dictionary(&mut self, name: &str, defs: Vec<WordDef>) -> (r: Result<
        (),
        String,
    >)
        requires
            old(self).wf(),
        ensures
            final(self).wf(),
            final(self).tables().documents == old(self).tables().documents,
            match r {
                Ok(_) => exists|d: u64|
                    #[trigger] get_or_create_step(
                        old(self).tables().dicts,
                        name@,
                        d,
                        final(self).tables().dicts,
                    ) && words_replace_step(
                        old(self).tables().words,
                        d,
                        defs.deep_view(),
                        final(self).tables().words,
                    ),
                Err(_) => get_or_create_err(
                    old(self).tables().dicts,
                    name@,
                    final(self).tables().dicts,
                ) && final(self).tables().words == old(self).tables().words,
            },
    {
        let idw = match self.get_dict(name) {
            Ok(id) => id,
            Err(e) => {
                return Err(e);
            },
        };
        let d: u64 = idw.get();
        let ghost t_mid = self.tables();
        proof {
            lemma_step_implies_err(old(self).tables().dicts, name@, d, t_mid.dicts);
        }
        match begin_tx(&mut self.conn) {
            Ok(()) => {},
            Err(e) => {
                return Err(e);
            },
        }
        match delete_word_rows(&mut self.conn, d) {
            Ok(()) => {},
            Err(e) => {
                let _ = rollback_tx(&mut self.conn);
                return Err(e);
            },
        }
        let ghost base = strip_dict(t_mid.words, d);
        proof {
            assert(base.dom().subset_of(t_mid.words.dom()));
            vstd::set_lib::lemma_set_subset_finite(t_mid.words.dom(), base.dom());
        }
        let mut i: usize = 0;
        let ghost mut ids: Seq<u64> = Seq::empty();
        while i < defs.len()
            invariant
                i <= defs@.len(),
                old(self).wf(),
                tables_wf(t_mid),
                t_mid.documents == old(self).tables().documents,
                t_mid.words == old(self).tables().words,
                get_or_create_step(old(self).tables().dicts, name@, d, t_mid.dicts),
                db_pending(self.conn) == Some(t_mid),
                db_schema(self.conn),
                db_tables(self.conn).documents == t_mid.documents,
                db_tables(self.conn).dicts == t_mid.dicts,
                base == strip_dict(t_mid.words, d),
                base.dom().finite(),
                db_tables(self.conn).words.dom().finite(),
                ids.len() == i,
                forall|a: int, b: int| 0 <= a < b < i ==> ids[a] != ids[b],
                forall|a: int| 0 <= a < i ==> !base.contains_key(#[trigger] ids[a]),
                forall|k: u64| #[trigger]
                    db_tables(self.conn).words.contains_key(k) <==> (base.contains_key(k)
                        || ids.contains(k)),
                forall|a: int|
                    0 <= a < i ==> db_tables(self.conn).words[#[trigger] ids[a]] == row_for(
                        d,
                        defs.deep_view()[a],
                    ),
                forall|k: u64|
                    base.contains_key(k) && !ids.contains(k) ==> db_tables(self.conn).words[k]
                        == base[k],
                payload_round_trips(defs.deep_view().take(i as int)),
            decreases defs@.len() - i,
        {
            let w = &defs[i];
            let data = match encode_payload(&w.pinyin, &w.defs) {
                Ok(s) => s,
                Err(e) => {
                    let _ = rollback_tx(&mut self.conn);
                    return Err(e);
                },
            };
            let ghost prev_words = db_tables(self.conn).words;
            let ghost dv = defs.deep_view();
            match insert_word_row(
                &mut self.conn,
                d,
                w.simplified.as_str(),
                w.traditional.as_str(),
                data.as_str(),
            ) {
                Ok(()) => {
                    proof {
                        let row = WordRow {
                            dict: d,
                            simplified: w.simplified@,
                            traditional: w.traditional@,
                            data: data@,
                        };
                        let k = choose|k: u64|
                            !prev_words.contains_key(k) && db_tables(self.conn).words
                                == prev_words.insert(k, row);
                        assert(dv[i as int] == defs@[i as int].deep_view());
                        assert(row == row_for(d, dv[i as int]));
                        let old_ids = ids;
                        ids = ids.push(k);
                        assert forall|c: u64| ids.contains(c) <==> (old_ids.contains(c) || c
                            == k) by {
                            if ids.contains(c) {
                                let a = choose|a: int| 0 <= a < ids.len() && ids[a] == c;
                                if a < old_ids.len() {
                                    assert(old_ids[a] == c);
                                }
                            }
                            if old_ids.contains(c) {
                                let a = choose|a: int|
                                    0 <= a < old_ids.len() && old_ids[a] == c;
                                assert(ids[a] == c);
                            }
                            if c == k {
                                assert(ids[old_ids.len() as int] == c);
                            }
                        }
                        assert forall|a: int| 0 <= a < i + 1 implies !base.contains_key(
                            #[trigger] ids[a],
                        ) by {
                            if a < i {
                                assert(!base.contains_key(old_ids[a]));
                            } else {
                                assert(!prev_words.contains_key(k));
                            }
                        }
                        assert forall|a: int| 0 <= a < i + 1 implies db_tables(
                            self.conn,
                        ).words[#[trigger] ids[a]] == row_for(d, dv[a]) by {
                            if a < i {
                                assert(old_ids.contains(old_ids[a]));
                                assert(prev_words.contains_key(old_ids[a]));
                                assert(ids[a] != k);
                            }
                        }
                        assert forall|a: int|
                            0 <= a < dv.take(i as int + 1).len() implies #[trigger] parsed_payload(
                            crate::sql::payload_of(
                                dv.take(i as int + 1)[a].pinyin,
                                dv.take(i as int + 1)[a].defs,
                            ),
                        ) == Some((dv.take(i as int + 1)[a].pinyin, dv.take(i as int + 1)[a].defs))
                        by {
                            assert(dv.take(i as int + 1)[a] == dv[a]);
                            if a < i {
                                assert(dv.take(i as int)[a] == dv[a]);
                                assert(parsed_payload(
                                    crate::sql::payload_of(
                                        dv.take(i as int)[a].pinyin,
                                        dv.take(i as int)[a].defs,
                                    ),
                                ) == Some((dv.take(i as int)[a].pinyin, dv.take(i as int)[a].defs)));
                            }
                        }
                    }
                    i = i + 1;
                },
                Err(e) => {
                    let _ = rollback_tx(&mut self.conn);
                    return Err(e);
                },
            }
        }
        match commit_tx(&mut self.conn) {
            Ok(()) => {
                proof {
                    assert(defs.deep_view().take(defs@.len() as int) =~= defs.deep_view());
                    assert(replace_witness(
                        t_mid.words,
                        d,
                        defs.deep_view(),
                        db_tables(self.conn).words,
                        ids,
                    ));
                    assert(get_or_create_step(
                        old(self).tables().dicts,
                        name@,
                        d,
                        db_tables(self.conn).dicts,
                    ) && words_replace_step(
                        old(self).tables().words,
                        d,
                        defs.deep_view(),
                        db_tables(self.conn).words,
                    ));
                }
                Ok(())
            },
            Err(e) => {
                let _ = rollback_tx(&mut self.conn);
                return Err(e);
            },
        }
    }

    /// Returns every stored word definition whose simplified or traditional
    /// headword begins with `prefix` — a literal prefix test on either
    /// headword — each with its row id and its dictionary's id. Row order is
    /// whatever the backend returns: callers must not rely on it. The call
    /// fails when the backend cannot be read, and always fails when some
    /// matching row's stored payload cannot be decoded, with an error naming
    /// the offending headword.
    pub fn words_starting_with(&self, prefix: &str) -> (r: Result<
        Vec<(Id<WordDef>, Id<Dict>, WordDef)>,
        String,
    >)
        ensures
            r matches Ok(out) ==> query_output(
                self.tables().words,
                prefix@,
                Self::query_view(out@),
            ),
            !all_matched_rows_parse(self.tables().words, prefix@) ==> r is Err,
    {
        let rows = match select_word_rows(&self.conn) {
            Ok(v) => v,
            Err(e) => {
                return Err(e);
            },
        };
        decode_matching(rows, prefix, Ghost(self.tables().words))
    }
}

/// The decoding stage of prefix search, factored over the fetched rows: given
/// a listing `rows` of the word table `w`, it succeeds exactly when every row
/// matching the prefix has a payload that parses, and then returns the full
/// decoded match list; otherwise it fails with an error naming the offending
/// headword.
pub fn decode_matching(
    rows: Vec<(u64, u64, String, String, String)>,
    prefix: &str,
    Ghost(w): Ghost<Map<u64, WordRow>>,
) -> (r: Result<Vec<(Id<WordDef>, Id<Dict>, WordDef)>, String>)
    requires
        rows_enumerate(w, rows@),
    ensures
        r matches Ok(out) ==> query_output(w, prefix@, Db::query_view(out@))
            && all_matched_rows_parse(w, prefix@),
        r is Err ==> !all_matched_rows_parse(w, prefix@),
{
    let pref = str_to_chars(prefix);
    let mut out: Vec<(Id<WordDef>, Id<Dict>, WordDef)> = Vec::new();
    let mut i: usize = 0;
    while i < rows.len()
        invariant
            i <= rows@.len(),
            pref@ == prefix@,
            rows_enumerate(w, rows@),
            forall|m: int|
                0 <= m < out@.len() ==> {
                    let k = (#[trigger] out@[m]).0@;
                    &&& w.contains_key(k)
                    &&& row_matches(prefix@, w[k])
                    &&& out@[m].1@ == w[k].dict
                    &&& out@[m].2@.simplified == w[k].simplified
                    &&& out@[m].2@.traditional == w[k].traditional
                    &&& parsed_payload(w[k].data) == Some(
                        (out@[m].2@.pinyin, out@[m].2@.defs),
                    )
                },
            forall|m: int|
                0 <= m < out@.len() ==> exists|j: int|
                    0 <= j < i && (#[trigger] out@[m]).0@ == rows@[j].0,
            forall|m1: int, m2: int| 0 <= m1 < m2 < out@.len() ==> out@[m1].0@ != out@[m2].0@,
            forall|j: int|
                0 <= j < i && row_matches(prefix@, w[(#[trigger] rows@[j]).0]) ==> exists|
                    m: int,
                | 0 <= m < out@.len() && (#[trigger] out@[m]).0@ == rows@[j].0,
        decreases rows@.len() - i,
    {
        let row = &rows[i];
        let simp_chars = str_to_chars(row.2.as_str());
        let trad_chars = str_to_chars(row.3.as_str());
        let m_simp = starts_with_chars(&simp_chars, &pref);
        let m_trad = starts_with_chars(&trad_chars, &pref);
        proof {
            assert(w.contains_pair(
                rows@[i as int].0,
                WordRow {
                    dict: rows@[i as int].1,
                    simplified: rows@[i as int].2@,
                    traditional: rows@[i as int].3@,
                    data: rows@[i as int].4@,
                },
            ));
            assert((m_simp || m_trad) == row_matches(prefix@, w[rows@[i as int].0]));
        }
        if m_simp || m_trad {
            let decoded = match decode_payload(row.4.as_str()) {
                Ok(pd) => pd,
                Err(e) => {
                    proof {
                        assert(w.contains_key(rows@[i as int].0) && row_matches(
                            prefix@,
                            w[rows@[i as int].0],
                        ) && parsed_payload(w[rows@[i as int].0].data) is None);
                    }
                    let mut msg = "Could not decode stored entry ".to_owned();
                    msg.append(row.2.as_str());
                    msg.append(": ");
                    msg.append(e.as_str());
                    return Err(msg);
                },
            };
            let (pinyin, defs2) = decoded;
            let entry = WordDef {
                simplified: row.2.clone(),
                traditional: row.3.clone(),
                pinyin,
                defs: defs2,
            };
            let ghost prev = out@;
            out.push((Id::new(row.0), Id::new(row.1), entry));
            proof {
                assert forall|m: int| 0 <= m < out@.len() implies exists|j: int|
                    0 <= j < i + 1 && (#[trigger] out@[m]).0@ == rows@[j].0 by {
                    if m < prev.len() {
                        assert(out@[m] == prev[m]);
                        let j = choose|j: int|
                            0 <= j < i && (#[trigger] prev[m]).0@ == rows@[j].0;
                        assert(0 <= j < i + 1 && out@[m].0@ == rows@[j].0);
                    } else {
                        assert(out@[m].0@ == rows@[i as int].0);
                    }
                }
                assert forall|j: int|
                    0 <= j < i + 1 && row_matches(prefix@, w[(#[trigger] rows@[j]).0])
                        implies exists|m: int|
                    0 <= m < out@.len() && (#[trigger] out@[m]).0@ == rows@[j].0 by {
                    if j < i {
                        let m = choose|m: int|
                            0 <= m < prev.len() && (#[trigger] prev[m]).0@ == rows@[j].0;
                        assert(out@[m] == prev[m]);
                        assert(out@[m].0@ == rows@[j].0);
                    } else {
                        assert(out@[out@.len() - 1].0@ == rows@[i as int].0);
                    }
                }
            }
        } else {
            proof {
                assert forall|j: int|
                    0 <= j < i + 1 && row_matches(prefix@, w[(#[trigger] rows@[j]).0])
                        implies exists|m: int|
                    0 <= m < out@.len() && (#[trigger] out@[m]).0@ == rows@[j].0 by {
                    assert(j < i);
                }
            }
        }
        i = i + 1;
    }
    proof {
        let qv = Db::query_view(out@);
        assert forall|m: int| 0 <= m < qv.len() implies {
            let k = (#[trigger] qv[m]).0;
            &&& w.contains_key(k)
            &&& row_matches(prefix@, w[k])
            &&& qv[m].1 == w[k].dict
            &&& qv[m].2.simplified == w[k].simplified
            &&& qv[m].2.traditional == w[k].traditional
            &&& parsed_payload(w[k].data) == Some((qv[m].2.pinyin, qv[m].2.defs))
        } by {
            assert(qv[m] == (out@[m].0@, out@[m].1@, out@[m].2@));
        }
        assert forall|k: u64| #[trigger] w.contains_key(k) && row_matches(prefix@, w[k])
            implies exists|m: int| 0 <= m < qv.len() && (#[trigger] qv[m]).0 == k by {
            let j = choose|j: int| 0 <= j < rows@.len() && (#[trigger] rows@[j]).0 == k;
            let m = choose|m: int| 0 <= m < out@.len() && (#[trigger] out@[m]).0@ == rows@[j].0;
            assert(qv[m] == (out@[m].0@, out@[m].1@, out@[m].2@));
            assert(qv[m].0 == k);
        }
        assert forall|m1: int, m2: int| 0 <= m1 < m2 < qv.len() implies qv[m1].0 != qv[m2].0
            by {
            assert(qv[m1] == (out@[m1].0@, out@[m1].1@, out@[m1].2@));
            assert(qv[m2] == (out@[m2].0@, out@[m2].1@, out@[m2].2@));
        }
        assert forall|k: u64| #[trigger] w.contains_key(k) && row_matches(prefix@, w[k])
            implies parsed_payload(w[k].data) is Some by {
            let m = choose|m: int| 0 <= m < qv.len() && (#[trigger] qv[m]).0 == k;
            assert(qv[m] == (out@[m].0@, out@[m].1@, out@[m].2@));
        }
    }
    Ok(out)
}

} // verus!
