//! The mathematical model of the store: the contents of the three tables,
//! their invariants, and what each store operation does to them. The laws at
//! the end state the store's guarantees over this model.

use vstd::prelude::*;

use crate::sql::{parsed_payload, payload_of};
use crate::text::is_prefix_of;
use crate::words::WordDefView;

verus! {

/// One stored word-definition row: the owning dictionary's id, the two
/// headwords, and the encoded payload text holding the pinyin and
/// definition sequences.
pub struct WordRow {
    pub dict: u64,
    pub simplified: Seq<char>,
    pub traditional: Seq<char>,
    pub data: Seq<char>,
}

/// The contents of the three tables: each name table as a map from name to
/// id, the word table as a map from row id to row.
pub struct Tables {
    pub documents: Map<Seq<char>, u64>,
    pub dicts: Map<Seq<char>, u64>,
    pub words: Map<u64, WordRow>,
}

/// A name table is finite and assigns distinct ids to distinct names.
pub open spec fn id_map_wf(m: Map<Seq<char>, u64>) -> bool {
    &&& m.dom().finite()
    &&& forall|a: Seq<char>, b: Seq<char>|
        m.contains_key(a) && m.contains_key(b) && a != b ==> m[a] != m[b]
}

/// Well-formed tables: both name tables well-formed, the word table finite.
pub open spec fn tables_wf(t: Tables) -> bool {
    &&& id_map_wf(t.documents)
    &&& id_map_wf(t.dicts)
    &&& t.words.dom().finite()
}

/// No name of `m` holds the id `id`.
pub open spec fn fresh_id(m: Map<Seq<char>, u64>, id: u64) -> bool {
    forall|k: Seq<char>| #[trigger] m.contains_key(k) ==> m[k] != id
}

/// A get-or-create lookup of `name` returned `id` and turned the name table
/// `m0` into `m1`: an existing name is resolved with the table unchanged; an
/// absent name is inserted under an id no existing name holds.
pub open spec fn get_or_create_step(
    m0: Map<Seq<char>, u64>,
    name: Seq<char>,
    id: u64,
    m1: Map<Seq<char>, u64>,
) -> bool {
    &&& m1.contains_key(name)
    &&& id == m1[name]
    &&& if m0.contains_key(name) {
        m1 == m0
    } else {
        fresh_id(m0, id) && m1 == m0.insert(name, id)
    }
}

/// A failed get-or-create lookup left the name table as it was, or inserted
/// the name (the insert succeeded and only the read back failed).
pub open spec fn get_or_create_err(
    m0: Map<Seq<char>, u64>,
    name: Seq<char>,
    m1: Map<Seq<char>, u64>,
) -> bool {
    ||| m1 == m0
    ||| (!m0.contains_key(name) && exists|i: u64|
        #[trigger] fresh_id(m0, i) && m1 == m0.insert(name, i))
}

/// The word row that stores entry `e` for dictionary `d`.
pub open spec fn row_for(d: u64, e: WordDefView) -> WordRow {
    WordRow {
        dict: d,
        simplified: e.simplified,
        traditional: e.traditional,
        data: payload_of(e.pinyin, e.defs),
    }
}

/// The word table without the rows of dictionary `d`.
pub open spec fn strip_dict(w: Map<u64, WordRow>, d: u64) -> Map<u64, WordRow> {
    Map::new(|k: u64| w.contains_key(k) && w[k].dict != d, |k: u64| w[k])
}

/// The encoded payload of each entry decodes back to exactly that entry's
/// pinyin and definition sequences.
pub open spec fn payload_round_trips(es: Seq<WordDefView>) -> bool {
    forall|i: int|
        0 <= i < es.len() ==> #[trigger] parsed_payload(payload_of(es[i].pinyin, es[i].defs))
            == Some((es[i].pinyin, es[i].defs))
}

/// Replacing dictionary `d`'s rows with entries `es` turned the word table
/// `w0` into `w1`, the new rows keyed by `ids`: rows of other dictionaries
/// are untouched, `d`'s old rows are gone, and one new row per entry was
/// added under fresh, pairwise distinct keys.
pub open spec fn replace_witness(
    w0: Map<u64, WordRow>,
    d: u64,
    es: Seq<WordDefView>,
    w1: Map<u64, WordRow>,
    ids: Seq<u64>,
) -> bool {
    &&& ids.len() == es.len()
    &&& forall|i: int, j: int| 0 <= i < j < ids.len() ==> ids[i] != ids[j]
    &&& forall|i: int| 0 <= i < ids.len() ==> !strip_dict(w0, d).contains_key(#[trigger] ids[i])
    &&& forall|k: u64|
        #[trigger] w1.contains_key(k) <==> (strip_dict(w0, d).contains_key(k) || ids.contains(k))
    &&& forall|i: int| 0 <= i < ids.len() ==> w1[#[trigger] ids[i]] == row_for(d, es[i])
    &&& forall|k: u64|
        strip_dict(w0, d).contains_key(k) && !ids.contains(k) ==> w1[k] == #[trigger] strip_dict(
            w0,
            d,
        )[k]
    &&& payload_round_trips(es)
}

/// Replacing dictionary `d`'s rows with entries `es` turned `w0` into `w1`.
pub open spec fn words_replace_step(
    w0: Map<u64, WordRow>,
    d: u64,
    es: Seq<WordDefView>,
    w1: Map<u64, WordRow>,
) -> bool {
    exists|ids: Seq<u64>| replace_witness(w0, d, es, w1, ids)
}

/// A row answers a prefix query when one of its headwords begins with the
/// prefix.
pub open spec fn row_matches(p: Seq<char>, r: WordRow) -> bool {
    is_prefix_of(p, r.simplified) || is_prefix_of(p, r.traditional)
}

/// `rows` lists the word table `w` exactly: every listed tuple is a stored
/// pair under its key, the listed keys are pairwise distinct, and every
/// stored key is listed.
pub open spec fn rows_enumerate(
    w: Map<u64, WordRow>,
    rows: Seq<(u64, u64, String, String, String)>,
) -> bool {
    &&& forall|j: int|
        0 <= j < rows.len() ==> w.contains_pair(
            (#[trigger] rows[j]).0,
            WordRow {
                dict: rows[j].1,
                simplified: rows[j].2@,
                traditional: rows[j].3@,
                data: rows[j].4@,
            },
        )
    &&& forall|j1: int, j2: int| 0 <= j1 < j2 < rows.len() ==> rows[j1].0 != rows[j2].0
    &&& forall|k: u64|
        #[trigger] w.contains_key(k) ==> exists|j: int|
            0 <= j < rows.len() && (#[trigger] rows[j]).0 == k
}

/// Every row of `w` that matches the prefix has a payload that parses.
pub open spec fn all_matched_rows_parse(w: Map<u64, WordRow>, p: Seq<char>) -> bool {
    forall|k: u64|
        #[trigger] w.contains_key(k) && row_matches(p, w[k]) ==> parsed_payload(w[k].data) is Some
}

/// `out` enumerates exactly the rows of `w` matching prefix `p`, each row
/// decoded: one element per matching row, keyed by its row id, with the
/// row's dictionary id and headwords, and the two sequences its payload
/// decodes to.
pub open spec fn query_output(
    w: Map<u64, WordRow>,
    p: Seq<char>,
    out: Seq<(u64, u64, WordDefView)>,
) -> bool {
    &&& forall|i: int|
        0 <= i < out.len() ==> {
            let k = (#[trigger] out[i]).0;
            &&& w.contains_key(k)
            &&& row_matches(p, w[k])
            &&& out[i].1 == w[k].dict
            &&& out[i].2.simplified == w[k].simplified
            &&& out[i].2.traditional == w[k].traditional
            &&& parsed_payload(w[k].data) == Some((out[i].2.pinyin, out[i].2.defs))
        }
    &&& forall|i: int, j: int| 0 <= i < j < out.len() ==> out[i].0 != out[j].0
    &&& forall|k: u64|
        #[trigger] w.contains_key(k) && row_matches(p, w[k]) ==> exists|i: int|
            0 <= i < out.len() && (#[trigger] out[i]).0 == k
}

/// Idempotence: two get-or-create lookups of the same name return the same
/// id, and the second lookup changes nothing.
pub proof fn lemma_get_or_create_idempotent(
    m0: Map<Seq<char>, u64>,
    name: Seq<char>,
    id1: u64,
    m1: Map<Seq<char>, u64>,
    id2: u64,
    m2: Map<Seq<char>, u64>,
)
    requires
        get_or_create_step(m0, name, id1, m1),
        get_or_create_step(m1, name, id2, m2),
    ensures
        id2 == id1,
        m2 == m1,
{
}

/// A completed get-or-create step is one of the outcomes a failed lookup
/// may leave behind.
pub proof fn lemma_step_implies_err(
    m0: Map<Seq<char>, u64>,
    name: Seq<char>,
    id: u64,
    m1: Map<Seq<char>, u64>,
)
    requires
        get_or_create_step(m0, name, id, m1),
    ensures
        get_or_create_err(m0, name, m1),
{
    if !m0.contains_key(name) {
        assert(fresh_id(m0, id) && m1 == m0.insert(name, id));
    }
}

/// A get-or-create lookup keeps the name table well-formed.
pub proof fn lemma_get_or_create_preserves_wf(
    m0: Map<Seq<char>, u64>,
    name: Seq<char>,
    id: u64,
    m1: Map<Seq<char>, u64>,
)
    requires
        id_map_wf(m0),
        get_or_create_step(m0, name, id, m1),
    ensures
        id_map_wf(m1),
{
    if !m0.contains_key(name) {
        assert forall|a: Seq<char>, b: Seq<char>|
            m1.contains_key(a) && m1.contains_key(b) && a != b implies m1[a] != m1[b] by {
            if a == name {
                assert(m0.contains_key(b));
            } else if b == name {
                assert(m0.contains_key(a));
            } else {
                assert(m0.contains_key(a) && m0.contains_key(b));
            }
        }
    }
}

/// Uniqueness: get-or-create lookups of two different names return two
/// different ids.
pub proof fn lemma_get_or_create_distinct(
    m0: Map<Seq<char>, u64>,
    a: Seq<char>,
    ida: u64,
    m1: Map<Seq<char>, u64>,
    b: Seq<char>,
    idb: u64,
    m2: Map<Seq<char>, u64>,
)
    requires
        id_map_wf(m0),
        a != b,
        get_or_create_step(m0, a, ida, m1),
        get_or_create_step(m1, b, idb, m2),
    ensures
        ida != idb,
{
    lemma_get_or_create_preserves_wf(m0, a, ida, m1);
    if m1.contains_key(b) {
        assert(m2 == m1);
        assert(m1.contains_key(a) && m1.contains_key(b));
    } else {
        assert(m1.contains_key(a));
    }
}

/// Replace semantics: after a dictionary's contents are replaced — in
/// particular after replacing them once with one entry set and again with
/// another — exactly the rows of the last entry set remain for that
/// dictionary: one row per entry of the last set, and no residue.
pub proof fn lemma_replace_is_exact(
    w0: Map<u64, WordRow>,
    d: u64,
    es1: Seq<WordDefView>,
    w1: Map<u64, WordRow>,
    es2: Seq<WordDefView>,
    w2: Map<u64, WordRow>,
)
    requires
        words_replace_step(w0, d, es1, w1),
        words_replace_step(w1, d, es2, w2),
    ensures
        exists|ids: Seq<u64>|
            {
                &&& ids.len() == es2.len()
                &&& (forall|i: int, j: int| 0 <= i < j < ids.len() ==> ids[i] != ids[j])
                &&& (forall|i: int|
                    0 <= i < ids.len() ==> w2.contains_key(#[trigger] ids[i]) && w2[ids[i]]
                        == row_for(d, es2[i]))
                &&& (forall|k: u64|
                    #[trigger] w2.contains_key(k) && w2[k].dict == d ==> ids.contains(k))
            },
{
    let ids = choose|ids: Seq<u64>| replace_witness(w1, d, es2, w2, ids);
    assert(replace_witness(w1, d, es2, w2, ids));
    assert forall|k: u64| #[trigger] w2.contains_key(k) && w2[k].dict == d implies ids.contains(
        k,
    ) by {
        if !ids.contains(k) {
            assert(strip_dict(w1, d).contains_key(k));
            assert(w2[k] == strip_dict(w1, d)[k]);
            assert(w1[k].dict != d);
        }
    }
    assert forall|i: int| 0 <= i < ids.len() implies w2.contains_key(#[trigger] ids[i])
        && w2[ids[i]] == row_for(d, es2[i]) by {
        assert(ids.contains(ids[i]));
    }
}

/// Round trip: after a replace, a prefix query that matches one of the new
/// rows hands that entry back with its pinyin and definition sequences
/// unchanged, in the same order.
pub proof fn lemma_round_trip(
    w0: Map<u64, WordRow>,
    d: u64,
    es: Seq<WordDefView>,
    w1: Map<u64, WordRow>,
    ids: Seq<u64>,
    p: Seq<char>,
    out: Seq<(u64, u64, WordDefView)>,
    n: int,
)
    requires
        replace_witness(w0, d, es, w1, ids),
        query_output(w1, p, out),
        0 <= n < es.len(),
        row_matches(p, row_for(d, es[n])),
    ensures
        exists|i: int|
            0 <= i < out.len() && (#[trigger] out[i]).0 == ids[n] && out[i].1 == d && out[i].2.simplified
                == es[n].simplified && out[i].2.traditional == es[n].traditional && out[i].2.pinyin
                == es[n].pinyin && out[i].2.defs == es[n].defs,
{
    assert(ids.contains(ids[n]));
    assert(w1.contains_key(ids[n]));
    assert(w1[ids[n]] == row_for(d, es[n]));
    assert(parsed_payload(w1[ids[n]].data) == Some((es[n].pinyin, es[n].defs)));
    let i = choose|i: int| 0 <= i < out.len() && (#[trigger] out[i]).0 == ids[n];
    assert(parsed_payload(w1[ids[n]].data) == Some((out[i].2.pinyin, out[i].2.defs)));
    assert((es[n].pinyin, es[n].defs) == (out[i].2.pinyin, out[i].2.defs));
}

} // verus!
