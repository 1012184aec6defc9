//! Properties that relate several operations of the store.

use vstd::prelude::*;
use crate::model::{InteractionLog, MemoryCorpus, MemoryFragment};
use crate::store::{
    fragments_for, newest_first, selected, stamped, updated_corpus, FieldValue, MemoryQuery,
    SnapshotStore,
};

verus! {

/// A corpus read back after a successful save has the user id and version
/// that were saved.
pub proof fn lemma_save_then_get(store: SnapshotStore, c: MemoryCorpus, now: i64)
    requires
        store.corpus_of(c.user_id@) == Some(stamped(c, now)),
    ensures
        store.corpus_of(c.user_id@) matches Some(got) && got.user_id == c.user_id && got.version
            == c.version,
{
}

/// Updating `core_profile.name` sets the name, and the corpus's `updated_at`
/// strictly increases (short of the largest representable instant).
pub proof fn lemma_update_name(c: MemoryCorpus, key: String, name: String, now: i64)
    requires
        key@ == "core_profile.name"@,
        c.updated_at < i64::MAX,
    ensures
        updated_corpus(c, seq![(key, FieldValue::Text(name))], now).core_profile.name == Some(name),
        updated_corpus(c, seq![(key, FieldValue::Text(name))], now).updated_at > c.updated_at,
{
    let ups = seq![(key, FieldValue::Text(name))];
    assert(ups.drop_last() =~= Seq::<(String, FieldValue)>::empty());
}

proof fn lemma_fragments_for_empty(s: Seq<MemoryFragment>, u: Seq<char>)
    requires
        fragments_for(s, u).len() == 0,
    ensures
        forall|k: int| 0 <= k < s.len() ==> #[trigger] s[k].user_id@ != u,
    decreases s.len(),
{
    if s.len() > 0 {
        if s.last().user_id@ != u {
            lemma_fragments_for_empty(s.drop_last(), u);
            assert forall|k: int| 0 <= k < s.len() implies #[trigger] s[k].user_id@ != u by {
                if k < s.len() - 1 {
                    assert(s[k] == s.drop_last()[k]);
                }
            }
        } else {
            assert(fragments_for(s, u).len() > 0);
        }
    }
}

proof fn lemma_selected_from(s: Seq<MemoryFragment>, q: MemoryQuery)
    ensures
        forall|k: int|
            0 <= k < selected(s, q).len() ==> s.contains(#[trigger] selected(s, q)[k]),
    decreases s.len(),
{
    if s.len() > 0 {
        lemma_selected_from(s.drop_last(), q);
        let t = selected(s.drop_last(), q);
        assert forall|k: int| 0 <= k < selected(s, q).len() implies s.contains(
            #[trigger] selected(s, q)[k],
        ) by {
            if k < t.len() {
                assert(selected(s, q)[k] == t[k]);
                let w = choose|w: int| 0 <= w < s.drop_last().len() && s.drop_last()[w] == t[k];
                assert(s[w] == t[k]);
            } else {
                assert(selected(s, q)[k] == s.last());
                assert(s[s.len() - 1] == s.last());
            }
        }
    }
}

/// Once a user's data is deleted, nothing of it can be read back: there is
/// no corpus, no recent interaction, and no search returns a fragment of
/// that user.
pub proof fn lemma_deleted_user_is_gone(store: SnapshotStore, u: Seq<char>, q: MemoryQuery)
    requires
        store.corpus_of(u) == None::<MemoryCorpus>,
        store.logs_of(u) == Seq::<InteractionLog>::empty(),
        store.fragments_of(u) == Seq::<MemoryFragment>::empty(),
    ensures
        store.corpus_of(u) is None,
        newest_first(store.logs_of(u)).len() == 0,
        forall|k: int|
            0 <= k < selected(store.fragments_view(), q).len() ==> (#[trigger] selected(
                store.fragments_view(),
                q,
            )[k]).user_id@ != u,
{
    let s = store.fragments_view();
    lemma_fragments_for_empty(s, u);
    lemma_selected_from(s, q);
    assert forall|k: int| 0 <= k < selected(s, q).len() implies (#[trigger] selected(s, q)[k]).user_id@
        != u by {
        let w = choose|w: int| 0 <= w < s.len() && s[w] == selected(s, q)[k];
        assert(s[w].user_id@ != u);
    }
}

proof fn lemma_selected_user(s: Seq<MemoryFragment>, q: MemoryQuery)
    ensures
        forall|k: int|
            0 <= k < selected(s, q).len() ==> (q.user_id matches Some(a) ==> (
            #[trigger] selected(s, q)[k]).user_id@ == a@),
    decreases s.len(),
{
    if s.len() > 0 {
        lemma_selected_user(s.drop_last(), q);
        let t = selected(s.drop_last(), q);
        assert forall|k: int| 0 <= k < selected(s, q).len() implies (q.user_id matches Some(a) ==> (
        #[trigger] selected(s, q)[k]).user_id@ == a@) by {
            if k < t.len() {
                assert(selected(s, q)[k] == t[k]);
            }
        }
    }
}

/// A search scoped to one user returns only that user's fragments.
pub proof fn lemma_search_scoped_to_user(s: Seq<MemoryFragment>, q: MemoryQuery, a: String)
    requires
        q.user_id == Some(a),
    ensures
        forall|k: int|
            0 <= k < selected(s, q).len() ==> (#[trigger] selected(s, q)[k]).user_id@ == a@,
{
    lemma_selected_user(s, q);
}

} // verus!
