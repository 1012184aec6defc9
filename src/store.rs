//! The snapshot-backed repository: every user's corpus, interaction log and
//! fragments, held in memory. The hosting program writes the whole state to
//! its snapshot file after each mutating call and hands a loaded snapshot to
//! [`SnapshotStore::from_parts`] on start-up.

use vstd::prelude::*;
use vstd::string::StringExecFns;
use crate::error::MemoryError;
use crate::model::{bump, bumped, CoreProfile, InteractionLog, MemoryCorpus, MemoryFragment, MemoryType, UserStatistics};
use crate::text::{all_occur, chars_of, contains_all, lower_of, lowercase, split_words, views_of, words};
use crate::clock::now_millis;
use crate::validate::{
    check_user_id, rejects_field, same_text, valid_corpus, valid_user_id, validate_memory_corpus,
    validate_update_count,
};

verus! {

/// A value of a partial update.
#[derive(Debug, Clone, PartialEq, Eq)]
pub enum FieldValue {
    Text(String),
    Unsigned(u64),
    /// Any other value; no profile field accepts it.
    Other,
}

/// The profile after one partial update. Recognised paths are
/// `core_profile.name`, `.age`, `.city`, `.occupation` and
/// `.current_life_summary`; a value of the wrong kind, or any other path, is
/// skipped.
pub open spec fn apply_field(p: CoreProfile, key: Seq<char>, v: FieldValue) -> CoreProfile {
    if key == "core_profile.name"@ {
        match v {
            FieldValue::Text(s) => CoreProfile { name: Some(s), ..p },
            _ => p,
        }
    } else if key == "core_profile.age"@ {
        match v {
            FieldValue::Unsigned(n) => CoreProfile { age: Some(n as u32), ..p },
            _ => p,
        }
    } else if key == "core_profile.city"@ {
        match v {
            FieldValue::Text(s) => CoreProfile { city: Some(s), ..p },
            _ => p,
        }
    } else if key == "core_profile.occupation"@ {
        match v {
            FieldValue::Text(s) => CoreProfile { occupation: Some(s), ..p },
            _ => p,
        }
    } else if key == "core_profile.current_life_summary"@ {
        match v {
            FieldValue::Text(s) => CoreProfile { current_life_summary: Some(s), ..p },
            _ => p,
        }
    } else {
        p
    }
}

/// The profile after a list of partial updates, applied in order.
pub open spec fn apply_fields(p: CoreProfile, ups: Seq<(String, FieldValue)>) -> CoreProfile
    decreases ups.len(),
{
    if ups.len() == 0 {
        p
    } else {
        apply_field(apply_fields(p, ups.drop_last()), ups.last().0@, ups.last().1)
    }
}

/// The corpus after a partial update at `now`.
pub open spec fn updated_corpus(c: MemoryCorpus, ups: Seq<(String, FieldValue)>, now: i64) -> MemoryCorpus {
    MemoryCorpus {
        core_profile: apply_fields(c.core_profile, ups),
        updated_at: bumped(c.updated_at, now),
        ..c
    }
}

/// The corpus as stored at `now`: its `updated_at` moves to `now` unless that
/// would move it backwards.
pub open spec fn stamped(c: MemoryCorpus, now: i64) -> MemoryCorpus {
    MemoryCorpus { updated_at: if now > c.updated_at { now } else { c.updated_at }, ..c }
}

/// The corpus of user `u` among `s`, if there is one.
pub open spec fn lookup(s: Seq<MemoryCorpus>, u: Seq<char>) -> Option<MemoryCorpus> {
    if exists|i: int| 0 <= i < s.len() && #[trigger] s[i].user_id@ == u {
        Some(s[choose|i: int| 0 <= i < s.len() && #[trigger] s[i].user_id@ == u])
    } else {
        None
    }
}

/// No two corpora of `s` belong to the same user.
pub open spec fn unique_users(s: Seq<MemoryCorpus>) -> bool {
    forall|i: int, j: int|
        0 <= i < s.len() && 0 <= j < s.len() && i != j ==> #[trigger] s[i].user_id@
            != #[trigger] s[j].user_id@
}

/// The interactions that were saved for user `u`, in the order of saving.
pub open spec fn logs_for(s: Seq<(String, InteractionLog)>, u: Seq<char>) -> Seq<InteractionLog>
    decreases s.len(),
{
    if s.len() == 0 {
        seq![]
    } else if s.last().0@ == u {
        logs_for(s.drop_last(), u).push(s.last().1)
    } else {
        logs_for(s.drop_last(), u)
    }
}

/// The fragments of user `u`, in the order of adding.
pub open spec fn fragments_for(s: Seq<MemoryFragment>, u: Seq<char>) -> Seq<MemoryFragment>
    decreases s.len(),
{
    if s.len() == 0 {
        seq![]
    } else if s.last().user_id@ == u {
        fragments_for(s.drop_last(), u).push(s.last())
    } else {
        fragments_for(s.drop_last(), u)
    }
}

/// The saved interactions of users other than `u`.
pub open spec fn logs_without(s: Seq<(String, InteractionLog)>, u: Seq<char>) -> Seq<(String, InteractionLog)>
    decreases s.len(),
{
    if s.len() == 0 {
        seq![]
    } else if s.last().0@ != u {
        logs_without(s.drop_last(), u).push(s.last())
    } else {
        logs_without(s.drop_last(), u)
    }
}

/// The fragments of users other than `u`.
pub open spec fn fragments_without(s: Seq<MemoryFragment>, u: Seq<char>) -> Seq<MemoryFragment>
    decreases s.len(),
{
    if s.len() == 0 {
        seq![]
    } else if s.last().user_id@ != u {
        fragments_without(s.drop_last(), u).push(s.last())
    } else {
        fragments_without(s.drop_last(), u)
    }
}

proof fn lemma_lookup_at(s: Seq<MemoryCorpus>, i: int)
    requires
        unique_users(s),
        0 <= i < s.len(),
    ensures
        lookup(s, s[i].user_id@) == Some(s[i]),
{
    let u = s[i].user_id@;
    assert(s[i].user_id@ == u);
    let j = choose|j: int| 0 <= j < s.len() && #[trigger] s[j].user_id@ == u;
    assert(i == j);
}

proof fn lemma_lookup_none(s: Seq<MemoryCorpus>, u: Seq<char>)
    requires
        forall|i: int| 0 <= i < s.len() ==> #[trigger] s[i].user_id@ != u,
    ensures
        lookup(s, u) == None::<MemoryCorpus>,
{
}

/// The corpora of a well-formed store: one per user, each valid.
pub open spec fn stored_ok(s: Seq<MemoryCorpus>) -> bool {
    &&& unique_users(s)
    &&& forall|i: int| 0 <= i < s.len() ==> valid_corpus(#[trigger] s[i])
}

/// Replacing the corpus at `i` by a valid one of the same user keeps the
/// corpora well formed and changes only that user's lookup.
proof fn lemma_update_at(pre: Seq<MemoryCorpus>, i: int, c: MemoryCorpus)
    requires
        stored_ok(pre),
        0 <= i < pre.len(),
        c.user_id@ == pre[i].user_id@,
        valid_corpus(c),
    ensures
        stored_ok(pre.update(i, c)),
        lookup(pre.update(i, c), c.user_id@) == Some(c),
        forall|v: Seq<char>| v != c.user_id@ ==> #[trigger] lookup(pre.update(i, c), v) == lookup(pre, v),
{
    let post = pre.update(i, c);
    assert forall|a: int, b: int|
        0 <= a < post.len() && 0 <= b < post.len() && a != b implies #[trigger] post[a].user_id@
        != #[trigger] post[b].user_id@ by {
        assert(pre[a].user_id@ != pre[b].user_id@);
    }
    assert forall|k: int| 0 <= k < post.len() implies valid_corpus(#[trigger] post[k]) by {
        if k != i {
            assert(post[k] == pre[k]);
        }
    }
    lemma_lookup_at(post, i);
    assert forall|v: Seq<char>| v != c.user_id@ implies #[trigger] lookup(post, v) == lookup(pre, v) by {
        if exists|k: int| 0 <= k < pre.len() && #[trigger] pre[k].user_id@ == v {
            let k = choose|k: int| 0 <= k < pre.len() && #[trigger] pre[k].user_id@ == v;
            assert(post[k] == pre[k]);
            lemma_lookup_at(pre, k);
            lemma_lookup_at(post, k);
        } else {
            assert forall|k: int| 0 <= k < post.len() implies #[trigger] post[k].user_id@ != v by {
                if k != i {
                    assert(post[k] == pre[k]);
                }
            }
        }
    }
}

/// Adding a valid corpus of a user that has none keeps the corpora well
/// formed and changes only that user's lookup.
proof fn lemma_push_new(pre: Seq<MemoryCorpus>, c: MemoryCorpus)
    requires
        stored_ok(pre),
        forall|k: int| 0 <= k < pre.len() ==> #[trigger] pre[k].user_id@ != c.user_id@,
        valid_corpus(c),
    ensures
        stored_ok(pre.push(c)),
        lookup(pre.push(c), c.user_id@) == Some(c),
        forall|v: Seq<char>| v != c.user_id@ ==> #[trigger] lookup(pre.push(c), v) == lookup(pre, v),
{
    let post = pre.push(c);
    let n = pre.len() as int;
    assert forall|a: int, b: int|
        0 <= a < post.len() && 0 <= b < post.len() && a != b implies #[trigger] post[a].user_id@
        != #[trigger] post[b].user_id@ by {
        if a != n && b != n {
            assert(pre[a].user_id@ != pre[b].user_id@);
        } else if a == n {
            assert(pre[b].user_id@ != c.user_id@);
        } else {
            assert(pre[a].user_id@ != c.user_id@);
        }
    }
    assert forall|k: int| 0 <= k < post.len() implies valid_corpus(#[trigger] post[k]) by {
        if k != n {
            assert(post[k] == pre[k]);
        }
    }
    lemma_lookup_at(post, n);
    assert forall|v: Seq<char>| v != c.user_id@ implies #[trigger] lookup(post, v) == lookup(pre, v) by {
        if exists|k: int| 0 <= k < pre.len() && #[trigger] pre[k].user_id@ == v {
            let k = choose|k: int| 0 <= k < pre.len() && #[trigger] pre[k].user_id@ == v;
            assert(post[k] == pre[k]);
            lemma_lookup_at(pre, k);
            lemma_lookup_at(post, k);
        } else {
            assert forall|k: int| 0 <= k < post.len() implies #[trigger] post[k].user_id@ != v by {
                if k != n {
                    assert(post[k] == pre[k]);
                }
            }
        }
    }
}

/// Removing the corpus at `i` keeps the corpora well formed, leaves its
/// user without a corpus, and changes no other user's lookup.
proof fn lemma_remove_at(pre: Seq<MemoryCorpus>, i: int)
    requires
        stored_ok(pre),
        0 <= i < pre.len(),
    ensures
        stored_ok(pre.remove(i)),
        lookup(pre.remove(i), pre[i].user_id@) == None::<MemoryCorpus>,
        forall|v: Seq<char>| v != pre[i].user_id@ ==> #[trigger] lookup(pre.remove(i), v) == lookup(pre, v),
{
    let post = pre.remove(i);
    let u = pre[i].user_id@;
    assert forall|a: int, b: int|
        0 <= a < post.len() && 0 <= b < post.len() && a != b implies #[trigger] post[a].user_id@
        != #[trigger] post[b].user_id@ by {
        let a2 = if a < i { a } else { a + 1 };
        let b2 = if b < i { b } else { b + 1 };
        assert(post[a] == pre[a2]);
        assert(post[b] == pre[b2]);
        assert(pre[a2].user_id@ != pre[b2].user_id@);
    }
    assert forall|k: int| 0 <= k < post.len() implies valid_corpus(#[trigger] post[k]) by {
        if k < i {
            assert(post[k] == pre[k]);
        } else {
            assert(post[k] == pre[k + 1]);
        }
    }
    assert forall|k: int| 0 <= k < post.len() implies #[trigger] post[k].user_id@ != u by {
        if k < i {
            assert(post[k] == pre[k]);
            assert(pre[k].user_id@ != pre[i].user_id@);
        } else {
            assert(post[k] == pre[k + 1]);
            assert(pre[k + 1].user_id@ != pre[i].user_id@);
        }
    }
    assert forall|v: Seq<char>| v != u implies #[trigger] lookup(post, v) == lookup(pre, v) by {
        if exists|k: int| 0 <= k < pre.len() && #[trigger] pre[k].user_id@ == v {
            let k = choose|k: int| 0 <= k < pre.len() && #[trigger] pre[k].user_id@ == v;
            assert(k != i);
            lemma_lookup_at(pre, k);
            if k < i {
                assert(post[k] == pre[k]);
                lemma_lookup_at(post, k);
            } else {
                assert(post[k - 1] == pre[k]);
                lemma_lookup_at(post, k - 1);
            }
        } else {
            assert forall|k: int| 0 <= k < post.len() implies #[trigger] post[k].user_id@ != v by {
                if k < i {
                    assert(post[k] == pre[k]);
                } else {
                    assert(post[k] == pre[k + 1]);
                }
            }
        }
    }
}

/// Position at which a record stamped `ts` enters a newest-first list:
/// before the first entry that is not newer.
pub open spec fn slot(s: Seq<InteractionLog>, ts: i64) -> int
    decreases s.len(),
{
    if s.len() == 0 {
        0
    } else if s[0].timestamp <= ts {
        0
    } else {
        1 + slot(s.drop_first(), ts)
    }
}

/// The interactions `s` ordered newest first by timestamp; among equal
/// timestamps, the later saved comes first.
pub open spec fn newest_first(s: Seq<InteractionLog>) -> Seq<InteractionLog>
    decreases s.len(),
{
    if s.len() == 0 {
        seq![]
    } else {
        let r = newest_first(s.drop_last());
        r.insert(slot(r, s.last().timestamp), s.last())
    }
}

/// The records behind a list of borrowed interactions.
pub open spec fn log_values(s: Seq<&InteractionLog>) -> Seq<InteractionLog> {
    s.map_values(|x: &InteractionLog| *x)
}

/// The records behind a list of borrowed fragments.
pub open spec fn fragment_values(s: Seq<&MemoryFragment>) -> Seq<MemoryFragment> {
    s.map_values(|x: &MemoryFragment| *x)
}

proof fn lemma_slot(s: Seq<InteractionLog>, ts: i64, p: int)
    requires
        0 <= p <= s.len(),
        forall|j: int| 0 <= j < p ==> #[trigger] s[j].timestamp > ts,
        p < s.len() ==> s[p].timestamp <= ts,
    ensures
        slot(s, ts) == p,
    decreases p,
{
    if p > 0 {
        assert(s[0].timestamp > ts);
        let t = s.drop_first();
        assert forall|j: int| 0 <= j < p - 1 implies #[trigger] t[j].timestamp > ts by {
            assert(t[j] == s[j + 1]);
        }
        if p < s.len() {
            assert(t[p - 1] == s[p]);
        }
        lemma_slot(t, ts, p - 1);
    }
}

proof fn lemma_slot_bound(s: Seq<InteractionLog>, ts: i64)
    ensures
        0 <= slot(s, ts) <= s.len(),
    decreases s.len(),
{
    if s.len() > 0 {
        lemma_slot_bound(s.drop_first(), ts);
    }
}

/// An inclusive span of instants.
#[derive(Debug, Clone, Copy, PartialEq, Eq, Structural)]
pub struct TimeRange {
    pub start: i64,
    pub end: i64,
}

/// What to look for among the fragments.
#[derive(Debug, Clone, PartialEq, Eq)]
pub struct MemoryQuery {
    /// Words that must all occur in a fragment, ignoring case.
    pub query_text: String,
    /// Only this user's fragments, when set.
    pub user_id: Option<String>,
    /// Only fragments created within this span, when set.
    pub time_range: Option<TimeRange>,
    /// Only fragments of these types, unless empty.
    pub memory_types: Vec<MemoryType>,
    /// Most fragments returned; 10 when unset.
    pub limit: Option<u32>,
}

/// Number of fragments a query returns at most when it sets no limit.
pub const DEFAULT_SEARCH_LIMIT: u32 = 10;

/// Whether fragment `f` answers query `q`.
pub open spec fn fragment_selected(f: MemoryFragment, q: MemoryQuery) -> bool {
    &&& (q.user_id matches Some(u) ==> f.user_id@ == u@)
    &&& (q.memory_types@.len() > 0 ==> q.memory_types@.contains(f.memory_type))
    &&& (q.time_range matches Some(t) ==> t.start <= f.created_at && f.created_at <= t.end)
    &&& all_occur(words(lower_of(q.query_text@)), lower_of(f.content@))
}

/// The fragments of `s` that answer `q`, in stored order.
pub open spec fn selected(s: Seq<MemoryFragment>, q: MemoryQuery) -> Seq<MemoryFragment>
    decreases s.len(),
{
    if s.len() == 0 {
        seq![]
    } else if fragment_selected(s.last(), q) {
        selected(s.drop_last(), q).push(s.last())
    } else {
        selected(s.drop_last(), q)
    }
}

/// The most fragments that `q` returns.
pub open spec fn limit_of(q: MemoryQuery) -> int {
    match q.limit {
        Some(n) => n as int,
        None => DEFAULT_SEARCH_LIMIT as int,
    }
}

/// Milliseconds in a day.
pub const DAY_MILLIS: i64 = 86400000;

/// Every memory type.
fn all_types() -> (r: Vec<MemoryType>)
    ensures
        r@ == seq![
            MemoryType::Episodic,
            MemoryType::Semantic,
            MemoryType::ActionState,
            MemoryType::StrategicInferential,
        ],
{
    let mut v: Vec<MemoryType> = Vec::new();
    v.push(MemoryType::Episodic);
    v.push(MemoryType::Semantic);
    v.push(MemoryType::ActionState);
    v.push(MemoryType::StrategicInferential);
    assert(v@ =~= seq![
        MemoryType::Episodic,
        MemoryType::Semantic,
        MemoryType::ActionState,
        MemoryType::StrategicInferential,
    ]);
    v
}

/// The start of a span of `days` days that ends at `now`, clamped to the
/// earliest representable instant.
pub open spec fn span_start(now: i64, days: i64) -> i64 {
    let s = now - days * DAY_MILLIS;
    if s < i64::MIN {
        i64::MIN
    } else if s > now {
        now
    } else {
        s as i64
    }
}

impl Default for MemoryQuery {
    /// A query that matches every fragment of every user, returning at most 10.
    fn default() -> (r: MemoryQuery)
        ensures
            r.query_text@.len() == 0,
            r.user_id is None,
            r.time_range is None,
            r.memory_types@.len() == 0,
            r.limit == Some(10u32),
    {
        MemoryQuery {
            query_text: String::new(),
            user_id: None,
            time_range: None,
            memory_types: Vec::new(),
            limit: Some(DEFAULT_SEARCH_LIMIT),
        }
    }
}

impl MemoryQuery {
    /// A query for `query_text` among one user's fragments of every type,
    /// returning at most 10.
    pub fn simple_text_search(query_text: String, user_id: String) -> (r: MemoryQuery)
        ensures
            r.query_text == query_text,
            r.user_id == Some(user_id),
            r.time_range is None,
            r.memory_types@ == seq![
                MemoryType::Episodic,
                MemoryType::Semantic,
                MemoryType::ActionState,
                MemoryType::StrategicInferential,
            ],
            r.limit == Some(10u32),
    {
        MemoryQuery {
            query_text,
            user_id: Some(user_id),
            time_range: None,
            memory_types: all_types(),
            limit: Some(10),
        }
    }

    /// A query for one user's episodic fragments of the `days` days up to
    /// `now`, returning at most 20. A negative `days` gives an empty span.
    pub fn recent_memories_at(user_id: String, days: i64, now: i64) -> (r: MemoryQuery)
        ensures
            r.query_text@.len() == 0,
            r.user_id == Some(user_id),
            r.time_range == Some(TimeRange { start: span_start(now, days), end: now }),
            r.memory_types@ == seq![MemoryType::Episodic],
            r.limit == Some(20u32),
    {
        let wide: i128 = now as i128 - days as i128 * DAY_MILLIS as i128;
        let start: i64 = if wide < i64::MIN as i128 {
            i64::MIN
        } else if wide > now as i128 {
            now
        } else {
            wide as i64
        };
        let mut types: Vec<MemoryType> = Vec::new();
        types.push(MemoryType::Episodic);
        assert(types@ =~= seq![MemoryType::Episodic]);
        MemoryQuery {
            query_text: String::new(),
            user_id: Some(user_id),
            time_range: Some(TimeRange { start, end: now }),
            memory_types: types,
            limit: Some(20),
        }
    }

    /// A query for one user's episodic fragments of the last `days` days.
    pub fn recent_memories(user_id: String, days: i64) -> (r: MemoryQuery)
        ensures
            r.query_text@.len() == 0,
            r.user_id == Some(user_id),
            r.time_range matches Some(t) && t.start == span_start(t.end, days),
            r.memory_types@ == seq![MemoryType::Episodic],
            r.limit == Some(20u32),
    {
        let now = now_millis();
        MemoryQuery::recent_memories_at(user_id, days, now)
    }
}

/// Whether `t` is among `types`.
fn type_listed(types: &Vec<MemoryType>, t: MemoryType) -> (r: bool)
    ensures
        r == types@.contains(t),
{
    let mut i: usize = 0;
    while i < types.len()
        invariant
            i <= types@.len(),
            forall|k: int| 0 <= k < i ==> types@[k] != t,
        decreases types@.len() - i,
    {
        if types[i] == t {
            assert(types@[i as int] == t);
            return true;
        }
        i = i + 1;
    }
    false
}

/// Earliest timestamp among `s`, which is not empty.
pub open spec fn earliest(s: Seq<InteractionLog>) -> i64
    decreases s.len(),
{
    if s.len() <= 1 {
        s[0].timestamp
    } else {
        let e = earliest(s.drop_last());
        if s.last().timestamp < e {
            s.last().timestamp
        } else {
            e
        }
    }
}

/// Latest timestamp among `s`, which is not empty.
pub open spec fn latest(s: Seq<InteractionLog>) -> i64
    decreases s.len(),
{
    if s.len() <= 1 {
        s[0].timestamp
    } else {
        let e = latest(s.drop_last());
        if s.last().timestamp > e {
            s.last().timestamp
        } else {
            e
        }
    }
}

/// Number of fragments of type `t` among `s`.
pub open spec fn count_type(s: Seq<MemoryFragment>, t: MemoryType) -> nat
    decreases s.len(),
{
    if s.len() == 0 {
        0
    } else if s.last().memory_type == t {
        count_type(s.drop_last(), t) + 1
    } else {
        count_type(s.drop_last(), t)
    }
}

/// The entry of type `t` in a distribution, present when the count is not zero.
pub open spec fn type_entry(s: Seq<MemoryFragment>, t: MemoryType) -> Seq<(MemoryType, u64)> {
    if count_type(s, t) > 0 {
        seq![(t, count_type(s, t) as u64)]
    } else {
        seq![]
    }
}

/// Count of each memory type present among `s`, in the order episodic,
/// semantic, action-state, strategic.
pub open spec fn distribution(s: Seq<MemoryFragment>) -> Seq<(MemoryType, u64)> {
    type_entry(s, MemoryType::Episodic) + type_entry(s, MemoryType::Semantic) + type_entry(
        s,
        MemoryType::ActionState,
    ) + type_entry(s, MemoryType::StrategicInferential)
}

proof fn lemma_count_type_len(s: Seq<MemoryFragment>, t: MemoryType)
    ensures
        count_type(s, t) <= s.len(),
    decreases s.len(),
{
    if s.len() > 0 {
        lemma_count_type_len(s.drop_last(), t);
    }
}

/// All memory of all users.
pub struct SnapshotStore {
    corpora: Vec<MemoryCorpus>,
    interactions: Vec<(String, InteractionLog)>,
    fragments: Vec<MemoryFragment>,
}

impl SnapshotStore {
    /// The stored corpora.
    pub closed spec fn corpora_view(&self) -> Seq<MemoryCorpus> {
        self.corpora@
    }

    /// The saved interactions, each with the user it was saved for.
    pub closed spec fn interactions_view(&self) -> Seq<(String, InteractionLog)> {
        self.interactions@
    }

    /// The stored fragments.
    pub closed spec fn fragments_view(&self) -> Seq<MemoryFragment> {
        self.fragments@
    }

    /// At most one corpus per user, and every stored corpus valid.
    pub open spec fn wf(&self) -> bool {
        stored_ok(self.corpora_view())
    }

    /// The corpus of user `u`.
    pub open spec fn corpus_of(&self, u: Seq<char>) -> Option<MemoryCorpus> {
        lookup(self.corpora_view(), u)
    }

    /// The interactions saved for user `u`, oldest save first.
    pub open spec fn logs_of(&self, u: Seq<char>) -> Seq<InteractionLog> {
        logs_for(self.interactions_view(), u)
    }

    /// The fragments of user `u`.
    pub open spec fn fragments_of(&self, u: Seq<char>) -> Seq<MemoryFragment> {
        fragments_for(self.fragments_view(), u)
    }

    /// An empty store.
    pub fn new() -> (r: SnapshotStore)
        ensures
            r.wf(),
            r.corpora_view().len() == 0,
            r.interactions_view().len() == 0,
            r.fragments_view().len() == 0,
    {
        SnapshotStore { corpora: Vec::new(), interactions: Vec::new(), fragments: Vec::new() }
    }

    /// A store holding a loaded snapshot. Fails with a deserialization error
    /// when a corpus is invalid or two corpora belong to the same user.
    pub fn from_parts(
        corpora: Vec<MemoryCorpus>,
        interactions: Vec<(String, InteractionLog)>,
        fragments: Vec<MemoryFragment>,
    ) -> (r: Result<SnapshotStore, MemoryError>)
        ensures
            r is Ok <==> stored_ok(corpora@),
            r is Ok ==> r->Ok_0.wf() && r->Ok_0.corpora_view() == corpora@
                && r->Ok_0.interactions_view() == interactions@ && r->Ok_0.fragments_view()
                == fragments@,
            r is Err ==> r->Err_0 is DeserializationError,
    {
        let n = corpora.len();
        let mut v: usize = 0;
        while v < n
            invariant
                n == corpora@.len(),
                v <= n,
                forall|k: int| 0 <= k < v ==> valid_corpus(#[trigger] corpora@[k]),
            decreases n - v,
        {
            if validate_memory_corpus(&corpora[v]).is_err() {
                return Err(
                    MemoryError::DeserializationError {
                        message: String::from_str("a stored corpus is invalid"),
                    },
                );
            }
            v = v + 1;
        }
        let mut i: usize = 0;
        while i < n
            invariant
                n == corpora@.len(),
                i <= n,
                forall|k: int| 0 <= k < n ==> valid_corpus(#[trigger] corpora@[k]),
                forall|a: int, b: int|
                    0 <= a < i && 0 <= b < n && a != b ==> #[trigger] corpora@[a].user_id@
                        != #[trigger] corpora@[b].user_id@,
            decreases n - i,
        {
            let mut j: usize = 0;
            while j < n
                invariant
                    n == corpora@.len(),
                    i < n,
                    j <= n,
                    forall|a: int, b: int|
                        0 <= a < i && 0 <= b < n && a != b ==> #[trigger] corpora@[a].user_id@
                            != #[trigger] corpora@[b].user_id@,
                    forall|b: int|
                        0 <= b < j && b != i ==> corpora@[i as int].user_id@
                            != #[trigger] corpora@[b].user_id@,
                decreases n - j,
            {
                if j != i && same_text(corpora[i].user_id.as_str(), corpora[j].user_id.as_str()) {
                    return Err(
                        MemoryError::DeserializationError {
                            message: String::from_str("two corpora belong to the same user"),
                        },
                    );
                }
                j = j + 1;
            }
            i = i + 1;
        }
        Ok(SnapshotStore { corpora, interactions, fragments })
    }

    /// The in-memory store is always reachable.
    pub fn health_check(&self) -> (r: bool)
        ensures
            r,
    {
        true
    }

    /// The stored corpora, for writing a snapshot.
    pub fn corpora(&self) -> (r: &Vec<MemoryCorpus>)
        ensures
            r@ == self.corpora_view(),
    {
        &self.corpora
    }

    /// The saved interactions with their users, for writing a snapshot.
    pub fn interactions(&self) -> (r: &Vec<(String, InteractionLog)>)
        ensures
            r@ == self.interactions_view(),
    {
        &self.interactions
    }

    /// The stored fragments, for writing a snapshot.
    pub fn fragments(&self) -> (r: &Vec<MemoryFragment>)
        ensures
            r@ == self.fragments_view(),
    {
        &self.fragments
    }

    fn find_corpus(&self, user_id: &str) -> (r: Option<usize>)
        ensures
            match r {
                Some(i) => i < self.corpora_view().len() && self.corpora_view()[i as int].user_id@
                    == user_id@,
                None => forall|i: int|
                    0 <= i < self.corpora_view().len() ==> #[trigger] self.corpora_view()[i].user_id@
                        != user_id@,
            },
    {
        let mut i: usize = 0;
        while i < self.corpora.len()
            invariant
                i <= self.corpora@.len(),
                forall|k: int| 0 <= k < i ==> #[trigger] self.corpora@[k].user_id@ != user_id@,
            decreases self.corpora@.len() - i,
        {
            if same_text(self.corpora[i].user_id.as_str(), user_id) {
                return Some(i);
            }
            i = i + 1;
        }
        None
    }

    /// The corpus of a user, or `None` when the user has none.
    pub fn get_memory_corpus(&self, user_id: &str) -> (r: Option<&MemoryCorpus>)
        requires
            self.wf(),
        ensures
            match r {
                Some(c) => self.corpus_of(user_id@) == Some(*c),
                None => self.corpus_of(user_id@) == None::<MemoryCorpus>,
            },
    {
        match self.find_corpus(user_id) {
            Some(i) => {
                proof {
                    lemma_lookup_at(self.corpora@, i as int);
                }
                Some(&self.corpora[i])
            },
            None => None,
        }
    }

    /// Stores a corpus, replacing the user's previous one. Fails with a
    /// validation error, and changes nothing, when the corpus is invalid.
    pub fn save_memory_corpus(&mut self, corpus: MemoryCorpus, now: i64) -> (r: Result<(), MemoryError>)
        requires
            old(self).wf(),
        ensures
            final(self).wf(),
            r is Ok <==> valid_corpus(corpus),
            r is Err ==> r->Err_0 is ValidationError && *final(self) == *old(self),
            !valid_user_id(corpus.user_id@) ==> rejects_field(r, "user_id"@),
            valid_user_id(corpus.user_id@) && corpus.version@.len() == 0 ==> rejects_field(
                r,
                "version"@,
            ),
            valid_user_id(corpus.user_id@) && corpus.version@.len() > 0 && corpus.updated_at
                < corpus.created_at ==> rejects_field(r, "updated_at"@),
            r is Ok ==> final(self).corpus_of(corpus.user_id@) == Some(stamped(corpus, now)),
            r is Ok ==> forall|v: Seq<char>|
                v != corpus.user_id@ ==> #[trigger] final(self).corpus_of(v) == old(self).corpus_of(v),
            final(self).interactions_view() == old(self).interactions_view(),
            final(self).fragments_view() == old(self).fragments_view(),
    {
        validate_memory_corpus(&corpus)?;
        let mut c = corpus;
        if now > c.updated_at {
            c.updated_at = now;
        }
        let ghost pre = self.corpora@;
        match self.find_corpus(c.user_id.as_str()) {
            Some(i) => {
                proof {
                    lemma_update_at(pre, i as int, c);
                }
                self.corpora.set(i, c);
            },
            None => {
                proof {
                    lemma_push_new(pre, c);
                }
                self.corpora.push(c);
            },
        }
        Ok(())
    }

    /// Applies partial updates to the user's profile and moves its
    /// `updated_at` forward. Fails, changing nothing, with a validation error
    /// for an invalid user id or an empty list of updates, and with
    /// `DocumentNotFound` when the user has no corpus.
    ///
    /// This operation never creates a corpus. The action-state and strategic
    /// mutators of [`MemoryCorpus`] work on a corpus that the caller holds;
    /// a caller that wants one created saves a fresh [`MemoryCorpus`] first.
    pub fn update_memory_corpus(
        &mut self,
        user_id: &str,
        updates: Vec<(String, FieldValue)>,
        now: i64,
    ) -> (r: Result<(), MemoryError>)
        requires
            old(self).wf(),
        ensures
            final(self).wf(),
            !valid_user_id(user_id@) ==> rejects_field(r, "user_id"@),
            valid_user_id(user_id@) && updates@.len() == 0 ==> rejects_field(r, "updates"@),
            valid_user_id(user_id@) && updates@.len() > 0 && old(self).corpus_of(user_id@) is None
                ==> (r matches Err(MemoryError::DocumentNotFound { document_type, id })
                && document_type@ == "MemoryCorpus"@ && id@ == user_id@),
            r is Err ==> *final(self) == *old(self),
            r is Ok <==> valid_user_id(user_id@) && updates@.len() > 0 && old(self).corpus_of(
                user_id@,
            ) is Some,
            r is Ok ==> final(self).corpus_of(user_id@) == Some(
                updated_corpus(old(self).corpus_of(user_id@)->Some_0, updates@, now),
            ),
            r is Ok ==> forall|v: Seq<char>|
                v != user_id@ ==> #[trigger] final(self).corpus_of(v) == old(self).corpus_of(v),
            final(self).interactions_view() == old(self).interactions_view(),
            final(self).fragments_view() == old(self).fragments_view(),
    {
        check_user_id(user_id)?;
        validate_update_count(updates.len())?;
        let i = match self.find_corpus(user_id) {
            Some(i) => i,
            None => {
                proof {
                    lemma_lookup_none(self.corpora@, user_id@);
                }
                return Err(
                    MemoryError::DocumentNotFound {
                        document_type: String::from_str("MemoryCorpus"),
                        id: String::from_str(user_id),
                    },
                );
            },
        };
        let ghost pre = self.corpora@;
        let ghost ups = updates@;
        let n_updates = updates.len();
        proof {
            lemma_lookup_at(pre, i as int);
            assert(valid_corpus(pre[i as int]));
        }
        let mut c = self.corpora.remove(i);
        let ghost c0 = c;
        let mut rest = updates;
        let mut k: usize = 0;
        while rest.len() > 0
            invariant
                k <= ups.len(),
                n_updates == ups.len(),
                rest@ == ups.skip(k as int),
                c == (MemoryCorpus { core_profile: apply_fields(c0.core_profile, ups.take(k as int)), ..c0 }),
            decreases rest@.len(),
        {
            let (key, value) = rest.remove(0);
            proof {
                assert(ups[k as int] == (key, value));
                assert(ups.take(k + 1).drop_last() =~= ups.take(k as int));
                assert(rest@ =~= ups.skip(k + 1));
            }
            let kk = key.as_str();
            if same_text(kk, "core_profile.name") {
                if let FieldValue::Text(t) = value {
                    c.core_profile.name = Some(t);
                }
            } else if same_text(kk, "core_profile.age") {
                if let FieldValue::Unsigned(n) = value {
                    c.core_profile.age = Some(n as u32);
                }
            } else if same_text(kk, "core_profile.city") {
                if let FieldValue::Text(t) = value {
                    c.core_profile.city = Some(t);
                }
            } else if same_text(kk, "core_profile.occupation") {
                if let FieldValue::Text(t) = value {
                    c.core_profile.occupation = Some(t);
                }
            } else if same_text(kk, "core_profile.current_life_summary") {
                if let FieldValue::Text(t) = value {
                    c.core_profile.current_life_summary = Some(t);
                }
            }
            k = k + 1;
        }
        assert(ups.take(k as int) =~= ups);
        c.updated_at = bump(c.updated_at, now);
        let ghost c1 = c;
        proof {
            lemma_update_at(pre, i as int, c1);
        }
        self.corpora.insert(i, c);
        assert(self.corpora@ =~= pre.update(i as int, c1));
        Ok(())
    }

    /// Appends an interaction to the user's log. Fails with a validation error,
    /// changing nothing, for an invalid user id.
    pub fn save_interaction(&mut self, user_id: &str, interaction: InteractionLog) -> (r: Result<
        (),
        MemoryError,
    >)
        requires
            old(self).wf(),
        ensures
            final(self).wf(),
            r is Ok <==> valid_user_id(user_id@),
            r is Err ==> r->Err_0 is ValidationError && *final(self) == *old(self),
            r is Ok ==> final(self).logs_of(user_id@) == old(self).logs_of(user_id@).push(interaction),
            r is Ok ==> forall|v: Seq<char>|
                v != user_id@ ==> #[trigger] final(self).logs_of(v) == old(self).logs_of(v),
            final(self).corpora_view() == old(self).corpora_view(),
            final(self).fragments_view() == old(self).fragments_view(),
    {
        check_user_id(user_id)?;
        let ghost pre = self.interactions@;
        self.interactions.push((String::from_str(user_id), interaction));
        proof {
            assert(self.interactions@.drop_last() =~= pre);
            assert forall|v: Seq<char>| v != user_id@ implies #[trigger] logs_for(self.interactions@, v)
                == logs_for(pre, v) by {
                assert(self.interactions@.drop_last() =~= pre);
            }
        }
        Ok(())
    }

    /// Adds a searchable fragment. Fails with a validation error, changing
    /// nothing, for an invalid user id or an importance above 1000.
    pub fn add_memory_fragment(&mut self, fragment: MemoryFragment) -> (r: Result<(), MemoryError>)
        requires
            old(self).wf(),
        ensures
            final(self).wf(),
            r is Ok <==> valid_user_id(fragment.user_id@) && fragment.importance_permille <= 1000,
            r is Err ==> r->Err_0 is ValidationError && *final(self) == *old(self),
            r is Ok ==> final(self).fragments_view() == old(self).fragments_view().push(fragment),
            final(self).corpora_view() == old(self).corpora_view(),
            final(self).interactions_view() == old(self).interactions_view(),
    {
        check_user_id(fragment.user_id.as_str())?;
        if fragment.importance_permille > 1000 {
            return Err(
                MemoryError::ValidationError {
                    field: String::from_str("importance_score"),
                    reason: String::from_str("Importance must lie between 0 and 1"),
                },
            );
        }
        self.fragments.push(fragment);
        Ok(())
    }

    /// Removes the user's corpus, interactions and fragments. Deleting a user
    /// that has nothing stored succeeds and changes nothing.
    pub fn delete_user_data(&mut self, user_id: &str) -> (r: Result<(), MemoryError>)
        requires
            old(self).wf(),
        ensures
            final(self).wf(),
            r is Ok,
            final(self).corpus_of(user_id@) == None::<MemoryCorpus>,
            final(self).logs_of(user_id@) == Seq::<InteractionLog>::empty(),
            final(self).fragments_of(user_id@) == Seq::<MemoryFragment>::empty(),
            forall|v: Seq<char>|
                v != user_id@ ==> #[trigger] final(self).corpus_of(v) == old(self).corpus_of(v),
            forall|v: Seq<char>|
                v != user_id@ ==> #[trigger] final(self).logs_of(v) == old(self).logs_of(v),
            forall|v: Seq<char>|
                v != user_id@ ==> #[trigger] final(self).fragments_of(v) == old(self).fragments_of(
                    v,
                ),
    {
        let ghost u = user_id@;
        let ghost pre = self.corpora@;
        match self.find_corpus(user_id) {
            Some(i) => {
                proof {
                    lemma_remove_at(pre, i as int);
                }
                self.corpora.remove(i);
                assert(self.corpora@ =~= pre.remove(i as int));
            },
            None => {
                proof {
                    lemma_lookup_none(self.corpora@, u);
                }
            },
        }
        let ghost cs = self.corpora@;
        let ghost pre_logs = self.interactions@;
        let mut pending: Vec<(String, InteractionLog)> = Vec::new();
        std::mem::swap(&mut self.interactions, &mut pending);
        let n_logs = pending.len();
        let mut k: usize = 0;
        while pending.len() > 0
            invariant
                pending@ == pre_logs.skip(k as int),
                k <= pre_logs.len(),
                n_logs == pre_logs.len(),
                self.fragments@ == old(self).fragments@,
                u == user_id@,
                self.corpora@ == cs,
                self.interactions@ == logs_without(pre_logs.take(k as int), u),
            decreases pending@.len(),
        {
            let item = pending.remove(0);
            proof {
                assert(pre_logs[k as int] == item);
                assert(pre_logs.take(k + 1).drop_last() =~= pre_logs.take(k as int));
                assert(pending@ =~= pre_logs.skip(k + 1));
            }
            proof {
                assert(pre_logs.take(k + 1).last() == item);
            }
            let ghost before = self.interactions@;
            let ghost it = item;
            let keep = !same_text(item.0.as_str(), user_id);
            if keep {
                self.interactions.push(item);
            }
            proof {
                let t = pre_logs.take(k + 1);
                assert(t.len() > 0);
                assert(t.last() == it);
                assert(keep == (it.0@ != u));
                if keep {
                    assert(self.interactions@ == before.push(it));
                    assert(logs_without(t, u) == logs_without(t.drop_last(), u).push(it));
                } else {
                    assert(logs_without(t, u) == logs_without(t.drop_last(), u));
                }
            }
            k = k + 1;
        }
        proof {
            assert(pre_logs.take(k as int) =~= pre_logs);
            lemma_logs_without(pre_logs, u);
        }
        let ghost pre_frags = self.fragments@;
        let ghost ls = self.interactions@;
        let mut waiting: Vec<MemoryFragment> = Vec::new();
        std::mem::swap(&mut self.fragments, &mut waiting);
        let n_frags = waiting.len();
        let mut j: usize = 0;
        while waiting.len() > 0
            invariant
                waiting@ == pre_frags.skip(j as int),
                j <= pre_frags.len(),
                n_frags == pre_frags.len(),
                u == user_id@,
                self.corpora@ == cs,
                self.interactions@ == ls,
                self.fragments@ == fragments_without(pre_frags.take(j as int), u),
            decreases waiting@.len(),
        {
            let f = waiting.remove(0);
            proof {
                assert(pre_frags[j as int] == f);
                assert(pre_frags.take(j + 1).drop_last() =~= pre_frags.take(j as int));
                assert(waiting@ =~= pre_frags.skip(j + 1));
            }
            proof {
                assert(pre_frags.take(j + 1).last() == f);
            }
            let ghost before = self.fragments@;
            let ghost it = f;
            let keep = !same_text(f.user_id.as_str(), user_id);
            if keep {
                self.fragments.push(f);
            }
            proof {
                let t = pre_frags.take(j + 1);
                assert(t.last() == it);
                if keep {
                    assert(self.fragments@ == before.push(it));
                    assert(fragments_without(t, u) == fragments_without(t.drop_last(), u).push(it));
                } else {
                    assert(fragments_without(t, u) == fragments_without(t.drop_last(), u));
                }
            }
            j = j + 1;
        }
        proof {
            assert(pre_frags.take(j as int) =~= pre_frags);
            lemma_fragments_without(pre_frags, u);
        }
        Ok(())
    }

    /// Up to `limit` of the user's interactions, newest first.
    pub fn get_recent_interactions<'a>(&'a self, user_id: &str, limit: u32) -> (r: Vec<
        &'a InteractionLog,
    >)
        ensures
            log_values(r@) == newest_first(self.logs_of(user_id@)).take(
                if limit as int <= self.logs_of(user_id@).len() {
                    limit as int
                } else {
                    self.logs_of(user_id@).len() as int
                },
            ),
    {
        let ghost u = user_id@;
        let mut sorted: Vec<&'a InteractionLog> = Vec::new();
        let mut i: usize = 0;
        while i < self.interactions.len()
            invariant
                i <= self.interactions@.len(),
                u == user_id@,
                log_values(sorted@) == newest_first(logs_for(self.interactions@.take(i as int), u)),
            decreases self.interactions@.len() - i,
        {
            let ghost before = log_values(sorted@);
            let ghost prefix = self.interactions@.take(i as int);
            let entry = &self.interactions[i];
            proof {
                assert(self.interactions@.take(i + 1).drop_last() =~= prefix);
                assert(self.interactions@.take(i + 1).last() == *entry);
            }
            if same_text(entry.0.as_str(), user_id) {
                let x = &entry.1;
                let mut p: usize = 0;
                while p < sorted.len() && sorted[p].timestamp > x.timestamp
                    invariant
                        p <= sorted@.len(),
                        forall|j: int| 0 <= j < p ==> #[trigger] sorted@[j].timestamp > x.timestamp,
                    decreases sorted@.len() - p,
                {
                    p = p + 1;
                }
                proof {
                    assert forall|j: int| 0 <= j < p implies #[trigger] before[j].timestamp > x.timestamp by {
                        assert(before[j] == *sorted@[j]);
                    }
                    if p < sorted@.len() {
                        assert(before[p as int] == *sorted@[p as int]);
                    }
                    lemma_slot(before, x.timestamp, p as int);
                }
                sorted.insert(p, x);
                proof {
                    assert(log_values(sorted@) =~= before.insert(p as int, *x));
                    let grown = self.interactions@.take(i + 1);
                    assert(logs_for(grown, u) == logs_for(prefix, u).push(*x));
                    assert(logs_for(grown, u).drop_last() =~= logs_for(prefix, u));
                }
            }
            i = i + 1;
        }
        assert(self.interactions@.take(i as int) =~= self.interactions@);
        let ghost all = log_values(sorted@);
        sorted.truncate(limit as usize);
        proof {
            if (limit as int) <= all.len() {
                assert(log_values(sorted@) =~= all.take(limit as int));
            } else {
                assert(log_values(sorted@) =~= all.take(all.len() as int));
            }
            lemma_newest_first_from(self.logs_of(u));
        }
        sorted
    }

    /// The fragments that answer the query, in stored order, at most
    /// `limit` of them.
    pub fn search_memories<'a>(&'a self, query: &MemoryQuery) -> (r: Vec<&'a MemoryFragment>)
        ensures
            fragment_values(r@) == selected(self.fragments_view(), *query).take(
                if limit_of(*query) <= selected(self.fragments_view(), *query).len() {
                    limit_of(*query)
                } else {
                    selected(self.fragments_view(), *query).len() as int
                },
            ),
    {
        let lowered_query = lowercase(query.query_text.as_str());
        let tokens = split_words(lowered_query.as_str());
        let limit: u32 = match query.limit {
            Some(n) => n,
            None => DEFAULT_SEARCH_LIMIT,
        };
        let mut found: Vec<&'a MemoryFragment> = Vec::new();
        let mut i: usize = 0;
        while i < self.fragments.len()
            invariant
                i <= self.fragments@.len(),
                views_of(tokens@) == words(lower_of(query.query_text@)),
                fragment_values(found@) == selected(self.fragments@.take(i as int), *query),
            decreases self.fragments@.len() - i,
        {
            let ghost before = fragment_values(found@);
            let f = &self.fragments[i];
            proof {
                assert(self.fragments@.take(i + 1).drop_last() =~= self.fragments@.take(i as int));
                assert(self.fragments@.take(i + 1).last() == *f);
            }
            let user_ok = match &query.user_id {
                Some(u) => same_text(f.user_id.as_str(), u.as_str()),
                None => true,
            };
            let type_ok = query.memory_types.len() == 0 || type_listed(&query.memory_types, f.memory_type);
            let time_ok = match query.time_range {
                Some(t) => t.start <= f.created_at && f.created_at <= t.end,
                None => true,
            };
            if user_ok && type_ok && time_ok {
                let lowered = lowercase(f.content.as_str());
                let hay = chars_of(lowered.as_str());
                if contains_all(&hay, &tokens) {
                    found.push(f);
                    assert(fragment_values(found@) =~= before.push(*f));
                }
            }
            i = i + 1;
        }
        assert(self.fragments@.take(i as int) =~= self.fragments@);
        let ghost all = fragment_values(found@);
        found.truncate(limit as usize);
        proof {
            if (limit as int) <= all.len() {
                assert(fragment_values(found@) =~= all.take(limit as int));
            } else {
                assert(fragment_values(found@) =~= all.take(all.len() as int));
            }
        }
        found
    }

    /// Aggregate figures on one user. Without interactions, the first and
    /// last interaction are `now`; without a corpus, so is the account's
    /// creation.
    pub fn get_user_statistics(&self, user_id: &str, now: i64) -> (r: UserStatistics)
        requires
            self.wf(),
        ensures
            r.user_id@ == user_id@,
            r.account_created == match self.corpus_of(user_id@) {
                Some(c) => c.created_at,
                None => now,
            },
            r.total_interactions == self.logs_of(user_id@).len(),
            r.first_interaction == if self.logs_of(user_id@).len() == 0 {
                now
            } else {
                earliest(self.logs_of(user_id@))
            },
            r.last_interaction == if self.logs_of(user_id@).len() == 0 {
                now
            } else {
                latest(self.logs_of(user_id@))
            },
            r.total_memories == self.fragments_of(user_id@).len(),
            r.memory_type_distribution@ == distribution(self.fragments_of(user_id@)),
    {
        let ghost u = user_id@;
        let account_created = match self.get_memory_corpus(user_id) {
            Some(c) => c.created_at,
            None => now,
        };
        let n = self.interactions.len();
        let mut total: u64 = 0;
        let mut first: i64 = now;
        let mut last: i64 = now;
        let mut i: usize = 0;
        while i < n
            invariant
                n == self.interactions@.len(),
                i <= n,
                u == user_id@,
                total == logs_for(self.interactions@.take(i as int), u).len(),
                total <= i,
                total == 0 ==> first == now && last == now,
                total > 0 ==> first == earliest(logs_for(self.interactions@.take(i as int), u)),
                total > 0 ==> last == latest(logs_for(self.interactions@.take(i as int), u)),
            decreases n - i,
        {
            let ghost prefix = self.interactions@.take(i as int);
            let entry = &self.interactions[i];
            proof {
                assert(self.interactions@.take(i + 1).drop_last() =~= prefix);
                assert(self.interactions@.take(i + 1).last() == *entry);
            }
            if same_text(entry.0.as_str(), user_id) {
                let ts = entry.1.timestamp;
                proof {
                    let grown = logs_for(self.interactions@.take(i + 1), u);
                    assert(grown == logs_for(prefix, u).push(entry.1));
                    assert(grown.drop_last() =~= logs_for(prefix, u));
                    if total == 0 {
                        assert(grown.len() == 1);
                        assert(grown[0] == entry.1);
                    }
                }
                if total == 0 || ts < first {
                    first = ts;
                }
                if total == 0 || ts > last {
                    last = ts;
                }
                total = total + 1;
            }
            i = i + 1;
        }
        assert(self.interactions@.take(i as int) =~= self.interactions@);
        let m = self.fragments.len();
        let mut memories: u64 = 0;
        let mut episodic: u64 = 0;
        let mut semantic: u64 = 0;
        let mut action: u64 = 0;
        let mut strategic: u64 = 0;
        let mut j: usize = 0;
        while j < m
            invariant
                m == self.fragments@.len(),
                j <= m,
                u == user_id@,
                memories == fragments_for(self.fragments@.take(j as int), u).len(),
                episodic == count_type(fragments_for(self.fragments@.take(j as int), u), MemoryType::Episodic),
                semantic == count_type(fragments_for(self.fragments@.take(j as int), u), MemoryType::Semantic),
                action == count_type(fragments_for(self.fragments@.take(j as int), u), MemoryType::ActionState),
                strategic == count_type(
                    fragments_for(self.fragments@.take(j as int), u),
                    MemoryType::StrategicInferential,
                ),
                memories <= j,
                episodic <= memories && semantic <= memories && action <= memories && strategic <= memories,
            decreases m - j,
        {
            let ghost prefix = self.fragments@.take(j as int);
            let f = &self.fragments[j];
            proof {
                assert(self.fragments@.take(j + 1).drop_last() =~= prefix);
                assert(self.fragments@.take(j + 1).last() == *f);
                lemma_count_type_len(fragments_for(prefix, u), MemoryType::Episodic);
                lemma_count_type_len(fragments_for(prefix, u), MemoryType::Semantic);
                lemma_count_type_len(fragments_for(prefix, u), MemoryType::ActionState);
                lemma_count_type_len(fragments_for(prefix, u), MemoryType::StrategicInferential);
            }
            if same_text(f.user_id.as_str(), user_id) {
                proof {
                    let grown = fragments_for(self.fragments@.take(j + 1), u);
                    assert(grown == fragments_for(prefix, u).push(*f));
                    assert(grown.drop_last() =~= fragments_for(prefix, u));
                }
                memories = memories + 1;
                match f.memory_type {
                    MemoryType::Episodic => episodic = episodic + 1,
                    MemoryType::Semantic => semantic = semantic + 1,
                    MemoryType::ActionState => action = action + 1,
                    MemoryType::StrategicInferential => strategic = strategic + 1,
                }
            }
            j = j + 1;
        }
        assert(self.fragments@.take(j as int) =~= self.fragments@);
        let mut dist: Vec<(MemoryType, u64)> = Vec::new();
        let ghost fs = self.fragments_of(u);
        if episodic > 0 {
            dist.push((MemoryType::Episodic, episodic));
        }
        assert(dist@ =~= type_entry(fs, MemoryType::Episodic));
        if semantic > 0 {
            dist.push((MemoryType::Semantic, semantic));
        }
        assert(dist@ =~= type_entry(fs, MemoryType::Episodic) + type_entry(fs, MemoryType::Semantic));
        if action > 0 {
            dist.push((MemoryType::ActionState, action));
        }
        assert(dist@ =~= type_entry(fs, MemoryType::Episodic) + type_entry(fs, MemoryType::Semantic)
            + type_entry(fs, MemoryType::ActionState));
        if strategic > 0 {
            dist.push((MemoryType::StrategicInferential, strategic));
        }
        assert(dist@ =~= distribution(fs));
        UserStatistics {
            user_id: String::from_str(user_id),
            account_created,
            total_interactions: total,
            first_interaction: first,
            last_interaction: last,
            total_memories: memories,
            memory_type_distribution: dist,
        }
    }
}

proof fn lemma_newest_first_from(s: Seq<InteractionLog>)
    ensures
        newest_first(s).len() == s.len(),
        forall|k: int| 0 <= k < newest_first(s).len() ==> s.contains(#[trigger] newest_first(s)[k]),
    decreases s.len(),
{
    if s.len() > 0 {
        let t = s.drop_last();
        lemma_newest_first_from(t);
        let r = newest_first(t);
        let p = slot(r, s.last().timestamp);
        lemma_slot_bound(r, s.last().timestamp);
        assert forall|k: int| 0 <= k < newest_first(s).len() implies s.contains(
            #[trigger] newest_first(s)[k],
        ) by {
            let x = newest_first(s)[k];
            if k < p {
                assert(x == r[k]);
            } else if k == p {
                assert(x == s.last());
                assert(s[s.len() - 1] == x);
            } else {
                assert(x == r[k - 1]);
            }
            if x != s.last() {
                let w = choose|w: int| 0 <= w < t.len() && t[w] == x;
                assert(s[w] == x);
            } else {
                assert(s[s.len() - 1] == x);
            }
        }
    }
}

/// An interaction stamped later than every interaction saved before it is
/// the first of the newest-first list, whatever was saved before.
pub proof fn lemma_latest_comes_first(s: Seq<InteractionLog>, x: InteractionLog)
    requires
        forall|k: int| 0 <= k < s.len() ==> #[trigger] s[k].timestamp < x.timestamp,
    ensures
        newest_first(s.push(x)).len() > 0,
        newest_first(s.push(x))[0] == x,
{
    let t = s.push(x);
    assert(t.drop_last() =~= s);
    assert(t.last() == x);
    lemma_newest_first_from(s);
    let r = newest_first(s);
    if r.len() > 0 {
        assert(s.contains(r[0]));
        let w = choose|w: int| 0 <= w < s.len() && s[w] == r[0];
        assert(r[0].timestamp < x.timestamp);
    }
    assert(slot(r, x.timestamp) == 0);
    assert(newest_first(t) == r.insert(0, x));
}

proof fn lemma_logs_without(s: Seq<(String, InteractionLog)>, u: Seq<char>)
    ensures
        logs_for(logs_without(s, u), u) == Seq::<InteractionLog>::empty(),
        forall|v: Seq<char>|
            v != u ==> #[trigger] logs_for(logs_without(s, u), v) == logs_for(s, v),
    decreases s.len(),
{
    if s.len() > 0 {
        lemma_logs_without(s.drop_last(), u);
        let t = logs_without(s.drop_last(), u);
        if s.last().0@ != u {
            assert(logs_without(s, u) == t.push(s.last()));
            assert(t.push(s.last()).drop_last() =~= t);
            assert forall|v: Seq<char>| v != u implies #[trigger] logs_for(logs_without(s, u), v)
                == logs_for(s, v) by {
                assert(logs_for(t.push(s.last()), v) == if s.last().0@ == v {
                    logs_for(t, v).push(s.last().1)
                } else {
                    logs_for(t, v)
                });
            }
        } else {
            assert(logs_without(s, u) == t);
        }
    } else {

    }
}

proof fn lemma_fragments_without(s: Seq<MemoryFragment>, u: Seq<char>)
    ensures
        fragments_for(fragments_without(s, u), u) == Seq::<MemoryFragment>::empty(),
        forall|v: Seq<char>|
            v != u ==> #[trigger] fragments_for(fragments_without(s, u), v) == fragments_for(s, v),
    decreases s.len(),
{
    if s.len() > 0 {
        lemma_fragments_without(s.drop_last(), u);
        let t = fragments_without(s.drop_last(), u);
        if s.last().user_id@ != u {
            assert(fragments_without(s, u) == t.push(s.last()));
            assert(t.push(s.last()).drop_last() =~= t);
            assert(fragments_for(t.push(s.last()), u) == fragments_for(t, u));
            assert forall|v: Seq<char>| v != u implies #[trigger] fragments_for(
                fragments_without(s, u),
                v,
            ) == fragments_for(s, v) by {
                assert(fragments_for(t.push(s.last()), v) == if s.last().user_id@ == v {
                    fragments_for(t, v).push(s.last())
                } else {
                    fragments_for(t, v)
                });
            }
        } else {
            assert(fragments_without(s, u) == t);
        }
    } else {

    }
}

} // verus!
