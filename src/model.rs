//! The per-user memory corpus and the records kept beside it.
//!
//! Instants are milliseconds since the Unix epoch (UTC). Confidences and
//! scores, which lie in `[0, 1]`, are kept in thousandths.

use vstd::prelude::*;
use vstd::string::StringExecFns;
use crate::clock::{new_log_id, now_millis};
use crate::validate::same_text;

verus! {

/// A calendar date.
#[derive(Debug, Clone, Copy, PartialEq, Eq, Structural)]
pub struct Date {
    pub year: i32,
    pub month: u8,
    pub day: u8,
}

/// Direction of a message.
#[derive(Debug, Clone, Copy, PartialEq, Eq, Structural)]
pub enum MessageDirection {
    /// Sent by the user to the system.
    Inbound,
    /// Sent by the system to the user.
    Outbound,
}

/// Kind of memory that a fragment was derived from.
#[derive(Debug, Clone, Copy, PartialEq, Eq, Structural)]
pub enum MemoryType {
    Episodic,
    Semantic,
    ActionState,
    StrategicInferential,
}

/// One message exchanged with a user.
#[derive(Debug, Clone, PartialEq, Eq)]
pub struct InteractionLog {
    pub log_id: String,
    pub user_id: String,
    /// Message id from the mail headers.
    pub email_id: Option<String>,
    pub timestamp: i64,
    pub direction: MessageDirection,
    pub summary: String,
    pub emotional_tone: Vec<String>,
    pub key_topics: Vec<String>,
    pub llm_model_version: String,
    pub reasoning_chain_snapshot: Option<String>,
    /// Cost of the exchange in millionths of a US dollar.
    pub cost_micro_usd: Option<u64>,
}

/// A person the user is related to.
#[derive(Debug, Clone, PartialEq, Eq)]
pub struct Relationship {
    pub relationship_type: String,
    pub name: String,
    pub description: Option<String>,
    /// 1 to 5.
    pub importance_level: u8,
}

/// Who the user is.
#[derive(Debug, Clone, PartialEq, Eq)]
pub struct CoreProfile {
    pub name: Option<String>,
    pub age: Option<u32>,
    pub gender: Option<String>,
    pub city: Option<String>,
    pub occupation: Option<String>,
    pub relationships: Vec<Relationship>,
    pub personality_traits: Vec<String>,
    pub current_life_summary: Option<String>,
}

/// What happened between the user and the system.
#[derive(Debug, Clone, PartialEq, Eq)]
pub struct EpisodicMemory {
    pub interaction_log: Vec<InteractionLog>,
}

/// Likes, dislikes and tastes.
#[derive(Debug, Clone, PartialEq, Eq)]
pub struct PreferencesAndDislikes {
    pub likes: Vec<String>,
    pub dislikes: Vec<String>,
    pub hobbies: Vec<String>,
    pub food_preferences: Vec<String>,
    pub entertainment_preferences: Vec<String>,
}

/// A recurring behaviour.
#[derive(Debug, Clone, PartialEq, Eq)]
pub struct HabitPattern {
    pub description: String,
    pub frequency: String,
    pub confidence_permille: u16,
    pub first_observed: i64,
    pub last_confirmed: i64,
}

/// An event that matters in the user's life.
#[derive(Debug, Clone, PartialEq, Eq)]
pub struct SignificantEvent {
    pub description: String,
    pub date: Option<Date>,
    pub emotional_impact: String,
    /// 1 to 5.
    pub importance_level: u8,
    pub related_topics: Vec<String>,
}

/// A skill of the user.
#[derive(Debug, Clone, PartialEq, Eq)]
pub struct SkillExpertise {
    pub skill_name: String,
    pub proficiency_level: String,
    pub experience_description: Option<String>,
}

/// What the user knows, likes and values.
#[derive(Debug, Clone, PartialEq, Eq)]
pub struct SemanticMemory {
    pub preferences_and_dislikes: PreferencesAndDislikes,
    pub habits_and_patterns: Vec<HabitPattern>,
    pub significant_events: Vec<SignificantEvent>,
    pub skills_and_expertise: Vec<SkillExpertise>,
    pub values_and_beliefs: Vec<String>,
}

/// A to-do item.
#[derive(Debug, Clone, PartialEq, Eq)]
pub struct Task {
    pub task_id: String,
    pub description: String,
    pub priority: String,
    /// `pending`, `in_progress`, `completed` or `cancelled`.
    pub status: String,
    pub due_date: Option<Date>,
    pub created_at: i64,
    pub updated_at: i64,
}

/// A plan the user mentioned.
#[derive(Debug, Clone, PartialEq, Eq)]
pub struct Plan {
    pub description: String,
    pub timeframe: String,
    pub related_goals: Vec<String>,
    pub confidence_permille: u16,
}

/// Something to come back to.
#[derive(Debug, Clone, PartialEq, Eq)]
pub struct FollowUp {
    pub content: String,
    pub suggested_time: i64,
    pub importance: u8,
    pub resolved: bool,
}

/// Tasks, plans and follow-ups.
#[derive(Debug, Clone, PartialEq, Eq)]
pub struct ActionStateMemory {
    pub current_tasks: Vec<Task>,
    pub future_plans: Vec<Plan>,
    pub follow_ups: Vec<FollowUp>,
}

/// A hypothesis about the user.
#[derive(Debug, Clone, PartialEq, Eq)]
pub struct UserModelHypothesis {
    pub hypothesis_id: String,
    pub hypothesis: String,
    pub confidence_permille: u16,
    /// `active`, `refuted` or `confirmed`.
    pub status: String,
    /// Ids of the interactions that support it.
    pub evidence: Vec<String>,
    pub created_at: i64,
    pub updated_at: i64,
}

/// Goals for the relationship with the user.
#[derive(Debug, Clone, PartialEq, Eq)]
pub struct RelationalGoals {
    pub short_term: Vec<String>,
    pub medium_term: Vec<String>,
    pub long_term: Vec<String>,
}

/// How to talk to the user.
#[derive(Debug, Clone, PartialEq, Eq)]
pub struct CommunicationStrategy {
    pub current_tone_style: String,
    pub suitable_topics: Vec<String>,
    pub topics_to_avoid: Vec<String>,
    /// Preference name and value pairs.
    pub user_communication_preferences: Vec<(String, String)>,
}

/// A note of the system on its own conduct.
#[derive(Debug, Clone, PartialEq, Eq)]
pub struct SelfReflectionEntry {
    pub content: String,
    pub reflection_type: String,
    pub timestamp: i64,
    pub related_interaction: Option<String>,
}

/// Hypotheses, goals and strategy.
#[derive(Debug, Clone, PartialEq, Eq)]
pub struct StrategicInferentialMemory {
    pub user_model_hypotheses: Vec<UserModelHypothesis>,
    pub relational_goals: RelationalGoals,
    pub communication_strategy: CommunicationStrategy,
    pub self_reflection_log: Vec<SelfReflectionEntry>,
}

/// Everything remembered about one user.
#[derive(Debug, Clone, PartialEq, Eq)]
pub struct MemoryCorpus {
    pub user_id: String,
    pub version: String,
    pub created_at: i64,
    pub updated_at: i64,
    pub core_profile: CoreProfile,
    pub episodic_memory: EpisodicMemory,
    pub semantic_memory: SemanticMemory,
    pub action_state_memory: ActionStateMemory,
    pub strategic_inferential_memory: StrategicInferentialMemory,
}

/// A searchable excerpt of a user's memory.
#[derive(Debug, Clone, PartialEq, Eq)]
pub struct MemoryFragment {
    pub id: String,
    pub user_id: String,
    pub memory_type: MemoryType,
    pub content: String,
    pub tags: Vec<String>,
    pub created_at: i64,
    /// In `[0, 1000]`.
    pub importance_permille: u16,
    /// The corpus entry it was derived from.
    pub source_id: Option<String>,
}

/// Aggregate figures on one user, computed on demand.
#[derive(Debug, Clone, PartialEq, Eq)]
pub struct UserStatistics {
    pub user_id: String,
    pub account_created: i64,
    pub total_interactions: u64,
    pub first_interaction: i64,
    pub last_interaction: i64,
    pub total_memories: u64,
    /// Number of fragments of each memory type that has any.
    pub memory_type_distribution: Vec<(MemoryType, u64)>,
}

impl InteractionLog {
    /// A record of one message with the given id and instant.
    pub fn with_id(
        log_id: String,
        timestamp: i64,
        user_id: String,
        direction: MessageDirection,
        summary: String,
    ) -> (r: InteractionLog)
        ensures
            r.log_id == log_id,
            r.timestamp == timestamp,
            r.user_id == user_id,
            r.direction == direction,
            r.summary == summary,
            r.email_id is None,
            r.emotional_tone@.len() == 0,
            r.key_topics@.len() == 0,
            r.llm_model_version@ == "demo"@,
            r.reasoning_chain_snapshot is None,
            r.cost_micro_usd is None,
    {
        InteractionLog {
            log_id,
            user_id,
            email_id: None,
            timestamp,
            direction,
            summary,
            emotional_tone: Vec::new(),
            key_topics: Vec::new(),
            llm_model_version: String::from_str("demo"),
            reasoning_chain_snapshot: None,
            cost_micro_usd: None,
        }
    }

    /// A record of one message, stamped now, with a fresh random id.
    pub fn new(user_id: String, direction: MessageDirection, summary: String) -> (r: InteractionLog)
        ensures
            r.log_id@.len() == 36,
            r.user_id == user_id,
            r.direction == direction,
            r.summary == summary,
            r.email_id is None,
    {
        let id = new_log_id();
        let now = now_millis();
        InteractionLog::with_id(id, now, user_id, direction, summary)
    }
}

impl Default for CoreProfile {
    fn default() -> (r: CoreProfile)
        ensures
            r.name is None && r.age is None && r.gender is None && r.city is None
                && r.occupation is None && r.current_life_summary is None,
            r.relationships@.len() == 0 && r.personality_traits@.len() == 0,
    {
        CoreProfile {
            name: None,
            age: None,
            gender: None,
            city: None,
            occupation: None,
            relationships: Vec::new(),
            personality_traits: Vec::new(),
            current_life_summary: None,
        }
    }
}

impl Default for EpisodicMemory {
    fn default() -> (r: EpisodicMemory)
        ensures
            r.interaction_log@.len() == 0,
    {
        EpisodicMemory { interaction_log: Vec::new() }
    }
}

impl Default for SemanticMemory {
    fn default() -> (r: SemanticMemory)
        ensures
            r.habits_and_patterns@.len() == 0 && r.significant_events@.len() == 0
                && r.skills_and_expertise@.len() == 0 && r.values_and_beliefs@.len() == 0,
            r.preferences_and_dislikes.likes@.len() == 0,
            r.preferences_and_dislikes.dislikes@.len() == 0,
            r.preferences_and_dislikes.hobbies@.len() == 0,
            r.preferences_and_dislikes.food_preferences@.len() == 0,
            r.preferences_and_dislikes.entertainment_preferences@.len() == 0,
    {
        SemanticMemory {
            preferences_and_dislikes: PreferencesAndDislikes {
                likes: Vec::new(),
                dislikes: Vec::new(),
                hobbies: Vec::new(),
                food_preferences: Vec::new(),
                entertainment_preferences: Vec::new(),
            },
            habits_and_patterns: Vec::new(),
            significant_events: Vec::new(),
            skills_and_expertise: Vec::new(),
            values_and_beliefs: Vec::new(),
        }
    }
}

impl Default for ActionStateMemory {
    fn default() -> (r: ActionStateMemory)
        ensures
            r.current_tasks@.len() == 0 && r.future_plans@.len() == 0 && r.follow_ups@.len() == 0,
    {
        ActionStateMemory { current_tasks: Vec::new(), future_plans: Vec::new(), follow_ups: Vec::new() }
    }
}

impl Default for StrategicInferentialMemory {
    fn default() -> (r: StrategicInferentialMemory)
        ensures
            r.user_model_hypotheses@.len() == 0 && r.self_reflection_log@.len() == 0,
            r.relational_goals.short_term@.len() == 0,
            r.relational_goals.medium_term@.len() == 0,
            r.relational_goals.long_term@.len() == 0,
            r.communication_strategy.current_tone_style@ == "friendly_and_supportive"@,
            r.communication_strategy.suitable_topics@.len() == 0,
            r.communication_strategy.topics_to_avoid@.len() == 0,
            r.communication_strategy.user_communication_preferences@.len() == 0,
    {
        StrategicInferentialMemory {
            user_model_hypotheses: Vec::new(),
            relational_goals: RelationalGoals {
                short_term: Vec::new(),
                medium_term: Vec::new(),
                long_term: Vec::new(),
            },
            communication_strategy: CommunicationStrategy {
                current_tone_style: String::from_str("friendly_and_supportive"),
                suitable_topics: Vec::new(),
                topics_to_avoid: Vec::new(),
                user_communication_preferences: Vec::new(),
            },
            self_reflection_log: Vec::new(),
        }
    }
}

/// The instant recorded as `updated_at` when a record last stamped at `prev`
/// changes at `now`: `now`, unless the clock has not moved past `prev`, in
/// which case the instant right after `prev`.
pub open spec fn bumped(prev: i64, now: i64) -> i64 {
    if now > prev {
        now
    } else if prev < i64::MAX {
        (prev + 1) as i64
    } else {
        prev
    }
}

/// Computes [`bumped`].
pub fn bump(prev: i64, now: i64) -> (r: i64)
    ensures
        r == bumped(prev, now),
{
    if now > prev {
        now
    } else if prev < i64::MAX {
        prev + 1
    } else {
        prev
    }
}

/// Position of the first task with id `id`, if any.
pub open spec fn first_task(s: Seq<Task>, id: Seq<char>, i: int) -> bool {
    0 <= i < s.len() && s[i].task_id@ == id && forall|j: int| 0 <= j < i ==> #[trigger] s[j].task_id@ != id
}

/// Position of the first hypothesis with id `id`, if any.
pub open spec fn first_hypothesis(s: Seq<UserModelHypothesis>, id: Seq<char>, i: int) -> bool {
    0 <= i < s.len() && s[i].hypothesis_id@ == id && forall|j: int|
        0 <= j < i ==> #[trigger] s[j].hypothesis_id@ != id
}

/// Whether task `t` passes a status filter.
pub open spec fn status_matches(t: Task, status: Option<&str>) -> bool {
    match status {
        Some(st) => t.status@ == st@,
        None => true,
    }
}

/// The parts of the corpus that the action-state mutators leave alone.
pub open spec fn same_outside_actions(a: MemoryCorpus, b: MemoryCorpus) -> bool {
    &&& a.user_id == b.user_id
    &&& a.version == b.version
    &&& a.created_at == b.created_at
    &&& a.core_profile == b.core_profile
    &&& a.episodic_memory == b.episodic_memory
    &&& a.semantic_memory == b.semantic_memory
    &&& a.strategic_inferential_memory == b.strategic_inferential_memory
}

/// The parts of the corpus that the strategic mutators leave alone.
pub open spec fn same_outside_strategy(a: MemoryCorpus, b: MemoryCorpus) -> bool {
    &&& a.user_id == b.user_id
    &&& a.version == b.version
    &&& a.created_at == b.created_at
    &&& a.core_profile == b.core_profile
    &&& a.episodic_memory == b.episodic_memory
    &&& a.semantic_memory == b.semantic_memory
    &&& a.action_state_memory == b.action_state_memory
}

fn find_task(tasks: &Vec<Task>, id: &str) -> (r: Option<usize>)
    ensures
        match r {
            Some(i) => first_task(tasks@, id@, i as int),
            None => forall|j: int| 0 <= j < tasks@.len() ==> #[trigger] tasks@[j].task_id@ != id@,
        },
{
    let mut i: usize = 0;
    while i < tasks.len()
        invariant
            i <= tasks@.len(),
            forall|j: int| 0 <= j < i ==> #[trigger] tasks@[j].task_id@ != id@,
        decreases tasks@.len() - i,
    {
        if same_text(tasks[i].task_id.as_str(), id) {
            return Some(i);
        }
        i = i + 1;
    }
    None
}

fn find_hypothesis(hs: &Vec<UserModelHypothesis>, id: &str) -> (r: Option<usize>)
    ensures
        match r {
            Some(i) => first_hypothesis(hs@, id@, i as int),
            None => forall|j: int| 0 <= j < hs@.len() ==> #[trigger] hs@[j].hypothesis_id@ != id@,
        },
{
    let mut i: usize = 0;
    while i < hs.len()
        invariant
            i <= hs@.len(),
            forall|j: int| 0 <= j < i ==> #[trigger] hs@[j].hypothesis_id@ != id@,
        decreases hs@.len() - i,
    {
        if same_text(hs[i].hypothesis_id.as_str(), id) {
            return Some(i);
        }
        i = i + 1;
    }
    None
}

impl Default for MemoryCorpus {
    /// An empty corpus with no user, created now, at format version 2.1.
    fn default() -> (r: MemoryCorpus)
        ensures
            r.user_id@.len() == 0,
            r.version@ == "2.1"@,
            r.created_at == r.updated_at,
            r.episodic_memory.interaction_log@.len() == 0,
    {
        let now = now_millis();
        MemoryCorpus {
            user_id: String::new(),
            version: String::from_str("2.1"),
            created_at: now,
            updated_at: now,
            core_profile: CoreProfile::default(),
            episodic_memory: EpisodicMemory::default(),
            semantic_memory: SemanticMemory::default(),
            action_state_memory: ActionStateMemory::default(),
            strategic_inferential_memory: StrategicInferentialMemory::default(),
        }
    }
}

impl MemoryCorpus {
    /// An empty corpus for `user_id`, created at `now`, at format version 1.0.
    pub fn new_at(user_id: String, now: i64) -> (r: MemoryCorpus)
        ensures
            r.user_id == user_id,
            r.version@ == "1.0"@,
            r.created_at == now,
            r.updated_at == now,
            r.episodic_memory.interaction_log@.len() == 0,
            r.action_state_memory.current_tasks@.len() == 0,
            r.action_state_memory.follow_ups@.len() == 0,
            r.strategic_inferential_memory.user_model_hypotheses@.len() == 0,
    {
        MemoryCorpus {
            user_id,
            version: String::from_str("1.0"),
            created_at: now,
            updated_at: now,
            core_profile: CoreProfile::default(),
            episodic_memory: EpisodicMemory::default(),
            semantic_memory: SemanticMemory::default(),
            action_state_memory: ActionStateMemory::default(),
            strategic_inferential_memory: StrategicInferentialMemory::default(),
        }
    }

    /// An empty corpus for `user_id`, created now.
    pub fn new(user_id: String) -> (r: MemoryCorpus)
        ensures
            r.user_id == user_id,
            r.version@ == "1.0"@,
            r.created_at == r.updated_at,
    {
        let now = now_millis();
        MemoryCorpus::new_at(user_id, now)
    }

    /// Adds `task`, or replaces the first task with the same id.
    pub fn upsert_task(&mut self, task: Task, now: i64)
        ensures
            same_outside_actions(*final(self), *old(self)),
            final(self).action_state_memory.future_plans == old(self).action_state_memory.future_plans,
            final(self).action_state_memory.follow_ups == old(self).action_state_memory.follow_ups,
            final(self).updated_at == bumped(old(self).updated_at, now),
            (exists|i: int| first_task(old(self).action_state_memory.current_tasks@, task.task_id@, i)
                && final(self).action_state_memory.current_tasks@
                == old(self).action_state_memory.current_tasks@.update(i, task)) || (
            (forall|j: int| 0 <= j < old(self).action_state_memory.current_tasks@.len()
                ==> #[trigger] old(self).action_state_memory.current_tasks@[j].task_id@ != task.task_id@)
                && final(self).action_state_memory.current_tasks@
                == old(self).action_state_memory.current_tasks@.push(task)),
    {
        match find_task(&self.action_state_memory.current_tasks, task.task_id.as_str()) {
            Some(i) => {
                self.action_state_memory.current_tasks.set(i, task);
            },
            None => {
                self.action_state_memory.current_tasks.push(task);
            },
        }
        self.updated_at = bump(self.updated_at, now);
    }

    /// Marks the first task with id `task_id` completed at `now`; returns
    /// whether there was one. Without one, nothing changes.
    pub fn complete_task(&mut self, task_id: &str, now: i64) -> (r: bool)
        ensures
            r == exists|j: int|
                0 <= j < old(self).action_state_memory.current_tasks@.len()
                    && #[trigger] old(self).action_state_memory.current_tasks@[j].task_id@ == task_id@,
            !r ==> *final(self) == *old(self),
            r ==> same_outside_actions(*final(self), *old(self)),
            r ==> final(self).action_state_memory.future_plans == old(self).action_state_memory.future_plans,
            r ==> final(self).action_state_memory.follow_ups == old(self).action_state_memory.follow_ups,
            r ==> final(self).updated_at == bumped(old(self).updated_at, now),
            r ==> exists|i: int|
                first_task(old(self).action_state_memory.current_tasks@, task_id@, i) && ({
                    let before = old(self).action_state_memory.current_tasks@;
                    let after = final(self).action_state_memory.current_tasks@;
                    &&& after.len() == before.len()
                    &&& forall|j: int| 0 <= j < after.len() && j != i ==> after[j] == before[j]
                    &&& after[i].status@ == "completed"@
                    &&& after[i].updated_at == now
                    &&& after[i].task_id == before[i].task_id
                    &&& after[i].description == before[i].description
                    &&& after[i].priority == before[i].priority
                    &&& after[i].due_date == before[i].due_date
                    &&& after[i].created_at == before[i].created_at
                }),
    {
        match find_task(&self.action_state_memory.current_tasks, task_id) {
            Some(i) => {
                let t = self.action_state_memory.current_tasks.remove(i);
                let done = Task {
                    task_id: t.task_id,
                    description: t.description,
                    priority: t.priority,
                    status: String::from_str("completed"),
                    due_date: t.due_date,
                    created_at: t.created_at,
                    updated_at: now,
                };
                self.action_state_memory.current_tasks.insert(i, done);
                self.updated_at = bump(self.updated_at, now);
                true
            },
            None => false,
        }
    }

    /// The tasks whose status is `status`, or all tasks when none is given.
    pub fn get_tasks(&self, status: Option<&str>) -> (r: Vec<&Task>)
        ensures
            r@.map_values(|t: &Task| *t) == self.action_state_memory.current_tasks@.filter(
                |t: Task| status_matches(t, status),
            ),
    {
        let tasks = &self.action_state_memory.current_tasks;
        let mut out: Vec<&Task> = Vec::new();
        let mut i: usize = 0;
        while i < tasks.len()
            invariant
                i <= tasks@.len(),
                out@.map_values(|t: &Task| *t) == tasks@.take(i as int).filter(
                    |t: Task| status_matches(t, status),
                ),
            decreases tasks@.len() - i,
        {
            let ghost before = out@.map_values(|t: &Task| *t);
            let t = &tasks[i];
            proof {
                reveal(Seq::filter);
                assert(tasks@.take(i + 1).drop_last() =~= tasks@.take(i as int));
                assert(tasks@.take(i + 1).last() == *t);
            }
            let keep = match status {
                Some(st) => same_text(t.status.as_str(), st),
                None => true,
            };
            if keep {
                out.push(t);
                assert(out@.map_values(|t: &Task| *t) =~= before.push(*t));
            }
            i = i + 1;
        }
        assert(tasks@.take(i as int) =~= tasks@);
        out
    }

    /// Adds a follow-up.
    pub fn add_follow_up(&mut self, follow_up: FollowUp, now: i64)
        ensures
            same_outside_actions(*final(self), *old(self)),
            final(self).action_state_memory.current_tasks == old(self).action_state_memory.current_tasks,
            final(self).action_state_memory.future_plans == old(self).action_state_memory.future_plans,
            final(self).action_state_memory.follow_ups@ == old(self).action_state_memory.follow_ups@.push(follow_up),
            final(self).updated_at == bumped(old(self).updated_at, now),
    {
        self.action_state_memory.follow_ups.push(follow_up);
        self.updated_at = bump(self.updated_at, now);
    }

    /// The follow-ups not yet resolved, in order.
    pub fn get_pending_follow_ups(&self) -> (r: Vec<&FollowUp>)
        ensures
            r@.map_values(|f: &FollowUp| *f) == self.action_state_memory.follow_ups@.filter(
                |f: FollowUp| !f.resolved,
            ),
    {
        let fs = &self.action_state_memory.follow_ups;
        let mut out: Vec<&FollowUp> = Vec::new();
        let mut i: usize = 0;
        while i < fs.len()
            invariant
                i <= fs@.len(),
                out@.map_values(|f: &FollowUp| *f) == fs@.take(i as int).filter(|f: FollowUp| !f.resolved),
            decreases fs@.len() - i,
        {
            let ghost before = out@.map_values(|f: &FollowUp| *f);
            let f = &fs[i];
            proof {
                reveal(Seq::filter);
                assert(fs@.take(i + 1).drop_last() =~= fs@.take(i as int));
                assert(fs@.take(i + 1).last() == *f);
            }
            if !f.resolved {
                out.push(f);
                assert(out@.map_values(|f: &FollowUp| *f) =~= before.push(*f));
            }
            i = i + 1;
        }
        assert(fs@.take(i as int) =~= fs@);
        out
    }

    /// Adds a hypothesis about the user.
    pub fn add_user_hypothesis(&mut self, hypothesis: UserModelHypothesis, now: i64)
        ensures
            same_outside_strategy(*final(self), *old(self)),
            final(self).strategic_inferential_memory.user_model_hypotheses@
                == old(self).strategic_inferential_memory.user_model_hypotheses@.push(hypothesis),
            final(self).strategic_inferential_memory.relational_goals == old(self).strategic_inferential_memory.relational_goals,
            final(self).strategic_inferential_memory.communication_strategy == old(self).strategic_inferential_memory.communication_strategy,
            final(self).strategic_inferential_memory.self_reflection_log == old(self).strategic_inferential_memory.self_reflection_log,
            final(self).updated_at == bumped(old(self).updated_at, now),
    {
        self.strategic_inferential_memory.user_model_hypotheses.push(hypothesis);
        self.updated_at = bump(self.updated_at, now);
    }

    /// Sets the status of the first hypothesis with id `hypothesis_id`, adds
    /// `evidence` to its evidence, and stamps it `now`; returns whether there
    /// was one. Without one, nothing changes.
    pub fn update_hypothesis_status(
        &mut self,
        hypothesis_id: &str,
        status: String,
        evidence: Vec<String>,
        now: i64,
    ) -> (r: bool)
        ensures
            r == exists|j: int|
                0 <= j < old(self).strategic_inferential_memory.user_model_hypotheses@.len()
                    && #[trigger] old(self).strategic_inferential_memory.user_model_hypotheses@[j].hypothesis_id@
                    == hypothesis_id@,
            !r ==> *final(self) == *old(self),
            r ==> same_outside_strategy(*final(self), *old(self)),
            r ==> final(self).updated_at == bumped(old(self).updated_at, now),
            r ==> final(self).strategic_inferential_memory.relational_goals == old(self).strategic_inferential_memory.relational_goals,
            r ==> final(self).strategic_inferential_memory.communication_strategy == old(self).strategic_inferential_memory.communication_strategy,
            r ==> final(self).strategic_inferential_memory.self_reflection_log == old(self).strategic_inferential_memory.self_reflection_log,
            r ==> exists|i: int|
                first_hypothesis(old(self).strategic_inferential_memory.user_model_hypotheses@, hypothesis_id@, i) && ({
                    let before = old(self).strategic_inferential_memory.user_model_hypotheses@;
                    let after = final(self).strategic_inferential_memory.user_model_hypotheses@;
                    &&& after.len() == before.len()
                    &&& forall|j: int| 0 <= j < after.len() && j != i ==> after[j] == before[j]
                    &&& after[i].status == status
                    &&& after[i].evidence@ == before[i].evidence@ + evidence@
                    &&& after[i].updated_at == now
                    &&& after[i].hypothesis_id == before[i].hypothesis_id
                    &&& after[i].hypothesis == before[i].hypothesis
                    &&& after[i].confidence_permille == before[i].confidence_permille
                    &&& after[i].created_at == before[i].created_at
                }),
    {
        match find_hypothesis(&self.strategic_inferential_memory.user_model_hypotheses, hypothesis_id) {
            Some(i) => {
                let h = self.strategic_inferential_memory.user_model_hypotheses.remove(i);
                let mut ev = h.evidence;
                let mut extra = evidence;
                ev.append(&mut extra);
                let changed = UserModelHypothesis {
                    hypothesis_id: h.hypothesis_id,
                    hypothesis: h.hypothesis,
                    confidence_permille: h.confidence_permille,
                    status,
                    evidence: ev,
                    created_at: h.created_at,
                    updated_at: now,
                };
                self.strategic_inferential_memory.user_model_hypotheses.insert(i, changed);
                self.updated_at = bump(self.updated_at, now);
                true
            },
            None => false,
        }
    }

    /// The hypotheses whose status is `active`, in order.
    pub fn get_active_hypotheses(&self) -> (r: Vec<&UserModelHypothesis>)
        ensures
            r@.map_values(|h: &UserModelHypothesis| *h)
                == self.strategic_inferential_memory.user_model_hypotheses@.filter(
                |h: UserModelHypothesis| h.status@ == "active"@,
            ),
    {
        let hs = &self.strategic_inferential_memory.user_model_hypotheses;
        let mut out: Vec<&UserModelHypothesis> = Vec::new();
        let mut i: usize = 0;
        while i < hs.len()
            invariant
                i <= hs@.len(),
                out@.map_values(|h: &UserModelHypothesis| *h) == hs@.take(i as int).filter(
                    |h: UserModelHypothesis| h.status@ == "active"@,
                ),
            decreases hs@.len() - i,
        {
            let ghost before = out@.map_values(|h: &UserModelHypothesis| *h);
            let h = &hs[i];
            proof {
                reveal(Seq::filter);
                assert(hs@.take(i + 1).drop_last() =~= hs@.take(i as int));
                assert(hs@.take(i + 1).last() == *h);
            }
            if same_text(h.status.as_str(), "active") {
                out.push(h);
                assert(out@.map_values(|h: &UserModelHypothesis| *h) =~= before.push(*h));
            }
            i = i + 1;
        }
        assert(hs@.take(i as int) =~= hs@);
        out
    }

    /// Replaces the communication strategy.
    pub fn update_communication_strategy(&mut self, strategy: CommunicationStrategy, now: i64)
        ensures
            same_outside_strategy(*final(self), *old(self)),
            final(self).strategic_inferential_memory.communication_strategy == strategy,
            final(self).strategic_inferential_memory.user_model_hypotheses == old(self).strategic_inferential_memory.user_model_hypotheses,
            final(self).strategic_inferential_memory.relational_goals == old(self).strategic_inferential_memory.relational_goals,
            final(self).strategic_inferential_memory.self_reflection_log == old(self).strategic_inferential_memory.self_reflection_log,
            final(self).updated_at == bumped(old(self).updated_at, now),
    {
        self.strategic_inferential_memory.communication_strategy = strategy;
        self.updated_at = bump(self.updated_at, now);
    }

    /// Adds an entry to the self-reflection log.
    pub fn add_self_reflection(&mut self, reflection: SelfReflectionEntry, now: i64)
        ensures
            same_outside_strategy(*final(self), *old(self)),
            final(self).strategic_inferential_memory.self_reflection_log@
                == old(self).strategic_inferential_memory.self_reflection_log@.push(reflection),
            final(self).strategic_inferential_memory.user_model_hypotheses == old(self).strategic_inferential_memory.user_model_hypotheses,
            final(self).strategic_inferential_memory.relational_goals == old(self).strategic_inferential_memory.relational_goals,
            final(self).strategic_inferential_memory.communication_strategy == old(self).strategic_inferential_memory.communication_strategy,
            final(self).updated_at == bumped(old(self).updated_at, now),
    {
        self.strategic_inferential_memory.self_reflection_log.push(reflection);
        self.updated_at = bump(self.updated_at, now);
    }
}

} // verus!
