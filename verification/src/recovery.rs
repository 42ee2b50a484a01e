//! Recovery policy: which action answers which fault class.

use vstd::prelude::*;

use crate::text::{lower_code, lower_eq, lower_equals, owned, spec_trim, str_eq, trim};

verus! {

#[derive(Debug, Clone, Copy, PartialEq, Eq, Structural)]
pub enum RecoveryAction {
    MarkInvalidContinue,
    RecoverSequence,
    DropOldestResyncSlot,
    RestartStream,
    AlertAndContinue,
    RecordAndDrop,
    Unknown,
}

/// Keyword of each action.
pub open spec fn spec_action_name(a: RecoveryAction) -> Seq<char> {
    match a {
        RecoveryAction::MarkInvalidContinue => "mark_invalid_continue"@,
        RecoveryAction::RecoverSequence => "recover_sequence"@,
        RecoveryAction::DropOldestResyncSlot => "drop_oldest_resync_slot"@,
        RecoveryAction::RestartStream => "restart_stream"@,
        RecoveryAction::AlertAndContinue => "alert_and_continue"@,
        RecoveryAction::RecordAndDrop => "record_and_drop"@,
        RecoveryAction::Unknown => "unknown"@,
    }
}

/// The action a keyword names, matched on the trimmed, ASCII-lowercased text.
pub open spec fn spec_parse_action(s: Seq<char>) -> RecoveryAction {
    let t = spec_trim(s);
    if lower_equals(t, "mark_invalid_continue"@) {
        RecoveryAction::MarkInvalidContinue
    } else if lower_equals(t, "recover_sequence"@) {
        RecoveryAction::RecoverSequence
    } else if lower_equals(t, "drop_oldest_resync_slot"@) {
        RecoveryAction::DropOldestResyncSlot
    } else if lower_equals(t, "restart_stream"@) {
        RecoveryAction::RestartStream
    } else if lower_equals(t, "alert_and_continue"@) {
        RecoveryAction::AlertAndContinue
    } else if lower_equals(t, "record_and_drop"@) {
        RecoveryAction::RecordAndDrop
    } else {
        RecoveryAction::Unknown
    }
}

impl RecoveryAction {
    pub fn parse(s: &str) -> (a: Self)
        ensures
            a == spec_parse_action(s@),
    {
        let t = trim(s);
        if lower_eq(t, "mark_invalid_continue") {
            RecoveryAction::MarkInvalidContinue
        } else if lower_eq(t, "recover_sequence") {
            RecoveryAction::RecoverSequence
        } else if lower_eq(t, "drop_oldest_resync_slot") {
            RecoveryAction::DropOldestResyncSlot
        } else if lower_eq(t, "restart_stream") {
            RecoveryAction::RestartStream
        } else if lower_eq(t, "alert_and_continue") {
            RecoveryAction::AlertAndContinue
        } else if lower_eq(t, "record_and_drop") {
            RecoveryAction::RecordAndDrop
        } else {
            RecoveryAction::Unknown
        }
    }

    pub fn as_str(self) -> (s: &'static str)
        ensures
            s@ == spec_action_name(self),
    {
        match self {
            RecoveryAction::MarkInvalidContinue => "mark_invalid_continue",
            RecoveryAction::RecoverSequence => "recover_sequence",
            RecoveryAction::DropOldestResyncSlot => "drop_oldest_resync_slot",
            RecoveryAction::RestartStream => "restart_stream",
            RecoveryAction::AlertAndContinue => "alert_and_continue",
            RecoveryAction::RecordAndDrop => "record_and_drop",
            RecoveryAction::Unknown => "unknown",
        }
    }
}

#[derive(Debug, PartialEq, Eq)]
pub enum RecoveryError {
    Config(String),
}

/// Fault class → action table. No fault class occurs twice in `actions`.
#[derive(Debug, Clone)]
pub struct RecoveryPolicy {
    pub id: String,
    actions: Vec<(String, RecoveryAction)>,
}

/// The table that inserting `entries` one after another into an empty map
/// gives: a later entry for a class replaces an earlier one.
pub open spec fn spec_table_of(entries: Seq<(Seq<char>, RecoveryAction)>) -> Map<Seq<char>, RecoveryAction>
    decreases entries.len(),
{
    if entries.len() == 0 {
        Map::empty()
    } else {
        spec_table_of(entries.drop_last()).insert(entries.last().0, entries.last().1)
    }
}

/// The table of raw (fault class, action keyword) entries, keywords parsed.
pub open spec fn spec_parsed_entries(entries: Seq<(Seq<char>, Seq<char>)>) -> Seq<(Seq<char>, RecoveryAction)> {
    entries.map_values(|e: (Seq<char>, Seq<char>)| (e.0, spec_parse_action(e.1)))
}

/// The action a table gives a fault class; `Unknown` for a class it lacks.
pub open spec fn spec_lookup(table: Map<Seq<char>, RecoveryAction>, fault_class: Seq<char>) -> RecoveryAction {
    if table.contains_key(fault_class) {
        table[fault_class]
    } else {
        RecoveryAction::Unknown
    }
}

spec fn keys_distinct(s: Seq<(Seq<char>, RecoveryAction)>) -> bool {
    forall|i: int, j: int| 0 <= i < j < s.len() ==> #[trigger] s[i].0 != #[trigger] s[j].0
}

proof fn lemma_table_lookup(s: Seq<(Seq<char>, RecoveryAction)>, k: Seq<char>)
    requires
        keys_distinct(s),
    ensures
        spec_table_of(s).contains_key(k) <==> exists|i: int| 0 <= i < s.len() && #[trigger] s[i].0 == k,
        forall|i: int| 0 <= i < s.len() && #[trigger] s[i].0 == k ==> spec_table_of(s)[k] == s[i].1,
    decreases s.len(),
{
    if s.len() > 0 {
        let p = s.drop_last();
        let n = s.len() - 1;
        assert(keys_distinct(p)) by {
            assert forall|i: int, j: int| 0 <= i < j < p.len() implies #[trigger] p[i].0 != #[trigger] p[j].0 by {
                assert(s[i].0 != s[j].0);
            }
        }
        lemma_table_lookup(p, k);
        if spec_table_of(s).contains_key(k) {
            if k == s[n].0 {
                assert(s[n].0 == k);
            } else {
                let i = choose|i: int| 0 <= i < p.len() && #[trigger] p[i].0 == k;
                assert(s[i].0 == k);
            }
        }
        if exists|i: int| 0 <= i < s.len() && #[trigger] s[i].0 == k {
            let i = choose|i: int| 0 <= i < s.len() && #[trigger] s[i].0 == k;
            if i < n {
                assert(p[i].0 == k);
            }
        }
        assert forall|i: int| 0 <= i < s.len() && #[trigger] s[i].0 == k implies spec_table_of(s)[k] == s[i].1 by {
            if i < n {
                assert(p[i] == s[i]);
                assert(s[i].0 != s[n].0);
            }
        }
    }
}

proof fn lemma_table_update(s: Seq<(Seq<char>, RecoveryAction)>, j: int, a: RecoveryAction)
    requires
        keys_distinct(s),
        0 <= j < s.len(),
    ensures
        spec_table_of(s.update(j, (s[j].0, a))) == spec_table_of(s).insert(s[j].0, a),
    decreases s.len(),
{
    let k = s[j].0;
    let u = s.update(j, (k, a));
    if j == s.len() - 1 {
        assert(u.drop_last() =~= s.drop_last());
        assert(spec_table_of(u) =~= spec_table_of(s).insert(k, a));
    } else {
        let p = s.drop_last();
        assert(keys_distinct(p)) by {
            assert forall|x: int, y: int| 0 <= x < y < p.len() implies #[trigger] p[x].0 != #[trigger] p[y].0 by {
                assert(s[x].0 != s[y].0);
            }
        }
        assert(u.drop_last() =~= p.update(j, (k, a)));
        lemma_table_update(p, j, a);
        assert(s[j].0 != s[s.len() - 1].0);
        assert(spec_table_of(u) =~= spec_table_of(s).insert(k, a));
    }
}

impl RecoveryPolicy {
    /// The table held by the policy.
    pub closed spec fn table(&self) -> Map<Seq<char>, RecoveryAction> {
        spec_table_of(self.entries())
    }

    /// The policy's id.
    pub closed spec fn id_view(&self) -> Seq<char> {
        self.id@
    }

    closed spec fn entries(&self) -> Seq<(Seq<char>, RecoveryAction)> {
        self.actions@.map_values(|e: (String, RecoveryAction)| (e.0@, e.1))
    }

    /// No fault class occurs twice in the stored table.
    pub closed spec fn inv(&self) -> bool {
        keys_distinct(self.entries())
    }

    /// Builds a policy from (fault class, action keyword) entries; each keyword
    /// is parsed with [`RecoveryAction::parse`], and a later entry for a class
    /// replaces an earlier one.
    pub fn from_entries(id: String, entries: Vec<(String, String)>) -> (p: Self)
        ensures
            p.inv(),
            p.id_view() == id@,
            p.table() == spec_table_of(
                spec_parsed_entries(entries@.map_values(|e: (String, String)| (e.0@, e.1@))),
            ),
    {
        let ghost raw = entries@.map_values(|e: (String, String)| (e.0@, e.1@));
        let mut p = RecoveryPolicy { id, actions: Vec::new() };
        proof {
            assert(p.entries() =~= Seq::<(Seq<char>, RecoveryAction)>::empty());
            assert(spec_parsed_entries(raw).take(0) =~= Seq::<(Seq<char>, RecoveryAction)>::empty());
        }
        let mut i: usize = 0;
        while i < entries.len()
            invariant
                0 <= i <= entries@.len(),
                raw == entries@.map_values(|e: (String, String)| (e.0@, e.1@)),
                p.inv(),
                p.id@ == id@,
                p.table() == spec_table_of(spec_parsed_entries(raw).take(i as int)),
            decreases entries@.len() - i,
        {
            let action = RecoveryAction::parse(entries[i].1.as_str());
            let class = entries[i].0.clone();
            proof {
                assert(spec_parsed_entries(raw).take(i + 1).drop_last() =~= spec_parsed_entries(raw).take(i as int));
                assert(spec_parsed_entries(raw).take(i + 1).last() == (entries@[i as int].0@, action));
            }
            p.insert(class, action);
            i = i + 1;
        }
        proof {
            assert(spec_parsed_entries(raw).take(i as int) =~= spec_parsed_entries(raw));
        }
        p
    }

    fn insert(&mut self, fault_class: String, action: RecoveryAction)
        requires
            old(self).inv(),
        ensures
            final(self).inv(),
            final(self).id == old(self).id,
            final(self).table() == old(self).table().insert(fault_class@, action),
    {
        let mut j: usize = 0;
        while j < self.actions.len()
            invariant
                *self == *old(self),
                old(self).inv(),
                0 <= j <= self.actions@.len(),
                forall|m: int| 0 <= m < j ==> self.actions@[m].0@ != fault_class@,
            decreases self.actions@.len() - j,
        {
            if str_eq(self.actions[j].0.as_str(), fault_class.as_str()) {
                let ghost before = self.entries();
                let key = self.actions[j].0.clone();
                proof {
                    lemma_table_update(before, j as int, action);
                }
                self.actions.set(j, (fault_class, action));
                proof {
                    assert(self.entries() =~= before.update(j as int, (before[j as int].0, action)));
                    assert(keys_distinct(self.entries())) by {
                        assert forall|a: int, b: int| 0 <= a < b < self.entries().len() implies
                            #[trigger] self.entries()[a].0 != #[trigger] self.entries()[b].0 by {
                            assert(before[a].0 != before[b].0);
                            assert(self.entries()[a].0 == before[a].0);
                            assert(self.entries()[b].0 == before[b].0);
                        }
                    }
                }
                return;
            }
            j = j + 1;
        }
        let ghost before = self.entries();
        self.actions.push((fault_class, action));
        proof {
            assert(self.entries() =~= before.push((fault_class@, action)));
            assert(self.entries().drop_last() =~= before);
            assert(keys_distinct(self.entries())) by {
                assert forall|a: int, b: int| 0 <= a < b < self.entries().len() implies
                    #[trigger] self.entries()[a].0 != #[trigger] self.entries()[b].0 by {
                    if b < before.len() {
                        assert(before[a].0 != before[b].0);
                        assert(self.entries()[a] == before[a]);
                        assert(self.entries()[b] == before[b]);
                    } else {
                        assert(self.actions@[a].0@ != fault_class@);
                    }
                }
            }
        }
    }

    /// The action the policy gives `fault_class`, or `Unknown`.
    pub fn action_for(&self, fault_class: &str) -> (a: RecoveryAction)
        requires
            self.inv(),
        ensures
            a == spec_lookup(self.table(), fault_class@),
    {
        let ghost s = self.entries();
        proof {
            lemma_table_lookup(s, fault_class@);
        }
        let mut i: usize = 0;
        while i < self.actions.len()
            invariant
                0 <= i <= self.actions@.len(),
                s == self.entries(),
                keys_distinct(s),
                forall|m: int| 0 <= m < i ==> s[m].0 != fault_class@,
            decreases self.actions@.len() - i,
        {
            if str_eq(self.actions[i].0.as_str(), fault_class) {
                assert(s[i as int] == (self.actions@[i as int].0@, self.actions@[i as int].1));
                assert(s[i as int].0 == fault_class@);
                proof {
                    lemma_table_lookup(s, fault_class@);
                }
                return self.actions[i].1;
            }
            proof {
                assert(s[i as int] == (self.actions@[i as int].0@, self.actions@[i as int].1));
            }
            i = i + 1;
        }
        RecoveryAction::Unknown
    }
}

/// Records applied recovery actions; datapath callers decide how to execute.
#[derive(Debug)]
pub struct RecoveryExecutor {
    policy: RecoveryPolicy,
    pub applied: Vec<(String, RecoveryAction)>,
}

impl RecoveryExecutor {
    pub closed spec fn policy_spec(&self) -> RecoveryPolicy {
        self.policy
    }

    pub closed spec fn applied_spec(&self) -> Seq<(Seq<char>, RecoveryAction)> {
        self.applied@.map_values(|e: (String, RecoveryAction)| (e.0@, e.1))
    }

    pub fn new(policy: RecoveryPolicy) -> (e: Self)
        requires
            policy.inv(),
        ensures
            e.policy_spec() == policy,
            e.applied_spec() == Seq::<(Seq<char>, RecoveryAction)>::empty(),
    {
        let e = RecoveryExecutor { policy, applied: Vec::new() };
        proof {
            assert(e.applied_spec() =~= Seq::<(Seq<char>, RecoveryAction)>::empty());
        }
        e
    }

    pub fn policy_id(&self) -> (s: &str)
        ensures
            s@ == self.policy_spec().id_view(),
    {
        self.policy.id.as_str()
    }

    /// Looks up and records the action for `fault_class`.
    pub fn apply(&mut self, fault_class: &str) -> (a: RecoveryAction)
        requires
            old(self).policy_spec().inv(),
        ensures
            a == spec_lookup(old(self).policy_spec().table(), fault_class@),
            final(self).policy_spec() == old(self).policy_spec(),
            final(self).applied_spec() == old(self).applied_spec().push((fault_class@, a)),
    {
        let action = self.policy.action_for(fault_class);
        self.applied.push((owned(fault_class), action));
        proof {
            assert(self.applied_spec() =~= old(self).applied_spec().push((fault_class@, action)));
        }
        action
    }
}

/// The keyword of every known action parses back to that action.
pub proof fn law_action_name_roundtrip(a: RecoveryAction, s: Seq<char>)
    requires
        a != RecoveryAction::Unknown,
        spec_trim(s) == spec_action_name(a),
    ensures
        spec_parse_action(s) == a,
{
    reveal_strlit("mark_invalid_continue");
    reveal_strlit("recover_sequence");
    reveal_strlit("drop_oldest_resync_slot");
    reveal_strlit("restart_stream");
    reveal_strlit("alert_and_continue");
    reveal_strlit("record_and_drop");
    let t = spec_trim(s);
    assert forall|k: int| 0 <= k < t.len() implies lower_code(#[trigger] t[k]) == (t[k] as u32) by {
        assert(t[k] == 'a' || t[k] == 'b' || t[k] == 'c' || t[k] == 'd' || t[k] == 'e' || t[k] == 'i'
            || t[k] == 'k' || t[k] == 'l' || t[k] == 'm' || t[k] == 'n' || t[k] == 'o' || t[k] == 'p'
            || t[k] == 'q' || t[k] == 'r' || t[k] == 's' || t[k] == 't' || t[k] == 'u' || t[k] == 'v'
            || t[k] == 'y' || t[k] == '_' || t[k] == 'w' || t[k] == 'c' || t[k] == 'f');
    }
}

} // verus!
