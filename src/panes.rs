//! The pane registry: the authoritative record of pane identity and status.
//!
//! Identifiers are `debug-N`, with `N` counting up from 1 over the registry's
//! whole lifetime, so an identifier is never handed out twice, even after the
//! pane it named was removed.

use vstd::prelude::*;
use vstd::string::*;
use vstd::std_specs::iter::IteratorSpec;
use crate::text::{decimal, lemma_decimal_injective, lemma_prefix_cancel, push_decimal, str_eq};

verus! {

/// Status of a pane.
#[derive(Debug, Clone, Copy, PartialEq, Eq, Structural)]
pub enum PaneStatus {
    /// The pane's process is still running.
    Running,
    /// The pane's process has exited; the pane stays visible.
    Exited,
}

impl PaneStatus {
    /// The lower-case name of the status.
    pub open spec fn spec_name(self) -> Seq<char> {
        match self {
            PaneStatus::Running => "running"@,
            PaneStatus::Exited => "exited"@,
        }
    }

    /// The lower-case name of the status: `running` or `exited`.
    pub fn as_str(&self) -> (r: &'static str)
        ensures
            r@ == self.spec_name(),
    {
        match self {
            PaneStatus::Running => "running",
            PaneStatus::Exited => "exited",
        }
    }
}

/// What a pane record holds, as plain sequences.
pub struct PaneRecord {
    pub id: Seq<char>,
    pub name: Seq<char>,
    pub status: PaneStatus,
    pub command: Seq<char>,
}

/// State of a single pane.
#[derive(Debug, Clone, PartialEq, Eq)]
pub struct PaneState {
    /// Unique pane identifier (`debug-N`).
    pub id: String,
    /// Display name; the identifier when none was given.
    pub name: String,
    /// Current status of the pane.
    pub status: PaneStatus,
    /// Command that was started in the pane.
    pub command: String,
}

impl View for PaneState {
    type V = PaneRecord;

    open spec fn view(&self) -> PaneRecord {
        PaneRecord { id: self.id@, name: self.name@, status: self.status, command: self.command@ }
    }
}

impl PaneState {
    /// A running pane with the given identity.
    pub fn new(id: String, name: String, command: String) -> (r: Self)
        ensures
            r@ == (PaneRecord { id: id@, name: name@, status: PaneStatus::Running, command: command@ }),
    {
        PaneState { id, name, status: PaneStatus::Running, command }
    }

    /// Replaces the status.
    pub fn set_status(&mut self, status: PaneStatus)
        ensures
            final(self)@ == (PaneRecord { status, ..old(self)@ }),
    {
        self.status = status;
    }

    /// Whether the pane is running.
    pub fn is_running(&self) -> (r: bool)
        ensures
            r == (self.status == PaneStatus::Running),
    {
        self.status == PaneStatus::Running
    }

    /// Whether the pane has exited.
    pub fn is_exited(&self) -> (r: bool)
        ensures
            r == (self.status == PaneStatus::Exited),
    {
        self.status == PaneStatus::Exited
    }
}

/// The identifier that the registry hands out for counter value `n`.
pub open spec fn pane_id_for(n: nat) -> Seq<char> {
    "debug-"@ + decimal(n)
}

/// The record that a fresh registration stores.
pub open spec fn fresh_record(id: Seq<char>, command: Seq<char>, name: Option<Seq<char>>) -> PaneRecord {
    PaneRecord {
        id,
        name: match name {
            Some(n) => n,
            None => id,
        },
        status: PaneStatus::Running,
        command,
    }
}

/// Distinct counter values give distinct identifiers.
pub proof fn lemma_pane_id_injective(a: nat, b: nat)
    requires
        pane_id_for(a) == pane_id_for(b),
    ensures
        a == b,
{
    lemma_prefix_cancel("debug-"@, decimal(a), decimal(b));
    lemma_decimal_injective(a, b);
}

/// Whether `s` lists each record of `m` exactly once, and nothing else.
pub open spec fn lists_records(s: Seq<PaneState>, m: Map<Seq<char>, PaneRecord>) -> bool {
    &&& s.len() == m.len()
    &&& forall|i: int| 0 <= i < s.len() ==> #[trigger] m.contains_key(s[i].id@) && m[s[i].id@] == s[i]@
    &&& forall|i: int, j: int| 0 <= i < s.len() && 0 <= j < s.len() && i != j ==> s[i].id@ != s[j].id@
    &&& forall|k: Seq<char>| #[trigger] m.contains_key(k) ==> exists|i: int| 0 <= i < s.len() && s[i].id@ == k
}

/// Whether no identifier occurs twice in `s`.
pub open spec fn ids_unique(s: Seq<PaneState>) -> bool {
    forall|i: int, j: int| 0 <= i < s.len() && 0 <= j < s.len() && i != j ==> s[i].id@ != s[j].id@
}

/// Whether some pane of `s` has identifier `k`.
pub open spec fn holds_id(s: Seq<PaneState>, k: Seq<char>) -> bool {
    exists|i: int| 0 <= i < s.len() && s[i].id@ == k
}

/// The records of `s`, keyed by identifier.
pub open spec fn records_of(s: Seq<PaneState>) -> Map<Seq<char>, PaneRecord> {
    Map::new(
        |k: Seq<char>| holds_id(s, k),
        |k: Seq<char>| s[choose|i: int| 0 <= i < s.len() && s[i].id@ == k]@,
    )
}

/// The identifiers of `s`, in order.
pub open spec fn ids_of(s: Seq<PaneState>) -> Seq<Seq<char>> {
    s.map_values(|p: PaneState| p.id@)
}

proof fn lemma_records_of_index(s: Seq<PaneState>, i: int)
    requires
        ids_unique(s),
        0 <= i < s.len(),
    ensures
        records_of(s).contains_key(s[i].id@),
        records_of(s)[s[i].id@] == s[i]@,
{
    let k = s[i].id@;
    assert(holds_id(s, k));
    let j = choose|j: int| 0 <= j < s.len() && s[j].id@ == k;
    assert(j == i);
}

proof fn lemma_records_of_len(s: Seq<PaneState>)
    requires
        ids_unique(s),
    ensures
        records_of(s).dom().finite(),
        records_of(s).len() == s.len(),
{
    let ids = ids_of(s);
    assert(ids.no_duplicates()) by {
        assert forall|i: int, j: int| 0 <= i < ids.len() && 0 <= j < ids.len() && i != j implies ids[i] != ids[j] by {
            assert(ids[i] == s[i].id@);
            assert(ids[j] == s[j].id@);
        }
    }
    ids.unique_seq_to_set();
    assert(records_of(s).dom() =~= ids.to_set()) by {
        assert forall|k: Seq<char>| records_of(s).dom().contains(k) implies ids.to_set().contains(k) by {
            let i = choose|i: int| 0 <= i < s.len() && s[i].id@ == k;
            assert(ids[i] == k);
        }
        assert forall|k: Seq<char>| ids.to_set().contains(k) implies records_of(s).dom().contains(k) by {
            let i = choose|i: int| 0 <= i < ids.len() && ids[i] == k;
            assert(s[i].id@ == k);
        }
    }
    broadcast use vstd::seq_lib::seq_to_set_is_finite;
}

/// `s` with unique identifiers lists exactly `records_of(s)`.
proof fn lemma_lists_own_records(s: Seq<PaneState>)
    requires
        ids_unique(s),
    ensures
        lists_records(s, records_of(s)),
{
    lemma_records_of_len(s);
    assert forall|i: int| 0 <= i < s.len() implies #[trigger] records_of(s).contains_key(s[i].id@)
        && records_of(s)[s[i].id@] == s[i]@ by {
        lemma_records_of_index(s, i);
    }
}

/// `records_of(s)` is `m` when both have the same identifiers and `m` gives
/// each pane of `s` its record.
proof fn lemma_records_of_is(s: Seq<PaneState>, m: Map<Seq<char>, PaneRecord>)
    requires
        ids_unique(s),
        forall|k: Seq<char>| holds_id(s, k) <==> #[trigger] m.contains_key(k),
        forall|i: int| 0 <= i < s.len() ==> #[trigger] m[s[i].id@] == s[i]@,
    ensures
        records_of(s) == m,
{
    assert forall|k: Seq<char>| #[trigger] records_of(s).contains_key(k) implies records_of(s)[k] == m[k] by {
        let i = choose|i: int| 0 <= i < s.len() && s[i].id@ == k;
        lemma_records_of_index(s, i);
    }
    assert(records_of(s) =~= m);
}

/// Tracks every pane created through the server.
pub struct PaneManager {
    panes: Vec<PaneState>,
    next_id: u64,
}

impl View for PaneManager {
    type V = Map<Seq<char>, PaneRecord>;

    closed spec fn view(&self) -> Map<Seq<char>, PaneRecord> {
        records_of(self.panes@)
    }
}

impl PaneManager {
    /// The counter value that the next identifier will carry.
    pub closed spec fn next_number(&self) -> nat {
        self.next_id as nat
    }

    /// The registry's invariant.
    pub closed spec fn wf(&self) -> bool {
        &&& self.next_id >= 1
        &&& ids_unique(self.panes@)
        &&& forall|i: int| 0 <= i < self.panes@.len() ==>
            exists|n: nat| 1 <= n < self.next_id && #[trigger] self.panes@[i].id@ == pane_id_for(n)
    }

    proof fn lemma_wf_lists(&self)
        requires
            self.wf(),
        ensures
            lists_records(self.panes@, self@),
            self@.dom().finite(),
            forall|k: Seq<char>| #[trigger] self@.contains_key(k) ==> self@[k].id == k,
    {
        lemma_lists_own_records(self.panes@);
        lemma_records_of_len(self.panes@);
        assert forall|k: Seq<char>| #[trigger] self@.contains_key(k) implies self@[k].id == k by {
            let i = choose|i: int| 0 <= i < self.panes@.len() && self.panes@[i].id@ == k;
            lemma_records_of_index(self.panes@, i);
        }
    }

    /// A registry holds finitely many panes, each under its own identifier.
    pub proof fn lemma_records_finite(&self)
        requires
            self.wf(),
        ensures
            self@.dom().finite(),
            forall|k: Seq<char>| #[trigger] self@.contains_key(k) ==> self@[k].id == k,
    {
        self.lemma_wf_lists();
    }

    /// An empty registry whose first identifier is `debug-1`.
    pub fn new() -> (r: Self)
        ensures
            r.wf(),
            r@ == Map::<Seq<char>, PaneRecord>::empty(),
            r.next_number() == 1,
    {
        let r = PaneManager { panes: Vec::new(), next_id: 1 };
        proof {
            assert(r@ =~= Map::<Seq<char>, PaneRecord>::empty());
        }
        r
    }

    /// Whether another identifier can still be generated.
    pub fn can_generate(&self) -> (r: bool)
        ensures
            r == (self.next_number() < u64::MAX),
    {
        self.next_id < u64::MAX
    }

    /// Hands out the next identifier, `debug-N`, and advances the counter.
    pub fn generate_id(&mut self) -> (r: String)
        requires
            old(self).wf(),
            old(self).next_number() < u64::MAX,
        ensures
            final(self).wf(),
            r@ == pane_id_for(old(self).next_number()),
            !old(self)@.contains_key(r@),
            final(self)@ == old(self)@,
            final(self).next_number() == old(self).next_number() + 1,
    {
        let mut id = String::from_str("debug-");
        push_decimal(&mut id, self.next_id);
        proof {
            reveal_strlit("debug-");
            assert(id@ == pane_id_for(self.next_id as nat));
            if holds_id(self.panes@, id@) {
                let i = choose|i: int| 0 <= i < self.panes@.len() && self.panes@[i].id@ == id@;
                let n = choose|n: nat| 1 <= n < self.next_id && self.panes@[i].id@ == pane_id_for(n);
                lemma_pane_id_injective(n, self.next_id as nat);
            }
        }
        self.next_id = self.next_id + 1;
        proof {
            assert forall|i: int| 0 <= i < self.panes@.len() implies exists|n: nat|
                1 <= n < self.next_id && #[trigger] self.panes@[i].id@ == pane_id_for(n) by {
                let n = choose|n: nat| 1 <= n < self.next_id - 1 && self.panes@[i].id@ == pane_id_for(n);
                assert(1 <= n < self.next_id);
            }
        }
        id
    }

    /// Registers a running pane under a fresh identifier and returns it.
    ///
    /// The display name is `name` when given, else the identifier.
    pub fn create_pane(&mut self, command: &str, name: Option<&str>) -> (r: String)
        requires
            old(self).wf(),
            old(self).next_number() < u64::MAX,
        ensures
            final(self).wf(),
            r@ == pane_id_for(old(self).next_number()),
            !old(self)@.contains_key(r@),
            final(self)@ == old(self)@.insert(
                r@,
                fresh_record(r@, command@, match name { Some(n) => Some(n@), None => None }),
            ),
            final(self).next_number() == old(self).next_number() + 1,
    {
        let ghost old_view = self@;
        let id = self.generate_id();
        let display_name = match name {
            Some(n) => n.to_owned(),
            None => id.clone(),
        };
        let state = PaneState::new(id.clone(), display_name, command.to_owned());
        let ghost old_panes = self.panes@;
        self.panes.push(state);
        proof {
            let s = self.panes@;
            let m = old_view.insert(id@, state@);
            assert(!holds_id(old_panes, id@));
            assert(s[s.len() - 1] == state);
            assert(ids_unique(s)) by {
                assert forall|i: int, j: int| 0 <= i < s.len() && 0 <= j < s.len() && i != j implies
                    s[i].id@ != s[j].id@ by {
                    if i < old_panes.len() && j < old_panes.len() {
                        assert(s[i] == old_panes[i] && s[j] == old_panes[j]);
                    } else if i < old_panes.len() {
                        assert(s[i] == old_panes[i]);
                    } else {
                        assert(s[j] == old_panes[j]);
                    }
                }
            }
            assert forall|k: Seq<char>| holds_id(s, k) <==> #[trigger] m.contains_key(k) by {
                if holds_id(s, k) {
                    let i = choose|i: int| 0 <= i < s.len() && s[i].id@ == k;
                    if i < old_panes.len() {
                        assert(s[i] == old_panes[i]);
                        assert(holds_id(old_panes, k));
                    }
                }
                if m.contains_key(k) && k != id@ {
                    let i = choose|i: int| 0 <= i < old_panes.len() && old_panes[i].id@ == k;
                    assert(s[i] == old_panes[i]);
                }
                if k == id@ {
                    assert(s[s.len() - 1].id@ == k);
                }
            }
            assert forall|i: int| 0 <= i < s.len() implies #[trigger] m[s[i].id@] == s[i]@ by {
                if i < old_panes.len() {
                    assert(s[i] == old_panes[i]);
                    lemma_records_of_index(old_panes, i);
                    assert(old_panes[i].id@ != id@);
                }
            }
            lemma_records_of_is(s, m);
            assert forall|i: int| 0 <= i < s.len() implies exists|n: nat|
                1 <= n < self.next_id && #[trigger] s[i].id@ == pane_id_for(n) by {
                if i < old_panes.len() {
                    assert(s[i] == old_panes[i]);
                } else {
                    assert(1 <= self.next_id - 1 < self.next_id && s[i].id@ == pane_id_for((self.next_id - 1) as nat));
                }
            }
        }
        id
    }

    /// Position of the pane with identifier `pane_id`, if any.
    fn find(&self, pane_id: &str) -> (r: Option<usize>)
        requires
            self.wf(),
        ensures
            match r {
                Some(i) => i < self.panes@.len() && self.panes@[i as int].id@ == pane_id@
                    && self@.contains_key(pane_id@) && self@[pane_id@] == self.panes@[i as int]@,
                None => !self@.contains_key(pane_id@),
            },
    {
        let mut i: usize = 0;
        while i < self.panes.len()
            invariant
                self.wf(),
                i <= self.panes@.len(),
                forall|j: int| 0 <= j < i ==> self.panes@[j].id@ != pane_id@,
            decreases self.panes@.len() - i,
        {
            if str_eq(self.panes[i].id.as_str(), pane_id) {
                proof {
                    lemma_records_of_index(self.panes@, i as int);
                }
                return Some(i);
            }
            i = i + 1;
        }
        None
    }

    /// The pane with identifier `pane_id`, if registered.
    pub fn get(&self, pane_id: &str) -> (r: Option<&PaneState>)
        requires
            self.wf(),
        ensures
            r is Some <==> self@.contains_key(pane_id@),
            r is Some ==> r->Some_0@ == self@[pane_id@] && r->Some_0.id@ == pane_id@,
    {
        proof {
            self.lemma_wf_lists();
        }
        match self.find(pane_id) {
            Some(i) => Some(&self.panes[i]),
            None => None,
        }
    }

    /// The pane with identifier `pane_id`, for changing in place.
    ///
    /// The registry stays well formed, with the changed record, as long as
    /// the caller leaves the pane's identifier as it is.
    pub fn get_mut(&mut self, pane_id: &str) -> (r: Option<&mut PaneState>)
        requires
            old(self).wf(),
        ensures
            r is Some <==> old(self)@.contains_key(pane_id@),
            final(self).next_number() == old(self).next_number(),
            r is None ==> final(self)@ == old(self)@ && final(self).wf(),
            r is Some ==> (*r.unwrap())@ == old(self)@[pane_id@] && ((*final(r.unwrap())).id@ == pane_id@ ==> (
            final(self).wf() && final(self)@ == old(self)@.insert(pane_id@, (*final(r.unwrap()))@))),
    {
        match self.find(pane_id) {
            None => None,
            Some(i) => {
                let ghost old_panes = self.panes@;
                let ghost old_view = self@;
                proof {
                    self.lemma_wf_lists();
                    Self::lemma_replace(old_panes, i as int, self.next_id as nat);
                }
                Some(&mut self.panes[i])
            },
        }
    }

    /// Replacing the pane at `i` by one with the same identifier keeps the
    /// invariant and replaces that record.
    proof fn lemma_replace(s: Seq<PaneState>, i: int, next: nat)
        requires
            ids_unique(s),
            0 <= i < s.len(),
            forall|j: int| 0 <= j < s.len() ==> exists|n: nat| 1 <= n < next && #[trigger] s[j].id@ == pane_id_for(n),
        ensures
            forall|p: PaneState| #![trigger s.update(i, p)] p.id@ == s[i].id@ ==> {
                &&& ids_unique(s.update(i, p))
                &&& records_of(s.update(i, p)) == records_of(s).insert(s[i].id@, p@)
                &&& forall|j: int| 0 <= j < s.len() ==> exists|n: nat| 1 <= n < next && #[trigger] s.update(i, p)[j].id@ == pane_id_for(n)
            },
    {
        assert forall|p: PaneState| #![trigger s.update(i, p)] p.id@ == s[i].id@ implies {
            &&& ids_unique(s.update(i, p))
            &&& records_of(s.update(i, p)) == records_of(s).insert(s[i].id@, p@)
            &&& forall|j: int| 0 <= j < s.len() ==> exists|n: nat| 1 <= n < next && #[trigger] s.update(i, p)[j].id@ == pane_id_for(n)
        } by {
            let t = s.update(i, p);
            let m = records_of(s).insert(s[i].id@, p@);
            assert forall|a: int, b: int| 0 <= a < t.len() && 0 <= b < t.len() && a != b implies t[a].id@ != t[b].id@ by {
                assert(t[a].id@ == s[a].id@ && t[b].id@ == s[b].id@);
            }
            assert forall|k: Seq<char>| holds_id(t, k) <==> #[trigger] m.contains_key(k) by {
                if holds_id(t, k) {
                    let j = choose|j: int| 0 <= j < t.len() && t[j].id@ == k;
                    assert(s[j].id@ == k);
                }
                if m.contains_key(k) && k != s[i].id@ {
                    let j = choose|j: int| 0 <= j < s.len() && s[j].id@ == k;
                    assert(t[j].id@ == k);
                }
                if k == s[i].id@ {
                    assert(t[i].id@ == k);
                }
            }
            assert forall|j: int| 0 <= j < t.len() implies #[trigger] m[t[j].id@] == t[j]@ by {
                if j != i {
                    lemma_records_of_index(s, j);
                }
            }
            lemma_records_of_is(t, m);
            assert forall|j: int| 0 <= j < s.len() implies exists|n: nat| 1 <= n < next && #[trigger] t[j].id@ == pane_id_for(n) by {
                assert(t[j].id@ == s[j].id@);
            }
        }
    }

    /// Whether a pane with identifier `pane_id` is registered.
    pub fn contains(&self, pane_id: &str) -> (r: bool)
        requires
            self.wf(),
        ensures
            r == self@.contains_key(pane_id@),
    {
        self.find(pane_id).is_some()
    }

    /// Deregisters the pane with identifier `pane_id`, returning its record.
    pub fn remove(&mut self, pane_id: &str) -> (r: Option<PaneState>)
        requires
            old(self).wf(),
        ensures
            final(self).wf(),
            r is Some <==> old(self)@.contains_key(pane_id@),
            r is Some ==> r->Some_0@ == old(self)@[pane_id@],
            final(self)@ == old(self)@.remove(pane_id@),
            final(self).next_number() == old(self).next_number(),
    {
        match self.find(pane_id) {
            None => {
                proof {
                    assert(self@.remove(pane_id@) =~= self@);
                }
                None
            },
            Some(idx) => {
                let ghost old_panes = self.panes@;
                let ghost old_view = self@;
                let removed = self.panes.remove(idx);
                proof {
                    let s = self.panes@;
                    let m = old_view.remove(pane_id@);
                    assert(s =~= old_panes.remove(idx as int));
                    assert(ids_unique(s)) by {
                        assert forall|i: int, j: int| 0 <= i < s.len() && 0 <= j < s.len() && i != j implies
                            s[i].id@ != s[j].id@ by {
                            let oi = if i < idx { i } else { i + 1 };
                            let oj = if j < idx { j } else { j + 1 };
                            assert(s[i] == old_panes[oi] && s[j] == old_panes[oj]);
                        }
                    }
                    assert forall|k: Seq<char>| holds_id(s, k) <==> #[trigger] m.contains_key(k) by {
                        if holds_id(s, k) {
                            let i = choose|i: int| 0 <= i < s.len() && s[i].id@ == k;
                            let oi = if i < idx { i } else { i + 1 };
                            assert(s[i] == old_panes[oi]);
                            assert(holds_id(old_panes, k));
                            assert(oi != idx);
                        }
                        if m.contains_key(k) {
                            let oi = choose|oi: int| 0 <= oi < old_panes.len() && old_panes[oi].id@ == k;
                            assert(oi != idx);
                            let i = if oi < idx { oi } else { oi - 1 };
                            assert(s[i] == old_panes[oi]);
                        }
                    }
                    assert forall|i: int| 0 <= i < s.len() implies #[trigger] m[s[i].id@] == s[i]@ by {
                        let oi = if i < idx { i } else { i + 1 };
                        assert(s[i] == old_panes[oi]);
                        lemma_records_of_index(old_panes, oi);
                        assert(old_panes[oi].id@ != old_panes[idx as int].id@);
                    }
                    lemma_records_of_is(s, m);
                    assert forall|i: int| 0 <= i < s.len() implies exists|n: nat|
                        1 <= n < self.next_id && #[trigger] s[i].id@ == pane_id_for(n) by {
                        let oi = if i < idx { i } else { i + 1 };
                        assert(s[i] == old_panes[oi]);
                    }
                }
                Some(removed)
            },
        }
    }

    /// Sets the status of the pane with identifier `pane_id`; false when no
    /// such pane is registered, in which case nothing changes.
    pub fn update_status(&mut self, pane_id: &str, status: PaneStatus) -> (r: bool)
        requires
            old(self).wf(),
        ensures
            final(self).wf(),
            r == old(self)@.contains_key(pane_id@),
            final(self)@ == (if r {
                old(self)@.insert(pane_id@, PaneRecord { status, ..old(self)@[pane_id@] })
            } else {
                old(self)@
            }),
            final(self).next_number() == old(self).next_number(),
    {
        match self.find(pane_id) {
            None => false,
            Some(idx) => {
                let ghost old_panes = self.panes@;
                let ghost old_view = self@;
                proof {
                    Self::lemma_replace(old_panes, idx as int, self.next_id as nat);
                }
                let mut pane = self.panes.remove(idx);
                pane.set_status(status);
                self.panes.insert(idx, pane);
                proof {
                    assert(self.panes@ =~= old_panes.update(idx as int, pane));
                    assert(pane@ == PaneRecord { status, ..old_view[pane_id@] });
                }
                true
            },
        }
    }

    /// Every registered pane, each once, in registration order.
    pub fn entries(&self) -> (r: &[PaneState])
        requires
            self.wf(),
        ensures
            lists_records(r@, self@),
    {
        proof {
            self.lemma_wf_lists();
        }
        self.panes.as_slice()
    }

    /// Iterates over every registered pane, each once.
    pub fn iter(&self) -> (r: std::slice::Iter<'_, PaneState>)
        requires
            self.wf(),
        ensures
            lists_records(r.remaining().unref(), self@),
    {
        proof {
            self.lemma_wf_lists();
        }
        let it = self.panes.as_slice().iter();
        proof {
            broadcast use vstd::std_specs::slice::axiom_spec_slice_iter;
            assert(it.remaining().unref() =~= self.panes@);
        }
        it
    }

    /// Number of registered panes.
    pub fn len(&self) -> (r: usize)
        requires
            self.wf(),
        ensures
            r == self@.len(),
    {
        proof {
            self.lemma_wf_lists();
        }
        self.panes.len()
    }

    /// Whether no pane is registered.
    pub fn is_empty(&self) -> (r: bool)
        requires
            self.wf(),
        ensures
            r == (self@.len() == 0),
    {
        proof {
            self.lemma_wf_lists();
        }
        self.panes.len() == 0
    }

    /// The identifiers of all registered panes, each once.
    pub fn pane_ids(&self) -> (r: Vec<String>)
        requires
            self.wf(),
        ensures
            r@.len() == self@.len(),
            forall|i: int| 0 <= i < r@.len() ==> #[trigger] self@.contains_key(r@[i]@),
            forall|i: int, j: int| 0 <= i < r@.len() && 0 <= j < r@.len() && i != j ==> r@[i]@ != r@[j]@,
            forall|k: Seq<char>| #[trigger] self@.contains_key(k) ==> exists|i: int| 0 <= i < r@.len() && r@[i]@ == k,
    {
        proof {
            self.lemma_wf_lists();
        }
        let mut ids: Vec<String> = Vec::new();
        let mut i: usize = 0;
        while i < self.panes.len()
            invariant
                self.wf(),
                lists_records(self.panes@, self@),
                i <= self.panes@.len(),
                ids@.len() == i,
                forall|j: int| 0 <= j < i ==> #[trigger] ids@[j]@ == self.panes@[j].id@,
            decreases self.panes@.len() - i,
        {
            ids.push(self.panes[i].id.clone());
            i = i + 1;
        }
        proof {
            assert forall|i: int| 0 <= i < ids@.len() implies #[trigger] self@.contains_key(ids@[i]@) by {
                assert(ids@[i]@ == self.panes@[i].id@);
            }
            assert forall|i: int, j: int| 0 <= i < ids@.len() && 0 <= j < ids@.len() && i != j implies
                ids@[i]@ != ids@[j]@ by {
                assert(ids@[i]@ == self.panes@[i].id@);
                assert(ids@[j]@ == self.panes@[j].id@);
            }
            assert forall|k: Seq<char>| #[trigger] self@.contains_key(k) implies exists|i: int|
                0 <= i < ids@.len() && ids@[i]@ == k by {
                let i = choose|i: int| 0 <= i < self.panes@.len() && self.panes@[i].id@ == k;
                assert(ids@[i]@ == k);
            }
        }
        ids
    }
}

impl Default for PaneManager {
    fn default() -> (r: Self)
        ensures
            r.wf(),
            r@ == Map::<Seq<char>, PaneRecord>::empty(),
            r.next_number() == 1,
    {
        Self::new()
    }
}

/// Identifiers generated from different counter values differ, so the
/// identifiers `debug-1`, `debug-2`, ... that a registry hands out, one per
/// generation and never reset by removals, never repeat.
pub proof fn law_generated_ids_never_repeat(a: nat, b: nat)
    requires
        a != b,
    ensures
        pane_id_for(a) != pane_id_for(b),
{
    if pane_id_for(a) == pane_id_for(b) {
        lemma_pane_id_injective(a, b);
    }
}

/// Right after a pane is registered, looking its identifier up gives a
/// running pane with the given command and the given name, or the
/// identifier when no name was given.
pub proof fn law_created_pane_is_running(
    before: Map<Seq<char>, PaneRecord>,
    id: Seq<char>,
    command: Seq<char>,
    name: Option<Seq<char>>,
)
    ensures
        ({
            let after = before.insert(id, fresh_record(id, command, name));
            &&& after.contains_key(id)
            &&& after[id].status == PaneStatus::Running
            &&& after[id].command == command
            &&& after[id].name == match name {
                Some(n) => n,
                None => id,
            }
        }),
{
}

/// After a pane's status is set to `Exited` it reads `Exited`, and the pane
/// stays registered until it is removed.
pub proof fn law_exited_pane_stays_listed(before: Map<Seq<char>, PaneRecord>, id: Seq<char>)
    requires
        before.contains_key(id),
    ensures
        ({
            let after = before.insert(id, PaneRecord { status: PaneStatus::Exited, ..before[id] });
            &&& after.contains_key(id)
            &&& after[id].status == PaneStatus::Exited
            &&& after.dom() == before.dom()
        }),
{
    assert(before.insert(id, PaneRecord { status: PaneStatus::Exited, ..before[id] }).dom() =~= before.dom());
}

/// Removing an identifier that is not registered changes nothing, and
/// removing any identifier leaves every other pane as it was.
pub proof fn law_remove_touches_only_its_id(before: Map<Seq<char>, PaneRecord>, id: Seq<char>)
    ensures
        !before.contains_key(id) ==> before.remove(id) == before,
        forall|k: Seq<char>| k != id ==> (#[trigger] before.remove(id).contains_key(k) == before.contains_key(k)),
        forall|k: Seq<char>| k != id && before.contains_key(k) ==> #[trigger] before.remove(id)[k] == before[k],
{
    if !before.contains_key(id) {
        assert(before.remove(id) =~= before);
    }
}

} // verus!
