//! The update log, its realtime view, and the cache of delayed views.
//!
//! Instants are milliseconds since the Unix epoch; a delay is a number of
//! seconds behind the present.

use crate::merge::{merge, merged};
use crate::parser::ParsedMessage;
use crate::value::{Doc, Node};
use std::collections::HashMap;
use vstd::prelude::*;

verus! {

broadcast use vstd::std_specs::hash::group_hash_axioms;

/// One partial update of the document. The log never changes one after it is
/// appended.
#[derive(Debug, Clone, PartialEq, Eq)]
pub struct Update {
    /// The part of the feed that the update came from.
    pub category: String,
    /// When the update was made.
    pub timestamp: i64,
    /// The change to merge into the document.
    pub patch: Node,
}

/// The mathematical model of an [`Update`].
pub struct UpdateModel {
    pub category: Seq<char>,
    pub timestamp: i64,
    pub patch: Doc,
}

impl View for Update {
    type V = UpdateModel;

    open spec fn view(&self) -> UpdateModel {
        UpdateModel { category: self.category@, timestamp: self.timestamp, patch: self.patch@ }
    }
}

/// The models of a run of updates.
pub open spec fn updates_model(updates: Seq<Update>) -> Seq<UpdateModel> {
    Seq::new(updates.len(), |i: int| updates[i]@)
}

/// The document with every update of the log merged in.
#[derive(Debug)]
pub struct Realtime {
    /// The instant of the last update merged in, if there is one.
    pub timestamp: Option<i64>,
    pub state: Node,
}

/// A cached delayed view: the document with a prefix of the log merged in.
#[derive(Debug, Clone)]
pub struct AsyncState {
    pub state: Node,
    /// How many updates of the log are merged into `state`.
    pub applied: usize,
    /// The instant of the last update merged in, if there is one.
    pub current_timestamp: Option<i64>,
    /// The instant of the first update not merged in; `None` stands for an
    /// unknown, arbitrarily late instant.
    pub next_timestamp: Option<i64>,
}

/// Why the log refused a call.
#[derive(Debug, Clone, Copy, PartialEq, Eq, Structural)]
pub enum ProtocolError {
    /// The initial snapshot was given before.
    AlreadyInitialised,
}

/// The update log together with the views derived from it.
#[derive(Debug)]
pub struct History {
    pub initial: Option<Node>,
    pub updates: Vec<Update>,
    pub delay_states: HashMap<i64, AsyncState>,
    pub realtime: Option<Realtime>,
}

/// The document `base` after the updates at positions `from` up to, but not
/// including, `to` have been merged into it in order.
pub open spec fn replayed(base: Doc, updates: Seq<Update>, from: int, to: int) -> Doc
    decreases to - from,
{
    if to <= from {
        base
    } else {
        merged(replayed(base, updates, from, to - 1), updates[to - 1].patch@)
    }
}

/// The latest instant that a view `delay` seconds behind `now` may show.
pub open spec fn horizon(now: i64, delay: i64) -> int {
    now - delay * 1000
}

/// Where a scan of the log that starts at `from` stops: at the first update
/// made after `limit`, or at the end of the log.
pub open spec fn reach(updates: Seq<Update>, from: int, limit: int) -> int
    decreases updates.len() - from,
{
    if from < 0 || from >= updates.len() {
        from
    } else if updates[from].timestamp > limit {
        from
    } else {
        reach(updates, from + 1, limit)
    }
}

/// The instant of the last of the first `applied` updates.
pub open spec fn last_instant(updates: Seq<Update>, applied: int) -> Option<i64> {
    if 0 < applied <= updates.len() {
        Some(updates[applied - 1].timestamp)
    } else {
        None
    }
}

/// The instant of the update that follows the first `applied` ones.
pub open spec fn next_instant(updates: Seq<Update>, applied: int) -> Option<i64> {
    if 0 <= applied < updates.len() {
        Some(updates[applied].timestamp)
    } else {
        None
    }
}

impl AsyncState {
    /// The entry shows `initial` with exactly the first `self.applied` updates
    /// merged in. Its record of the next instant may lag behind a log that has
    /// grown since: then it is `None`.
    pub open spec fn wf(&self, initial: Doc, updates: Seq<Update>) -> bool {
        &&& self.applied <= updates.len()
        &&& self.state@ == replayed(initial, updates, 0, self.applied as int)
        &&& self.current_timestamp == last_instant(updates, self.applied as int)
        &&& self.next_timestamp is Some ==> self.next_timestamp == next_instant(
            updates,
            self.applied as int,
        )
    }

    /// The entry is [`wf`](Self::wf), stands at position `applied`, and its
    /// record of the next instant is up to date.
    pub open spec fn stands_at(&self, initial: Doc, updates: Seq<Update>, applied: int) -> bool {
        &&& self.wf(initial, updates)
        &&& self.applied == applied
        &&& self.next_timestamp == next_instant(updates, applied)
    }
}

/// The patches of those of the first `n` updates that are of `category`, in
/// order.
pub open spec fn patches_of(updates: Seq<Update>, category: Seq<char>, n: nat) -> Seq<Doc>
    decreases n,
{
    if n == 0 || n > updates.len() {
        Seq::empty()
    } else if updates[n - 1].category@ == category {
        patches_of(updates, category, (n - 1) as nat).push(updates[n - 1].patch@)
    } else {
        patches_of(updates, category, (n - 1) as nat)
    }
}

/// The models of a run of borrowed documents.
pub open spec fn borrowed_model(items: Seq<&Node>) -> Seq<Doc> {
    Seq::new(items.len(), |i: int| items[i]@)
}

/// Merging depends only on the updates that are merged.
pub proof fn lemma_replayed_agrees(base: Doc, a: Seq<Update>, b: Seq<Update>, from: int, to: int)
    requires
        0 <= from,
        to <= a.len(),
        to <= b.len(),
        forall|i: int| from <= i < to ==> a[i] == b[i],
    ensures
        replayed(base, a, from, to) == replayed(base, b, from, to),
    decreases to - from,
{
    if from < to {
        lemma_replayed_agrees(base, a, b, from, to - 1);
    }
}

/// Merging a run of updates in two parts is merging the whole run.
pub proof fn lemma_replayed_split(base: Doc, updates: Seq<Update>, from: int, mid: int, to: int)
    requires
        from <= mid <= to,
    ensures
        replayed(replayed(base, updates, from, mid), updates, mid, to) == replayed(
            base,
            updates,
            from,
            to,
        ),
    decreases to - mid,
{
    if mid < to {
        lemma_replayed_split(base, updates, from, mid, to - 1);
    }
}

/// Merging a batch is merging the end of the log that the batch was appended to.
pub proof fn lemma_replayed_shift(base: Doc, log: Seq<Update>, batch: Seq<Update>, n: int)
    requires
        0 <= n <= batch.len(),
    ensures
        replayed(base, batch, 0, n) == replayed(base, log + batch, log.len() as int, log.len() + n),
    decreases n,
{
    if 0 < n {
        lemma_replayed_shift(base, log, batch, n - 1);
        assert((log + batch)[log.len() + n - 1] == batch[n - 1]);
    }
}

/// Merges the updates from position `from` on into `state`, in order.
fn replay(state: &mut Node, updates: &Vec<Update>, from: usize)
    requires
        from <= updates.len(),
    ensures
        final(state)@ == replayed(old(state)@, updates@, from as int, updates@.len() as int),
{
    let mut i: usize = from;
    while i < updates.len()
        invariant
            from <= i <= updates.len(),
            state@ == replayed(old(state)@, updates@, from as int, i as int),
        decreases updates.len() - i,
    {
        merge(state, &updates[i].patch);
        i += 1;
    }
}

/// Reads the clock: the present instant.
///
/// Calls `chrono::Utc::now` and takes its `timestamp_millis`. Nothing is
/// claimed of the result: two readings may differ in either direction. The
/// clock itself gives up if the system time lies before the Unix epoch.
#[verifier::external_body]
fn now_millis() -> (now: i64) {
    chrono::Utc::now().timestamp_millis()
}

/// Lists the delays that have an entry, each once, in no particular order.
fn tracked_delays(entries: &HashMap<i64, AsyncState>) -> (delays: Vec<i64>)
    ensures
        delays@.no_duplicates(),
        forall|d: i64| delays@.contains(d) <==> entries@.contains_key(d),
{
    let mut delays: Vec<i64> = Vec::new();
    for key in iter: entries.keys()
        invariant
            delays@.len() == iter.index(),
            forall|i: int| 0 <= i < delays@.len() ==> delays@[i] == *iter.seq()[i],
    {
        delays.push(*key);
    }
    proof {
        let keys = vstd::std_specs::iter::IteratorSpec::remaining(
            &vstd::std_specs::hash::spec_keys_iter(entries),
        );
        assert(delays@ =~= keys.unref());
        assert forall|d: i64| delays@.contains(d) <==> entries@.contains_key(d) by {
            assert(keys.unref().to_set().contains(d) <==> entries@.dom().contains(d));
        }
    }
    delays
}

impl History {
    /// The views agree with the log: the realtime view exists once the initial
    /// snapshot is set and shows it with every update merged in; each delayed
    /// view shows it with a prefix of the log merged in.
    pub open spec fn wf(&self) -> bool {
        &&& self.initial is Some <==> self.realtime is Some
        &&& self.realtime is Some ==> {
            &&& self.realtime->0.state@ == replayed(
                self.initial->0@,
                self.updates@,
                0,
                self.updates@.len() as int,
            )
            &&& self.realtime->0.timestamp == last_instant(
                self.updates@,
                self.updates@.len() as int,
            )
        }
        &&& forall|d: i64| #[trigger]
            self.delay_states@.contains_key(d) ==> {
                &&& self.initial is Some
                &&& self.delay_states@[d].wf(self.initial->0@, self.updates@)
            }
    }

    /// The position in the log from which a query for `delay` goes on: that of
    /// its cached entry, or the start of the log.
    pub open spec fn start_of(&self, delay: i64) -> int {
        if self.delay_states@.contains_key(delay) {
            self.delay_states@[delay].applied as int
        } else {
            0
        }
    }

    /// The position in the log that a query for `delay` at the instant `now`
    /// arrives at.
    pub open spec fn position_at(&self, now: i64, delay: i64) -> int {
        reach(self.updates@, self.start_of(delay), horizon(now, delay))
    }

    /// The document that a query for `delay` at the instant `now` shows.
    pub open spec fn delayed_view(&self, now: i64, delay: i64) -> Doc {
        replayed(self.initial->0@, self.updates@, 0, self.position_at(now, delay))
    }

    /// Every delay that has an entry in `self` is answered in `views`, and
    /// advanced in `after`, as a query at the instant `now` answers and advances
    /// it.
    pub open spec fn answered_at(&self, after: History, views: Map<i64, Node>, now: i64) -> bool {
        forall|d: i64| #[trigger]
            self.delay_states@.contains_key(d) ==> {
                &&& views[d]@ == self.delayed_view(now, d)
                &&& after.delay_states@[d].stands_at(
                    self.initial->0@,
                    self.updates@,
                    self.position_at(now, d),
                )
            }
    }

    /// An empty log without a snapshot.
    pub fn new() -> (history: History)
        ensures
            history.wf(),
            history.initial is None,
            history.realtime is None,
            history.updates@.len() == 0,
            history.delay_states@ == Map::<i64, AsyncState>::empty(),
    {
        History {
            initial: None,
            updates: Vec::new(),
            delay_states: HashMap::new(),
            realtime: None,
        }
    }

    /// Sets the initial snapshot, once.
    ///
    /// The snapshot precedes every update in merge order, also those that were
    /// appended before it: the realtime view starts as the snapshot with the
    /// whole log merged in. A second call changes nothing and is refused.
    pub fn set_intitial(&mut self, state: Node) -> (outcome: Result<(), ProtocolError>)
        requires
            old(self).wf(),
        ensures
            final(self).wf(),
            old(self).initial is Some ==> outcome == Err::<(), ProtocolError>(
                ProtocolError::AlreadyInitialised,
            ) && *final(self) == *old(self),
            old(self).initial is None ==> {
                &&& outcome is Ok
                &&& final(self).initial == Some(state)
                &&& final(self).updates == old(self).updates
                &&& final(self).delay_states == old(self).delay_states
                &&& final(self).realtime is Some
                &&& final(self).realtime->0.state@ == replayed(
                    state@,
                    old(self).updates@,
                    0,
                    old(self).updates@.len() as int,
                )
            },
    {
        if self.initial.is_some() {
            return Err(ProtocolError::AlreadyInitialised);
        }
        let mut current = state.clone();
        replay(&mut current, &self.updates, 0);
        let n = self.updates.len();
        let timestamp = if n > 0 {
            Some(self.updates[n - 1].timestamp)
        } else {
            None
        };
        self.realtime = Some(Realtime { timestamp, state: current });
        self.initial = Some(state);
        Ok(())
    }

    /// Appends a batch to the log and merges it into the realtime view.
    ///
    /// The batch is moved into the log, in its order, and left empty. An empty
    /// batch changes nothing. Without an initial snapshot the updates are kept
    /// in the log and merged when the snapshot arrives.
    pub fn add_updates(&mut self, updates: &mut Vec<Update>)
        requires
            old(self).wf(),
        ensures
            final(self).wf(),
            final(self).updates@ == old(self).updates@ + old(updates)@,
            final(updates)@.len() == 0,
            final(self).initial == old(self).initial,
            final(self).delay_states == old(self).delay_states,
            final(self).realtime is Some ==> final(self).realtime->0.state@ == replayed(
                old(self).realtime->0.state@,
                old(updates)@,
                0,
                old(updates)@.len() as int,
            ),
    {
        if updates.len() < 1 {
            assert(self.updates@ + updates@ =~= self.updates@);
            return ;
        }
        let ghost log = self.updates@;
        let ghost batch = updates@;
        let n = updates.len();
        let last = updates[n - 1].timestamp;
        match &mut self.realtime {
            Some(realtime) => {
                replay(&mut realtime.state, updates, 0);
                realtime.timestamp = Some(last);
            },
            None => {},
        }
        self.updates.append(updates);
        proof {
            if self.initial is Some {
                let base = self.initial->0@;
                lemma_replayed_agrees(base, log, log + batch, 0, log.len() as int);
                lemma_replayed_shift(old(self).realtime->0.state@, log, batch, batch.len() as int);
                lemma_replayed_split(
                    base,
                    log + batch,
                    0,
                    log.len() as int,
                    (log.len() + batch.len()) as int,
                );
            }
            assert forall|d: i64| #[trigger] self.delay_states@.contains_key(d) implies self.initial
                is Some && self.delay_states@[d].wf(self.initial->0@, self.updates@) by {
                let entry = self.delay_states@[d];
                lemma_replayed_agrees(
                    self.initial->0@,
                    log,
                    log + batch,
                    0,
                    entry.applied as int,
                );
            }
        }
    }

    /// Takes in what one message of the feed carries and gives the realtime
    /// view that follows from it, for those who subscribe to it.
    ///
    /// A snapshot is set as [`set_intitial`](Self::set_intitial) sets it, and
    /// ignored if there is one already; a batch is appended as
    /// [`add_updates`](Self::add_updates) appends it; an empty message changes
    /// nothing.
    pub fn ingest(&mut self, message: ParsedMessage) -> (snapshot: Option<Node>)
        requires
            old(self).wf(),
        ensures
            final(self).wf(),
            final(self).delay_states == old(self).delay_states,
            match message {
                ParsedMessage::Empty => *final(self) == *old(self),
                ParsedMessage::Replay(state) => if old(self).initial is Some {
                    *final(self) == *old(self)
                } else {
                    final(self).initial == Some(state) && final(self).updates == old(self).updates
                },
                ParsedMessage::Updates(batch) => final(self).initial == old(self).initial && final(self).updates@ == old(self).updates@ + batch@,
            },
            snapshot is Some <==> final(self).initial is Some,
            snapshot is Some ==> snapshot->0@ == replayed(
                final(self).initial->0@,
                final(self).updates@,
                0,
                final(self).updates@.len() as int,
            ),
    {
        match message {
            ParsedMessage::Empty => {},
            ParsedMessage::Replay(state) => {
                let _ = self.set_intitial(state);
            },
            ParsedMessage::Updates(batch) => {
                let mut batch = batch;
                self.add_updates(&mut batch);
            },
        }
        self.get_realtime()
    }

    /// The patches of the updates of one category, in the order of the log.
    pub fn filter_updates(&self, category: &str) -> (patches: Vec<&Node>)
        ensures
            borrowed_model(patches@) == patches_of(
                self.updates@,
                category@,
                self.updates@.len(),
            ),
    {
        let wanted = category.to_owned();
        let mut patches: Vec<&Node> = Vec::new();
        let mut n: usize = 0;
        while n < self.updates.len()
            invariant
                n <= self.updates.len(),
                wanted@ == category@,
                borrowed_model(patches@) == patches_of(self.updates@, category@, n as nat),
            decreases self.updates.len() - n,
        {
            let ghost before = borrowed_model(patches@);
            if self.updates[n].category == wanted {
                patches.push(&self.updates[n].patch);
                assert(borrowed_model(patches@) =~= before.push(self.updates@[n as int].patch@));
            }
            n += 1;
        }
        patches
    }

    /// A copy of the realtime view: the snapshot with every update of the log
    /// merged in, or `None` while there is no snapshot.
    pub fn get_realtime(&self) -> (snapshot: Option<Node>)
        requires
            self.wf(),
        ensures
            snapshot is Some <==> self.initial is Some,
            snapshot is Some ==> snapshot->0@ == replayed(
                self.initial->0@,
                self.updates@,
                0,
                self.updates@.len() as int,
            ),
    {
        match &self.realtime {
            Some(realtime) => Some(realtime.state.clone()),
            None => None,
        }
    }

    /// The view `delay` seconds behind the instant `now`.
    ///
    /// Without an initial snapshot there is nothing to show. Otherwise the entry
    /// cached for `delay` (or, at the first query, the snapshot) has the updates
    /// that follow its position merged in, up to the first one made after
    /// `now - delay`; the entry is kept and a copy of its document returned. An
    /// entry that no update has caught up with is returned as it is.
    pub fn get_delayed_at(&mut self, now: i64, delay: &i64) -> (snapshot: Option<Node>)
        requires
            old(self).wf(),
        ensures
            final(self).wf(),
            final(self).initial == old(self).initial,
            final(self).updates == old(self).updates,
            final(self).realtime == old(self).realtime,
            old(self).initial is None ==> snapshot is None && final(self).delay_states@ == old(self).delay_states@,
            old(self).initial is Some ==> {
                &&& snapshot is Some
                &&& snapshot->0@ == old(self).delayed_view(now, *delay)
                &&& final(self).delay_states@.dom() == old(self).delay_states@.dom().insert(*delay)
                &&& final(self).delay_states@[*delay].stands_at(
                    old(self).initial->0@,
                    old(self).updates@,
                    old(self).position_at(now, *delay),
                )
                &&& forall|d: i64|
                    d != *delay && #[trigger] old(self).delay_states@.contains_key(d) ==> final(self).delay_states@[d] == old(self).delay_states@[d]
            },
    {
        let limit: i128 = now as i128 - (*delay as i128) * 1000;
        let mut entry = if self.delay_states.contains_key(delay) {
            match self.delay_states.remove(delay) {
                Some(entry) => entry,
                None => {
                    return None;
                },
            }
        } else {
            match &self.initial {
                Some(initial) => AsyncState {
                    state: initial.clone(),
                    applied: 0,
                    current_timestamp: None,
                    next_timestamp: None,
                },
                None => {
                    return None;
                },
            }
        };
        let ghost base = self.initial->0@;
        let ghost start = entry.applied as int;
        let mut position: usize = entry.applied;
        while position < self.updates.len() && self.updates[position].timestamp as i128 <= limit
            invariant
                self.updates == old(self).updates,
                start <= position <= self.updates@.len(),
                limit == horizon(now, *delay),
                reach(self.updates@, start, limit as int) == reach(
                    self.updates@,
                    position as int,
                    limit as int,
                ),
                entry.state@ == replayed(base, self.updates@, 0, position as int),
            decreases self.updates.len() - position,
        {
            merge(&mut entry.state, &self.updates[position].patch);
            position += 1;
        }
        entry.applied = position;
        entry.current_timestamp = if position > 0 {
            Some(self.updates[position - 1].timestamp)
        } else {
            None
        };
        entry.next_timestamp = if position < self.updates.len() {
            Some(self.updates[position].timestamp)
        } else {
            None
        };
        let snapshot = entry.state.clone();
        self.delay_states.insert(*delay, entry);
        assert(final(self).delay_states@.dom() =~= old(self).delay_states@.dom().insert(*delay));
        Some(snapshot)
    }

    /// The views of every delay that has an entry, as of the instant `now`.
    ///
    /// Each entry is advanced as [`get_delayed_at`](Self::get_delayed_at)
    /// advances it, independently of the others.
    pub fn get_all_delayed_at(&mut self, now: i64) -> (views: HashMap<i64, Node>)
        requires
            old(self).wf(),
        ensures
            final(self).wf(),
            final(self).initial == old(self).initial,
            final(self).updates == old(self).updates,
            final(self).realtime == old(self).realtime,
            views@.dom() == old(self).delay_states@.dom(),
            final(self).delay_states@.dom() == old(self).delay_states@.dom(),
            old(self).answered_at(*final(self), views@, now),
    {
        let mut views: HashMap<i64, Node> = HashMap::new();
        let delays = tracked_delays(&self.delay_states);
        let mut i: usize = 0;
        while i < delays.len()
            invariant
                i <= delays.len(),
                delays@.no_duplicates(),
                forall|d: i64| delays@.contains(d) <==> old(self).delay_states@.contains_key(d),
                self.wf(),
                self.initial == old(self).initial,
                self.updates == old(self).updates,
                self.realtime == old(self).realtime,
                self.delay_states@.dom() == old(self).delay_states@.dom(),
                forall|d: i64| #[trigger]
                    views@.contains_key(d) <==> delays@.take(i as int).contains(d),
                forall|d: i64| #[trigger]
                    delays@.take(i as int).contains(d) ==> {
                        &&& views@[d]@ == old(self).delayed_view(now, d)
                        &&& self.delay_states@[d].stands_at(
                            old(self).initial->0@,
                            old(self).updates@,
                            old(self).position_at(now, d),
                        )
                    },
                forall|d: i64|
                    #[trigger] old(self).delay_states@.contains_key(d) && !delays@.take(
                        i as int,
                    ).contains(d) ==> self.delay_states@[d] == old(self).delay_states@[d],
            decreases delays.len() - i,
        {
            let delay = delays[i];
            let ghost before = *self;
            let ghost seen = delays@.take(i as int);
            proof {
                assert(delays@.contains(delay));
                if seen.contains(delay) {
                    let j = choose|j: int| 0 <= j < seen.len() && seen[j] == delay;
                    assert(delays@[j] == delays@[i as int]);
                }
                assert(before.delayed_view(now, delay) == old(self).delayed_view(now, delay));
            }
            match self.get_delayed_at(now, &delay) {
                Some(view) => {
                    views.insert(delay, view);
                },
                None => {},
            }
            proof {
                let next = delays@.take(i + 1);
                assert(next =~= seen.push(delay));
                assert forall|d: i64| next.contains(d) <==> (seen.contains(d) || d == delay) by {
                    if next.contains(d) {
                        let j = choose|j: int| 0 <= j < next.len() && next[j] == d;
                        if j < i {
                            assert(seen[j] == d);
                        }
                    }
                    if seen.contains(d) {
                        let j = choose|j: int| 0 <= j < seen.len() && seen[j] == d;
                        assert(next[j] == d);
                    }
                    if d == delay {
                        assert(next[i as int] == d);
                    }
                }
                assert(self.delay_states@.dom() =~= old(self).delay_states@.dom());
                assert(before.position_at(now, delay) == old(self).position_at(now, delay));
                assert forall|d: i64| #[trigger] next.contains(d) implies {
                    &&& views@[d]@ == old(self).delayed_view(now, d)
                    &&& self.delay_states@[d].stands_at(
                        old(self).initial->0@,
                        old(self).updates@,
                        old(self).position_at(now, d),
                    )
                } by {
                    if d != delay {
                        assert(seen.contains(d));
                        assert(delays@.contains(d));
                        assert(before.delay_states@.contains_key(d));
                    }
                }
            }
            i += 1;
        }
        proof {
            assert(delays@.take(delays@.len() as int) =~= delays@);
            assert(views@.dom() =~= old(self).delay_states@.dom());
        }
        views
    }

    /// The views of every delay that has an entry, as of the present.
    ///
    /// Reads the clock once and answers as
    /// [`get_all_delayed_at`](Self::get_all_delayed_at) does for the instant
    /// read.
    pub fn get_all_delayed(&mut self) -> (views: HashMap<i64, Node>)
        requires
            old(self).wf(),
        ensures
            final(self).wf(),
            final(self).initial == old(self).initial,
            final(self).updates == old(self).updates,
            final(self).realtime == old(self).realtime,
            views@.dom() == old(self).delay_states@.dom(),
            final(self).delay_states@.dom() == old(self).delay_states@.dom(),
            exists|now: i64| #[trigger] old(self).answered_at(*final(self), views@, now),
    {
        let now = now_millis();
        let views = self.get_all_delayed_at(now);
        assert(old(self).answered_at(*self, views@, now));
        views
    }

    /// The view `delay` seconds behind the present.
    ///
    /// Reads the clock and answers as [`get_delayed_at`](Self::get_delayed_at)
    /// does for the instant read.
    pub fn get_delayed(&mut self, delay: &i64) -> (snapshot: Option<Node>)
        requires
            old(self).wf(),
        ensures
            final(self).wf(),
            final(self).initial == old(self).initial,
            final(self).updates == old(self).updates,
            final(self).realtime == old(self).realtime,
            snapshot is Some <==> old(self).initial is Some,
            old(self).initial is None ==> final(self).delay_states@ == old(self).delay_states@,
            old(self).initial is Some ==> exists|now: i64|
                {
                    &&& snapshot->0@ == #[trigger] old(self).delayed_view(now, *delay)
                    &&& final(self).delay_states@[*delay].stands_at(
                        old(self).initial->0@,
                        old(self).updates@,
                        old(self).position_at(now, *delay),
                    )
                },
    {
        let now = now_millis();
        self.get_delayed_at(now, delay)
    }
}

} // verus!
