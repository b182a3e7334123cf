use vstd::prelude::*;

verus! {

/// The latest session end the store accepts: the latest start it
/// accepts plus the longest duration a record can hold.
pub const MAX_SESSION_END: i64 = 253402300799 + 4294967295;

/// Whether a session was a work session or a reward session.
#[derive(Debug, Clone, Copy, PartialEq, Eq, Structural)]
pub enum SessionKind {
    Goal,
    Reward,
}

/// A named unit of work or reward, with optional quantity unit and helper
/// commands to run while a session on it is active.
#[derive(Debug)]
pub struct Goal {
    pub id: u64,
    pub name: String,
    pub is_reward: bool,
    pub commands: Vec<String>,
    pub quantity_name: Option<String>,
}

/// A persisted record of one completed session. `day` is the local
/// calendar day (days since the Unix epoch) of `start_at`.
#[derive(Debug)]
pub struct SessionView {
    pub goal_id: u64,
    pub name: String,
    pub kind: SessionKind,
    pub start_at: i64,
    pub end_at: i64,
    pub day: i64,
    pub quantity: Option<u32>,
}

/// Free-form note text attached to one goal.
#[derive(Debug)]
pub struct Note {
    pub goal_id: u64,
    pub text: String,
}

/// The session store: goals, completed sessions and per-goal notes. The
/// surrounding application keeps it in memory; persistence is the
/// frontend's concern. Sessions are append-only, so indices into
/// `sessions` stay valid.
#[derive(Debug)]
pub struct Store {
    pub goals: Vec<Goal>,
    pub sessions: Vec<SessionView>,
    pub notes: Vec<Note>,
    pub next_goal_id: u64,
}

/// The index of the first goal carrying `id`, if any.
pub open spec fn goal_index_of(goals: Seq<Goal>, id: u64) -> Option<int>
    decreases goals.len(),
{
    if goals.len() == 0 {
        None
    } else if goals[0].id == id {
        Some(0int)
    } else {
        match goal_index_of(goals.drop_first(), id) {
            Some(j) => Some(j + 1),
            None => None,
        }
    }
}

/// The text of the note attached to `id`, or empty if there is none.
pub open spec fn note_of(notes: Seq<Note>, id: u64) -> Seq<char>
    decreases notes.len(),
{
    if notes.len() == 0 {
        Seq::empty()
    } else if notes[0].goal_id == id {
        notes[0].text@
    } else {
        note_of(notes.drop_first(), id)
    }
}

/// The indices of the sessions of one calendar day, in store order.
pub open spec fn day_indices(s: Seq<SessionView>, day: i64) -> Seq<usize>
    decreases s.len(),
{
    if s.len() == 0 {
        Seq::empty()
    } else {
        day_indices(s.drop_last(), day) + if s.last().day == day {
            seq![(s.len() - 1) as usize]
        } else {
            Seq::empty()
        }
    }
}

/// The index of the most recent session on `gid`: greatest start time,
/// the later stored one winning ties.
pub open spec fn latest_index_of(s: Seq<SessionView>, gid: u64) -> Option<int>
    decreases s.len(),
{
    if s.len() == 0 {
        None
    } else {
        let rest = latest_index_of(s.drop_last(), gid);
        if s.last().goal_id == gid && (rest is None || s[rest->0].start_at <= s.last().start_at) {
            Some(s.len() - 1)
        } else {
            rest
        }
    }
}

/// A day index points into the sequence, at a session of that day.
pub broadcast proof fn lemma_day_indices_bounds(s: Seq<SessionView>, day: i64, k: int)
    requires
        s.len() <= usize::MAX,
        0 <= k < day_indices(s, day).len(),
    ensures
        (#[trigger] day_indices(s, day)[k]) < s.len(),
        s[day_indices(s, day)[k] as int].day == day,
    decreases s.len(),
{
    if s.len() > 0 {
        let rest = day_indices(s.drop_last(), day);
        if k < rest.len() {
            lemma_day_indices_bounds(s.drop_last(), day, k);
            assert(s.drop_last()[rest[k] as int] == s[rest[k] as int]);
        }
    }
}

/// The latest-session index points into the sequence, at a session on
/// the goal.
pub proof fn lemma_latest_index_bounds(s: Seq<SessionView>, gid: u64)
    ensures
        match latest_index_of(s, gid) {
            Some(j) => 0 <= j < s.len() && s[j].goal_id == gid,
            None => true,
        },
    decreases s.len(),
{
    if s.len() > 0 {
        lemma_latest_index_bounds(s.drop_last(), gid);
        match latest_index_of(s.drop_last(), gid) {
            Some(j) => {
                assert(s.drop_last()[j] == s[j]);
            },
            None => {},
        }
    }
}

impl Store {
    /// Goal ids are unique and below the id counter; note entries name
    /// distinct goals.
    pub open spec fn wf(&self) -> bool {
        &&& forall|i: int, j: int|
            0 <= i < j < self.goals@.len() ==> (#[trigger] self.goals@[i].id) != (
            #[trigger] self.goals@[j].id)
        &&& forall|i: int|
            0 <= i < self.goals@.len() ==> (#[trigger] self.goals@[i].id) < self.next_goal_id
        &&& forall|i: int, j: int|
            0 <= i < j < self.notes@.len() ==> (#[trigger] self.notes@[i].goal_id) != (
            #[trigger] self.notes@[j].goal_id)
        &&& forall|i: int|
            0 <= i < self.sessions@.len() ==> {
                let s = #[trigger] self.sessions@[i];
                0 <= s.start_at <= s.end_at <= MAX_SESSION_END
            }
    }

    pub fn new() -> (r: Store)
        ensures
            r.wf(),
            r.goals@ == Seq::<Goal>::empty(),
            r.sessions@ == Seq::<SessionView>::empty(),
            r.notes@ == Seq::<Note>::empty(),
    {
        Store { goals: Vec::new(), sessions: Vec::new(), notes: Vec::new(), next_goal_id: 1 }
    }

    /// Creates a goal under a fresh id and returns that id.
    pub fn add_goal(
        &mut self,
        name: String,
        is_reward: bool,
        commands: Vec<String>,
        quantity_name: Option<String>,
    ) -> (id: u64)
        requires
            old(self).wf(),
            old(self).next_goal_id < u64::MAX,
        ensures
            final(self).wf(),
            id == old(self).next_goal_id,
            final(self).goals@ == old(self).goals@.push(
                Goal { id, name, is_reward, commands, quantity_name },
            ),
            final(self).sessions@ == old(self).sessions@,
            final(self).notes@ == old(self).notes@,
            final(self).next_goal_id == old(self).next_goal_id + 1,
    {
        let id = self.next_goal_id;
        self.goals.push(Goal { id, name, is_reward, commands, quantity_name });
        self.next_goal_id = self.next_goal_id + 1;
        id
    }

    /// The position of the goal carrying `id` in `goals`, if any.
    pub fn find_goal(&self, id: u64) -> (r: Option<usize>)
        ensures
            match r {
                Some(i) => goal_index_of(self.goals@, id) == Some(i as int),
                None => goal_index_of(self.goals@, id) is None,
            },
            match goal_index_of(self.goals@, id) {
                Some(j) => r is Some && 0 <= j < self.goals@.len() && self.goals@[j].id == id,
                None => r is None,
            },
    {
        let n = self.goals.len();
        let mut i: usize = 0;
        while i < n
            invariant
                n == self.goals@.len(),
                i <= n,
                forall|k: int| 0 <= k < i ==> (#[trigger] self.goals@[k].id) != id,
            decreases n - i,
        {
            if self.goals[i].id == id {
                proof {
                    lemma_goal_index_found(self.goals@, id, i as int);
                }
                return Some(i);
            }
            i = i + 1;
        }
        proof {
            lemma_goal_index_none(self.goals@, id);
        }
        None
    }

    /// Records a completed session and returns its position in `sessions`.
    pub fn add_session(
        &mut self,
        goal_id: u64,
        label: String,
        start_at: i64,
        duration_secs: u32,
        kind: SessionKind,
        quantity: Option<u32>,
        day: i64,
    ) -> (i: usize)
        requires
            old(self).wf(),
            0 <= start_at <= 253402300799,
        ensures
            final(self).wf(),
            i == old(self).sessions@.len(),
            final(self).sessions@ == old(self).sessions@.push(
                SessionView {
                    goal_id,
                    name: label,
                    kind,
                    start_at,
                    end_at: (start_at + duration_secs) as i64,
                    day,
                    quantity,
                },
            ),
            final(self).goals@ == old(self).goals@,
            final(self).notes@ == old(self).notes@,
            final(self).next_goal_id == old(self).next_goal_id,
    {
        let i = self.sessions.len();
        self.sessions.push(
            SessionView {
                goal_id,
                name: label,
                kind,
                start_at,
                end_at: start_at + duration_secs as i64,
                day,
                quantity,
            },
        );
        i
    }

    /// The indices of the sessions of `day`, in store order.
    pub fn day_sessions(&self, day: i64) -> (r: Vec<usize>)
        ensures
            r@ == day_indices(self.sessions@, day),
    {
        let n = self.sessions.len();
        let mut r: Vec<usize> = Vec::new();
        let mut i: usize = 0;
        while i < n
            invariant
                n == self.sessions@.len(),
                i <= n,
                r@ == day_indices(self.sessions@.subrange(0, i as int), day),
            decreases n - i,
        {
            proof {
                assert(self.sessions@.subrange(0, i + 1).drop_last() =~= self.sessions@.subrange(
                    0,
                    i as int,
                ));
                assert(self.sessions@.subrange(0, i + 1).last() == self.sessions@[i as int]);
            }
            if self.sessions[i].day == day {
                r.push(i);
            }
            i = i + 1;
        }
        proof {
            assert(self.sessions@.subrange(0, n as int) =~= self.sessions@);
        }
        r
    }

    /// The index of the most recent session on `gid`, if any.
    pub fn latest_session(&self, gid: u64) -> (r: Option<usize>)
        ensures
            match latest_index_of(self.sessions@, gid) {
                Some(j) => r is Some && r->0 == j,
                None => r is None,
            },
    {
        let n = self.sessions.len();
        let mut r: Option<usize> = None;
        let mut i: usize = 0;
        while i < n
            invariant
                n == self.sessions@.len(),
                i <= n,
                match latest_index_of(self.sessions@.subrange(0, i as int), gid) {
                    Some(j) => r is Some && r->0 == j && 0 <= j < i && self.sessions@[j].goal_id
                        == gid,
                    None => r is None,
                },
            decreases n - i,
        {
            proof {
                assert(self.sessions@.subrange(0, i + 1).drop_last() =~= self.sessions@.subrange(
                    0,
                    i as int,
                ));
                assert(self.sessions@.subrange(0, i + 1).last() == self.sessions@[i as int]);
                lemma_latest_index_bounds(self.sessions@.subrange(0, i as int), gid);
            }
            if self.sessions[i].goal_id == gid {
                let better = match &r {
                    None => true,
                    Some(cur) => self.sessions[*cur].start_at <= self.sessions[i].start_at,
                };
                if better {
                    r = Some(i);
                }
            }
            i = i + 1;
        }
        proof {
            assert(self.sessions@.subrange(0, n as int) =~= self.sessions@);
        }
        r
    }

    /// The note text attached to `id`, empty when none was stored.
    pub fn get_note(&self, id: u64) -> (r: String)
        ensures
            r@ == note_of(self.notes@, id),
    {
        let n = self.notes.len();
        proof {
            assert(self.notes@.subrange(0, n as int) =~= self.notes@);
        }
        let mut i: usize = 0;
        while i < n
            invariant
                n == self.notes@.len(),
                i <= n,
                note_of(self.notes@, id) == note_of(self.notes@.subrange(i as int, n as int), id),
            decreases n - i,
        {
            proof {
                assert(self.notes@.subrange(i as int, n as int)[0] == self.notes@[i as int]);
                assert(self.notes@.subrange(i as int, n as int).drop_first() =~= self.notes@
                    .subrange(i + 1, n as int));
            }
            if self.notes[i].goal_id == id {
                return self.notes[i].text.clone();
            }
            i = i + 1;
        }
        String::new()
    }

    /// Replaces (or creates) the note attached to `id`; other notes,
    /// goals and sessions stay as they were.
    pub fn edit_note(&mut self, id: u64, text: String)
        requires
            old(self).wf(),
        ensures
            final(self).wf(),
            note_of(final(self).notes@, id) == text@,
            forall|other: u64|
                other != id ==> #[trigger] note_of(final(self).notes@, other) == note_of(
                    old(self).notes@,
                    other,
                ),
            final(self).goals@ == old(self).goals@,
            final(self).sessions@ == old(self).sessions@,
            final(self).next_goal_id == old(self).next_goal_id,
    {
        let n = self.notes.len();
        let mut i: usize = 0;
        while i < n
            invariant
                old(self).wf(),
                *self == *old(self),
                n == self.notes@.len(),
                i <= n,
                forall|k: int| 0 <= k < i ==> (#[trigger] self.notes@[k].goal_id) != id,
            decreases n - i,
        {
            if self.notes[i].goal_id == id {
                self.notes[i] = Note { goal_id: id, text };
                proof {
                    lemma_note_of_update(old(self).notes@, self.notes@, i as int, id);
                }
                return ;
            }
            i = i + 1;
        }
        self.notes.push(Note { goal_id: id, text });
        proof {
            lemma_note_of_append(old(self).notes@, self.notes@, id);
        }
    }
}

/// If positions before `i` miss `id` and position `i` carries it, then
/// `i` is the first index with `id`.
proof fn lemma_goal_index_found(goals: Seq<Goal>, id: u64, i: int)
    requires
        0 <= i < goals.len(),
        goals[i].id == id,
        forall|k: int| 0 <= k < i ==> (#[trigger] goals[k].id) != id,
    ensures
        goal_index_of(goals, id) == Some(i),
    decreases i,
{
    if i > 0 {
        lemma_goal_index_found(goals.drop_first(), id, i - 1);
    }
}

/// If some position carries `id`, lookup by id succeeds.
pub proof fn lemma_goal_index_some(goals: Seq<Goal>, id: u64, k: int)
    requires
        0 <= k < goals.len(),
        goals[k].id == id,
    ensures
        goal_index_of(goals, id) is Some,
    decreases k,
{
    if goals[0].id != id {
        lemma_goal_index_some(goals.drop_first(), id, k - 1);
    }
}

/// If no position carries `id` there is no index for it.
proof fn lemma_goal_index_none(goals: Seq<Goal>, id: u64)
    requires
        forall|k: int| 0 <= k < goals.len() ==> (#[trigger] goals[k].id) != id,
    ensures
        goal_index_of(goals, id) is None,
    decreases goals.len(),
{
    if goals.len() > 0 {
        lemma_goal_index_none(goals.drop_first(), id);
    }
}

/// After overwriting the entry at `i` (the first with `goal_id == id`)
/// the note of `id` is the new text and every other note is unchanged.
proof fn lemma_note_of_update(pre: Seq<Note>, post: Seq<Note>, i: int, id: u64)
    requires
        0 <= i < pre.len(),
        post.len() == pre.len(),
        forall|k: int| 0 <= k < pre.len() && k != i ==> post[k] == #[trigger] pre[k],
        forall|k: int| 0 <= k < i ==> (#[trigger] pre[k].goal_id) != id,
        pre[i].goal_id == id,
        post[i].goal_id == id,
    ensures
        note_of(post, id) == post[i].text@,
        forall|other: u64| other != id ==> #[trigger] note_of(post, other) == note_of(pre, other),
    decreases i,
{
    if i == 0 {
        assert forall|other: u64| other != id implies #[trigger] note_of(post, other) == note_of(
            pre,
            other,
        ) by {
            assert forall|k: int|
                0 <= k < pre.drop_first().len() implies post.drop_first()[k] == #[trigger] pre
                .drop_first()[k] by {
                assert(pre.drop_first()[k] == pre[k + 1]);
                assert(post.drop_first()[k] == post[k + 1]);
            }
            lemma_note_of_frame(pre.drop_first(), post.drop_first(), other);
            assert(note_of(post, other) == note_of(post.drop_first(), other));
            assert(note_of(pre, other) == note_of(pre.drop_first(), other));
        }
    } else {
        assert(post[0] == pre[0]);
        assert(forall|k: int|
            0 <= k < pre.drop_first().len() && k != i - 1 ==> post.drop_first()[k]
                == #[trigger] pre.drop_first()[k]);
        assert(forall|k: int|
            0 <= k < i - 1 ==> (#[trigger] pre.drop_first()[k].goal_id) != id);
        assert(pre.drop_first()[i - 1] == pre[i]);
        assert(post.drop_first()[i - 1] == post[i]);
        lemma_note_of_update(pre.drop_first(), post.drop_first(), i - 1, id);
        assert forall|other: u64| other != id implies #[trigger] note_of(post, other) == note_of(
            pre,
            other,
        ) by {
            assert(note_of(post.drop_first(), other) == note_of(pre.drop_first(), other));
            if pre[0].goal_id == other {
                assert(note_of(pre, other) == pre[0].text@);
                assert(note_of(post, other) == post[0].text@);
            } else {
                assert(note_of(post, other) == note_of(post.drop_first(), other));
                assert(note_of(pre, other) == note_of(pre.drop_first(), other));
            }
        }
    }
}

/// Two equal sequences give every id the same note.
proof fn lemma_note_of_frame(pre: Seq<Note>, post: Seq<Note>, id: u64)
    requires
        pre.len() == post.len(),
        forall|k: int| 0 <= k < pre.len() ==> post[k] == #[trigger] pre[k],
    ensures
        note_of(post, id) == note_of(pre, id),
    decreases pre.len(),
{
    if pre.len() > 0 {
        assert(post =~= pre);
    }
}

/// Appending a note for an id that had none gives that id the new text
/// and leaves every other note unchanged.
proof fn lemma_note_of_append(pre: Seq<Note>, post: Seq<Note>, id: u64)
    requires
        post.len() == pre.len() + 1,
        forall|k: int| 0 <= k < pre.len() ==> post[k] == #[trigger] pre[k],
        post.last().goal_id == id,
        forall|k: int| 0 <= k < pre.len() ==> (#[trigger] pre[k].goal_id) != id,
    ensures
        note_of(post, id) == post.last().text@,
        forall|other: u64| other != id ==> #[trigger] note_of(post, other) == note_of(pre, other),
    decreases pre.len(),
{
    if pre.len() == 0 {
        assert(post[0] == post.last());
        assert forall|other: u64| other != id implies #[trigger] note_of(post, other) == note_of(
            pre,
            other,
        ) by {
            assert(post.drop_first() =~= Seq::<Note>::empty());
            assert(note_of(post, other) == note_of(post.drop_first(), other));
            assert(note_of(Seq::<Note>::empty(), other) == Seq::<char>::empty());
            assert(note_of(pre, other) == Seq::<char>::empty());
        }
    } else {
        assert(post[0] == pre[0]);
        assert(post.drop_first().last() == post.last());
        assert forall|k: int|
            0 <= k < pre.drop_first().len() implies post.drop_first()[k] == #[trigger] pre
            .drop_first()[k] by {
            assert(pre.drop_first()[k] == pre[k + 1]);
            assert(post.drop_first()[k] == post[k + 1]);
        }
        lemma_note_of_append(pre.drop_first(), post.drop_first(), id);
        assert forall|other: u64| other != id implies #[trigger] note_of(post, other) == note_of(
            pre,
            other,
        ) by {
            assert(note_of(post.drop_first(), other) == note_of(pre.drop_first(), other));
            if pre[0].goal_id == other {
                assert(note_of(pre, other) == pre[0].text@);
                assert(note_of(post, other) == post[0].text@);
            } else {
                assert(note_of(post, other) == note_of(post.drop_first(), other));
                assert(note_of(pre, other) == note_of(pre.drop_first(), other));
            }
        }
    }
}

} // verus!
