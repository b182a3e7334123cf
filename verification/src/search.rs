use vstd::prelude::*;
use vstd::seq_lib::group_to_multiset_ensures;

use crate::store::{latest_index_of, Goal, SessionView, Store};

verus! {

/// Case folding for the ASCII letters, as a code point.
pub open spec fn lower_u(c: char) -> int {
    if 65 <= c as u32 <= 90 {
        c as u32 + 32
    } else {
        c as u32 as int
    }
}

/// Whether the query is a subsequence of the name, compared
/// case-insensitively over the ASCII letters; the empty query matches
/// everything.
pub open spec fn fuzzy_matches(q: Seq<char>, n: Seq<char>) -> bool
    decreases n.len(),
{
    if q.len() == 0 {
        true
    } else if n.len() == 0 {
        false
    } else if lower_u(q[0]) == lower_u(n[0]) {
        fuzzy_matches(q.drop_first(), n.drop_first())
    } else {
        fuzzy_matches(q, n.drop_first())
    }
}

fn lower_of(c: char) -> (r: u32)
    ensures
        r == lower_u(c),
{
    let u = c as u32;
    if 65 <= u && u <= 90 {
        u + 32
    } else {
        u
    }
}

/// Greedy two-pointer subsequence check; greedy matching is complete for
/// subsequences, so this decides `fuzzy_matches`.
pub fn fuzzy_match(q: &Vec<char>, n: &Vec<char>) -> (r: bool)
    ensures
        r == fuzzy_matches(q@, n@),
{
    let qn = q.len();
    let nn = n.len();
    let mut qi: usize = 0;
    let mut ni: usize = 0;
    proof {
        assert(q@.subrange(0, qn as int) =~= q@);
        assert(n@.subrange(0, nn as int) =~= n@);
    }
    while qi < qn && ni < nn
        invariant
            qn == q@.len(),
            nn == n@.len(),
            qi <= qn,
            ni <= nn,
            fuzzy_matches(q@, n@) == fuzzy_matches(
                q@.subrange(qi as int, qn as int),
                n@.subrange(ni as int, nn as int),
            ),
        decreases nn - ni,
    {
        proof {
            assert(q@.subrange(qi as int, qn as int)[0] == q@[qi as int]);
            assert(n@.subrange(ni as int, nn as int)[0] == n@[ni as int]);
            assert(q@.subrange(qi as int, qn as int).drop_first() =~= q@.subrange(
                qi + 1,
                qn as int,
            ));
            assert(n@.subrange(ni as int, nn as int).drop_first() =~= n@.subrange(
                ni + 1,
                nn as int,
            ));
        }
        if lower_of(q[qi]) == lower_of(n[ni]) {
            qi = qi + 1;
        }
        ni = ni + 1;
    }
    proof {
        if qi == qn {
            assert(fuzzy_matches(q@.subrange(qi as int, qn as int), n@.subrange(ni as int, nn as int)));
        } else {
            assert(n@.subrange(ni as int, nn as int).len() == 0);
        }
    }
    qi == qn
}

/// How recently the goal was worked on: the start time of its most
/// recent session, or below every real start time if it has none.
pub open spec fn recency_key(sessions: Seq<SessionView>, gid: u64) -> int {
    match latest_index_of(sessions, gid) {
        Some(j) => sessions[j].start_at as int,
        None => -1,
    }
}

fn recency_of(store: &Store, gid: u64) -> (r: i64)
    requires
        store.wf(),
    ensures
        r == recency_key(store.sessions@, gid),
{
    proof {
        crate::store::lemma_latest_index_bounds(store.sessions@, gid);
    }
    match store.latest_session(gid) {
        Some(i) => store.sessions[i].start_at,
        None => -1,
    }
}

/// Whether a goal belongs in the picker: same reward pool, and the query
/// fuzzily matches its name.
pub open spec fn is_candidate(g: Goal, q: Seq<char>, want_reward: bool) -> bool {
    g.is_reward == want_reward && fuzzy_matches(q, g.name@)
}

/// The positions of the matching goals, in store order.
pub open spec fn candidate_indices(goals: Seq<Goal>, q: Seq<char>, want_reward: bool) -> Seq<
    usize,
>
    decreases goals.len(),
{
    if goals.len() == 0 {
        Seq::empty()
    } else {
        candidate_indices(goals.drop_last(), q, want_reward) + if is_candidate(
            goals.last(),
            q,
            want_reward,
        ) {
            seq![(goals.len() - 1) as usize]
        } else {
            Seq::empty()
        }
    }
}

/// A member of the candidate list is a matching goal's position.
pub proof fn lemma_candidate_member(goals: Seq<Goal>, q: Seq<char>, want_reward: bool, x: usize)
    requires
        goals.len() <= usize::MAX,
        candidate_indices(goals, q, want_reward).contains(x),
    ensures
        x < goals.len(),
        is_candidate(goals[x as int], q, want_reward),
    decreases goals.len(),
{
    if goals.len() > 0 {
        let rest = candidate_indices(goals.drop_last(), q, want_reward);
        let whole = candidate_indices(goals, q, want_reward);
        let j = choose|j: int| 0 <= j < whole.len() && whole[j] == x;
        if j < rest.len() {
            assert(rest[j] == x);
            assert(rest.contains(x));
            lemma_candidate_member(goals.drop_last(), q, want_reward, x);
            assert(goals.drop_last()[x as int] == goals[x as int]);
        } else {
            assert(is_candidate(goals.last(), q, want_reward));
            assert(whole[j] == (goals.len() - 1) as usize);
            assert(x == goals.len() - 1);
            assert(goals.last() == goals[x as int]);
        }
    }
}

/// The goals offered for the query, best match first: every goal of the
/// wanted pool whose name the query fuzzily matches, ordered by
/// descending recency of their sessions, ties keeping store order.
pub fn search_goals(store: &Store, q: &Vec<char>, want_reward: bool) -> (r: Vec<usize>)
    requires
        store.wf(),
    ensures
        r@.to_multiset() == candidate_indices(store.goals@, q@, want_reward).to_multiset(),
        forall|a: int, b: int|
            0 <= a < b < r@.len() ==> recency_key(
                store.sessions@,
                store.goals@[(#[trigger] r@[a]) as int].id,
            ) >= recency_key(store.sessions@, store.goals@[(#[trigger] r@[b]) as int].id),
        forall|k: int| 0 <= k < r@.len() ==> (#[trigger] r@[k]) < store.goals@.len(),
{
    broadcast use group_to_multiset_ensures;

    let ghost goals = store.goals@;
    let n = store.goals.len();
    let mut out: Vec<usize> = Vec::new();
    let mut i: usize = 0;
    while i < n
        invariant
            store.wf(),
            n == store.goals@.len(),
            goals == store.goals@,
            i <= n,
            out@.to_multiset() == candidate_indices(
                goals.subrange(0, i as int),
                q@,
                want_reward,
            ).to_multiset(),
            forall|k: int| 0 <= k < out@.len() ==> (#[trigger] out@[k]) < i,
            forall|a: int, b: int|
                0 <= a < b < out@.len() ==> recency_key(
                    store.sessions@,
                    goals[(#[trigger] out@[a]) as int].id,
                ) >= recency_key(store.sessions@, goals[(#[trigger] out@[b]) as int].id),
        decreases n - i,
    {
        proof {
            assert(goals.subrange(0, i + 1).drop_last() =~= goals.subrange(0, i as int));
            assert(goals.subrange(0, i + 1).last() == goals[i as int]);
        }
        let g = &store.goals[i];
        let name_chars = crate::strutil::chars_of(g.name.as_str());
        if g.is_reward == want_reward && fuzzy_match(q, &name_chars) {
            let key = recency_of(store, g.id);
            let mut p: usize = 0;
            while p < out.len() && recency_of(store, store.goals[out[p]].id) >= key
                invariant
                    store.wf(),
                    goals == store.goals@,
                    p <= out@.len(),
                    forall|k: int| 0 <= k < out@.len() ==> (#[trigger] out@[k]) < i <= goals.len(),
                    key == recency_key(store.sessions@, goals[i as int].id),
                    forall|k: int|
                        0 <= k < p ==> recency_key(
                            store.sessions@,
                            goals[(#[trigger] out@[k]) as int].id,
                        ) >= key,
                decreases out@.len() - p,
            {
                p = p + 1;
            }
            let ghost out_pre = out@;
            out.insert(p, i);
            proof {
                let cand_i = candidate_indices(goals.subrange(0, i as int), q@, want_reward);
                let cand_i1 = candidate_indices(goals.subrange(0, i + 1), q@, want_reward);
                assert(cand_i1 =~= cand_i.push(i as usize));
                assert(out@ == out_pre.insert(p as int, i as usize));
                vstd::seq_lib::to_multiset_insert(out_pre, p as int, i as usize);
                vstd::seq_lib::to_multiset_build(cand_i, i as usize);
                assert(out@.to_multiset() =~= cand_i1.to_multiset());
                assert forall|a: int, b: int|
                    0 <= a < b < out@.len() implies recency_key(
                    store.sessions@,
                    goals[(#[trigger] out@[a]) as int].id,
                ) >= recency_key(store.sessions@, goals[(#[trigger] out@[b]) as int].id) by {
                    if b < p {
                        assert(out@[a] == out_pre[a]);
                        assert(out@[b] == out_pre[b]);
                    } else if b == p {
                        assert(out@[a] == out_pre[a]);
                        assert(out@[b] == i as usize);
                    } else if a == p {
                        assert(out@[b] == out_pre[b - 1]);
                        if p < out_pre.len() {
                            assert(recency_key(store.sessions@, goals[out_pre[p as int] as int].id)
                                < key);
                            if b - 1 > p {
                                assert(recency_key(
                                    store.sessions@,
                                    goals[out_pre[p as int] as int].id,
                                ) >= recency_key(store.sessions@, goals[out_pre[b - 1] as int].id));
                            }
                        }
                    } else if a < p {
                        assert(out@[a] == out_pre[a]);
                        assert(out@[b] == out_pre[b - 1]);
                        if b - 1 == p {
                            assert(recency_key(store.sessions@, goals[out_pre[a] as int].id)
                                >= key);
                        }
                    } else {
                        assert(out@[a] == out_pre[a - 1]);
                        assert(out@[b] == out_pre[b - 1]);
                    }
                }
            }
        } else {
            proof {
                assert(candidate_indices(goals.subrange(0, i + 1), q@, want_reward)
                    =~= candidate_indices(goals.subrange(0, i as int), q@, want_reward));
            }
        }
        i = i + 1;
    }
    proof {
        assert(goals.subrange(0, n as int) =~= goals);
    }
    out
}

} // verus!
