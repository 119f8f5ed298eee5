//! Decisions of the `delete` command: which unikernel belongs to the
//! container, and which processes to stop.
use crate::env::{env_entry, env_value, EnvLookup};
use crate::schema::{texts, OCIConfig};
use crate::text::{
    contains, contains_chars, from_chars, is_white_space, lemma_words_clean, split_chars,
    split_on, split_white_space_chars, to_chars, views, words,
};
use vstd::prelude::*;

verus! {

broadcast use vstd::string::group_string_axioms;

/// The unikernel of a container, as its environment names it: what the
/// `SERVICE_NAME` entry of `config.process.env` says.
pub fn get_unikernel_name(config: &OCIConfig) -> (r: EnvLookup)
    ensures
        r@ == env_entry(texts(config.process.env@), "SERVICE_NAME"@),
{
    env_value(&config.process.env, "SERVICE_NAME")
}

/// The processes to stop, from the lines of a process listing, in order: the
/// second word of each line that mentions `name`. Where such a line has fewer
/// than two words the plan stops there, with `true` (`malformed`).
pub open spec fn kill_plan_of(lines: Seq<Seq<char>>, name: Seq<char>) -> (Seq<Seq<char>>, bool)
    decreases lines.len(),
{
    if lines.len() == 0 {
        (Seq::empty(), false)
    } else {
        let (pids, malformed) = kill_plan_of(lines.drop_last(), name);
        let line = lines.last();
        if malformed {
            (pids, true)
        } else if !contains(line, name) {
            (pids, false)
        } else if words(line).len() >= 2 {
            (pids.push(words(line)[1]), false)
        } else {
            (pids, true)
        }
    }
}

/// The processes that `delete` stops.
pub struct KillPlan {
    /// The process ids to stop, in order.
    pub pids: Vec<String>,
    /// A listing line that mentions the unikernel has no process id: the plan
    /// ends there.
    pub malformed: bool,
}

/// A prefix whose plan already ended decides the whole plan.
proof fn lemma_kill_plan_stops(lines: Seq<Seq<char>>, name: Seq<char>, k: int)
    requires
        0 <= k <= lines.len(),
        kill_plan_of(lines.take(k), name).1,
    ensures
        kill_plan_of(lines, name) == kill_plan_of(lines.take(k), name),
    decreases lines.len() - k,
{
    if k < lines.len() {
        assert(lines.take(k + 1).drop_last() == lines.take(k));
        lemma_kill_plan_stops(lines, name, k + 1);
    } else {
        assert(lines.take(k) == lines);
    }
}

/// Which processes to stop, from the text `ps_output` of a process listing
/// (one process per line, the process id as the second word) and the name of
/// the unikernel.
pub fn plan_kill(ps_output: &str, unikernel_name: &str) -> (plan: KillPlan)
    ensures
        (texts(plan.pids@), plan.malformed) == kill_plan_of(
            split_on(ps_output@, '\n'),
            unikernel_name@,
        ),
{
    let chars = to_chars(ps_output);
    let lines = split_chars(&chars, '\n');
    let name = to_chars(unikernel_name);
    let ghost all = views(lines@);
    let mut pids: Vec<String> = Vec::new();
    let n = lines.len();
    assert(all.take(0) =~= Seq::<Seq<char>>::empty());
    assert(texts(pids@) =~= Seq::<Seq<char>>::empty());
    for i in 0..n
        invariant
            n == lines@.len(),
            all == views(lines@),
            all == split_on(ps_output@, '\n'),
            name@ == unikernel_name@,
            kill_plan_of(all.take(i as int), name@) == (texts(pids@), false),
    {
        let ghost t = all.take(i + 1);
        assert(t.drop_last() =~= all.take(i as int));
        assert(t.last() == lines@[i as int]@);
        if contains_chars(&lines[i], &name) {
            let ws = split_white_space_chars(&lines[i]);
            if ws.len() >= 2 {
                let ghost before = pids@;
                let pid = from_chars(&ws[1]);
                assert(views(ws@)[1] == ws@[1]@);
                pids.push(pid);
                assert(texts(pids@) =~= texts(before).push(words(all[i as int])[1]));
            } else {
                proof {
                    lemma_kill_plan_stops(all, name@, i + 1);
                }
                return KillPlan { pids, malformed: true };
            }
        }
    }
    assert(all.take(n as int) =~= all);
    KillPlan { pids, malformed: false }
}

/// A plan is complete: it ends early exactly when some listing line names the
/// unikernel without giving a process id, and it stops the process of every
/// line that names the unikernel with a process id, as long as no earlier
/// line ended the plan.
pub proof fn lemma_kill_plan_complete(lines: Seq<Seq<char>>, name: Seq<char>)
    ensures
        kill_plan_of(lines, name).1 <==> exists|m: int|
            #![trigger lines[m]]
            0 <= m < lines.len() && contains(lines[m], name) && words(lines[m]).len() < 2,
        forall|m: int|
            #![trigger lines[m]]
            0 <= m < lines.len() && contains(lines[m], name) && words(lines[m]).len() >= 2 && (
            forall|k: int|
                #![trigger lines[k]]
                0 <= k < m ==> !(contains(lines[k], name) && words(lines[k]).len() < 2))
                ==> kill_plan_of(lines, name).0.contains(words(lines[m])[1]),
    decreases lines.len(),
{
    if lines.len() > 0 {
        let n = lines.len() - 1;
        let t = lines.drop_last();
        lemma_kill_plan_complete(t, name);
        let p = kill_plan_of(t, name);
        let q = kill_plan_of(lines, name);
        let last = lines.last();
        assert(lines[n] == last);
        assert forall|m: int| 0 <= m < t.len() implies #[trigger] t[m] == lines[m] by {}
        if p.1 {
            let m = choose|m: int|
                #![trigger t[m]]
                0 <= m < t.len() && contains(t[m], name) && words(t[m]).len() < 2;
            assert(lines[m] == t[m]);
        }
        if q.1 && !p.1 {
            assert(contains(lines[n], name) && words(lines[n]).len() < 2);
        }
        if !q.1 {
            assert forall|m: int| 0 <= m < lines.len() implies !(contains(
                #[trigger] lines[m],
                name,
            ) && words(lines[m]).len() < 2) by {
                if m < n {
                    assert(t[m] == lines[m]);
                }
            }
        }
        assert forall|m: int|
            #![trigger lines[m]]
            0 <= m < lines.len() && contains(lines[m], name) && words(lines[m]).len() >= 2 && (
            forall|k: int|
                #![trigger lines[k]]
                0 <= k < m ==> !(contains(lines[k], name) && words(lines[k]).len() < 2))
                implies q.0.contains(words(lines[m])[1]) by {
            if m < n {
                assert(t[m] == lines[m]);
                assert forall|k: int| #![trigger t[k]] 0 <= k < m implies !(contains(t[k], name)
                    && words(t[k]).len() < 2) by {
                    assert(t[k] == lines[k]);
                }
                assert(p.0.contains(words(t[m])[1]));
                let j = choose|j: int| 0 <= j < p.0.len() && p.0[j] == words(t[m])[1];
                if !p.1 && contains(last, name) && words(last).len() >= 2 {
                    assert(q.0 == p.0.push(words(last)[1]));
                    assert(q.0[j] == p.0[j]);
                } else {
                    assert(q.0 == p.0);
                }
            } else {
                if p.1 {
                    let k = choose|k: int|
                        #![trigger t[k]]
                        0 <= k < t.len() && contains(t[k], name) && words(t[k]).len() < 2;
                    assert(lines[k] == t[k]);
                }
                assert(!p.1);
                assert(q.0 == p.0.push(words(last)[1]));
                assert(q.0[p.0.len() as int] == words(last)[1]);
            }
        }
    }
}

/// Every process id of a plan is the second word of a listing line that
/// mentions the unikernel: non-empty and free of white space. A plan never
/// holds more ids than the listing has lines.
pub proof fn lemma_kill_plan_pids(lines: Seq<Seq<char>>, name: Seq<char>)
    ensures
        kill_plan_of(lines, name).0.len() <= lines.len(),
        forall|k: int|
            0 <= k < kill_plan_of(lines, name).0.len() ==> exists|m: int|
                #![trigger lines[m]]
                0 <= m < lines.len() && contains(lines[m], name) && words(lines[m]).len() >= 2
                    && #[trigger] kill_plan_of(lines, name).0[k] == words(lines[m])[1],
        forall|k: int, j: int|
            0 <= k < kill_plan_of(lines, name).0.len() && 0 <= j < kill_plan_of(
                lines,
                name,
            ).0[k].len() ==> !is_white_space(#[trigger] kill_plan_of(lines, name).0[k][j]),
        forall|k: int|
            0 <= k < kill_plan_of(lines, name).0.len() ==> (#[trigger] kill_plan_of(
                lines,
                name,
            ).0[k]).len() > 0,
    decreases lines.len(),
{
    if lines.len() > 0 {
        let t = lines.drop_last();
        lemma_kill_plan_pids(t, name);
        let p = kill_plan_of(t, name).0;
        let q = kill_plan_of(lines, name).0;
        let line = lines.last();
        lemma_words_clean(line);
        assert(lines[lines.len() - 1] == line);
        if q.len() > p.len() {
            assert(q == p.push(words(line)[1]));
            let m = lines.len() - 1;
            assert(contains(lines[m], name) && words(lines[m]).len() >= 2);
        } else {
            assert(q == p);
        }
        assert forall|k: int| 0 <= k < q.len() implies exists|m: int|
            #![trigger lines[m]]
            0 <= m < lines.len() && contains(lines[m], name) && words(lines[m]).len() >= 2
                && #[trigger] q[k] == words(lines[m])[1] by {
            if k < p.len() {
                assert(q[k] == p[k]);
                let m = choose|m: int|
                    #![trigger t[m]]
                    0 <= m < t.len() && contains(t[m], name) && words(t[m]).len() >= 2 && p[k]
                        == words(t[m])[1];
                assert(lines[m] == t[m]);
            } else {
                let m = lines.len() - 1;
                assert(q[k] == words(lines[m])[1]);
            }
        }
        assert forall|k: int, j: int| 0 <= k < q.len() && 0 <= j < q[k].len() implies !is_white_space(
            #[trigger] q[k][j],
        ) by {
            if k < p.len() {
                assert(q[k] == p[k]);
            } else {
                assert(q[k] == words(line)[1]);
            }
        }
        assert forall|k: int| 0 <= k < q.len() implies (#[trigger] q[k]).len() > 0 by {
            if k < p.len() {
                assert(q[k] == p[k]);
            } else {
                assert(q[k] == words(line)[1]);
            }
        }
    }
}

} // verus!
