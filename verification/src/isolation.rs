//! The supervisor's core guarantee, proved over the model: one service's
//! launch failure is isolated. Making the launch at one position fail
//! changes neither the launch outcome nor the reported terminal state of any
//! other position.

use vstd::prelude::*;

use crate::outcome::launch_all_model;
use crate::outcome::launched_before;
use crate::outcome::lemma_launched_before_mono;
use crate::outcome::lemma_launched_before_succ;
use crate::outcome::success_count;
use crate::outcome::supervise_model;
use crate::outcome::LaunchOutcomeView;
use crate::outcome::SpawnResultView;
use crate::outcome::WaitResultView;

verus! {

/// Turning one outcome into a launch failure lowers the success count by one
/// exactly when that outcome was a successful launch.
pub proof fn lemma_success_count_update_fail(s: Seq<LaunchOutcomeView>, k: int, e: Seq<char>)
    requires
        0 <= k < s.len(),
    ensures
        success_count(s.update(k, LaunchOutcomeView::LaunchFailed(e))) + (if s[k] is Launched {
            1nat
        } else {
            0nat
        }) == success_count(s),
    decreases s.len(),
{
    let s2 = s.update(k, LaunchOutcomeView::LaunchFailed(e));
    if k == s.len() - 1 {
        assert(s2.drop_last() =~= s.drop_last());
        assert(s2.last() == LaunchOutcomeView::LaunchFailed(e));
    } else {
        assert(s2.drop_last() =~= s.drop_last().update(k, LaunchOutcomeView::LaunchFailed(e)));
        lemma_success_count_update_fail(s.drop_last(), k, e);
        assert(s2.last() == s.last());
    }
}

/// Law: a launch failure is isolated. Take a configuration, its spawn
/// results, and one wait result per successful launch. Inject a spawn
/// failure at position `k` — so the run loses exactly `k`'s own handle and,
/// with it, `k`'s own wait result — and every other position keeps both its
/// launch outcome and its report entry, unchanged.
pub proof fn lemma_failure_isolation(
    names: Seq<Seq<char>>,
    spawns: Seq<SpawnResultView>,
    waits: Seq<WaitResultView>,
    k: int,
    err: Seq<char>,
)
    requires
        spawns.len() == names.len(),
        0 <= k < names.len(),
        waits.len() == success_count(launch_all_model(names, spawns)),
    ensures
        ({
            let spawns2 = spawns.update(k, SpawnResultView::SpawnError(err));
            let outcomes1 = launch_all_model(names, spawns);
            let outcomes2 = launch_all_model(names, spawns2);
            let waits2 = if spawns[k] is Spawned {
                waits.remove(launched_before(outcomes1, k) as int)
            } else {
                waits
            };
            forall|i: int|
                0 <= i < names.len() && i != k ==> #[trigger] outcomes2[i] == outcomes1[i]
                    && supervise_model(names, spawns2, waits2)[i] == supervise_model(
                    names,
                    spawns,
                    waits,
                )[i]
        }),
{
    let spawns2 = spawns.update(k, SpawnResultView::SpawnError(err));
    let o1 = launch_all_model(names, spawns);
    let o2 = launch_all_model(names, spawns2);
    assert(o2 =~= o1.update(k, LaunchOutcomeView::LaunchFailed(err)));
    let lbk = launched_before(o1, k) as int;
    let dropped = spawns[k] is Spawned;
    let waits2 = if dropped {
        waits.remove(lbk)
    } else {
        waits
    };
    assert(o1[k] is Launched <==> dropped);
    if dropped {
        // The dropped wait position lies within the wait sequence.
        lemma_launched_before_succ(o1, k);
        lemma_launched_before_mono(o1, k + 1, names.len() as int);
        assert(o1.take(names.len() as int) =~= o1);
        assert(lbk < waits.len());
        waits.remove_ensures(lbk);
    }
    assert forall|i: int| 0 <= i < names.len() && i != k implies #[trigger] o2[i] == o1[i]
        && supervise_model(names, spawns2, waits2)[i] == supervise_model(names, spawns, waits)[i]
        by {
        assert(o2[i] == o1[i]);
        if o1[i] is Launched {
            let lb1 = launched_before(o1, i) as int;
            let lb2 = launched_before(o2, i) as int;
            // The entry at i lies within each wait sequence.
            lemma_launched_before_succ(o1, i);
            lemma_launched_before_mono(o1, i + 1, names.len() as int);
            assert(o1.take(names.len() as int) =~= o1);
            assert(lb1 < waits.len());
            if i < k {
                assert(o2.take(i) =~= o1.take(i));
                assert(lb2 == lb1);
                if dropped {
                    // i's wait position lies strictly before the dropped one.
                    lemma_launched_before_mono(o1, i + 1, k);
                    assert(lb1 < lbk);
                    assert(waits2[lb1] == waits[lb1]);
                }
            } else {
                assert(o2.take(i) =~= o1.take(i).update(k, LaunchOutcomeView::LaunchFailed(err)));
                lemma_success_count_update_fail(o1.take(i), k, err);
                assert(o1.take(i)[k] == o1[k]);
                if dropped {
                    // i's wait position lies at or after the dropped one,
                    // shifted down by exactly one.
                    assert(lb2 + 1 == lb1);
                    lemma_launched_before_succ(o1, k);
                    lemma_launched_before_mono(o1, k + 1, i);
                    assert(lbk < lb1);
                    assert(waits2[lb2] == waits[lb2 + 1]);
                } else {
                    assert(lb2 == lb1);
                }
            }
        }
    }
}

} // verus!
