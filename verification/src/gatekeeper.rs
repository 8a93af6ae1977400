//! Bulk close ("gatekeep") over the registry: every requested id is
//! processed in the given order, a missing id is reported and never
//! stops the rest, and the report keeps the input order.

use vstd::prelude::*;

use crate::registry::{
    distinct_ids, find_id, lemma_find_id, lemma_remove_keeps_distinct, lemma_remove_unique_id,
    remove_spec, seq_contains_id, SessionRegistry,
};
use crate::session::Connection;
use crate::text::{dec_digits, u64_to_string};

verus! {

/// Registry state and per-id outcomes after gatekeeping `ids`, one at a
/// time, in order: `true` when the id was present and its session was
/// detached, `false` when it was absent.
pub open spec fn gatekeep_spec(s: Seq<(u64, Connection)>, ids: Seq<u64>) -> (
    Seq<(u64, Connection)>,
    Seq<bool>,
)
    decreases ids.len(),
{
    if ids.len() == 0 {
        (s, Seq::empty())
    } else {
        let prev = gatekeep_spec(s, ids.drop_last());
        let step = remove_spec(prev.0, ids.last());
        (step.0, prev.1.push(step.1))
    }
}

/// One line of the report.
pub open spec fn report_line(id: u64, closed: bool) -> Seq<char> {
    "**`"@ + dec_digits(id as nat) + "`** "@ + (if closed {
        "was closed successfully.\n"@
    } else {
        "could not be closed: connection not found.\n"@
    })
}

/// The whole report: one line per requested id, in input order.
pub open spec fn report_spec(ids: Seq<u64>, outcomes: Seq<bool>) -> Seq<char>
    decreases ids.len(),
{
    if ids.len() == 0 {
        Seq::empty()
    } else {
        report_spec(ids.drop_last(), outcomes.drop_last()) + report_line(
            ids.last(),
            outcomes.last(),
        )
    }
}

/// The entries detached by gatekeeping `ids`, in input order: for each
/// id that was still present when its turn came, the id and the very
/// session that was registered under it.
pub open spec fn detached_entries(s: Seq<(u64, Connection)>, ids: Seq<u64>) -> Seq<
    (u64, Connection),
>
    decreases ids.len(),
{
    if ids.len() == 0 {
        Seq::empty()
    } else {
        let prev = gatekeep_spec(s, ids.drop_last());
        detached_entries(s, ids.drop_last()) + (if seq_contains_id(prev.0, ids.last()) {
            seq![(ids.last(), prev.0[find_id(prev.0, ids.last())].1)]
        } else {
            Seq::empty()
        })
    }
}

/// Closes every session among `ids`, in order, never aborting early:
/// each present id is detached from the registry and its process
/// killed; each absent id is reported as not found.  Returns the
/// per-id report and, for each detached session, its id, whether the
/// kill signal was delivered, and the reader-task handle still to be
/// awaited by the caller.
pub fn gatekeep(reg: &mut SessionRegistry, ids: &Vec<u64>) -> (r: (
    String,
    Vec<(u64, bool, tokio::task::JoinHandle<()>)>,
))
    requires
        old(reg).wf(),
    ensures
        final (reg).wf(),
        final (reg).entries_view() == gatekeep_spec(old(reg).entries_view(), ids@).0,
        r.0@ == report_spec(ids@, gatekeep_spec(old(reg).entries_view(), ids@).1),
        r.1@.len() == detached_entries(old(reg).entries_view(), ids@).len(),
        forall|k: int|
            0 <= k < r.1@.len() ==> {
                &&& r.1@[k].0 == detached_entries(old(reg).entries_view(), ids@)[k].0
                &&& r.1@[k].2 == detached_entries(old(reg).entries_view(), ids@)[k].1.spec_reader()
            },
{
    let ghost s0 = reg.entries_view();
    let ghost mut outs: Seq<bool> = Seq::empty();
    let mut report = String::new();
    let mut closures: Vec<(u64, bool, tokio::task::JoinHandle<()>)> = Vec::new();
    proof {
        assert(report@ =~= Seq::<char>::empty());
    }
    let mut i: usize = 0;
    while i < ids.len()
        invariant
            i <= ids@.len(),
            reg.wf(),
            reg.entries_view() == gatekeep_spec(s0, ids@.take(i as int)).0,
            outs == gatekeep_spec(s0, ids@.take(i as int)).1,
            report@ == report_spec(ids@.take(i as int), outs),
            closures@.len() == detached_entries(s0, ids@.take(i as int)).len(),
            forall|k: int|
                0 <= k < closures@.len() ==> {
                    &&& closures@[k].0 == detached_entries(s0, ids@.take(i as int))[k].0
                    &&& closures@[k].2 == detached_entries(s0, ids@.take(i as int))[k].1.spec_reader()
                },
        decreases ids@.len() - i,
    {
        let id = ids[i];
        let ghost report0 = report@;
        report.append("**`");
        let id_str = u64_to_string(id);
        report.append(id_str.as_str());
        report.append("`** ");
        let closed: bool;
        match reg.remove(id) {
            Some(c) => {
                let (delivered, join) = c.close();
                closures.push((id, delivered, join));
                report.append("was closed successfully.\n");
                closed = true;
            },
            None => {
                report.append("could not be closed: connection not found.\n");
                closed = false;
            },
        }
        proof {
            assert(report@ =~= report0 + report_line(id, closed));
            assert(ids@.take(i + 1).drop_last() =~= ids@.take(i as int));
            assert(ids@.take(i + 1).last() == id);
            outs = outs.push(closed);
            assert(outs.drop_last() =~= gatekeep_spec(s0, ids@.take(i as int)).1);
            assert(report@ =~= report_spec(ids@.take(i + 1), outs));
            assert(detached_entries(s0, ids@.take(i + 1)) =~= detached_entries(
                s0,
                ids@.take(i as int),
            ) + (if seq_contains_id(gatekeep_spec(s0, ids@.take(i as int)).0, id) {
                seq![
                    (
                        id,
                        gatekeep_spec(s0, ids@.take(i as int)).0[find_id(
                            gatekeep_spec(s0, ids@.take(i as int)).0,
                            id,
                        )].1,
                    ),
                ]
            } else {
                Seq::empty()
            }));
        }
        i += 1;
    }
    proof {
        assert(ids@.take(ids@.len() as int) =~= ids@);
    }
    (report, closures)
}

proof fn lemma_remove_preserves_absent(s: Seq<(u64, Connection)>, id: u64, other: u64)
    requires
        !seq_contains_id(s, other),
    ensures
        !seq_contains_id(remove_spec(s, id).0, other),
{
    if seq_contains_id(s, id) {
        lemma_find_id(s, id);
        let i = find_id(s, id);
        let t = s.remove(i);
        if seq_contains_id(t, other) {
            let k = choose|k: int| 0 <= k < t.len() && t[k].0 == other;
            let k0 = if k < i {
                k
            } else {
                k + 1
            };
            assert(t[k] == s[k0]);
        }
    }
}

proof fn lemma_remove_preserves_other(s: Seq<(u64, Connection)>, id: u64, other: u64)
    requires
        seq_contains_id(s, other),
        other != id,
    ensures
        seq_contains_id(remove_spec(s, id).0, other),
{
    if seq_contains_id(s, id) {
        lemma_find_id(s, id);
        let i = find_id(s, id);
        let t = s.remove(i);
        let k = choose|k: int| 0 <= k < s.len() && s[k].0 == other;
        assert(k != i);
        let k1 = if k < i {
            k
        } else {
            k - 1
        };
        assert(t[k1] == s[k]);
        assert(seq_contains_id(t, other));
    }
}

/// Gatekeeper partial failure: with `a` and `c` registered and `b`
/// absent, gatekeeping `[a, b, c]` detaches and closes `a` and `c`,
/// reports `b` as not found without aborting the batch, keeps the
/// outcomes in input order, and leaves none of the three registered.
pub proof fn lemma_gatekeep_partial_failure(s: Seq<(u64, Connection)>, a: u64, b: u64, c: u64)
    requires
        distinct_ids(s),
        seq_contains_id(s, a),
        !seq_contains_id(s, b),
        seq_contains_id(s, c),
        a != c,
    ensures
        gatekeep_spec(s, seq![a, b, c]).1 == seq![true, false, true],
        !seq_contains_id(gatekeep_spec(s, seq![a, b, c]).0, a),
        !seq_contains_id(gatekeep_spec(s, seq![a, b, c]).0, b),
        !seq_contains_id(gatekeep_spec(s, seq![a, b, c]).0, c),
{
    reveal_with_fuel(gatekeep_spec, 4);
    let ids: Seq<u64> = seq![a, b, c];
    assert(ids.drop_last() =~= seq![a, b]);
    assert(seq![a, b].drop_last() =~= seq![a]);
    assert(seq![a].drop_last() =~= Seq::<u64>::empty());
    lemma_find_id(s, a);
    let ia = find_id(s, a);
    let s1 = remove_spec(s, a).0;
    lemma_remove_keeps_distinct(s, ia);
    lemma_remove_unique_id(s, a);
    lemma_remove_preserves_absent(s, a, b);
    lemma_remove_preserves_other(s, a, c);
    // b is absent from s1, so its step changes nothing
    let s2 = remove_spec(s1, b).0;
    assert(s2 == s1);
    lemma_find_id(s2, c);
    let ic = find_id(s2, c);
    let s3 = remove_spec(s2, c).0;
    lemma_remove_keeps_distinct(s2, ic);
    lemma_remove_unique_id(s2, c);
    lemma_remove_preserves_absent(s2, c, a);
    lemma_remove_preserves_absent(s2, c, b);
    assert(gatekeep_spec(s, ids).1 =~= seq![true, false, true]);
}

} // verus!
