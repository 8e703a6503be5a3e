//! The record of events handed to each connection's outbound channel, and what
//! holds of it: a broadcast appends to each recipient's record in order, skips
//! the identities it does not target, and decides each recipient by that
//! recipient's own channel alone.

use vstd::prelude::*;

verus! {

/// Record of the events each registered identity's channel accepted, oldest first.
pub type EventLog = Map<Seq<char>, Seq<Seq<char>>>;

/// The log after handing `event` to each of `targets` in turn, where
/// `accepted[i]` tells whether the channel of `targets[i]` took it. A target that
/// is not in the log is skipped.
pub open spec fn log_after(
    log: EventLog,
    targets: Seq<Seq<char>>,
    accepted: Seq<bool>,
    event: Seq<char>,
) -> EventLog
    decreases targets.len(),
{
    if targets.len() == 0 {
        log
    } else {
        let n = targets.len() - 1;
        let prev = log_after(log, targets.drop_last(), accepted.subrange(0, n), event);
        let t = targets.last();
        if accepted[n] && prev.dom().contains(t) {
            prev.insert(t, prev[t].push(event))
        } else {
            prev
        }
    }
}

/// `after` is `before` once `event` has been handed to each of `targets` in
/// turn, and `reached` tells whether there were no targets or one of them took it.
pub open spec fn handed_out(
    before: EventLog,
    after: EventLog,
    targets: Seq<Seq<char>>,
    event: Seq<char>,
    reached: bool,
) -> bool {
    exists|accepted: Seq<bool>|
        {
            &&& accepted.len() == targets.len()
            &&& #[trigger] log_after(before, targets, accepted, event) == after
            &&& (reached <==> (targets.len() == 0 || accepted.contains(true)))
        }
}

/// `ids` without the entries equal to `x`, in order.
pub open spec fn ids_except(ids: Seq<Seq<char>>, x: Seq<char>) -> Seq<Seq<char>>
    decreases ids.len(),
{
    if ids.len() == 0 {
        seq![]
    } else {
        let prev = ids_except(ids.drop_last(), x);
        if ids.last() == x {
            prev
        } else {
            prev.push(ids.last())
        }
    }
}

/// Handing out an event adds no identity to the log and removes none.
pub proof fn lemma_log_after_dom(
    log: EventLog,
    targets: Seq<Seq<char>>,
    accepted: Seq<bool>,
    event: Seq<char>,
)
    ensures
        log_after(log, targets, accepted, event).dom() == log.dom(),
    decreases targets.len(),
{
    if targets.len() > 0 {
        let n = targets.len() - 1;
        lemma_log_after_dom(log, targets.drop_last(), accepted.subrange(0, n), event);
        let prev = log_after(log, targets.drop_last(), accepted.subrange(0, n), event);
        let t = targets.last();
        if accepted[n] && prev.dom().contains(t) {
            assert(prev.insert(t, prev[t].push(event)).dom() =~= prev.dom());
        }
    }
}

/// `k` copies of `event`.
pub open spec fn repeated(event: Seq<char>, k: nat) -> Seq<Seq<char>> {
    Seq::new(k, |_i: int| event)
}

/// No identity occurs twice.
pub open spec fn distinct(ids: Seq<Seq<char>>) -> bool {
    forall|i: int, j: int| 0 <= i < j < ids.len() ==> ids[i] != ids[j]
}

/// `ids_except(ids, x)` does not hold `x`.
pub proof fn lemma_ids_except_excludes(ids: Seq<Seq<char>>, x: Seq<char>)
    ensures
        !ids_except(ids, x).contains(x),
    decreases ids.len(),
{
    if ids.len() > 0 {
        lemma_ids_except_excludes(ids.drop_last(), x);
        let prev = ids_except(ids.drop_last(), x);
        if ids.last() != x {
            assert forall|i: int| 0 <= i < prev.push(ids.last()).len() implies prev.push(
                ids.last(),
            )[i] != x by {
                if i < prev.len() {
                    assert(prev[i] != x) by {
                        if prev[i] == x {
                            assert(prev.contains(x));
                        }
                    }
                }
            }
        }
    }
}

/// The record of an identity that is not among the targets does not change.
pub proof fn lemma_log_after_untouched(
    log: EventLog,
    targets: Seq<Seq<char>>,
    accepted: Seq<bool>,
    event: Seq<char>,
    x: Seq<char>,
)
    requires
        !targets.contains(x),
    ensures
        log_after(log, targets, accepted, event)[x] == log[x],
    decreases targets.len(),
{
    if targets.len() > 0 {
        let n = targets.len() - 1;
        assert(!targets.drop_last().contains(x)) by {
            if targets.drop_last().contains(x) {
                let i = choose|i: int| 0 <= i < n && targets.drop_last()[i] == x;
                assert(targets[i] == x);
            }
        }
        assert(targets[n] != x);
        lemma_log_after_untouched(log, targets.drop_last(), accepted.subrange(0, n), event, x);
    }
}

/// A recipient's record only grows at its end, by copies of the event.
pub proof fn lemma_log_after_appends(
    log: EventLog,
    targets: Seq<Seq<char>>,
    accepted: Seq<bool>,
    event: Seq<char>,
    x: Seq<char>,
)
    requires
        log.dom().contains(x),
    ensures
        exists|k: nat| log_after(log, targets, accepted, event)[x] == log[x] + repeated(event, k),
    decreases targets.len(),
{
    if targets.len() == 0 {
        assert(log[x] + repeated(event, 0) =~= log[x]);
    } else {
        let n = targets.len() - 1;
        let prev = log_after(log, targets.drop_last(), accepted.subrange(0, n), event);
        lemma_log_after_appends(log, targets.drop_last(), accepted.subrange(0, n), event, x);
        let k = choose|k: nat| prev[x] == log[x] + repeated(event, k);
        if accepted[n] && prev.dom().contains(targets.last()) && targets.last() == x {
            assert(prev[x].push(event) =~= log[x] + repeated(event, k + 1));
        } else {
            assert(log_after(log, targets, accepted, event)[x] == log[x] + repeated(event, k));
        }
    }
}

/// No self-echo: when an event from `sender` is handed to every identity of
/// `ids` but `sender`, the sender's own record does not change.
pub proof fn lemma_no_self_echo(
    log: EventLog,
    ids: Seq<Seq<char>>,
    sender: Seq<char>,
    accepted: Seq<bool>,
    event: Seq<char>,
)
    ensures
        log_after(log, ids_except(ids, sender), accepted, event)[sender] == log[sender],
{
    lemma_ids_except_excludes(ids, sender);
    lemma_log_after_untouched(log, ids_except(ids, sender), accepted, event, sender);
}

/// Best-effort delivery: among distinct targets, what becomes of the record of
/// target `i` depends on whether its own channel took the event and on nothing
/// else; a refusing channel elsewhere does not keep the event from it.
pub proof fn lemma_best_effort(
    log: EventLog,
    targets: Seq<Seq<char>>,
    accepted: Seq<bool>,
    event: Seq<char>,
    i: int,
)
    requires
        distinct(targets),
        accepted.len() == targets.len(),
        0 <= i < targets.len(),
        log.dom().contains(targets[i]),
    ensures
        log_after(log, targets, accepted, event)[targets[i]] == if accepted[i] {
            log[targets[i]].push(event)
        } else {
            log[targets[i]]
        },
    decreases targets.len(),
{
    let n = targets.len() - 1;
    let t = targets[i];
    let front = targets.drop_last();
    let acc = accepted.subrange(0, n);
    let prev = log_after(log, front, acc, event);
    lemma_log_after_dom(log, front, acc, event);
    if i == n {
        assert(!front.contains(t)) by {
            if front.contains(t) {
                let j = choose|j: int| 0 <= j < n && front[j] == t;
                assert(targets[j] == targets[n]);
            }
        }
        lemma_log_after_untouched(log, front, acc, event, t);
    } else {
        assert(targets.last() != t);
        assert(distinct(front));
        assert(front[i] == t);
        assert(acc[i] == accepted[i]);
        lemma_best_effort(log, front, acc, event, i);
    }
}

/// Order per recipient: after one event and then another were handed out, a
/// recipient's record is its earlier record, then copies of the first event,
/// then copies of the second; nothing later comes before anything earlier.
pub proof fn lemma_fifo_per_recipient(
    log: EventLog,
    first_targets: Seq<Seq<char>>,
    first_accepted: Seq<bool>,
    first: Seq<char>,
    second_targets: Seq<Seq<char>>,
    second_accepted: Seq<bool>,
    second: Seq<char>,
    x: Seq<char>,
)
    requires
        log.dom().contains(x),
    ensures
        exists|k1: nat, k2: nat|
            log_after(
                log_after(log, first_targets, first_accepted, first),
                second_targets,
                second_accepted,
                second,
            )[x] == log[x] + repeated(first, k1) + repeated(second, k2),
{
    let mid = log_after(log, first_targets, first_accepted, first);
    lemma_log_after_appends(log, first_targets, first_accepted, first, x);
    let k1 = choose|k1: nat| mid[x] == log[x] + repeated(first, k1);
    lemma_log_after_dom(log, first_targets, first_accepted, first);
    lemma_log_after_appends(mid, second_targets, second_accepted, second, x);
    let k2 = choose|k2: nat|
        log_after(mid, second_targets, second_accepted, second)[x] == mid[x] + repeated(
            second,
            k2,
        );
    assert(log_after(mid, second_targets, second_accepted, second)[x] == log[x] + repeated(
        first,
        k1,
    ) + repeated(second, k2));
}

} // verus!
