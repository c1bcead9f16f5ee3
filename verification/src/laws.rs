//! Proved laws of the window aggregator: monotonic accumulation with exact
//! totals, closure of the prior window by a trigger, absolute-lifetime
//! expiry, end-of-stream flushing, and silence without a trigger.

use vstd::prelude::*;

use crate::aggregator::EntryView;
use crate::aggregator::emits_of;
use crate::aggregator::expired;
use crate::aggregator::fresh_entry;
use crate::aggregator::is_trigger;
use crate::aggregator::members_label;
use crate::aggregator::msg_value;
use crate::aggregator::process_spec;
use crate::aggregator::run_emits;
use crate::aggregator::run_state;
use crate::aggregator::servers_label;
use crate::aggregator::step_state;
use crate::model::MessageView;

verus! {

/// A sum capped at the largest `u64` value.
pub open spec fn sat_cap(x: int) -> int {
    if x > u64::MAX {
        u64::MAX as int
    } else {
        x
    }
}

/// The contribution of one extraction result to a sum.
pub open spec fn value_of(v: Option<u32>) -> int {
    match v {
        Some(x) => x as int,
        None => 0,
    }
}

/// Total of all values extracted for `label` over a message sequence.
pub open spec fn sum_values(ms: Seq<MessageView>, label: Seq<char>) -> int
    decreases ms.len(),
{
    if ms.len() == 0 {
        0
    } else {
        sum_values(ms.drop_last(), label) + value_of(msg_value(ms.last(), label))
    }
}

proof fn lemma_sum_values_nonneg(ms: Seq<MessageView>, label: Seq<char>)
    ensures
        sum_values(ms, label) >= 0,
    decreases ms.len(),
{
    if ms.len() > 0 {
        lemma_sum_values_nonneg(ms.drop_last(), label);
    }
}

/// Monotonic accumulation: while a window stays open (no trigger arrives and
/// nothing lies past its lifetime), processing emits nothing, the window
/// keeps its opening instant, its sums never decrease, and each sum ends at
/// the saturating total of the values extracted for it — the exact total
/// whenever that total fits in `u64`.
pub proof fn lemma_window_accumulation(w: EntryView, ms: Seq<MessageView>)
    requires
        0 <= w.servers_sum <= u64::MAX,
        0 <= w.members_sum <= u64::MAX,
        forall|i: int| 0 <= i < ms.len() ==> !is_trigger(ms[i]),
        forall|i: int| 0 <= i < ms.len() ==> !expired(w.timestamp, ms[i].timestamp),
    ensures
        run_emits(Some(w), ms) == Seq::<EntryView>::empty(),
        run_state(Some(w), ms) is Some,
        run_state(Some(w), ms)->Some_0.timestamp == w.timestamp,
        run_state(Some(w), ms)->Some_0.servers_sum == sat_cap(
            w.servers_sum + sum_values(ms, servers_label()),
        ),
        run_state(Some(w), ms)->Some_0.members_sum == sat_cap(
            w.members_sum + sum_values(ms, members_label()),
        ),
        run_state(Some(w), ms)->Some_0.servers_sum >= w.servers_sum,
        run_state(Some(w), ms)->Some_0.members_sum >= w.members_sum,
    decreases ms.len(),
{
    lemma_sum_values_nonneg(ms, servers_label());
    lemma_sum_values_nonneg(ms, members_label());
    if ms.len() == 0 {
        assert(run_emits(Some(w), ms) =~= Seq::<EntryView>::empty());
    } else {
        let head = ms.drop_last();
        lemma_window_accumulation(w, head);
        lemma_sum_values_nonneg(head, servers_label());
        lemma_sum_values_nonneg(head, members_label());
        assert(run_emits(Some(w), ms) =~= Seq::<EntryView>::empty());
    }
}

proof fn lemma_run_from_none(ms: Seq<MessageView>)
    requires
        forall|i: int| 0 <= i < ms.len() ==> !is_trigger(ms[i]),
    ensures
        run_state(None, ms) is None,
        run_emits(None, ms) == Seq::<EntryView>::empty(),
    decreases ms.len(),
{
    if ms.len() > 0 {
        lemma_run_from_none(ms.drop_last());
        assert(run_emits(None, ms) =~= Seq::<EntryView>::empty());
    }
}

/// No trigger, no output: a stream without a trigger message emits zero
/// windows, whatever its embeds hold.
pub proof fn lemma_no_trigger_no_output(ms: Seq<MessageView>)
    requires
        forall|i: int| 0 <= i < ms.len() ==> !is_trigger(ms[i]),
    ensures
        process_spec(ms) == Seq::<EntryView>::empty(),
{
    lemma_run_from_none(ms);
    assert(process_spec(ms) =~= Seq::<EntryView>::empty());
}

/// A trigger closes the prior window: two triggers, the second within the
/// window lifetime of the first, yield exactly two windows with zero sums,
/// opened at the two trigger instants, in order.
pub proof fn lemma_trigger_closes_prior(m0: MessageView, m1: MessageView)
    requires
        is_trigger(m0),
        is_trigger(m1),
        m1.timestamp <= m0.timestamp + crate::HOUR_NANOS as int,
    ensures
        process_spec(seq![m0, m1]) == seq![
            fresh_entry(m0.timestamp),
            fresh_entry(m1.timestamp),
        ],
{
    let ms = seq![m0, m1];
    lemma_two_steps(m0, m1);
    assert(run_state(None, ms) == Some(fresh_entry(m1.timestamp)));
    assert(emits_of(Some(fresh_entry(m0.timestamp)), m1) =~= seq![fresh_entry(m0.timestamp)]);
    assert(run_emits(None, ms) =~= seq![fresh_entry(m0.timestamp)]);
    assert(process_spec(ms) =~= seq![fresh_entry(m0.timestamp), fresh_entry(m1.timestamp)]);
}

/// Unfolds one then two processing steps over `[m0, m1]` where `m0` is a
/// trigger.
proof fn lemma_two_steps(m0: MessageView, m1: MessageView)
    requires
        is_trigger(m0),
    ensures
        run_state(None, seq![m0]) == Some(fresh_entry(m0.timestamp)),
        run_emits(None, seq![m0]) == Seq::<EntryView>::empty(),
        run_state(None, seq![m0, m1]) == step_state(Some(fresh_entry(m0.timestamp)), m1),
        run_emits(None, seq![m0, m1]) == emits_of(Some(fresh_entry(m0.timestamp)), m1),
{
    let ms = seq![m0, m1];
    let s0 = seq![m0];
    assert(s0.drop_last() =~= Seq::<MessageView>::empty());
    assert(s0.last() == m0);
    assert(run_state(None, Seq::<MessageView>::empty()) is None);
    assert(run_state(None, s0) == step_state(None, m0));
    assert(run_emits(None, Seq::<MessageView>::empty()) =~= Seq::<EntryView>::empty());
    assert(run_emits(None, s0) =~= emits_of(None, m0));
    assert(emits_of(None, m0) =~= Seq::<EntryView>::empty());
    assert(run_emits(None, s0) =~= Seq::<EntryView>::empty());
    assert(ms.drop_last() =~= s0);
    assert(ms.last() == m1);
    assert(run_state(None, ms) == step_state(run_state(None, s0), m1));
    assert(run_emits(None, ms) =~= run_emits(None, s0) + emits_of(run_state(None, s0), m1));
    assert(run_emits(None, ms) =~= emits_of(Some(fresh_entry(m0.timestamp)), m1));
}

/// Expiry is an absolute lifetime: a trigger followed only by a non-trigger
/// message past the window lifetime yields exactly the one window with zero
/// sums, and the late message opens nothing.
pub proof fn lemma_expiry_is_absolute(m0: MessageView, m1: MessageView)
    requires
        is_trigger(m0),
        !is_trigger(m1),
        expired(m0.timestamp, m1.timestamp),
    ensures
        process_spec(seq![m0, m1]) == seq![fresh_entry(m0.timestamp)],
        run_state(None, seq![m0, m1]) is None,
{
    let ms = seq![m0, m1];
    lemma_two_steps(m0, m1);
    assert(run_state(None, ms) is None);
    assert(emits_of(Some(fresh_entry(m0.timestamp)), m1) =~= seq![fresh_entry(m0.timestamp)]);
    assert(run_emits(None, ms) =~= seq![fresh_entry(m0.timestamp)]);
    assert(process_spec(ms) =~= seq![fresh_entry(m0.timestamp)]);
}

/// End-of-stream flush: a lone trigger yields exactly one window, opened at
/// its instant, with zero sums.
pub proof fn lemma_end_of_stream_flush(m0: MessageView)
    requires
        is_trigger(m0),
    ensures
        process_spec(seq![m0]) == seq![fresh_entry(m0.timestamp)],
{
    let ms = seq![m0];
    assert(ms.drop_last() =~= Seq::<MessageView>::empty());
    assert(ms.last() == m0);
    assert(run_state(None, Seq::<MessageView>::empty()) is None);
    assert(run_state(None, ms) == step_state(None, m0));
    assert(run_emits(None, Seq::<MessageView>::empty()) =~= Seq::<EntryView>::empty());
    assert(run_emits(None, ms) =~= emits_of(None, m0));
    assert(emits_of(None, m0) =~= Seq::<EntryView>::empty());
    assert(process_spec(ms) =~= seq![fresh_entry(m0.timestamp)]);
}

} // verus!
