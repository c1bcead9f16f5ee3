//! The window aggregator: walks a message stream in order and groups the
//! numeric observations mined from bot-reply embeds into time-bounded
//! statistic windows.
//!
//! At most one window is ever open: the whole mutable state is the single
//! `current` field, an `Option`, so zero-or-one open windows holds by
//! construction. A trigger message closes the open window (if any) and opens
//! a fresh one; a non-trigger message seen more than the fixed lifetime
//! after the open instant closes the window without contributing; any other
//! message absorbed while a window is open adds its extracted values to the
//! running sums.

use vstd::prelude::*;

use crate::HOUR_NANOS;
use crate::extract::extract_int_value;
use crate::extract::extract_spec;
use crate::model::Message;
use crate::model::MessageView;
use crate::model::str_eq;
use crate::model::views_of_messages;
use crate::sat_add;
use crate::sat_add_spec;

verus! {

/// One completed (or still accumulating) statistic window: the instant the
/// trigger opened it, and the two running sums.
#[derive(Clone, Copy)]
pub struct StatisticEntry {
    pub timestamp: i64,
    pub servers_sum: u64,
    pub members_sum: u64,
}

/// Mathematical view of a `StatisticEntry`.
pub ghost struct EntryView {
    pub timestamp: int,
    pub servers_sum: int,
    pub members_sum: int,
}

impl View for StatisticEntry {
    type V = EntryView;

    open spec fn view(&self) -> EntryView {
        EntryView {
            timestamp: self.timestamp as int,
            servers_sum: self.servers_sum as int,
            members_sum: self.members_sum as int,
        }
    }
}

/// The fixed trigger command text.
pub open spec fn trigger_text() -> Seq<char> {
    "mb!stats"@
}

/// The label whose value feeds the server-count sum.
pub open spec fn servers_label() -> Seq<char> {
    "Servers:"@
}

/// The label whose value feeds the member-count sum.
pub open spec fn members_label() -> Seq<char> {
    "Users:"@
}

/// A trigger message: content exactly equal to the trigger text.
pub open spec fn is_trigger(m: MessageView) -> bool {
    m.content == trigger_text()
}

/// Whether an instant lies beyond the fixed lifetime measured from the
/// window's opening instant.
pub open spec fn expired(open_ts: int, t: int) -> bool {
    t > open_ts + HOUR_NANOS as int
}

/// The description of a message's first embed, if there is one.
pub open spec fn first_desc(m: MessageView) -> Option<Seq<char>> {
    if m.embeds.len() == 0 {
        None
    } else {
        m.embeds[0].description
    }
}

/// The value the extractor mines for `label` from a message's first embed.
pub open spec fn msg_value(m: MessageView, label: Seq<char>) -> Option<u32> {
    match first_desc(m) {
        Some(d) => extract_spec(label, d),
        None => None,
    }
}

/// A newly opened window: both sums at zero.
pub open spec fn fresh_entry(t: int) -> EntryView {
    EntryView { timestamp: t, servers_sum: 0, members_sum: 0 }
}

/// Add an extracted value (if any) to a running sum, saturating at `u64`.
pub open spec fn add_value(sum: int, v: Option<u32>) -> int {
    match v {
        Some(x) => sat_add_spec(sum, x as int),
        None => sum,
    }
}

/// One message absorbed into an open window.
pub open spec fn absorb(w: EntryView, m: MessageView) -> EntryView {
    EntryView {
        timestamp: w.timestamp,
        servers_sum: add_value(w.servers_sum, msg_value(m, servers_label())),
        members_sum: add_value(w.members_sum, msg_value(m, members_label())),
    }
}

/// The open window after one message is processed against state `st`.
pub open spec fn step_state(st: Option<EntryView>, m: MessageView) -> Option<EntryView> {
    if is_trigger(m) {
        Some(fresh_entry(m.timestamp))
    } else {
        match st {
            None => None,
            Some(w) => if expired(w.timestamp, m.timestamp) {
                None
            } else {
                Some(absorb(w, m))
            },
        }
    }
}

/// The window (if any) that processing one message against `st` closes.
pub open spec fn step_emit(st: Option<EntryView>, m: MessageView) -> Option<EntryView> {
    if is_trigger(m) {
        st
    } else {
        match st {
            None => None,
            Some(w) => if expired(w.timestamp, m.timestamp) {
                Some(w)
            } else {
                None
            },
        }
    }
}

/// The emission of one step, as a sequence of zero or one windows.
pub open spec fn emits_of(st: Option<EntryView>, m: MessageView) -> Seq<EntryView> {
    match step_emit(st, m) {
        Some(w) => seq![w],
        None => Seq::empty(),
    }
}

/// The open window after a whole message sequence, starting from `st`.
pub open spec fn run_state(st: Option<EntryView>, ms: Seq<MessageView>) -> Option<EntryView>
    decreases ms.len(),
{
    if ms.len() == 0 {
        st
    } else {
        step_state(run_state(st, ms.drop_last()), ms.last())
    }
}

/// All windows emitted over a whole message sequence, starting from `st`,
/// in the order they close.
pub open spec fn run_emits(st: Option<EntryView>, ms: Seq<MessageView>) -> Seq<EntryView>
    decreases ms.len(),
{
    if ms.len() == 0 {
        Seq::empty()
    } else {
        run_emits(st, ms.drop_last()) + emits_of(run_state(st, ms.drop_last()), ms.last())
    }
}

/// The complete output for a message sequence: every window emitted during
/// processing, then the still-open window flushed at end of stream.
pub open spec fn process_spec(ms: Seq<MessageView>) -> Seq<EntryView> {
    run_emits(None, ms) + match run_state(None, ms) {
        Some(w) => seq![w],
        None => Seq::empty(),
    }
}

/// The views of a sequence of entries, in order.
pub open spec fn entry_views(es: Seq<StatisticEntry>) -> Seq<EntryView> {
    es.map_values(|e: StatisticEntry| e@)
}

/// The view of an optional entry.
pub open spec fn opt_entry_view(e: Option<StatisticEntry>) -> Option<EntryView> {
    match e {
        Some(x) => Some(x@),
        None => None,
    }
}

impl StatisticEntry {
    /// A new, empty window opened at instant `t`.
    pub fn new(t: i64) -> (r: Self)
        ensures
            r@ == fresh_entry(t as int),
    {
        StatisticEntry { timestamp: t, servers_sum: 0, members_sum: 0 }
    }
}

/// The aggregator's whole state: the at-most-one open window.
pub struct Aggregator {
    pub current: Option<StatisticEntry>,
}

impl View for Aggregator {
    type V = Option<EntryView>;

    open spec fn view(&self) -> Option<EntryView> {
        opt_entry_view(self.current)
    }
}

impl Aggregator {
    /// A fresh aggregator with no open window.
    pub fn new() -> (r: Self)
        ensures
            r@ is None,
    {
        Aggregator { current: None }
    }

    /// Feed one message, in stream order; returns the window this message
    /// closed, if any.
    pub fn step(&mut self, m: &Message) -> (emitted: Option<StatisticEntry>)
        ensures
            final(self)@ == step_state(old(self)@, m@),
            opt_entry_view(emitted) == step_emit(old(self)@, m@),
    {
        if str_eq(m.content.as_str(), "mb!stats") {
            let emitted = self.current;
            self.current = Some(StatisticEntry::new(m.timestamp));
            emitted
        } else {
            match self.current {
                None => None,
                Some(w) => {
                    if (m.timestamp as i128) > (w.timestamp as i128) + (HOUR_NANOS as i128) {
                        self.current = None;
                        Some(w)
                    } else {
                        self.current = Some(absorb_message(w, m));
                        None
                    }
                },
            }
        }
    }

    /// End of stream: close and hand back the still-open window, if any.
    pub fn finish(&mut self) -> (emitted: Option<StatisticEntry>)
        ensures
            final(self)@ is None,
            opt_entry_view(emitted) == old(self)@,
    {
        let emitted = self.current;
        self.current = None;
        emitted
    }
}

/// Absorb one non-trigger, non-expired message into the open window.
fn absorb_message(w: StatisticEntry, m: &Message) -> (r: StatisticEntry)
    ensures
        r@ == absorb(w@, m@),
{
    let mut r = w;
    if m.embeds.len() > 0 {
        match &m.embeds[0].description {
            Some(d) => {
                match extract_int_value("Servers:", d.as_str()) {
                    Some(v) => {
                        r.servers_sum = sat_add(r.servers_sum, v as u64);
                    },
                    None => {},
                }
                match extract_int_value("Users:", d.as_str()) {
                    Some(v) => {
                        r.members_sum = sat_add(r.members_sum, v as u64);
                    },
                    None => {},
                }
            },
            None => {},
        }
    }
    r
}

/// Process a whole message list and return every emitted window, in order.
pub fn process_messages(msgs: &Vec<Message>) -> (out: Vec<StatisticEntry>)
    ensures
        entry_views(out@) == process_spec(views_of_messages(msgs@)),
{
    let ghost vs = views_of_messages(msgs@);
    let mut agg = Aggregator::new();
    let mut out: Vec<StatisticEntry> = Vec::new();
    let mut k: usize = 0;
    while k < msgs.len()
        invariant
            k <= msgs.len(),
            vs == views_of_messages(msgs@),
            agg@ == run_state(None, vs.take(k as int)),
            entry_views(out@) == run_emits(None, vs.take(k as int)),
        decreases msgs.len() - k,
    {
        let ghost out_pre = out@;
        let ghost st_pre = agg@;
        let emitted = agg.step(&msgs[k]);
        match emitted {
            Some(e) => {
                out.push(e);
                proof {
                    assert(entry_views(out@) =~= entry_views(out_pre) + seq![e@]);
                }
            },
            None => {},
        }
        proof {
            assert(vs.take(k + 1 as int).drop_last() =~= vs.take(k as int));
            assert(vs.take(k + 1 as int).last() == msgs@[k as int]@);
            assert(entry_views(out@) =~= run_emits(None, vs.take(k + 1 as int)));
        }
        k = k + 1;
    }
    proof {
        assert(vs.take(msgs@.len() as int) =~= vs);
    }
    let last = agg.finish();
    let ghost out_pre = out@;
    match last {
        Some(e) => {
            out.push(e);
            proof {
                assert(entry_views(out@) =~= entry_views(out_pre) + seq![e@]);
            }
        },
        None => {},
    }
    proof {
        assert(entry_views(out@) =~= process_spec(vs));
    }
    out
}

} // verus!
