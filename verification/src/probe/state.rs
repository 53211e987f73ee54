//! Probes: per-stream matching, counting and bounded histories.

use crate::probe::config::valid_config;
use crate::probe::config::ProbeConfig;
use crate::probe::pattern::accepts;
use crate::probe::pattern::compiled;
use crate::probe::pattern::pattern_matches;
use crate::probe::ring::lemma_push_bounded;
use crate::probe::ring::lemma_pushed_all_keeps_most_recent;
use crate::probe::ring::most_recent;
use crate::probe::ring::push_bounded;
use crate::probe::ring::pushed_all;
use crate::probe::ring::Ring;
use regex::Regex;
use vstd::prelude::*;

verus! {

/// Capacity of a probe's message log.
pub const MESSAGE_BUFFER_SIZE: usize = 60;

/// Capacity of a probe's interval history.
pub const RING_BUFFER_SIZE: usize = 180;

/// The compiled form that a probe holds for a pattern text: none for the
/// empty text, which stands for "no pattern", and none for a text that does
/// not compile.
pub open spec fn matcher_for(filter: Seq<char>) -> Option<Regex> {
    if filter.len() == 0 {
        None
    } else {
        match compiled(filter) {
            Ok(re) => Some(re),
            Err(_) => None,
        }
    }
}

/// The lines joined into one text, a line feed between neighbours.
pub open spec fn joined(lines: Seq<Seq<char>>) -> Seq<char>
    decreases lines.len(),
{
    if lines.len() == 0 {
        Seq::empty()
    } else if lines.len() == 1 {
        lines[0]
    } else {
        joined(lines.drop_last()) + seq!['\n'] + lines.last()
    }
}

/// The mathematical content of a probe.
pub struct ProbeView {
    /// Stream name.
    pub name: Seq<char>,
    /// Pattern text; empty when no pattern is set.
    pub filter: Seq<char>,
    /// Matches counted since creation.
    pub count: nat,
    /// Matches counted since the last tick.
    pub ring_buffer: nat,
    /// Past interval counts, most recent first.
    pub ring: Seq<u64>,
    /// Logged message bodies, most recent first.
    pub messages: Seq<Seq<char>>,
    /// The compiled pattern, where there is one.
    pub matcher: Option<Regex>,
}

impl ProbeView {
    /// The probe that a stream definition starts as: counters at zero,
    /// histories empty, and the pattern text of the definition, which is
    /// empty where the definition supplies none.
    pub open spec fn fresh(item: ProbeConfig) -> ProbeView {
        let filter = match item.filter {
            Some(f) => f@,
            None => Seq::<char>::empty(),
        };
        ProbeView {
            name: item.name@,
            filter,
            count: 0,
            ring_buffer: 0,
            ring: Seq::<u64>::empty(),
            messages: Seq::<Seq<char>>::empty(),
            matcher: matcher_for(filter),
        }
    }

    /// The probe after logging a message: the body goes in front of the
    /// log, and the oldest body leaves a full log.
    pub open spec fn logged(self, msg: Seq<char>) -> ProbeView {
        ProbeView { messages: push_bounded(self.messages, msg, MESSAGE_BUFFER_SIZE as nat), ..self }
    }

    /// The probe after logging and counting a message.
    pub open spec fn counted(self, msg: Seq<char>) -> ProbeView {
        ProbeView {
            count: self.count + 1,
            ring_buffer: self.ring_buffer + 1,
            ..self.logged(msg)
        }
    }

    /// The probe after a message for which the pattern answered `matched`.
    /// Without a pattern every message is logged and none is counted; with
    /// one, a matching message is logged and counted and any other is
    /// dropped.
    pub open spec fn applied(self, msg: Seq<char>, matched: bool) -> ProbeView {
        if self.filter.len() == 0 {
            self.logged(msg)
        } else if matched {
            self.counted(msg)
        } else {
            self
        }
    }

    /// Whether the compiled pattern matches the message.
    pub open spec fn matches(self, msg: Seq<char>) -> bool {
        match self.matcher {
            Some(re) => accepts(re, msg),
            None => false,
        }
    }

    /// The probe after processing a message.
    pub open spec fn processed(self, msg: Seq<char>) -> ProbeView {
        self.applied(msg, self.matches(msg))
    }

    /// The probe after a tick: the interval count goes in front of the
    /// history, the oldest count leaves a full history, and the interval
    /// count starts again at zero.
    pub open spec fn ticked(self) -> ProbeView {
        ProbeView {
            ring: push_bounded(self.ring, self.ring_buffer as u64, RING_BUFFER_SIZE as nat),
            ring_buffer: 0,
            ..self
        }
    }

    /// The probe after logging the messages `msgs`, first entry first.
    pub open spec fn logged_all(self, msgs: Seq<Seq<char>>) -> ProbeView
        decreases msgs.len(),
    {
        if msgs.len() == 0 {
            self
        } else {
            self.logged_all(msgs.drop_last()).logged(msgs.last())
        }
    }

    /// The probe after processing the messages `msgs`, first entry first.
    pub open spec fn processed_all(self, msgs: Seq<Seq<char>>) -> ProbeView
        decreases msgs.len(),
    {
        if msgs.len() == 0 {
            self
        } else {
            self.processed_all(msgs.drop_last()).processed(msgs.last())
        }
    }

    /// Both histories are within their capacities.
    pub open spec fn bounded(self) -> bool {
        self.messages.len() <= MESSAGE_BUFFER_SIZE && self.ring.len() <= RING_BUFFER_SIZE
    }

    /// The compiled pattern is the one that belongs to the pattern text.
    pub open spec fn pattern_bound(self) -> bool {
        self.matcher == matcher_for(self.filter)
    }

    /// Both counters have room for one more match.
    pub open spec fn has_room(self) -> bool {
        self.count < u32::MAX && self.ring_buffer < u64::MAX
    }

    /// The message can be processed: a probe with a pattern holds its
    /// compiled form, and where that matches the message, both counters have
    /// room for the match.
    pub open spec fn can_process(self, msg: Seq<char>) -> bool {
        self.filter.len() > 0 ==> self.matcher is Some && (self.matches(msg) ==> self.has_room())
    }

    /// Any message can be processed: a probe with a pattern holds its
    /// compiled form and has room in both counters.
    pub open spec fn ready(self) -> bool {
        self.filter.len() > 0 ==> self.matcher is Some && self.has_room()
    }
}

/// One monitored stream.
#[derive(Debug)]
pub struct Probe {
    /// Stream name.
    pub name: String,
    /// Pattern text; empty when no pattern is set.
    pub filter: String,
    /// Matches counted since creation.
    pub count: u32,
    /// Past interval counts, most recent first.
    pub ring: Ring<u64, RING_BUFFER_SIZE>,
    /// Matches counted since the last tick.
    pub ring_buffer: u64,
    /// Logged message bodies, most recent first.
    pub messages: Ring<String, MESSAGE_BUFFER_SIZE>,
    /// The pattern, compiled once when the probe was made.
    pub matcher: Option<Regex>,
}

impl View for Probe {
    type V = ProbeView;

    open spec fn view(&self) -> ProbeView {
        ProbeView {
            name: self.name@,
            filter: self.filter@,
            count: self.count as nat,
            ring_buffer: self.ring_buffer as nat,
            ring: self.ring@,
            messages: self.messages@.map_values(|s: String| s@),
            matcher: self.matcher,
        }
    }
}

impl Probe {
    /// A fresh probe for a stream definition: counters at zero, histories
    /// empty, and the pattern compiled. A definition without pattern gives
    /// the empty pattern text.
    pub fn from(item: ProbeConfig) -> (probe: Probe)
        ensures
            probe@ == ProbeView::fresh(item),
    {
        let filter: String = match item.filter {
            Some(f) => f,
            None => String::new(),
        };
        let matcher: Option<Regex> = if filter.as_str().is_empty() {
            None
        } else {
            match Regex::new(filter.as_str()) {
                Ok(re) => Some(re),
                Err(_) => None,
            }
        };
        let probe = Probe {
            name: item.name,
            filter,
            count: 0,
            ring: Ring::new(),
            ring_buffer: 0,
            messages: Ring::new(),
            matcher,
        };
        assert(probe@.messages =~= Seq::<Seq<char>>::empty());
        probe
    }

    /// Whether any message can be processed: see `ProbeView::ready`.
    pub fn ready(&self) -> (ok: bool)
        ensures
            ok == self@.ready(),
            ok ==> forall|msg: Seq<char>| self@.can_process(msg),
    {
        self.filter.as_str().is_empty() || (self.matcher.is_some() && self.count < u32::MAX
            && self.ring_buffer < u64::MAX)
    }

    /// Whether this message can be processed: see `ProbeView::can_process`.
    /// The test runs the pattern on the message.
    pub fn can_process(&self, msg: &str) -> (ok: bool)
        ensures
            ok == self@.can_process(msg@),
    {
        if self.filter.as_str().is_empty() {
            return true;
        }
        match &self.matcher {
            Some(re) => !re.is_match(msg) || (self.count < u32::MAX && self.ring_buffer
                < u64::MAX),
            None => false,
        }
    }

    /// Applies a message for which the pattern answered `matched`.
    pub fn apply_match(&mut self, msg: &str, matched: bool)
        requires
            old(self)@.filter.len() > 0 && matched ==> old(self)@.has_room(),
        ensures
            final(self)@ == old(self)@.applied(msg@, matched),
            final(self)@.bounded(),
    {
        if self.filter.as_str().is_empty() {
            self.update_message_buffer(msg);
        } else if matched {
            self.update_message_buffer(msg);
            self.count += 1;
            self.ring_buffer += 1;
        }
        proof {
            lemma_ring_bounds(self);
        }
    }

    /// Processes one message of the stream: tests it against the compiled
    /// pattern and applies the answer.
    pub fn process_message(&mut self, msg: &str)
        requires
            old(self)@.can_process(msg@),
        ensures
            final(self)@ == old(self)@.processed(msg@),
            final(self)@.bounded(),
    {
        let matched: bool = match &self.matcher {
            Some(re) => re.is_match(msg),
            None => false,
        };
        self.apply_match(msg, matched);
    }

    /// The logged message bodies as one text, most recent first, one body
    /// to a line.
    pub fn messages(self) -> (text: String)
        ensures
            text@ == joined(self@.messages),
    {
        let mut text = String::new();
        let n: usize = self.messages.len();
        let mut i: usize = 0;
        while i < n
            invariant
                n == self.messages@.len(),
                i <= n,
                text@ == joined(self@.messages.take(i as int)),
            decreases n - i,
        {
            proof {
                reveal_strlit("\n");
                let lines = self@.messages;
                assert(lines.take(i + 1).drop_last() =~= lines.take(i as int));
                assert(lines.take(i + 1).last() == lines[i as int]);
                assert("\n"@ =~= seq!['\n']);
                if i == 0 {
                    assert(joined(lines.take(0)) =~= Seq::<char>::empty());
                }
            }
            if i > 0 {
                text.append("\n");
            }
            text.append(self.messages.get(i).as_str());
            i += 1;
        }
        proof {
            assert(self@.messages.take(n as int) =~= self@.messages);
        }
        text
    }

    /// Puts a message body in front of the log; the oldest body leaves a
    /// full log.
    pub fn update_message_buffer(&mut self, msg: &str)
        ensures
            final(self)@ == old(self)@.logged(msg@),
            final(self)@.bounded(),
    {
        let body: String = msg.to_owned();
        self.messages.push(body);
        proof {
            lemma_ring_bounds(self);
            let f = |s: String| s@;
            let before = old(self).messages@;
            assert((seq![body] + before).map_values(f) =~= seq![msg@] + before.map_values(f));
            assert((seq![body] + before).drop_last().map_values(f) =~= (seq![msg@]
                + before.map_values(f)).drop_last());
            assert(final(self)@.messages =~= push_bounded(
                old(self)@.messages,
                msg@,
                MESSAGE_BUFFER_SIZE as nat,
            ));
        }
    }

    /// Closes the interval at a tick: the interval count goes in front of
    /// the history and starts again at zero.
    pub fn update_state(&mut self)
        ensures
            final(self)@ == old(self)@.ticked(),
            final(self)@.bounded(),
    {
        self.ring.push(self.ring_buffer);
        self.ring_buffer = 0;
        proof {
            lemma_ring_bounds(self);
        }
    }

    /// The interval history, most recent first.
    pub fn histogram(&self) -> (counts: Vec<u64>)
        ensures
            counts@ == self@.ring,
    {
        let mut counts: Vec<u64> = Vec::new();
        let n: usize = self.ring.len();
        let mut i: usize = 0;
        while i < n
            invariant
                n == self.ring@.len(),
                i <= n,
                counts@ == self.ring@.take(i as int),
            decreases n - i,
        {
            counts.push(*self.ring.get(i));
            proof {
                assert(self.ring@.take(i + 1) =~= self.ring@.take(i as int).push(self.ring@[i as int]));
            }
            i += 1;
        }
        proof {
            assert(self.ring@.take(n as int) =~= self.ring@);
        }
        counts
    }
}

impl Clone for Probe {
    /// A probe with the same content.
    fn clone(&self) -> (res: Self)
        ensures
            res@ == self@,
    {
        let res = Probe {
            name: self.name.clone(),
            filter: self.filter.clone(),
            count: self.count,
            ring: self.ring.clone(),
            ring_buffer: self.ring_buffer,
            messages: self.messages.clone(),
            matcher: match &self.matcher {
                Some(re) => Some(re.clone()),
                None => None,
            },
        };
        proof {
            assert(res@.ring =~= self@.ring);
            assert(res@.messages =~= self@.messages);
        }
        res
    }
}

/// The dashboard's data: the probes in display order and the view mode.
#[derive(Debug)]
pub struct AppState {
    /// The probes, in the order of their definitions.
    pub probes: Vec<Probe>,
    /// Whether the detail view of the selected probe is shown.
    pub detail_view: bool,
}

impl AppState {
    /// End of the page that starts at `start` and holds up to `num` of `len`
    /// items.
    pub open spec fn page_end(start: int, num: int, len: int) -> int {
        if start + num <= len {
            start + num
        } else {
            len
        }
    }

    /// A fresh probe for each definition, in the same order, and the list
    /// view.
    pub fn from_probes(p: &[ProbeConfig]) -> (state: AppState)
        ensures
            state.probes@.len() == p@.len(),
            forall|i: int|
                0 <= i < p@.len() ==> (#[trigger] state.probes@[i])@ == ProbeView::fresh(p@[i]),
            !state.detail_view,
    {
        let mut probes: Vec<Probe> = Vec::new();
        let n: usize = p.len();
        let mut i: usize = 0;
        while i < n
            invariant
                n == p@.len(),
                i <= n,
                probes@.len() == i,
                forall|k: int| 0 <= k < i ==> (#[trigger] probes@[k])@ == ProbeView::fresh(p@[k]),
            decreases n - i,
        {
            probes.push(Probe::from(p[i].clone()));
            i += 1;
        }
        AppState { probes, detail_view: false }
    }

    /// Copies of the probes on page `index` when `num` probes go on a page:
    /// those at the positions from `index * num` up to the end of the page
    /// or of the list, in order.
    pub fn probes_for_tab(&self, index: usize, num: usize) -> (page: Vec<Probe>)
        requires
            index * num <= self.probes@.len(),
        ensures
            page@.len() == Self::page_end(index * num, num as int, self.probes@.len() as int) - index
                * num,
            forall|i: int|
                0 <= i < page@.len() ==> (#[trigger] page@[i])@ == self.probes@[index * num + i]@,
    {
        let len: usize = self.probes.len();
        let start: usize = index * num;
        let upper: usize = if num <= len - start {
            start + num
        } else {
            len
        };
        let mut page: Vec<Probe> = Vec::new();
        let mut i: usize = start;
        while i < upper
            invariant
                start <= i <= upper <= len,
                len == self.probes@.len(),
                page@.len() == i - start,
                forall|k: int| 0 <= k < page@.len() ==> (#[trigger] page@[k])@ == self.probes@[start + k]@,
            decreases upper - i,
        {
            page.push(self.probes[i].clone());
            i += 1;
        }
        page
    }
}

/// Processing messages never lets a history grow beyond its capacity,
/// however many messages there are and whatever they hold.
pub proof fn lemma_processing_stays_bounded(probe: ProbeView, msgs: Seq<Seq<char>>)
    requires
        probe.bounded(),
    ensures
        probe.processed_all(msgs).bounded(),
        probe.processed_all(msgs).messages.len() <= 60,
        probe.processed_all(msgs).ring.len() <= 180,
    decreases msgs.len(),
{
    if msgs.len() > 0 {
        lemma_processing_stays_bounded(probe, msgs.drop_last());
        let before = probe.processed_all(msgs.drop_last());
        lemma_push_bounded(before.messages, msgs.last(), MESSAGE_BUFFER_SIZE as nat);
    }
}

/// Eviction from the message log is first in, first out: after more than
/// sixty messages went into the empty log of a probe, the log holds the
/// sixty most recent of them, most recent first.
pub proof fn lemma_log_keeps_most_recent(probe: ProbeView, msgs: Seq<Seq<char>>)
    requires
        probe.messages.len() == 0,
        msgs.len() > MESSAGE_BUFFER_SIZE,
    ensures
        probe.logged_all(msgs).messages == most_recent(msgs, MESSAGE_BUFFER_SIZE as nat),
        probe.logged_all(msgs).messages.len() == MESSAGE_BUFFER_SIZE,
        probe.logged_all(msgs).messages.first() == msgs[msgs.len() - 1],
        probe.logged_all(msgs).messages.last() == msgs[msgs.len() - MESSAGE_BUFFER_SIZE],
{
    lemma_logged_all_pushes(probe, msgs);
    assert(probe.messages =~= Seq::<Seq<char>>::empty());
    lemma_pushed_all_keeps_most_recent(msgs, MESSAGE_BUFFER_SIZE as nat);
}

/// Logging messages one after the other only puts them into the message
/// log, each within the capacity.
pub proof fn lemma_logged_all_pushes(probe: ProbeView, msgs: Seq<Seq<char>>)
    ensures
        probe.logged_all(msgs) == (ProbeView {
            messages: pushed_all(probe.messages, msgs, MESSAGE_BUFFER_SIZE as nat),
            ..probe
        }),
    decreases msgs.len(),
{
    if msgs.len() > 0 {
        lemma_logged_all_pushes(probe, msgs.drop_last());
    }
}

/// A probe without pattern logs every message and counts none, whatever
/// the message holds.
pub proof fn lemma_no_pattern_never_counts(probe: ProbeView, msg: Seq<char>)
    requires
        probe.filter.len() == 0,
        probe.bounded(),
    ensures
        probe.processed(msg).count == probe.count,
        probe.processed(msg).ring_buffer == probe.ring_buffer,
        probe.processed(msg).messages == push_bounded(
            probe.messages,
            msg,
            MESSAGE_BUFFER_SIZE as nat,
        ),
        probe.processed(msg).messages.first() == msg,
{
    lemma_push_bounded(probe.messages, msg, MESSAGE_BUFFER_SIZE as nat);
}

/// A probe with a pattern counts a matching message exactly once in both
/// counters and logs it, and a message that does not match changes nothing.
pub proof fn lemma_pattern_counts_matches(probe: ProbeView, msg: Seq<char>)
    requires
        probe.filter.len() > 0,
        probe.bounded(),
    ensures
        probe.matches(msg) ==> probe.processed(msg).count == probe.count + 1
            && probe.processed(msg).ring_buffer == probe.ring_buffer + 1
            && probe.processed(msg).messages.first() == msg,
        !probe.matches(msg) ==> probe.processed(msg) == probe,
        probe.pattern_bound() ==> probe.matches(msg) == pattern_matches(probe.filter, msg),
{
    lemma_push_bounded(probe.messages, msg, MESSAGE_BUFFER_SIZE as nat);
}

/// Only a tick changes the interval history. A tick puts exactly one value
/// in front of it, the interval count, and sets the interval count to zero;
/// it leaves the total and the message log as they are. Logging and
/// processing a message leave the history as it is.
pub proof fn lemma_only_tick_changes_history(probe: ProbeView, msg: Seq<char>, matched: bool)
    requires
        probe.bounded(),
        probe.ring_buffer <= u64::MAX,
    ensures
        probe.logged(msg).ring == probe.ring,
        probe.counted(msg).ring == probe.ring,
        probe.applied(msg, matched).ring == probe.ring,
        probe.processed(msg).ring == probe.ring,
        probe.ticked().ring_buffer == 0,
        probe.ticked().ring.first() == probe.ring_buffer,
        probe.ticked().ring.len() == if probe.ring.len() < RING_BUFFER_SIZE {
            probe.ring.len() + 1
        } else {
            RING_BUFFER_SIZE as nat
        },
        forall|i: int|
            1 <= i < probe.ticked().ring.len() ==> #[trigger] probe.ticked().ring[i] == probe.ring[i
                - 1],
        probe.ticked().count == probe.count,
        probe.ticked().messages == probe.messages,
        probe.ticked().bounded(),
{
    lemma_push_bounded(probe.ring, probe.ring_buffer as u64, RING_BUFFER_SIZE as nat);
}

/// Every probe of a valid configuration starts ready for messages: it
/// holds the compiled form of its pattern, if it has one, and its counters
/// are at zero.
pub proof fn lemma_valid_config_is_ready(probes: Seq<ProbeConfig>, i: int)
    requires
        valid_config(probes),
        0 <= i < probes.len(),
    ensures
        ProbeView::fresh(probes[i]).ready(),
        forall|msg: Seq<char>| ProbeView::fresh(probes[i]).can_process(msg),
        ProbeView::fresh(probes[i]).pattern_bound(),
        ProbeView::fresh(probes[i]).bounded(),
{
}

/// Both histories of a probe are within their capacities at all times.
pub proof fn lemma_ring_bounds(probe: &Probe)
    ensures
        probe@.bounded(),
{
    probe.ring.lemma_within_capacity();
    probe.messages.lemma_within_capacity();
}

} // verus!
