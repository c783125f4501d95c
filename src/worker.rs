//! The decisions of the background update worker: coalescing bursts of
//! updates, applying them to the text pair, and rebuilding the markers.
use std::collections::HashMap;

use vstd::prelude::*;

use crate::diff::{line_diffs_of, perform_diff, LineDiff, LineDiffs};

verus! {

/// Milliseconds that the queue must stay quiet before a burst of updates is processed.
pub const DIFF_DEBOUNCE_TIME: u64 = 100;

/// An update handed to the worker.
pub enum Event {
    /// A new version of the document.
    UpdateDocument(String),
    /// A new diff base.
    UpdateDiffBase(String),
}

/// The newest document and the newest diff base of a burst of updates.
pub struct EventAccumulator {
    pub diff_base: Option<String>,
    pub doc: Option<String>,
}

/// `acc` after `event`: the newest value of each kind wins.
pub open spec fn accumulate(acc: EventAccumulator, event: Event) -> EventAccumulator {
    match event {
        Event::UpdateDocument(doc) => EventAccumulator { diff_base: acc.diff_base, doc: Some(doc) },
        Event::UpdateDiffBase(base) => EventAccumulator { diff_base: Some(base), doc: acc.doc },
    }
}

/// `acc` after each of `events` in turn.
pub open spec fn accumulate_all(acc: EventAccumulator, events: Seq<Event>) -> EventAccumulator
    decreases events.len(),
{
    if events.len() == 0 {
        acc
    } else {
        accumulate(accumulate_all(acc, events.drop_last()), events.last())
    }
}

/// The text pair after an update: a new base keeps the current document
/// unless a new one came with it.
pub open spec fn updated_pair(base: String, doc: String, acc: EventAccumulator) -> (String, String) {
    match acc.diff_base {
        Some(b) => (
            b,
            match acc.doc {
                Some(d) => d,
                None => doc,
            },
        ),
        None => match acc.doc {
            Some(d) => (base, d),
            None => (base, doc),
        },
    }
}

impl EventAccumulator {
    /// An accumulator that holds nothing.
    pub fn new() -> (r: EventAccumulator)
        ensures
            r.diff_base is None,
            r.doc is None,
    {
        EventAccumulator { diff_base: None, doc: None }
    }

    /// Whether no update has been merged.
    pub fn is_empty(&self) -> (r: bool)
        ensures
            r == (self.diff_base is None && self.doc is None),
    {
        self.diff_base.is_none() && self.doc.is_none()
    }

    /// Merges one update, replacing an earlier one of the same kind.
    pub fn handle_event(&mut self, event: Event)
        ensures
            *final(self) == accumulate(*old(self), event),
    {
        match event {
            Event::UpdateDocument(doc) => self.doc = Some(doc),
            Event::UpdateDiffBase(new_diff_base) => self.diff_base = Some(new_diff_base),
        }
    }
}

/// How a wait for the next update ended.
pub enum Wakeup {
    /// An update arrived.
    Received(Event),
    /// The debounce window passed with no update.
    Quiet,
    /// No producer is left and the queue is empty.
    Closed,
}

/// What the worker asks of the loop that drives it.
pub enum Action {
    /// Wait for the next update: for as long as it takes while idle, for at
    /// most the debounce window (counted anew) while a burst is pending.
    Wait,
    /// Publish these markers, then wait.
    Publish(LineDiffs),
    /// Publish these markers, then stop.
    PublishAndStop(LineDiffs),
    /// Stop.
    Stop,
}

/// The worker's state: the authoritative text pair, the pending burst, and
/// an empty map kept for the next computation.
pub struct DiffWorker {
    base: String,
    doc: String,
    pending: EventAccumulator,
    new_line_diffs: LineDiffs,
}

impl DiffWorker {
    /// The current diff base.
    pub closed spec fn spec_base(&self) -> String {
        self.base
    }

    /// The current document.
    pub closed spec fn spec_doc(&self) -> String {
        self.doc
    }

    /// The updates merged since the last computation.
    pub closed spec fn spec_pending(&self) -> EventAccumulator {
        self.pending
    }

    /// The map kept for the next computation is empty.
    pub closed spec fn wf(&self) -> bool {
        self.new_line_diffs@ == Map::<usize, LineDiff>::empty()
    }

    /// A worker over a diff base and a document, with nothing pending.
    pub fn new(diff_base: String, doc: String) -> (r: DiffWorker)
        ensures
            r.wf(),
            r.spec_base() == diff_base,
            r.spec_doc() == doc,
            r.spec_pending().diff_base is None,
            r.spec_pending().doc is None,
    {
        DiffWorker {
            base: diff_base,
            doc,
            pending: EventAccumulator::new(),
            new_line_diffs: HashMap::new(),
        }
    }

    /// Whether a burst is pending, so that the next wait is bounded by the debounce window.
    pub fn is_draining(&self) -> (r: bool)
        ensures
            r == !(self.spec_pending().diff_base is None && self.spec_pending().doc is None),
    {
        !self.pending.is_empty()
    }

    /// Builds the markers of the current text pair in the kept map and hands it out.
    pub fn compute(&mut self) -> (r: LineDiffs)
        requires
            old(self).wf(),
        ensures
            final(self).wf(),
            final(self).spec_base() == old(self).spec_base(),
            final(self).spec_doc() == old(self).spec_doc(),
            final(self).spec_pending() == old(self).spec_pending(),
            r@ == line_diffs_of(old(self).spec_base()@, old(self).spec_doc()@),
    {
        let mut line_diffs: LineDiffs = HashMap::new();
        std::mem::swap(&mut line_diffs, &mut self.new_line_diffs);
        perform_diff(&mut line_diffs, self.base.as_str(), self.doc.as_str());
        line_diffs
    }

    /// Keeps the storage of a map that no reader holds any more for the next computation.
    pub fn recycle(&mut self, line_diffs: LineDiffs)
        requires
            old(self).wf(),
        ensures
            final(self).wf(),
            final(self).spec_base() == old(self).spec_base(),
            final(self).spec_doc() == old(self).spec_doc(),
            final(self).spec_pending() == old(self).spec_pending(),
    {
        let mut cached_alloc = line_diffs;
        cached_alloc.clear();
        self.new_line_diffs = cached_alloc;
    }

    /// Applies the pending burst to the text pair and empties it.
    fn apply_pending(&mut self)
        ensures
            (final(self).spec_base(), final(self).spec_doc()) == updated_pair(
                old(self).spec_base(),
                old(self).spec_doc(),
                old(self).spec_pending(),
            ),
            final(self).spec_pending().diff_base is None,
            final(self).spec_pending().doc is None,
            final(self).new_line_diffs == old(self).new_line_diffs,
    {
        let mut accumulator = EventAccumulator::new();
        std::mem::swap(&mut accumulator, &mut self.pending);
        match accumulator.diff_base {
            Some(new_base) => {
                self.base = new_base;
                match accumulator.doc {
                    Some(doc) => self.doc = doc,
                    None => {},
                }
            },
            None => match accumulator.doc {
                Some(doc) => self.doc = doc,
                None => {},
            },
        }
    }

    /// Decides on how a wait ended. An update is merged into the pending burst
    /// and the wait starts again; once the window passes quietly, or the queue
    /// closes, a pending burst is applied and the markers of the new pair are
    /// published; a closed queue with nothing pending stops the worker.
    pub fn on_wakeup(&mut self, wakeup: Wakeup) -> (r: Action)
        requires
            old(self).wf(),
        ensures
            final(self).wf(),
            match wakeup {
                Wakeup::Received(event) => {
                    &&& r is Wait
                    &&& final(self).spec_pending() == accumulate(old(self).spec_pending(), event)
                    &&& final(self).spec_base() == old(self).spec_base()
                    &&& final(self).spec_doc() == old(self).spec_doc()
                },
                _ => if old(self).spec_pending().diff_base is None && old(self).spec_pending().doc is None {
                    &&& (if wakeup is Quiet { r is Wait } else { r is Stop })
                    &&& final(self).spec_pending() == old(self).spec_pending()
                    &&& final(self).spec_base() == old(self).spec_base()
                    &&& final(self).spec_doc() == old(self).spec_doc()
                } else {
                    &&& (final(self).spec_base(), final(self).spec_doc()) == updated_pair(
                        old(self).spec_base(),
                        old(self).spec_doc(),
                        old(self).spec_pending(),
                    )
                    &&& final(self).spec_pending().diff_base is None
                    &&& final(self).spec_pending().doc is None
                    &&& (if wakeup is Quiet { r is Publish } else { r is PublishAndStop })
                    &&& published(r) == line_diffs_of(
                        final(self).spec_base()@,
                        final(self).spec_doc()@,
                    )
                },
            },
    {
        match wakeup {
            Wakeup::Received(event) => {
                self.pending.handle_event(event);
                Action::Wait
            },
            Wakeup::Quiet => {
                if self.pending.is_empty() {
                    Action::Wait
                } else {
                    self.apply_pending();
                    Action::Publish(self.compute())
                }
            },
            Wakeup::Closed => {
                if self.pending.is_empty() {
                    Action::Stop
                } else {
                    self.apply_pending();
                    Action::PublishAndStop(self.compute())
                }
            },
        }
    }
}

/// The markers that an action publishes, if any.
pub open spec fn published(a: Action) -> Map<usize, LineDiff> {
    match a {
        Action::Publish(m) => m@,
        Action::PublishAndStop(m) => m@,
        _ => Map::empty(),
    }
}

/// An accumulator that holds nothing.
pub open spec fn empty_accumulator() -> EventAccumulator {
    EventAccumulator { diff_base: None, doc: None }
}

/// A new document replaces the old one outright: the pair after the update,
/// and so the markers published for it, do not depend on the earlier document.
pub proof fn lemma_new_document_replaces(base: String, doc: String, other_doc: String, new_doc: String)
    ensures
        updated_pair(base, doc, accumulate(empty_accumulator(), Event::UpdateDocument(new_doc)))
            == (base, new_doc),
        line_diffs_of(
            updated_pair(base, doc, accumulate(empty_accumulator(), Event::UpdateDocument(new_doc))).0@,
            updated_pair(base, doc, accumulate(empty_accumulator(), Event::UpdateDocument(new_doc))).1@,
        ) == line_diffs_of(
            updated_pair(base, other_doc, accumulate(empty_accumulator(), Event::UpdateDocument(new_doc))).0@,
            updated_pair(base, other_doc, accumulate(empty_accumulator(), Event::UpdateDocument(new_doc))).1@,
        ),
{
}

/// A new diff base is diffed against the document that came with it in the
/// same burst, or else against the document already known.
pub proof fn lemma_new_base_keeps_document(base: String, doc: String, acc: EventAccumulator, new_base: String)
    ensures
        updated_pair(base, doc, accumulate(acc, Event::UpdateDiffBase(new_base))) == (
            new_base,
            match acc.doc {
                Some(d) => d,
                None => doc,
            },
        ),
        updated_pair(base, doc, accumulate(empty_accumulator(), Event::UpdateDiffBase(new_base)))
            == (new_base, doc),
{
}

/// A burst of document updates leaves only the last document pending, and no base.
pub proof fn lemma_burst_keeps_last_document(events: Seq<Event>)
    requires
        events.len() > 0,
        forall|i: int| 0 <= i < events.len() ==> (#[trigger] events[i]) is UpdateDocument,
    ensures
        accumulate_all(empty_accumulator(), events) == (EventAccumulator {
            diff_base: None,
            doc: Some(events.last()->UpdateDocument_0),
        }),
    decreases events.len(),
{
    if events.len() > 1 {
        let prefix = events.drop_last();
        assert forall|i: int| 0 <= i < prefix.len() implies (#[trigger] prefix[i]) is UpdateDocument by {
            assert(prefix[i] == events[i]);
        }
        lemma_burst_keeps_last_document(prefix);
        assert(accumulate_all(empty_accumulator(), prefix).diff_base is None);
    } else {
        assert(events.drop_last() =~= Seq::<Event>::empty());
        assert(accumulate_all(empty_accumulator(), events.drop_last()) == empty_accumulator());
    }
    assert(events[events.len() - 1] is UpdateDocument);
    assert(accumulate_all(empty_accumulator(), events) == accumulate(
        accumulate_all(empty_accumulator(), events.drop_last()),
        events.last(),
    ));
}

} // verus!
