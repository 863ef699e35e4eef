//! A recorder of spans and events, for tests that check what was traced.
//!
//! Spans get the identifiers 1, 2, 3, ... in the order in which they are
//! created. A span's parent is the span that was current (entered last and
//! not yet exited) when it was created. An event belongs to the current
//! span, or to no span when none is current. The history arranges the spans
//! as a forest: the spans without a parent at its roots, and under each span
//! its children in the order of their creation.
use crate::fields::{FieldMap, HashMapFieldCollector};
use crate::trace_source::{attributes_metadata, event_metadata};
use tracing::span::Attributes;
use tracing::Event;
use vstd::prelude::*;

verus! {

/// How important a span or an event is.
#[derive(Clone, Copy, Debug, PartialEq, Eq, Structural)]
pub enum Level {
    Trace,
    Debug,
    Info,
    Warn,
    Error,
}

/// The recorded name and level of a span or an event.
#[derive(Debug)]
pub struct RecordedMetadata {
    name: String,
    level: Level,
}

/// The view of a [`RecordedMetadata`].
pub struct MetadataView {
    pub name: Seq<char>,
    pub level: Level,
}

impl View for RecordedMetadata {
    type V = MetadataView;

    closed spec fn view(&self) -> MetadataView {
        MetadataView { name: self.name@, level: self.level }
    }
}

impl RecordedMetadata {
    /// Metadata with the given name and level.
    pub fn new(name: String, level: Level) -> (r: Self)
        ensures
            r@ == (MetadataView { name: name@, level }),
    {
        RecordedMetadata { name, level }
    }

    /// The name of the span or the event.
    pub fn name(&self) -> (r: &str)
        ensures
            r@ == self@.name,
    {
        self.name.as_str()
    }

    /// The level of the span or the event.
    pub fn level(&self) -> (r: &Level)
        ensures
            *r == self@.level,
    {
        &self.level
    }
}

impl Clone for RecordedMetadata {
    fn clone(&self) -> (r: Self)
        ensures
            r@ == self@,
    {
        RecordedMetadata { name: self.name.clone(), level: self.level }
    }
}

/// The view of what was recorded of a span's attributes or of an event.
pub struct RecordView {
    pub metadata: MetadataView,
    pub fields: Map<Seq<char>, Seq<char>>,
}

/// What was recorded of a span when it was created.
#[derive(Debug)]
pub struct SpanAttributes {
    pub metadata: RecordedMetadata,
    pub fields: FieldMap,
}

impl View for SpanAttributes {
    type V = RecordView;

    open spec fn view(&self) -> RecordView {
        RecordView { metadata: self.metadata@, fields: self.fields@ }
    }
}

impl SpanAttributes {
    /// What a subscriber records of the attributes of a new span: its
    /// metadata and its fields.
    pub fn from_attributes(value: &Attributes) -> SpanAttributes {
        SpanAttributes {
            metadata: attributes_metadata(value),
            fields: HashMapFieldCollector::collect_span_fields(value),
        }
    }
}

impl Clone for SpanAttributes {
    fn clone(&self) -> (r: Self)
        ensures
            r@ == self@,
    {
        SpanAttributes { metadata: self.metadata.clone(), fields: self.fields.clone() }
    }
}

/// What was recorded of an event.
#[derive(Debug)]
pub struct RecordedEvent {
    pub metadata: RecordedMetadata,
    pub fields: FieldMap,
}

impl View for RecordedEvent {
    type V = RecordView;

    open spec fn view(&self) -> RecordView {
        RecordView { metadata: self.metadata@, fields: self.fields@ }
    }
}

impl RecordedEvent {
    /// What a subscriber records of an event: its metadata and its fields.
    pub fn from_event(value: &Event) -> RecordedEvent {
        RecordedEvent { metadata: event_metadata(value), fields: HashMapFieldCollector::collect_event_fields(value) }
    }
}

impl Clone for RecordedEvent {
    fn clone(&self) -> (r: Self)
        ensures
            r@ == self@,
    {
        RecordedEvent { metadata: self.metadata.clone(), fields: self.fields.clone() }
    }
}

/// The views of a sequence of events.
pub open spec fn events_view(events: Seq<RecordedEvent>) -> Seq<RecordView> {
    events.map_values(|e: RecordedEvent| e@)
}

/// Copies a list of events.
fn clone_events(events: &Vec<RecordedEvent>) -> (r: Vec<RecordedEvent>)
    ensures
        events_view(r@) == events_view(events@),
{
    let mut r: Vec<RecordedEvent> = Vec::new();
    let mut i: usize = 0;
    while i < events.len()
        invariant
            i <= events@.len(),
            r@.len() == i,
            forall|j: int| 0 <= j < i ==> #[trigger] r@[j]@ == events@[j]@,
        decreases events.len() - i,
    {
        r.push(events[i].clone());
        i = i + 1;
    }
    assert(events_view(r@) =~= events_view(events@));
    r
}

/// A span as it was recorded: its identifier, its parent's, the spans that
/// it follows from, its attributes and the events inside it.
#[derive(Debug)]
pub struct FlatSpan {
    pub span_id: u64,
    pub parent_id: Option<u64>,
    pub follows_ids: Vec<u64>,
    pub attributes: SpanAttributes,
    pub events: Vec<RecordedEvent>,
}

/// The view of a [`FlatSpan`].
pub struct FlatSpanView {
    pub span_id: u64,
    pub parent_id: Option<u64>,
    pub follows_ids: Seq<u64>,
    pub attributes: RecordView,
    pub events: Seq<RecordView>,
}

impl View for FlatSpan {
    type V = FlatSpanView;

    open spec fn view(&self) -> FlatSpanView {
        FlatSpanView {
            span_id: self.span_id,
            parent_id: self.parent_id,
            follows_ids: self.follows_ids@,
            attributes: self.attributes@,
            events: events_view(self.events@),
        }
    }
}

impl Clone for FlatSpan {
    fn clone(&self) -> (r: Self)
        ensures
            r@ == self@,
    {
        let follows_ids = self.follows_ids.clone();
        assert(follows_ids@ =~= self.follows_ids@);
        FlatSpan {
            span_id: self.span_id,
            parent_id: self.parent_id,
            follows_ids,
            attributes: self.attributes.clone(),
            events: clone_events(&self.events),
        }
    }
}

/// The views of a sequence of spans.
pub open spec fn spans_view(spans: Seq<FlatSpan>) -> Seq<FlatSpanView> {
    spans.map_values(|s: FlatSpan| s@)
}

/// A span of the history with the spans created inside it.
pub struct HistoryTree {
    pub span: FlatSpanView,
    pub spans: Seq<HistoryTree>,
}

/// The view of a [`SubscriberHistory`].
pub struct HistoryView {
    pub spans: Seq<HistoryTree>,
    pub root_events: Seq<RecordView>,
}

/// Spans numbered in creation order, each with a parent created before it.
pub open spec fn spans_well_formed(spans: Seq<FlatSpanView>) -> bool {
    forall|i: int|
        0 <= i < spans.len() ==> (#[trigger] spans[i]).span_id == i + 1 && (spans[i].parent_id matches Some(
            p,
        ) ==> 1 <= p <= i)
}

/// The positions in `lo..hi` of the spans whose parent is `id`, ascending.
pub open spec fn child_indices(spans: Seq<FlatSpanView>, id: u64, hi: int) -> Seq<int>
    decreases hi,
{
    if hi <= 0 {
        Seq::empty()
    } else if spans[hi - 1].parent_id == Some(id) {
        child_indices(spans, id, hi - 1).push(hi - 1)
    } else {
        child_indices(spans, id, hi - 1)
    }
}

/// The positions below `hi` of the spans without a parent, ascending.
pub open spec fn root_indices(spans: Seq<FlatSpanView>, hi: int) -> Seq<int>
    decreases hi,
{
    if hi <= 0 {
        Seq::empty()
    } else if spans[hi - 1].parent_id is None {
        root_indices(spans, hi - 1).push(hi - 1)
    } else {
        root_indices(spans, hi - 1)
    }
}

/// The span at position `i` with, under it, the histories of its children.
pub open spec fn span_history(spans: Seq<FlatSpanView>, i: int) -> HistoryTree
    decreases spans.len() - i, 1int, 0int,
{
    if 0 <= i < spans.len() {
        HistoryTree {
            span: spans[i],
            spans: span_histories(spans, child_indices(spans, spans[i].span_id, spans.len() as int), i),
        }
    } else {
        arbitrary()
    }
}

/// The histories of the spans at the positions `idxs`, which all lie after
/// `above`.
pub open spec fn span_histories(spans: Seq<FlatSpanView>, idxs: Seq<int>, above: int) -> Seq<
    HistoryTree,
>
    decreases spans.len() - above, 0int, idxs.len(),
{
    if idxs.len() == 0 {
        Seq::empty()
    } else if above < idxs.last() < spans.len() {
        span_histories(spans, idxs.drop_last(), above).push(span_history(spans, idxs.last()))
    } else {
        Seq::empty()
    }
}

/// The history of every span without a parent.
pub open spec fn history_of(spans: Seq<FlatSpanView>, root_events: Seq<RecordView>) -> HistoryView {
    HistoryView {
        spans: span_histories(spans, root_indices(spans, spans.len() as int), -1),
        root_events,
    }
}

/// A span of the history, with the spans created inside it.
#[derive(Debug)]
pub struct HistorySpan {
    pub span: FlatSpan,
    pub spans: Vec<HistorySpan>,
}

impl std::ops::Deref for HistorySpan {
    type Target = FlatSpan;

    fn deref(&self) -> (r: &FlatSpan)
        ensures
            r == self.span,
    {
        &self.span
    }
}

/// `h` holds the history `t`.
pub open spec fn represents(h: HistorySpan, t: HistoryTree) -> bool
    decreases t,
{
    h.span@ == t.span && represents_all(h.spans@, t.spans)
}

/// `hs` hold the histories `ts`, one each.
pub open spec fn represents_all(hs: Seq<HistorySpan>, ts: Seq<HistoryTree>) -> bool
    decreases ts,
{
    hs.len() == ts.len() && (ts.len() == 0 || (represents_all(hs.drop_last(), ts.drop_last())
        && represents(hs.last(), ts.last())))
}

/// The recorded history: the spans without a parent, each with the spans
/// created inside it, and the events that no span held.
#[derive(Debug)]
pub struct SubscriberHistory {
    pub spans: Vec<HistorySpan>,
    pub root_events: Vec<RecordedEvent>,
}

/// Records spans and events as they are created, entered and exited.
#[derive(Debug)]
pub struct TestSubscriber {
    /// All spans.
    spans: Vec<FlatSpan>,
    /// Events which were emitted outside of any span.
    events: Vec<RecordedEvent>,
    /// The current stack of spans. First element corresponds to the
    /// outer-most span.
    stack: Vec<u64>,
}

/// The view of a [`TestSubscriber`].
pub struct SubscriberView {
    pub spans: Seq<FlatSpanView>,
    pub events: Seq<RecordView>,
    pub stack: Seq<u64>,
}

impl View for TestSubscriber {
    type V = SubscriberView;

    closed spec fn view(&self) -> SubscriberView {
        SubscriberView {
            spans: spans_view(self.spans@),
            events: events_view(self.events@),
            stack: self.stack@,
        }
    }
}

impl Default for TestSubscriber {
    fn default() -> (r: Self)
        ensures
            r@.spans == Seq::<FlatSpanView>::empty(),
            r@.events == Seq::<RecordView>::empty(),
            r@.stack == Seq::<u64>::empty(),
    {
        TestSubscriber::new()
    }
}

/// The span that is current: the last one entered and not yet exited.
pub open spec fn current_span(stack: Seq<u64>) -> Option<u64> {
    if stack.len() == 0 {
        None
    } else {
        Some(stack.last())
    }
}

impl TestSubscriber {
    /// Spans are numbered in creation order, have earlier parents, and
    /// only recorded spans are entered.
    #[verifier::type_invariant]
    closed spec fn inv(&self) -> bool {
        &&& spans_well_formed(spans_view(self.spans@))
        &&& forall|k: int|
            0 <= k < self.stack@.len() ==> 1 <= #[trigger] self.stack@[k] <= self.spans@.len()
    }

    /// A subscriber that has recorded nothing.
    pub fn new() -> (r: Self)
        ensures
            r@.spans == Seq::<FlatSpanView>::empty(),
            r@.events == Seq::<RecordView>::empty(),
            r@.stack == Seq::<u64>::empty(),
    {
        let r = TestSubscriber { spans: Vec::new(), events: Vec::new(), stack: Vec::new() };
        assert(spans_view(r.spans@) =~= Seq::<FlatSpanView>::empty());
        assert(events_view(r.events@) =~= Seq::<RecordView>::empty());
        r
    }

    /// Whether a span with identifier `span` was recorded.
    pub fn has_span(&self, span: u64) -> (r: bool)
        ensures
            r == (1 <= span <= self@.spans.len()),
    {
        1 <= span && span - 1 < self.spans.len() as u64
    }

    /// The number of spans recorded.
    pub fn span_count(&self) -> (r: usize)
        ensures
            r == self@.spans.len(),
    {
        self.spans.len()
    }

    /// The identifier that the next span gets.
    fn next_span_id(&self) -> (r: u64)
        requires
            self@.spans.len() < u64::MAX,
        ensures
            r == self@.spans.len() + 1,
    {
        self.spans.len() as u64 + 1
    }

    /// The span that is current, if any.
    pub fn current_span_id(&self) -> (r: Option<u64>)
        ensures
            r == current_span(self@.stack),
    {
        if self.stack.len() == 0 {
            None
        } else {
            Some(self.stack[self.stack.len() - 1])
        }
    }

    /// Takes the recorder's parts out, leaving it empty.
    fn take_parts(&mut self) -> (r: (Vec<FlatSpan>, Vec<RecordedEvent>, Vec<u64>))
        ensures
            spans_view(r.0@) == old(self)@.spans,
            events_view(r.1@) == old(self)@.events,
            r.2@ == old(self)@.stack,
            spans_well_formed(spans_view(r.0@)),
            forall|k: int| 0 <= k < r.2@.len() ==> 1 <= #[trigger] r.2@[k] <= r.0@.len(),
    {
        let mut me = TestSubscriber::new();
        std::mem::swap(&mut me, self);
        proof {
            use_type_invariant(&me);
        }
        let TestSubscriber { spans, events, stack } = me;
        (spans, events, stack)
    }

    /// Records a new span inside the current span, and returns its
    /// identifier.
    pub fn new_span(&mut self, attributes: SpanAttributes) -> (r: u64)
        requires
            old(self)@.spans.len() < u64::MAX,
        ensures
            r == old(self)@.spans.len() + 1,
            final(self)@.spans == old(self)@.spans.push(
                FlatSpanView {
                    span_id: r,
                    parent_id: current_span(old(self)@.stack),
                    follows_ids: Seq::empty(),
                    attributes: attributes@,
                    events: Seq::empty(),
                },
            ),
            final(self)@.events == old(self)@.events,
            final(self)@.stack == old(self)@.stack,
    {
        let span_id = self.next_span_id();
        let parent_id = self.current_span_id();
        let span = FlatSpan {
            span_id,
            parent_id,
            follows_ids: Vec::new(),
            attributes,
            events: Vec::new(),
        };
        proof {
            assert(span@.follows_ids =~= Seq::<u64>::empty());
            assert(span@.events =~= Seq::<RecordView>::empty());
        }
        let (mut spans, events, stack) = self.take_parts();
        let ghost old_spans = spans@;
        spans.push(span);
        proof {
            assert(spans_view(spans@) =~= spans_view(old_spans).push(span@));
            assert(spans_view(spans@)[old_spans.len() as int] == span@);
        }
        *self = TestSubscriber { spans, events, stack };
        span_id
    }

    /// Records that the span `span` follows from the span `follows`.
    pub fn record_follows_from(&mut self, span: u64, follows: u64)
        requires
            1 <= span <= old(self)@.spans.len(),
        ensures
            final(self)@.spans == old(self)@.spans.update(
                span - 1,
                FlatSpanView {
                    follows_ids: old(self)@.spans[span - 1].follows_ids.push(follows),
                    ..old(self)@.spans[span - 1]
                },
            ),
            final(self)@.events == old(self)@.events,
            final(self)@.stack == old(self)@.stack,
    {
        let (mut spans, events, stack) = self.take_parts();
        let n = spans.len();
        assert(span - 1 < n);
        let i = (span - 1) as usize;
        let ghost old_spans = spans@;
        let mut s = spans.remove(i);
        s.follows_ids.push(follows);
        spans.insert(i, s);
        proof {
            assert(spans_view(spans@) =~= spans_view(old_spans).update(
                i as int,
                FlatSpanView {
                    follows_ids: spans_view(old_spans)[i as int].follows_ids.push(follows),
                    ..spans_view(old_spans)[i as int]
                },
            ));
        }
        *self = TestSubscriber { spans, events, stack };
    }

    /// Records an event: inside the current span if there is one, else
    /// among the events that no span holds.
    pub fn event(&mut self, event: RecordedEvent)
        ensures
            match current_span(old(self)@.stack) {
                Some(id) => {
                    &&& final(self)@.spans == old(self)@.spans.update(
                        id - 1,
                        FlatSpanView {
                            events: old(self)@.spans[id - 1].events.push(event@),
                            ..old(self)@.spans[id - 1]
                        },
                    )
                    &&& final(self)@.events == old(self)@.events
                },
                None => {
                    &&& final(self)@.spans == old(self)@.spans
                    &&& final(self)@.events == old(self)@.events.push(event@)
                },
            },
            final(self)@.stack == old(self)@.stack,
    {
        let current = self.current_span_id();
        let (mut spans, mut events, stack) = self.take_parts();
        match current {
            Some(id) => {
                let n = spans.len();
                assert(1 <= id <= n) by {
                    assert(stack@[stack@.len() - 1] == id);
                }
                let i = (id - 1) as usize;
                let ghost old_spans = spans@;
                let mut s = spans.remove(i);
                let ghost old_events = s.events@;
                s.events.push(event);
                proof {
                    assert(events_view(s.events@) =~= events_view(old_events).push(event@));
                }
                spans.insert(i, s);
                proof {
                    assert(spans_view(spans@) =~= spans_view(old_spans).update(
                        i as int,
                        FlatSpanView {
                            events: spans_view(old_spans)[i as int].events.push(event@),
                            ..spans_view(old_spans)[i as int]
                        },
                    ));
                }
            },
            None => {
                let ghost old_events = events@;
                events.push(event);
                proof {
                    assert(events_view(events@) =~= events_view(old_events).push(event@));
                }
            },
        }
        *self = TestSubscriber { spans, events, stack };
    }

    /// Makes the span `span` the current one; a span that was never
    /// recorded leaves the recorder as it was.
    pub fn enter(&mut self, span: u64)
        ensures
            1 <= span <= old(self)@.spans.len() ==> final(self)@.stack == old(self)@.stack.push(
                span,
            ),
            !(1 <= span <= old(self)@.spans.len()) ==> final(self)@.stack == old(self)@.stack,
            final(self)@.spans == old(self)@.spans,
            final(self)@.events == old(self)@.events,
    {
        if !self.has_span(span) {
            return ;
        }
        let (spans, events, mut stack) = self.take_parts();
        stack.push(span);
        *self = TestSubscriber { spans, events, stack };
    }

    /// Leaves the span `span`: every entry of it is taken off the stack.
    pub fn exit(&mut self, span: u64)
        ensures
            final(self)@.stack == old(self)@.stack.filter(|s: u64| s != span),
            final(self)@.spans == old(self)@.spans,
            final(self)@.events == old(self)@.events,
    {
        let (spans, events, stack) = self.take_parts();
        let ghost old_stack = stack@;
        let mut kept: Vec<u64> = Vec::new();
        let mut i: usize = 0;
        while i < stack.len()
            invariant
                stack@ == old_stack,
                i <= old_stack.len(),
                kept@ == old_stack.take(i as int).filter(|s: u64| s != span),
                forall|k: int| 0 <= k < old_stack.len() ==> 1 <= #[trigger] old_stack[k] <= spans@.len(),
                forall|k: int| 0 <= k < kept@.len() ==> 1 <= #[trigger] kept@[k] <= spans@.len(),
            decreases stack.len() - i,
        {
            proof {
                assert(old_stack.take(i + 1) =~= old_stack.take(i as int).push(old_stack[i as int]));
                old_stack.take(i as int).lemma_filter_push(old_stack[i as int], |s: u64| s != span);
            }
            if stack[i] != span {
                kept.push(stack[i]);
            }
            i = i + 1;
        }
        proof {
            assert(old_stack.take(i as int) =~= old_stack);
        }
        *self = TestSubscriber { spans, events, stack: kept };
    }

    /// The recorded history: every span without a parent with the spans
    /// created inside it, and the events that no span held.
    pub fn history(&self) -> (r: SubscriberHistory)
        ensures
            represents_all(r.spans@, history_of(self@.spans, self@.events).spans),
            events_view(r.root_events@) == self@.events,
    {
        proof {
            use_type_invariant(self);
        }
        let ghost v = spans_view(self.spans@);
        let mut roots: Vec<HistorySpan> = Vec::new();
        let mut i: usize = 0;
        while i < self.spans.len()
            invariant
                v == spans_view(self.spans@),
                spans_well_formed(v),
                i <= v.len(),
                represents_all(roots@, span_histories(v, root_indices(v, i as int), -1)),
            decreases self.spans.len() - i,
        {
            if self.spans[i].parent_id.is_none() {
                let ghost before = roots@;
                let tree = span_history_at(&self.spans, i);
                roots.push(tree);
                proof {
                    let idxs = root_indices(v, i as int);
                    assert(root_indices(v, i + 1) == idxs.push(i as int));
                    assert(idxs.push(i as int).drop_last() =~= idxs);
                    let ts = span_histories(v, idxs, -1);
                    assert(span_histories(v, idxs.push(i as int), -1) == ts.push(
                        span_history(v, i as int),
                    ));
                    assert(roots@.drop_last() =~= before);
                    assert(ts.push(span_history(v, i as int)).drop_last() =~= ts);
                    assert(represents_all(roots@, ts.push(span_history(v, i as int))));
                }
            } else {
                proof {
                    assert(root_indices(v, i + 1) == root_indices(v, i as int));
                }
            }
            i = i + 1;
        }
        SubscriberHistory { spans: roots, root_events: clone_events(&self.events) }
    }
}

/// The history of the span at position `i` of `spans`.
fn span_history_at(spans: &Vec<FlatSpan>, i: usize) -> (h: HistorySpan)
    requires
        spans_well_formed(spans_view(spans@)),
        i < spans@.len(),
    ensures
        represents(h, span_history(spans_view(spans@), i as int)),
    decreases spans@.len() - i,
{
    let ghost v = spans_view(spans@);
    let id = spans[i].span_id;
    let mut children: Vec<HistorySpan> = Vec::new();
    let mut j: usize = 0;
    while j < spans.len()
        invariant
            v == spans_view(spans@),
            spans_well_formed(v),
            i < v.len(),
            id == v[i as int].span_id,
            j <= v.len(),
            represents_all(children@, span_histories(v, child_indices(v, id, j as int), i as int)),
        decreases spans.len() - j,
    {
        let is_child = match spans[j].parent_id {
            Some(p) => p == id,
            None => false,
        };
        if is_child {
            let ghost before = children@;
            assert(v[j as int].parent_id == Some(id));
            let child = span_history_at(spans, j);
            children.push(child);
            proof {
                let idxs = child_indices(v, id, j as int);
                assert(child_indices(v, id, j + 1) == idxs.push(j as int));
                assert(idxs.push(j as int).drop_last() =~= idxs);
                assert(i < j);
                let ts = span_histories(v, idxs, i as int);
                assert(span_histories(v, idxs.push(j as int), i as int) == ts.push(
                    span_history(v, j as int),
                ));
                assert(children@.drop_last() =~= before);
                assert(ts.push(span_history(v, j as int)).drop_last() =~= ts);
                assert(represents_all(children@, ts.push(span_history(v, j as int))));
            }
        } else {
            proof {
                assert(child_indices(v, id, j + 1) == child_indices(v, id, j as int));
            }
        }
        j = j + 1;
    }
    HistorySpan { span: spans[i].clone(), spans: children }
}

} // verus!

verus! {

/// The children of a span, as the history lists them, are exactly the
/// spans whose parent it is, in the order in which they were created.
pub proof fn law_children_in_creation_order(spans: Seq<FlatSpanView>, id: u64, hi: int)
    requires
        0 <= hi <= spans.len(),
    ensures
        forall|k: int|
            0 <= k < child_indices(spans, id, hi).len() ==> 0 <= #[trigger] child_indices(
                spans,
                id,
                hi,
            )[k] < hi && spans[child_indices(spans, id, hi)[k]].parent_id == Some(id),
        forall|j: int|
            0 <= j < hi && spans[j].parent_id == Some(id) ==> #[trigger] child_indices(
                spans,
                id,
                hi,
            ).contains(j),
        forall|a: int, b: int|
            0 <= a < b < child_indices(spans, id, hi).len() ==> #[trigger] child_indices(
                spans,
                id,
                hi,
            )[a] < #[trigger] child_indices(spans, id, hi)[b],
    decreases hi,
{
    if hi > 0 {
        law_children_in_creation_order(spans, id, hi - 1);
        let prev = child_indices(spans, id, hi - 1);
        if spans[hi - 1].parent_id == Some(id) {
            let now = prev.push(hi - 1);
            assert(child_indices(spans, id, hi) == now);
            assert forall|j: int| 0 <= j < hi && spans[j].parent_id == Some(id) implies now.contains(
                j,
            ) by {
                if j < hi - 1 {
                    assert(prev.contains(j));
                    let k = choose|k: int| 0 <= k < prev.len() && prev[k] == j;
                    assert(now[k] == j);
                } else {
                    assert(now[prev.len() as int] == j);
                }
            }
        } else {
            assert forall|j: int| 0 <= j < hi && spans[j].parent_id == Some(id) implies prev.contains(
                j,
            ) by {
                assert(j < hi - 1);
            }
        }
    }
}

/// The roots of the history are exactly the spans without a parent, in the
/// order in which they were created.
pub proof fn law_roots_in_creation_order(spans: Seq<FlatSpanView>, hi: int)
    requires
        0 <= hi <= spans.len(),
    ensures
        forall|k: int|
            0 <= k < root_indices(spans, hi).len() ==> 0 <= #[trigger] root_indices(spans, hi)[k] < hi
                && spans[root_indices(spans, hi)[k]].parent_id is None,
        forall|j: int|
            0 <= j < hi && spans[j].parent_id is None ==> #[trigger] root_indices(spans, hi).contains(j),
        forall|a: int, b: int|
            0 <= a < b < root_indices(spans, hi).len() ==> #[trigger] root_indices(spans, hi)[a]
                < #[trigger] root_indices(spans, hi)[b],
    decreases hi,
{
    if hi > 0 {
        law_roots_in_creation_order(spans, hi - 1);
        let prev = root_indices(spans, hi - 1);
        if spans[hi - 1].parent_id is None {
            let now = prev.push(hi - 1);
            assert(root_indices(spans, hi) == now);
            assert forall|j: int| 0 <= j < hi && spans[j].parent_id is None implies now.contains(j) by {
                if j < hi - 1 {
                    assert(prev.contains(j));
                    let k = choose|k: int| 0 <= k < prev.len() && prev[k] == j;
                    assert(now[k] == j);
                } else {
                    assert(now[prev.len() as int] == j);
                }
            }
        } else {
            assert forall|j: int| 0 <= j < hi && spans[j].parent_id is None implies prev.contains(j) by {
                assert(j < hi - 1);
            }
        }
    }
}

/// Exiting a span that was entered once undoes the entering.
pub proof fn law_exit_undoes_enter(stack: Seq<u64>, span: u64)
    requires
        !stack.contains(span),
    ensures
        stack.push(span).filter(|s: u64| s != span) == stack,
    decreases stack.len(),
{
    stack.lemma_filter_push(span, |s: u64| s != span);
    lemma_filter_keeps_all(stack, span);
}

proof fn lemma_filter_keeps_all(stack: Seq<u64>, span: u64)
    requires
        !stack.contains(span),
    ensures
        stack.filter(|s: u64| s != span) == stack,
    decreases stack.len(),
{
    reveal(Seq::filter);
    if stack.len() > 0 {
        assert(!stack.drop_last().contains(span)) by {
            if stack.drop_last().contains(span) {
                let k = choose|k: int| 0 <= k < stack.drop_last().len() && stack.drop_last()[k] == span;
                assert(stack[k] == span);
            }
        }
        lemma_filter_keeps_all(stack.drop_last(), span);
        assert(stack.last() != span) by {
            assert(stack[stack.len() - 1] == stack.last());
        }
        assert(stack.drop_last().push(stack.last()) =~= stack);
    }
}

/// A span is the child of the span that was current when it was created,
/// and has no parent when none was current.
pub proof fn law_parent_is_current_span(
    before: SubscriberView,
    after: SubscriberView,
    attributes: RecordView,
    id: u64,
)
    requires
        id == before.spans.len() + 1,
        after.spans == before.spans.push(
            FlatSpanView {
                span_id: id,
                parent_id: current_span(before.stack),
                follows_ids: Seq::empty(),
                attributes,
                events: Seq::empty(),
            },
        ),
    ensures
        after.spans[id - 1].span_id == id,
        before.stack.len() == 0 ==> after.spans[id - 1].parent_id is None,
        before.stack.len() > 0 ==> after.spans[id - 1].parent_id == Some(before.stack.last()),
{
}

} // verus!

verus! {

proof fn lemma_span_histories_index(spans: Seq<FlatSpanView>, idxs: Seq<int>, above: int)
    requires
        forall|k: int| 0 <= k < idxs.len() ==> above < #[trigger] idxs[k] < spans.len(),
    ensures
        span_histories(spans, idxs, above).len() == idxs.len(),
        forall|k: int|
            0 <= k < idxs.len() ==> #[trigger] span_histories(spans, idxs, above)[k] == span_history(
                spans,
                idxs[k],
            ),
    decreases idxs.len(),
{
    if idxs.len() > 0 {
        let prev = idxs.drop_last();
        assert forall|k: int| 0 <= k < prev.len() implies above < #[trigger] prev[k] < spans.len() by {
            assert(prev[k] == idxs[k]);
        }
        lemma_span_histories_index(spans, prev, above);
        assert(idxs.last() == idxs[idxs.len() - 1]);
    }
}

/// In the history, a span holds exactly the spans whose parent it is, each
/// as its own history, in the order in which they were created.
pub proof fn law_history_follows_parents(spans: Seq<FlatSpanView>, i: int)
    requires
        spans_well_formed(spans),
        0 <= i < spans.len(),
    ensures
        span_history(spans, i).span == spans[i],
        span_history(spans, i).spans.len() == child_indices(
            spans,
            spans[i].span_id,
            spans.len() as int,
        ).len(),
        forall|k: int|
            0 <= k < span_history(spans, i).spans.len() ==> {
                let j = child_indices(spans, spans[i].span_id, spans.len() as int)[k];
                &&& i < j < spans.len()
                &&& #[trigger] span_history(spans, i).spans[k] == span_history(spans, j)
                &&& span_history(spans, i).spans[k].span.parent_id == Some(spans[i].span_id)
            },
{
    let id = spans[i].span_id;
    let idxs = child_indices(spans, id, spans.len() as int);
    law_children_in_creation_order(spans, id, spans.len() as int);
    assert forall|k: int| 0 <= k < idxs.len() implies i < #[trigger] idxs[k] < spans.len() by {
        let j = idxs[k];
        assert(spans[j].parent_id == Some(id));
        assert(spans[j].span_id == j + 1);
        assert(spans[i].span_id == i + 1);
    }
    lemma_span_histories_index(spans, idxs, i);
    assert forall|k: int| 0 <= k < span_history(spans, i).spans.len() implies {
        let j = child_indices(spans, spans[i].span_id, spans.len() as int)[k];
        &&& i < j < spans.len()
        &&& #[trigger] span_history(spans, i).spans[k] == span_history(spans, j)
        &&& span_history(spans, i).spans[k].span.parent_id == Some(spans[i].span_id)
    } by {
        let j = idxs[k];
        assert(i < j < spans.len());
        assert(span_history(spans, i).spans[k] == span_history(spans, j));
        assert(span_history(spans, j).span == spans[j]);
        assert(spans[j].parent_id == Some(id));
    }
}

/// The history's top level holds exactly the spans without a parent, each
/// as its own history, in the order in which they were created.
pub proof fn law_history_roots(spans: Seq<FlatSpanView>, root_events: Seq<RecordView>)
    requires
        spans_well_formed(spans),
    ensures
        history_of(spans, root_events).root_events == root_events,
        history_of(spans, root_events).spans.len() == root_indices(spans, spans.len() as int).len(),
        forall|k: int|
            0 <= k < history_of(spans, root_events).spans.len() ==> {
                let j = root_indices(spans, spans.len() as int)[k];
                &&& 0 <= j < spans.len()
                &&& #[trigger] history_of(spans, root_events).spans[k] == span_history(spans, j)
                &&& history_of(spans, root_events).spans[k].span.parent_id is None
            },
{
    let idxs = root_indices(spans, spans.len() as int);
    law_roots_in_creation_order(spans, spans.len() as int);
    assert forall|k: int| 0 <= k < idxs.len() implies -1 < #[trigger] idxs[k] < spans.len() by {}
    lemma_span_histories_index(spans, idxs, -1);
    assert forall|k: int| 0 <= k < history_of(spans, root_events).spans.len() implies {
        let j = root_indices(spans, spans.len() as int)[k];
        &&& 0 <= j < spans.len()
        &&& #[trigger] history_of(spans, root_events).spans[k] == span_history(spans, j)
        &&& history_of(spans, root_events).spans[k].span.parent_id is None
    } by {
        let j = idxs[k];
        assert(span_history(spans, j).span == spans[j]);
    }
}

} // verus!
