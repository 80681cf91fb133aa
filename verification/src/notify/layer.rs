//! The way of an event: from the log to a message.

use vstd::prelude::*;

use crate::clock::{seconds, Duration};
use crate::iam::key_set::elapsed;
use crate::json::{Json, JsonView};
use crate::notify::format::{
    batch_text, event_blocks, event_json, format_batch, format_line, line_json, line_text,
    line_texts, single_line_blocks,
};
use crate::notify::provider::{rule_view, RoutingProvider};
use crate::notify::rule::{RoutingRule, RuleView, SampleRate};
use crate::notify::state::{
    build_dedup_key, inherited, is_repeat, key_values, merge_fields,
    repeats_are_told_by_their_key, sighted, span_views, BatchBuffer, BatchedLine, DedupKey,
    DedupTable, SpanFields,
};
use crate::notify::visit::NotifyVisitor;
pub use crate::notify_target::NOTIFY_TARGET;
use crate::string_map::{Pair, StringMap};
use crate::text::same;

verus! {

/// How often batches are looked at by default, in seconds.
pub const DEFAULT_FLUSH_TICK_SECS: u64 = 5;

// ---------------------------------------------------------------------------
// Events
// ---------------------------------------------------------------------------

/// An event that is a notification.
#[derive(Debug)]
pub struct NotifyEvent {
    /// Its name.
    pub name: String,
    /// Its fields, and those of the spans that it lies in.
    pub fields: StringMap,
}

/// The notification that a log event is, from its target, its own fields and the spans that
/// it lies in, the outermost first. An event of another target, or without a name, is none.
pub fn accept_event(target: &str, visit: NotifyVisitor, spans: &Vec<SpanFields>) -> (event: Option<
    NotifyEvent,
>)
    ensures
        match event {
            Some(event) => target@ == NOTIFY_TARGET@ && visit@.event_name == Some(event.name@)
                && event.fields@ == inherited(span_views(spans@), visit@.fields),
            None => target@ != NOTIFY_TARGET@ || visit@.event_name is None,
        },
{
    if !same(target, NOTIFY_TARGET) {
        return None;
    }
    match visit.event_name {
        Some(name) => {
            let fields = merge_fields(spans, &visit.fields);
            Some(NotifyEvent { name, fields })
        },
        None => None,
    }
}

// ---------------------------------------------------------------------------
// Sampling
// ---------------------------------------------------------------------------

/// The draw of the event of a number: 32 bits, spread evenly over the numbers.
pub open spec fn draw(counter: u64) -> int {
    ((counter as int * 0x9E37_79B9_7F4A_7C15) % 0x1_0000_0000_0000_0000) / 0x1_0000_0000
}

/// Whether an event goes out, of those that are sampled.
pub open spec fn sampled(rate: SampleRate, counter: u64) -> bool {
    match rate {
        SampleRate::Every => true,
        SampleRate::Never => false,
        SampleRate::Below(limit) => draw(counter) < limit,
    }
}

/// The number of the next event that is sampled. Where all or none go out, none is.
pub open spec fn next_counter(rate: SampleRate, counter: u64) -> u64 {
    match rate {
        SampleRate::Below(_) => if counter == u64::MAX {
            0
        } else {
            (counter + 1) as u64
        },
        _ => counter,
    }
}

fn sample(rate: SampleRate, counter: u64) -> (drawn: (bool, u64))
    ensures
        drawn.0 == sampled(rate, counter),
        drawn.1 == next_counter(rate, counter),
{
    match rate {
        SampleRate::Every => (true, counter),
        SampleRate::Never => (false, counter),
        SampleRate::Below(limit) => {
            let mixed: u64 = counter.wrapping_mul(0x9E37_79B9_7F4A_7C15);
            let drawn: u64 = mixed / 0x1_0000_0000;
            let next: u64 = if counter == u64::MAX { 0 } else { counter + 1 };
            (drawn < limit, next)
        },
    }
}

// ---------------------------------------------------------------------------
// Batches
// ---------------------------------------------------------------------------

/// The lines that wait for the next message of one kind of event.
pub struct BufferView {
    /// Where the message goes.
    pub channel: Seq<char>,
    /// For how long lines are gathered.
    pub interval: nat,
    /// The lines, each with the time since when it waits.
    pub lines: Seq<(nat, Seq<char>)>,
}

impl View for BatchBuffer {
    type V = BufferView;

    open spec fn view(&self) -> BufferView {
        BufferView {
            channel: self.channel@,
            interval: self.interval@,
            lines: Seq::new(
                self.lines@.len(),
                |i: int| (self.lines@[i].queued_at@, self.lines@[i].text@),
            ),
        }
    }
}

/// What waits: for each message that is to come, the name of its events and their lines.
pub type Waiting = Seq<(Seq<char>, BufferView)>;

/// What waits.
pub open spec fn buffer_views(buffers: Seq<(String, BatchBuffer)>) -> Waiting {
    Seq::new(buffers.len(), |i: int| (buffers[i].0@, buffers[i].1@))
}

/// Where the lines wait of one kind of event that go to one channel: the first such place,
/// or behind all that waits.
pub open spec fn buffer_index(waiting: Waiting, event: Seq<char>, channel: Seq<char>) -> int
    decreases waiting.len(),
{
    if waiting.len() == 0 || (waiting[0].0 == event && waiting[0].1.channel == channel) {
        0
    } else {
        1 + buffer_index(waiting.skip(1), event, channel)
    }
}

/// The lines that wait of one kind of event for one channel.
pub open spec fn buffer_of(waiting: Waiting, event: Seq<char>, channel: Seq<char>) -> Option<
    BufferView,
> {
    let at = buffer_index(waiting, event, channel);
    if 0 <= at < waiting.len() {
        Some(waiting[at].1)
    } else {
        None
    }
}

/// `buffer_index` is the place it is named for.
proof fn lemma_buffer_index(waiting: Waiting, event: Seq<char>, channel: Seq<char>)
    ensures
        0 <= buffer_index(waiting, event, channel) <= waiting.len(),
        buffer_index(waiting, event, channel) < waiting.len() ==> waiting[buffer_index(
            waiting,
            event,
            channel,
        )].0 == event && waiting[buffer_index(waiting, event, channel)].1.channel == channel,
        forall|k: int|
            0 <= k < buffer_index(waiting, event, channel) ==> !((#[trigger] waiting[k]).0 == event
                && waiting[k].1.channel == channel),
    decreases waiting.len(),
{
    if waiting.len() > 0 && !(waiting[0].0 == event && waiting[0].1.channel == channel) {
        lemma_buffer_index(waiting.skip(1), event, channel);
        assert forall|k: int| 0 <= k < buffer_index(waiting, event, channel) implies !((
        #[trigger] waiting[k]).0 == event && waiting[k].1.channel == channel) by {
            if k > 0 {
                assert(waiting.skip(1)[k - 1] == waiting[k]);
            }
        }
    }
}

/// The lines that wait after one more arrived.
pub open spec fn with_line(buffer: BufferView, line: Seq<char>, now: nat) -> BufferView {
    BufferView { lines: buffer.lines.push((now, line)), ..buffer }
}

/// What waits after a line was added. Lines wait together when they are of one kind of event
/// and go to one channel; for how long they are gathered, the very first of them decides.
pub open spec fn queued(
    waiting: Waiting,
    event: Seq<char>,
    channel: Seq<char>,
    interval: nat,
    line: Seq<char>,
    now: nat,
) -> Waiting {
    let at = buffer_index(waiting, event, channel);
    if at < waiting.len() {
        waiting.update(at, (event, with_line(waiting[at].1, line, now)))
    } else {
        let fresh = BufferView { channel, interval, lines: Seq::empty() };
        waiting.push((event, with_line(fresh, line, now)))
    }
}

/// Whether what waits is due: the oldest line has waited for long enough.
pub open spec fn is_ripe(buffer: BufferView, now: nat) -> bool {
    buffer.lines.len() > 0 && elapsed(buffer.lines[0].0, now) >= buffer.interval
}

/// What is left of what waits, after what is due went out.
pub open spec fn after_flush(buffer: BufferView, now: nat) -> BufferView {
    if is_ripe(buffer, now) {
        BufferView { lines: Seq::empty(), ..buffer }
    } else {
        buffer
    }
}

/// What still waits, after what is due went out.
pub open spec fn flushed(waiting: Waiting, now: nat) -> Waiting {
    Seq::new(waiting.len(), |i: int| (waiting[i].0, after_flush(waiting[i].1, now)))
}

/// The texts of lines that wait.
pub open spec fn waiting_texts(lines: Seq<(nat, Seq<char>)>) -> Seq<Seq<char>> {
    Seq::new(lines.len(), |i: int| lines[i].1)
}

/// A message: where it goes, and what it says.
pub type Post = (Seq<char>, JsonView);

/// The messages that are due.
pub open spec fn due_posts(waiting: Waiting, now: nat) -> Seq<Post>
    decreases waiting.len(),
{
    if waiting.len() == 0 {
        Seq::empty()
    } else if is_ripe(waiting.last().1, now) {
        let (event, buffer) = waiting.last();
        due_posts(waiting.drop_last(), now).push(
            (
                buffer.channel,
                line_json(event, batch_text(event, waiting_texts(buffer.lines))),
            ),
        )
    } else {
        due_posts(waiting.drop_last(), now)
    }
}

/// A message for Slack.
#[derive(Debug)]
pub struct SlackPost {
    /// Where it goes.
    pub channel: String,
    /// What it says.
    pub blocks: Json,
}

/// What a list of messages is.
pub open spec fn post_views(posts: Seq<SlackPost>) -> Seq<Post> {
    Seq::new(posts.len(), |i: int| (posts[i].channel@, posts[i].blocks@))
}

// ---------------------------------------------------------------------------
// Deciding
// ---------------------------------------------------------------------------

/// What becomes of an event.
#[derive(Debug)]
pub enum Delivery {
    /// Nothing.
    Dropped,
    /// It waits for the next message of its kind.
    Queued,
    /// It goes out by itself.
    Posted(SlackPost),
}

/// What becomes of an event.
pub enum DeliveryView {
    /// Nothing.
    Dropped,
    /// It waits for the next message of its kind.
    Queued,
    /// It goes out by itself.
    Posted(Post),
}

impl View for Delivery {
    type V = DeliveryView;

    open spec fn view(&self) -> DeliveryView {
        match *self {
            Delivery::Dropped => DeliveryView::Dropped,
            Delivery::Queued => DeliveryView::Queued,
            Delivery::Posted(post) => DeliveryView::Posted((post.channel@, post.blocks@)),
        }
    }
}

/// What is remembered between events.
pub struct LayerState {
    /// When keys last went out.
    pub dedup: Seq<(DedupKey, nat)>,
    /// What waits for the next message.
    pub waiting: Waiting,
    /// The number of the next event that is sampled.
    pub counter: u64,
}

/// The rule that applies to the events of a name: the provider's, or else the default one.
pub open spec fn rule_applied(routed: Option<RuleView>, fallback: Option<RuleView>) -> Option<
    RuleView,
> {
    match routed {
        Some(rule) => Some(rule),
        None => fallback,
    }
}

/// What becomes of an event, and what is remembered then. An event must have a rule that is
/// enabled in the environment; it must be among those that are sampled; it must not be a
/// repeat. It then waits for a message or goes out by itself, as the rule says.
pub open spec fn delivered(
    state: LayerState,
    rule: Option<RuleView>,
    environment: Seq<char>,
    event: Seq<char>,
    fields: Seq<Pair>,
    now: nat,
) -> (DeliveryView, LayerState) {
    match rule {
        None => (DeliveryView::Dropped, state),
        Some(rule) => if !rule.enabled || !rule.allows(environment) {
            (DeliveryView::Dropped, state)
        } else {
            let drawn = LayerState { counter: next_counter(rule.sample_rate, state.counter), ..state };
            if !sampled(rule.sample_rate, state.counter) {
                (DeliveryView::Dropped, drawn)
            } else {
                match rule.dedup {
                    Some((keys, window)) => {
                        let key = (event, key_values(keys, fields));
                        if is_repeat(state.dedup, key, window, now) {
                            (DeliveryView::Dropped, drawn)
                        } else {
                            sent(
                                LayerState { dedup: sighted(state.dedup, key, now), ..drawn },
                                rule,
                                event,
                                fields,
                                now,
                            )
                        }
                    },
                    None => sent(drawn, rule, event, fields, now),
                }
            }
        },
    }
}

/// What becomes of an event that is not dropped.
pub open spec fn sent(
    state: LayerState,
    rule: RuleView,
    event: Seq<char>,
    fields: Seq<Pair>,
    now: nat,
) -> (DeliveryView, LayerState) {
    match rule.batch {
        Some(interval) => (
            DeliveryView::Queued,
            LayerState {
                waiting: queued(
                    state.waiting,
                    event,
                    rule.channel,
                    interval,
                    line_text(event, fields),
                    now,
                ),
                ..state
            },
        ),
        None => (DeliveryView::Posted((rule.channel, event_json(event, fields))), state),
    }
}

/// Routes events. Times are readings of a clock that only goes forward.
pub struct NotifyLayer<R: RoutingProvider> {
    provider: R,
    environment: String,
    default_rule: Option<RoutingRule>,
    flush_tick: Duration,
    dedup: DedupTable,
    batches: Vec<(String, BatchBuffer)>,
    sample_counter: u64,
}

/// Makes a `NotifyLayer`.
pub struct NotifyLayerBuilder<R: RoutingProvider> {
    provider: R,
    environment: String,
    default_rule: Option<RoutingRule>,
    flush_tick: Duration,
}

impl<R: RoutingProvider> NotifyLayerBuilder<R> {
    /// Where rules come from.
    pub closed spec fn source(&self) -> R {
        self.provider
    }

    /// The environment.
    pub closed spec fn env(&self) -> Seq<char> {
        self.environment@
    }

    /// The rule for events without one.
    pub closed spec fn fallback(&self) -> Option<RuleView> {
        rule_view(self.default_rule)
    }

    /// How often batches are looked at.
    pub closed spec fn tick(&self) -> nat {
        self.flush_tick@
    }

    /// The same, with a rule for events without one.
    pub fn default_rule(self, rule: RoutingRule) -> (builder: Self)
        ensures
            builder.source() == self.source(),
            builder.env() == self.env(),
            builder.tick() == self.tick(),
            builder.fallback() == Some(rule@),
    {
        NotifyLayerBuilder {
            provider: self.provider,
            environment: self.environment,
            default_rule: Some(rule),
            flush_tick: self.flush_tick,
        }
    }

    /// The same, with batches looked at as often as given.
    pub fn flush_tick(self, tick: Duration) -> (builder: Self)
        ensures
            builder.source() == self.source(),
            builder.env() == self.env(),
            builder.tick() == tick@,
            builder.fallback() == self.fallback(),
    {
        NotifyLayerBuilder {
            provider: self.provider,
            environment: self.environment,
            default_rule: self.default_rule,
            flush_tick: tick,
        }
    }

    /// The layer.
    pub fn build(self) -> (layer: NotifyLayer<R>)
        ensures
            layer.source() == self.source(),
            layer.env() == self.env(),
            layer.fallback() == self.fallback(),
            layer.tick() == self.tick(),
            layer.state() == (LayerState {
                dedup: Seq::empty(),
                waiting: Seq::empty(),
                counter: 0,
            }),
    {
        let layer = NotifyLayer {
            provider: self.provider,
            environment: self.environment,
            default_rule: self.default_rule,
            flush_tick: self.flush_tick,
            dedup: DedupTable::new(),
            batches: Vec::new(),
            sample_counter: 0,
        };
        assert(layer.state().waiting =~= Seq::<(Seq<char>, BufferView)>::empty());
        layer
    }
}

impl<R: RoutingProvider> NotifyLayer<R> {
    /// Where rules come from.
    pub closed spec fn source(&self) -> R {
        self.provider
    }

    /// The environment.
    pub closed spec fn env(&self) -> Seq<char> {
        self.environment@
    }

    /// The rule for events without one.
    pub closed spec fn fallback(&self) -> Option<RuleView> {
        rule_view(self.default_rule)
    }

    /// How often batches are looked at.
    pub closed spec fn tick(&self) -> nat {
        self.flush_tick@
    }

    /// What is remembered between events.
    pub closed spec fn state(&self) -> LayerState {
        LayerState {
            dedup: self.dedup@,
            waiting: buffer_views(self.batches@),
            counter: self.sample_counter,
        }
    }

    /// A layer without a rule for events without one.
    pub fn new(provider: R, environment: &str) -> (layer: Self)
        ensures
            layer.source() == provider,
            layer.env() == environment@,
            layer.fallback() is None,
            layer.tick() == seconds(DEFAULT_FLUSH_TICK_SECS),
            layer.state() == (LayerState {
                dedup: Seq::empty(),
                waiting: Seq::empty(),
                counter: 0,
            }),
    {
        NotifyLayer::builder(provider, environment).build()
    }

    /// Starts to make a layer.
    pub fn builder(provider: R, environment: &str) -> (builder: NotifyLayerBuilder<R>)
        ensures
            builder.source() == provider,
            builder.env() == environment@,
            builder.fallback() is None,
            builder.tick() == seconds(DEFAULT_FLUSH_TICK_SECS),
    {
        NotifyLayerBuilder {
            provider,
            environment: environment.to_owned(),
            default_rule: None,
            flush_tick: Duration::from_secs(DEFAULT_FLUSH_TICK_SECS),
        }
    }

    /// How often batches are looked at.
    pub fn flush_tick(&self) -> (tick: Duration)
        ensures
            tick@ == self.tick(),
    {
        self.flush_tick
    }

    /// The number of the next event that is sampled.
    pub fn sample_counter(&self) -> (counter: u64)
        ensures
            counter == self.state().counter,
    {
        self.sample_counter
    }

    /// Where the lines wait of one kind of event that go to one channel.
    fn buffer_position(&self, event: &str, channel: &str) -> (at: usize)
        ensures
            at == buffer_index(self.state().waiting, event@, channel@),
            at <= self.batches.len(),
    {
        let ghost waiting = buffer_views(self.batches@);
        proof {
            lemma_buffer_index(waiting, event@, channel@);
        }
        let mut i: usize = 0;
        while i < self.batches.len()
            invariant
                i <= self.batches.len(),
                waiting == buffer_views(self.batches@),
                0 <= buffer_index(waiting, event@, channel@) <= waiting.len(),
                buffer_index(waiting, event@, channel@) < waiting.len() ==> waiting[buffer_index(
                    waiting,
                    event@,
                    channel@,
                )].0 == event@ && waiting[buffer_index(waiting, event@, channel@)].1.channel
                    == channel@,
                forall|k: int|
                    0 <= k < buffer_index(waiting, event@, channel@) ==> !((
                    #[trigger] waiting[k]).0 == event@ && waiting[k].1.channel == channel@),
                forall|k: int|
                    0 <= k < i ==> !((#[trigger] waiting[k]).0 == event@ && waiting[k].1.channel
                        == channel@),
            decreases self.batches.len() - i,
        {
            assert(waiting[i as int] == (self.batches@[i as int].0@, self.batches@[i as int].1@));
            if same(self.batches[i].0.as_str(), event) && same(
                self.batches[i].1.channel.as_str(),
                channel,
            ) {
                return i;
            }
            i += 1;
        }
        i
    }

    /// How many lines of a kind of event wait for a channel; nothing when none ever did.
    pub fn queued_lines(&self, event_name: &str, channel: &str) -> (lines: Option<usize>)
        ensures
            match buffer_of(self.state().waiting, event_name@, channel@) {
                Some(buffer) => lines matches Some(n) && n == buffer.lines.len(),
                None => lines is None,
            },
    {
        let at: usize = self.buffer_position(event_name, channel);
        if at < self.batches.len() {
            Some(self.batches[at].1.lines.len())
        } else {
            None
        }
    }

    fn enqueue_batch(&mut self, event: &str, channel: &str, interval: Duration, line: String, now: Duration)
        ensures
            final(self).state() == (LayerState {
                waiting: queued(
                    old(self).state().waiting,
                    event@,
                    channel@,
                    interval@,
                    line@,
                    now@,
                ),
                ..old(self).state()
            }),
            final(self).source() == old(self).source(),
            final(self).env() == old(self).env(),
            final(self).fallback() == old(self).fallback(),
            final(self).tick() == old(self).tick(),
    {
        let ghost before = self.batches@;
        let ghost waiting = buffer_views(before);
        proof {
            lemma_buffer_index(waiting, event@, channel@);
        }
        let at: usize = self.buffer_position(event, channel);
        let entry = BatchedLine { queued_at: now, text: line };
        let mut buffer = BatchBuffer::new(channel, interval);
        assert(buffer@.lines =~= Seq::empty());
        if at < self.batches.len() {
            assert(waiting[at as int] == (before[at as int].0@, before[at as int].1@));
            std::mem::swap(&mut self.batches[at].1, &mut buffer);
            let ghost held = buffer@;
            buffer.lines.push(entry);
            assert(buffer@.lines =~= held.lines.push((now@, line@)));
            let ghost grown = buffer;
            std::mem::swap(&mut self.batches[at].1, &mut buffer);
            assert(self.batches@[at as int].1 == grown);
            assert(buffer_views(self.batches@) =~= waiting.update(at as int, (event@, grown@)));
        } else {
            buffer.lines.push(entry);
            assert(buffer@.lines =~= Seq::empty().push((now@, line@)));
            let ghost grown = buffer;
            self.batches.push((event.to_owned(), buffer));
            assert(buffer_views(self.batches@) =~= waiting.push((event@, grown@)));
        }
    }

    /// Decides on an event, by the rule that the provider has for it now.
    pub fn dispatch(&mut self, event_name: &str, fields: &StringMap, now: Duration) -> (delivery:
        Delivery)
        ensures
            exists|routed: Option<RuleView>|
                #[trigger] old(self).source().may_route(event_name@, routed) && (
                    delivery@,
                    final(self).state(),
                ) == delivered(
                    old(self).state(),
                    rule_applied(routed, old(self).fallback()),
                    old(self).env(),
                    event_name@,
                    fields@,
                    now@,
                ),
            final(self).source() == old(self).source(),
            final(self).env() == old(self).env(),
            final(self).fallback() == old(self).fallback(),
            final(self).tick() == old(self).tick(),
    {
        let routed = self.provider.route_for(event_name);
        self.dispatch_routed(routed, event_name, fields, now)
    }

    /// Decides on an event, by the rule that was found for it.
    pub fn dispatch_routed(
        &mut self,
        routed: Option<RoutingRule>,
        event_name: &str,
        fields: &StringMap,
        now: Duration,
    ) -> (delivery: Delivery)
        ensures
            (delivery@, final(self).state()) == delivered(
                old(self).state(),
                rule_applied(rule_view(routed), old(self).fallback()),
                old(self).env(),
                event_name@,
                fields@,
                now@,
            ),
            final(self).source() == old(self).source(),
            final(self).env() == old(self).env(),
            final(self).fallback() == old(self).fallback(),
            final(self).tick() == old(self).tick(),
    {
        let rule = match routed {
            Some(rule) => rule,
            None => match &self.default_rule {
                Some(rule) => rule.dup(),
                None => {
                    return Delivery::Dropped;
                },
            },
        };
        if !rule.enabled || !rule.allows_env(self.environment.as_str()) {
            return Delivery::Dropped;
        }
        let (passes, counter) = sample(rule.sample_rate, self.sample_counter);
        self.sample_counter = counter;
        if !passes {
            return Delivery::Dropped;
        }
        match &rule.dedup {
            Some(dedup) => {
                let key = build_dedup_key(event_name, dedup.keys.as_slice(), fields);
                if !self.dedup.let_through(key.0.as_str(), key.1.as_str(), dedup.window, now) {
                    return Delivery::Dropped;
                }
            },
            None => {},
        }
        match &rule.batch {
            Some(batch) => {
                let line = format_line(event_name, fields);
                self.enqueue_batch(event_name, rule.channel.as_str(), batch.interval, line, now);
                Delivery::Queued
            },
            None => Delivery::Posted(
                SlackPost { channel: rule.channel, blocks: event_blocks(event_name, fields) },
            ),
        }
    }

    /// Takes out the messages that are due.
    pub fn flush_ripe_batches(&mut self, now: Duration) -> (posts: Vec<SlackPost>)
        ensures
            post_views(posts@) == due_posts(old(self).state().waiting, now@),
            final(self).state() == (LayerState {
                waiting: flushed(old(self).state().waiting, now@),
                ..old(self).state()
            }),
            final(self).source() == old(self).source(),
            final(self).env() == old(self).env(),
            final(self).fallback() == old(self).fallback(),
            final(self).tick() == old(self).tick(),
    {
        let ghost first = self.state();
        let ghost waiting = first.waiting;
        let count: usize = self.batches.len();
        let mut posts: Vec<SlackPost> = Vec::new();
        let mut i: usize = 0;
        assert(post_views(posts@) =~= Seq::<Post>::empty());
        assert(waiting.take(0) =~= Seq::<(Seq<char>, BufferView)>::empty());
        while i < count
            invariant
                i <= count,
                count == self.batches@.len(),
                waiting.len() == count,
                waiting == first.waiting,
                first == old(self).state(),
                post_views(posts@) == due_posts(waiting.take(i as int), now@),
                forall|k: int|
                    0 <= k < count ==> #[trigger] buffer_views(self.batches@)[k] == if k < i {
                        (waiting[k].0, after_flush(waiting[k].1, now@))
                    } else {
                        waiting[k]
                    },
                self.dedup@ == first.dedup,
                self.sample_counter == first.counter,
                self.source() == old(self).source(),
                self.env() == old(self).env(),
                self.fallback() == old(self).fallback(),
                self.tick() == old(self).tick(),
            decreases count - i,
        {
            let ghost before = self.batches@;
            let ghost sent_before = post_views(posts@);
            proof {
                assert(waiting.take(i + 1).drop_last() =~= waiting.take(i as int));
                assert(waiting.take(i + 1).last() == waiting[i as int]);
                assert(buffer_views(before)[i as int] == waiting[i as int]);
            }
            let buffer = &self.batches[i].1;
            assert(buffer@ == waiting[i as int].1);
            let ripe = if buffer.lines.len() == 0 {
                false
            } else {
                assert(buffer@.lines[0].0 == buffer.lines@[0].queued_at@);
                !now.less(buffer.lines[0].queued_at).shorter_than(buffer.interval)
            };
            assert(ripe == is_ripe(waiting[i as int].1, now@));
            if ripe {
                let event = self.batches[i].0.clone();
                let mut drained = BatchBuffer::new(buffer.channel.as_str(), buffer.interval);
                assert(drained@.lines =~= Seq::empty());
                std::mem::swap(&mut self.batches[i].1, &mut drained);
                assert(line_texts(drained.lines@) =~= waiting_texts(drained@.lines));
                let combined = format_batch(event.as_str(), drained.lines.as_slice());
                let blocks = single_line_blocks(event.as_str(), combined.as_str());
                posts.push(SlackPost { channel: drained.channel, blocks });
                proof {
                    assert(post_views(posts@) =~= sent_before.push(
                        (waiting[i as int].1.channel, blocks@),
                    ));
                    assert forall|k: int| 0 <= k < count implies #[trigger] buffer_views(
                        self.batches@,
                    )[k] == if k < i + 1 {
                        (waiting[k].0, after_flush(waiting[k].1, now@))
                    } else {
                        waiting[k]
                    } by {
                        if k != i {
                            assert(self.batches@[k] == before[k]);
                            assert(buffer_views(before)[k] == buffer_views(self.batches@)[k]);
                        }
                    }
                }
            }
            i += 1;
        }
        assert(waiting.take(i as int) =~= waiting);
        assert(buffer_views(self.batches@) =~= flushed(waiting, now@));
        posts
    }
}

// ---------------------------------------------------------------------------
// Laws
// ---------------------------------------------------------------------------

/// A line waits for the channel that it is meant for, behind those that were there before,
/// and whatever else waits is left alone.
pub proof fn lines_wait_for_their_own_channel(
    waiting: Waiting,
    event: Seq<char>,
    channel: Seq<char>,
    interval: nat,
    line: Seq<char>,
    now: nat,
    other_event: Seq<char>,
    other_channel: Seq<char>,
)
    ensures
        ({
            let after = queued(waiting, event, channel, interval, line, now);
            &&& buffer_of(after, event, channel) matches Some(buffer) && buffer.channel == channel
                && buffer.lines == match buffer_of(waiting, event, channel) {
                Some(before) => before.lines.push((now, line)),
                None => Seq::empty().push((now, line)),
            }
            &&& (other_event, other_channel) != (event, channel) ==> buffer_of(
                after,
                other_event,
                other_channel,
            ) == buffer_of(waiting, other_event, other_channel)
        }),
{
    let after = queued(waiting, event, channel, interval, line, now);
    lemma_buffer_index(waiting, event, channel);
    lemma_buffer_index(after, event, channel);
    let at = buffer_index(waiting, event, channel);
    let found = buffer_index(after, event, channel);
    assert(after[at].0 == event && after[at].1.channel == channel);
    if found < at {
        assert(after[found] == waiting[found]);
    }
    assert(found == at);
    if (other_event, other_channel) != (event, channel) {
        lemma_buffer_index(waiting, other_event, other_channel);
        lemma_buffer_index(after, other_event, other_channel);
        let spot = buffer_index(waiting, other_event, other_channel);
        let there = buffer_index(after, other_event, other_channel);
        assert(there != at);
        if spot < waiting.len() {
            assert(spot != at);
            assert(after[spot] == waiting[spot]);
            if there < spot {
                assert(after[there] == waiting[there]);
            }
        } else if there < after.len() {
            assert(after[there] == waiting[there]);
        }
    }
}

/// Nothing that waits is lost: what is due is in a message, and what is not still waits.
pub proof fn flushing_loses_nothing(waiting: Waiting, now: nat, i: int)
    requires
        0 <= i < waiting.len(),
    ensures
        is_ripe(waiting[i].1, now) ==> due_posts(waiting, now).contains(
            (
                waiting[i].1.channel,
                line_json(
                    waiting[i].0,
                    batch_text(waiting[i].0, waiting_texts(waiting[i].1.lines)),
                ),
            ),
        ),
        !is_ripe(waiting[i].1, now) ==> flushed(waiting, now)[i] == waiting[i],
    decreases waiting.len(),
{
    if i < waiting.len() - 1 {
        let front = waiting.drop_last();
        flushing_loses_nothing(front, now, i);
        if is_ripe(waiting[i].1, now) {
            let post = (
                waiting[i].1.channel,
                line_json(
                    waiting[i].0,
                    batch_text(waiting[i].0, waiting_texts(waiting[i].1.lines)),
                ),
            );
            let k = choose|k: int|
                0 <= k < due_posts(front, now).len() && due_posts(front, now)[k] == post;
            assert(due_posts(waiting, now)[k] == post);
        }
    } else if is_ripe(waiting[i].1, now) {
        let posts = due_posts(waiting, now);
        assert(posts[posts.len() - 1] == posts.last());
    }
}

/// What went out does not go out again: after the messages that are due were taken out, none
/// is due.
pub proof fn nothing_is_due_after_a_flush(waiting: Waiting, now: nat)
    ensures
        due_posts(flushed(waiting, now), now) == Seq::<Post>::empty(),
    decreases waiting.len(),
{
    if waiting.len() > 0 {
        nothing_is_due_after_a_flush(waiting.drop_last(), now);
        assert(flushed(waiting, now).drop_last() =~= flushed(waiting.drop_last(), now));
    }
}

/// Nothing goes out before its time: while the oldest line of every kind of event has not
/// waited for long enough, there is no message.
pub proof fn nothing_goes_out_early(waiting: Waiting, now: nat)
    requires
        forall|i: int| 0 <= i < waiting.len() ==> !is_ripe((#[trigger] waiting[i]).1, now),
    ensures
        due_posts(waiting, now) == Seq::<Post>::empty(),
        flushed(waiting, now) == waiting,
    decreases waiting.len(),
{
    if waiting.len() > 0 {
        assert(!is_ripe(waiting[waiting.len() - 1].1, now));
        assert forall|i: int| 0 <= i < waiting.drop_last().len() implies !is_ripe(
            (#[trigger] waiting.drop_last()[i]).1,
            now,
        ) by {
            assert(waiting.drop_last()[i] == waiting[i]);
        }
        nothing_goes_out_early(waiting.drop_last(), now);
    }
    assert(flushed(waiting, now) =~= waiting) by {
        assert forall|i: int| 0 <= i < waiting.len() implies flushed(waiting, now)[i]
            == waiting[i] by {
            assert(!is_ripe(waiting[i].1, now));
        }
    }
}

/// An event that is switched off, in every environment or in this one, changes nothing.
pub proof fn disabled_events_change_nothing(
    state: LayerState,
    rule: RuleView,
    environment: Seq<char>,
    event: Seq<char>,
    fields: Seq<Pair>,
    now: nat,
)
    requires
        !rule.enabled || !rule.allows(environment),
    ensures
        delivered(state, Some(rule), environment, event, fields, now) == (
            DeliveryView::Dropped,
            state,
        ),
{
}

/// A repeat inside the window is dropped, and one after it is not, as long as nothing is left
/// out by sampling.
pub proof fn repeats_are_dropped_inside_the_window(
    state: LayerState,
    rule: RuleView,
    environment: Seq<char>,
    event: Seq<char>,
    fields: Seq<Pair>,
    at: nat,
    now: nat,
)
    requires
        rule.enabled,
        rule.allows(environment),
        rule.sample_rate == SampleRate::Every,
        rule.dedup matches Some((keys, window)) && !is_repeat(
            state.dedup,
            (event, key_values(keys, fields)),
            window,
            at,
        ),
    ensures
        ({
            let (first, after) = delivered(state, Some(rule), environment, event, fields, at);
            let (second, _) = delivered(after, Some(rule), environment, event, fields, now);
            &&& !(first is Dropped)
            &&& second is Dropped <==> elapsed(at, now) < (rule.dedup->0).1
        }),
{
    let (keys, window) = rule.dedup->0;
    let key = (event, key_values(keys, fields));
    repeats_are_told_by_their_key(state.dedup, key, key, at, window, now);
}

/// A draw is a number of 32 bits, so a limit of none lets nothing through and a limit above
/// them all lets everything through.
pub proof fn draws_are_bounded(counter: u64)
    ensures
        0 <= draw(counter) < 0x1_0000_0000,
        !sampled(SampleRate::Below(0), counter),
        sampled(SampleRate::Below(0x1_0000_0000), counter),
{
}

} // verus!
