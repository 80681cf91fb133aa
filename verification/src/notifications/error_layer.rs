//! Alerts of errors: which errors are alerted, how often, and in which words.
//!
//! Errors are gathered for a while; those with the same key count as one. An error that
//! was alerted a short while ago is left out, and no more alerts go out in a minute than
//! are allowed.

use vstd::prelude::*;
use vstd::utf8::{encode_scalar, encode_utf8};

use crate::clock::{seconds, Duration};
use crate::digits::{decimal, render_decimal};
use crate::iam::key_set::elapsed;
use crate::json::{fields, item_views, no_members, put, put_text, text_view, Json, JsonView};
use crate::keyed::{value_after_put, value_of, with_value, Keyed};
use crate::notifications::config::NotificationConfig;
use crate::notifications::email::EmailClient;
use crate::notifications::slack::SlackClient;
use crate::string_map::{inserted, Pair, StringMap};
use crate::text::{join, joined, same, views};

verus! {

// ---------------------------------------------------------------------------
// Errors
// ---------------------------------------------------------------------------

/// An error that was logged.
#[derive(Debug)]
pub struct ErrorEvent {
    /// Where it was logged.
    pub target: String,
    /// What it says.
    pub message: String,
    /// What else was logged with it.
    pub fields: StringMap,
}

/// An error that was logged.
pub struct EventView {
    /// Where it was logged.
    pub target: Seq<char>,
    /// What it says.
    pub message: Seq<char>,
    /// What else was logged with it.
    pub fields: Seq<Pair>,
}

impl View for ErrorEvent {
    type V = EventView;

    open spec fn view(&self) -> EventView {
        EventView { target: self.target@, message: self.message@, fields: self.fields@ }
    }
}

/// The first `n` characters of a text, or all of it when it is shorter.
pub open spec fn first_chars(s: Seq<char>, n: int) -> Seq<char> {
    if s.len() <= n {
        s
    } else {
        s.take(n)
    }
}

fn take_chars(s: &str, n: usize) -> (head: String)
    ensures
        head@ == first_chars(s@, n as int),
{
    if s.unicode_len() <= n {
        s.to_owned()
    } else {
        let head = s.substring_char(0, n);
        assert(head@ =~= s@.take(n as int));
        head.to_owned()
    }
}

/// The key under which errors count as one: where they were logged, and how their message
/// begins.
pub open spec fn error_key(event: EventView) -> Seq<char> {
    event.target + "::"@ + first_chars(event.message, 80)
}

impl ErrorEvent {
    /// The key under which errors count as one.
    pub fn dedup_key(&self) -> (key: String)
        ensures
            key@ == error_key(self@),
    {
        self.target.clone().concat("::").concat(take_chars(self.message.as_str(), 80).as_str())
    }
}

/// What is gathered of an event while its fields are visited.
#[derive(Debug)]
pub struct EventVisitor {
    /// The message.
    pub message: String,
    /// The other fields.
    pub fields: StringMap,
}

impl EventVisitor {
    /// Nothing gathered yet.
    pub fn new() -> (visitor: Self)
        ensures
            visitor.message@ == Seq::<char>::empty(),
            visitor.fields@ == Seq::<Pair>::empty(),
    {
        EventVisitor { message: String::new(), fields: StringMap::new() }
    }

    /// Visits a field: the message is kept apart from the others.
    pub fn record(self, name: &str, value: &str) -> (visitor: Self)
        ensures
            name@ == "message"@ ==> visitor.message@ == value@ && visitor.fields@ == self.fields@,
            name@ != "message"@ ==> visitor.message@ == self.message@ && visitor.fields@ == inserted(
                self.fields@,
                name@,
                value@,
            ),
    {
        if same(name, "message") {
            EventVisitor { message: value.to_owned(), fields: self.fields }
        } else {
            EventVisitor { message: self.message, fields: self.fields.with(name, value) }
        }
    }

    /// The error that was visited.
    pub fn into_event(self, target: &str) -> (event: ErrorEvent)
        ensures
            event@ == (EventView {
                target: target@,
                message: self.message@,
                fields: self.fields@,
            }),
    {
        ErrorEvent { target: target.to_owned(), message: self.message, fields: self.fields }
    }
}

// ---------------------------------------------------------------------------
// Gathering
// ---------------------------------------------------------------------------

/// What is to be done while errors are gathered.
#[derive(Debug)]
pub enum GatherStep {
    /// Wait for the next error, for as long as it takes.
    Await,
    /// Wait for the next error, for this long at most.
    AwaitFor(Duration),
    /// Alert these, then wait for the next error.
    Alert(Vec<ErrorEvent>),
    /// Alert these, and stop.
    AlertAndStop(Vec<ErrorEvent>),
    /// Stop.
    Stop,
}

/// The errors that are gathered for the next alert. Times are readings of a clock that
/// only goes forward.
#[derive(Debug)]
pub struct Gathering {
    batch: Vec<ErrorEvent>,
    started: Duration,
    window: Duration,
}

impl Gathering {
    /// The errors gathered so far.
    pub closed spec fn gathered(&self) -> Seq<ErrorEvent> {
        self.batch@
    }

    /// When the first of them arrived.
    pub closed spec fn since(&self) -> nat {
        self.started@
    }

    /// For how long errors are gathered.
    pub closed spec fn span(&self) -> nat {
        self.window@
    }

    /// Nothing gathered yet.
    pub fn new(window: Duration) -> (gathering: Self)
        ensures
            gathering.gathered() == Seq::<ErrorEvent>::empty(),
            gathering.span() == window@,
    {
        Gathering { batch: Vec::new(), started: Duration::from_secs(0), window }
    }

    /// What to wait for.
    pub fn next(&self, now: Duration) -> (step: GatherStep)
        ensures
            self.gathered().len() == 0 ==> step is Await,
            self.gathered().len() > 0 ==> (step matches GatherStep::AwaitFor(rest) && rest@ == if elapsed(
                self.since(),
                now@,
            ) >= self.span() {
                0
            } else {
                (self.span() - elapsed(self.since(), now@)) as nat
            }),
    {
        if self.batch.len() == 0 {
            GatherStep::Await
        } else {
            GatherStep::AwaitFor(self.window.less(now.less(self.started)))
        }
    }

    /// An error arrived. The first of a batch starts the time for which errors are
    /// gathered.
    pub fn arrived(&mut self, event: ErrorEvent, now: Duration)
        ensures
            final(self).gathered() == old(self).gathered().push(event),
            final(self).since() == if old(self).gathered().len() == 0 {
                now@
            } else {
                old(self).since()
            },
            final(self).span() == old(self).span(),
    {
        if self.batch.len() == 0 {
            self.started = now;
        }
        self.batch.push(event);
    }

    /// The time for which errors are gathered is over.
    pub fn elapsed(&mut self) -> (step: GatherStep)
        ensures
            step matches GatherStep::Alert(batch) && batch@ == old(self).gathered(),
            final(self).gathered() == Seq::<ErrorEvent>::empty(),
            final(self).span() == old(self).span(),
    {
        let mut batch: Vec<ErrorEvent> = Vec::new();
        std::mem::swap(&mut batch, &mut self.batch);
        GatherStep::Alert(batch)
    }

    /// No more errors will arrive: what was gathered is still alerted.
    pub fn closed(self) -> (step: GatherStep)
        ensures
            self.gathered().len() == 0 ==> step is Stop,
            self.gathered().len() > 0 ==> (step matches GatherStep::AlertAndStop(batch) && batch@
                == self.gathered()),
    {
        if self.batch.len() == 0 {
            GatherStep::Stop
        } else {
            GatherStep::AlertAndStop(self.batch)
        }
    }
}

// ---------------------------------------------------------------------------
// Counting
// ---------------------------------------------------------------------------

/// Errors that count as one.
#[derive(Debug)]
pub struct Entry {
    /// Their key.
    pub key: String,
    /// The first of them.
    pub event: ErrorEvent,
    /// How many there are.
    pub count: u64,
}

/// Errors that count as one.
pub struct EntryView {
    /// Their key.
    pub key: Seq<char>,
    /// The first of them.
    pub event: EventView,
    /// How many there are.
    pub count: nat,
}

impl View for Entry {
    type V = EntryView;

    open spec fn view(&self) -> EntryView {
        EntryView { key: self.key@, event: self.event@, count: self.count as nat }
    }
}

/// What a list of entries is.
pub open spec fn entry_list(entries: Seq<Entry>) -> Seq<EntryView> {
    Seq::new(entries.len(), |i: int| entries[i]@)
}

/// What a list of errors is.
pub open spec fn event_list(events: Seq<ErrorEvent>) -> Seq<EventView> {
    Seq::new(events.len(), |i: int| events[i]@)
}

/// The first position of a key, or the number of entries.
pub open spec fn entry_position(entries: Seq<EntryView>, key: Seq<char>) -> int
    decreases entries.len(),
{
    if entries.len() == 0 {
        0
    } else if entries[0].key == key {
        0
    } else {
        1 + entry_position(entries.skip(1), key)
    }
}

proof fn lemma_entry_position(entries: Seq<EntryView>, key: Seq<char>)
    ensures
        0 <= entry_position(entries, key) <= entries.len(),
        entry_position(entries, key) < entries.len() ==> entries[entry_position(entries, key)].key
            == key,
        forall|k: int| 0 <= k < entry_position(entries, key) ==> entries[k].key != key,
    decreases entries.len(),
{
    if entries.len() > 0 && entries[0].key != key {
        lemma_entry_position(entries.skip(1), key);
        assert forall|k: int| 0 <= k < entry_position(entries, key) implies entries[k].key
            != key by {
            if k > 0 {
                assert(entries.skip(1)[k - 1] == entries[k]);
            }
        }
    }
}

/// The entries after one more error.
pub open spec fn counted(entries: Seq<EntryView>, event: EventView) -> Seq<EntryView> {
    let at = entry_position(entries, error_key(event));
    if 0 <= at < entries.len() {
        entries.update(at, EntryView { count: entries[at].count + 1, ..entries[at] })
    } else {
        entries.push(EntryView { key: error_key(event), event, count: 1 })
    }
}

/// The entries of a batch of errors, in the order in which their keys first arrived.
pub open spec fn grouped(batch: Seq<EventView>) -> Seq<EntryView>
    decreases batch.len(),
{
    if batch.len() == 0 {
        Seq::empty()
    } else {
        counted(grouped(batch.drop_last()), batch.last())
    }
}

/// How many errors a list of entries counts.
pub open spec fn total_count(entries: Seq<EntryView>) -> nat
    decreases entries.len(),
{
    if entries.len() == 0 {
        0
    } else {
        total_count(entries.drop_last()) + entries.last().count
    }
}

proof fn lemma_total_update(entries: Seq<EntryView>, at: int, entry: EntryView)
    requires
        0 <= at < entries.len(),
        entry.count == entries[at].count + 1,
    ensures
        total_count(entries.update(at, entry)) == total_count(entries) + 1,
    decreases entries.len(),
{
    let after = entries.update(at, entry);
    if at == entries.len() - 1 {
        assert(after.drop_last() =~= entries.drop_last());
    } else {
        assert(after.drop_last() =~= entries.drop_last().update(at, entry));
        assert(after.last() == entries.last());
        lemma_total_update(entries.drop_last(), at, entry);
    }
}

/// No error is lost or counted twice.
pub proof fn every_error_is_counted_once(batch: Seq<EventView>)
    ensures
        total_count(grouped(batch)) == batch.len(),
    decreases batch.len(),
{
    if batch.len() > 0 {
        let before = grouped(batch.drop_last());
        every_error_is_counted_once(batch.drop_last());
        let key = error_key(batch.last());
        lemma_entry_position(before, key);
        let at = entry_position(before, key);
        if at < before.len() {
            lemma_total_update(
                before,
                at,
                EntryView { count: before[at].count + 1, ..before[at] },
            );
        } else {
            let after = grouped(batch);
            assert(after.drop_last() =~= before);
        }
    }
}

proof fn lemma_counts_are_bounded(entries: Seq<EntryView>, i: int)
    requires
        0 <= i < entries.len(),
    ensures
        entries[i].count <= total_count(entries),
    decreases entries.len(),
{
    if i < entries.len() - 1 {
        lemma_counts_are_bounded(entries.drop_last(), i);
    }
}

fn find_entry(entries: &Vec<Entry>, key: &str) -> (at: usize)
    ensures
        at == entry_position(entry_list(entries@), key@),
        at <= entries.len(),
{
    let ghost list = entry_list(entries@);
    proof {
        lemma_entry_position(list, key@);
    }
    let mut i: usize = 0;
    while i < entries.len()
        invariant
            i <= entries.len(),
            list == entry_list(entries@),
            0 <= entry_position(list, key@) <= list.len(),
            entry_position(list, key@) < list.len() ==> list[entry_position(list, key@)].key == key@,
            forall|k: int| 0 <= k < entry_position(list, key@) ==> list[k].key != key@,
            forall|k: int| 0 <= k < i ==> list[k].key != key@,
        decreases entries.len() - i,
    {
        if same(entries[i].key.as_str(), key) {
            assert(list[i as int].key == key@);
            return i;
        }
        assert(list[i as int].key != key@);
        i += 1;
    }
    i
}

/// The entries of a batch of errors.
pub fn group(batch: Vec<ErrorEvent>) -> (entries: Vec<Entry>)
    ensures
        entry_list(entries@) == grouped(event_list(batch@)),
{
    let ghost all = batch@;
    let ghost events = event_list(all);
    let count: usize = batch.len();
    let mut entries: Vec<Entry> = Vec::new();
    assert(entry_list(entries@) =~= Seq::<EntryView>::empty());
    for event in it: batch
        invariant
            it.seq() == all,
            events == event_list(all),
            all.len() == count,
            entry_list(entries@) == grouped(events.take(it.index())),
    {
        let ghost i = it.index();
        let ghost before = entry_list(entries@);
        let key = event.dedup_key();
        proof {
            assert(events.take(i + 1).drop_last() =~= events.take(i));
            assert(events.take(i + 1).last() == event@);
            every_error_is_counted_once(events.take(i));
        }
        let at: usize = find_entry(&entries, key.as_str());
        if at < entries.len() {
            proof {
                lemma_counts_are_bounded(before, at as int);
                assert(before[at as int] == entries@[at as int]@);
            }
            let more: u64 = entries[at].count + 1;
            entries[at].count = more;
            assert(entry_list(entries@) =~= counted(before, event@));
        } else {
            entries.push(Entry { key, event, count: 1 });
            assert(entry_list(entries@) =~= counted(before, event@));
        }
    }
    assert(events.take(all.len() as int) =~= events);
    entries
}

// ---------------------------------------------------------------------------
// Deciding
// ---------------------------------------------------------------------------

/// When keys were last alerted.
pub type LastAlerts = Seq<(Seq<char>, Duration)>;

/// Whether an error is due: it was never alerted, or long enough ago.
pub open spec fn is_due(last: LastAlerts, key: Seq<char>, window: nat, now: nat) -> bool {
    match value_of(last, key) {
        Some(at) => elapsed(at@, now) >= window,
        None => true,
    }
}

/// The entries that are due.
pub open spec fn due_entries(
    entries: Seq<EntryView>,
    last: LastAlerts,
    window: nat,
    now: nat,
) -> Seq<EntryView>
    decreases entries.len(),
{
    if entries.len() == 0 {
        Seq::empty()
    } else if is_due(last, entries.last().key, window, now) {
        due_entries(entries.drop_last(), last, window, now).push(entries.last())
    } else {
        due_entries(entries.drop_last(), last, window, now)
    }
}

/// The messages of the last minute.
pub open spec fn last_minute(sends: Seq<Duration>, now: nat) -> Seq<Duration>
    decreases sends.len(),
{
    if sends.len() == 0 {
        Seq::empty()
    } else if elapsed(sends.last()@, now) < seconds(60) {
        last_minute(sends.drop_last(), now).push(sends.last())
    } else {
        last_minute(sends.drop_last(), now)
    }
}

/// When keys were last alerted, after the given ones were alerted now.
pub open spec fn all_alerted(last: LastAlerts, entries: Seq<EntryView>, now: Duration) -> LastAlerts
    decreases entries.len(),
{
    if entries.len() == 0 {
        last
    } else {
        with_value(all_alerted(last, entries.drop_last(), now), entries.last().key, now)
    }
}

/// What becomes of a batch of errors.
#[derive(Debug)]
pub enum Decision {
    /// Nothing: none of them is due.
    Nothing,
    /// They are dropped: enough messages went out in the last minute.
    Limited(usize),
    /// These are alerted.
    Alert {
        /// The errors.
        entries: Vec<Entry>,
        /// Whether a message goes to Slack.
        slack: bool,
        /// Whether a message goes out by email.
        email: bool,
    },
}

/// Which channels there are.
pub struct ChannelsView {
    /// Whether there is a client for Slack.
    pub slack: bool,
    /// Whether there is a client for email.
    pub email: bool,
}

/// Whether a digest goes to Slack, when the limit leaves room for `room` messages.
pub open spec fn goes_to_slack(channels: ChannelsView, room: int) -> bool {
    channels.slack && room >= 1
}

/// Whether a digest goes out by email, when the limit leaves room for `room` messages: Slack
/// comes first.
pub open spec fn goes_by_email(channels: ChannelsView, room: int) -> bool {
    channels.email && room >= if goes_to_slack(channels, room) {
        2int
    } else {
        1int
    }
}

/// The times of the messages that one digest makes: one for each channel it goes out on.
pub open spec fn times_sent(slack: bool, email: bool, now: Duration) -> Seq<Duration> {
    let first = if slack {
        Seq::<Duration>::empty().push(now)
    } else {
        Seq::<Duration>::empty()
    };
    if email {
        first.push(now)
    } else {
        first
    }
}

/// Decides on batches of errors.
pub struct Dispatcher {
    config: NotificationConfig,
    slack: Option<SlackClient>,
    email: Option<EmailClient>,
    last_notified: Keyed<Duration>,
    recent_sends: Vec<Duration>,
}

impl Dispatcher {
    /// How alerts are configured.
    pub closed spec fn settings(&self) -> NotificationConfig {
        self.config
    }

    /// The client for Slack.
    pub closed spec fn slack_given(&self) -> Option<SlackClient> {
        self.slack
    }

    /// The client for email.
    pub closed spec fn email_given(&self) -> Option<EmailClient> {
        self.email
    }

    /// Which channels there are.
    pub open spec fn channels(&self) -> ChannelsView {
        ChannelsView { slack: self.slack_given() is Some, email: self.email_given() is Some }
    }

    /// When keys were last alerted.
    pub closed spec fn last(&self) -> LastAlerts {
        self.last_notified@
    }

    /// When messages went out lately.
    pub closed spec fn recent(&self) -> Seq<Duration> {
        self.recent_sends@
    }

    /// Nothing alerted yet. Alerts go out by the clients that are given.
    pub fn new(
        config: NotificationConfig,
        slack: Option<SlackClient>,
        email: Option<EmailClient>,
    ) -> (dispatcher: Self)
        ensures
            dispatcher.settings() == config,
            dispatcher.slack_given() == slack,
            dispatcher.email_given() == email,
            dispatcher.last() == Seq::<(Seq<char>, Duration)>::empty(),
            dispatcher.recent() == Seq::<Duration>::empty(),
    {
        Dispatcher { config, slack, email, last_notified: Keyed::new(), recent_sends: Vec::new() }
    }

    /// The client for Slack.
    pub fn slack(&self) -> (client: Option<&SlackClient>)
        ensures
            match client {
                Some(client) => self.slack_given() == Some(*client),
                None => self.slack_given() is None,
            },
    {
        self.slack.as_ref()
    }

    /// The client for email.
    pub fn email(&self) -> (client: Option<&EmailClient>)
        ensures
            match client {
                Some(client) => self.email_given() == Some(*client),
                None => self.email_given() is None,
            },
    {
        self.email.as_ref()
    }

    /// How alerts are configured.
    pub fn config(&self) -> (config: &NotificationConfig)
        ensures
            *config == self.settings(),
    {
        &self.config
    }

    fn select_due(&self, entries: Vec<Entry>, now: Duration) -> (due: Vec<Entry>)
        ensures
            entry_list(due@) == due_entries(
                entry_list(entries@),
                self.last(),
                self.settings().dedup_window@,
                now@,
            ),
    {
        let ghost all = entries@;
        let ghost list = entry_list(all);
        let mut due: Vec<Entry> = Vec::new();
        assert(entry_list(due@) =~= Seq::<EntryView>::empty());
        for entry in it: entries
            invariant
                it.seq() == all,
                list == entry_list(all),
                entry_list(due@) == due_entries(
                    list.take(it.index()),
                    self.last(),
                    self.settings().dedup_window@,
                    now@,
                ),
        {
            let ghost i = it.index();
            let ghost before = entry_list(due@);
            proof {
                assert(list.take(i + 1).drop_last() =~= list.take(i));
                assert(list.take(i + 1).last() == entry@);
            }
            let fresh = match self.last_notified.get(entry.key.as_str()) {
                Some(at) => !now.less(*at).shorter_than(self.config.dedup_window),
                None => true,
            };
            if fresh {
                due.push(entry);
                assert(entry_list(due@) =~= before.push(entry@));
            }
        }
        assert(list.take(all.len() as int) =~= list);
        due
    }

    /// Forgets the messages that are more than a minute old.
    fn prune_recent_sends(&mut self, now: Duration)
        ensures
            final(self).recent() == last_minute(old(self).recent(), now@),
            final(self).last() == old(self).last(),
            final(self).settings() == old(self).settings(),
            final(self).slack_given() == old(self).slack_given(),
            final(self).email_given() == old(self).email_given(),
    {
        let mut kept: Vec<Duration> = Vec::new();
        let minute = Duration::from_secs(60);
        let mut i: usize = 0;
        while i < self.recent_sends.len()
            invariant
                i <= self.recent_sends.len(),
                minute@ == seconds(60),
                kept@ == last_minute(self.recent_sends@.take(i as int), now@),
            decreases self.recent_sends.len() - i,
        {
            proof {
                assert(self.recent_sends@.take(i + 1).drop_last() =~= self.recent_sends@.take(
                    i as int,
                ));
                assert(self.recent_sends@.take(i + 1).last() == self.recent_sends@[i as int]);
            }
            if now.less(self.recent_sends[i]).shorter_than(minute) {
                kept.push(self.recent_sends[i]);
            }
            i += 1;
        }
        assert(self.recent_sends@.take(i as int) =~= self.recent_sends@);
        self.recent_sends = kept;
    }

    /// Whether another message may go out this minute.
    fn under_rate_limit(&self) -> (under: bool)
        ensures
            under == (self.recent().len() < self.settings().max_messages_per_minute),
    {
        (self.recent_sends.len() as u64) < self.config.max_messages_per_minute as u64
    }

    /// Whether a batch of errors leads to a decision, and to another dispatcher.
    pub open spec fn decides(
        self,
        batch: Seq<EventView>,
        now: Duration,
        decision: Decision,
        after: Self,
    ) -> bool {
        let due = due_entries(
            grouped(batch),
            self.last(),
            self.settings().dedup_window@,
            now@,
        );
        let recent = last_minute(self.recent(), now@);
        let limit = self.settings().max_messages_per_minute;
        if due.len() == 0 {
            &&& decision is Nothing
            &&& after.last() == self.last()
            &&& after.recent() == self.recent()
        } else if recent.len() >= limit {
            &&& decision matches Decision::Limited(n) && n == due.len()
            &&& after.last() == self.last()
            &&& after.recent() == recent
        } else {
            let slack = goes_to_slack(self.channels(), limit - recent.len());
            let email = goes_by_email(self.channels(), limit - recent.len());
            &&& decision matches Decision::Alert { entries, slack: s, email: e } && entry_list(
                entries@,
            ) == due && s == slack && e == email
            &&& after.last() == all_alerted(self.last(), due, now)
            &&& after.recent() == recent + times_sent(slack, email, now)
        }
    }

    /// Decides on a batch of errors.
    pub fn dispatch_batch(&mut self, batch: Vec<ErrorEvent>, now: Duration) -> (decision: Decision)
        ensures
            final(self).settings() == old(self).settings(),
            final(self).slack_given() == old(self).slack_given(),
            final(self).email_given() == old(self).email_given(),
            old(self).decides(event_list(batch@), now, decision, *final(self)),
            ({
                let due = due_entries(
                    grouped(event_list(batch@)),
                    old(self).last(),
                    old(self).settings().dedup_window@,
                    now@,
                );
                let recent = last_minute(old(self).recent(), now@);
                if due.len() == 0 {
                    &&& decision is Nothing
                    &&& final(self).last() == old(self).last()
                    &&& final(self).recent() == old(self).recent()
                } else if recent.len() >= old(self).settings().max_messages_per_minute {
                    &&& decision matches Decision::Limited(n) && n == due.len()
                    &&& final(self).last() == old(self).last()
                    &&& final(self).recent() == recent
                } else {
                    let channels = old(self).channels();
                    let room = old(self).settings().max_messages_per_minute - recent.len();
                    &&& decision matches Decision::Alert { entries, slack, email } && entry_list(
                        entries@,
                    ) == due && slack == goes_to_slack(channels, room) && email == goes_by_email(
                        channels,
                        room,
                    )
                    &&& final(self).last() == all_alerted(old(self).last(), due, now)
                    &&& final(self).recent() == recent + times_sent(
                        goes_to_slack(channels, room),
                        goes_by_email(channels, room),
                        now,
                    )
                }
            }),
    {
        let entries = group(batch);
        let entries = self.select_due(entries, now);
        let ghost due = entry_list(entries@);
        assert(due.len() == entries@.len());
        if entries.len() == 0 {
            return Decision::Nothing;
        }
        self.prune_recent_sends(now);
        if !self.under_rate_limit() {
            return Decision::Limited(entries.len());
        }
        let ghost last = self.last();
        let ghost recent = self.recent();
        let mut i: usize = 0;
        while i < entries.len()
            invariant
                i <= entries.len(),
                due == entry_list(entries@),
                self.last() == all_alerted(last, due.take(i as int), now),
                self.recent() == recent,
                self.settings() == old(self).settings(),
                self.slack_given() == old(self).slack_given(),
                self.email_given() == old(self).email_given(),
            decreases entries.len() - i,
        {
            proof {
                assert(due.take(i + 1).drop_last() =~= due.take(i as int));
                assert(due.take(i + 1).last() == entries@[i as int]@);
            }
            self.last_notified.put(entries[i].key.as_str(), now);
            i += 1;
        }
        assert(due.take(i as int) =~= due);
        let room: u64 = self.config.max_messages_per_minute as u64 - self.recent_sends.len() as u64;
        let slack = self.slack.is_some();
        let email = self.email.is_some() && (!slack || room >= 2);
        if slack {
            self.recent_sends.push(now);
        }
        if email {
            self.recent_sends.push(now);
        }
        assert(self.recent() =~= recent + times_sent(slack, email, now));
        Decision::Alert { entries, slack, email }
    }
}

// --- laws ----------------------------------------------------------------------

/// Whether what is remembered tells how many messages went out in a minute, at any time from
/// `since` on: as many as if everything were remembered.
pub open spec fn remembers(all: Seq<Duration>, recent: Seq<Duration>, since: nat) -> bool {
    forall|now: nat| now >= since ==> #[trigger] last_minute(all, now) == last_minute(recent, now)
}

/// No more messages go out in a minute than are allowed, over all channels: when a digest
/// goes out, the messages of the minute that ends then, of all there ever were and those of
/// the digest included, are no more than the limit. What is remembered stays enough to tell.
/// It is for a clock that only goes forward.
pub proof fn messages_stay_under_the_limit(
    all: Seq<Duration>,
    recent: Seq<Duration>,
    since: nat,
    limit: u32,
    channels: ChannelsView,
    now: Duration,
)
    requires
        remembers(all, recent, since),
        since <= now@,
    ensures
        ({
            let kept = last_minute(recent, now@);
            let room = limit - kept.len();
            let sent = times_sent(goes_to_slack(channels, room), goes_by_email(channels, room), now);
            &&& remembers(all, recent, now@)
            &&& remembers(all, kept, now@)
            &&& remembers(all + sent, kept + sent, now@)
            &&& kept.len() < limit ==> last_minute(all + sent, now@).len()
                <= limit
        }),
{
    let kept = last_minute(recent, now@);
    let room = limit - kept.len();
    let sent = times_sent(goes_to_slack(channels, room), goes_by_email(channels, room), now);
    assert forall|later: nat| later >= now@ implies #[trigger] last_minute(all, later)
        == last_minute(kept, later) by {
        lemma_pruned_twice(recent, now@, later);
    }
    assert forall|later: nat| later >= now@ implies #[trigger] last_minute(all + sent, later)
        == last_minute(kept + sent, later) by {
        lemma_last_minute_adds(all, sent, later);
        lemma_last_minute_adds(kept, sent, later);
        assert(last_minute(all, later) == last_minute(kept, later));
    }
    lemma_last_minute_adds(all, sent, now@);
    assert(last_minute(all, now@) == last_minute(recent, now@));
    lemma_last_minute_is_part(sent, now@);
}

/// What is left of a part of a list is a part of what is left.
proof fn lemma_last_minute_adds(a: Seq<Duration>, b: Seq<Duration>, now: nat)
    ensures
        last_minute(a + b, now) == last_minute(a, now) + last_minute(b, now),
    decreases b.len(),
{
    if b.len() == 0 {
        assert(a + b =~= a);
        assert(last_minute(a, now) + last_minute(b, now) =~= last_minute(a, now));
    } else {
        lemma_last_minute_adds(a, b.drop_last(), now);
        assert((a + b).drop_last() =~= a + b.drop_last());
        assert((a + b).last() == b.last());
        if elapsed(b.last()@, now) < seconds(60) {
            assert(last_minute(a, now) + last_minute(b.drop_last(), now).push(b.last()) =~= (
            last_minute(a, now) + last_minute(b.drop_last(), now)).push(b.last()));
        }
    }
}

/// What is forgotten would not count later either.
proof fn lemma_pruned_twice(sends: Seq<Duration>, now: nat, later: nat)
    requires
        now <= later,
    ensures
        last_minute(last_minute(sends, now), later) == last_minute(sends, later),
    decreases sends.len(),
{
    if sends.len() > 0 {
        lemma_pruned_twice(sends.drop_last(), now, later);
        let front = last_minute(sends.drop_last(), now);
        assert(front.push(sends.last()).drop_last() =~= front);
    }
}

proof fn lemma_last_minute_is_part(sends: Seq<Duration>, now: nat)
    ensures
        last_minute(sends, now).len() <= sends.len(),
    decreases sends.len(),
{
    if sends.len() > 0 {
        lemma_last_minute_is_part(sends.drop_last(), now);
    }
}

/// An error that was alerted is not alerted again before the window is over, whatever was
/// alerted with it.
pub proof fn alerted_errors_stay_quiet(
    last: LastAlerts,
    entries: Seq<EntryView>,
    i: int,
    at: Duration,
    window: nat,
    now: nat,
)
    requires
        0 <= i < entries.len(),
        elapsed(at@, now) < window,
    ensures
        !is_due(all_alerted(last, entries, at), entries[i].key, window, now),
    decreases entries.len(),
{
    let before = all_alerted(last, entries.drop_last(), at);
    value_after_put(before, entries.last().key, at, entries[i].key);
    if i < entries.len() - 1 {
        alerted_errors_stay_quiet(last, entries.drop_last(), i, at, window, now);
    }
}

/// An error that was never alerted is always due.
pub proof fn new_errors_are_due(last: LastAlerts, key: Seq<char>, window: nat, now: nat)
    requires
        value_of(last, key) is None,
    ensures
        is_due(last, key, window, now),
{
}

// ---------------------------------------------------------------------------
// Wording
// ---------------------------------------------------------------------------

/// The length of a text in bytes.
pub open spec fn byte_length(s: Seq<char>) -> nat {
    encode_utf8(s).len()
}

/// The longest beginning of a text that takes no more than `room` bytes.
pub open spec fn fitting(s: Seq<char>, room: nat) -> Seq<char>
    decreases s.len(),
{
    if s.len() == 0 || byte_length(s) <= room {
        s
    } else {
        fitting(s.drop_last(), room)
    }
}

/// A message cut to a length in bytes that it exceeds, with dots for what was cut.
pub open spec fn truncated(msg: Seq<char>, max_len: nat) -> Seq<char> {
    if byte_length(msg) <= max_len {
        msg
    } else {
        fitting(
            msg,
            if max_len >= 3 {
                (max_len - 3) as nat
            } else {
                0
            },
        ) + "..."@
    }
}

/// The lengths of two texts add up.
proof fn lemma_byte_length_adds(a: Seq<char>, b: Seq<char>)
    ensures
        byte_length(a + b) == byte_length(a) + byte_length(b),
    decreases a.len(),
{
    if a.len() == 0 {
        assert(a + b =~= b);
    } else {
        lemma_byte_length_adds(a.drop_first(), b);
        assert((a + b).drop_first() =~= a.drop_first() + b);
        assert((a + b)[0] == a[0]);
    }
}

/// The bytes that a character takes.
pub open spec fn byte_width(c: char) -> nat {
    encode_scalar(c as u32).len()
}

/// One more character takes its bytes, and at least one.
proof fn lemma_byte_length_grows(s: Seq<char>, c: char)
    ensures
        byte_length(s.push(c)) == byte_length(s) + byte_width(c),
        byte_width(c) >= 1,
{
    let one = Seq::<char>::empty().push(c);
    assert(s.push(c) =~= s + one);
    lemma_byte_length_adds(s, one);
    assert(one.drop_first() =~= Seq::<char>::empty());
    assert(encode_utf8(one) =~= encode_scalar(c as u32) + encode_utf8(one.drop_first()));
    assert(encode_utf8(one.drop_first()).len() == 0);
}

/// A longer beginning of a text takes at least as many bytes.
proof fn lemma_longer_takes_more(s: Seq<char>, n: int, m: int)
    requires
        0 <= n <= m <= s.len(),
    ensures
        byte_length(s.take(n)) + (m - n) <= byte_length(s.take(m)),
    decreases m - n,
{
    if n < m {
        lemma_longer_takes_more(s, n, m - 1);
        lemma_byte_length_grows(s.take(m - 1), s[m - 1]);
        assert(s.take(m - 1).push(s[m - 1]) =~= s.take(m));
    }
}

/// A beginning that fits, and could not be longer, is the longest.
proof fn lemma_fitting(s: Seq<char>, n: int, m: int, room: nat)
    requires
        0 <= n <= m <= s.len(),
        byte_length(s.take(n)) <= room,
        n < s.len() ==> byte_length(s.take(n + 1)) > room,
    ensures
        fitting(s.take(m), room) == s.take(n),
    decreases m,
{
    if m > n {
        lemma_longer_takes_more(s, n + 1, m);
        assert(s.take(m).drop_last() =~= s.take(m - 1));
        lemma_fitting(s, n, m - 1, room);
    }
}

fn width_of(c: char) -> (width: usize)
    ensures
        width == byte_width(c),
        1 <= width <= 4,
{
    let code: u32 = c as u32;
    if code <= 0x7F {
        1
    } else if code <= 0x7FF {
        2
    } else if code <= 0xFFFF {
        3
    } else {
        4
    }
}

/// The longest beginning of a text that takes no more than `room` bytes.
fn take_fitting(s: &str, room: usize) -> (head: String)
    ensures
        head@ == fitting(s@, room as nat),
{
    let length: usize = s.unicode_len();
    let mut used: usize = 0;
    let mut n: usize = 0;
    assert(s@.take(0) =~= Seq::<char>::empty());
    while n < length
        invariant
            n <= length,
            length == s@.len(),
            used <= room,
            used == byte_length(s@.take(n as int)),
        decreases length - n,
    {
        let c = s.get_char(n);
        let width: usize = width_of(c);
        proof {
            lemma_byte_length_grows(s@.take(n as int), c);
            assert(s@.take(n as int).push(c) =~= s@.take(n + 1));
        }
        if width > room - used {
            proof {
                lemma_fitting(s@, n as int, length as int, room as nat);
                assert(s@.take(length as int) =~= s@);
            }
            let head = s.substring_char(0, n);
            assert(head@ =~= s@.take(n as int));
            return head.to_owned();
        }
        used += width;
        n += 1;
    }
    assert(s@.take(n as int) =~= s@);
    s.to_owned()
}

/// A message cut to a length in bytes that it exceeds, with dots for what was cut.
pub fn truncate_message(msg: &str, max_len: usize) -> (text: String)
    ensures
        text@ == truncated(msg@, max_len as nat),
{
    if msg.as_bytes().len() <= max_len {
        msg.to_owned()
    } else {
        let room: usize = max_len.saturating_sub(3);
        take_fitting(msg, room).concat("...")
    }
}

/// A beginning that fits is no longer than there is room, and shorter than the text when
/// the text does not fit. Nothing is wasted on letters of one byte.
proof fn lemma_fitting_bounds(s: Seq<char>, room: nat)
    ensures
        byte_length(fitting(s, room)) <= room,
        fitting(s, room).len() <= s.len(),
        fitting(s, room) == s.take(fitting(s, room).len() as int),
        byte_length(s) > room ==> fitting(s, room).len() < s.len(),
        (forall|i: int| 0 <= i < s.len() ==> (#[trigger] s[i]) as u32 <= 0x7F) && byte_length(s)
            > room ==> byte_length(fitting(s, room)) == room,
    decreases s.len(),
{
    if s.len() == 0 {
        assert(s.take(0) =~= s);
    } else if byte_length(s) <= room {
        assert(s.take(s.len() as int) =~= s);
    } else {
        let front = s.drop_last();
        lemma_fitting_bounds(front, room);
        let kept = fitting(s, room);
        assert(s.take(kept.len() as int) =~= front.take(kept.len() as int));
        lemma_byte_length_grows(front, s.last());
        assert(front.push(s.last()) =~= s);
        if forall|i: int| 0 <= i < s.len() ==> (#[trigger] s[i]) as u32 <= 0x7F {
            assert forall|i: int| 0 <= i < front.len() implies (#[trigger] front[i]) as u32
                <= 0x7F by {
                assert(front[i] == s[i]);
            }
            assert(s[s.len() - 1] as u32 <= 0x7F);
            assert(byte_width(s.last()) == 1);
            if byte_length(front) <= room {
                assert(fitting(front, room) == front);
            }
        }
    }
}

/// A cut message keeps to the maximum, and says so only where something was cut; of letters
/// of one byte as many stay as there is room for.
pub proof fn cut_messages_keep_to_the_maximum(msg: Seq<char>, max_len: nat)
    requires
        max_len >= 3,
    ensures
        byte_length(truncated(msg, max_len)) <= max_len,
        byte_length(msg) <= max_len ==> truncated(msg, max_len) == msg,
        byte_length(msg) > max_len ==> exists|n: int|
            0 <= n < msg.len() && truncated(msg, max_len) == #[trigger] msg.take(n) + "..."@,
        byte_length(msg) > max_len && (forall|i: int|
            0 <= i < msg.len() ==> (#[trigger] msg[i]) as u32 <= 0x7F) ==> byte_length(
            truncated(msg, max_len),
        ) == max_len,
{
    let room = (max_len - 3) as nat;
    let kept = fitting(msg, room);
    lemma_fitting_bounds(msg, room);
    reveal_strlit("...");
    let dots = "..."@;
    lemma_byte_length_adds(kept, dots);
    assert(byte_length(dots) == 3) by {
        let none = Seq::<char>::empty();
        lemma_byte_length_grows(none, '.');
        lemma_byte_length_grows(none.push('.'), '.');
        lemma_byte_length_grows(none.push('.').push('.'), '.');
        assert(none.push('.').push('.').push('.') =~= dots);
        assert(byte_width('.') == 1);
        assert(byte_length(none) == 0);
    }
    if byte_length(msg) > max_len {
        assert(truncated(msg, max_len) == msg.take(kept.len() as int) + "..."@);
    }
}

/// How often an error occurred, when it did more than once.
pub open spec fn count_suffix(count: nat) -> Seq<char> {
    if count > 1 {
        " (x"@ + decimal(count) + ")"@
    } else {
        ""@
    }
}

fn render_count(count: u64) -> (text: String)
    ensures
        text@ == count_suffix(count as nat),
{
    if count > 1 {
        " (x".to_owned().concat(render_decimal(count).as_str()).concat(")")
    } else {
        "".to_owned()
    }
}

/// The first few fields of an error, as Slack shows them.
pub open spec fn shown_pairs(fields: Seq<Pair>) -> Seq<Seq<char>> {
    Seq::new(
        if fields.len() < 4 {
            fields.len()
        } else {
            4
        },
        |i: int| "`"@ + fields[i].0 + "`: "@ + fields[i].1,
    )
}

/// The fields of an error, as Slack shows them.
pub open spec fn shown_fields(fields: Seq<Pair>) -> Seq<char> {
    if fields.len() == 0 {
        ""@
    } else {
        "\n"@ + joined(shown_pairs(fields), " | "@)
    }
}

fn render_fields(fields: &StringMap) -> (text: String)
    ensures
        text@ == shown_fields(fields@),
{
    if fields.is_empty() {
        return "".to_owned();
    }
    let most: usize = if fields.len() < 4 { fields.len() } else { 4 };
    let mut parts: Vec<String> = Vec::new();
    let mut i: usize = 0;
    while i < most
        invariant
            i <= most <= fields@.len(),
            most == shown_pairs(fields@).len(),
            parts.len() == i,
            forall|k: int| 0 <= k < i ==> (#[trigger] parts@[k])@ == shown_pairs(fields@)[k],
        decreases most - i,
    {
        let part = "`".to_owned().concat(fields.key_at(i)).concat("`: ").concat(fields.value_at(i));
        parts.push(part);
        i += 1;
    }
    assert(views(parts@) =~= shown_pairs(fields@));
    "\n".to_owned().concat(join(&parts, " | ").as_str())
}

/// A text as Slack formats it.
pub open spec fn mrkdwn(text: Seq<char>) -> JsonView {
    JsonView::Object(
        fields().push(("type"@, JsonView::Text("mrkdwn"@))).push(("text"@, JsonView::Text(text))),
    )
}

/// A block that shows a text.
pub open spec fn section_block(text: Seq<char>) -> JsonView {
    JsonView::Object(
        fields().push(("type"@, JsonView::Text("section"@))).push(("text"@, mrkdwn(text))),
    )
}

/// A block that shows a text aside.
pub open spec fn context_block(text: Seq<char>) -> JsonView {
    JsonView::Object(
        fields().push(("type"@, JsonView::Text("context"@))).push(
            ("elements"@, JsonView::Array(Seq::empty().push(mrkdwn(text)))),
        ),
    )
}

/// A text as Slack formats it.
pub fn mrkdwn_json(text: &str) -> (json: Json)
    ensures
        json@ == mrkdwn(text@),
{
    let mut members = no_members();
    put_text(&mut members, "type", "mrkdwn");
    put_text(&mut members, "text", text);
    Json::object(members)
}

/// A block that shows a text aside.
pub fn context_json(text: &str) -> (json: Json)
    ensures
        json@ == context_block(text@),
{
    let mut elements: Vec<Json> = Vec::new();
    elements.push(mrkdwn_json(text));
    assert(item_views(elements@) =~= Seq::empty().push(mrkdwn(text@)));
    let mut members = no_members();
    put_text(&mut members, "type", "context");
    put(&mut members, "elements", Json::array(elements));
    Json::object(members)
}

fn section_json(text: &str) -> (json: Json)
    ensures
        json@ == section_block(text@),
{
    let mut members = no_members();
    put_text(&mut members, "type", "section");
    put(&mut members, "text", mrkdwn_json(text));
    Json::object(members)
}

/// The block above a digest.
pub open spec fn header_block(service: Seq<char>) -> JsonView {
    JsonView::Object(
        fields().push(("type"@, JsonView::Text("header"@))).push(
            (
                "text"@,
                JsonView::Object(
                    fields().push(("type"@, JsonView::Text("plain_text"@))).push(
                        ("text"@, JsonView::Text("Error Alert — "@ + service)),
                    ),
                ),
            ),
        ),
    )
}

/// The block below the head of a digest.
pub open spec fn divider_block() -> JsonView {
    JsonView::Object(fields().push(("type"@, JsonView::Text("divider"@))))
}

/// Where errors come from, and how many: the host is named when it is known.
pub open spec fn context_line(environment: Seq<char>, host: Option<Seq<char>>, errors: nat) -> Seq<
    char,
> {
    match host {
        Some(host) => "*Environment:* "@ + environment + " | *Host:* "@ + host + " | *Errors:* "@
            + decimal(errors),
        None => "*Environment:* "@ + environment + " | *Errors:* "@ + decimal(errors),
    }
}

/// Where errors come from, and how many.
pub fn render_context_line(environment: &str, host: &Option<String>, errors: usize) -> (text: String)
    ensures
        text@ == context_line(environment@, text_view(*host), errors as nat),
{
    let number = render_decimal(errors as u64);
    match host {
        Some(host) => "*Environment:* ".to_owned().concat(environment).concat(" | *Host:* ").concat(
            host.as_str(),
        ).concat(" | *Errors:* ").concat(number.as_str()),
        None => "*Environment:* ".to_owned().concat(environment).concat(" | *Errors:* ").concat(
            number.as_str(),
        ),
    }
}

/// An error, as Slack shows it.
pub open spec fn entry_text(entry: EntryView) -> Seq<char> {
    "*"@ + entry.event.target + "*"@ + count_suffix(entry.count) + "\n```"@ + truncated(
        entry.event.message,
        500,
    ) + "```"@ + shown_fields(entry.event.fields)
}

/// The blocks of the errors that are shown: the first eight.
pub open spec fn entry_blocks(entries: Seq<EntryView>) -> Seq<JsonView> {
    Seq::new(
        if entries.len() < 8 {
            entries.len()
        } else {
            8
        },
        |i: int| section_block(entry_text(entries[i])),
    )
}

/// The blocks of a digest: its head, the errors that are shown, and how many are not.
pub open spec fn digest_blocks(
    service: Seq<char>,
    environment: Seq<char>,
    host: Option<Seq<char>>,
    entries: Seq<EntryView>,
) -> Seq<JsonView> {
    let head = Seq::empty().push(header_block(service)).push(
        context_block(context_line(environment, host, entries.len())),
    ).push(divider_block());
    let shown = head + entry_blocks(entries);
    if entries.len() > 8 {
        shown.push(
            context_block("...and "@ + decimal((entries.len() - 8) as nat) + " more errors"@),
        )
    } else {
        shown
    }
}

/// A digest for Slack.
#[derive(Debug)]
pub struct SlackDigest {
    /// Where it is posted.
    pub channel: String,
    /// What is posted.
    pub blocks: Json,
}

/// A digest by email.
#[derive(Debug)]
pub struct EmailDigest {
    /// Its subject.
    pub subject: String,
    /// Its body.
    pub body: String,
}

fn header_json(service: &str) -> (json: Json)
    ensures
        json@ == header_block(service@),
{
    let mut text = no_members();
    put_text(&mut text, "type", "plain_text");
    put_text(&mut text, "text", "Error Alert — ".to_owned().concat(service).as_str());
    let mut members = no_members();
    put_text(&mut members, "type", "header");
    put(&mut members, "text", Json::object(text));
    Json::object(members)
}

fn render_entry(entry: &Entry) -> (text: String)
    ensures
        text@ == entry_text(entry@),
{
    "*".to_owned().concat(entry.event.target.as_str()).concat("*").concat(
        render_count(entry.count).as_str(),
    ).concat("\n```").concat(truncate_message(entry.event.message.as_str(), 500).as_str()).concat(
        "```",
    ).concat(render_fields(&entry.event.fields).as_str())
}

/// The digest for Slack of the errors that are alerted.
pub fn slack_digest(config: &NotificationConfig, entries: &Vec<Entry>) -> (digest: SlackDigest)
    ensures
        digest.channel@ == match config.slack {
            Some(slack) => slack.error_channel@,
            None => "#errors"@,
        },
        digest.blocks@ == JsonView::Array(
            digest_blocks(
                config.service_name@,
                config.environment@,
                text_view(config.host),
                entry_list(entries@),
            ),
        ),
{
    let ghost list = entry_list(entries@);
    let ghost head = Seq::empty().push(header_block(config.service_name@)).push(
        context_block(
            context_line(config.environment@, text_view(config.host), list.len()),
        ),
    ).push(divider_block());
    let mut blocks: Vec<Json> = Vec::new();
    blocks.push(header_json(config.service_name.as_str()));
    let context = render_context_line(config.environment.as_str(), &config.host, entries.len());
    blocks.push(context_json(context.as_str()));
    let mut divider = no_members();
    put_text(&mut divider, "type", "divider");
    blocks.push(Json::object(divider));
    assert(item_views(blocks@) =~= head);
    let most: usize = if entries.len() < 8 { entries.len() } else { 8 };
    let mut i: usize = 0;
    assert(head + entry_blocks(list).take(0) =~= head);
    while i < most
        invariant
            i <= most <= entries.len(),
            list == entry_list(entries@),
            most == entry_blocks(list).len(),
            item_views(blocks@) == head + entry_blocks(list).take(i as int),
        decreases most - i,
    {
        let ghost before = item_views(blocks@);
        let text = render_entry(&entries[i]);
        blocks.push(section_json(text.as_str()));
        proof {
            assert(list[i as int] == entries@[i as int]@);
            assert(item_views(blocks@) =~= before.push(section_block(text@)));
            assert(entry_blocks(list).take(i + 1) =~= entry_blocks(list).take(i as int).push(
                entry_blocks(list)[i as int],
            ));
            assert(item_views(blocks@) =~= head + entry_blocks(list).take(i + 1));
        }
        i += 1;
    }
    assert(entry_blocks(list).take(i as int) =~= entry_blocks(list));
    if entries.len() > 8 {
        let ghost before = item_views(blocks@);
        let more = "...and ".to_owned().concat(
            render_decimal((entries.len() - 8) as u64).as_str(),
        ).concat(" more errors");
        blocks.push(context_json(more.as_str()));
        assert(item_views(blocks@) =~= before.push(context_block(more@)));
    }
    SlackDigest {
        channel: match &config.slack {
            Some(slack) => slack.error_channel.clone(),
            None => "#errors".to_owned(),
        },
        blocks: Json::array(blocks),
    }
}

/// The lines of the fields of an error.
pub open spec fn field_lines(fields: Seq<Pair>) -> Seq<char>
    decreases fields.len(),
{
    if fields.len() == 0 {
        ""@
    } else {
        field_lines(fields.drop_last()) + "  "@ + fields.last().0 + ": "@ + fields.last().1 + "\n"@
    }
}

/// An error, as an email tells it.
pub open spec fn entry_lines(entry: EntryView) -> Seq<char> {
    "--- "@ + entry.event.target + " ---"@ + count_suffix(entry.count) + "\n"@
        + entry.event.message + "\n"@ + field_lines(entry.event.fields) + "\n"@
}

/// Several errors, as an email tells them.
pub open spec fn all_lines(entries: Seq<EntryView>) -> Seq<char>
    decreases entries.len(),
{
    if entries.len() == 0 {
        ""@
    } else {
        all_lines(entries.drop_last()) + entry_lines(entries.last())
    }
}

/// The first line of an email digest.
pub open spec fn digest_intro(service: Seq<char>, environment: Seq<char>, host: Option<Seq<char>>) -> Seq<
    char,
> {
    match host {
        Some(host) => "Error digest for "@ + service + " ("@ + environment + ") on "@ + host
            + "\n\n"@,
        None => "Error digest for "@ + service + " ("@ + environment + ")\n\n"@,
    }
}

fn render_field_lines(fields: &StringMap) -> (text: String)
    ensures
        text@ == field_lines(fields@),
{
    let mut text = "".to_owned();
    let mut i: usize = 0;
    assert(fields@.take(0) =~= Seq::<Pair>::empty());
    while i < fields.len()
        invariant
            i <= fields@.len(),
            text@ == field_lines(fields@.take(i as int)),
        decreases fields@.len() - i,
    {
        proof {
            assert(fields@.take(i + 1).drop_last() =~= fields@.take(i as int));
            assert(fields@.take(i + 1).last() == fields@[i as int]);
        }
        text = text.concat("  ").concat(fields.key_at(i)).concat(": ").concat(
            fields.value_at(i),
        ).concat("\n");
        i += 1;
    }
    assert(fields@.take(i as int) =~= fields@);
    text
}

/// The digest by email of the errors that are alerted.
pub fn email_digest(config: &NotificationConfig, entries: &Vec<Entry>) -> (digest: EmailDigest)
    ensures
        digest.subject@ == "["@ + config.environment@ + "] "@ + decimal(entries@.len())
            + " error(s) in "@ + config.service_name@,
        digest.body@ == digest_intro(
            config.service_name@,
            config.environment@,
            text_view(config.host),
        ) + all_lines(entry_list(entries@)),
{
    let subject = "[".to_owned().concat(config.environment.as_str()).concat("] ").concat(
        render_decimal(entries.len() as u64).as_str(),
    ).concat(" error(s) in ").concat(config.service_name.as_str());
    let intro = match &config.host {
        Some(host) => "Error digest for ".to_owned().concat(config.service_name.as_str()).concat(
            " (",
        ).concat(config.environment.as_str()).concat(") on ").concat(host.as_str()).concat("\n\n"),
        None => "Error digest for ".to_owned().concat(config.service_name.as_str()).concat(
            " (",
        ).concat(config.environment.as_str()).concat(")\n\n"),
    };
    let ghost list = entry_list(entries@);
    let mut lines = "".to_owned();
    let mut i: usize = 0;
    assert(list.take(0) =~= Seq::<EntryView>::empty());
    while i < entries.len()
        invariant
            i <= entries.len(),
            list == entry_list(entries@),
            lines@ == all_lines(list.take(i as int)),
        decreases entries.len() - i,
    {
        proof {
            assert(list.take(i + 1).drop_last() =~= list.take(i as int));
            assert(list.take(i + 1).last() == entries@[i as int]@);
        }
        let entry = &entries[i];
        let told = "--- ".to_owned().concat(entry.event.target.as_str()).concat(" ---").concat(
            render_count(entry.count).as_str(),
        ).concat("\n").concat(entry.event.message.as_str()).concat("\n").concat(
            render_field_lines(&entry.event.fields).as_str(),
        ).concat("\n");
        lines = lines.concat(told.as_str());
        i += 1;
    }
    assert(list.take(i as int) =~= list);
    EmailDigest { subject, body: intro.concat(lines.as_str()) }
}

} // verus!
