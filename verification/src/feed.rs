//! The activity feed: which conversations are expanded, and the entries that
//! the feed shows, newest first.

use vstd::prelude::*;
use vstd::string::StringExecFns;
use crate::keyed::KeyedStore;
use crate::model::{copy_messages, Activity, ChatMessage, Conversation, Intent, IntentView};
use crate::text::{decimal, decimal_digits, lemma_decimal_injective};

verus! {

/// The key of the feed entry at `position`, counted from the newest.
pub open spec fn expansion_key_text(position: nat) -> Seq<char> {
    "expanded_activity_"@ + decimal_digits(position)
}

/// Writes the key of the feed entry at `position`.
pub fn expansion_key(position: usize) -> (r: String)
    ensures
        r@ == expansion_key_text(position as nat),
{
    let mut key = String::from_str("expanded_activity_");
    let digits = decimal(position);
    key.append(digits.as_str());
    key
}

/// What the store holds for a key: a fetch under way, or what a fetch
/// brought. A fetch that failed brought nothing.
#[derive(Clone, Debug, PartialEq, Eq)]
pub enum Expansion {
    Pending,
    Fetched(Vec<ChatMessage>),
}

/// An expansion with its messages taken as a sequence.
pub enum ExpansionView {
    Pending,
    Fetched(Seq<ChatMessage>),
}

impl View for Expansion {
    type V = ExpansionView;

    open spec fn view(&self) -> ExpansionView {
        match *self {
            Expansion::Pending => ExpansionView::Pending,
            Expansion::Fetched(messages) => ExpansionView::Fetched(messages@),
        }
    }
}

/// The messages that stand under `key`, if a fetch has ended for it. An empty
/// sequence is a failed fetch.
pub open spec fn payload_of(m: Map<Seq<char>, ExpansionView>, key: Seq<char>) -> Option<
    Seq<ChatMessage>,
> {
    if m.contains_key(key) {
        match m[key] {
            ExpansionView::Pending => None,
            ExpansionView::Fetched(messages) => Some(messages),
        }
    } else {
        None
    }
}

/// Whether an expand intent for `key` starts a fetch: it does unless a fetch
/// is under way or the conversation is loaded.
pub open spec fn starts_fetch(m: Map<Seq<char>, ExpansionView>, key: Seq<char>) -> bool {
    if m.contains_key(key) {
        match m[key] {
            ExpansionView::Pending => false,
            ExpansionView::Fetched(messages) => messages.len() == 0,
        }
    } else {
        true
    }
}

/// The store after an expand intent for `key`.
pub open spec fn after_expand(m: Map<Seq<char>, ExpansionView>, key: Seq<char>) -> Map<
    Seq<char>,
    ExpansionView,
> {
    if starts_fetch(m, key) {
        m.insert(key, ExpansionView::Pending)
    } else {
        m
    }
}

/// Which feed entries are expanded, by key.
pub struct ExpansionStore {
    slots: KeyedStore<Expansion>,
}

impl ExpansionStore {
    /// The invariant of the store: no key has two entries.
    pub closed spec fn wf(&self) -> bool {
        self.slots.wf()
    }

    /// The store as a map from key to what it holds for the key.
    pub closed spec fn view(&self) -> Map<Seq<char>, ExpansionView> {
        Map::new(|k: Seq<char>| self.slots@.contains_key(k), |k: Seq<char>| self.slots@[k]@)
    }

    /// The messages that stand under `key`, if a fetch has ended for it.
    pub open spec fn payload(&self, key: Seq<char>) -> Option<Seq<ChatMessage>> {
        payload_of(self@, key)
    }

    /// A store in which nothing is expanded.
    pub fn new() -> (s: ExpansionStore)
        ensures
            s.wf(),
            s@ == Map::<Seq<char>, ExpansionView>::empty(),
    {
        let s = ExpansionStore { slots: KeyedStore::new() };
        assert(s@ =~= Map::<Seq<char>, ExpansionView>::empty());
        s
    }

    /// The messages under `key`, where a fetch has ended for it.
    pub fn lookup(&self, key: &str) -> (r: Option<&Vec<ChatMessage>>)
        requires
            self.wf(),
        ensures
            match r {
                Some(messages) => self.payload(key@) == Some(messages@),
                None => self.payload(key@) is None,
            },
    {
        match self.slots.get(key) {
            Some(Expansion::Fetched(messages)) => Some(messages),
            Some(Expansion::Pending) => None,
            None => None,
        }
    }

    /// Handles an expand intent. Returns whether a fetch is to be started;
    /// the key is then pending. A key that is pending or loaded stays as it is.
    pub fn expand(&mut self, key: &str) -> (dispatch: bool)
        requires
            old(self).wf(),
        ensures
            final(self).wf(),
            dispatch == starts_fetch(old(self)@, key@),
            final(self)@ == after_expand(old(self)@, key@),
    {
        let dispatch = match self.slots.get(key) {
            Some(Expansion::Fetched(messages)) => messages.len() == 0,
            Some(Expansion::Pending) => false,
            None => true,
        };
        if dispatch {
            self.slots.insert(key, Expansion::Pending);
            assert(self@ =~= old(self)@.insert(key@, ExpansionView::Pending));
        }
        dispatch
    }

    /// Records how a fetch ended: the messages it brought, or none where it
    /// failed.
    pub fn fetched(&mut self, key: &str, outcome: Option<Vec<ChatMessage>>)
        requires
            old(self).wf(),
        ensures
            final(self).wf(),
            final(self)@ == old(self)@.insert(
                key@,
                ExpansionView::Fetched(
                    match outcome {
                        Some(messages) => messages@,
                        None => Seq::empty(),
                    },
                ),
            ),
    {
        let messages = match outcome {
            Some(messages) => messages,
            None => Vec::new(),
        };
        self.slots.insert(key, Expansion::Fetched(messages));
        assert(self@ =~= old(self)@.insert(key@, ExpansionView::Fetched(messages@)));
    }

    /// Handles a collapse intent: the key is absent afterwards.
    pub fn collapse(&mut self, key: &str)
        requires
            old(self).wf(),
        ensures
            final(self).wf(),
            final(self)@ == old(self)@.remove(key@),
    {
        self.slots.remove(key);
        assert(self@ =~= old(self)@.remove(key@));
    }
}

/// A conversation fetch to be started.
#[derive(Clone, Debug, PartialEq, Eq)]
pub struct ConversationFetch {
    pub thread_id: String,
    pub grouping_id: String,
    pub key: String,
}

/// The store after an intent: an expand intent marks its key pending where
/// it starts a fetch, a collapse intent removes its key, and any other
/// intent leaves the store alone.
pub open spec fn after_intent(m: Map<Seq<char>, ExpansionView>, intent: IntentView) -> Map<
    Seq<char>,
    ExpansionView,
> {
    match intent {
        IntentView::ExpandActivity { key, .. } => after_expand(m, key),
        IntentView::CollapseActivity { key } => m.remove(key),
        _ => m,
    }
}

/// The fetch that an intent starts, as thread id, grouping id and key.
pub open spec fn fetch_for(m: Map<Seq<char>, ExpansionView>, intent: IntentView) -> Option<
    (Seq<char>, Seq<char>, Seq<char>),
> {
    match intent {
        IntentView::ExpandActivity { thread_id, grouping_id, key } => if starts_fetch(m, key) {
            Some((thread_id, grouping_id, key))
        } else {
            None
        },
        _ => None,
    }
}

impl ExpansionStore {
    /// One step of the update path: applies `intent` to the store and says
    /// which conversation fetch, if any, is to be started for it.
    pub fn handle(&mut self, intent: &Intent) -> (action: Option<ConversationFetch>)
        requires
            old(self).wf(),
        ensures
            final(self).wf(),
            final(self)@ == after_intent(old(self)@, intent@),
            match action {
                Some(fetch) => fetch_for(old(self)@, intent@) == Some(
                    (fetch.thread_id@, fetch.grouping_id@, fetch.key@),
                ),
                None => fetch_for(old(self)@, intent@) is None,
            },
    {
        match intent {
            Intent::ExpandActivity { thread_id, grouping_id, key } => {
                if self.expand(key.as_str()) {
                    Some(
                        ConversationFetch {
                            thread_id: thread_id.clone(),
                            grouping_id: grouping_id.clone(),
                            key: key.clone(),
                        },
                    )
                } else {
                    None
                }
            },
            Intent::CollapseActivity { key } => {
                self.collapse(key.as_str());
                None
            },
            _ => None,
        }
    }
}

/// One entry of the feed.
#[derive(Clone, Debug, PartialEq, Eq)]
pub enum FeedEntry {
    /// A collapsed activity; a click expands it.
    Preview { activity: Activity, on_click: Intent },
    /// A conversation that could not be loaded; a click tries again.
    Failed { on_click: Intent },
    /// A loaded conversation; a click collapses it.
    Expanded { conversation: Conversation, on_click: Intent },
}

/// Why a feed could not be assembled.
#[derive(Clone, Copy, Debug, PartialEq, Eq)]
pub enum FeedError {
    /// The message at this feed position carries no activity.
    MissingActivity { position: usize },
}

/// The intent that asks for the conversation behind `activity`: its thread,
/// its grouping id and the entry's key.
pub open spec fn expand_intent(activity: Activity, key: Seq<char>) -> IntentView {
    IntentView::ExpandActivity {
        thread_id: activity.source_thread_id@,
        grouping_id: activity.grouping(),
        key,
    }
}

/// Whether `entry` is the feed entry of `activity` under `key`, given what the
/// store holds for the key.
pub open spec fn entry_for(
    entry: FeedEntry,
    activity: Activity,
    key: Seq<char>,
    payload: Option<Seq<ChatMessage>>,
) -> bool {
    match payload {
        None => match entry {
            FeedEntry::Preview { activity: shown, on_click } => shown == activity && on_click@
                == expand_intent(activity, key),
            _ => false,
        },
        Some(messages) => if messages.len() == 0 {
            match entry {
                FeedEntry::Failed { on_click } => on_click@ == expand_intent(activity, key),
                _ => false,
            }
        } else {
            match entry {
                FeedEntry::Expanded { conversation, on_click } => {
                    &&& conversation.id@ == key
                    &&& conversation.container_id@ == Seq::<char>::empty()
                    &&& conversation.latest_delivery_time@ == Seq::<char>::empty()
                    &&& conversation.messages@ == messages
                    &&& on_click@ == (IntentView::CollapseActivity { key })
                },
                _ => false,
            }
        },
    }
}

/// A looked-up payload as a sequence of messages.
pub open spec fn payload_view(payload: Option<&Vec<ChatMessage>>) -> Option<Seq<ChatMessage>> {
    match payload {
        Some(messages) => Some(messages@),
        None => None,
    }
}

/// The text shown in place of a conversation that could not be loaded.
pub fn failure_notice() -> (r: &'static str)
    ensures
        r@ == "Failed to load conversation."@,
{
    "Failed to load conversation."
}

/// Builds the feed entry of one activity from what the store holds under its
/// key.
pub fn classify(activity: &Activity, key: &str, payload: Option<&Vec<ChatMessage>>) -> (entry:
    FeedEntry)
    ensures
        entry_for(entry, *activity, key@, payload_view(payload)),
{
    match payload {
        Some(messages) => {
            if messages.len() > 0 {
                let conversation = Conversation {
                    id: String::from_str(key),
                    container_id: String::new(),
                    latest_delivery_time: String::new(),
                    messages: copy_messages(messages),
                };
                FeedEntry::Expanded {
                    conversation,
                    on_click: Intent::CollapseActivity { key: String::from_str(key) },
                }
            } else {
                FeedEntry::Failed { on_click: expand_click(activity, key) }
            }
        },
        None => FeedEntry::Preview {
            activity: activity.copy(),
            on_click: expand_click(activity, key),
        },
    }
}

/// The intent that asks for the conversation behind `activity`.
pub fn expand_click(activity: &Activity, key: &str) -> (intent: Intent)
    ensures
        intent@ == expand_intent(*activity, key@),
{
    Intent::ExpandActivity {
        thread_id: activity.source_thread_id.clone(),
        grouping_id: activity.grouping_id(),
        key: String::from_str(key),
    }
}

/// The activity shown at `position` of the feed: the stream is oldest first,
/// the feed newest first.
pub open spec fn feed_activity(stream: Seq<ChatMessage>, position: int) -> Option<Activity> {
    stream[stream.len() - 1 - position].activity
}

/// Whether `entry` is what the feed shows at `position`.
pub open spec fn entry_at(
    entry: FeedEntry,
    stream: Seq<ChatMessage>,
    store: Map<Seq<char>, ExpansionView>,
    position: int,
) -> bool {
    match feed_activity(stream, position) {
        Some(activity) => entry_for(
            entry,
            activity,
            expansion_key_text(position as nat),
            payload_of(store, expansion_key_text(position as nat)),
        ),
        None => false,
    }
}

/// Whether `r` is the outcome of assembling the feed from `stream` and
/// `store`: one entry for each activity, newest first; or, where a message
/// carries no activity, the first feed position at which one stands.
pub open spec fn assembled(
    r: Result<Vec<FeedEntry>, FeedError>,
    stream: Seq<ChatMessage>,
    store: Map<Seq<char>, ExpansionView>,
) -> bool {
    match r {
        Ok(entries) => {
            &&& entries.len() == stream.len()
            &&& forall|i: int|
                0 <= i < entries.len() ==> entry_at(#[trigger] entries[i], stream, store, i)
        },
        Err(FeedError::MissingActivity { position }) => {
            &&& position < stream.len()
            &&& feed_activity(stream, position as int) is None
            &&& forall|j: int| 0 <= j < position ==> (#[trigger] feed_activity(stream, j)) is Some
        },
    }
}

/// Assembles the feed from the activity stream (oldest first) and the
/// expansion store. The entries come newest first, one for each activity:
/// a preview where the store has nothing for the entry's key, the failure
/// marker where it has an empty payload, and the conversation built from the
/// payload, in its stored order, where it has one. A message without an
/// activity is refused, with the first feed position at which one stands.
pub fn assemble(stream: &Vec<ChatMessage>, store: &ExpansionStore) -> (r: Result<
    Vec<FeedEntry>,
    FeedError,
>)
    requires
        store.wf(),
    ensures
        assembled(r, stream@, store@),
{
    let n = stream.len();
    let mut entries: Vec<FeedEntry> = Vec::new();
    let mut i: usize = 0;
    while i < n
        invariant
            n == stream.len(),
            i <= n,
            store.wf(),
            entries.len() == i,
            forall|k: int| 0 <= k < i ==> entry_at(#[trigger] entries[k], stream@, store@, k),
            forall|k: int| 0 <= k < i ==> (#[trigger] feed_activity(stream@, k)) is Some,
        decreases n - i,
    {
        let message = &stream[n - 1 - i];
        match &message.activity {
            None => {
                return Err(FeedError::MissingActivity { position: i });
            },
            Some(activity) => {
                let key = expansion_key(i);
                let payload = store.lookup(key.as_str());
                let entry = classify(activity, key.as_str(), payload);
                entries.push(entry);
                assert(feed_activity(stream@, i as int) == Some(*activity));
                assert(entry_at(entries[i as int], stream@, store@, i as int));
            },
        }
        i += 1;
    }
    Ok(entries)
}

/// Different feed positions have different keys: one key for each entry.
pub proof fn lemma_keys_distinct(first: nat, second: nat)
    requires
        first != second,
    ensures
        expansion_key_text(first) != expansion_key_text(second),
{
    let prefix = "expanded_activity_"@;
    let a = decimal_digits(first);
    let b = decimal_digits(second);
    if prefix + a == prefix + b {
        assert((prefix + a).subrange(prefix.len() as int, (prefix + a).len() as int) =~= a);
        assert((prefix + b).subrange(prefix.len() as int, (prefix + b).len() as int) =~= b);
        lemma_decimal_injective(first, second);
    }
}

/// After an expand intent for a key, a further one for it starts no fetch
/// and changes nothing, until the fetch ends: no key has two fetches under
/// way.
pub proof fn lemma_repeated_expand_waits(m: Map<Seq<char>, ExpansionView>, key: Seq<char>)
    ensures
        !starts_fetch(after_expand(m, key), key),
        after_expand(after_expand(m, key), key) == after_expand(m, key),
{
}

/// At a feed position whose key the store does not hold, the entry is a
/// preview of the activity there, and a click asks to expand it.
pub proof fn lemma_absent_key_previews(
    entry: FeedEntry,
    stream: Seq<ChatMessage>,
    store: Map<Seq<char>, ExpansionView>,
    position: int,
)
    requires
        0 <= position < stream.len(),
        entry_at(entry, stream, store, position),
        !store.contains_key(expansion_key_text(position as nat)),
    ensures
        match entry {
            FeedEntry::Preview { activity, on_click } => {
                &&& feed_activity(stream, position) == Some(activity)
                &&& on_click@ == expand_intent(activity, expansion_key_text(position as nat))
            },
            _ => false,
        },
{
}

/// At a feed position whose key the store holds with an empty payload, the
/// entry is the failure marker, and a click asks again for the conversation.
pub proof fn lemma_empty_payload_fails(
    entry: FeedEntry,
    stream: Seq<ChatMessage>,
    store: Map<Seq<char>, ExpansionView>,
    position: int,
)
    requires
        0 <= position < stream.len(),
        entry_at(entry, stream, store, position),
        store.contains_key(expansion_key_text(position as nat)),
        store[expansion_key_text(position as nat)] == ExpansionView::Fetched(Seq::empty()),
    ensures
        match entry {
            FeedEntry::Failed { on_click } => match feed_activity(stream, position) {
                Some(activity) => on_click@ == expand_intent(
                    activity,
                    expansion_key_text(position as nat),
                ),
                None => false,
            },
            _ => false,
        },
{
}

/// At a feed position whose key the store holds with messages, the entry is
/// the conversation made of those messages in their stored order, under the
/// key as its id, and a click collapses it.
pub proof fn lemma_payload_expands(
    entry: FeedEntry,
    stream: Seq<ChatMessage>,
    store: Map<Seq<char>, ExpansionView>,
    position: int,
    messages: Seq<ChatMessage>,
)
    requires
        0 <= position < stream.len(),
        entry_at(entry, stream, store, position),
        store.contains_key(expansion_key_text(position as nat)),
        store[expansion_key_text(position as nat)] == ExpansionView::Fetched(messages),
        messages.len() > 0,
    ensures
        match entry {
            FeedEntry::Expanded { conversation, on_click } => {
                &&& conversation.messages@ == messages
                &&& conversation.id@ == expansion_key_text(position as nat)
                &&& conversation.container_id@.len() == 0
                &&& conversation.latest_delivery_time@.len() == 0
                &&& on_click@ == (IntentView::CollapseActivity {
                    key: expansion_key_text(position as nat),
                })
            },
            _ => false,
        },
{
}

} // verus!
