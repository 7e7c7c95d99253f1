//! The plain data that the feed, the navigation lists and the cache work on.

use vstd::prelude::*;

verus! {

/// A channel of a team. The channel that has its team's id is the team's
/// default channel.
#[derive(Clone, Debug, PartialEq, Eq)]
pub struct Channel {
    pub id: String,
    pub display_name: String,
}

/// A team with its channels.
#[derive(Clone, Debug, PartialEq, Eq)]
pub struct Team {
    pub id: String,
    pub display_name: String,
    pub picture_e_tag: Option<String>,
    pub group_id: String,
    pub channels: Vec<Channel>,
}

/// What a feed item points at: a message in a thread, and the reply chain
/// that it belongs to where it belongs to one.
#[derive(Clone, Debug, PartialEq, Eq)]
pub struct Activity {
    pub source_thread_id: String,
    pub source_message_id: String,
    pub source_reply_chain_id: Option<String>,
}

/// A message: a feed item where it carries an activity, else a message of a
/// conversation with its content.
#[derive(Clone, Debug, PartialEq, Eq)]
pub struct ChatMessage {
    pub id: String,
    pub content: Option<String>,
    pub activity: Option<Activity>,
}

/// A conversation with its messages, oldest first.
#[derive(Clone, Debug, PartialEq, Eq)]
pub struct Conversation {
    pub id: String,
    pub container_id: String,
    pub latest_delivery_time: String,
    pub messages: Vec<ChatMessage>,
}

/// What the user interface hands back to the update path.
#[derive(Clone, Debug, PartialEq, Eq)]
pub enum Intent {
    ExpandActivity { thread_id: String, grouping_id: String, key: String },
    CollapseActivity { key: String },
    OpenTeam { team_id: String, channel_id: String },
    PrefetchTeam { team_id: String, channel_id: String },
    FetchTeamImage { identity: String, picture_e_tag: String, group_id: String, display_name: String },
}

/// An intent with each text taken as a sequence of characters.
pub enum IntentView {
    ExpandActivity { thread_id: Seq<char>, grouping_id: Seq<char>, key: Seq<char> },
    CollapseActivity { key: Seq<char> },
    OpenTeam { team_id: Seq<char>, channel_id: Seq<char> },
    PrefetchTeam { team_id: Seq<char>, channel_id: Seq<char> },
    FetchTeamImage {
        identity: Seq<char>,
        picture_e_tag: Seq<char>,
        group_id: Seq<char>,
        display_name: Seq<char>,
    },
}

impl View for Intent {
    type V = IntentView;

    open spec fn view(&self) -> IntentView {
        match *self {
            Intent::ExpandActivity { thread_id, grouping_id, key } => IntentView::ExpandActivity {
                thread_id: thread_id@,
                grouping_id: grouping_id@,
                key: key@,
            },
            Intent::CollapseActivity { key } => IntentView::CollapseActivity { key: key@ },
            Intent::OpenTeam { team_id, channel_id } => IntentView::OpenTeam {
                team_id: team_id@,
                channel_id: channel_id@,
            },
            Intent::PrefetchTeam { team_id, channel_id } => IntentView::PrefetchTeam {
                team_id: team_id@,
                channel_id: channel_id@,
            },
            Intent::FetchTeamImage {
                identity,
                picture_e_tag,
                group_id,
                display_name,
            } => IntentView::FetchTeamImage {
                identity: identity@,
                picture_e_tag: picture_e_tag@,
                group_id: group_id@,
                display_name: display_name@,
            },
        }
    }
}

/// Copies an optional text.
pub fn copy_text(s: &Option<String>) -> (r: Option<String>)
    ensures
        r == *s,
{
    match s {
        Some(t) => Some(t.clone()),
        None => None,
    }
}

impl Channel {
    /// An equal channel.
    pub fn copy(&self) -> (r: Channel)
        ensures
            r == *self,
    {
        Channel { id: self.id.clone(), display_name: self.display_name.clone() }
    }
}

impl Activity {
    /// An equal activity.
    pub fn copy(&self) -> (r: Activity)
        ensures
            r == *self,
    {
        Activity {
            source_thread_id: self.source_thread_id.clone(),
            source_message_id: self.source_message_id.clone(),
            source_reply_chain_id: copy_text(&self.source_reply_chain_id),
        }
    }

    /// The id under which the activity's conversation is fetched: the reply
    /// chain where there is one, else the message.
    pub open spec fn grouping(&self) -> Seq<char> {
        match self.source_reply_chain_id {
            Some(chain) => chain@,
            None => self.source_message_id@,
        }
    }

    /// Writes the grouping id.
    pub fn grouping_id(&self) -> (r: String)
        ensures
            r@ == self.grouping(),
    {
        match &self.source_reply_chain_id {
            Some(chain) => chain.clone(),
            None => self.source_message_id.clone(),
        }
    }
}

impl ChatMessage {
    /// An equal message.
    pub fn copy(&self) -> (r: ChatMessage)
        ensures
            r == *self,
    {
        let activity = match &self.activity {
            Some(a) => Some(a.copy()),
            None => None,
        };
        ChatMessage { id: self.id.clone(), content: copy_text(&self.content), activity }
    }
}

/// Copies a list of messages, keeping their order.
pub fn copy_messages(messages: &Vec<ChatMessage>) -> (r: Vec<ChatMessage>)
    ensures
        r@ == messages@,
{
    let mut out: Vec<ChatMessage> = Vec::new();
    let mut i: usize = 0;
    while i < messages.len()
        invariant
            i <= messages.len(),
            out@ == messages@.take(i as int),
        decreases messages.len() - i,
    {
        out.push(messages[i].copy());
        assert(out@ =~= messages@.take(i + 1));
        i += 1;
    }
    assert(messages@.take(messages.len() as int) =~= messages@);
    out
}

} // verus!
