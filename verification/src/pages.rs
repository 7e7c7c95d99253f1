//! The two pages as plain values: everything a renderer needs to draw the
//! home page and a team's page.

use vstd::prelude::*;
use crate::cache::{location_text, ResourceCache};
use crate::feed::{assemble, assembled, ExpansionStore, FeedEntry, FeedError};
use crate::keyed::KeyedStore;
use crate::model::{Channel, ChatMessage, Conversation, Intent, IntentView, Team};
use crate::navigator::{
    channel_column_width, channel_hover, channel_release, default_first, filter_teams,
    image_identity, is_selected, picture_identity, row_width, shown, sort_channels,
    team_column_padding, team_filter, team_hover, team_image_request, team_press, SCROLLBAR_GAP,
};
use crate::threads::{page_threads, thread_of, Thread};

verus! {

/// One row of the team list.
#[derive(Clone, Debug, PartialEq, Eq)]
pub struct TeamRow {
    pub team_id: String,
    pub display_name: String,
    pub picture_identity: String,
    pub picture_request: Intent,
    pub on_press: Intent,
    pub on_enter: Intent,
}

/// The home page: the team list beside the activity feed.
#[derive(Clone, Debug, PartialEq, Eq)]
pub struct HomePage {
    pub team_rows: Vec<TeamRow>,
    pub team_column_padding: u16,
    pub feed: Vec<FeedEntry>,
}

/// One row of a team's channel list.
#[derive(Clone, Debug, PartialEq, Eq)]
pub struct ChannelRow {
    pub channel_id: String,
    pub display_name: String,
    pub selected: bool,
    pub width: u16,
    pub on_enter: Intent,
    pub on_release: Intent,
}

/// A team's page: its channel list, the conversations of the open channel
/// and the file of the team's picture.
#[derive(Clone, Debug, PartialEq, Eq)]
pub struct TeamPage {
    pub threads: Vec<Thread>,
    pub picture_location: String,
    pub channel_rows: Vec<ChannelRow>,
}

/// Whether `row` is the list row of `team`.
pub open spec fn team_row_of(row: TeamRow, team: Team) -> bool {
    &&& row.team_id == team.id
    &&& row.display_name == team.display_name
    &&& row.picture_identity@ == picture_identity(team)
    &&& row.picture_request@ == (IntentView::FetchTeamImage {
        identity: picture_identity(team),
        picture_e_tag: match team.picture_e_tag {
            Some(tag) => tag@,
            None => Seq::<char>::empty(),
        },
        group_id: team.group_id@,
        display_name: team.display_name@,
    })
    &&& row.on_press@ == (IntentView::OpenTeam { team_id: team.id@, channel_id: team.id@ })
    &&& row.on_enter@ == (IntentView::PrefetchTeam { team_id: team.id@, channel_id: team.id@ })
}

/// Builds the list row of a team.
pub fn team_row(team: &Team) -> (row: TeamRow)
    ensures
        team_row_of(row, *team),
{
    TeamRow {
        team_id: team.id.clone(),
        display_name: team.display_name.clone(),
        picture_identity: image_identity(team),
        picture_request: team_image_request(team),
        on_press: team_press(team),
        on_enter: team_hover(team),
    }
}

/// Whether `rows` lists `teams`, row for team, in order.
pub open spec fn team_rows_of(rows: Seq<TeamRow>, teams: Seq<Team>) -> bool {
    &&& rows.len() == teams.len()
    &&& forall|k: int| 0 <= k < rows.len() ==> team_row_of(#[trigger] rows[k], teams[k])
}

/// The home page: the rows of the teams that the search shows, the padding
/// that keeps the column in place when it shows none, and the activity feed.
/// Fails as the feed does.
pub fn home(
    teams: &Vec<Team>,
    activities: &Vec<ChatMessage>,
    expanded_conversations: &ExpansionStore,
    search_teams_input_value: &str,
) -> (r: Result<HomePage, FeedError>)
    requires
        expanded_conversations.wf(),
    ensures
        match r {
            Ok(page) => {
                let visible = teams@.filter(team_filter(search_teams_input_value@));
                &&& team_rows_of(page.team_rows@, visible)
                &&& page.team_column_padding == if visible.len() == 0 {
                    SCROLLBAR_GAP
                } else {
                    0
                }
                &&& assembled(Ok(page.feed), activities@, expanded_conversations@)
            },
            Err(error) => assembled(Err(error), activities@, expanded_conversations@),
        },
{
    let visible = filter_teams(teams, search_teams_input_value);
    let mut team_rows: Vec<TeamRow> = Vec::new();
    let mut i: usize = 0;
    while i < visible.len()
        invariant
            i <= visible.len(),
            team_rows.len() == i,
            forall|k: int| 0 <= k < i ==> team_row_of(#[trigger] team_rows[k], shown(visible@)[k]),
        decreases visible.len() - i,
    {
        let row = team_row(visible[i]);
        assert(shown(visible@)[i as int] == *visible[i as int]);
        team_rows.push(row);
        i += 1;
    }
    let padding = team_column_padding(visible.len());
    match assemble(activities, expanded_conversations) {
        Ok(feed) => Ok(HomePage { team_rows, team_column_padding: padding, feed }),
        Err(error) => Err(error),
    }
}

/// Whether `row` is the list row of `channel` in a team with `count`
/// channels, while the channel `open_id` is open.
pub open spec fn channel_row_of(
    row: ChannelRow,
    channel: Channel,
    team_id: Seq<char>,
    open_id: Seq<char>,
    count: nat,
) -> bool {
    &&& row.channel_id == channel.id
    &&& row.display_name == channel.display_name
    &&& row.selected == (channel.id@ == open_id)
    &&& row.width == row_width(count)
    &&& row.on_enter@ == (IntentView::PrefetchTeam { team_id, channel_id: channel.id@ })
    &&& row.on_release@ == (IntentView::OpenTeam { team_id, channel_id: channel.id@ })
}

/// A team's page. The team's channels are put in order, the default channel
/// first; the page lists them so, with the open channel selected, beside the
/// conversations of the open channel and the place of the team's picture.
pub fn team(
    page_team: &mut Team,
    page_channel: &Channel,
    conversations: Option<&Vec<Conversation>>,
    reply_options: &KeyedStore<bool>,
    cache: &ResourceCache,
) -> (page: TeamPage)
    requires
        reply_options.wf(),
    ensures
        final(page_team).channels@ == default_first(old(page_team).channels@, old(page_team).id@),
        final(page_team).id == old(page_team).id,
        final(page_team).display_name == old(page_team).display_name,
        final(page_team).picture_e_tag == old(page_team).picture_e_tag,
        final(page_team).group_id == old(page_team).group_id,
        page.picture_location@ == location_text(cache.root(), picture_identity(*old(page_team))),
        match conversations {
            Some(list) => {
                &&& page.threads.len() == list.len()
                &&& forall|k: int|
                    0 <= k < list.len() ==> thread_of(
                        #[trigger] page.threads[k],
                        list[list.len() - 1 - k],
                        reply_options@,
                    )
            },
            None => page.threads.len() == 0,
        },
        page.channel_rows.len() == final(page_team).channels.len(),
        forall|k: int|
            0 <= k < page.channel_rows.len() ==> channel_row_of(
                #[trigger] page.channel_rows[k],
                final(page_team).channels[k],
                old(page_team).id@,
                page_channel.id@,
                old(page_team).channels.len() as nat,
            ),
{
    let threads = page_threads(conversations, reply_options);
    let picture_location = cache.team_picture_location(page_team);
    let channel_count = page_team.channels.len();
    let width = channel_column_width(channel_count);
    sort_channels(page_team);
    let mut channel_rows: Vec<ChannelRow> = Vec::new();
    let n = page_team.channels.len();
    let mut i: usize = 0;
    while i < n
        invariant
            n == page_team.channels.len(),
            i <= n,
            channel_rows.len() == i,
            width == row_width(channel_count as nat),
            forall|k: int|
                0 <= k < i ==> channel_row_of(
                    #[trigger] channel_rows[k],
                    page_team.channels[k],
                    page_team.id@,
                    page_channel.id@,
                    channel_count as nat,
                ),
        decreases n - i,
    {
        let channel = &page_team.channels[i];
        let row = ChannelRow {
            channel_id: channel.id.clone(),
            display_name: channel.display_name.clone(),
            selected: is_selected(channel.id.as_str(), page_channel.id.as_str()),
            width,
            on_enter: channel_hover(page_team, channel),
            on_release: channel_release(page_team, channel),
        };
        channel_rows.push(row);
        i += 1;
    }
    TeamPage { threads, picture_location, channel_rows }
}

} // verus!
