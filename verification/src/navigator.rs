//! The side lists: which teams a search shows, the order of a team's
//! channels, and the intents that rows emit.

use vstd::prelude::*;
use crate::model::{Channel, Intent, IntentView, Team};
use crate::text::{folded_prefix, lowercase, same_text, starts_with};

verus! {

/// Width of a channel row while the list is short.
pub const WIDE_ROW: u16 = 220;

/// Width of a channel row once the list is long.
pub const NARROW_ROW: u16 = 185;

/// The largest number of channels that still get wide rows.
pub const WIDE_ROW_LIMIT: usize = 13;

/// The room that the scrollbar takes beside the team list.
pub const SCROLLBAR_GAP: u16 = 18;

/// The test that a search applies to a team: its name, case-folded, begins
/// with the search text, case-folded.
pub open spec fn team_filter(query: Seq<char>) -> spec_fn(Team) -> bool {
    |team: Team| folded_prefix(query, team.display_name@)
}

/// The teams behind a list of references.
pub open spec fn shown(refs: Seq<&Team>) -> Seq<Team> {
    refs.map_values(|team: &Team| *team)
}

/// Whether a search for `query` shows `team`. The empty search shows every
/// team.
pub fn team_matches(team: &Team, query: &str) -> (b: bool)
    ensures
        b == team_filter(query@)(*team),
        query@.len() == 0 ==> b,
{
    let name = lowercase(team.display_name.as_str());
    let wanted = lowercase(query);
    starts_with(name.as_str(), wanted.as_str())
}

/// The teams that a search shows, in their order. The team list itself is
/// left as it is. An empty search shows every team.
pub fn filter_teams<'a>(teams: &'a Vec<Team>, query: &str) -> (r: Vec<&'a Team>)
    ensures
        shown(r@) == teams@.filter(team_filter(query@)),
        query@.len() == 0 ==> shown(r@) == teams@,
{
    let mut out: Vec<&'a Team> = Vec::new();
    let mut i: usize = 0;
    while i < teams.len()
        invariant
            i <= teams.len(),
            shown(out@) == teams@.take(i as int).filter(team_filter(query@)),
            query@.len() == 0 ==> shown(out@) == teams@.take(i as int),
        decreases teams.len() - i,
    {
        let team = &teams[i];
        let ghost before = out@;
        proof {
            assert(teams@.take(i + 1) =~= teams@.take(i as int).push(*team));
            teams@.take(i as int).lemma_filter_push(*team, team_filter(query@));
        }
        if team_matches(team, query) {
            out.push(team);
            assert(shown(out@) =~= shown(before).push(*team));
        }
        i += 1;
    }
    assert(teams@.take(teams.len() as int) =~= teams@);
    out
}

/// The padding at the right of the team column: where no team is shown the
/// scrollbar's room is kept free, so that the column does not shift.
pub fn team_column_padding(shown_teams: usize) -> (r: u16)
    ensures
        r == if shown_teams == 0 {
            SCROLLBAR_GAP
        } else {
            0
        },
{
    if shown_teams == 0 {
        SCROLLBAR_GAP
    } else {
        0
    }
}

/// The identity under which a team's picture is cached: its entity tag, or
/// its name where it has none.
pub open spec fn picture_identity(team: Team) -> Seq<char> {
    match team.picture_e_tag {
        Some(tag) => tag@,
        None => team.display_name@,
    }
}

/// Writes the identity under which a team's picture is cached.
pub fn image_identity(team: &Team) -> (r: String)
    ensures
        r@ == picture_identity(*team),
{
    match &team.picture_e_tag {
        Some(tag) => tag.clone(),
        None => team.display_name.clone(),
    }
}

/// The intent that asks for a team's picture.
pub fn team_image_request(team: &Team) -> (intent: Intent)
    ensures
        intent@ == (IntentView::FetchTeamImage {
            identity: picture_identity(*team),
            picture_e_tag: match team.picture_e_tag {
                Some(tag) => tag@,
                None => Seq::<char>::empty(),
            },
            group_id: team.group_id@,
            display_name: team.display_name@,
        }),
{
    let picture_e_tag = match &team.picture_e_tag {
        Some(tag) => tag.clone(),
        None => String::new(),
    };
    Intent::FetchTeamImage {
        identity: image_identity(team),
        picture_e_tag,
        group_id: team.group_id.clone(),
        display_name: team.display_name.clone(),
    }
}

/// What a press on a team row emits: the team opens at its default channel.
pub fn team_press(team: &Team) -> (intent: Intent)
    ensures
        intent@ == (IntentView::OpenTeam { team_id: team.id@, channel_id: team.id@ }),
{
    Intent::OpenTeam { team_id: team.id.clone(), channel_id: team.id.clone() }
}

/// What hovering a team row emits: a prefetch, which nothing waits for.
pub fn team_hover(team: &Team) -> (intent: Intent)
    ensures
        intent@ == (IntentView::PrefetchTeam { team_id: team.id@, channel_id: team.id@ }),
{
    Intent::PrefetchTeam { team_id: team.id.clone(), channel_id: team.id.clone() }
}

/// What releasing a channel row emits.
pub fn channel_release(team: &Team, channel: &Channel) -> (intent: Intent)
    ensures
        intent@ == (IntentView::OpenTeam { team_id: team.id@, channel_id: channel.id@ }),
{
    Intent::OpenTeam { team_id: team.id.clone(), channel_id: channel.id.clone() }
}

/// What hovering a channel row emits.
pub fn channel_hover(team: &Team, channel: &Channel) -> (intent: Intent)
    ensures
        intent@ == (IntentView::PrefetchTeam { team_id: team.id@, channel_id: channel.id@ }),
{
    Intent::PrefetchTeam { team_id: team.id.clone(), channel_id: channel.id.clone() }
}

/// A row is selected exactly when its id is that of what is open.
pub fn is_selected(row_id: &str, open_id: &str) -> (b: bool)
    ensures
        b == (row_id@ == open_id@),
{
    same_text(row_id, open_id)
}

/// The width of a channel row: wide up to the limit, narrow beyond it.
pub open spec fn row_width(channel_count: nat) -> u16 {
    if channel_count <= WIDE_ROW_LIMIT {
        WIDE_ROW
    } else {
        NARROW_ROW
    }
}

/// The width of the rows of a channel list with `channel_count` channels.
pub fn channel_column_width(channel_count: usize) -> (w: u16)
    ensures
        w == row_width(channel_count as nat),
{
    if channel_count <= WIDE_ROW_LIMIT {
        WIDE_ROW
    } else {
        NARROW_ROW
    }
}

/// The test for a team's default channel: the one that has the team's id.
pub open spec fn is_default(team_id: Seq<char>) -> spec_fn(Channel) -> bool {
    |channel: Channel| channel.id@ == team_id
}

/// The test for every other channel of the team.
pub open spec fn is_other(team_id: Seq<char>) -> spec_fn(Channel) -> bool {
    |channel: Channel| channel.id@ != team_id
}

/// The channels with the default channel moved to the front, the others
/// following in the order they had.
pub open spec fn default_first(channels: Seq<Channel>, team_id: Seq<char>) -> Seq<Channel> {
    channels.filter(is_default(team_id)) + channels.filter(is_other(team_id))
}

/// Orders a team's channels: the default channel first, the rest as they
/// were. Nothing else of the team changes.
pub fn sort_channels(team: &mut Team)
    ensures
        final(team).channels@ == default_first(old(team).channels@, old(team).id@),
        final(team).id == old(team).id,
        final(team).display_name == old(team).display_name,
        final(team).picture_e_tag == old(team).picture_e_tag,
        final(team).group_id == old(team).group_id,
{
    let mut front: Vec<Channel> = Vec::new();
    let mut back: Vec<Channel> = Vec::new();
    let n = team.channels.len();
    let mut i: usize = 0;
    while i < n
        invariant
            *team == *old(team),
            n == team.channels.len(),
            i <= n,
            front@ == team.channels@.take(i as int).filter(is_default(team.id@)),
            back@ == team.channels@.take(i as int).filter(is_other(team.id@)),
        decreases n - i,
    {
        let channel = team.channels[i].copy();
        proof {
            let seen = team.channels@.take(i as int);
            assert(team.channels@.take(i + 1) =~= seen.push(channel));
            seen.lemma_filter_push(channel, is_default(team.id@));
            seen.lemma_filter_push(channel, is_other(team.id@));
        }
        if same_text(channel.id.as_str(), team.id.as_str()) {
            front.push(channel);
        } else {
            back.push(channel);
        }
        i += 1;
    }
    assert(team.channels@.take(n as int) =~= team.channels@);
    front.append(&mut back);
    team.channels = front;
}

proof fn lemma_filter_keeps_all<A>(s: Seq<A>, p: spec_fn(A) -> bool)
    requires
        forall|i: int| 0 <= i < s.len() ==> p(#[trigger] s[i]),
    ensures
        s.filter(p) == s,
    decreases s.len(),
{
    reveal(Seq::filter);
    if s.len() > 0 {
        lemma_filter_keeps_all(s.drop_last(), p);
        assert(s.drop_last().push(s.last()) =~= s);
    }
}

proof fn lemma_filter_keeps_none<A>(s: Seq<A>, p: spec_fn(A) -> bool)
    requires
        forall|i: int| 0 <= i < s.len() ==> !p(#[trigger] s[i]),
    ensures
        s.filter(p) == Seq::<A>::empty(),
    decreases s.len(),
{
    reveal(Seq::filter);
    if s.len() > 0 {
        lemma_filter_keeps_none(s.drop_last(), p);
    }
}

/// A search with the empty text, or with any text that every team's name
/// begins with, shows all teams in their order.
pub proof fn lemma_filter_shows_all(teams: Seq<Team>, query: Seq<char>)
    requires
        forall|i: int| 0 <= i < teams.len() ==> folded_prefix(query, (#[trigger] teams[i]).display_name@),
    ensures
        teams.filter(team_filter(query)) == teams,
{
    lemma_filter_keeps_all(teams, team_filter(query));
}

/// A search shows exactly the teams whose name, case-folded, begins with the
/// search text, case-folded: every team shown passes the test and stands in
/// the list, and every team of the list that passes is shown.
pub proof fn lemma_filter_exact(teams: Seq<Team>, query: Seq<char>)
    ensures
        forall|k: int|
            0 <= k < teams.filter(team_filter(query)).len() ==> {
                let team = #[trigger] teams.filter(team_filter(query))[k];
                folded_prefix(query, team.display_name@) && teams.contains(team)
            },
        forall|i: int|
            0 <= i < teams.len() && folded_prefix(query, teams[i].display_name@)
                ==> teams.filter(team_filter(query)).contains(#[trigger] teams[i]),
{
    let p = team_filter(query);
    let out = teams.filter(p);
    assert forall|k: int| 0 <= k < out.len() implies {
        let team = #[trigger] out[k];
        folded_prefix(query, team.display_name@) && teams.contains(team)
    } by {
        teams.lemma_filter_pred(p, k);
        assert(out.contains(out[k]));
        teams.lemma_filter_contains_rev(p, out[k]);
    }
    assert forall|i: int|
        0 <= i < teams.len() && folded_prefix(query, teams[i].display_name@) implies out.contains(
        #[trigger] teams[i],
    ) by {
        assert(p(teams[i]));
        teams.lemma_filter_contains(p, i);
    }
}

/// Where a team has a channel with the team's id, that channel stands first
/// after ordering.
pub proof fn lemma_default_channel_first(channels: Seq<Channel>, team_id: Seq<char>)
    requires
        exists|i: int| 0 <= i < channels.len() && (#[trigger] channels[i]).id@ == team_id,
    ensures
        default_first(channels, team_id).len() > 0,
        default_first(channels, team_id)[0].id@ == team_id,
{
    let i = choose|i: int| 0 <= i < channels.len() && (#[trigger] channels[i]).id@ == team_id;
    let p = is_default(team_id);
    let front = channels.filter(p);
    assert(p(channels[i]));
    channels.lemma_filter_contains(p, i);
    channels.lemma_filter_pred(p, 0);
}

/// Ordering is stable and loses nothing: the channels other than the default
/// keep their order, so do the default ones, and the count stays.
pub proof fn lemma_channel_order_stable(channels: Seq<Channel>, team_id: Seq<char>)
    ensures
        default_first(channels, team_id).filter(is_other(team_id)) == channels.filter(
            is_other(team_id),
        ),
        default_first(channels, team_id).filter(is_default(team_id)) == channels.filter(
            is_default(team_id),
        ),
        default_first(channels, team_id).len() == channels.len(),
        default_first(channels, team_id).to_multiset() == channels.to_multiset(),
{
    let d = is_default(team_id);
    let o = is_other(team_id);
    let front = channels.filter(d);
    let back = channels.filter(o);
    assert forall|k: int| 0 <= k < front.len() implies d(#[trigger] front[k]) && !o(front[k]) by {
        channels.lemma_filter_pred(d, k);
    }
    assert forall|k: int| 0 <= k < back.len() implies o(#[trigger] back[k]) && !d(back[k]) by {
        channels.lemma_filter_pred(o, k);
    }
    lemma_filter_keeps_all(front, d);
    lemma_filter_keeps_none(front, o);
    lemma_filter_keeps_all(back, o);
    lemma_filter_keeps_none(back, d);
    Seq::filter_distributes_over_add(front, back, d);
    Seq::filter_distributes_over_add(front, back, o);
    assert(front + Seq::<Channel>::empty() =~= front);
    assert(Seq::<Channel>::empty() + back =~= back);
    lemma_split_keeps_items(channels, team_id);
}

proof fn lemma_split_keeps_items(channels: Seq<Channel>, team_id: Seq<char>)
    ensures
        default_first(channels, team_id).len() == channels.len(),
        default_first(channels, team_id).to_multiset() == channels.to_multiset(),
    decreases channels.len(),
{
    broadcast use vstd::seq_lib::group_to_multiset_ensures;

    let d = is_default(team_id);
    let o = is_other(team_id);
    if channels.len() == 0 {
        reveal(Seq::filter);
        assert(default_first(channels, team_id) =~= channels);
    } else {
        let rest = channels.drop_last();
        let last = channels.last();
        lemma_split_keeps_items(rest, team_id);
        assert(rest.push(last) =~= channels);
        rest.lemma_filter_push(last, d);
        rest.lemma_filter_push(last, o);
        vstd::seq_lib::lemma_multiset_commutative(rest.filter(d), rest.filter(o));
        vstd::seq_lib::lemma_multiset_commutative(channels.filter(d), channels.filter(o));
        assert(channels.to_multiset() =~= rest.to_multiset().insert(last));
        if d(last) {
            assert(channels.filter(d).to_multiset() =~= rest.filter(d).to_multiset().insert(last));
        } else {
            assert(channels.filter(o).to_multiset() =~= rest.filter(o).to_multiset().insert(last));
        }
        assert(default_first(channels, team_id).to_multiset() =~= channels.to_multiset());
    }
}

} // verus!
