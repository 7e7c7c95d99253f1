use squads_core::model::{Channel, Intent, Team};
use squads_core::navigator::{
    channel_column_width, channel_hover, channel_release, filter_teams, image_identity,
    is_selected, sort_channels, team_column_padding, team_hover, team_image_request, team_matches,
    team_press,
};

fn channel(id: &str, name: &str) -> Channel {
    Channel { id: id.to_string(), display_name: name.to_string() }
}

fn team_named(id: &str, name: &str, tag: Option<&str>) -> Team {
    Team {
        id: id.to_string(),
        display_name: name.to_string(),
        picture_e_tag: tag.map(|t| t.to_string()),
        group_id: format!("group-{}", id),
        channels: Vec::new(),
    }
}

fn sample_teams() -> Vec<Team> {
    vec![
        team_named("1", "Alpha", Some("etag-1")),
        team_named("2", "beta", None),
        team_named("3", "ALPINE club", None),
        team_named("4", "Gamma", None),
    ]
}

fn names(teams: &[&Team]) -> Vec<String> {
    teams.iter().map(|t| t.display_name.clone()).collect()
}

#[test]
fn empty_search_shows_all_teams_in_order() {
    let teams = sample_teams();
    let before = teams.clone();
    let visible = filter_teams(&teams, "");
    assert_eq!(visible.len(), 4);
    for (shown, team) in visible.iter().zip(before.iter()) {
        assert_eq!(*shown, team);
    }
    assert_eq!(teams, before);
}

#[test]
fn search_keeps_case_insensitive_prefix_matches() {
    let teams = sample_teams();
    assert_eq!(names(&filter_teams(&teams, "AL")), vec!["Alpha", "ALPINE club"]);
    assert_eq!(names(&filter_teams(&teams, "alp")), vec!["Alpha", "ALPINE club"]);
    assert_eq!(names(&filter_teams(&teams, "alph")), vec!["Alpha"]);
    assert_eq!(names(&filter_teams(&teams, "BETA")), vec!["beta"]);
    assert_eq!(names(&filter_teams(&teams, "lpha")), Vec::<String>::new());
    assert_eq!(names(&filter_teams(&teams, "Alphabet")), Vec::<String>::new());
}

#[test]
fn team_matches_folds_both_sides() {
    let t = team_named("1", "Alpha", None);
    assert!(team_matches(&t, ""));
    assert!(team_matches(&t, "a"));
    assert!(team_matches(&t, "ALPHA"));
    assert!(!team_matches(&t, "b"));
    assert!(!team_matches(&t, "alphas"));
}

#[test]
fn empty_result_reserves_scrollbar_room() {
    let teams = sample_teams();
    let visible = filter_teams(&teams, "zzz");
    assert!(visible.is_empty());
    assert_eq!(team_column_padding(visible.len()), 18);
    assert_eq!(team_column_padding(1), 0);
    assert_eq!(team_column_padding(4), 0);
}

#[test]
fn default_channel_sorts_first_and_rest_keep_order() {
    let mut t = team_named("team-9", "Nine", None);
    t.channels = vec![
        channel("c-b", "Beta"),
        channel("c-a", "Alpha"),
        channel("team-9", "General"),
        channel("c-z", "Zeta"),
        channel("c-c", "Gamma"),
    ];
    sort_channels(&mut t);
    let ids: Vec<&str> = t.channels.iter().map(|c| c.id.as_str()).collect();
    assert_eq!(ids, vec!["team-9", "c-b", "c-a", "c-z", "c-c"]);
    assert_eq!(t.channels[0], channel("team-9", "General"));
    assert_eq!(t.id, "team-9");
    assert_eq!(t.display_name, "Nine");
}

#[test]
fn channels_without_default_keep_their_order() {
    let mut t = team_named("team-9", "Nine", None);
    t.channels = vec![channel("c-b", "Beta"), channel("c-a", "Alpha")];
    let before = t.clone();
    sort_channels(&mut t);
    assert_eq!(t, before);
    let mut empty = team_named("e", "Empty", None);
    sort_channels(&mut empty);
    assert!(empty.channels.is_empty());
}

#[test]
fn column_width_changes_after_thirteen_channels() {
    assert_eq!(channel_column_width(13), 220);
    assert_eq!(channel_column_width(14), 185);
    assert_eq!(channel_column_width(0), 220);
    assert_eq!(channel_column_width(1000), 185);
}

#[test]
fn selection_is_equality_of_ids() {
    assert!(is_selected("c-1", "c-1"));
    assert!(!is_selected("c-1", "c-2"));
    assert!(!is_selected("c-1", "C-1"));
    assert!(is_selected("", ""));
}

#[test]
fn picture_identity_falls_back_to_name() {
    assert_eq!(image_identity(&team_named("1", "Alpha", Some("etag-1"))), "etag-1");
    assert_eq!(image_identity(&team_named("2", "beta", None)), "beta");
}

#[test]
fn picture_request_carries_identity_tag_group_and_name() {
    assert_eq!(
        team_image_request(&team_named("1", "Alpha", Some("etag-1"))),
        Intent::FetchTeamImage {
            identity: "etag-1".to_string(),
            picture_e_tag: "etag-1".to_string(),
            group_id: "group-1".to_string(),
            display_name: "Alpha".to_string(),
        }
    );
    assert_eq!(
        team_image_request(&team_named("2", "beta", None)),
        Intent::FetchTeamImage {
            identity: "beta".to_string(),
            picture_e_tag: String::new(),
            group_id: "group-2".to_string(),
            display_name: "beta".to_string(),
        }
    );
}

#[test]
fn rows_emit_open_and_prefetch_intents() {
    let t = team_named("7", "Seven", None);
    let c = channel("c-1", "One");
    assert_eq!(
        team_press(&t),
        Intent::OpenTeam { team_id: "7".to_string(), channel_id: "7".to_string() }
    );
    assert_eq!(
        team_hover(&t),
        Intent::PrefetchTeam { team_id: "7".to_string(), channel_id: "7".to_string() }
    );
    assert_eq!(
        channel_release(&t, &c),
        Intent::OpenTeam { team_id: "7".to_string(), channel_id: "c-1".to_string() }
    );
    assert_eq!(
        channel_hover(&t, &c),
        Intent::PrefetchTeam { team_id: "7".to_string(), channel_id: "c-1".to_string() }
    );
}
