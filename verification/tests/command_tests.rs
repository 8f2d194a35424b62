use courtcode::commands::playlist_commands::{
    add_tag_to_playlist, create_playlist, find_playlist, remove_tag_from_playlist, rename_playlist_at,
    select_playlist_tags, share_link, share_playlist, update_playlist_name,
};
use courtcode::commands::tag_commands::{create_tag, default_code_window, filter_tags, update_tag_players};
use courtcode::commands::video_commands::import_video;
use courtcode::models::playlist::{CreatePlaylistRequest, Playlist};
use courtcode::models::tag::{CourtZone, CreateTagRequest, Possession, ShotResult, Tag, TagCategory, TagFilter};
use courtcode::models::video::ImportVideoRequest;
use courtcode::text::contains_substring;

fn tag(video: &str, label: &str, category: TagCategory, quarter: Option<u8>, players: &[&str]) -> Tag {
    let mut t = Tag::new(video.to_string(), "button".to_string(), label.to_string(), category);
    t.quarter = quarter;
    t.player_ids = players.iter().map(|p| p.to_string()).collect();
    t
}

fn no_filter() -> TagFilter {
    TagFilter { video_ids: None, categories: None, player_ids: None, quarter: None, label_contains: None }
}

fn playlist(name: &str, ids: &[&str]) -> Playlist {
    let mut p = Playlist::new(name.to_string());
    p.tag_ids = ids.iter().map(|s| s.to_string()).collect();
    p
}

#[test]
fn create_tag_copies_the_request() {
    let tag = create_tag(CreateTagRequest {
        video_id: "v1".to_string(),
        code_button_id: "b1".to_string(),
        label: "Pick & Roll".to_string(),
        category: TagCategory::Offense,
        quarter: Some(2),
        player_ids: None,
        notes: Some("good screen".to_string()),
        court_zone: Some(CourtZone::Paint),
        shot_result: Some(ShotResult::Made),
        possession: Some(Possession::Home),
    });
    assert_eq!(tag.video_id, "v1");
    assert_eq!(tag.code_button_id, "b1");
    assert_eq!(tag.label, "Pick & Roll");
    assert!(tag.category == TagCategory::Offense);
    assert_eq!(tag.quarter, Some(2));
    assert!(tag.player_ids.is_empty());
    assert_eq!(tag.notes.as_deref(), Some("good screen"));
    assert!(tag.draw_data.is_none());
    assert_eq!(tag.court_zone, Some(CourtZone::Paint));
    assert_eq!(tag.shot_result, Some(ShotResult::Made));
    assert_eq!(tag.possession, Some(Possession::Home));
    assert_eq!(tag.id.len(), 36);
}

#[test]
fn create_tag_keeps_given_players() {
    let tag = create_tag(CreateTagRequest {
        video_id: "v1".to_string(),
        code_button_id: "b1".to_string(),
        label: "Isolation".to_string(),
        category: TagCategory::Offense,
        quarter: None,
        player_ids: Some(vec!["p1".to_string(), "p2".to_string()]),
        notes: None,
        court_zone: None,
        shot_result: None,
        possession: None,
    });
    assert_eq!(tag.player_ids, vec!["p1".to_string(), "p2".to_string()]);
}

#[test]
fn unrestricted_filter_keeps_all_tags() {
    let tags = vec![
        tag("v1", "Press", TagCategory::Defense, Some(4), &[]),
        tag("v2", "Isolation", TagCategory::Offense, None, &["p1"]),
    ];
    assert_eq!(filter_tags(&tags, &no_filter()), vec![0, 1]);
    assert_eq!(filter_tags(&Vec::new(), &no_filter()), Vec::<usize>::new());
}

#[test]
fn filter_by_video_and_category() {
    let tags = vec![
        tag("v1", "Pick & Roll", TagCategory::Offense, Some(1), &[]),
        tag("v1", "Man Defense", TagCategory::Defense, Some(1), &[]),
        tag("v2", "Isolation", TagCategory::Offense, Some(1), &[]),
        tag("v1", "Isolation", TagCategory::Offense, Some(2), &[]),
    ];
    let mut filter = no_filter();
    filter.video_ids = Some(vec!["v1".to_string()]);
    filter.categories = Some(vec![TagCategory::Offense]);
    assert_eq!(filter_tags(&tags, &filter), vec![0, 3]);
    filter.quarter = Some(2);
    assert_eq!(filter_tags(&tags, &filter), vec![3]);
    filter.quarter = Some(3);
    assert_eq!(filter_tags(&tags, &filter), Vec::<usize>::new());
}

#[test]
fn filter_by_custom_category() {
    let tags = vec![
        tag("v1", "Horns", TagCategory::Custom("Horns".to_string()), None, &[]),
        tag("v1", "Flex", TagCategory::Custom("Flex".to_string()), None, &[]),
    ];
    let mut filter = no_filter();
    filter.categories = Some(vec![TagCategory::Custom("Flex".to_string()), TagCategory::Foul]);
    assert_eq!(filter_tags(&tags, &filter), vec![1]);
}

#[test]
fn filter_by_any_listed_player() {
    let tags = vec![
        tag("v1", "a", TagCategory::Offense, None, &["p1", "p2"]),
        tag("v1", "b", TagCategory::Offense, None, &["p3"]),
        tag("v1", "c", TagCategory::Offense, None, &[]),
    ];
    let mut filter = no_filter();
    filter.player_ids = Some(vec!["p3".to_string(), "p2".to_string()]);
    assert_eq!(filter_tags(&tags, &filter), vec![0, 1]);
    filter.player_ids = Some(Vec::new());
    assert_eq!(filter_tags(&tags, &filter), Vec::<usize>::new());
}

#[test]
fn filter_by_label_ignores_case() {
    let tags = vec![
        tag("v1", "Pick & Roll", TagCategory::Offense, None, &[]),
        tag("v1", "Transition Offense", TagCategory::Transition, None, &[]),
        tag("v1", "ÉCLAIR", TagCategory::Custom("x".to_string()), None, &[]),
    ];
    let mut filter = no_filter();
    filter.label_contains = Some("PICK".to_string());
    assert_eq!(filter_tags(&tags, &filter), vec![0]);
    filter.label_contains = Some("offense".to_string());
    assert_eq!(filter_tags(&tags, &filter), vec![1]);
    filter.label_contains = Some("éclair".to_string());
    assert_eq!(filter_tags(&tags, &filter), vec![2]);
    filter.label_contains = Some(String::new());
    assert_eq!(filter_tags(&tags, &filter), vec![0, 1, 2]);
}

#[test]
fn substring_search_edges() {
    assert!(contains_substring("abc", ""));
    assert!(contains_substring("", ""));
    assert!(!contains_substring("", "a"));
    assert!(contains_substring("abcabd", "abd"));
    assert!(!contains_substring("ab", "abc"));
    assert!(contains_substring("pick & roll", "k & r"));
}

#[test]
fn update_tag_players_replaces_players() {
    let tags = vec![
        tag("v1", "a", TagCategory::Offense, None, &["p1"]),
        tag("v1", "b", TagCategory::Defense, Some(3), &["p2"]),
    ];
    let wanted = tags[1].id.clone();
    let updated = update_tag_players(tags, &wanted, vec!["p7".to_string(), "p8".to_string()]).unwrap();
    assert_eq!(updated.id, wanted);
    assert_eq!(updated.label, "b");
    assert_eq!(updated.quarter, Some(3));
    assert_eq!(updated.player_ids, vec!["p7".to_string(), "p8".to_string()]);
}

#[test]
fn update_tag_players_unknown_id() {
    let tags = vec![tag("v1", "a", TagCategory::Offense, None, &[])];
    let res = update_tag_players(tags, &"missing".to_string(), Vec::new());
    assert_eq!(res.unwrap_err(), "Tag not found");
}

#[test]
fn default_code_window_is_the_basketball_template() {
    let window = default_code_window().unwrap();
    assert_eq!(window.name, "Basketball Default");
    assert_eq!(window.buttons.len(), 16);
}

#[test]
fn import_video_fills_request_and_size() {
    let req = ImportVideoRequest {
        file_path: "/videos/game1_vs_lakers.mp4".to_string(),
        title: "Game 1 vs Lakers".to_string(),
        game_date: Some("2024-11-15".to_string()),
        home_team: Some("Celtics".to_string()),
        away_team: Some("Lakers".to_string()),
        venue: Some("TD Garden".to_string()),
    };
    let video = import_video(req, Some(4096));
    assert_eq!(video.title, "Game 1 vs Lakers");
    assert_eq!(video.file_path, "/videos/game1_vs_lakers.mp4");
    assert_eq!(video.game_date.as_deref(), Some("2024-11-15"));
    assert_eq!(video.home_team.as_deref(), Some("Celtics"));
    assert_eq!(video.away_team.as_deref(), Some("Lakers"));
    assert_eq!(video.venue.as_deref(), Some("TD Garden"));
    assert_eq!(video.file_size_bytes, 4096);
    assert_eq!(video.width, 1920);
}

#[test]
fn import_video_without_size_keeps_zero() {
    let req = ImportVideoRequest {
        file_path: "/nowhere.mp4".to_string(),
        title: "Missing".to_string(),
        game_date: None,
        home_team: None,
        away_team: None,
        venue: None,
    };
    let video = import_video(req, None);
    assert_eq!(video.file_size_bytes, 0);
    assert!(video.game_date.is_none());
}

#[test]
fn create_playlist_copies_the_request() {
    let playlist = create_playlist(CreatePlaylistRequest {
        name: "Q4 Offense Breakdown".to_string(),
        description: Some("Key offensive possessions in Q4".to_string()),
        tag_ids: vec!["t1".to_string(), "t2".to_string()],
    });
    assert_eq!(playlist.name, "Q4 Offense Breakdown");
    assert_eq!(playlist.description.as_deref(), Some("Key offensive possessions in Q4"));
    assert_eq!(playlist.clip_count(), 2);
    assert!(!playlist.is_shared);
    assert_eq!(playlist.id.len(), 36);
}

#[test]
fn find_playlist_takes_the_first_match() {
    let a = playlist("a", &["t1"]);
    let mut b = playlist("b", &["t2"]);
    b.id = a.id.clone();
    let id = a.id.clone();
    let found = find_playlist(vec![playlist("c", &[]), a, b], &id).unwrap();
    assert_eq!(found.name, "a");
}

#[test]
fn find_playlist_reports_missing() {
    let res = find_playlist(vec![playlist("a", &[])], &"nope".to_string());
    assert_eq!(res.unwrap_err(), "Playlist not found");
    assert_eq!(find_playlist(Vec::new(), &"nope".to_string()).unwrap_err(), "Playlist not found");
}

#[test]
fn add_tag_appends_once() {
    let p = playlist("a", &["t1"]);
    let id = p.id.clone();
    let (once, changed) = add_tag_to_playlist(vec![p], &id, "t2".to_string()).unwrap();
    assert!(changed);
    assert_eq!(once.tag_ids, vec!["t1".to_string(), "t2".to_string()]);
    let (twice, changed_again) = add_tag_to_playlist(vec![once], &id, "t2".to_string()).unwrap();
    assert!(!changed_again);
    assert_eq!(twice.tag_ids, vec!["t1".to_string(), "t2".to_string()]);
    assert_eq!(twice.name, "a");
}

#[test]
fn add_tag_to_unknown_playlist() {
    let res = add_tag_to_playlist(vec![playlist("a", &[])], &"nope".to_string(), "t".to_string());
    assert_eq!(res.unwrap_err(), "Playlist not found");
}

#[test]
fn remove_tag_drops_every_occurrence() {
    let p = playlist("a", &["t1", "t2", "t3", "t2"]);
    let id = p.id.clone();
    let after = remove_tag_from_playlist(vec![p], &id, &"t2".to_string()).unwrap();
    assert_eq!(after.tag_ids, vec!["t1".to_string(), "t3".to_string()]);
    let same = remove_tag_from_playlist(vec![after], &id, &"t9".to_string()).unwrap();
    assert_eq!(same.tag_ids, vec!["t1".to_string(), "t3".to_string()]);
    let res = remove_tag_from_playlist(vec![same], &"nope".to_string(), &"t1".to_string());
    assert_eq!(res.unwrap_err(), "Playlist not found");
}

#[test]
fn remove_undoes_add() {
    let p = playlist("a", &["t1", "t3"]);
    let id = p.id.clone();
    let (added, changed) = add_tag_to_playlist(vec![p], &id, "t2".to_string()).unwrap();
    assert!(changed);
    let back = remove_tag_from_playlist(vec![added], &id, &"t2".to_string()).unwrap();
    assert_eq!(back.tag_ids, vec!["t1".to_string(), "t3".to_string()]);
}

#[test]
fn rename_playlist() {
    let p = playlist("old", &["t1"]);
    let id = p.id.clone();
    let renamed = update_playlist_name(vec![p], &id, "new".to_string()).unwrap();
    assert_eq!(renamed.name, "new");
    assert_eq!(renamed.tag_ids, vec!["t1".to_string()]);
    let res = update_playlist_name(Vec::new(), &id, "x".to_string());
    assert_eq!(res.unwrap_err(), "Playlist not found");
}

#[test]
fn share_link_format() {
    assert_eq!(share_link("abc", "tok"), "courtcode://share/abc/tok");
    assert_eq!(share_link("", ""), "courtcode://share//");
}

#[test]
fn share_playlist_uses_a_fresh_token() {
    let link = share_playlist(&"p1".to_string()).unwrap();
    let prefix = "courtcode://share/p1/";
    assert!(link.starts_with(prefix));
    let token = &link[prefix.len()..];
    assert_eq!(token.len(), 36);
    assert_eq!(token.chars().nth(14), Some('4'));
    let other = share_playlist(&"p1".to_string()).unwrap();
    assert_ne!(link, other);
}

#[test]
fn select_playlist_tags_in_tag_order() {
    let tags = vec![
        tag("v1", "a", TagCategory::Offense, None, &[]),
        tag("v1", "b", TagCategory::Offense, None, &[]),
        tag("v1", "c", TagCategory::Offense, None, &[]),
    ];
    let p = playlist("a", &[tags[2].id.as_str(), "unknown", tags[0].id.as_str()]);
    assert_eq!(select_playlist_tags(&p, &tags), vec![0, 2]);
    let empty = playlist("e", &[]);
    assert_eq!(select_playlist_tags(&empty, &tags), Vec::<usize>::new());
}

#[test]
fn narrower_filter_keeps_a_subset() {
    let tags = vec![
        tag("v1", "Pick & Roll", TagCategory::Offense, Some(1), &["p1"]),
        tag("v1", "Press", TagCategory::Defense, Some(1), &["p1"]),
        tag("v2", "Pick & Roll", TagCategory::Offense, Some(2), &[]),
    ];
    let mut loose = no_filter();
    loose.label_contains = Some("pick".to_string());
    let mut strict = no_filter();
    strict.label_contains = Some("pick".to_string());
    strict.quarter = Some(1);
    let wide = filter_tags(&tags, &loose);
    let narrow = filter_tags(&tags, &strict);
    assert_eq!(wide, vec![0, 2]);
    assert_eq!(narrow, vec![0]);
    assert!(narrow.iter().all(|i| wide.contains(i)));
}

fn current_micros() -> i64 {
    std::time::SystemTime::now().duration_since(std::time::UNIX_EPOCH).unwrap().as_micros() as i64
}

#[test]
fn created_playlist_has_one_time_reading() {
    let before = current_micros();
    let playlist = create_playlist(CreatePlaylistRequest { name: "p".to_string(), description: None, tag_ids: Vec::new() });
    let after = current_micros();
    assert_eq!(playlist.created_at, playlist.updated_at);
    assert!(before <= playlist.created_at && playlist.created_at <= after);
}

#[test]
fn rename_at_stamps_the_given_time() {
    let p = Playlist::new_at("old".to_string(), 1_000);
    let id = p.id.clone();
    let renamed = rename_playlist_at(vec![p], &id, "new".to_string(), 5_000).unwrap();
    assert_eq!(renamed.name, "new");
    assert_eq!(renamed.created_at, 1_000);
    assert_eq!(renamed.updated_at, 5_000);
    let missing = rename_playlist_at(Vec::new(), &id, "x".to_string(), 5_000);
    assert_eq!(missing.unwrap_err(), "Playlist not found");
}

#[test]
fn rename_keeps_creation_time_and_stamps_now() {
    let p = Playlist::new_at("old".to_string(), 1_000);
    let id = p.id.clone();
    let before = current_micros();
    let renamed = update_playlist_name(vec![p], &id, "new".to_string()).unwrap();
    assert_eq!(renamed.created_at, 1_000);
    assert!(renamed.updated_at >= before);
}
