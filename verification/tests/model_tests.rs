use courtcode::models::player::{Player, Position, Team};
use courtcode::models::playlist::Playlist;
use courtcode::models::stats::ShotResultStats;
use courtcode::models::tag::{CodeButton, CodeWindow, CourtZone, Tag, TagCategory};
use courtcode::models::video::VideoFile;

fn is_uuid_v4(s: &str) -> bool {
    let chars: Vec<char> = s.chars().collect();
    if chars.len() != 36 {
        return false;
    }
    for (i, c) in chars.iter().enumerate() {
        if i == 8 || i == 13 || i == 18 || i == 23 {
            if *c != '-' {
                return false;
            }
        } else if !(c.is_ascii_digit() || ('a'..='f').contains(c)) {
            return false;
        }
    }
    chars[14] == '4' && "89ab".contains(chars[19])
}

#[test]
fn shot_result_total_adds_every_outcome() {
    let stats = ShotResultStats { made: 2, missed: 3, blocked: 1, fouled: 4 };
    assert_eq!(stats.total(), 10);
    assert_eq!(stats.field_goal_attempts(), 6);
}

#[test]
fn shot_result_default_is_zero() {
    let stats = ShotResultStats::default();
    assert_eq!(stats.total(), 0);
    assert_eq!(stats.field_goal_attempts(), 0);
}

#[test]
fn category_labels_and_colors() {
    let cases = vec![
        (TagCategory::Offense, "Offense", "#2563EB"),
        (TagCategory::Defense, "Defense", "#DC2626"),
        (TagCategory::Transition, "Transition", "#D97706"),
        (TagCategory::SetPlay, "Set Play", "#7C3AED"),
        (TagCategory::Foul, "Foul", "#DB2777"),
        (TagCategory::Substitution, "Substitution", "#059669"),
        (TagCategory::Timeout, "Timeout", "#0891B2"),
        (TagCategory::FreeThrow, "Free Throw", "#65A30D"),
        (TagCategory::Custom("Press Break".to_string()), "Press Break", "#6B7280"),
    ];
    for (category, label, color) in cases {
        assert_eq!(category.to_string(), label);
        assert_eq!(category.default_color(), color);
    }
}

#[test]
fn category_equality_compares_custom_names() {
    assert!(TagCategory::Custom("A".to_string()) == TagCategory::Custom("A".to_string()));
    assert!(TagCategory::Custom("A".to_string()) != TagCategory::Custom("B".to_string()));
    assert!(TagCategory::Custom("Offense".to_string()) != TagCategory::Offense);
    assert!(TagCategory::Foul == TagCategory::Foul);
    assert!(TagCategory::Foul != TagCategory::Timeout);
    let original = TagCategory::Custom("Zone".to_string());
    assert!(original.clone() == original);
}

#[test]
fn position_abbreviations() {
    assert_eq!(Position::PointGuard.to_string(), "PG");
    assert_eq!(Position::ShootingGuard.to_string(), "SG");
    assert_eq!(Position::SmallForward.to_string(), "SF");
    assert_eq!(Position::PowerForward.to_string(), "PF");
    assert_eq!(Position::Center.to_string(), "C");
}

#[test]
fn court_zone_names() {
    assert_eq!(CourtZone::Paint.name(), "Paint");
    assert_eq!(CourtZone::Corner3Left.name(), "Corner3Left");
    assert_eq!(CourtZone::Backcourt.name(), format!("{:?}", CourtZone::Backcourt));
    assert_eq!(CourtZone::FreeThrowLine.name(), format!("{:?}", CourtZone::FreeThrowLine));
}

#[test]
fn new_records_get_fresh_uuid_ids() {
    let a = Tag::new("v".to_string(), "b".to_string(), "Press".to_string(), TagCategory::Defense);
    let b = Tag::new("v".to_string(), "b".to_string(), "Press".to_string(), TagCategory::Defense);
    assert!(is_uuid_v4(&a.id));
    assert!(is_uuid_v4(&b.id));
    assert_ne!(a.id, b.id);
    assert!(is_uuid_v4(&Playlist::new("p".to_string()).id));
    assert!(is_uuid_v4(&Player::new("p".to_string()).id));
    assert!(is_uuid_v4(&Team::new("t".to_string()).id));
    assert!(is_uuid_v4(&VideoFile::new("t".to_string(), "/f".to_string()).id));
    assert!(is_uuid_v4(&CodeWindow::new("w".to_string()).id));
}

#[test]
fn tag_new_has_no_details() {
    let tag = Tag::new("vid".to_string(), "btn".to_string(), "Isolation".to_string(), TagCategory::Offense);
    assert_eq!(tag.video_id, "vid");
    assert_eq!(tag.code_button_id, "btn");
    assert_eq!(tag.label, "Isolation");
    assert!(tag.category == TagCategory::Offense);
    assert!(tag.player_ids.is_empty());
    assert!(tag.notes.is_none() && tag.draw_data.is_none() && tag.quarter.is_none());
    assert!(tag.shot_result.is_none() && tag.possession.is_none() && tag.court_zone.is_none());
}

#[test]
fn code_button_new_has_no_shortcut() {
    let button = CodeButton::new("BLOB".to_string(), TagCategory::SetPlay, "#6D28D9".to_string());
    assert_eq!(button.label, "BLOB");
    assert_eq!(button.color, "#6D28D9");
    assert!(button.category == TagCategory::SetPlay);
    assert!(button.shortcut_key.is_none());
}

#[test]
fn video_new_defaults() {
    let video = VideoFile::new("Game 1".to_string(), "/videos/g1.mp4".to_string());
    assert_eq!(video.title, "Game 1");
    assert_eq!(video.file_path, "/videos/g1.mp4");
    assert_eq!(video.file_size_bytes, 0);
    assert_eq!((video.width, video.height), (1920, 1080));
    assert!(video.game_date.is_none() && video.home_team.is_none() && video.away_team.is_none());
    assert!(video.venue.is_none() && video.notes.is_none() && video.thumbnail_path.is_none());
    assert!(video.tags.is_empty());
}

#[test]
fn player_and_team_new_defaults() {
    let player = Player::new("Jayson".to_string());
    assert_eq!(player.name, "Jayson");
    assert!(player.jersey_number.is_none() && player.position.is_none() && player.team.is_none());
    assert!(player.notes.is_none() && player.photo_path.is_none());
    let team = Team::new("Celtics".to_string());
    assert_eq!(team.name, "Celtics");
    assert!(team.players.is_empty() && team.logo_path.is_none());
}

#[test]
fn new_records_are_stamped_now() {
    let before = std::time::SystemTime::now().duration_since(std::time::UNIX_EPOCH).unwrap().as_micros() as i64;
    let tag = Tag::new("v".to_string(), "b".to_string(), "l".to_string(), TagCategory::Foul);
    let video = VideoFile::new("t".to_string(), "/f".to_string());
    let player = Player::new("p".to_string());
    let team = Team::new("t".to_string());
    let window = CodeWindow::new("w".to_string());
    let playlist = Playlist::new("p".to_string());
    for t in [tag.created_at, video.imported_at, player.created_at, team.created_at, window.created_at, playlist.created_at] {
        assert!(t >= before);
    }
    assert_eq!(playlist.created_at, playlist.updated_at);
    let at = Playlist::new_at("q".to_string(), 42);
    assert_eq!((at.created_at, at.updated_at), (42, 42));
    assert_eq!(at.clip_count(), 0);
}

#[test]
fn playlist_new_is_empty_and_unshared() {
    let playlist = Playlist::new("Q4".to_string());
    assert_eq!(playlist.name, "Q4");
    assert_eq!(playlist.clip_count(), 0);
    assert!(!playlist.is_shared);
    assert!(playlist.share_token.is_none() && playlist.description.is_none() && playlist.cover_tag_id.is_none());
}

#[test]
fn basketball_default_window() {
    let window = CodeWindow::basketball_default();
    assert_eq!(window.name, "Basketball Default");
    assert_eq!(window.description.as_deref(), Some("Standard basketball coding template"));
    assert_eq!(window.buttons.len(), 16);
    let expected = [
        ("Pick & Roll", "Offense", "#2563EB", "1"),
        ("Post-Up", "Offense", "#1D4ED8", "2"),
        ("Isolation", "Offense", "#1E40AF", "3"),
        ("Spot Up", "Offense", "#1E3A8A", "4"),
        ("Transition Offense", "Transition", "#D97706", "5"),
        ("Man Defense", "Defense", "#DC2626", "6"),
        ("Zone Defense", "Defense", "#B91C1C", "7"),
        ("Press", "Defense", "#991B1B", "8"),
        ("Transition Defense", "Transition", "#B45309", "9"),
        ("Set Play", "Set Play", "#7C3AED", "0"),
        ("BLOB", "Set Play", "#6D28D9", "a"),
        ("SLOB", "Set Play", "#5B21B6", "b"),
        ("Offensive Foul", "Foul", "#DB2777", "c"),
        ("Defensive Foul", "Foul", "#BE185D", "d"),
        ("Timeout", "Timeout", "#0891B2", "e"),
        ("Free Throw", "Free Throw", "#65A30D", "f"),
    ];
    for (button, (label, category, color, key)) in window.buttons.iter().zip(expected.iter()) {
        assert_eq!(button.label, *label);
        assert_eq!(button.category.to_string(), *category);
        assert_eq!(button.color, *color);
        assert_eq!(button.shortcut_key.as_deref(), Some(*key));
        assert!(is_uuid_v4(&button.id));
    }
}

#[test]
fn default_window_has_seven_categories_and_distinct_keys() {
    let window = CodeWindow::basketball_default();
    let mut categories: Vec<String> = window.buttons.iter().map(|b| b.category.to_string()).collect();
    categories.sort();
    categories.dedup();
    assert_eq!(categories.len(), 7);
    let mut keys: Vec<String> = window.buttons.iter().map(|b| b.shortcut_key.clone().unwrap()).collect();
    keys.sort();
    keys.dedup();
    assert_eq!(keys.len(), 16);
    let mut labels: Vec<String> = window.buttons.iter().map(|b| b.label.clone()).collect();
    labels.sort();
    labels.dedup();
    assert_eq!(labels.len(), 16);
}
