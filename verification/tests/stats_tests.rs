use courtcode::models::stats::{compute_stats, DataMatrix};
use courtcode::models::tag::{CourtZone, Possession, ShotResult, Tag, TagCategory};

fn tag(label: &str, category: TagCategory, quarter: Option<u8>, players: &[&str]) -> Tag {
    let mut t = Tag::new("v1".to_string(), "button".to_string(), label.to_string(), category);
    t.quarter = quarter;
    t.player_ids = players.iter().map(|p| p.to_string()).collect();
    t
}

fn lookup<K: PartialEq>(entries: &[(K, usize)], key: K) -> Option<usize> {
    entries.iter().find(|(k, _)| *k == key).map(|(_, c)| *c)
}

fn demo_tags() -> Vec<Tag> {
    vec![
        tag("Pick & Roll", TagCategory::Offense, Some(1), &[]),
        tag("Man Defense", TagCategory::Defense, Some(1), &[]),
        tag("Isolation", TagCategory::Offense, Some(1), &[]),
        tag("Transition Offense", TagCategory::Transition, Some(2), &[]),
        tag("Zone Defense", TagCategory::Defense, Some(2), &[]),
        tag("Set Play", TagCategory::SetPlay, Some(3), &[]),
        tag("Offensive Foul", TagCategory::Foul, Some(3), &[]),
        tag("Pick & Roll", TagCategory::Offense, Some(4), &[]),
        tag("Free Throw", TagCategory::FreeThrow, Some(4), &[]),
        tag("Press", TagCategory::Defense, Some(4), &[]),
    ]
}

#[test]
fn demo_category_and_quarter_counts() {
    let stats = compute_stats("v1", &demo_tags());
    assert_eq!(stats.video_id, "v1");
    assert_eq!(stats.total_tags, 10);
    let cats: Vec<(String, usize)> = stats.tags_by_category.clone();
    assert_eq!(cats.len(), 6);
    assert_eq!(lookup(&cats, "Offense".to_string()), Some(3));
    assert_eq!(lookup(&cats, "Defense".to_string()), Some(3));
    assert_eq!(lookup(&cats, "Transition".to_string()), Some(1));
    assert_eq!(lookup(&cats, "Set Play".to_string()), Some(1));
    assert_eq!(lookup(&cats, "Foul".to_string()), Some(1));
    assert_eq!(lookup(&cats, "Free Throw".to_string()), Some(1));
    assert_eq!(cats.iter().map(|(_, c)| c).sum::<usize>(), 10);
    assert_eq!(stats.tags_by_quarter, vec![(1, 3), (2, 2), (3, 2), (4, 3)]);
    assert!(stats.top_players_by_involvement.is_empty());
    assert!(stats.court_zone_distribution.is_empty());
    assert_eq!(stats.shot_results.total(), 0);
}

#[test]
fn demo_matrix_diagonal() {
    let stats = compute_stats("all", &demo_tags());
    let m = &stats.matrix;
    let labels = ["Offense", "Defense", "Transition", "Set Play", "Foul", "Free Throw"];
    assert_eq!(m.row_labels, labels.iter().map(|s| s.to_string()).collect::<Vec<_>>());
    assert_eq!(m.col_labels, m.row_labels);
    let diagonal: Vec<usize> = (0..6).map(|i| m.cells[i][i]).collect();
    assert_eq!(diagonal, vec![3, 3, 1, 1, 1, 1]);
    for i in 0..6 {
        for j in 0..6 {
            if i != j {
                assert_eq!(m.cells[i][j], 0);
            }
        }
    }
}

#[test]
fn matrix_counts_by_label_text() {
    let tags = vec![
        tag("x", TagCategory::Custom("Offense".to_string()), None, &[]),
        tag("y", TagCategory::Substitution, None, &[]),
        tag("z", TagCategory::Timeout, None, &[]),
        tag("w", TagCategory::Custom("Other".to_string()), None, &[]),
    ];
    let m = DataMatrix::from_tags(&tags);
    assert_eq!(m.cells[0][0], 1);
    let diagonal_sum: usize = (0..6).map(|i| m.cells[i][i]).sum();
    assert_eq!(diagonal_sum, 1);
    let empty = DataMatrix::from_tags(&Vec::new());
    assert_eq!(empty.cells, vec![vec![0usize; 6]; 6]);
}

#[test]
fn possession_shot_and_zone_counts() {
    let mut tags = vec![
        tag("a", TagCategory::Offense, None, &[]),
        tag("b", TagCategory::Offense, None, &[]),
        tag("c", TagCategory::Offense, None, &[]),
        tag("d", TagCategory::Defense, None, &[]),
    ];
    tags[0].possession = Some(Possession::Home);
    tags[1].possession = Some(Possession::Home);
    tags[2].possession = Some(Possession::Away);
    tags[0].shot_result = Some(ShotResult::Made);
    tags[1].shot_result = Some(ShotResult::Missed);
    tags[2].shot_result = Some(ShotResult::Made);
    tags[3].shot_result = Some(ShotResult::Fouled);
    tags[0].court_zone = Some(CourtZone::Paint);
    tags[2].court_zone = Some(CourtZone::Paint);
    tags[3].court_zone = Some(CourtZone::Corner3Left);
    let stats = compute_stats("v1", &tags);
    assert_eq!(stats.possession_breakdown.home_possessions, 2);
    assert_eq!(stats.possession_breakdown.away_possessions, 1);
    assert_eq!(stats.shot_results.made, 2);
    assert_eq!(stats.shot_results.missed, 1);
    assert_eq!(stats.shot_results.blocked, 0);
    assert_eq!(stats.shot_results.fouled, 1);
    assert_eq!(stats.shot_results.total(), 4);
    assert_eq!(stats.shot_results.field_goal_attempts(), 3);
    assert_eq!(
        stats.court_zone_distribution,
        vec![("Paint".to_string(), 2), ("Corner3Left".to_string(), 1)]
    );
    assert!(stats.tags_by_quarter.is_empty());
}

#[test]
fn top_players_ranked_by_involvement() {
    let tags = vec![
        tag("a", TagCategory::Offense, None, &["p1", "p2"]),
        tag("b", TagCategory::Offense, None, &["p2", "p3", "p2"]),
        tag("c", TagCategory::Offense, None, &["p3"]),
    ];
    let stats = compute_stats("v1", &tags);
    assert_eq!(
        stats.top_players_by_involvement,
        vec![("p2".to_string(), 3), ("p3".to_string(), 2), ("p1".to_string(), 1)]
    );
}

#[test]
fn top_players_keep_ten_highest() {
    let mut tags = Vec::new();
    for p in 0..12usize {
        let id = format!("p{}", p);
        let mut t = tag("x", TagCategory::Offense, None, &[]);
        t.player_ids = vec![id; p + 1];
        tags.push(t);
    }
    let stats = compute_stats("v1", &tags);
    let top = &stats.top_players_by_involvement;
    assert_eq!(top.len(), 10);
    assert_eq!(top[0], ("p11".to_string(), 12));
    assert_eq!(top[9], ("p2".to_string(), 3));
    for w in top.windows(2) {
        assert!(w[0].1 >= w[1].1);
    }
}

#[test]
fn empty_tags_give_empty_stats() {
    let stats = compute_stats("all", &Vec::new());
    assert_eq!(stats.video_id, "all");
    assert_eq!(stats.total_tags, 0);
    assert!(stats.tags_by_category.is_empty());
    assert!(stats.tags_by_quarter.is_empty());
    assert!(stats.top_players_by_involvement.is_empty());
    assert_eq!(stats.possession_breakdown.home_possessions + stats.possession_breakdown.away_possessions, 0);
}

#[test]
fn matrix_agrees_with_category_tally() {
    let mut tags = demo_tags();
    tags.push(tag("Sub", TagCategory::Substitution, None, &[]));
    let stats = compute_stats("v1", &tags);
    for (i, label) in stats.matrix.row_labels.iter().enumerate() {
        let cell = stats.matrix.cells[i][i];
        let tallied = lookup(&stats.tags_by_category, label.clone());
        if cell > 0 {
            assert_eq!(tallied, Some(cell));
        } else {
            assert_eq!(tallied, None);
        }
    }
    assert_eq!(lookup(&stats.tags_by_category, "Substitution".to_string()), Some(1));
    let diagonal_sum: usize = (0..6).map(|i| stats.matrix.cells[i][i]).sum();
    assert!(diagonal_sum <= stats.total_tags);
}

#[test]
fn stats_of_joined_tags_are_sums() {
    let a = demo_tags();
    let mut b = vec![
        tag("Press", TagCategory::Defense, Some(4), &[]),
        tag("Horns", TagCategory::Custom("Horns".to_string()), Some(5), &[]),
    ];
    b[0].shot_result = Some(ShotResult::Blocked);
    b[1].possession = Some(Possession::Away);
    b[1].court_zone = Some(CourtZone::Paint);
    let mut joined = demo_tags();
    joined.extend(b.clone());
    let (sa, sb, s) = (compute_stats("v", &a), compute_stats("v", &b), compute_stats("v", &joined));
    assert_eq!(s.total_tags, sa.total_tags + sb.total_tags);
    for key in ["Offense", "Defense", "Horns", "Foul", "Timeout"] {
        let k = key.to_string();
        let sum = lookup(&sa.tags_by_category, k.clone()).unwrap_or(0) + lookup(&sb.tags_by_category, k.clone()).unwrap_or(0);
        assert_eq!(lookup(&s.tags_by_category, k).unwrap_or(0), sum);
    }
    for q in 0..6u8 {
        let sum = lookup(&sa.tags_by_quarter, q).unwrap_or(0) + lookup(&sb.tags_by_quarter, q).unwrap_or(0);
        assert_eq!(lookup(&s.tags_by_quarter, q).unwrap_or(0), sum);
    }
    assert_eq!(s.shot_results.blocked, sa.shot_results.blocked + sb.shot_results.blocked);
    assert_eq!(s.possession_breakdown.away_possessions, 1);
    assert_eq!(lookup(&s.court_zone_distribution, "Paint".to_string()), Some(1));
    for i in 0..6 {
        for j in 0..6 {
            assert_eq!(s.matrix.cells[i][j], sa.matrix.cells[i][j] + sb.matrix.cells[i][j]);
        }
    }
}
