use vstd::prelude::*;
use vstd::string::*;

use crate::clock::{now, Timestamp};
use crate::ids::{is_uuid_v4_text, new_id};

verus! {

/// The kind of play a tag records.
#[derive(Debug)]
pub enum TagCategory {
    Offense,
    Defense,
    Transition,
    SetPlay,
    Foul,
    Substitution,
    Timeout,
    FreeThrow,
    Custom(String),
}

/// The mathematical value of a [`TagCategory`]: a custom category is known
/// by the characters of its name.
pub enum CategoryView {
    Offense,
    Defense,
    Transition,
    SetPlay,
    Foul,
    Substitution,
    Timeout,
    FreeThrow,
    Custom(Seq<char>),
}

impl View for TagCategory {
    type V = CategoryView;

    open spec fn view(&self) -> CategoryView {
        match self {
            TagCategory::Offense => CategoryView::Offense,
            TagCategory::Defense => CategoryView::Defense,
            TagCategory::Transition => CategoryView::Transition,
            TagCategory::SetPlay => CategoryView::SetPlay,
            TagCategory::Foul => CategoryView::Foul,
            TagCategory::Substitution => CategoryView::Substitution,
            TagCategory::Timeout => CategoryView::Timeout,
            TagCategory::FreeThrow => CategoryView::FreeThrow,
            TagCategory::Custom(s) => CategoryView::Custom(s@),
        }
    }
}

impl CategoryView {
    /// The text by which a category is shown and counted.
    pub open spec fn label(self) -> Seq<char> {
        match self {
            CategoryView::Offense => "Offense"@,
            CategoryView::Defense => "Defense"@,
            CategoryView::Transition => "Transition"@,
            CategoryView::SetPlay => "Set Play"@,
            CategoryView::Foul => "Foul"@,
            CategoryView::Substitution => "Substitution"@,
            CategoryView::Timeout => "Timeout"@,
            CategoryView::FreeThrow => "Free Throw"@,
            CategoryView::Custom(s) => s,
        }
    }

    /// The colour a code button of this category gets by default.
    pub open spec fn color(self) -> Seq<char> {
        match self {
            CategoryView::Offense => "#2563EB"@,
            CategoryView::Defense => "#DC2626"@,
            CategoryView::Transition => "#D97706"@,
            CategoryView::SetPlay => "#7C3AED"@,
            CategoryView::Foul => "#DB2777"@,
            CategoryView::Substitution => "#059669"@,
            CategoryView::Timeout => "#0891B2"@,
            CategoryView::FreeThrow => "#65A30D"@,
            CategoryView::Custom(_) => "#6B7280"@,
        }
    }
}

impl Clone for TagCategory {
    fn clone(&self) -> (res: Self)
        ensures
            res@ == self@,
    {
        match self {
            TagCategory::Offense => TagCategory::Offense,
            TagCategory::Defense => TagCategory::Defense,
            TagCategory::Transition => TagCategory::Transition,
            TagCategory::SetPlay => TagCategory::SetPlay,
            TagCategory::Foul => TagCategory::Foul,
            TagCategory::Substitution => TagCategory::Substitution,
            TagCategory::Timeout => TagCategory::Timeout,
            TagCategory::FreeThrow => TagCategory::FreeThrow,
            TagCategory::Custom(s) => TagCategory::Custom(s.clone()),
        }
    }
}

impl PartialEq for TagCategory {
    fn eq(&self, other: &Self) -> (res: bool) {
        match (self, other) {
            (TagCategory::Offense, TagCategory::Offense) => true,
            (TagCategory::Defense, TagCategory::Defense) => true,
            (TagCategory::Transition, TagCategory::Transition) => true,
            (TagCategory::SetPlay, TagCategory::SetPlay) => true,
            (TagCategory::Foul, TagCategory::Foul) => true,
            (TagCategory::Substitution, TagCategory::Substitution) => true,
            (TagCategory::Timeout, TagCategory::Timeout) => true,
            (TagCategory::FreeThrow, TagCategory::FreeThrow) => true,
            (TagCategory::Custom(a), TagCategory::Custom(b)) => {
                a.eq(b)
            },
            _ => false,
        }
    }
}

impl vstd::std_specs::cmp::PartialEqSpecImpl for TagCategory {
    open spec fn obeys_eq_spec() -> bool {
        true
    }

    open spec fn eq_spec(&self, other: &Self) -> bool {
        self@ == other@
    }
}

impl TagCategory {
    /// The colour a code button of this category gets by default.
    pub fn default_color(&self) -> (color: &'static str)
        ensures
            color@ == self@.color(),
    {
        match self {
            TagCategory::Offense => "#2563EB",
            TagCategory::Defense => "#DC2626",
            TagCategory::Transition => "#D97706",
            TagCategory::SetPlay => "#7C3AED",
            TagCategory::Foul => "#DB2777",
            TagCategory::Substitution => "#059669",
            TagCategory::Timeout => "#0891B2",
            TagCategory::FreeThrow => "#65A30D",
            TagCategory::Custom(_) => "#6B7280",
        }
    }

    /// The category's display text: the fixed name of a built-in category,
    /// the given name of a custom one.
    pub fn to_string(&self) -> (text: String)
        ensures
            text@ == self@.label(),
    {
        match self {
            TagCategory::Offense => String::from_str("Offense"),
            TagCategory::Defense => String::from_str("Defense"),
            TagCategory::Transition => String::from_str("Transition"),
            TagCategory::SetPlay => String::from_str("Set Play"),
            TagCategory::Foul => String::from_str("Foul"),
            TagCategory::Substitution => String::from_str("Substitution"),
            TagCategory::Timeout => String::from_str("Timeout"),
            TagCategory::FreeThrow => String::from_str("Free Throw"),
            TagCategory::Custom(s) => s.clone(),
        }
    }
}


/// How a tagged shot ended.
#[derive(Debug, Clone, Copy, PartialEq, Eq)]
pub enum ShotResult {
    Made,
    Missed,
    Blocked,
    Fouled,
}

/// Which team had the ball.
#[derive(Debug, Clone, Copy, PartialEq, Eq)]
pub enum Possession {
    Home,
    Away,
}

/// Where on the court a tagged play happened.
#[derive(Debug, Clone, Copy, PartialEq, Eq)]
pub enum CourtZone {
    Paint,
    MidRange,
    ThreePointLeft,
    ThreePointRight,
    ThreePointTop,
    Corner3Left,
    Corner3Right,
    FreeThrowLine,
    Backcourt,
}

/// The name of a court zone as its variant is spelled.
pub open spec fn zone_name(zone: CourtZone) -> Seq<char> {
    match zone {
        CourtZone::Paint => "Paint"@,
        CourtZone::MidRange => "MidRange"@,
        CourtZone::ThreePointLeft => "ThreePointLeft"@,
        CourtZone::ThreePointRight => "ThreePointRight"@,
        CourtZone::ThreePointTop => "ThreePointTop"@,
        CourtZone::Corner3Left => "Corner3Left"@,
        CourtZone::Corner3Right => "Corner3Right"@,
        CourtZone::FreeThrowLine => "FreeThrowLine"@,
        CourtZone::Backcourt => "Backcourt"@,
    }
}

/// Different court zones have different names, so no two zones are ever
/// tallied under one key.
pub proof fn law_zone_names_distinct(a: CourtZone, b: CourtZone)
    requires
        a != b,
    ensures
        zone_name(a) != zone_name(b),
{
    reveal_strlit("Paint");
    reveal_strlit("MidRange");
    reveal_strlit("ThreePointLeft");
    reveal_strlit("ThreePointRight");
    reveal_strlit("ThreePointTop");
    reveal_strlit("Corner3Left");
    reveal_strlit("Corner3Right");
    reveal_strlit("FreeThrowLine");
    reveal_strlit("Backcourt");
    assert("Paint"@.len() == 5 && "Paint"@[0] == 'P');
    assert("MidRange"@.len() == 8 && "MidRange"@[0] == 'M');
    assert("ThreePointLeft"@.len() == 14 && "ThreePointLeft"@[0] == 'T');
    assert("ThreePointRight"@.len() == 15 && "ThreePointRight"@[0] == 'T');
    assert("ThreePointTop"@.len() == 13 && "ThreePointTop"@[0] == 'T');
    assert("Corner3Left"@.len() == 11 && "Corner3Left"@[0] == 'C');
    assert("Corner3Right"@.len() == 12 && "Corner3Right"@[0] == 'C');
    assert("FreeThrowLine"@.len() == 13 && "FreeThrowLine"@[0] == 'F');
    assert("Backcourt"@.len() == 9 && "Backcourt"@[0] == 'B');
}

impl CourtZone {
    /// The zone's variant name, the key under which zones are tallied.
    pub fn name(&self) -> (text: String)
        ensures
            text@ == zone_name(*self),
    {
        match self {
            CourtZone::Paint => String::from_str("Paint"),
            CourtZone::MidRange => String::from_str("MidRange"),
            CourtZone::ThreePointLeft => String::from_str("ThreePointLeft"),
            CourtZone::ThreePointRight => String::from_str("ThreePointRight"),
            CourtZone::ThreePointTop => String::from_str("ThreePointTop"),
            CourtZone::Corner3Left => String::from_str("Corner3Left"),
            CourtZone::Corner3Right => String::from_str("Corner3Right"),
            CourtZone::FreeThrowLine => String::from_str("FreeThrowLine"),
            CourtZone::Backcourt => String::from_str("Backcourt"),
        }
    }
}

/// A button of a code window: pressing it during playback creates a tag.
/// (Its pre-roll and post-roll, in seconds, are kept by the application.)
#[derive(Debug, Clone)]
pub struct CodeButton {
    pub id: String,
    pub label: String,
    pub category: TagCategory,
    pub color: String,
    pub shortcut_key: Option<String>,
}

impl CodeButton {
    /// A button with a fresh id and no shortcut key.
    pub fn new(label: String, category: TagCategory, color: String) -> (button: CodeButton)
        ensures
            is_uuid_v4_text(button.id@),
            button.label == label,
            button.category == category,
            button.color == color,
            button.shortcut_key is None,
    {
        CodeButton { id: new_id(), label, category, color, shortcut_key: None }
    }
}

/// One coded event on a video's timeline. (Its in and out points, in
/// seconds, are kept by the application.)
#[derive(Debug, Clone)]
pub struct Tag {
    pub id: String,
    pub video_id: String,
    pub code_button_id: String,
    pub label: String,
    pub category: TagCategory,
    pub player_ids: Vec<String>,
    pub notes: Option<String>,
    pub draw_data: Option<String>,
    pub created_at: Timestamp,
    pub quarter: Option<u8>,
    pub shot_result: Option<ShotResult>,
    pub possession: Option<Possession>,
    pub court_zone: Option<CourtZone>,
}

impl Tag {
    /// A tag with a fresh id, created now, with no players and no optional
    /// details.
    pub fn new(video_id: String, code_button_id: String, label: String, category: TagCategory) -> (tag: Tag)
        ensures
            is_uuid_v4_text(tag.id@),
            tag.video_id == video_id,
            tag.code_button_id == code_button_id,
            tag.label == label,
            tag.category == category,
            tag.player_ids@.len() == 0,
            tag.notes is None,
            tag.draw_data is None,
            tag.created_at >= 0,
            tag.quarter is None,
            tag.shot_result is None,
            tag.possession is None,
            tag.court_zone is None,
    {
        Tag {
            id: new_id(),
            video_id,
            code_button_id,
            label,
            category,
            player_ids: Vec::new(),
            notes: None,
            draw_data: None,
            created_at: now(),
            quarter: None,
            shot_result: None,
            possession: None,
            court_zone: None,
        }
    }
}

/// A named panel of code buttons.
#[derive(Debug, Clone)]
pub struct CodeWindow {
    pub id: String,
    pub name: String,
    pub description: Option<String>,
    pub buttons: Vec<CodeButton>,
    pub created_at: Timestamp,
}

/// What a client sends to create a tag. (The in and out points are kept by
/// the application.)
#[derive(Debug, Clone)]
pub struct CreateTagRequest {
    pub video_id: String,
    pub code_button_id: String,
    pub label: String,
    pub category: TagCategory,
    pub quarter: Option<u8>,
    pub player_ids: Option<Vec<String>>,
    pub notes: Option<String>,
    pub court_zone: Option<CourtZone>,
    pub shot_result: Option<ShotResult>,
    pub possession: Option<Possession>,
}

/// Criteria for selecting tags; a criterion that is `None` selects every
/// tag. (The duration bounds are applied by the application.)
#[derive(Debug, Clone)]
pub struct TagFilter {
    pub video_ids: Option<Vec<String>>,
    pub categories: Option<Vec<TagCategory>>,
    pub player_ids: Option<Vec<String>>,
    pub quarter: Option<u8>,
    pub label_contains: Option<String>,
}

/// The preset buttons of the default basketball code window, by position:
/// label, category, colour and shortcut key.
pub open spec fn default_button(i: int) -> (Seq<char>, CategoryView, Seq<char>, Seq<char>) {
    if i == 0 {
        ("Pick & Roll"@, CategoryView::Offense, "#2563EB"@, "1"@)
    } else if i == 1 {
        ("Post-Up"@, CategoryView::Offense, "#1D4ED8"@, "2"@)
    } else if i == 2 {
        ("Isolation"@, CategoryView::Offense, "#1E40AF"@, "3"@)
    } else if i == 3 {
        ("Spot Up"@, CategoryView::Offense, "#1E3A8A"@, "4"@)
    } else if i == 4 {
        ("Transition Offense"@, CategoryView::Transition, "#D97706"@, "5"@)
    } else if i == 5 {
        ("Man Defense"@, CategoryView::Defense, "#DC2626"@, "6"@)
    } else if i == 6 {
        ("Zone Defense"@, CategoryView::Defense, "#B91C1C"@, "7"@)
    } else if i == 7 {
        ("Press"@, CategoryView::Defense, "#991B1B"@, "8"@)
    } else if i == 8 {
        ("Transition Defense"@, CategoryView::Transition, "#B45309"@, "9"@)
    } else if i == 9 {
        ("Set Play"@, CategoryView::SetPlay, "#7C3AED"@, "0"@)
    } else if i == 10 {
        ("BLOB"@, CategoryView::SetPlay, "#6D28D9"@, "a"@)
    } else if i == 11 {
        ("SLOB"@, CategoryView::SetPlay, "#5B21B6"@, "b"@)
    } else if i == 12 {
        ("Offensive Foul"@, CategoryView::Foul, "#DB2777"@, "c"@)
    } else if i == 13 {
        ("Defensive Foul"@, CategoryView::Foul, "#BE185D"@, "d"@)
    } else if i == 14 {
        ("Timeout"@, CategoryView::Timeout, "#0891B2"@, "e"@)
    } else {
        ("Free Throw"@, CategoryView::FreeThrow, "#65A30D"@, "f"@)
    }
}

/// Does `button` carry the given preset?
pub open spec fn has_preset(button: CodeButton, preset: (Seq<char>, CategoryView, Seq<char>, Seq<char>)) -> bool {
    &&& is_uuid_v4_text(button.id@)
    &&& button.label@ == preset.0
    &&& button.category@ == preset.1
    &&& button.color@ == preset.2
    &&& button.shortcut_key matches Some(key) && key@ == preset.3
}

/// A fresh button with the given label, category, colour and shortcut key.
fn preset(label: &str, category: TagCategory, color: &str, key: &str) -> (button: CodeButton)
    ensures
        has_preset(button, (label@, category@, color@, key@)),
{
    let mut button = CodeButton::new(label.to_string(), category, color.to_string());
    button.shortcut_key = Some(key.to_string());
    button
}

/// Is `window` the standard basketball template under a fresh id?
pub open spec fn is_basketball_default(window: CodeWindow) -> bool {
    &&& is_uuid_v4_text(window.id@)
    &&& window.name@ == "Basketball Default"@
    &&& window.description matches Some(d) && d@ == "Standard basketball coding template"@
    &&& window.buttons@.len() == 16
    &&& forall|i: int| 0 <= i < 16 ==> has_preset(#[trigger] window.buttons@[i], default_button(i))
}

impl CodeWindow {
    /// An empty window with a fresh id, created now, with no description.
    pub fn new(name: String) -> (window: CodeWindow)
        ensures
            is_uuid_v4_text(window.id@),
            window.name == name,
            window.description is None,
            window.buttons@.len() == 0,
            window.created_at >= 0,
    {
        CodeWindow { id: new_id(), name, description: None, buttons: Vec::new(), created_at: now() }
    }

    /// The standard basketball template: sixteen preset buttons over seven
    /// categories, each with its own colour and shortcut key.
    pub fn basketball_default() -> (window: CodeWindow)
        ensures
            is_basketball_default(window),
    {
        let mut window = CodeWindow::new("Basketball Default".to_string());
        window.description = Some("Standard basketball coding template".to_string());
        window.buttons = vec![
            preset("Pick & Roll", TagCategory::Offense, "#2563EB", "1"),
            preset("Post-Up", TagCategory::Offense, "#1D4ED8", "2"),
            preset("Isolation", TagCategory::Offense, "#1E40AF", "3"),
            preset("Spot Up", TagCategory::Offense, "#1E3A8A", "4"),
            preset("Transition Offense", TagCategory::Transition, "#D97706", "5"),
            preset("Man Defense", TagCategory::Defense, "#DC2626", "6"),
            preset("Zone Defense", TagCategory::Defense, "#B91C1C", "7"),
            preset("Press", TagCategory::Defense, "#991B1B", "8"),
            preset("Transition Defense", TagCategory::Transition, "#B45309", "9"),
            preset("Set Play", TagCategory::SetPlay, "#7C3AED", "0"),
            preset("BLOB", TagCategory::SetPlay, "#6D28D9", "a"),
            preset("SLOB", TagCategory::SetPlay, "#5B21B6", "b"),
            preset("Offensive Foul", TagCategory::Foul, "#DB2777", "c"),
            preset("Defensive Foul", TagCategory::Foul, "#BE185D", "d"),
            preset("Timeout", TagCategory::Timeout, "#0891B2", "e"),
            preset("Free Throw", TagCategory::FreeThrow, "#65A30D", "f"),
        ];
        window
    }
}

/// The built-in categories are shown under pairwise different labels.
pub proof fn law_builtin_labels_distinct(a: CategoryView, b: CategoryView)
    requires
        !(a is Custom),
        !(b is Custom),
        a != b,
    ensures
        a.label() != b.label(),
{
    reveal_strlit("Offense");
    reveal_strlit("Defense");
    reveal_strlit("Transition");
    reveal_strlit("Set Play");
    reveal_strlit("Foul");
    reveal_strlit("Substitution");
    reveal_strlit("Timeout");
    reveal_strlit("Free Throw");
    assert("Offense"@.len() == 7 && "Offense"@[0] == 'O');
    assert("Defense"@.len() == 7 && "Defense"@[0] == 'D');
    assert("Transition"@.len() == 10 && "Transition"@[0] == 'T');
    assert("Set Play"@.len() == 8 && "Set Play"@[0] == 'S');
    assert("Foul"@.len() == 4 && "Foul"@[0] == 'F');
    assert("Substitution"@.len() == 12 && "Substitution"@[0] == 'S');
    assert("Timeout"@.len() == 7 && "Timeout"@[0] == 'T');
    assert("Free Throw"@.len() == 10 && "Free Throw"@[0] == 'F');
}

/// The preset buttons of the default window carry pairwise different
/// labels.
pub proof fn law_default_labels_distinct(i: int, j: int)
    requires
        0 <= i < 16,
        0 <= j < 16,
        i != j,
    ensures
        default_button(i).0 != default_button(j).0,
{
    reveal_strlit("Pick & Roll");
    reveal_strlit("Post-Up");
    reveal_strlit("Isolation");
    reveal_strlit("Spot Up");
    reveal_strlit("Transition Offense");
    reveal_strlit("Man Defense");
    reveal_strlit("Zone Defense");
    reveal_strlit("Press");
    reveal_strlit("Transition Defense");
    reveal_strlit("Set Play");
    reveal_strlit("BLOB");
    reveal_strlit("SLOB");
    reveal_strlit("Offensive Foul");
    reveal_strlit("Defensive Foul");
    reveal_strlit("Timeout");
    reveal_strlit("Free Throw");
    assert("Pick & Roll"@.len() == 11 && "Pick & Roll"@[0] == 'P');
    assert("Post-Up"@.len() == 7 && "Post-Up"@[0] == 'P');
    assert("Isolation"@.len() == 9 && "Isolation"@[0] == 'I');
    assert("Spot Up"@.len() == 7 && "Spot Up"@[0] == 'S');
    assert("Transition Offense"@.len() == 18 && "Transition Offense"@[0] == 'T');
    assert("Man Defense"@.len() == 11 && "Man Defense"@[0] == 'M');
    assert("Zone Defense"@.len() == 12 && "Zone Defense"@[0] == 'Z');
    assert("Press"@.len() == 5 && "Press"@[0] == 'P');
    assert("Transition Defense"@.len() == 18 && "Transition Defense"@[0] == 'T');
    assert("Set Play"@.len() == 8 && "Set Play"@[0] == 'S');
    assert("BLOB"@.len() == 4 && "BLOB"@[0] == 'B');
    assert("SLOB"@.len() == 4 && "SLOB"@[0] == 'S');
    assert("Offensive Foul"@.len() == 14 && "Offensive Foul"@[0] == 'O');
    assert("Defensive Foul"@.len() == 14 && "Defensive Foul"@[0] == 'D');
    assert("Timeout"@.len() == 7 && "Timeout"@[0] == 'T');
    assert("Free Throw"@.len() == 10 && "Free Throw"@[0] == 'F');
    assert("Transition Offense"@[11] == 'O' && "Transition Defense"@[11] == 'D');
}

/// The preset buttons of the default window carry pairwise different
/// shortcut keys.
pub proof fn law_default_shortcuts_distinct(i: int, j: int)
    requires
        0 <= i < 16,
        0 <= j < 16,
        i != j,
    ensures
        default_button(i).3 != default_button(j).3,
{
    reveal_strlit("1");
    reveal_strlit("2");
    reveal_strlit("3");
    reveal_strlit("4");
    reveal_strlit("5");
    reveal_strlit("6");
    reveal_strlit("7");
    reveal_strlit("8");
    reveal_strlit("9");
    reveal_strlit("0");
    reveal_strlit("a");
    reveal_strlit("b");
    reveal_strlit("c");
    reveal_strlit("d");
    reveal_strlit("e");
    reveal_strlit("f");
    assert("1"@.len() == 1 && "1"@[0] == '1');
    assert("2"@.len() == 1 && "2"@[0] == '2');
    assert("3"@.len() == 1 && "3"@[0] == '3');
    assert("4"@.len() == 1 && "4"@[0] == '4');
    assert("5"@.len() == 1 && "5"@[0] == '5');
    assert("6"@.len() == 1 && "6"@[0] == '6');
    assert("7"@.len() == 1 && "7"@[0] == '7');
    assert("8"@.len() == 1 && "8"@[0] == '8');
    assert("9"@.len() == 1 && "9"@[0] == '9');
    assert("0"@.len() == 1 && "0"@[0] == '0');
    assert("a"@.len() == 1 && "a"@[0] == 'a');
    assert("b"@.len() == 1 && "b"@[0] == 'b');
    assert("c"@.len() == 1 && "c"@[0] == 'c');
    assert("d"@.len() == 1 && "d"@[0] == 'd');
    assert("e"@.len() == 1 && "e"@[0] == 'e');
    assert("f"@.len() == 1 && "f"@[0] == 'f');
}

/// The default window covers exactly seven categories: offense,
/// transition, defense, set play, foul, timeout and free throw.
pub proof fn law_default_categories()
    ensures
        Set::new(|c: CategoryView| exists|i: int| 0 <= i < 16 && #[trigger] default_button(i).1 == c) == set![
            CategoryView::Offense,
            CategoryView::Transition,
            CategoryView::Defense,
            CategoryView::SetPlay,
            CategoryView::Foul,
            CategoryView::Timeout,
            CategoryView::FreeThrow,
        ],
{
    let covered = Set::new(|c: CategoryView| exists|i: int| 0 <= i < 16 && #[trigger] default_button(i).1 == c);
    assert(default_button(0).1 == CategoryView::Offense);
    assert(default_button(4).1 == CategoryView::Transition);
    assert(default_button(5).1 == CategoryView::Defense);
    assert(default_button(9).1 == CategoryView::SetPlay);
    assert(default_button(12).1 == CategoryView::Foul);
    assert(default_button(14).1 == CategoryView::Timeout);
    assert(default_button(15).1 == CategoryView::FreeThrow);
    assert(covered =~= set![
        CategoryView::Offense,
        CategoryView::Transition,
        CategoryView::Defense,
        CategoryView::SetPlay,
        CategoryView::Foul,
        CategoryView::Timeout,
        CategoryView::FreeThrow,
    ]);
}

} // verus!
