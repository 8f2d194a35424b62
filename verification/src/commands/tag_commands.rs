use vstd::prelude::*;

use crate::ids::is_uuid_v4_text;
use crate::models::tag::{
    is_basketball_default, CategoryView, CodeWindow, CreateTagRequest, Tag, TagCategory, TagFilter,
};
use crate::text::{contains_substring, contains_text, has_text, is_substring, lowercase, to_lowercase};

verus! {

/// Create the tag that `req` describes, with a fresh id; a missing player
/// list means no players. (The application adds the in and out points.)
pub fn create_tag(req: CreateTagRequest) -> (tag: Tag)
    ensures
        is_uuid_v4_text(tag.id@),
        tag.video_id == req.video_id,
        tag.code_button_id == req.code_button_id,
        tag.label == req.label,
        tag.category == req.category,
        tag.quarter == req.quarter,
        match req.player_ids {
            Some(ids) => tag.player_ids == ids,
            None => tag.player_ids@.len() == 0,
        },
        tag.notes == req.notes,
        tag.draw_data is None,
        tag.court_zone == req.court_zone,
        tag.shot_result == req.shot_result,
        tag.possession == req.possession,
{
    let mut tag = Tag::new(req.video_id, req.code_button_id, req.label, req.category);
    tag.quarter = req.quarter;
    tag.player_ids = match req.player_ids {
        Some(ids) => ids,
        None => Vec::new(),
    };
    tag.notes = req.notes;
    tag.court_zone = req.court_zone;
    tag.shot_result = req.shot_result;
    tag.possession = req.possession;
    tag
}

/// Is some category of `categories` equal to `category`?
pub open spec fn has_category(categories: Seq<TagCategory>, category: CategoryView) -> bool {
    exists|i: int| 0 <= i < categories.len() && #[trigger] categories[i]@ == category
}

/// Does `tag` meet every criterion of `filter` that is set: its video is one
/// of the listed videos, its category one of the listed categories, one of
/// its players one of the listed players, its quarter the given quarter, and
/// its label contains the given text, both compared in lowercase?
pub open spec fn matches_filter(tag: Tag, filter: TagFilter) -> bool {
    &&& (filter.video_ids matches Some(ids) ==> has_text(ids@, tag.video_id@))
    &&& (filter.categories matches Some(categories) ==> has_category(categories@, tag.category@))
    &&& (filter.player_ids matches Some(ids) ==> exists|i: int|
        0 <= i < ids@.len() && has_text(tag.player_ids@, #[trigger] ids@[i]@))
    &&& (filter.quarter matches Some(q) ==> tag.quarter == Some(q))
    &&& (filter.label_contains matches Some(text) ==> is_substring(lowercase(text@), lowercase(tag.label@)))
}

fn contains_category(categories: &Vec<TagCategory>, category: &TagCategory) -> (found: bool)
    ensures
        found == has_category(categories@, category@),
{
    let mut i: usize = 0;
    while i < categories.len()
        invariant
            i <= categories@.len(),
            forall|j: int| 0 <= j < i ==> categories@[j]@ != category@,
        decreases categories@.len() - i,
    {
        if categories[i].eq(category) {
            return true;
        }
        i += 1;
    }
    false
}

fn shares_player(wanted: &Vec<String>, players: &Vec<String>) -> (found: bool)
    ensures
        found == exists|i: int| 0 <= i < wanted@.len() && has_text(players@, #[trigger] wanted@[i]@),
{
    let mut i: usize = 0;
    while i < wanted.len()
        invariant
            i <= wanted@.len(),
            forall|j: int| 0 <= j < i ==> !has_text(players@, #[trigger] wanted@[j]@),
        decreases wanted@.len() - i,
    {
        if contains_text(players, &wanted[i]) {
            return true;
        }
        i += 1;
    }
    false
}

/// Does `tag` meet every criterion of `filter` that is set?
pub fn tag_matches(tag: &Tag, filter: &TagFilter) -> (keep: bool)
    ensures
        keep == matches_filter(*tag, *filter),
{
    if let Some(ids) = &filter.video_ids {
        if !contains_text(ids, &tag.video_id) {
            return false;
        }
    }
    if let Some(categories) = &filter.categories {
        if !contains_category(categories, &tag.category) {
            return false;
        }
    }
    if let Some(ids) = &filter.player_ids {
        if !shares_player(ids, &tag.player_ids) {
            return false;
        }
    }
    if let Some(q) = filter.quarter {
        match tag.quarter {
            Some(tq) => {
                if tq != q {
                    return false;
                }
            },
            None => {
                return false;
            },
        }
    }
    if let Some(text) = &filter.label_contains {
        let label = to_lowercase(tag.label.as_str());
        let wanted = to_lowercase(text.as_str());
        if !contains_substring(label.as_str(), wanted.as_str()) {
            return false;
        }
    }
    true
}

/// Is `selected` the list, in increasing order, of the indices below `n`
/// at which `keep` holds?
pub open spec fn is_selection(selected: Seq<usize>, n: nat, keep: spec_fn(int) -> bool) -> bool {
    &&& forall|a: int, b: int| 0 <= a < b < selected.len() ==> selected[a] < selected[b]
    &&& forall|a: int| 0 <= a < selected.len() ==> #[trigger] selected[a] < n && keep(selected[a] as int)
    &&& forall|i: int| 0 <= i < n && #[trigger] keep(i) ==> exists|a: int| 0 <= a < selected.len() && selected[a] == i
}

/// The test that keeps the position of a tag of `tags` meeting `filter`.
pub open spec fn meets_filter_at(tags: Seq<Tag>, filter: TagFilter) -> spec_fn(int) -> bool {
    |i: int| matches_filter(tags[i], filter)
}

/// The positions of the tags that meet `filter`, in order. (The
/// application then applies the duration bounds, which it keeps.)
pub fn filter_tags(tags: &Vec<Tag>, filter: &TagFilter) -> (selected: Vec<usize>)
    ensures
        is_selection(selected@, tags@.len(), meets_filter_at(tags@, *filter)),
{
    let mut selected: Vec<usize> = Vec::new();
    let mut i: usize = 0;
    while i < tags.len()
        invariant
            i <= tags@.len(),
            forall|a: int, b: int| 0 <= a < b < selected@.len() ==> selected@[a] < selected@[b],
            forall|a: int| 0 <= a < selected@.len() ==> #[trigger] selected@[a] < i && matches_filter(
                tags@[selected@[a] as int],
                *filter,
            ),
            forall|j: int|
                0 <= j < i && #[trigger] matches_filter(tags@[j], *filter) ==> exists|a: int|
                    0 <= a < selected@.len() && selected@[a] == j,
        decreases tags@.len() - i,
    {
        if tag_matches(&tags[i], filter) {
            let ghost before = selected@;
            selected.push(i);
            proof {
                assert forall|j: int|
                    0 <= j < i + 1 && #[trigger] matches_filter(tags@[j], *filter) implies exists|a: int|
                    0 <= a < selected@.len() && selected@[a] == j by {
                    if j == i {
                        assert(selected@[before.len() as int] == j);
                    } else {
                        let a = choose|a: int| 0 <= a < before.len() && before[a] == j;
                        assert(selected@[a] == j);
                    }
                }
            }
        }
        i += 1;
    }
    selected
}

/// Is `i` the position of the first tag of `tags` whose id is `id`?
pub open spec fn is_first_tag_with_id(tags: Seq<Tag>, id: Seq<char>, i: int) -> bool {
    &&& 0 <= i < tags.len()
    &&& tags[i].id@ == id
    &&& forall|j: int| 0 <= j < i ==> tags[j].id@ != id
}

/// Replace the players of the first tag of `tags` whose id is `tag_id`,
/// and return that tag; "Tag not found" when no tag has that id.
#[verifier::loop_isolation(false)]
pub fn update_tag_players(tags: Vec<Tag>, tag_id: &String, player_ids: Vec<String>) -> (res: Result<Tag, String>)
    ensures
        match res {
            Ok(tag) => exists|i: int|
                is_first_tag_with_id(tags@, tag_id@, i) && tag == (Tag { player_ids: player_ids, ..tags@[i] }),
            Err(message) => message@ == "Tag not found"@ && forall|i: int|
                0 <= i < tags@.len() ==> tags@[i].id@ != tag_id@,
        },
{
    let mut tags = tags;
    let ghost all = tags@;
    let ghost wanted = player_ids;
    let mut i: usize = 0;
    while i < tags.len()
        invariant
            tags@ == all,
            wanted == player_ids,
            i <= all.len(),
            forall|j: int| 0 <= j < i ==> all[j].id@ != tag_id@,
        decreases all.len() - i,
    {
        if tags[i].id.eq(tag_id) {
            let mut tag = tags.remove(i);
            tag.player_ids = player_ids;
            proof {
                assert(is_first_tag_with_id(all, tag_id@, i as int));
                assert(tag == (Tag { player_ids: wanted, ..all[i as int] }));
            }
            return Ok(tag);
        }
        i += 1;
    }
    Err("Tag not found".to_string())
}

/// The default code window, offered to clients before they save their own.
pub fn default_code_window() -> (res: Result<CodeWindow, String>)
    ensures
        res matches Ok(window) && is_basketball_default(window),
{
    Ok(CodeWindow::basketball_default())
}

proof fn lemma_selection_lower_bound(selected: Seq<usize>, n: nat, keep: spec_fn(int) -> bool, k: int)
    requires
        is_selection(selected, n, keep),
        0 <= k < selected.len(),
    ensures
        k <= selected[k],
    decreases k,
{
    if k > 0 {
        lemma_selection_lower_bound(selected, n, keep, k - 1);
    }
}

proof fn lemma_full_selection_at(selected: Seq<usize>, n: nat, keep: spec_fn(int) -> bool, i: int)
    requires
        is_selection(selected, n, keep),
        forall|j: int| 0 <= j < n ==> #[trigger] keep(j),
        0 <= i < n,
    ensures
        i < selected.len(),
        selected[i] == i,
    decreases i,
{
    if i > 0 {
        lemma_full_selection_at(selected, n, keep, i - 1);
    }
    assert(keep(i));
    let a = choose|a: int| 0 <= a < selected.len() && selected[a] == i;
    if a < i {
        assert(selected[a] <= selected[i - 1]);
    } else if a > i {
        assert(selected[i] < selected[a]);
        if i > 0 {
            assert(selected[i - 1] < selected[i]);
        }
    }
}

/// A selection of every position below `n` lists them all, in order.
pub proof fn lemma_full_selection(selected: Seq<usize>, n: nat, keep: spec_fn(int) -> bool)
    requires
        is_selection(selected, n, keep),
        forall|i: int| 0 <= i < n ==> #[trigger] keep(i),
    ensures
        selected.len() == n,
        forall|i: int| 0 <= i < n ==> selected[i] == i,
{
    assert forall|i: int| 0 <= i < n implies i < selected.len() && selected[i] == i by {
        lemma_full_selection_at(selected, n, keep, i);
    }
    if n > 0 {
        lemma_full_selection_at(selected, n, keep, n - 1);
    }
    if selected.len() > n {
        lemma_selection_lower_bound(selected, n, keep, n as int);
        assert(selected[n as int] < n);
    }
}

/// A filter that sets no criterion keeps every tag, in order.
pub proof fn law_unrestricted_filter_keeps_all(tags: Seq<Tag>, filter: TagFilter, selected: Seq<usize>)
    requires
        filter.video_ids is None,
        filter.categories is None,
        filter.player_ids is None,
        filter.quarter is None,
        filter.label_contains is None,
        is_selection(selected, tags.len(), meets_filter_at(tags, filter)),
    ensures
        selected.len() == tags.len(),
        forall|i: int| 0 <= i < tags.len() ==> selected[i] == i,
{
    lemma_full_selection(selected, tags.len(), meets_filter_at(tags, filter));
}

/// Setting one more criterion keeps no tag that the looser filter dropped.
pub proof fn law_narrower_filter_keeps_less(tag: Tag, loose: TagFilter, strict: TagFilter)
    requires
        loose.video_ids is None || loose.video_ids == strict.video_ids,
        loose.categories is None || loose.categories == strict.categories,
        loose.player_ids is None || loose.player_ids == strict.player_ids,
        loose.quarter is None || loose.quarter == strict.quarter,
        loose.label_contains is None || loose.label_contains == strict.label_contains,
    ensures
        matches_filter(tag, strict) ==> matches_filter(tag, loose),
{
}

} // verus!
