use vstd::prelude::*;
use vstd::string::*;

use crate::commands::tag_commands::is_selection;
use crate::clock::{now, Timestamp};
use crate::ids::{is_uuid_v4_text, new_id};
use crate::models::playlist::{CreatePlaylistRequest, Playlist};
use crate::models::tag::Tag;
use crate::text::{contains_text, has_text};

verus! {

/// Create the playlist that `req` describes, with a fresh id, unshared,
/// created and last updated now (one clock reading).
pub fn create_playlist(req: CreatePlaylistRequest) -> (playlist: Playlist)
    ensures
        is_uuid_v4_text(playlist.id@),
        playlist.created_at >= 0,
        playlist.updated_at == playlist.created_at,
        playlist.name == req.name,
        playlist.description == req.description,
        playlist.tag_ids == req.tag_ids,
        !playlist.is_shared,
        playlist.share_token is None,
        playlist.cover_tag_id is None,
{
    let mut playlist = Playlist::new(req.name);
    playlist.description = req.description;
    playlist.tag_ids = req.tag_ids;
    playlist
}

/// Is `i` the position of the first playlist of `playlists` whose id is
/// `id`?
pub open spec fn is_first_playlist_with_id(playlists: Seq<Playlist>, id: Seq<char>, i: int) -> bool {
    &&& 0 <= i < playlists.len()
    &&& playlists[i].id@ == id
    &&& forall|j: int| 0 <= j < i ==> playlists[j].id@ != id
}

/// Does no playlist of `playlists` have the id `id`?
pub open spec fn no_playlist_with_id(playlists: Seq<Playlist>, id: Seq<char>) -> bool {
    forall|i: int| 0 <= i < playlists.len() ==> playlists[i].id@ != id
}

/// The message for a playlist id that no playlist has.
pub open spec fn playlist_not_found() -> Seq<char> {
    "Playlist not found"@
}

/// The first playlist of `playlists` whose id is `id`; "Playlist not found"
/// when no playlist has that id.
#[verifier::loop_isolation(false)]
pub fn find_playlist(playlists: Vec<Playlist>, id: &String) -> (res: Result<Playlist, String>)
    ensures
        match res {
            Ok(playlist) => exists|i: int|
                is_first_playlist_with_id(playlists@, id@, i) && playlist == playlists@[i],
            Err(message) => message@ == playlist_not_found() && no_playlist_with_id(playlists@, id@),
        },
{
    let mut playlists = playlists;
    let ghost all = playlists@;
    let mut i: usize = 0;
    while i < playlists.len()
        invariant
            playlists@ == all,
            i <= all.len(),
            forall|j: int| 0 <= j < i ==> all[j].id@ != id@,
        decreases all.len() - i,
    {
        if playlists[i].id.eq(id) {
            let playlist = playlists.remove(i);
            proof {
                assert(is_first_playlist_with_id(all, id@, i as int));
            }
            return Ok(playlist);
        }
        i += 1;
    }
    Err("Playlist not found".to_string())
}

/// Is `after` the playlist `before` with `tag_id` appended when it was not
/// yet there (`changed`), and `before` itself otherwise?
pub open spec fn is_tag_added(before: Playlist, tag_id: String, after: Playlist, changed: bool) -> bool {
    &&& changed == !has_text(before.tag_ids@, tag_id@)
    &&& after.tag_ids@ == if changed {
        before.tag_ids@.push(tag_id)
    } else {
        before.tag_ids@
    }
    &&& after == (Playlist { tag_ids: after.tag_ids, ..before })
}

/// Is `after` the playlist `before` without any occurrence of `tag_id`,
/// the other clips kept in order?
pub open spec fn is_tag_removed(before: Playlist, tag_id: Seq<char>, after: Playlist) -> bool {
    &&& after.tag_ids@ == before.tag_ids@.filter(differs_from(tag_id))
    &&& after == (Playlist { tag_ids: after.tag_ids, ..before })
}

/// Append `tag_id` to the first playlist whose id is `playlist_id`, unless
/// the playlist already holds it. Returns the playlist and whether it
/// changed (and so must be stored again); "Playlist not found" when no
/// playlist has that id.
pub fn add_tag_to_playlist(playlists: Vec<Playlist>, playlist_id: &String, tag_id: String) -> (res: Result<
    (Playlist, bool),
    String,
>)
    ensures
        match res {
            Ok((playlist, changed)) => exists|i: int|
                is_first_playlist_with_id(playlists@, playlist_id@, i) && is_tag_added(
                    playlists@[i],
                    tag_id,
                    playlist,
                    changed,
                ),
            Err(message) => message@ == playlist_not_found() && no_playlist_with_id(playlists@, playlist_id@),
        },
{
    let mut playlist = find_playlist(playlists, playlist_id)?;
    if !contains_text(&playlist.tag_ids, &tag_id) {
        playlist.tag_ids.push(tag_id);
        Ok((playlist, true))
    } else {
        Ok((playlist, false))
    }
}

/// The test that keeps the strings whose text is not `text`.
pub open spec fn differs_from(text: Seq<char>) -> spec_fn(String) -> bool {
    |s: String| s@ != text
}

/// The strings of `ids` other than those equal to `id`, in order.
fn without_text(ids: &Vec<String>, id: &String) -> (kept: Vec<String>)
    ensures
        kept@ == ids@.filter(differs_from(id@)),
{
    let mut kept: Vec<String> = Vec::new();
    let mut i: usize = 0;
    while i < ids.len()
        invariant
            i <= ids@.len(),
            kept@ == ids@.take(i as int).filter(differs_from(id@)),
        decreases ids@.len() - i,
    {
        proof {
            reveal(Seq::filter);
            assert(ids@.take(i + 1).drop_last() =~= ids@.take(i as int));
        }
        if !ids[i].eq(id) {
            kept.push(ids[i].clone());
        }
        i += 1;
    }
    proof {
        assert(ids@.take(ids@.len() as int) =~= ids@);
    }
    kept
}

/// Remove every occurrence of `tag_id` from the first playlist whose id is
/// `playlist_id`, keeping the order of the other clips; "Playlist not
/// found" when no playlist has that id.
pub fn remove_tag_from_playlist(playlists: Vec<Playlist>, playlist_id: &String, tag_id: &String) -> (res: Result<
    Playlist,
    String,
>)
    ensures
        match res {
            Ok(playlist) => exists|i: int|
                is_first_playlist_with_id(playlists@, playlist_id@, i) && is_tag_removed(
                    playlists@[i],
                    tag_id@,
                    playlist,
                ),
            Err(message) => message@ == playlist_not_found() && no_playlist_with_id(playlists@, playlist_id@),
        },
{
    let mut playlist = find_playlist(playlists, playlist_id)?;
    playlist.tag_ids = without_text(&playlist.tag_ids, tag_id);
    Ok(playlist)
}

/// Rename the first playlist whose id is `playlist_id` at the time `time`,
/// which becomes its update time; "Playlist not found" when no playlist has
/// that id.
pub fn rename_playlist_at(playlists: Vec<Playlist>, playlist_id: &String, name: String, time: Timestamp) -> (res:
    Result<Playlist, String>)
    ensures
        match res {
            Ok(playlist) => exists|i: int|
                is_first_playlist_with_id(playlists@, playlist_id@, i) && playlist == (Playlist {
                    name: name,
                    updated_at: time,
                    ..playlists@[i]
                }),
            Err(message) => message@ == playlist_not_found() && no_playlist_with_id(playlists@, playlist_id@),
        },
{
    let mut playlist = find_playlist(playlists, playlist_id)?;
    playlist.name = name;
    playlist.updated_at = time;
    Ok(playlist)
}

/// Rename the first playlist whose id is `playlist_id`, stamping the
/// current time as its update time and keeping its creation time;
/// "Playlist not found" when no playlist has that id.
pub fn update_playlist_name(playlists: Vec<Playlist>, playlist_id: &String, name: String) -> (res: Result<
    Playlist,
    String,
>)
    ensures
        match res {
            Ok(playlist) => playlist.updated_at >= 0 && exists|i: int|
                is_first_playlist_with_id(playlists@, playlist_id@, i) && playlist == (Playlist {
                    name: name,
                    updated_at: playlist.updated_at,
                    ..playlists@[i]
                }),
            Err(message) => message@ == playlist_not_found() && no_playlist_with_id(playlists@, playlist_id@),
        },
{
    rename_playlist_at(playlists, playlist_id, name, now())
}

/// The deep link under which a playlist is shared with a token.
pub open spec fn share_link_text(playlist_id: Seq<char>, token: Seq<char>) -> Seq<char> {
    "courtcode://share/"@ + playlist_id + "/"@ + token
}

/// `courtcode://share/{playlist_id}/{token}`.
pub fn share_link(playlist_id: &str, token: &str) -> (link: String)
    ensures
        link@ == share_link_text(playlist_id@, token@),
{
    let mut link = String::from_str("courtcode://share/");
    link.append(playlist_id);
    link.append("/");
    link.append(token);
    link
}

/// A deep link that shares the playlist `id` under a fresh random token.
pub fn share_playlist(id: &String) -> (res: Result<String, String>)
    ensures
        res matches Ok(link) && exists|token: Seq<char>|
            is_uuid_v4_text(token) && link@ == share_link_text(id@, token),
{
    let token = new_id();
    Ok(share_link(id.as_str(), token.as_str()))
}

/// The test that keeps the position of a tag of `tags` listed in
/// `playlist`.
pub open spec fn listed_at(playlist: Playlist, tags: Seq<Tag>) -> spec_fn(int) -> bool {
    |i: int| has_text(playlist.tag_ids@, tags[i].id@)
}

/// The positions of the tags that belong to `playlist`, in the order of
/// `tags` (the order in which a playlist is exported).
pub fn select_playlist_tags(playlist: &Playlist, tags: &Vec<Tag>) -> (selected: Vec<usize>)
    ensures
        is_selection(selected@, tags@.len(), listed_at(*playlist, tags@)),
{
    let mut selected: Vec<usize> = Vec::new();
    let mut i: usize = 0;
    while i < tags.len()
        invariant
            i <= tags@.len(),
            forall|a: int, b: int| 0 <= a < b < selected@.len() ==> selected@[a] < selected@[b],
            forall|a: int| 0 <= a < selected@.len() ==> #[trigger] selected@[a] < i && has_text(
                playlist.tag_ids@,
                tags@[selected@[a] as int].id@,
            ),
            forall|j: int|
                0 <= j < i && #[trigger] has_text(playlist.tag_ids@, tags@[j].id@) ==> exists|a: int|
                    0 <= a < selected@.len() && selected@[a] == j,
        decreases tags@.len() - i,
    {
        if contains_text(&playlist.tag_ids, &tags[i].id) {
            let ghost before = selected@;
            selected.push(i);
            proof {
                assert forall|j: int|
                    0 <= j < i + 1 && #[trigger] has_text(playlist.tag_ids@, tags@[j].id@) implies exists|a: int|
                    0 <= a < selected@.len() && selected@[a] == j by {
                    if j == i {
                        assert(selected@[before.len() as int] == j);
                    } else {
                        let a = choose|a: int| 0 <= a < before.len() && before[a] == j;
                        assert(selected@[a] == j);
                    }
                }
            }
        }
        i += 1;
    }
    selected
}

/// Adding a clip leaves it in the playlist.
pub proof fn law_added_tag_is_listed(before: Playlist, tag_id: String, after: Playlist, changed: bool)
    requires
        is_tag_added(before, tag_id, after, changed),
    ensures
        has_text(after.tag_ids@, tag_id@),
{
    if changed {
        assert(after.tag_ids@[after.tag_ids@.len() - 1] == tag_id);
    }
}

/// Adding the same clip twice changes the playlist once: the second add
/// reports no change and gives back the playlist of the first.
pub proof fn law_add_tag_idempotent(
    before: Playlist,
    tag_id: String,
    once: Playlist,
    changed_once: bool,
    twice: Playlist,
    changed_twice: bool,
)
    requires
        is_tag_added(before, tag_id, once, changed_once),
        is_tag_added(once, tag_id, twice, changed_twice),
    ensures
        !changed_twice,
        twice.tag_ids@ == once.tag_ids@,
        twice == (Playlist { tag_ids: twice.tag_ids, ..once }),
{
    law_added_tag_is_listed(before, tag_id, once, changed_once);
}

/// Adding a clip grows the playlist by one exactly when it was not there.
pub proof fn law_add_tag_clip_count(before: Playlist, tag_id: String, after: Playlist, changed: bool)
    requires
        is_tag_added(before, tag_id, after, changed),
    ensures
        after.tag_ids@.len() == before.tag_ids@.len() + if changed { 1int } else { 0int },
{
}

/// After a removal no clip of the playlist is the removed one.
pub proof fn law_removed_tag_is_gone(before: Playlist, tag_id: Seq<char>, after: Playlist)
    requires
        is_tag_removed(before, tag_id, after),
    ensures
        !has_text(after.tag_ids@, tag_id),
{
    broadcast use vstd::seq_lib::group_filter_ensures;
    if has_text(after.tag_ids@, tag_id) {
        let i = choose|i: int| 0 <= i < after.tag_ids@.len() && #[trigger] after.tag_ids@[i]@ == tag_id;
        let pred = differs_from(tag_id);
        assert(pred(before.tag_ids@.filter(pred)[i]));
    }
}

/// Removing a clip that was just added to a playlist that did not hold it
/// gives back the playlist it started from.
pub proof fn law_remove_undoes_add(before: Playlist, tag_id: String, added: Playlist, changed: bool, after: Playlist)
    requires
        is_tag_added(before, tag_id, added, changed),
        changed,
        is_tag_removed(added, tag_id@, after),
    ensures
        after.tag_ids@ == before.tag_ids@,
        after == (Playlist { tag_ids: after.tag_ids, ..before }),
{
    let pred = differs_from(tag_id@);
    let ids = before.tag_ids@;
    assert(ids.push(tag_id).drop_last() =~= ids);
    assert(ids.filter(pred) == ids) by {
        lemma_filter_keeps_all(ids, tag_id@);
    }
    assert(ids.push(tag_id).filter(pred) == ids.filter(pred)) by {
        reveal(Seq::filter);
    }
    assert(after.tag_ids@ == before.tag_ids@);
}

proof fn lemma_filter_keeps_all(ids: Seq<String>, tag_id: Seq<char>)
    requires
        !has_text(ids, tag_id),
    ensures
        ids.filter(differs_from(tag_id)) == ids,
    decreases ids.len(),
{
    reveal(Seq::filter);
    if ids.len() > 0 {
        assert(ids.drop_last().len() < ids.len());
        assert(!has_text(ids.drop_last(), tag_id)) by {
            if has_text(ids.drop_last(), tag_id) {
                let i = choose|i: int| 0 <= i < ids.drop_last().len() && #[trigger] ids.drop_last()[i]@ == tag_id;
                assert(ids[i]@ == tag_id);
            }
        }
        lemma_filter_keeps_all(ids.drop_last(), tag_id);
        assert(ids[ids.len() - 1]@ != tag_id);
        assert(ids.drop_last().push(ids.last()) =~= ids);
    }
}

} // verus!
