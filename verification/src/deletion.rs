//! What deleting a project, a shot or a game takes with it: the media files
//! its records name, and which shot the editor selects afterwards.

use vstd::prelude::*;

use crate::error::AppError;
use crate::forms::texts_view;
use crate::game_video::{listed_url, texts_of};
use crate::json::{view_entries, view_items, Entries, Json, JsonView};
use crate::text::{chars_of, concat, trim, trimmed};

verus! {

/// The fields whose text names a stored media file.
pub open spec fn media_key(key: Seq<char>) -> bool {
    key == "image_url"@ || key == "video_url"@ || key == "url"@
}

/// `acc` followed by the media URLs found in `value`, depth first, each once.
/// A media field holds a URL when its text is not blank; any other field is
/// searched in turn.
pub open spec fn urls_in(value: JsonView, acc: Seq<Seq<char>>) -> Seq<Seq<char>>
    decreases value,
{
    match value {
        JsonView::Object(entries) => urls_in_entries(entries, acc),
        JsonView::Array(items) => urls_in_items(items, acc),
        _ => acc,
    }
}

pub open spec fn urls_in_items(items: Seq<JsonView>, acc: Seq<Seq<char>>) -> Seq<Seq<char>>
    decreases items,
{
    if items.len() == 0 {
        acc
    } else {
        urls_in_items(items.subrange(1, items.len() as int), urls_in(items[0], acc))
    }
}

pub open spec fn urls_in_entries(entries: Entries, acc: Seq<Seq<char>>) -> Seq<Seq<char>>
    decreases entries,
{
    if entries.len() == 0 {
        acc
    } else {
        let next = if media_key(entries[0].0) {
            match entries[0].1 {
                JsonView::Text(url) => if trimmed(url).len() > 0 && !acc.contains(url) {
                    acc.push(url)
                } else {
                    acc
                },
                _ => acc,
            }
        } else {
            urls_in(entries[0].1, acc)
        };
        urls_in_entries(entries.subrange(1, entries.len() as int), next)
    }
}

fn is_media_key(key: &str) -> (r: bool)
    ensures
        r == media_key(key@),
{
    crate::json::str_eq(key, "image_url") || crate::json::str_eq(key, "video_url") || crate::json::str_eq(key, "url")
}

fn visit(value: &Json, urls: &mut Vec<String>)
    ensures
        texts_view(final(urls)@) == urls_in(value@, texts_view(old(urls)@)),
    decreases value,
{
    match value {
        Json::Object(entries) => {
            proof {
                crate::json::lemma_view_entries(entries@);
            }
            let ghost all = view_entries(entries@);
            let ghost start = texts_view(urls@);
            let mut i: usize = 0;
            proof {
                assert(all.subrange(0, all.len() as int) =~= all);
            }
            while i < entries.len()
                invariant
                    i <= entries.len(),
                    all == view_entries(entries@),
                    *value == Json::Object(*entries),
                    all.len() == entries.len(),
                    forall|k: int| 0 <= k < entries.len() ==> #[trigger] all[k] == (entries@[k].0@, entries@[k].1@),
                    urls_in_entries(all.subrange(i as int, all.len() as int), texts_view(urls@)) == urls_in_entries(all, start),
                decreases entries.len() - i,
            {
                let ghost rest = all.subrange(i as int, all.len() as int);
                let ghost before = texts_view(urls@);
                proof {
                    assert(rest[0] == all[i as int]);
                    assert(rest.subrange(1, rest.len() as int) =~= all.subrange(i + 1, all.len() as int));
                }
                let key = entries[i].0.as_str();
                if is_media_key(key) {
                    if let Json::Text(url) = &entries[i].1 {
                        if chars_of(trim(url.as_str()).as_str()).len() > 0 && !listed_url(urls, url.as_str()) {
                            urls.push(url.clone());
                            proof {
                                assert(texts_view(urls@) =~= before.push(url@));
                            }
                        } else {
                            proof {
                                assert(texts_of(urls@) =~= before);
                            }
                        }
                    } else {
                        proof {
                            crate::json::lemma_view_variant(entries@[i as int].1);
                        }
                    }
                } else {
                    proof {
                        assert(decreases_to!(value => value->Object_0));
                        assert(decreases_to!(*entries => entries@));
                        assert(decreases_to!(entries@ => entries@[i as int]));
                        assert(decreases_to!(entries@[i as int] => entries@[i as int].1));
                    }
                    visit(&entries[i].1, urls);
                }
                i += 1;
            }
            proof {
                assert(all.subrange(entries.len() as int, all.len() as int) =~= Seq::<(Seq<char>, JsonView)>::empty());
            }
        },
        Json::Array(items) => {
            proof {
                crate::json::lemma_view_items(items@);
            }
            let ghost all = view_items(items@);
            let ghost start = texts_view(urls@);
            let mut i: usize = 0;
            proof {
                assert(all.subrange(0, all.len() as int) =~= all);
            }
            while i < items.len()
                invariant
                    i <= items.len(),
                    all == view_items(items@),
                    *value == Json::Array(*items),
                    all.len() == items.len(),
                    forall|k: int| 0 <= k < items.len() ==> #[trigger] all[k] == items@[k]@,
                    urls_in_items(all.subrange(i as int, all.len() as int), texts_view(urls@)) == urls_in_items(all, start),
                decreases items.len() - i,
            {
                let ghost rest = all.subrange(i as int, all.len() as int);
                proof {
                    assert(rest[0] == all[i as int]);
                    assert(rest.subrange(1, rest.len() as int) =~= all.subrange(i + 1, all.len() as int));
                    assert(decreases_to!(value => value->Array_0));
                    assert(decreases_to!(*items => items@));
                    assert(decreases_to!(items@ => items@[i as int]));
                }
                visit(&items[i], urls);
                i += 1;
            }
            proof {
                assert(all.subrange(items.len() as int, all.len() as int) =~= Seq::<JsonView>::empty());
            }
        },
        _ => {},
    }
}

/// The media URLs a record names, each once, in the order they are found.
pub fn collect_media_urls(value: &Json) -> (r: Vec<String>)
    ensures
        texts_view(r@) == urls_in(value@, Seq::empty()),
{
    let mut urls: Vec<String> = Vec::new();
    proof {
        assert(texts_view(urls@) =~= Seq::<Seq<char>>::empty());
    }
    visit(value, &mut urls);
    urls
}

/// The position of the first shot with this id.
pub open spec fn shot_position(shots: Seq<JsonView>, shot_id: Seq<char>) -> Option<int>
    decreases shots.len(),
{
    if shots.len() == 0 {
        None
    } else if shots.last().get("id"@) == Some(JsonView::Text(shot_id)) && shot_position(shots.drop_last(), shot_id) is None {
        Some(shots.len() - 1)
    } else {
        shot_position(shots.drop_last(), shot_id)
    }
}

/// The first text id among the shots from `start` on.
pub open spec fn first_id_from(shots: Seq<JsonView>, start: int) -> Option<Seq<char>>
    decreases shots.len() - start,
{
    if start < 0 || start >= shots.len() {
        None
    } else {
        match shots[start].get("id"@) {
            Some(JsonView::Text(id)) => Some(id),
            _ => first_id_from(shots, start + 1),
        }
    }
}

/// The shot selected after deleting the one at `index`: the next shot with an
/// id, else the shot just before it when it has one.
pub open spec fn selected_after_delete(shots: Seq<JsonView>, index: int) -> Option<Seq<char>> {
    match first_id_from(shots, index + 1) {
        Some(id) => Some(id),
        None => if index >= 1 {
            match shots[index - 1].get("id"@) {
                Some(JsonView::Text(id)) => Some(id),
                _ => None,
            }
        } else {
            None
        },
    }
}

fn text_id(shot: &Json) -> (r: Option<String>)
    ensures
        crate::storage::opt_text_view(r) == match shot@.get("id"@) {
            Some(JsonView::Text(id)) => Some(id),
            _ => None,
        },
{
    match shot.get("id") {
        Some(Json::Text(id)) => Some(id.clone()),
        other => {
            proof {
                match other {
                    Some(v) => crate::json::lemma_view_variant(*v),
                    None => {},
                }
            }
            None
        },
    }
}

/// Find the shot being deleted and the shot the editor selects next.
pub fn deleted_shot_neighbour(shots: &Vec<Json>, shot_id: &str) -> (r: Result<(usize, Option<String>), AppError>)
    ensures
        match r {
            Ok((index, next)) => shot_position(view_items(shots@), shot_id@) == Some(index as int)
                && crate::storage::opt_text_view(next) == selected_after_delete(view_items(shots@), index as int),
            Err(e) => shot_position(view_items(shots@), shot_id@) is None
                && e@ == crate::error::AppErrorView::NotFound("Shot not found: "@ + shot_id@),
        },
{
    proof {
        crate::json::lemma_view_items(shots@);
    }
    let ghost all = view_items(shots@);
    let mut index: usize = 0;
    proof {
        assert(all.subrange(0, 0) =~= Seq::<JsonView>::empty());
    }
    while index < shots.len()
        invariant
            index <= shots.len(),
            all == view_items(shots@),
            all.len() == shots.len(),
            forall|k: int| 0 <= k < shots.len() ==> #[trigger] all[k] == shots@[k]@,
            shot_position(all.subrange(0, index as int), shot_id@) is None,
        decreases shots.len() - index,
    {
        proof {
            let next = all.subrange(0, index + 1);
            assert(next.drop_last() =~= all.subrange(0, index as int));
            assert(next.last() == shots@[index as int]@);
        }
        let found = match shots[index].get("id") {
            Some(Json::Text(id)) => crate::json::str_eq(id.as_str(), shot_id),
            other => {
                proof {
                    match other {
                        Some(v) => crate::json::lemma_view_variant(*v),
                        None => {},
                    }
                }
                false
            },
        };
        if found {
            proof {
                lemma_position_prefix(all, shot_id@, index as int);
            }
            let next = selected_neighbour(shots, index);
            return Ok((index, next));
        }
        index += 1;
    }
    proof {
        assert(all.subrange(0, shots.len() as int) =~= all);
    }
    Err(AppError::NotFound(concat("Shot not found: ", shot_id)))
}

fn selected_neighbour(shots: &Vec<Json>, index: usize) -> (r: Option<String>)
    requires
        index < shots.len(),
    ensures
        crate::storage::opt_text_view(r) == selected_after_delete(view_items(shots@), index as int),
{
    proof {
        crate::json::lemma_view_items(shots@);
    }
    let ghost all = view_items(shots@);
    let mut j: usize = index + 1;
    while j < shots.len()
        invariant
            index < j <= shots.len(),
            all == view_items(shots@),
            all.len() == shots.len(),
            forall|k: int| 0 <= k < shots.len() ==> #[trigger] all[k] == shots@[k]@,
            first_id_from(all, index + 1) == first_id_from(all, j as int),
        decreases shots.len() - j,
    {
        if let Some(id) = text_id(&shots[j]) {
            return Some(id);
        }
        j += 1;
    }
    if index >= 1 {
        text_id(&shots[index - 1])
    } else {
        None
    }
}

proof fn lemma_position_prefix(all: Seq<JsonView>, shot_id: Seq<char>, index: int)
    requires
        0 <= index < all.len(),
        shot_position(all.subrange(0, index), shot_id) is None,
        all[index].get("id"@) == Some(JsonView::Text(shot_id)),
    ensures
        shot_position(all, shot_id) == Some(index),
    decreases all.len() - index,
{
    let upto = all.subrange(0, index + 1);
    assert(upto.drop_last() =~= all.subrange(0, index));
    assert(shot_position(upto, shot_id) == Some(index));
    lemma_position_extends(all, shot_id, index + 1);
}

proof fn lemma_position_extends(all: Seq<JsonView>, shot_id: Seq<char>, n: int)
    requires
        0 < n <= all.len(),
        shot_position(all.subrange(0, n), shot_id) is Some,
    ensures
        shot_position(all, shot_id) == shot_position(all.subrange(0, n), shot_id),
    decreases all.len() - n,
{
    if n < all.len() {
        let longer = all.subrange(0, n + 1);
        assert(longer.drop_last() =~= all.subrange(0, n));
        lemma_position_extends(all, shot_id, n + 1);
    } else {
        assert(all.subrange(0, n) =~= all);
    }
}

/// Texts that are all non-blank.
pub open spec fn all_non_blank(urls: Seq<Seq<char>>) -> bool {
    forall|k: int| 0 <= k < urls.len() ==> trimmed(#[trigger] urls[k]).len() > 0
}

proof fn lemma_urls_in(value: JsonView, acc: Seq<Seq<char>>)
    requires
        acc.no_duplicates(),
        all_non_blank(acc),
    ensures
        urls_in(value, acc).no_duplicates(),
        all_non_blank(urls_in(value, acc)),
    decreases value,
{
    match value {
        JsonView::Object(entries) => lemma_urls_in_entries(entries, acc),
        JsonView::Array(items) => lemma_urls_in_items(items, acc),
        _ => {},
    }
}

proof fn lemma_urls_in_items(items: Seq<JsonView>, acc: Seq<Seq<char>>)
    requires
        acc.no_duplicates(),
        all_non_blank(acc),
    ensures
        urls_in_items(items, acc).no_duplicates(),
        all_non_blank(urls_in_items(items, acc)),
    decreases items,
{
    if items.len() > 0 {
        lemma_urls_in(items[0], acc);
        lemma_urls_in_items(items.subrange(1, items.len() as int), urls_in(items[0], acc));
    }
}

proof fn lemma_urls_in_entries(entries: Entries, acc: Seq<Seq<char>>)
    requires
        acc.no_duplicates(),
        all_non_blank(acc),
    ensures
        urls_in_entries(entries, acc).no_duplicates(),
        all_non_blank(urls_in_entries(entries, acc)),
    decreases entries,
{
    if entries.len() > 0 {
        let next = if media_key(entries[0].0) {
            match entries[0].1 {
                JsonView::Text(url) => if trimmed(url).len() > 0 && !acc.contains(url) {
                    acc.push(url)
                } else {
                    acc
                },
                _ => acc,
            }
        } else {
            urls_in(entries[0].1, acc)
        };
        if media_key(entries[0].0) {
            if let JsonView::Text(url) = entries[0].1 {
                if trimmed(url).len() > 0 && !acc.contains(url) {
                    assert forall|i: int, j: int| 0 <= i < j < next.len() implies next[i] != next[j] by {
                        if j == acc.len() {
                            assert(acc.contains(next[i]));
                        }
                    }
                    assert forall|k: int| 0 <= k < next.len() implies trimmed(#[trigger] next[k]).len() > 0 by {
                        if k < acc.len() {
                            assert(next[k] == acc[k]);
                        }
                    }
                }
            }
        } else {
            lemma_urls_in(entries[0].1, acc);
        }
        lemma_urls_in_entries(entries.subrange(1, entries.len() as int), next);
    }
}

/// The media URLs collected from a record are never blank and never repeat.
pub proof fn lemma_media_urls_are_distinct_and_non_blank(value: JsonView)
    ensures
        urls_in(value, Seq::empty()).no_duplicates(),
        all_non_blank(urls_in(value, Seq::empty())),
{
    lemma_urls_in(value, Seq::empty());
}

} // verus!
