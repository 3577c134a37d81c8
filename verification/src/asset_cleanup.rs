//! Deleting a material: every game-node control and drama-shot reference
//! that names it lets go of it, so that no later video task refers to a
//! material that is gone.

use vstd::prelude::*;

use crate::json::{duplicate, parse_json, parsed_json, view_entries, view_items, Entries, Json, JsonView};
use crate::placeholder::has_text;

verus! {

/// Whether a prompt chip, frame or placement does not name the material.
pub open spec fn spares(asset_id: Seq<char>) -> spec_fn(JsonView) -> bool {
    |item: JsonView| item.get("asset_id"@) != Some(JsonView::Text(asset_id))
}

/// Whether a frame (a side and its choice) does not name the material.
pub open spec fn spares_frame(asset_id: Seq<char>) -> spec_fn((Seq<char>, JsonView)) -> bool {
    |frame: (Seq<char>, JsonView)| frame.1.get("asset_id"@) != Some(JsonView::Text(asset_id))
}

/// Whether a reference id is not the material's.
pub open spec fn other_id(asset_id: Seq<char>) -> spec_fn(Seq<char>) -> bool {
    |id: Seq<char>| id != asset_id
}

/// A stored list (`[...]`), or none when the text holds no list.
pub open spec fn stored_list(text: Seq<char>) -> Seq<JsonView> {
    match parsed_json(text) {
        Some(JsonView::Array(items)) => items,
        _ => Seq::empty(),
    }
}

/// A stored list of ids, or none when the text holds anything else
/// (a list with any item that is no text counts as none).
pub open spec fn stored_ids(text: Seq<char>) -> Seq<Seq<char>> {
    match parsed_json(text) {
        Some(JsonView::Array(items)) => if forall|i: int| 0 <= i < items.len() ==> #[trigger] items[i] is Text {
            Seq::new(items.len(), |i: int| items[i]->Text_0)
        } else {
            Seq::empty()
        },
        _ => Seq::empty(),
    }
}

/// A stored object, or an empty one when the text holds no object.
pub open spec fn stored_object(text: Seq<char>) -> Entries {
    match parsed_json(text) {
        Some(JsonView::Object(entries)) => entries,
        _ => Seq::empty(),
    }
}

/// What a node stores of its materials.
pub struct NodeMaterials {
    pub prompt_rich: Vec<Json>,
    pub reference_asset_ids: Vec<String>,
    pub first_last_frames: Vec<(String, Json)>,
    pub placeholder_asset_id: Option<String>,
    pub placeholder_scene_asset_id: Option<String>,
    pub placeholder_placements: Vec<Json>,
}

pub struct NodeMaterialsView {
    pub prompt_rich: Seq<JsonView>,
    pub reference_asset_ids: Seq<Seq<char>>,
    pub first_last_frames: Entries,
    pub placeholder_asset_id: Option<Seq<char>>,
    pub placeholder_scene_asset_id: Option<Seq<char>>,
    pub placeholder_placements: Seq<JsonView>,
}

pub open spec fn materials_view(m: NodeMaterials) -> NodeMaterialsView {
    NodeMaterialsView {
        prompt_rich: view_items(m.prompt_rich@),
        reference_asset_ids: crate::forms::texts_view(m.reference_asset_ids@),
        first_last_frames: view_entries(m.first_last_frames@),
        placeholder_asset_id: crate::storage::opt_text_view(m.placeholder_asset_id),
        placeholder_scene_asset_id: crate::storage::opt_text_view(m.placeholder_scene_asset_id),
        placeholder_placements: view_items(m.placeholder_placements@),
    }
}

/// An optional id, unless it is the material's.
pub open spec fn spared_id(id: Option<Seq<char>>, asset_id: Seq<char>) -> Option<Seq<char>> {
    match id {
        Some(i) => if i == asset_id {
            None
        } else {
            Some(i)
        },
        None => None,
    }
}

/// A node's stored materials once the material is deleted: its rich prompt,
/// references, frames, placeholder, placeholder scene and placements lose
/// every mention of it, in their stored order.
pub open spec fn released_of(
    prompt_rich: Seq<char>,
    references: Seq<char>,
    frames: Seq<char>,
    placeholder: Option<Seq<char>>,
    placeholder_scene: Option<Seq<char>>,
    placements: Seq<char>,
    asset_id: Seq<char>,
) -> NodeMaterialsView {
    NodeMaterialsView {
        prompt_rich: stored_list(prompt_rich).filter(spares(asset_id)),
        reference_asset_ids: stored_ids(references).filter(other_id(asset_id)),
        first_last_frames: stored_object(frames).filter(spares_frame(asset_id)),
        placeholder_asset_id: spared_id(placeholder, asset_id),
        placeholder_scene_asset_id: spared_id(placeholder_scene, asset_id),
        placeholder_placements: stored_list(placements).filter(spares(asset_id)),
    }
}

fn list_of(text: &str) -> (r: Vec<Json>)
    ensures
        view_items(r@) == stored_list(text@),
{
    match parse_json(text) {
        Some(Json::Array(items)) => items,
        other => {
            proof {
                match other {
                    Some(v) => crate::json::lemma_view_variant(v),
                    None => {},
                }
            }
            let empty: Vec<Json> = Vec::new();
            proof {
                crate::json::lemma_view_items(empty@);
            }
            empty
        },
    }
}

fn items_sparing(items: &Vec<Json>, asset_id: &str) -> (r: Vec<Json>)
    ensures
        view_items(r@) == view_items(items@).filter(spares(asset_id@)),
{
    proof {
        crate::json::lemma_view_items(items@);
    }
    let ghost all = view_items(items@);
    let mut out: Vec<Json> = Vec::new();
    let mut i: usize = 0;
    proof {
        reveal(Seq::filter);
        crate::json::lemma_view_items(out@);
        assert(all.subrange(0, 0) =~= Seq::<JsonView>::empty());
        assert(view_items(out@) =~= all.subrange(0, 0).filter(spares(asset_id@)));
    }
    while i < items.len()
        invariant
            i <= items.len(),
            all == view_items(items@),
            all.len() == items.len(),
            forall|k: int| 0 <= k < items.len() ==> #[trigger] all[k] == items@[k]@,
            view_items(out@) == all.subrange(0, i as int).filter(spares(asset_id@)),
        decreases items.len() - i,
    {
        proof {
            reveal(Seq::filter);
            let next = all.subrange(0, i + 1);
            assert(next.drop_last() =~= all.subrange(0, i as int));
            assert(next.last() == items@[i as int]@);
        }
        if !has_text(items[i].get("asset_id"), asset_id) {
            let copy = duplicate(&items[i]);
            proof {
                crate::json::lemma_view_items_push(out@, copy);
            }
            out.push(copy);
        }
        i += 1;
    }
    proof {
        assert(all.subrange(0, items.len() as int) =~= all);
    }
    out
}

fn ids_of(text: &str) -> (r: Vec<String>)
    ensures
        crate::forms::texts_view(r@) == stored_ids(text@),
{
    let items = list_of(text);
    proof {
        crate::json::lemma_view_items(items@);
    }
    let ghost all = view_items(items@);
    let mut out: Vec<String> = Vec::new();
    let mut i: usize = 0;
    while i < items.len()
        invariant
            i <= items.len(),
            all == view_items(items@),
            all == stored_list(text@),
            all.len() == items.len(),
            forall|k: int| 0 <= k < items.len() ==> #[trigger] all[k] == items@[k]@,
            out.len() == i,
            forall|k: int| 0 <= k < i ==> #[trigger] all[k] is Text && all[k]->Text_0 == out@[k]@,
        decreases items.len() - i,
    {
        proof {
            crate::json::lemma_view_variant(items@[i as int]);
        }
        match &items[i] {
            Json::Text(s) => out.push(s.clone()),
            _ => {
                let empty: Vec<String> = Vec::new();
                proof {
                    assert(!(all[i as int] is Text));
                    assert(parsed_json(text@) is Some);
                    assert(parsed_json(text@)->Some_0 is Array);
                    assert(!(forall|k: int| 0 <= k < all.len() ==> #[trigger] all[k] is Text));
                    assert(crate::forms::texts_view(empty@) =~= Seq::<Seq<char>>::empty());
                }
                return empty;
            },
        }
        i += 1;
    }
    proof {
        assert(crate::forms::texts_view(out@) =~= Seq::new(all.len(), |k: int| all[k]->Text_0));
        if all.len() > 0 {
            assert(parsed_json(text@) is Some);
        }
    }
    out
}

fn ids_sparing(ids: &Vec<String>, asset_id: &str) -> (r: Vec<String>)
    ensures
        crate::forms::texts_view(r@) == crate::forms::texts_view(ids@).filter(other_id(asset_id@)),
{
    let ghost all = crate::forms::texts_view(ids@);
    let mut out: Vec<String> = Vec::new();
    let mut i: usize = 0;
    proof {
        reveal(Seq::filter);
        assert(all.subrange(0, 0) =~= Seq::<Seq<char>>::empty());
        assert(crate::forms::texts_view(out@) =~= all.subrange(0, 0).filter(other_id(asset_id@)));
    }
    while i < ids.len()
        invariant
            i <= ids.len(),
            all == crate::forms::texts_view(ids@),
            crate::forms::texts_view(out@) == all.subrange(0, i as int).filter(other_id(asset_id@)),
        decreases ids.len() - i,
    {
        proof {
            reveal(Seq::filter);
            let next = all.subrange(0, i + 1);
            assert(next.drop_last() =~= all.subrange(0, i as int));
            assert(next.last() == ids@[i as int]@);
        }
        if !crate::json::str_eq(ids[i].as_str(), asset_id) {
            let ghost before = out@;
            out.push(ids[i].clone());
            proof {
                assert(crate::forms::texts_view(out@) =~= crate::forms::texts_view(before).push(ids@[i as int]@));
            }
        }
        i += 1;
    }
    proof {
        assert(all.subrange(0, ids.len() as int) =~= all);
    }
    out
}

fn frames_sparing(text: &str, asset_id: &str) -> (r: Vec<(String, Json)>)
    ensures
        view_entries(r@) == stored_object(text@).filter(spares_frame(asset_id@)),
{
    let frames: Vec<(String, Json)> = match parse_json(text) {
        Some(Json::Object(entries)) => entries,
        other => {
            proof {
                match other {
                    Some(v) => crate::json::lemma_view_variant(v),
                    None => {},
                }
            }
            let empty: Vec<(String, Json)> = Vec::new();
            proof {
                crate::json::lemma_view_entries(empty@);
            }
            empty
        },
    };
    proof {
        crate::json::lemma_view_entries(frames@);
    }
    let ghost all = view_entries(frames@);
    let mut out: Vec<(String, Json)> = Vec::new();
    let mut i: usize = 0;
    proof {
        reveal(Seq::filter);
        crate::json::lemma_view_entries(out@);
        assert(all.subrange(0, 0) =~= Seq::<(Seq<char>, JsonView)>::empty());
        assert(view_entries(out@) =~= all.subrange(0, 0).filter(spares_frame(asset_id@)));
    }
    while i < frames.len()
        invariant
            i <= frames.len(),
            all == view_entries(frames@),
            all == stored_object(text@),
            all.len() == frames.len(),
            forall|k: int| 0 <= k < frames.len() ==> #[trigger] all[k] == (frames@[k].0@, frames@[k].1@),
            view_entries(out@) == all.subrange(0, i as int).filter(spares_frame(asset_id@)),
        decreases frames.len() - i,
    {
        proof {
            reveal(Seq::filter);
            let next = all.subrange(0, i + 1);
            assert(next.drop_last() =~= all.subrange(0, i as int));
            assert(next.last() == (frames@[i as int].0@, frames@[i as int].1@));
        }
        if !has_text(frames[i].1.get("asset_id"), asset_id) {
            let pair = (frames[i].0.clone(), duplicate(&frames[i].1));
            proof {
                crate::json::lemma_view_entries_push(out@, pair);
            }
            out.push(pair);
        }
        i += 1;
    }
    proof {
        assert(all.subrange(0, frames.len() as int) =~= all);
    }
    out
}

fn id_sparing(id: Option<String>, asset_id: &str) -> (r: Option<String>)
    ensures
        crate::storage::opt_text_view(r) == spared_id(crate::storage::opt_text_view(id), asset_id@),
{
    match id {
        Some(i) => if crate::json::str_eq(i.as_str(), asset_id) {
            None
        } else {
            Some(i)
        },
        None => None,
    }
}

/// A node's stored materials (as the texts and ids a node row holds) once
/// the material `asset_id` is deleted.
pub fn released_materials(
    prompt_rich: &str,
    references: &str,
    frames: &str,
    placeholder: Option<String>,
    placeholder_scene: Option<String>,
    placements: &str,
    asset_id: &str,
) -> (r: NodeMaterials)
    ensures
        materials_view(r) == released_of(
            prompt_rich@,
            references@,
            frames@,
            crate::storage::opt_text_view(placeholder),
            crate::storage::opt_text_view(placeholder_scene),
            placements@,
            asset_id@,
        ),
{
    let chips = list_of(prompt_rich);
    let ids = ids_of(references);
    let placed = list_of(placements);
    NodeMaterials {
        prompt_rich: items_sparing(&chips, asset_id),
        reference_asset_ids: ids_sparing(&ids, asset_id),
        first_last_frames: frames_sparing(frames, asset_id),
        placeholder_asset_id: id_sparing(placeholder, asset_id),
        placeholder_scene_asset_id: id_sparing(placeholder_scene, asset_id),
        placeholder_placements: items_sparing(&placed, asset_id),
    }
}

/// Once a material is deleted, nothing a node stores names it any more.
pub proof fn lemma_deleted_material_is_not_named(
    prompt_rich: Seq<char>,
    references: Seq<char>,
    frames: Seq<char>,
    placeholder: Option<Seq<char>>,
    placeholder_scene: Option<Seq<char>>,
    placements: Seq<char>,
    asset_id: Seq<char>,
)
    ensures
        ({
            let m = released_of(prompt_rich, references, frames, placeholder, placeholder_scene, placements, asset_id);
            &&& forall|i: int| 0 <= i < m.prompt_rich.len() ==> #[trigger] m.prompt_rich[i].get("asset_id"@) != Some(JsonView::Text(asset_id))
            &&& forall|i: int| 0 <= i < m.reference_asset_ids.len() ==> #[trigger] m.reference_asset_ids[i] != asset_id
            &&& forall|i: int| 0 <= i < m.first_last_frames.len() ==> #[trigger] m.first_last_frames[i].1.get("asset_id"@) != Some(JsonView::Text(asset_id))
            &&& m.placeholder_asset_id != Some(asset_id)
            &&& m.placeholder_scene_asset_id != Some(asset_id)
            &&& forall|i: int| 0 <= i < m.placeholder_placements.len() ==> #[trigger] m.placeholder_placements[i].get("asset_id"@) != Some(JsonView::Text(asset_id))
        }),
{
    let m = released_of(prompt_rich, references, frames, placeholder, placeholder_scene, placements, asset_id);
    assert forall|i: int| 0 <= i < m.prompt_rich.len() implies #[trigger] m.prompt_rich[i].get("asset_id"@) != Some(JsonView::Text(asset_id)) by {
        stored_list(prompt_rich).lemma_filter_pred(spares(asset_id), i);
    }
    assert forall|i: int| 0 <= i < m.reference_asset_ids.len() implies #[trigger] m.reference_asset_ids[i] != asset_id by {
        stored_ids(references).lemma_filter_pred(other_id(asset_id), i);
    }
    assert forall|i: int| 0 <= i < m.first_last_frames.len() implies #[trigger] m.first_last_frames[i].1.get("asset_id"@) != Some(JsonView::Text(asset_id)) by {
        stored_object(frames).lemma_filter_pred(spares_frame(asset_id), i);
    }
    assert forall|i: int| 0 <= i < m.placeholder_placements.len() implies #[trigger] m.placeholder_placements[i].get("asset_id"@) != Some(JsonView::Text(asset_id)) by {
        stored_list(placements).lemma_filter_pred(spares(asset_id), i);
    }
}

/// Whether a stored reference is not the material's id.
pub open spec fn other_reference(asset_id: Seq<char>) -> spec_fn(JsonView) -> bool {
    |item: JsonView| item != JsonView::Text(asset_id)
}

/// A drama shot's references and rich prompt once the material is deleted.
pub open spec fn released_shot_of(references: Seq<char>, prompt_rich: Seq<char>, asset_id: Seq<char>) -> (Seq<JsonView>, Seq<JsonView>) {
    (
        stored_list(references).filter(other_reference(asset_id)),
        stored_list(prompt_rich).filter(spares(asset_id)),
    )
}

fn references_sparing(items: &Vec<Json>, asset_id: &str) -> (r: Vec<Json>)
    ensures
        view_items(r@) == view_items(items@).filter(other_reference(asset_id@)),
{
    proof {
        crate::json::lemma_view_items(items@);
    }
    let ghost all = view_items(items@);
    let mut out: Vec<Json> = Vec::new();
    let mut i: usize = 0;
    proof {
        reveal(Seq::filter);
        crate::json::lemma_view_items(out@);
        assert(all.subrange(0, 0) =~= Seq::<JsonView>::empty());
        assert(view_items(out@) =~= all.subrange(0, 0).filter(other_reference(asset_id@)));
    }
    while i < items.len()
        invariant
            i <= items.len(),
            all == view_items(items@),
            all.len() == items.len(),
            forall|k: int| 0 <= k < items.len() ==> #[trigger] all[k] == items@[k]@,
            view_items(out@) == all.subrange(0, i as int).filter(other_reference(asset_id@)),
        decreases items.len() - i,
    {
        proof {
            reveal(Seq::filter);
            let next = all.subrange(0, i + 1);
            assert(next.drop_last() =~= all.subrange(0, i as int));
            assert(next.last() == items@[i as int]@);
        }
        if !has_text(Some(&items[i]), asset_id) {
            let copy = duplicate(&items[i]);
            proof {
                crate::json::lemma_view_items_push(out@, copy);
            }
            out.push(copy);
        }
        i += 1;
    }
    proof {
        assert(all.subrange(0, items.len() as int) =~= all);
    }
    out
}

/// A drama shot's stored references and rich prompt (the texts a shot row
/// holds) once the material `asset_id` is deleted.
pub fn released_shot(references: &str, prompt_rich: &str, asset_id: &str) -> (r: (Vec<Json>, Vec<Json>))
    ensures
        (view_items(r.0@), view_items(r.1@)) == released_shot_of(references@, prompt_rich@, asset_id@),
{
    let refs = list_of(references);
    let chips = list_of(prompt_rich);
    (references_sparing(&refs, asset_id), items_sparing(&chips, asset_id))
}

/// Once a drama material is deleted, no shot reference or prompt chip names it.
pub proof fn lemma_deleted_material_leaves_shots(references: Seq<char>, prompt_rich: Seq<char>, asset_id: Seq<char>)
    ensures
        ({
            let (refs, chips) = released_shot_of(references, prompt_rich, asset_id);
            &&& forall|i: int| 0 <= i < refs.len() ==> #[trigger] refs[i] != JsonView::Text(asset_id)
            &&& forall|i: int| 0 <= i < chips.len() ==> #[trigger] chips[i].get("asset_id"@) != Some(JsonView::Text(asset_id))
        }),
{
    let (refs, chips) = released_shot_of(references, prompt_rich, asset_id);
    assert forall|i: int| 0 <= i < refs.len() implies #[trigger] refs[i] != JsonView::Text(asset_id) by {
        stored_list(references).lemma_filter_pred(other_reference(asset_id), i);
    }
    assert forall|i: int| 0 <= i < chips.len() implies #[trigger] chips[i].get("asset_id"@) != Some(JsonView::Text(asset_id)) by {
        stored_list(prompt_rich).lemma_filter_pred(spares(asset_id), i);
    }
}

} // verus!
