//! What is remembered of a label between redraws, and the store it is kept in.

use crate::rich_text::{ExposedRichText, RichTextView};
use crate::segment::{
    reconstruct, segment_text, segment_views, text_segments, SegmentView, TextSegment,
};
use vstd::prelude::*;

verus! {

/// The host's store of values kept between redraws: `egui::util::IdTypeMap`.
/// Nothing is known of what is in one but through `stored_states`.
#[verifier::external_type_specification]
#[verifier::external_body]
pub struct ExIdTypeMap(egui::util::IdTypeMap);

/// The host's key for a stored value: `egui::Id`. It is carried, never read.
#[verifier::external_type_specification]
#[verifier::external_body]
pub struct ExId(egui::Id);

/// The segments of a label's text, and whether they have been stored yet.
#[derive(Debug, PartialEq)]
pub struct LabelState {
    pub segments: Vec<TextSegment>,
    pub is_saved: bool,
}

/// What a label state is: its segments and the flag.
pub struct LabelStateView {
    pub segments: Seq<SegmentView>,
    pub is_saved: bool,
}

impl View for LabelState {
    type V = LabelStateView;

    open spec fn view(&self) -> LabelStateView {
        LabelStateView { segments: segment_views(self.segments@), is_saved: self.is_saved }
    }
}

impl Clone for LabelState {
    fn clone(&self) -> (copy: Self)
        ensures
            copy@ == self@,
            copy.segments@ == self.segments@,
            copy.is_saved == self.is_saved,
    {
        let mut segments: Vec<TextSegment> = Vec::new();
        let mut i: usize = 0;
        while i < self.segments.len()
            invariant
                i <= self.segments@.len(),
                segments@ == self.segments@.take(i as int),
            decreases self.segments@.len() - i,
        {
            segments.push(self.segments[i].clone());
            assert(segments@ =~= self.segments@.take(i + 1));
            i += 1;
        }
        assert(segments@ =~= self.segments@);
        LabelState { segments, is_saved: self.is_saved }
    }
}

impl Default for LabelState {
    fn default() -> (state: Self)
        ensures
            state@ == (LabelStateView { segments: Seq::empty(), is_saved: false }),
    {
        let state = LabelState { segments: Vec::new(), is_saved: false };
        assert(segment_views(state.segments@) =~= Seq::empty());
        state
    }
}

/// The label states that a store holds, each under the id it was stored with.
pub uninterp spec fn stored_states(store: egui::util::IdTypeMap) -> Map<egui::Id, LabelStateView>;

/// Calls `egui::util::IdTypeMap::get_temp` for a label state. The map looks
/// the id up among the values of that type and hands out a copy of the one it
/// finds, so the call returns what `stored_states` holds under `id`, and
/// nothing where it holds nothing.
#[verifier::external_body]
fn stored_state(store: &egui::util::IdTypeMap, id: egui::Id) -> (found: Option<LabelState>)
    ensures
        found matches Some(state) ==> stored_states(*store).contains_key(id) && state@
            == stored_states(*store)[id],
        found is None ==> !stored_states(*store).contains_key(id),
{
    store.get_temp(id)
}

/// Calls `egui::util::IdTypeMap::insert_temp` with a label state. The map
/// puts the value under the id, in place of a label state that was there, and
/// leaves the label states under other ids as they were.
#[verifier::external_body]
fn store_state(store: &mut egui::util::IdTypeMap, id: egui::Id, state: LabelState)
    ensures
        stored_states(*final(store)) == stored_states(*old(store)).insert(id, state@),
{
    store.insert_temp(id, state);
}

/// The state of a label that has just been segmented: not stored yet.
pub open spec fn fresh(text: RichTextView) -> LabelStateView {
    LabelStateView { segments: text_segments(text.text, text.properties), is_saved: false }
}

/// What loading gives: the state stored under `id`, or a fresh one.
pub open spec fn loaded(
    states: Map<egui::Id, LabelStateView>,
    id: egui::Id,
    text: RichTextView,
) -> LabelStateView {
    if states.contains_key(id) {
        states[id]
    } else {
        fresh(text)
    }
}

impl LabelState {
    /// Segments a text. The state is new: it has not been stored.
    pub fn from_text(text: ExposedRichText) -> (state: Self)
        ensures
            state@ == fresh(text@),
            reconstruct(state@.segments) == text.text@,
    {
        LabelState { segments: segment_text(&text), is_saved: false }
    }

    /// The state that the store holds under `id`; where it holds none, the
    /// state that segmenting `text` gives, which is not put into the store.
    pub fn load(store: &egui::util::IdTypeMap, id: egui::Id, text: &ExposedRichText) -> (state:
        Self)
        ensures
            state@ == loaded(stored_states(*store), id, text@),
    {
        match stored_state(store, id) {
            Some(state) => state,
            None => Self::from_text(text.clone()),
        }
    }

    /// Puts the state into the store under `id`, in place of what was there.
    pub fn save(self, store: &mut egui::util::IdTypeMap, id: egui::Id)
        ensures
            stored_states(*final(store)) == stored_states(*old(store)).insert(id, self@),
    {
        store_state(store, id, self);
    }
}

/// A state as it is once it has been stored.
pub open spec fn marked_saved(state: LabelStateView) -> LabelStateView {
    LabelStateView { is_saved: true, ..state }
}

/// What a store holds once the label with `text` has been shown under `id`:
/// the state that was loaded is stored, marked as stored, unless it was
/// marked so already.
pub open spec fn kept(
    states: Map<egui::Id, LabelStateView>,
    id: egui::Id,
    text: RichTextView,
) -> Map<egui::Id, LabelStateView> {
    let found = loaded(states, id, text);
    if found.is_saved {
        states
    } else {
        states.insert(id, marked_saved(found))
    }
}

/// Cache correctness, across what others do: what is loaded under one id does
/// not change when a state is stored under another id or removed from under
/// another id.
pub proof fn lemma_load_ignores_others(
    states: Map<egui::Id, LabelStateView>,
    id: egui::Id,
    text: RichTextView,
    other: egui::Id,
    state: LabelStateView,
)
    requires
        other != id,
    ensures
        loaded(states.insert(other, state), id, text) == loaded(states, id, text),
        loaded(states.remove(other), id, text) == loaded(states, id, text),
{
}

/// Cache correctness, across a redraw: once a label has been shown, loading
/// under its id gives the segments that the first loading gave, marked as
/// stored, and showing it again leaves the store as it is.
pub proof fn lemma_load_after_show(
    states: Map<egui::Id, LabelStateView>,
    id: egui::Id,
    text: RichTextView,
)
    ensures
        loaded(kept(states, id, text), id, text) == marked_saved(loaded(states, id, text)),
        kept(kept(states, id, text), id, text) == kept(states, id, text),
{
}

} // verus!
