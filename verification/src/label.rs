//! The label widget: a styled text and how it is to be shown.

use crate::pictogram::{emoji_source, get_source_for_emoji, EmojiSource, EmojiSourceView};
use crate::response::Sense;
use crate::rich_text::{Color32, ExposedRichText, RichTextView, TextProperties};
use crate::segment::{contents, reconstruct, segment_views, SegmentView, TextSegment};
use crate::state::{kept, loaded, stored_states, LabelState, LabelStateView};
use vstd::prelude::*;

verus! {

/// What happens to text that reaches the edge of its container.
#[derive(Copy, Debug, PartialEq, Eq, Hash, Structural)]
pub enum TextWrapMode {
    /// The text goes on and widens the container.
    Extend,
    /// The text goes on in the next row.
    Wrap,
    /// The text is cut and the cut is marked.
    Truncate,
}

impl Clone for TextWrapMode {
    fn clone(&self) -> (copy: Self)
        ensures
            copy == *self,
    {
        *self
    }
}

/// A label whose pictograms are drawn as images.
pub struct EmojiLabel {
    text: ExposedRichText,
    wrap_mode: Option<TextWrapMode>,
    sense: Option<Sense>,
    selectable: Option<bool>,
    auto_inline: bool,
}

/// What a label is: its text and its settings. A setting that is `None` is
/// left to the host.
pub struct EmojiLabelView {
    pub text: RichTextView,
    pub wrap_mode: Option<TextWrapMode>,
    pub sense: Option<Sense>,
    pub selectable: Option<bool>,
    pub auto_inline: bool,
}

impl View for EmojiLabel {
    type V = EmojiLabelView;

    closed spec fn view(&self) -> EmojiLabelView {
        EmojiLabelView {
            text: self.text@,
            wrap_mode: self.wrap_mode,
            sense: self.sense,
            selectable: self.selectable,
            auto_inline: self.auto_inline,
        }
    }
}

impl EmojiLabel {
    /// A label for `text`, with every setting left to the host, that joins a
    /// horizontal container where it finds itself in one.
    pub fn new(text: ExposedRichText) -> (label: Self)
        ensures
            label@ == (EmojiLabelView {
                text: text@,
                wrap_mode: None,
                sense: None,
                selectable: None,
                auto_inline: true,
            }),
    {
        EmojiLabel { text, wrap_mode: None, sense: None, selectable: None, auto_inline: true }
    }

    /// The characters of the label.
    pub fn text(&self) -> (text: &str)
        ensures
            text@ == self@.text.text,
    {
        self.text.text()
    }

    /// The styled text of the label.
    pub fn rich_text(&self) -> (text: &ExposedRichText)
        ensures
            text@ == self@.text,
    {
        &self.text
    }

    /// Sets what happens to text that reaches the edge of the container.
    pub fn wrap_mode(self, wrap_mode: TextWrapMode) -> (label: Self)
        ensures
            label@ == (EmojiLabelView { wrap_mode: Some(wrap_mode), ..self@ }),
    {
        let mut label = self;
        label.wrap_mode = Some(wrap_mode);
        label
    }

    /// Lets the text go on in the next row.
    pub fn wrap(self) -> (label: Self)
        ensures
            label@ == (EmojiLabelView { wrap_mode: Some(TextWrapMode::Wrap), ..self@ }),
    {
        let mut label = self;
        label.wrap_mode = Some(TextWrapMode::Wrap);
        label
    }

    /// Lets the text be cut at the edge of the container.
    pub fn truncate(self) -> (label: Self)
        ensures
            label@ == (EmojiLabelView { wrap_mode: Some(TextWrapMode::Truncate), ..self@ }),
    {
        let mut label = self;
        label.wrap_mode = Some(TextWrapMode::Truncate);
        label
    }

    /// Lets the text widen the container: it is neither wrapped nor cut.
    pub fn extend(self) -> (label: Self)
        ensures
            label@ == (EmojiLabelView { wrap_mode: Some(TextWrapMode::Extend), ..self@ }),
    {
        let mut label = self;
        label.wrap_mode = Some(TextWrapMode::Extend);
        label
    }

    /// Sets whether the text can be selected with the pointer.
    pub fn selectable(self, selectable: bool) -> (label: Self)
        ensures
            label@ == (EmojiLabelView { selectable: Some(selectable), ..self@ }),
    {
        let mut label = self;
        label.selectable = Some(selectable);
        label
    }

    /// Sets what the label listens for.
    pub fn sense(self, sense: Sense) -> (label: Self)
        ensures
            label@ == (EmojiLabelView { sense: Some(sense), ..self@ }),
    {
        let mut label = self;
        label.sense = Some(sense);
        label
    }

    /// Sets whether the label joins a horizontal container that it finds
    /// itself in. Where it does not join one, it opens a row of its own.
    pub fn auto_inline(self, auto_inline: bool) -> (label: Self)
        ensures
            label@ == (EmojiLabelView { auto_inline, ..self@ }),
    {
        let mut label = self;
        label.auto_inline = auto_inline;
        label
    }
}

/// One thing that a flowing container is asked to place.
#[derive(Debug, PartialEq)]
pub enum FlowItem {
    /// A styled text, with the label's settings for it.
    Text {
        /// The segment it stands for, by its place among the segments.
        segment: usize,
        text: ExposedRichText,
        wrap_mode: Option<TextWrapMode>,
        selectable: Option<bool>,
        sense: Option<Sense>,
    },
    /// The image of a pictogram in a square box, and over the same rectangle
    /// its characters as text that is not seen, so that selecting and copying
    /// take the pictogram in.
    Pictogram {
        /// The segment it stands for, by its place among the segments.
        segment: usize,
        source: EmojiSource,
        /// The edge of the box: the height of a line of body text.
        edge: u32,
        placeholder: ExposedRichText,
    },
}

/// What a flow item is.
pub enum FlowItemView {
    Text {
        segment: int,
        text: RichTextView,
        wrap_mode: Option<TextWrapMode>,
        selectable: Option<bool>,
        sense: Option<Sense>,
    },
    Pictogram { segment: int, source: EmojiSourceView, edge: u32, placeholder: RichTextView },
}

impl View for FlowItem {
    type V = FlowItemView;

    open spec fn view(&self) -> FlowItemView {
        match self {
            FlowItem::Text { segment, text, wrap_mode, selectable, sense } => FlowItemView::Text {
                segment: *segment as int,
                text: text@,
                wrap_mode: *wrap_mode,
                selectable: *selectable,
                sense: *sense,
            },
            FlowItem::Pictogram { segment, source, edge, placeholder } => FlowItemView::Pictogram {
                segment: *segment as int,
                source: source@,
                edge: *edge,
                placeholder: placeholder@,
            },
        }
    }
}

/// The views of a sequence of flow items.
pub open spec fn flow_item_views(items: Seq<FlowItem>) -> Seq<FlowItemView> {
    items.map_values(|item: FlowItem| item@)
}

/// The segment a flow item stands for.
pub open spec fn item_segment(item: FlowItemView) -> int {
    match item {
        FlowItemView::Text { segment, .. } => segment,
        FlowItemView::Pictogram { segment, .. } => segment,
    }
}

/// The properties of the text that stands in for a pictogram: plain, and of
/// the colour that is not seen.
pub open spec fn placeholder_properties() -> TextProperties {
    TextProperties { text_color: Some(Color32::transparent()), ..TextProperties::plain() }
}

/// The text that stands in for a pictogram.
pub open spec fn placeholder(emoji: Seq<char>) -> RichTextView {
    RichTextView { text: emoji, properties: placeholder_properties() }
}

/// The flow item of the segment at `index`. A pictogram whose image is not to
/// be had has none.
pub open spec fn flow_item(
    label: EmojiLabelView,
    index: int,
    segment: SegmentView,
    edge: u32,
) -> Option<FlowItemView> {
    match segment {
        SegmentView::Text(text) => Some(
            FlowItemView::Text {
                segment: index,
                text,
                wrap_mode: label.wrap_mode,
                selectable: label.selectable,
                sense: label.sense,
            },
        ),
        SegmentView::Emoji(emoji) => match emoji_source(emoji) {
            Some(source) => Some(
                FlowItemView::Pictogram {
                    segment: index,
                    source,
                    edge,
                    placeholder: placeholder(emoji),
                },
            ),
            None => None,
        },
    }
}

/// The flow items of a label's segments, in the order of the segments.
pub open spec fn flow_items(label: EmojiLabelView, segments: Seq<SegmentView>, edge: u32) -> Seq<
    FlowItemView,
>
    decreases segments.len(),
{
    if segments.len() == 0 {
        Seq::empty()
    } else {
        let before = flow_items(label, segments.drop_last(), edge);
        match flow_item(label, segments.len() - 1, segments.last(), edge) {
            Some(item) => before.push(item),
            None => before,
        }
    }
}

/// Flow order: the items of a label stand for segments that exist, in rising
/// order, and none stands for a segment twice.
pub proof fn lemma_flow_order(label: EmojiLabelView, segments: Seq<SegmentView>, edge: u32)
    ensures
        flow_items(label, segments, edge).len() <= segments.len(),
        forall|i: int|
            0 <= i < flow_items(label, segments, edge).len() ==> 0 <= item_segment(
                #[trigger] flow_items(label, segments, edge)[i],
            ) < segments.len(),
        forall|i: int, j: int|
            0 <= i < j < flow_items(label, segments, edge).len() ==> item_segment(
                #[trigger] flow_items(label, segments, edge)[i],
            ) < item_segment(#[trigger] flow_items(label, segments, edge)[j]),
    decreases segments.len(),
{
    if segments.len() > 0 {
        lemma_flow_order(label, segments.drop_last(), edge);
    }
}

/// Flow fidelity: each item is the flow item of the segment it stands for.
pub proof fn lemma_flow_fidelity(label: EmojiLabelView, segments: Seq<SegmentView>, edge: u32)
    ensures
        forall|i: int|
            #![trigger flow_items(label, segments, edge)[i]]
            0 <= i < flow_items(label, segments, edge).len() ==> {
                let item = flow_items(label, segments, edge)[i];
                0 <= item_segment(item) < segments.len() && flow_item(
                    label,
                    item_segment(item),
                    segments[item_segment(item)],
                    edge,
                ) == Some(item)
            },
    decreases segments.len(),
{
    if segments.len() > 0 {
        let before = segments.drop_last();
        lemma_flow_fidelity(label, before, edge);
        assert forall|i: int|
            #![trigger flow_items(label, segments, edge)[i]]
            0 <= i < flow_items(label, segments, edge).len() implies {
            let item = flow_items(label, segments, edge)[i];
            0 <= item_segment(item) < segments.len() && flow_item(
                label,
                item_segment(item),
                segments[item_segment(item)],
                edge,
            ) == Some(item)
        } by {
            if i < flow_items(label, before, edge).len() {
                let item = flow_items(label, before, edge)[i];
                assert(before[item_segment(item)] == segments[item_segment(item)]);
            }
        }
    }
}

/// Nothing skipped: where the image of every pictogram segment is to be had,
/// every segment has its item.
pub proof fn lemma_flow_complete(label: EmojiLabelView, segments: Seq<SegmentView>, edge: u32)
    requires
        forall|i: int|
            0 <= i < segments.len() && #[trigger] segments[i] is Emoji ==> emoji_source(
                segments[i]->Emoji_0,
            ) is Some,
    ensures
        flow_items(label, segments, edge).len() == segments.len(),
        forall|i: int|
            0 <= i < segments.len() ==> item_segment(
                #[trigger] flow_items(label, segments, edge)[i],
            ) == i,
    decreases segments.len(),
{
    if segments.len() > 0 {
        let before = segments.drop_last();
        assert forall|i: int| 0 <= i < before.len() && #[trigger] before[i] is Emoji implies emoji_source(
            before[i]->Emoji_0,
        ) is Some by {
            assert(before[i] == segments[i]);
        }
        lemma_flow_complete(label, before, edge);
        assert(segments.last() == segments[segments.len() - 1]);
    }
}

/// The characters that selecting and copying an item gives: those of its
/// text, or those of the text that stands in for its pictogram.
pub open spec fn item_text(item: FlowItemView) -> Seq<char> {
    match item {
        FlowItemView::Text { text, .. } => text.text,
        FlowItemView::Pictogram { placeholder, .. } => placeholder.text,
    }
}

/// The characters that selecting and copying all items gives.
pub open spec fn flow_text(items: Seq<FlowItemView>) -> Seq<char> {
    items.map_values(|item: FlowItemView| item_text(item)).flatten()
}

/// Faithful copy: where no segment was passed over, the items spell what the
/// segments spell, each pictogram by the text that stands in for it.
pub proof fn lemma_flow_spells(label: EmojiLabelView, segments: Seq<SegmentView>, edge: u32)
    requires
        flow_items(label, segments, edge).len() == segments.len(),
    ensures
        flow_text(flow_items(label, segments, edge)) == reconstruct(segments),
    decreases segments.len(),
{
    broadcast use Seq::lemma_flatten_push;

    let items = flow_items(label, segments, edge);
    if segments.len() == 0 {
        assert(items.map_values(|item: FlowItemView| item_text(item)) =~= Seq::empty());
        assert(contents(segments) =~= Seq::empty());
    } else {
        let before = segments.drop_last();
        let first = flow_items(label, before, edge);
        lemma_flow_order(label, before, edge);
        lemma_flow_spells(label, before, edge);
        let item = flow_item(label, segments.len() - 1, segments.last(), edge)->Some_0;
        assert(items == first.push(item));
        assert(items.map_values(|item: FlowItemView| item_text(item)) =~= first.map_values(
            |item: FlowItemView| item_text(item),
        ).push(item_text(item)));
        assert(contents(segments) =~= contents(before).push(item_text(item)));
    }
}

impl EmojiLabel {
    /// What the container is asked to place for the segments of `state`: a
    /// text item for each text segment, with the label's settings, and for each
    /// pictogram segment whose image is to be had its image in a square box of
    /// edge `font_height` with the text that stands in for it. A pictogram
    /// whose image is not to be had is passed over.
    pub fn show_segments(&self, state: &LabelState, font_height: u32) -> (items: Vec<FlowItem>)
        ensures
            flow_item_views(items@) == flow_items(self@, state@.segments, font_height),
    {
        let mut items: Vec<FlowItem> = Vec::new();
        let ghost segments = segment_views(state.segments@);
        let mut i: usize = 0;
        while i < state.segments.len()
            invariant
                i <= state.segments@.len(),
                segments == segment_views(state.segments@),
                flow_item_views(items@) == flow_items(self@, segments.take(i as int), font_height),
            decreases state.segments@.len() - i,
        {
            let ghost before = flow_item_views(items@);
            proof {
                assert(segments.take(i + 1).drop_last() =~= segments.take(i as int));
                assert(segments.take(i + 1).last() == state.segments@[i as int]@);
            }
            match &state.segments[i] {
                TextSegment::Text(text) => {
                    items.push(
                        FlowItem::Text {
                            segment: i,
                            text: text.clone(),
                            wrap_mode: self.wrap_mode,
                            selectable: self.selectable,
                            sense: self.sense,
                        },
                    );
                    assert(flow_item_views(items@) =~= before.push(items@.last()@));
                },
                TextSegment::Emoji(emoji) => {
                    match get_source_for_emoji(emoji.as_str()) {
                        Some(source) => {
                            let mut properties = TextProperties::plain();
                            properties.text_color = Some(Color32::transparent());
                            items.push(
                                FlowItem::Pictogram {
                                    segment: i,
                                    source,
                                    edge: font_height,
                                    placeholder: ExposedRichText {
                                        text: emoji.clone(),
                                        properties,
                                    },
                                },
                            );
                            assert(flow_item_views(items@) =~= before.push(items@.last()@));
                        },
                        None => {},
                    }
                },
            }
            i += 1;
        }
        assert(segments.take(state.segments@.len() as int) =~= segments);
        items
    }
}

/// What showing a label comes to: the items for the container, and whether
/// they join the container the label stands in or get a row of their own.
#[derive(Debug, PartialEq)]
pub struct Shown {
    pub items: Vec<FlowItem>,
    pub inline: bool,
}

/// What a shown label is.
pub struct ShownView {
    pub items: Seq<FlowItemView>,
    pub inline: bool,
}

impl View for Shown {
    type V = ShownView;

    open spec fn view(&self) -> ShownView {
        ShownView { items: flow_item_views(self.items@), inline: self.inline }
    }
}

/// What showing `label` under `id` comes to, given what the store holds.
pub open spec fn shown(
    label: EmojiLabelView,
    states: Map<egui::Id, LabelStateView>,
    id: egui::Id,
    horizontal: bool,
    edge: u32,
) -> ShownView {
    ShownView {
        items: flow_items(label, loaded(states, id, label.text).segments, edge),
        inline: horizontal && label.auto_inline,
    }
}

/// The id that the host makes of a label's characters.
pub uninterp spec fn label_id(text: Seq<char>) -> egui::Id;

/// Calls `egui::Id::new` on the text. The id is a hash of the text with
/// seeds that egui fixes, so it is a function of the text alone; which
/// function is not said, it is only named (`label_id`).
#[verifier::external_body]
fn text_id(text: &str) -> (id: egui::Id)
    ensures
        id == label_id(text@),
{
    egui::Id::new(text)
}

impl EmojiLabel {
    /// Shows the label under a given id.
    ///
    /// The segments are loaded from the store, or found anew where the store
    /// has none under `id`; segments found anew are stored, marked as stored.
    /// The result holds the items for these segments (see `show_segments`).
    /// They join the surrounding container if it is `horizontal` and the label
    /// was not told otherwise; else they are to be given a row of their own,
    /// filled from the left and aligned at the top.
    pub fn show_with_id(
        self,
        store: &mut egui::util::IdTypeMap,
        id: egui::Id,
        horizontal: bool,
        font_height: u32,
    ) -> (result: Shown)
        ensures
            result@ == shown(self@, stored_states(*old(store)), id, horizontal, font_height),
            stored_states(*final(store)) == kept(stored_states(*old(store)), id, self@.text),
    {
        let mut state = LabelState::load(store, id, &self.text);
        if !state.is_saved {
            state.is_saved = true;
            state.clone().save(store, id);
        }
        let items = self.show_segments(&state, font_height);
        Shown { items, inline: horizontal && self.auto_inline }
    }

    /// Shows the label under the id of its text.
    ///
    /// This is `show_with_id` for the id that the host makes of the label's
    /// characters, so labels with the same characters share what is stored.
    pub fn show(self, store: &mut egui::util::IdTypeMap, horizontal: bool, font_height: u32) -> (result:
        Shown)
        ensures
            result@ == shown(
                self@,
                stored_states(*old(store)),
                label_id(self@.text.text),
                horizontal,
                font_height,
            ),
            stored_states(*final(store)) == kept(
                stored_states(*old(store)),
                label_id(self@.text.text),
                self@.text,
            ),
    {
        let id = text_id(self.text());
        self.show_with_id(store, id, horizontal, font_height)
    }
}

} // verus!
