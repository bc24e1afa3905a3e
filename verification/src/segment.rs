//! The segmenter: a styled run becomes alternating runs of styled text and
//! single pictograms.

use crate::grapheme::{
    grapheme_clusters, grapheme_texts, grapheme_views, graphemes, text_graphemes, Grapheme,
    GraphemeView,
};
use crate::pictogram::is_pictogram;
use crate::rich_text::{ExposedRichText, RichTextView, TextProperties};
use vstd::prelude::*;
use vstd::string::*;

verus! {

/// A stretch of a label: styled text, or one pictogram given by its characters.
#[derive(Debug, PartialEq)]
pub enum TextSegment {
    Text(ExposedRichText),
    Emoji(String),
}

/// What a segment is: a styled run, or the characters of one pictogram.
pub enum SegmentView {
    Text(RichTextView),
    Emoji(Seq<char>),
}

impl View for TextSegment {
    type V = SegmentView;

    open spec fn view(&self) -> SegmentView {
        match self {
            TextSegment::Text(run) => SegmentView::Text(run@),
            TextSegment::Emoji(emoji) => SegmentView::Emoji(emoji@),
        }
    }
}

impl Clone for TextSegment {
    fn clone(&self) -> (copy: Self)
        ensures
            copy == *self,
    {
        match self {
            TextSegment::Text(run) => TextSegment::Text(run.clone()),
            TextSegment::Emoji(emoji) => TextSegment::Emoji(emoji.clone()),
        }
    }
}

/// The views of a sequence of segments.
pub open spec fn segment_views(segments: Seq<TextSegment>) -> Seq<SegmentView> {
    segments.map_values(|segment: TextSegment| segment@)
}

/// The characters a segment stands for.
pub open spec fn content(segment: SegmentView) -> Seq<char> {
    match segment {
        SegmentView::Text(run) => run.text,
        SegmentView::Emoji(emoji) => emoji,
    }
}

/// The characters of each segment of a sequence.
pub open spec fn contents(segments: Seq<SegmentView>) -> Seq<Seq<char>> {
    segments.map_values(|segment: SegmentView| content(segment))
}

/// The text that a sequence of segments spells.
pub open spec fn reconstruct(segments: Seq<SegmentView>) -> Seq<char> {
    contents(segments).flatten()
}

/// Whether the last segment of a sequence is text.
pub open spec fn ends_with_text(segments: Seq<SegmentView>) -> bool {
    segments.len() > 0 && segments.last() is Text
}

/// A text segment with the given characters and properties.
pub open spec fn text_segment(text: Seq<char>, properties: TextProperties) -> SegmentView {
    SegmentView::Text(RichTextView { text, properties })
}

/// The segments of a text after one more grapheme of it.
///
/// A pictogram becomes a segment of its own. Other characters join the text
/// segment that ends the sequence, or start one where there is none.
pub open spec fn append_grapheme(
    segments: Seq<SegmentView>,
    grapheme: GraphemeView,
    properties: TextProperties,
) -> Seq<SegmentView> {
    if grapheme.pictogram {
        segments.push(SegmentView::Emoji(grapheme.text))
    } else if grapheme.text.len() == 0 {
        segments
    } else if ends_with_text(segments) {
        segments.drop_last().push(
            text_segment(content(segments.last()) + grapheme.text, properties),
        )
    } else {
        segments.push(text_segment(grapheme.text, properties))
    }
}

/// The segments of a sequence of classified graphemes, every text segment
/// drawn with `properties`.
pub open spec fn segments_of(graphemes: Seq<GraphemeView>, properties: TextProperties) -> Seq<
    SegmentView,
>
    decreases graphemes.len(),
{
    if graphemes.len() == 0 {
        Seq::empty()
    } else {
        append_grapheme(
            segments_of(graphemes.drop_last(), properties),
            graphemes.last(),
            properties,
        )
    }
}

/// The segments of a text drawn with `properties`.
pub open spec fn text_segments(text: Seq<char>, properties: TextProperties) -> Seq<SegmentView> {
    segments_of(text_graphemes(text), properties)
}

/// No two neighbours of a sequence of segments are both text.
pub open spec fn no_adjacent_text(segments: Seq<SegmentView>) -> bool {
    forall|i: int, j: int|
        0 <= i && j == i + 1 && j < segments.len() ==> !(#[trigger] segments[i] is Text
            && #[trigger] segments[j] is Text)
}

/// Every text segment of a sequence has characters and is drawn with `properties`.
pub open spec fn text_well_formed(segments: Seq<SegmentView>, properties: TextProperties) -> bool {
    forall|i: int|
        0 <= i < segments.len() ==> (#[trigger] segments[i] matches SegmentView::Text(run)
            ==> run.text.len() > 0 && run.properties == properties)
}

/// `text` is what the graphemes from `first` up to `end` spell, and none of
/// them is a pictogram.
pub open spec fn is_text_run(
    graphemes: Seq<GraphemeView>,
    first: int,
    end: int,
    text: Seq<char>,
) -> bool {
    &&& 0 <= first < end <= graphemes.len()
    &&& forall|k: int| first <= k < end ==> !(#[trigger] graphemes[k]).pictogram
    &&& text == grapheme_texts(graphemes.subrange(first, end)).flatten()
}

/// Every pictogram segment is one grapheme that was classified as a pictogram.
pub open spec fn emoji_from_pictograms(
    segments: Seq<SegmentView>,
    graphemes: Seq<GraphemeView>,
) -> bool {
    forall|i: int|
        0 <= i < segments.len() && #[trigger] segments[i] is Emoji ==> exists|k: int|
            0 <= k < graphemes.len() && (#[trigger] graphemes[k]).pictogram && graphemes[k].text
                == content(segments[i])
}

/// Every text segment is a run of graphemes none of which was classified as a
/// pictogram.
pub open spec fn text_from_runs(segments: Seq<SegmentView>, graphemes: Seq<GraphemeView>) -> bool {
    forall|i: int|
        0 <= i < segments.len() && #[trigger] segments[i] is Text ==> exists|first: int, end: int|
         #[trigger] is_text_run(graphemes, first, end, content(segments[i]))
}

/// Appending a grapheme appends its characters to the text spelled.
pub proof fn lemma_append_spells(
    segments: Seq<SegmentView>,
    grapheme: GraphemeView,
    properties: TextProperties,
)
    ensures
        reconstruct(append_grapheme(segments, grapheme, properties)) == reconstruct(segments)
            + grapheme.text,
{
    broadcast use Seq::lemma_flatten_push;

    let after = append_grapheme(segments, grapheme, properties);
    if grapheme.pictogram {
        assert(contents(after) =~= contents(segments).push(grapheme.text));
    } else if grapheme.text.len() == 0 {
        assert(reconstruct(segments) + grapheme.text =~= reconstruct(segments));
    } else if ends_with_text(segments) {
        let before = segments.drop_last();
        let tail = content(segments.last());
        assert(contents(segments) =~= contents(before).push(tail));
        assert(contents(after) =~= contents(before).push(tail + grapheme.text));
        assert(contents(before).flatten() + (tail + grapheme.text) =~= (contents(before).flatten()
            + tail) + grapheme.text);
    } else {
        assert(contents(after) =~= contents(segments).push(grapheme.text));
    }
}

/// Round trip: the segments of a sequence of graphemes spell what the
/// graphemes spell.
pub proof fn lemma_round_trip(graphemes: Seq<GraphemeView>, properties: TextProperties)
    ensures
        reconstruct(segments_of(graphemes, properties)) == grapheme_texts(graphemes).flatten(),
    decreases graphemes.len(),
{
    broadcast use Seq::lemma_flatten_push;

    if graphemes.len() == 0 {
        assert(contents(segments_of(graphemes, properties)) =~= Seq::<Seq<char>>::empty());
        assert(grapheme_texts(graphemes) =~= Seq::<Seq<char>>::empty());
    } else {
        let before = graphemes.drop_last();
        lemma_round_trip(before, properties);
        lemma_append_spells(segments_of(before, properties), graphemes.last(), properties);
        assert(grapheme_texts(graphemes) =~= grapheme_texts(before).push(graphemes.last().text));
    }
}

/// What one more grapheme keeps true of the segments: no two neighbours are
/// both text, and every text segment has characters and the given properties.
pub proof fn lemma_append_shape(
    segments: Seq<SegmentView>,
    grapheme: GraphemeView,
    properties: TextProperties,
)
    requires
        no_adjacent_text(segments),
        text_well_formed(segments, properties),
    ensures
        no_adjacent_text(append_grapheme(segments, grapheme, properties)),
        text_well_formed(append_grapheme(segments, grapheme, properties), properties),
{
    let after = append_grapheme(segments, grapheme, properties);
    assert forall|i: int, j: int| 0 <= i && j == i + 1 && j < after.len() implies !(
    #[trigger] after[i] is Text && #[trigger] after[j] is Text) by {
        if j < segments.len() - 1 {
            assert(after[i] == segments[i] && after[j] == segments[j]);
        } else if j == segments.len() - 1 && after.len() == segments.len() {
            assert(after[i] == segments[i]);
            assert(segments[j] is Text || after[j] == segments[j]);
        }
    }
    assert forall|i: int| 0 <= i < after.len() implies (#[trigger] after[i] matches SegmentView::Text(
        run,
    ) ==> run.text.len() > 0 && run.properties == properties) by {
        if i < segments.len() - 1 {
            assert(after[i] == segments[i]);
        } else if i == segments.len() - 1 && after.len() > segments.len() {
            assert(after[i] == segments[i]);
        } else if i == segments.len() - 1 && !ends_with_text(segments) {
            assert(after[i] == segments[i]);
        }
    }
}

/// No adjacent text: the segments of any sequence of graphemes never hold two
/// text segments side by side, and no text segment is empty.
pub proof fn lemma_shape(graphemes: Seq<GraphemeView>, properties: TextProperties)
    ensures
        no_adjacent_text(segments_of(graphemes, properties)),
        text_well_formed(segments_of(graphemes, properties), properties),
    decreases graphemes.len(),
{
    if graphemes.len() > 0 {
        lemma_shape(graphemes.drop_last(), properties);
        lemma_append_shape(
            segments_of(graphemes.drop_last(), properties),
            graphemes.last(),
            properties,
        );
    }
}

/// Whether the text segment that ends a sequence, if one does, is the run of
/// graphemes that ends `graphemes`.
pub open spec fn tail_is_run(segments: Seq<SegmentView>, graphemes: Seq<GraphemeView>) -> bool {
    ends_with_text(segments) ==> exists|first: int| #[trigger]
        is_text_run(graphemes, first, graphemes.len() as int, content(segments.last()))
}

/// A run of graphemes stays the run it is when a grapheme is added behind it.
proof fn lemma_run_survives(
    graphemes: Seq<GraphemeView>,
    grapheme: GraphemeView,
    first: int,
    end: int,
    text: Seq<char>,
)
    requires
        is_text_run(graphemes, first, end, text),
    ensures
        is_text_run(graphemes.push(grapheme), first, end, text),
{
    let longer = graphemes.push(grapheme);
    assert(longer.subrange(first, end) =~= graphemes.subrange(first, end));
    assert forall|k: int| first <= k < end implies !(#[trigger] longer[k]).pictogram by {
        assert(longer[k] == graphemes[k]);
    }
}

/// A run that reaches the end takes in one more grapheme that is no pictogram.
proof fn lemma_run_extends(
    graphemes: Seq<GraphemeView>,
    grapheme: GraphemeView,
    first: int,
    text: Seq<char>,
)
    requires
        is_text_run(graphemes, first, graphemes.len() as int, text),
        !grapheme.pictogram,
    ensures
        is_text_run(
            graphemes.push(grapheme),
            first,
            graphemes.len() as int + 1,
            text + grapheme.text,
        ),
{
    broadcast use Seq::lemma_flatten_push;

    let longer = graphemes.push(grapheme);
    let run = graphemes.subrange(first, graphemes.len() as int);
    assert(longer.subrange(first, graphemes.len() as int + 1) =~= run.push(grapheme));
    assert(grapheme_texts(run.push(grapheme)) =~= grapheme_texts(run).push(grapheme.text));
    assert forall|k: int| first <= k < graphemes.len() as int + 1 implies !(#[trigger] longer[k]).pictogram by {
        if k < graphemes.len() {
            assert(longer[k] == graphemes[k]);
        }
    }
}

/// A grapheme that is no pictogram is a run by itself.
proof fn lemma_run_starts(graphemes: Seq<GraphemeView>, grapheme: GraphemeView)
    requires
        !grapheme.pictogram,
    ensures
        is_text_run(
            graphemes.push(grapheme),
            graphemes.len() as int,
            graphemes.len() as int + 1,
            grapheme.text,
        ),
{
    broadcast use Seq::lemma_flatten_push;

    let longer = graphemes.push(grapheme);
    let run = longer.subrange(graphemes.len() as int, graphemes.len() as int + 1);
    assert(run =~= Seq::<GraphemeView>::empty().push(grapheme));
    assert(grapheme_texts(run) =~= Seq::<Seq<char>>::empty().push(grapheme.text));
    assert(Seq::<Seq<char>>::empty().flatten() + grapheme.text =~= grapheme.text);
}

/// What one more grapheme keeps true of where the segments come from.
proof fn lemma_append_origin(
    segments: Seq<SegmentView>,
    graphemes: Seq<GraphemeView>,
    grapheme: GraphemeView,
    properties: TextProperties,
)
    requires
        emoji_from_pictograms(segments, graphemes),
        text_from_runs(segments, graphemes),
        tail_is_run(segments, graphemes),
    ensures
        emoji_from_pictograms(
            append_grapheme(segments, grapheme, properties),
            graphemes.push(grapheme),
        ),
        text_from_runs(append_grapheme(segments, grapheme, properties), graphemes.push(grapheme)),
        tail_is_run(append_grapheme(segments, grapheme, properties), graphemes.push(grapheme)),
{
    let after = append_grapheme(segments, grapheme, properties);
    let longer = graphemes.push(grapheme);
    let n = graphemes.len() as int;
    let extends = !grapheme.pictogram && grapheme.text.len() > 0 && ends_with_text(segments);

    assert forall|i: int| 0 <= i < after.len() && #[trigger] after[i] is Emoji implies exists|
        k: int,
    |
        0 <= k < longer.len() && (#[trigger] longer[k]).pictogram && longer[k].text == content(
            after[i],
        ) by {
        if i < segments.len() {
            assert(after[i] == segments[i]);
            let k = choose|k: int|
                0 <= k < graphemes.len() && (#[trigger] graphemes[k]).pictogram
                    && graphemes[k].text == content(segments[i]);
            assert(longer[k] == graphemes[k]);
        } else {
            assert(longer[n] == grapheme);
        }
    }

    assert forall|i: int| 0 <= i < after.len() && #[trigger] after[i] is Text implies exists|
        first: int,
        end: int,
    | #[trigger] is_text_run(longer, first, end, content(after[i])) by {
        if i < segments.len() && !(extends && i == segments.len() - 1) {
            assert(after[i] == segments[i]);
            let (first, end) = choose|first: int, end: int| #[trigger]
                is_text_run(graphemes, first, end, content(segments[i]));
            lemma_run_survives(graphemes, grapheme, first, end, content(segments[i]));
            assert(is_text_run(longer, first, end, content(after[i])));
        } else if extends {
            let first = choose|first: int| #[trigger]
                is_text_run(graphemes, first, n, content(segments.last()));
            lemma_run_extends(graphemes, grapheme, first, content(segments.last()));
            assert(is_text_run(longer, first, n + 1, content(after[i])));
        } else {
            lemma_run_starts(graphemes, grapheme);
            assert(is_text_run(longer, n, n + 1, content(after[i])));
        }
    }

    if ends_with_text(after) {
        if grapheme.text.len() == 0 {
            let first = choose|first: int| #[trigger]
                is_text_run(graphemes, first, n, content(segments.last()));
            lemma_run_extends(graphemes, grapheme, first, content(segments.last()));
            assert(content(segments.last()) + grapheme.text =~= content(segments.last()));
        } else if extends {
            let first = choose|first: int| #[trigger]
                is_text_run(graphemes, first, n, content(segments.last()));
            lemma_run_extends(graphemes, grapheme, first, content(segments.last()));
        } else {
            lemma_run_starts(graphemes, grapheme);
        }
    }
}

/// Classifier consistency: every pictogram segment is a grapheme that was
/// classified as a pictogram, and every text segment is spelled by a run of
/// graphemes none of which was.
pub proof fn lemma_origin(graphemes: Seq<GraphemeView>, properties: TextProperties)
    ensures
        emoji_from_pictograms(segments_of(graphemes, properties), graphemes),
        text_from_runs(segments_of(graphemes, properties), graphemes),
        tail_is_run(segments_of(graphemes, properties), graphemes),
    decreases graphemes.len(),
{
    if graphemes.len() > 0 {
        let before = graphemes.drop_last();
        lemma_origin(before, properties);
        lemma_append_origin(
            segments_of(before, properties),
            before,
            graphemes.last(),
            properties,
        );
        assert(before.push(graphemes.last()) =~= graphemes);
    }
}

/// The segments found so far, with the text that has been gathered behind
/// them and not yet been made a segment.
pub open spec fn with_pending(
    segments: Seq<SegmentView>,
    pending: Seq<char>,
    properties: TextProperties,
) -> Seq<SegmentView> {
    if pending.len() == 0 {
        segments
    } else {
        segments.push(text_segment(pending, properties))
    }
}

/// Turns classified graphemes into segments: each pictogram a segment of its
/// own, the graphemes between two pictograms one text segment with the
/// properties of `style`.
pub fn segment_graphemes(graphemes: &Vec<Grapheme>, style: &ExposedRichText) -> (segments: Vec<
    TextSegment,
>)
    ensures
        segment_views(segments@) == segments_of(grapheme_views(graphemes@), style.properties),
{
    let mut result: Vec<TextSegment> = Vec::new();
    let mut text = String::new();
    let ghost all = grapheme_views(graphemes@);
    let ghost properties = style.properties;

    let mut i: usize = 0;
    while i < graphemes.len()
        invariant
            i <= graphemes@.len(),
            all == grapheme_views(graphemes@),
            properties == style.properties,
            !ends_with_text(segment_views(result@)),
            with_pending(segment_views(result@), text@, properties) == segments_of(
                all.take(i as int),
                properties,
            ),
        decreases graphemes@.len() - i,
    {
        let grapheme = &graphemes[i];
        let ghost before = with_pending(segment_views(result@), text@, properties);
        let ghost found = segment_views(result@);
        let ghost pending = text@;
        proof {
            assert(all.take(i + 1).drop_last() =~= all.take(i as int));
            assert(all.take(i + 1).last() == grapheme@);
            assert(segments_of(all.take(i + 1), properties) == append_grapheme(
                before,
                grapheme@,
                properties,
            ));
        }
        if grapheme.pictogram {
            if !text.as_str().is_empty() {
                result.push(TextSegment::Text(ExposedRichText::new_keep_properties(text, style)));
                text = String::new();
            }
            assert(segment_views(result@) =~= before);
            result.push(TextSegment::Emoji(grapheme.text.clone()));
            assert(segment_views(result@) =~= before.push(SegmentView::Emoji(grapheme@.text)));
        } else {
            text.append(grapheme.text.as_str());
            proof {
                if grapheme@.text.len() == 0 {
                    assert(text@ =~= pending);
                } else if pending.len() > 0 {
                    assert(before.drop_last() =~= found);
                }
            }
        }
        i += 1;
    }

    if !text.as_str().is_empty() {
        let ghost found = segment_views(result@);
        result.push(TextSegment::Text(ExposedRichText::new_keep_properties(text, style)));
        assert(segment_views(result@) =~= found.push(text_segment(text@, properties)));
    }
    assert(all.take(graphemes@.len() as int) =~= all);
    result
}

/// Every pictogram segment holds characters that the classifier accepts, and
/// holds some.
pub open spec fn pictograms_classified(segments: Seq<SegmentView>) -> bool {
    forall|i: int|
        0 <= i < segments.len() && #[trigger] segments[i] is Emoji ==> is_pictogram(
            content(segments[i]),
        ) && content(segments[i]).len() > 0
}

/// Idempotence: segmenting the text that the segments of `text` spell gives
/// those segments again. It holds of every text that its own grapheme clusters
/// spell, which is every text that `graphemes` has split.
pub proof fn lemma_idempotent(text: Seq<char>, properties: TextProperties)
    requires
        grapheme_clusters(text).flatten() == text,
    ensures
        reconstruct(text_segments(text, properties)) == text,
        text_segments(reconstruct(text_segments(text, properties)), properties) == text_segments(
            text,
            properties,
        ),
{
    lemma_round_trip(text_graphemes(text), properties);
    crate::grapheme::lemma_classified_texts(grapheme_clusters(text));
}

/// Splits a styled run into segments, pictograms apart from text.
///
/// The run is read grapheme cluster by grapheme cluster. Each cluster that the
/// classifier knows becomes a pictogram segment; the clusters between two
/// pictograms become one text segment, which takes the properties of `input`.
pub fn segment_text(input: &ExposedRichText) -> (segments: Vec<TextSegment>)
    ensures
        segment_views(segments@) == text_segments(input.text@, input.properties),
        reconstruct(segment_views(segments@)) == input.text@,
        no_adjacent_text(segment_views(segments@)),
        text_well_formed(segment_views(segments@), input.properties),
        pictograms_classified(segment_views(segments@)),
        emoji_from_pictograms(segment_views(segments@), text_graphemes(input.text@)),
        text_from_runs(segment_views(segments@), text_graphemes(input.text@)),
        text_segments(reconstruct(segment_views(segments@)), input.properties) == segment_views(
            segments@,
        ),
        (segments@.len() == 0) == (input.text@.len() == 0),
{
    let found = graphemes(input.text());
    let segments = segment_graphemes(&found, input);
    proof {
        let clusters = grapheme_clusters(input.text@);
        let all = grapheme_views(found@);
        let views = segment_views(segments@);
        crate::grapheme::lemma_classified_texts(clusters);
        lemma_idempotent(input.text@, input.properties);
        lemma_shape(all, input.properties);
        lemma_origin(all, input.properties);
        assert forall|i: int| 0 <= i < views.len() && #[trigger] views[i] is Emoji implies is_pictogram(
            content(views[i]),
        ) && content(views[i]).len() > 0 by {
            let k = choose|k: int|
                0 <= k < all.len() && (#[trigger] all[k]).pictogram && all[k].text == content(
                    views[i],
                );
            assert(all[k] == found@[k]@);
        }
        if input.text@.len() == 0 && clusters.len() > 0 {
            clusters.lemma_flatten_and_flatten_alt_are_equivalent();
            clusters.lemma_flatten_length_ge_single_element_length(0);
            assert(clusters[0] == found@[0].text@);
        }
        if views.len() == 0 {
            assert(contents(views) =~= Seq::<Seq<char>>::empty());
        }
    }
    segments
}

} // verus!
