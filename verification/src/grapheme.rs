//! Grapheme clusters: the user-perceived characters of a text, each with the
//! classifier's verdict on it.

use crate::pictogram::{is_emoji, is_pictogram};
use unicode_segmentation::UnicodeSegmentation;
use vstd::prelude::*;
use vstd::string::*;

verus! {

/// The extended grapheme clusters of `text`, in order.
pub uninterp spec fn grapheme_clusters(text: Seq<char>) -> Seq<Seq<char>>;

/// The characters of each string slice of a sequence.
pub open spec fn str_views(parts: Seq<&str>) -> Seq<Seq<char>> {
    parts.map_values(|part: &str| part@)
}

/// Calls `unicode_segmentation::UnicodeSegmentation::graphemes` for extended
/// clusters and collects what the iterator yields. Where the boundaries fall is
/// the Unicode standard's long rule, so the clusters are only named
/// (`grapheme_clusters`). Two things are claimed of them, both read off the
/// iterator: each item is the slice from the previous boundary to the next one,
/// starting at the text's first byte and ending at its last, so the items
/// joined are the text; and the next boundary lies at least one character
/// further on, so no item is empty.
#[verifier::external_body]
fn split_graphemes<'a>(text: &'a str) -> (clusters: Vec<&'a str>)
    ensures
        str_views(clusters@) == grapheme_clusters(text@),
        str_views(clusters@).flatten() == text@,
        forall|i: int| 0 <= i < clusters@.len() ==> (#[trigger] clusters@[i])@.len() > 0,
{
    UnicodeSegmentation::graphemes(text, true).collect()
}

/// One grapheme cluster and whether it is rendered as a pictogram.
#[derive(Debug, PartialEq, Eq)]
pub struct Grapheme {
    pub text: String,
    pub pictogram: bool,
}

/// What a classified grapheme is: its characters and the verdict.
pub struct GraphemeView {
    pub text: Seq<char>,
    pub pictogram: bool,
}

impl View for Grapheme {
    type V = GraphemeView;

    open spec fn view(&self) -> GraphemeView {
        GraphemeView { text: self.text@, pictogram: self.pictogram }
    }
}

impl Clone for Grapheme {
    fn clone(&self) -> (copy: Self)
        ensures
            copy == *self,
    {
        Grapheme { text: self.text.clone(), pictogram: self.pictogram }
    }
}

/// The views of a sequence of classified graphemes.
pub open spec fn grapheme_views(graphemes: Seq<Grapheme>) -> Seq<GraphemeView> {
    graphemes.map_values(|g: Grapheme| g@)
}

/// The characters of each grapheme of a sequence.
pub open spec fn grapheme_texts(graphemes: Seq<GraphemeView>) -> Seq<Seq<char>> {
    graphemes.map_values(|g: GraphemeView| g.text)
}

/// Each cluster with the classifier's verdict on it.
pub open spec fn classified(clusters: Seq<Seq<char>>) -> Seq<GraphemeView> {
    clusters.map_values(|c: Seq<char>| GraphemeView { text: c, pictogram: is_pictogram(c) })
}

/// The classified grapheme clusters of a text.
pub open spec fn text_graphemes(text: Seq<char>) -> Seq<GraphemeView> {
    classified(grapheme_clusters(text))
}

/// Classifying keeps the characters of every cluster.
pub proof fn lemma_classified_texts(clusters: Seq<Seq<char>>)
    ensures
        grapheme_texts(classified(clusters)) == clusters,
{
    assert(grapheme_texts(classified(clusters)) =~= clusters);
}

/// Splits a text into its grapheme clusters and classifies each.
///
/// The clusters spell the text, none is empty, and each carries the verdict of
/// the pictogram classifier on its characters.
pub fn graphemes(text: &str) -> (found: Vec<Grapheme>)
    ensures
        grapheme_views(found@) == text_graphemes(text@),
        grapheme_texts(grapheme_views(found@)).flatten() == text@,
        forall|i: int| 0 <= i < found@.len() ==> (#[trigger] found@[i]).text@.len() > 0,
        forall|i: int|
            0 <= i < found@.len() ==> (#[trigger] found@[i]).pictogram == is_pictogram(
                found@[i].text@,
            ),
{
    let clusters = split_graphemes(text);
    let mut found: Vec<Grapheme> = Vec::new();
    let mut i: usize = 0;
    while i < clusters.len()
        invariant
            i <= clusters@.len(),
            found@.len() == i,
            forall|k: int|
                0 <= k < i ==> (#[trigger] found@[k])@ == (GraphemeView {
                    text: clusters@[k]@,
                    pictogram: is_pictogram(clusters@[k]@),
                }),
        decreases clusters@.len() - i,
    {
        let cluster: &str = clusters[i];
        let pictogram = is_emoji(cluster);
        found.push(Grapheme { text: cluster.to_owned(), pictogram });
        i += 1;
    }
    proof {
        assert(grapheme_views(found@) =~= classified(str_views(clusters@)));
        lemma_classified_texts(str_views(clusters@));
    }
    found
}

} // verus!
