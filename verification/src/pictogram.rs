//! The pictogram classifier and the pictogram asset store.

use twemoji_assets::svg::SvgTwemojiAsset;
use vstd::prelude::*;
use vstd::string::*;
use vstd::utf8::encode_utf8;

verus! {

/// The SVG document that the Twemoji asset table holds for `emoji`, if it holds one.
pub uninterp spec fn twemoji_svg(emoji: Seq<char>) -> Option<Seq<char>>;

/// Whether a grapheme is a pictogram: whether the asset table knows it.
pub open spec fn is_pictogram(grapheme: Seq<char>) -> bool {
    twemoji_svg(grapheme) is Some
}

/// The view of an optional string slice.
pub open spec fn opt_str_view(s: Option<&str>) -> Option<Seq<char>> {
    match s {
        Some(s) => Some(s@),
        None => None,
    }
}

/// Calls `twemoji_assets::svg::SvgTwemojiAsset::from_emoji` and hands out the SVG
/// text of the asset found. The table is fixed at build time, so the answer is a
/// function of `emoji` alone; it is named `twemoji_svg`, and nothing more is
/// claimed of it.
#[verifier::external_body]
fn find_svg(emoji: &str) -> (svg: Option<&'static str>)
    ensures
        opt_str_view(svg) == twemoji_svg(emoji@),
{
    SvgTwemojiAsset::from_emoji(emoji).map(|asset| asset.data.0)
}

/// Decides whether one grapheme cluster is rendered as a pictogram.
pub fn is_emoji(text: &str) -> (known: bool)
    ensures
        known == is_pictogram(text@),
{
    find_svg(text).is_some()
}

/// Where the image of a pictogram is read from: the bytes of its SVG document,
/// under a name that tells the host's image loader what they are.
#[derive(Debug, PartialEq, Eq)]
pub struct EmojiSource {
    pub uri: String,
    pub bytes: &'static [u8],
}

/// What an image source is: the name and the bytes.
pub struct EmojiSourceView {
    pub uri: Seq<char>,
    pub bytes: Seq<u8>,
}

impl View for EmojiSource {
    type V = EmojiSourceView;

    open spec fn view(&self) -> EmojiSourceView {
        EmojiSourceView { uri: self.uri@, bytes: self.bytes@ }
    }
}

/// The view of an optional image source.
pub open spec fn opt_source_view(source: Option<EmojiSource>) -> Option<EmojiSourceView> {
    match source {
        Some(source) => Some(source@),
        None => None,
    }
}

/// The image source of a pictogram: its SVG document in UTF-8, named by the
/// pictogram's characters followed by `.svg`. Characters that are no known
/// pictogram have none.
pub open spec fn emoji_source(emoji: Seq<char>) -> Option<EmojiSourceView> {
    match twemoji_svg(emoji) {
        Some(svg) => Some(EmojiSourceView { uri: emoji + ".svg"@, bytes: encode_utf8(svg) }),
        None => None,
    }
}

/// Looks up the image of a pictogram.
pub fn get_source_for_emoji(emoji: &str) -> (source: Option<EmojiSource>)
    ensures
        opt_source_view(source) == emoji_source(emoji@),
        source is Some == is_pictogram(emoji@),
{
    match find_svg(emoji) {
        Some(svg) => Some(EmojiSource { uri: emoji.to_owned().concat(".svg"), bytes: svg.as_bytes() }),
        None => None,
    }
}

} // verus!
