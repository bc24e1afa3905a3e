//! Styled text runs: a text and the properties it is drawn with.

use vstd::prelude::*;
use vstd::std_specs::convert::FromSpecImpl;
use vstd::string::*;

verus! {

/// The single-precision bit pattern of the number one.
pub const ONE: u32 = 0x3F80_0000;

/// A colour as four bytes: red, green, blue with alpha premultiplied, then alpha.
#[derive(Copy, Debug, PartialEq, Eq, Hash, Structural)]
pub struct Color32 {
    pub r: u8,
    pub g: u8,
    pub b: u8,
    pub a: u8,
}

impl Clone for Color32 {
    fn clone(&self) -> (copy: Self)
        ensures
            copy == *self,
    {
        *self
    }
}

impl Color32 {
    /// The colour that leaves what is under it unchanged.
    pub open spec fn spec_transparent() -> Color32 {
        Color32 { r: 0, g: 0, b: 0, a: 0 }
    }

    /// The colour that leaves what is under it unchanged.
    #[verifier::when_used_as_spec(spec_transparent)]
    pub fn transparent() -> (color: Color32)
        ensures
            color == Self::spec_transparent(),
    {
        Color32 { r: 0, g: 0, b: 0, a: 0 }
    }
}

/// The family a font is taken from.
#[derive(Debug, PartialEq, Eq, Hash)]
pub enum FontFamily {
    /// Characters of differing widths.
    Proportional,
    /// Characters of one width.
    Monospace,
    /// A family the host registered under this name.
    Name(String),
}

impl Clone for FontFamily {
    fn clone(&self) -> (copy: Self)
        ensures
            copy == *self,
    {
        match self {
            FontFamily::Proportional => FontFamily::Proportional,
            FontFamily::Monospace => FontFamily::Monospace,
            FontFamily::Name(name) => FontFamily::Name(name.clone()),
        }
    }
}

/// The role a text plays, by which the host picks its font.
#[derive(Debug, PartialEq, Eq, Hash)]
pub enum TextStyle {
    Small,
    Body,
    Monospace,
    Button,
    Heading,
    /// A style the host registered under this name.
    Name(String),
}

impl Clone for TextStyle {
    fn clone(&self) -> (copy: Self)
        ensures
            copy == *self,
    {
        match self {
            TextStyle::Small => TextStyle::Small,
            TextStyle::Body => TextStyle::Body,
            TextStyle::Monospace => TextStyle::Monospace,
            TextStyle::Button => TextStyle::Button,
            TextStyle::Heading => TextStyle::Heading,
            TextStyle::Name(name) => TextStyle::Name(name.clone()),
        }
    }
}

/// Everything a styled run says about how its text is drawn.
///
/// Lengths are kept as the single-precision bit patterns the host measures in:
/// the library carries them and never computes with them.
#[derive(Debug, PartialEq)]
pub struct TextProperties {
    /// Font size in points.
    pub size: Option<u32>,
    /// Space added between characters, in points.
    pub extra_letter_spacing: u32,
    /// Height of a line, in points.
    pub line_height: Option<u32>,
    pub family: Option<FontFamily>,
    pub text_style: Option<TextStyle>,
    pub background_color: Color32,
    /// How far the background reaches beyond the text, in points.
    pub expand_bg: u32,
    pub text_color: Option<Color32>,
    pub code: bool,
    pub strong: bool,
    pub weak: bool,
    pub strikethrough: bool,
    pub underline: bool,
    pub italics: bool,
    pub raised: bool,
}

impl TextProperties {
    /// The properties of text on which nothing was set.
    pub open spec fn spec_plain() -> TextProperties {
        TextProperties {
            size: None,
            extra_letter_spacing: 0,
            line_height: None,
            family: None,
            text_style: None,
            background_color: Color32::transparent(),
            expand_bg: ONE,
            text_color: None,
            code: false,
            strong: false,
            weak: false,
            strikethrough: false,
            underline: false,
            italics: false,
            raised: false,
        }
    }

    /// The properties of text on which nothing was set.
    #[verifier::when_used_as_spec(spec_plain)]
    pub fn plain() -> (properties: TextProperties)
        ensures
            properties == Self::spec_plain(),
    {
        TextProperties {
            size: None,
            extra_letter_spacing: 0,
            line_height: None,
            family: None,
            text_style: None,
            background_color: Color32::transparent(),
            expand_bg: ONE,
            text_color: None,
            code: false,
            strong: false,
            weak: false,
            strikethrough: false,
            underline: false,
            italics: false,
            raised: false,
        }
    }
}

impl Clone for TextProperties {
    fn clone(&self) -> (copy: Self)
        ensures
            copy == *self,
    {
        TextProperties {
            size: self.size,
            extra_letter_spacing: self.extra_letter_spacing,
            line_height: self.line_height,
            family: match &self.family {
                Some(family) => Some(family.clone()),
                None => None,
            },
            text_style: match &self.text_style {
                Some(style) => Some(style.clone()),
                None => None,
            },
            background_color: self.background_color,
            expand_bg: self.expand_bg,
            text_color: self.text_color,
            code: self.code,
            strong: self.strong,
            weak: self.weak,
            strikethrough: self.strikethrough,
            underline: self.underline,
            italics: self.italics,
            raised: self.raised,
        }
    }
}

/// A styled run with its parts in the open: the text and its properties.
#[derive(Debug, PartialEq)]
pub struct ExposedRichText {
    pub text: String,
    pub properties: TextProperties,
}

/// What a styled run is: its characters and its properties.
pub struct RichTextView {
    pub text: Seq<char>,
    pub properties: TextProperties,
}

impl View for ExposedRichText {
    type V = RichTextView;

    open spec fn view(&self) -> RichTextView {
        RichTextView { text: self.text@, properties: self.properties }
    }
}

impl Clone for ExposedRichText {
    fn clone(&self) -> (copy: Self)
        ensures
            copy == *self,
    {
        ExposedRichText { text: self.text.clone(), properties: self.properties.clone() }
    }
}

impl ExposedRichText {
    /// A run of plain text.
    pub fn new(text: &str) -> (run: Self)
        ensures
            run@ == (RichTextView { text: text@, properties: TextProperties::plain() }),
    {
        ExposedRichText { text: text.to_owned(), properties: TextProperties::plain() }
    }

    /// The run that has the properties of `old` and says `text` instead.
    pub fn new_keep_properties(text: String, old: &ExposedRichText) -> (run: Self)
        ensures
            run.text == text,
            run.properties == old.properties,
    {
        ExposedRichText { text, properties: old.properties.clone() }
    }

    /// The characters of the run.
    pub fn text(&self) -> (text: &str)
        ensures
            text@ == self.text@,
    {
        self.text.as_str()
    }

    /// Whether the run has no characters.
    pub fn is_empty(&self) -> (empty: bool)
        ensures
            empty == (self.text@.len() == 0),
    {
        self.text.as_str().is_empty()
    }
}

impl From<String> for ExposedRichText {
    fn from(text: String) -> (run: Self) {
        ExposedRichText { text, properties: TextProperties::plain() }
    }
}

impl FromSpecImpl<String> for ExposedRichText {
    open spec fn obeys_from_spec() -> bool {
        true
    }

    open spec fn from_spec(text: String) -> Self {
        ExposedRichText { text, properties: TextProperties::plain() }
    }
}

impl From<&str> for ExposedRichText {
    fn from(text: &str) -> (run: Self)
        ensures
            run@ == (RichTextView { text: text@, properties: TextProperties::plain() }),
    {
        ExposedRichText::new(text)
    }
}

impl FromSpecImpl<&str> for ExposedRichText {
    open spec fn obeys_from_spec() -> bool {
        false
    }

    open spec fn from_spec(text: &str) -> Self {
        choose|run: Self|
            run@ == (RichTextView { text: text@, properties: TextProperties::plain() })
    }
}

} // verus!
