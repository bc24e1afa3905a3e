use egui_twemoji::grapheme::{graphemes, Grapheme};
use egui_twemoji::pictogram::{get_source_for_emoji, is_emoji};
use egui_twemoji::rich_text::{Color32, ExposedRichText, FontFamily, TextProperties, TextStyle};
use egui_twemoji::segment::{segment_graphemes, segment_text, TextSegment};

fn content(segment: &TextSegment) -> &str {
    match segment {
        TextSegment::Text(run) => run.text(),
        TextSegment::Emoji(emoji) => emoji.as_str(),
    }
}

fn spelled(segments: &[TextSegment]) -> String {
    let mut text = String::new();
    for segment in segments {
        text.push_str(content(segment));
    }
    text
}

fn fancy() -> TextProperties {
    let mut properties = TextProperties::plain();
    properties.size = Some(0x41A0_0000);
    properties.family = Some(FontFamily::Name("serif".to_owned()));
    properties.text_style = Some(TextStyle::Heading);
    properties.text_color = Some(Color32 { r: 255, g: 0, b: 0, a: 255 });
    properties.strong = true;
    properties.underline = true;
    properties
}

const SAMPLES: [&str; 12] = [
    "",
    "a",
    "Hello😤world",
    "😅 2,*:привет|3 🤬",
    "Hello world 🥰!",
    "🐦",
    "🐦🐦🐦",
    "⭐ egui-twemoji 🐦✨",
    "👉 This 👈 is a strong 💪😈 RichText 🤑💰 label",
    "flags 🇩🇪🇫🇷 and a family 👨‍👩‍👧‍👦 and e\u{301}",
    "line\r\nbreak\tand tab",
    "1\u{20e3} keycap, ©, plain 1",
];

#[test]
fn emoji_segmentation() {
    let text = "Hello😤world";
    let segments = segment_text(&ExposedRichText::new(text));
    assert!(
        segments
            == vec![
                TextSegment::Text("Hello".into()),
                TextSegment::Emoji("😤".to_owned()),
                TextSegment::Text("world".into())
            ]
    );
    let text = "😅 2,*:привет|3 🤬";
    let segments = segment_text(&ExposedRichText::new(text));
    assert!(
        segments
            == vec![
                TextSegment::Emoji("😅".to_owned()),
                TextSegment::Text(" 2,*:привет|3 ".into()),
                TextSegment::Emoji("🤬".to_owned()),
            ]
    );
    let text = "Hello world 🥰!";
    let segments = segment_text(&ExposedRichText::new(text));
    assert!(
        segments
            == vec![
                TextSegment::Text("Hello world ".into()),
                TextSegment::Emoji("🥰".to_owned()),
                TextSegment::Text("!".into())
            ]
    );
}

#[test]
fn empty_text_has_no_segments() {
    let segments = segment_text(&ExposedRichText::new(""));
    assert_eq!(segments, vec![]);
}

#[test]
fn single_pictogram_is_one_segment() {
    let segments = segment_text(&ExposedRichText::new("🐦"));
    assert_eq!(segments, vec![TextSegment::Emoji("🐦".to_owned())]);
}

#[test]
fn only_pictograms_give_no_text_segment() {
    let segments = segment_text(&ExposedRichText::new("🙅🙆🙇"));
    assert_eq!(
        segments,
        vec![
            TextSegment::Emoji("🙅".to_owned()),
            TextSegment::Emoji("🙆".to_owned()),
            TextSegment::Emoji("🙇".to_owned()),
        ]
    );
}

#[test]
fn only_text_gives_one_text_segment() {
    let segments = segment_text(&ExposedRichText::new("no pictogram here"));
    assert_eq!(segments, vec![TextSegment::Text("no pictogram here".into())]);
}

#[test]
fn pictogram_of_several_code_points_is_one_segment() {
    let segments = segment_text(&ExposedRichText::new("a🇩🇪b👨‍👩‍👧‍👦c"));
    assert_eq!(
        segments,
        vec![
            TextSegment::Text("a".into()),
            TextSegment::Emoji("🇩🇪".to_owned()),
            TextSegment::Text("b".into()),
            TextSegment::Emoji("👨‍👩‍👧‍👦".to_owned()),
            TextSegment::Text("c".into()),
        ]
    );
}

#[test]
fn combining_marks_stay_in_the_text() {
    let segments = segment_text(&ExposedRichText::new("e\u{301}🐦o\u{308}\u{332}"));
    assert_eq!(
        segments,
        vec![
            TextSegment::Text("e\u{301}".into()),
            TextSegment::Emoji("🐦".to_owned()),
            TextSegment::Text("o\u{308}\u{332}".into()),
        ]
    );
}

#[test]
fn text_segments_keep_the_properties() {
    let input = ExposedRichText { text: "x😤y".to_owned(), properties: fancy() };
    let segments = segment_text(&input);
    assert_eq!(
        segments,
        vec![
            TextSegment::Text(ExposedRichText { text: "x".to_owned(), properties: fancy() }),
            TextSegment::Emoji("😤".to_owned()),
            TextSegment::Text(ExposedRichText { text: "y".to_owned(), properties: fancy() }),
        ]
    );
}

#[test]
fn segments_spell_the_text() {
    for text in SAMPLES {
        let segments = segment_text(&ExposedRichText::new(text));
        assert_eq!(spelled(&segments), text);
        assert_eq!(segments.is_empty(), text.is_empty());
    }
}

#[test]
fn no_two_text_segments_are_neighbours() {
    for text in SAMPLES {
        let segments = segment_text(&ExposedRichText::new(text));
        for pair in segments.windows(2) {
            assert!(!(matches!(pair[0], TextSegment::Text(_)) && matches!(pair[1], TextSegment::Text(_))));
        }
    }
}

#[test]
fn segmenting_again_gives_the_same_segments() {
    for text in SAMPLES {
        let once = segment_text(&ExposedRichText::new(text));
        let again = segment_text(&ExposedRichText::new(&spelled(&once)));
        assert_eq!(once, again);
    }
}

#[test]
fn segments_agree_with_the_classifier() {
    for text in SAMPLES {
        for segment in segment_text(&ExposedRichText::new(text)) {
            match segment {
                TextSegment::Emoji(emoji) => {
                    assert!(!emoji.is_empty());
                    assert!(is_emoji(&emoji));
                }
                TextSegment::Text(run) => {
                    assert!(!run.is_empty());
                    for grapheme in graphemes(run.text()) {
                        assert!(!grapheme.pictogram);
                        assert!(!is_emoji(&grapheme.text));
                    }
                }
            }
        }
    }
}

#[test]
fn classifier_knows_pictograms_only() {
    assert!(is_emoji("😤"));
    assert!(is_emoji("🐦"));
    assert!(is_emoji("🇩🇪"));
    assert!(is_emoji("©"));
    assert!(!is_emoji(""));
    assert!(!is_emoji("a"));
    assert!(!is_emoji(" "));
    assert!(!is_emoji("😤😤"));
    assert!(!is_emoji("not an emoji"));
}

#[test]
fn graphemes_are_split_and_classified() {
    let found = graphemes("a\r\nb🇷🇺e\u{301}😤");
    assert_eq!(
        found,
        vec![
            Grapheme { text: "a".to_owned(), pictogram: false },
            Grapheme { text: "\r\n".to_owned(), pictogram: false },
            Grapheme { text: "b".to_owned(), pictogram: false },
            Grapheme { text: "🇷🇺".to_owned(), pictogram: true },
            Grapheme { text: "e\u{301}".to_owned(), pictogram: false },
            Grapheme { text: "😤".to_owned(), pictogram: true },
        ]
    );
    assert_eq!(graphemes(""), vec![]);
}

#[test]
fn graphemes_spell_the_text() {
    for text in SAMPLES {
        let mut joined = String::new();
        for grapheme in graphemes(text) {
            assert!(!grapheme.text.is_empty());
            assert_eq!(grapheme.pictogram, is_emoji(&grapheme.text));
            joined.push_str(&grapheme.text);
        }
        assert_eq!(joined, text);
    }
}

#[test]
fn classified_graphemes_are_segmented_by_their_flags() {
    let style = ExposedRichText { text: "ignored".to_owned(), properties: fancy() };
    let run = |text: &str| ExposedRichText { text: text.to_owned(), properties: fancy() };
    let grapheme = |text: &str, pictogram: bool| Grapheme { text: text.to_owned(), pictogram };
    let input = vec![
        grapheme("a", false),
        grapheme("b", false),
        grapheme("X", true),
        grapheme("Y", true),
        grapheme("", false),
        grapheme("c", false),
        grapheme("", false),
        grapheme("d", false),
        grapheme("", true),
        grapheme("", false),
    ];
    assert_eq!(
        segment_graphemes(&input, &style),
        vec![
            TextSegment::Text(run("ab")),
            TextSegment::Emoji("X".to_owned()),
            TextSegment::Emoji("Y".to_owned()),
            TextSegment::Text(run("cd")),
            TextSegment::Emoji("".to_owned()),
        ]
    );
    assert_eq!(segment_graphemes(&vec![], &style), vec![]);
    assert_eq!(segment_graphemes(&vec![grapheme("", false)], &style), vec![]);
}

#[test]
fn rerun_keeps_properties_and_takes_the_new_text() {
    let old = ExposedRichText { text: "old".to_owned(), properties: fancy() };
    let run = ExposedRichText::new_keep_properties("new".to_owned(), &old);
    assert_eq!(run, ExposedRichText { text: "new".to_owned(), properties: fancy() });
    assert_eq!(old.text(), "old");
}

#[test]
fn plain_run_has_plain_properties() {
    let run = ExposedRichText::new("text");
    assert_eq!(run.text(), "text");
    assert_eq!(run.properties, TextProperties::plain());
    assert_eq!(run.properties.expand_bg, 1.0f32.to_bits());
    assert_eq!(run.properties.background_color, Color32::transparent());
    assert_eq!(run.properties.size, None);
    assert!(!run.properties.strong);
    assert_eq!(ExposedRichText::from("text"), run);
    assert_eq!(ExposedRichText::from("text".to_owned()), run);
    assert!(ExposedRichText::new("").is_empty());
    assert!(!run.is_empty());
    assert_eq!(run.clone(), run);
}

#[test]
fn pictogram_source_is_its_svg() {
    let source = get_source_for_emoji("🐦").unwrap();
    assert_eq!(source.uri, "🐦.svg");
    let document = std::str::from_utf8(source.bytes).unwrap();
    assert!(document.starts_with("<svg"));
    assert!(document.trim_end().ends_with("</svg>"));
    let duck = get_source_for_emoji("🦆").unwrap();
    assert_eq!(duck.uri, "🦆.svg");
    assert_ne!(duck.bytes, source.bytes);
    assert_eq!(get_source_for_emoji("a"), None);
    assert_eq!(get_source_for_emoji(""), None);
}
