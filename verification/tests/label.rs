use egui::util::IdTypeMap;
use egui::Id;
use egui_twemoji::label::{EmojiLabel, FlowItem, Shown, TextWrapMode};
use egui_twemoji::layout::{layout, PlacedItem};
use egui_twemoji::pictogram::get_source_for_emoji;
use egui_twemoji::response::{Flags, Pos2, Rect, Response, Sense};
use egui_twemoji::rich_text::{Color32, ExposedRichText, TextProperties};
use egui_twemoji::segment::TextSegment;
use egui_twemoji::state::LabelState;

const LINE: u32 = 0x4160_0000;

fn placeholder(emoji: &str) -> ExposedRichText {
    let mut properties = TextProperties::plain();
    properties.text_color = Some(Color32 { r: 0, g: 0, b: 0, a: 0 });
    ExposedRichText { text: emoji.to_owned(), properties }
}

fn text_item(segment: usize, text: &str, wrap_mode: Option<TextWrapMode>) -> FlowItem {
    FlowItem::Text { segment, text: text.into(), wrap_mode, selectable: None, sense: None }
}

fn pictogram_item(segment: usize, emoji: &str) -> FlowItem {
    FlowItem::Pictogram {
        segment,
        source: get_source_for_emoji(emoji).unwrap(),
        edge: LINE,
        placeholder: placeholder(emoji),
    }
}

fn state_of(text: &str) -> LabelState {
    LabelState::from_text(ExposedRichText::new(text))
}

#[test]
fn new_label_keeps_its_text() {
    let label = EmojiLabel::new("⭐ egui-twemoji 🐦✨".into());
    assert_eq!(label.text(), "⭐ egui-twemoji 🐦✨");
    assert_eq!(label.rich_text(), &ExposedRichText::new("⭐ egui-twemoji 🐦✨"));
}

#[test]
fn items_follow_the_segments() {
    let label = EmojiLabel::new("Hello😤world".into());
    let items = label.show_segments(&state_of("Hello😤world"), LINE);
    assert_eq!(
        items,
        vec![text_item(0, "Hello", None), pictogram_item(1, "😤"), text_item(2, "world", None)]
    );
}

#[test]
fn no_segments_give_no_items() {
    let label = EmojiLabel::new("".into());
    assert_eq!(label.show_segments(&state_of(""), LINE), vec![]);
}

#[test]
fn wrap_settings_reach_every_text_item() {
    let state = state_of("a🐦b");
    let wrapped = EmojiLabel::new("a🐦b".into()).wrap().show_segments(&state, LINE);
    assert_eq!(
        wrapped,
        vec![
            text_item(0, "a", Some(TextWrapMode::Wrap)),
            pictogram_item(1, "🐦"),
            text_item(2, "b", Some(TextWrapMode::Wrap)),
        ]
    );
    let extended = EmojiLabel::new("a🐦b".into()).extend().show_segments(&state, LINE);
    assert_eq!(extended[0], text_item(0, "a", Some(TextWrapMode::Extend)));
    let truncated = EmojiLabel::new("a🐦b".into()).wrap().truncate().show_segments(&state, LINE);
    assert_eq!(truncated[2], text_item(2, "b", Some(TextWrapMode::Truncate)));
    let set = EmojiLabel::new("a🐦b".into())
        .wrap_mode(TextWrapMode::Truncate)
        .wrap_mode(TextWrapMode::Wrap)
        .show_segments(&state, LINE);
    assert_eq!(set, wrapped);
}

#[test]
fn selectable_and_sense_reach_every_text_item() {
    let state = state_of("a🐦b");
    let items = EmojiLabel::new("a🐦b".into())
        .selectable(false)
        .sense(Sense::click())
        .auto_inline(false)
        .show_segments(&state, LINE);
    let expected = |segment: usize, text: &str| FlowItem::Text {
        segment,
        text: text.into(),
        wrap_mode: None,
        selectable: Some(false),
        sense: Some(Sense { click: true, drag: false, focusable: true }),
    };
    assert_eq!(items, vec![expected(0, "a"), pictogram_item(1, "🐦"), expected(2, "b")]);
}

#[test]
fn pictogram_box_is_a_square_of_the_line_height() {
    let label = EmojiLabel::new("🐦".into());
    let items = label.show_segments(&state_of("🐦"), 0x4200_0000);
    match &items[0] {
        FlowItem::Pictogram { segment, source, edge, placeholder } => {
            assert_eq!(*segment, 0);
            assert_eq!(*edge, 0x4200_0000);
            assert_eq!(source.uri, "🐦.svg");
            assert_eq!(placeholder.text(), "🐦");
            assert_eq!(placeholder.properties.text_color, Some(Color32::transparent()));
        }
        other => panic!("{:?}", other),
    }
    assert_eq!(items.len(), 1);
}

#[test]
fn pictogram_without_image_is_passed_over() {
    let label = EmojiLabel::new("x".into());
    let state = LabelState {
        segments: vec![
            TextSegment::Text("a".into()),
            TextSegment::Emoji("no pictogram".to_owned()),
            TextSegment::Emoji("🐦".to_owned()),
            TextSegment::Emoji("".to_owned()),
            TextSegment::Text("b".into()),
        ],
        is_saved: true,
    };
    assert_eq!(
        label.show_segments(&state, LINE),
        vec![text_item(0, "a", None), pictogram_item(2, "🐦"), text_item(4, "b", None)]
    );
}

#[test]
fn truncated_label_keeps_its_whole_text() {
    let long = "a long text without any pictogram that will not fit into a narrow container";
    let label = EmojiLabel::new(long.into()).truncate();
    assert_eq!(label.text(), long);
    let mut store = IdTypeMap::default();
    let shown = label.show_with_id(&mut store, Id::new(long), true, LINE);
    assert_eq!(
        shown,
        Shown { items: vec![text_item(0, long, Some(TextWrapMode::Truncate))], inline: true }
    );
}

#[test]
fn first_show_stores_the_segments() {
    let mut store = IdTypeMap::default();
    let id = Id::new("Hello😤world");
    let shown = EmojiLabel::new("Hello😤world".into()).show_with_id(&mut store, id, true, LINE);
    assert_eq!(
        shown.items,
        vec![text_item(0, "Hello", None), pictogram_item(1, "😤"), text_item(2, "world", None)]
    );
    let stored = store.get_temp::<LabelState>(id).unwrap();
    assert!(stored.is_saved);
    assert_eq!(stored.segments, state_of("Hello😤world").segments);
    assert_eq!(store.len(), 1);
}

#[test]
fn second_show_reads_the_store() {
    let mut store = IdTypeMap::default();
    let id = Id::new("Hello😤world");
    let first = EmojiLabel::new("Hello😤world".into()).show_with_id(&mut store, id, true, LINE);
    let second = EmojiLabel::new("Hello😤world".into()).show_with_id(&mut store, id, true, LINE);
    assert_eq!(first, second);
    assert_eq!(store.len(), 1);

    let planted = LabelState { segments: vec![TextSegment::Text("planted".into())], is_saved: true };
    planted.save(&mut store, id);
    let third = EmojiLabel::new("Hello😤world".into()).show_with_id(&mut store, id, true, LINE);
    assert_eq!(third.items, vec![text_item(0, "planted", None)]);
}

#[test]
fn unsaved_state_in_the_store_is_marked_and_stored_again() {
    let mut store = IdTypeMap::default();
    let id = Id::new("key");
    LabelState { segments: vec![TextSegment::Text("kept".into())], is_saved: false }
        .save(&mut store, id);
    let shown = EmojiLabel::new("key".into()).show_with_id(&mut store, id, false, LINE);
    assert_eq!(shown.items, vec![text_item(0, "kept", None)]);
    assert_eq!(
        store.get_temp::<LabelState>(id),
        Some(LabelState { segments: vec![TextSegment::Text("kept".into())], is_saved: true })
    );
}

#[test]
fn label_joins_a_horizontal_container_unless_told_otherwise() {
    let show = |label: EmojiLabel, horizontal: bool| {
        let mut store = IdTypeMap::default();
        label.show_with_id(&mut store, Id::new("id"), horizontal, LINE).inline
    };
    assert!(show(EmojiLabel::new("a".into()), true));
    assert!(!show(EmojiLabel::new("a".into()), false));
    assert!(!show(EmojiLabel::new("a".into()).auto_inline(false), true));
    assert!(!show(EmojiLabel::new("a".into()).auto_inline(false), false));
    assert!(show(EmojiLabel::new("a".into()).auto_inline(false).auto_inline(true), true));
}

#[test]
fn show_uses_the_id_of_the_text() {
    let mut store = IdTypeMap::default();
    let text = "Yes 👍, you 🤟 can";
    let shown = EmojiLabel::new(text.into()).show(&mut store, true, LINE);
    let stored = store.get_temp::<LabelState>(Id::new(text)).unwrap();
    assert!(stored.is_saved);
    assert_eq!(stored.segments, state_of(text).segments);
    assert_eq!(shown.items.len(), stored.segments.len());
    let again = EmojiLabel::new(text.into()).show(&mut store, true, LINE);
    assert_eq!(again, shown);
    assert_eq!(store.len(), 1);
}

#[test]
fn truncated_text_takes_one_row() {
    let long = "a long text without any pictogram that will not fit into a narrow container";
    let mut store = IdTypeMap::default();
    let shown = EmojiLabel::new(long.into()).truncate().show(&mut store, true, LINE);
    assert_eq!(shown.items.len(), 1);
    assert!(matches!(
        &shown.items[0],
        FlowItem::Text { wrap_mode: Some(TextWrapMode::Truncate), text, .. } if text.text() == long
    ));

    let narrow = Rect { min: Pos2 { x: 0, y: 0 }, max: Pos2 { x: 40, y: 14 } };
    let cut = PlacedItem {
        segment: 0,
        response: Response {
            rect: narrow,
            interact_rect: narrow,
            sense: Sense::hover(),
            flags: Flags::empty(),
            interact_pointer_pos: None,
        },
    };
    let result = layout(&vec![cut]);
    assert_eq!(result.rows().len(), 1);
    assert_eq!(result.response().rect, narrow);
    let kept = store.get_temp::<LabelState>(Id::new(long)).unwrap();
    assert_eq!(kept.segments, vec![TextSegment::Text(long.into())]);
}
