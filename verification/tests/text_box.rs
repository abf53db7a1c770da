use voxel::input::keyboard::Mods;
use voxel::input::keys;
use voxel::renderer::text_renderer::{Extent2D, GlyphData, GlyphVertex, TextRenderer};
use voxel::renderer::ui_renderer::UiRenderer;
use voxel::text_box::{ClipboardRequest, TextBox, TextBoxBuilder, TextBoxEvent, TextBoxInput, ValidChars, BACKSPACE};

/// A glyph table where every character has a glyph `advance` font pixels wide.
pub fn renderer(advance: u8) -> TextRenderer {
    let glyphs: Vec<GlyphData> =
        (0..256u32).map(|i| GlyphData { char: i, base_and_dims: 0, advance, layer: 0 }).collect();
    TextRenderer::new(glyphs, Extent2D { width: 800, height: 600 }, GlyphVertex { d1: 0, d2: 0 })
}

fn input(ctrl: bool, shift: bool, time_ms: u32) -> TextBoxInput {
    TextBoxInput { mods: Mods { ctrl, alt: false, shift }, time_ms, mouse_x: 0, mouse_y_up: 0 }
}

fn type_str(tb: &mut TextBox, s: &str, tr: &TextRenderer) {
    for c in s.chars() {
        let (consumed, clip) = tb.process_event(TextBoxEvent::ReceivedCharacter(c), input(false, false, 0), tr);
        assert!(consumed);
        assert_eq!(clip, ClipboardRequest::Nothing);
    }
}

fn text(tb: &TextBox) -> String {
    tb.contents().iter().collect()
}

#[test]
fn typing_respects_length_limit_and_valid_chars() {
    let tr = renderer(5);
    let mut tb = TextBoxBuilder::new_at(0, 10)
        .with_length_limit(5)
        .with_valid_chars(ValidChars::from_chars(&['a', 'b', 'c']))
        .build();
    type_str(&mut tb, "abxcabca", &tr);
    assert_eq!(text(&tb), "abcab");
    assert!(tb.modified());
    assert!(!tb.is_empty());
}

#[test]
fn backspace_and_ctrl_backspace() {
    let tr = renderer(5);
    let mut tb = TextBoxBuilder::new_at(0, 10).build();
    type_str(&mut tb, "hello world", &tr);
    tb.process_event(TextBoxEvent::ReceivedCharacter(BACKSPACE), input(false, false, 0), &tr);
    assert_eq!(text(&tb), "hello worl");
    tb.process_event(TextBoxEvent::ReceivedCharacter(BACKSPACE), input(true, false, 0), &tr);
    assert_eq!(text(&tb), "hello ");
}

#[test]
fn select_all_copy_cut_and_paste() {
    let tr = renderer(5);
    let mut tb = TextBoxBuilder::new_at(0, 10).build();
    type_str(&mut tb, "abc", &tr);
    let (consumed, clip) = tb.process_event(TextBoxEvent::KeyPressed(keys::A), input(true, false, 1), &tr);
    assert!(consumed);
    assert_eq!(clip, ClipboardRequest::Nothing);
    assert_eq!(tb.selection().to_vec(), vec!['a', 'b', 'c']);
    let (_, clip) = tb.process_event(TextBoxEvent::KeyPressed(keys::C), input(true, false, 2), &tr);
    assert_eq!(clip, ClipboardRequest::Write(vec!['a', 'b', 'c']));
    assert_eq!(text(&tb), "abc");
    let (_, clip) = tb.process_event(TextBoxEvent::KeyPressed(keys::X), input(true, false, 3), &tr);
    assert_eq!(clip, ClipboardRequest::Write(vec!['a', 'b', 'c']));
    assert_eq!(text(&tb), "");
    let (_, clip) = tb.process_event(TextBoxEvent::KeyPressed(keys::V), input(true, false, 4), &tr);
    assert_eq!(clip, ClipboardRequest::ReadForPaste);
    tb.paste_text(Some(vec!['x', 'y']));
    assert_eq!(text(&tb), "xy");
}

#[test]
fn paste_is_cut_to_the_length_limit() {
    let mut tb = TextBoxBuilder::new_at(0, 10).with_length_limit(4).build();
    tb.paste_text(Some("abcdefg".chars().collect()));
    assert_eq!(text(&tb), "abcd");
    tb.paste_text(None);
    assert_eq!(text(&tb), "abcd");
}

#[test]
fn cursor_moves_and_word_jumps() {
    let tr = renderer(5);
    let mut tb = TextBoxBuilder::new_at(0, 10).build();
    type_str(&mut tb, "one two", &tr);
    tb.process_event(TextBoxEvent::KeyPressed(keys::LEFT), input(true, false, 0), &tr);
    type_str(&mut tb, "X", &tr);
    assert_eq!(text(&tb), "one Xtwo");
    tb.process_event(TextBoxEvent::KeyPressed(keys::UP), input(false, false, 0), &tr);
    type_str(&mut tb, "Y", &tr);
    assert_eq!(text(&tb), "Yone Xtwo");
    tb.process_event(TextBoxEvent::KeyPressed(keys::DOWN), input(false, false, 0), &tr);
    type_str(&mut tb, "Z", &tr);
    assert_eq!(text(&tb), "Yone XtwoZ");
    // Keys the box does not handle are not consumed.
    let (consumed, _) = tb.process_event(TextBoxEvent::KeyPressed(keys::ESCAPE), input(false, false, 0), &tr);
    assert!(!consumed);
}

#[test]
fn set_contents_filters_and_reset_empties() {
    let tr = renderer(5);
    let mut tb = TextBoxBuilder::new_at(0, 10)
        .with_valid_chars(ValidChars::from_chars(&['1', '2']))
        .build();
    tb.set_contents(&['1', 'x', '2'], &tr);
    assert_eq!(text(&tb), "12");
    assert!(!tb.modified());
    tb.reset();
    assert!(tb.is_empty());
}

#[test]
fn double_click_selects_word_triple_click_all() {
    let tr = renderer(5);
    let mut tb = TextBoxBuilder::new_at(0, 10).build();
    type_str(&mut tb, "ab cd", &tr);
    let click = |t: u32| TextBoxInput { mods: Mods::empty(), time_ms: t, mouse_x: 16, mouse_y_up: 10 };
    tb.process_event(TextBoxEvent::LeftMousePressed, click(1000), &tr);
    tb.process_event(TextBoxEvent::LeftMouseReleased, click(1010), &tr);
    tb.process_event(TextBoxEvent::LeftMousePressed, click(1100), &tr);
    assert_eq!(tb.selection().to_vec(), vec!['a', 'b']);
    tb.process_event(TextBoxEvent::LeftMousePressed, click(1200), &tr);
    assert_eq!(tb.selection().to_vec(), vec!['a', 'b', ' ', 'c', 'd']);
}

#[test]
fn drawing_highlights_the_selection() {
    let tr = renderer(5);
    let mut tb = TextBoxBuilder::new_at(10, 40).with_width(200).build();
    type_str(&mut tb, "abc", &tr);
    let mut ui = UiRenderer::new(renderer(5));
    let end = tb.draw(&mut ui, 600, 0);
    assert_eq!(end, (45, 40));
    // Three glyphs; the cursor blinks on at time 0.
    assert_eq!(ui.text_ref().vertices().len(), 1 + 3);
    assert_eq!(ui.vertices().len(), 6);
    // Half a second after the last key the cursor is off.
    let mut ui = UiRenderer::new(renderer(5));
    tb.draw(&mut ui, 600, 700);
    assert_eq!(ui.vertices().len(), 0);
    // With the text selected the highlight is drawn instead.
    tb.select_all();
    let mut ui = UiRenderer::new(renderer(5));
    tb.draw(&mut ui, 600, 700);
    assert_eq!(ui.vertices().len(), 6);
    assert_eq!(ui.vertices()[0].x, 10);
}

#[test]
fn clicks_on_an_empty_box_are_refused_only_as_a_double_click() {
    let tr = renderer(5);
    let mut tb = TextBoxBuilder::new_at(0, 10).build();
    let click = |t: u32| TextBoxInput { mods: Mods::empty(), time_ms: t, mouse_x: 16, mouse_y_up: 10 };
    assert!(tb.event_ok_check(TextBoxEvent::LeftMousePressed, click(1000), &tr));
    tb.process_event(TextBoxEvent::LeftMousePressed, click(1000), &tr);
    // A second click within 300 ms would select a word of an empty text.
    assert!(!tb.event_ok_check(TextBoxEvent::LeftMousePressed, click(1100), &tr));
    // Later, it is a first click again.
    assert!(tb.event_ok_check(TextBoxEvent::LeftMousePressed, click(2000), &tr));
    tb.process_event(TextBoxEvent::LeftMousePressed, click(2000), &tr);
    assert!(text(&tb).is_empty());
}

#[test]
fn mouse_events_on_long_texts_are_handled() {
    let tr = renderer(1);
    let mut tb = TextBoxBuilder::new_at(0, 10).with_width(200).build();
    type_str(&mut tb, "abcdefghij", &tr);
    let click = |x: i32| TextBoxInput { mods: Mods::empty(), time_ms: 5000, mouse_x: x, mouse_y_up: 10 };
    assert!(tb.event_ok_check(TextBoxEvent::LeftMousePressed, click(7), &tr));
    tb.process_event(TextBoxEvent::LeftMousePressed, click(7), &tr);
    // Each glyph is 3 pixels wide: pixel 7 is nearest the boundary after two.
    type_str(&mut tb, "X", &tr);
    assert_eq!(text(&tb), "abXcdefghij");
}
