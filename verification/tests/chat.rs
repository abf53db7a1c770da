use voxel::chat::{trim_message, Chat, ChatEvent, CursorGrab};
use voxel::input::keyboard::Mods;
use voxel::input::keys;
use voxel::renderer::text_renderer::{Extent2D, GlyphData, GlyphVertex, TextColor, TextRenderer};
use voxel::text_box::{ClipboardRequest, TextBoxEvent, TextBoxInput};

fn renderer() -> TextRenderer {
    let glyphs: Vec<GlyphData> =
        (0..256u32).map(|i| GlyphData { char: i, base_and_dims: 0, advance: 5, layer: 0 }).collect();
    TextRenderer::new(glyphs, Extent2D { width: 800, height: 600 }, GlyphVertex { d1: 0, d2: 0 })
}

fn input() -> TextBoxInput {
    TextBoxInput { mods: Mods::empty(), time_ms: 0, mouse_x: 0, mouse_y_up: 0 }
}

fn key(k: usize) -> ChatEvent {
    ChatEvent::Input(TextBoxEvent::KeyPressed(k))
}

fn type_str(chat: &mut Chat, s: &str, tr: &TextRenderer) {
    for c in s.chars() {
        chat.process_event(ChatEvent::Input(TextBoxEvent::ReceivedCharacter(c)), input(), tr);
    }
}

#[test]
fn trim_message_drops_outer_spaces_only() {
    assert_eq!(trim_message(&[' ', ' ', 'a', ' ', 'b', ' ']), &['a', ' ', 'b']);
    assert_eq!(trim_message(&[' ', ' ']), &[] as &[char]);
    assert_eq!(trim_message(&[]), &[] as &[char]);
    assert_eq!(trim_message(&['x']), &['x']);
    let once = trim_message(&[' ', 'q', ' ']).to_vec();
    assert_eq!(trim_message(&once), &once[..]);
}

#[test]
fn closed_chat_ignores_events() {
    let tr = renderer();
    let mut chat = Chat::new(800);
    assert!(!chat.is_open());
    let r = chat.process_event(key(keys::RETURN), input(), &tr);
    assert!(!r.consumed);
    assert!(r.send.is_none());
    assert!(r.cursor.is_none());
}

#[test]
fn return_sends_trimmed_message_and_closes() {
    let tr = renderer();
    let mut chat = Chat::new(800);
    assert_eq!(chat.toggle_open(), CursorGrab::Free);
    assert!(chat.is_open());
    type_str(&mut chat, "  hi there ", &tr);
    let r = chat.process_event(key(keys::RETURN), input(), &tr);
    assert!(r.consumed);
    assert_eq!(r.send, Some("hi there".chars().collect()));
    assert_eq!(r.cursor, Some(CursorGrab::Confined));
    assert_eq!(r.clipboard, ClipboardRequest::Nothing);
    assert!(!chat.is_open());
}

#[test]
fn blank_message_is_not_sent() {
    let tr = renderer();
    let mut chat = Chat::new(800);
    chat.toggle_open();
    type_str(&mut chat, "   ", &tr);
    let r = chat.process_event(key(keys::RETURN), input(), &tr);
    assert!(r.send.is_none());
    assert!(!chat.is_open());
}

#[test]
fn up_and_down_browse_own_messages() {
    let tr = renderer();
    let mut chat = Chat::new(800);
    for m in ["first", "second"] {
        chat.toggle_open();
        type_str(&mut chat, m, &tr);
        chat.process_event(key(keys::RETURN), input(), &tr);
    }
    chat.toggle_open();
    let r = chat.process_event(key(keys::UP), input(), &tr);
    assert!(r.consumed);
    let r = chat.process_event(key(keys::RETURN), input(), &tr);
    assert_eq!(r.send, Some("second".chars().collect()));

    chat.toggle_open();
    chat.process_event(key(keys::UP), input(), &tr);
    chat.process_event(key(keys::UP), input(), &tr);
    chat.process_event(key(keys::UP), input(), &tr);
    let r = chat.process_event(key(keys::RETURN), input(), &tr);
    assert_eq!(r.send, Some("first".chars().collect()));

    chat.toggle_open();
    chat.process_event(key(keys::UP), input(), &tr);
    chat.process_event(key(keys::DOWN), input(), &tr);
    chat.process_event(key(keys::DOWN), input(), &tr);
    // Past the newest message the line is empty again.
    let r = chat.process_event(key(keys::RETURN), input(), &tr);
    assert!(r.send.is_none());
}

#[test]
fn resize_is_not_consumed() {
    let tr = renderer();
    let mut chat = Chat::new(800);
    chat.toggle_open();
    let r = chat.process_event(ChatEvent::Resized(500), input(), &tr);
    assert!(!r.consumed);
}

#[test]
fn history_keeps_at_most_255_entries() {
    let mut chat = Chat::new(100);
    for i in 0..300u32 {
        chat.add_chat_entry(format!("m{i}"), TextColor::from_rgba32(0xFFFFFFFF), i);
    }
    chat.report_send_failure(300);
    assert!(!chat.is_open());
}

#[test]
fn drawing_shows_recent_messages_only_while_closed() {
    let mut chat = Chat::new(800);
    chat.add_chat_entry("hello".to_string(), TextColor::from_rgba32(0xFFFFFFFF), 0);
    let mut ui = voxel::renderer::ui_renderer::UiRenderer::new(renderer());
    chat.draw(5_000, &mut ui, 800, 600);
    // One line of five glyphs, and the background behind the messages.
    assert_eq!(ui.text_ref().vertices().len(), 1 + 5);
    assert_eq!(ui.vertices().len(), 6);

    let mut ui = voxel::renderer::ui_renderer::UiRenderer::new(renderer());
    chat.draw(20_000, &mut ui, 800, 600);
    assert_eq!(ui.text_ref().vertices().len(), 1);
    assert_eq!(ui.vertices().len(), 0);

    // While open, old messages show too, with the input bar and its cursor.
    chat.toggle_open();
    let mut ui = voxel::renderer::ui_renderer::UiRenderer::new(renderer());
    chat.draw(20_000, &mut ui, 800, 600);
    assert_eq!(ui.text_ref().vertices().len(), 1 + 5);
    assert_eq!(ui.vertices().len(), 6 * 3);
}

#[test]
fn long_messages_are_broken_into_lines() {
    let mut chat = Chat::new(800);
    // 15 pixels per character: 40 words of 4 letters do not fit 384 pixels.
    let words: Vec<&str> = std::iter::repeat("abcd").take(40).collect();
    chat.add_chat_entry(words.join(" "), TextColor::from_rgba32(0xFFFFFFFF), 0);
    let mut ui = voxel::renderer::ui_renderer::UiRenderer::new(renderer());
    chat.draw(0, &mut ui, 800, 600);
    assert_eq!(ui.text_ref().vertices().len(), 1 + 160);
    assert!(ui.vertices().len() == 6);
}
