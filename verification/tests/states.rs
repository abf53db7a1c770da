use voxel::input::keyboard::{ElementState, Keyboard, Mods};
use voxel::input::keys;
use voxel::renderer::text_renderer::{Extent2D, GlyphData, GlyphVertex, TextRenderer};
use voxel::renderer::ui_renderer::UiRenderer;
use voxel::states::connection_lost::{ConnectionLostAction, ConnectionLostState};
use voxel::states::username_query::{hover_defined_check, message_fits_check, AddressLookup, ConnectionPoll, UsernameQueryState, NO_ITEM};
use voxel::states::{CursorIcon, MenuEvent};
use voxel::states::game::{draw_crosshair, EntityAction, RemoteEntities};
use voxel::text_box::{TextBoxEvent, TextBoxInput};

fn renderer() -> TextRenderer {
    let glyphs: Vec<GlyphData> =
        (0..256u32).map(|i| GlyphData { char: i, base_and_dims: 0, advance: 5, layer: 0 }).collect();
    TextRenderer::new(glyphs, Extent2D { width: 800, height: 600 }, GlyphVertex { d1: 0, d2: 0 })
}

fn input(shift: bool) -> TextBoxInput {
    TextBoxInput { mods: Mods { ctrl: false, alt: false, shift }, time_ms: 0, mouse_x: 0, mouse_y_up: 0 }
}

#[test]
fn query_hover_targets() {
    let win = (800, 600);
    // Username box: 246 wide centered, from 60 above the middle.
    assert_eq!(UsernameQueryState::get_hovering(win, (400, 370), false), 0);
    assert_eq!(UsernameQueryState::get_hovering(win, (400, 280), false), 1);
    assert_eq!(UsernameQueryState::get_hovering(win, (340, 190), false), 2);
    assert_eq!(UsernameQueryState::get_hovering(win, (460, 190), false), 3);
    assert_eq!(UsernameQueryState::get_hovering(win, (10, 10), false), NO_ITEM);
    // While connecting only the cancel button counts.
    assert_eq!(UsernameQueryState::get_hovering(win, (400, 190), true), 0);
    assert_eq!(UsernameQueryState::get_hovering(win, (400, 370), true), NO_ITEM);
}

#[test]
fn tab_cycles_through_items() {
    let tr = renderer();
    let mut s = UsernameQueryState::new();
    let tab = TextBoxEvent::KeyPressed(keys::TAB);
    // Four tabs come back to the username box, whatever was typed meanwhile.
    for _ in 0..4 {
        s.on_event(tab, input(false), &tr, (800, 600), (0, 0));
    }
    s.on_event(TextBoxEvent::ReceivedCharacter('a'), input(false), &tr, (800, 600), (0, 0));
    s.on_event(tab, input(true), &tr, (800, 600), (0, 0));
    // Now the quit button is selected: space quits.
    let mut kb = Keyboard::new();
    Keyboard::tick(&mut kb);
    Keyboard::handle_key_event(&mut kb, keys::SPACE, ElementState::Pressed);
    Keyboard::tick(&mut kb);
    let r = s.on_update(&mut kb, (800, 600), (0, 0), 0, ConnectionPoll::Pending);
    assert!(r.exit);
    assert!(!r.draw);
}

#[test]
fn join_needs_a_username_of_three_bytes() {
    let tr = renderer();
    let mut s = UsernameQueryState::new();
    for c in "ab".chars() {
        s.on_event(TextBoxEvent::ReceivedCharacter(c), input(false), &tr, (800, 600), (0, 0));
    }
    assert!(s.press_join_button().is_none());
    s.on_event(TextBoxEvent::ReceivedCharacter('c'), input(false), &tr, (800, 600), (0, 0));
    let j = s.press_join_button().unwrap();
    assert_eq!(j.username, vec!['a', 'b', 'c']);
    assert!(j.address.is_empty());
}

#[test]
fn connecting_then_cancel_with_return() {
    let mut s = UsernameQueryState::new();
    s.address_found(AddressLookup::Found);
    let mut kb = Keyboard::new();
    let r = s.on_update(&mut kb, (800, 600), (0, 0), 2500, ConnectionPoll::Pending);
    assert!(r.draw);
    assert!(!r.cancel_connection);
    Keyboard::tick(&mut kb);
    Keyboard::handle_key_event(&mut kb, keys::RETURN, ElementState::Pressed);
    Keyboard::tick(&mut kb);
    let r = s.on_update(&mut kb, (800, 600), (0, 0), 2600, ConnectionPoll::Pending);
    assert!(r.cancel_connection);
}

#[test]
fn connected_enters_the_game() {
    let tr = renderer();
    let mut s = UsernameQueryState::new();
    for c in "joe".chars() {
        s.on_event(TextBoxEvent::ReceivedCharacter(c), input(false), &tr, (800, 600), (0, 0));
    }
    s.address_found(AddressLookup::Found);
    let mut kb = Keyboard::new();
    let r = s.on_update(&mut kb, (800, 600), (0, 0), 0, ConnectionPoll::Connected);
    assert_eq!(r.enter_game, Some(vec!['j', 'o', 'e']));
    assert!(!r.draw);
}

#[test]
fn hovering_sets_the_cursor_icon() {
    let mut s = UsernameQueryState::new();
    let mut kb = Keyboard::new();
    // Mouse over the username box (y from the top).
    let r = s.on_update(&mut kb, (800, 600), (400, 230), 0, ConnectionPoll::Pending);
    assert_eq!(r.cursor_icon, Some(CursorIcon::Text));
    let r = s.on_update(&mut kb, (800, 600), (400, 230), 0, ConnectionPoll::Pending);
    assert_eq!(r.cursor_icon, None);
    let r = s.on_update(&mut kb, (800, 600), (460, 410), 0, ConnectionPoll::Pending);
    assert_eq!(r.cursor_icon, Some(CursorIcon::Hand));
}

#[test]
fn query_screen_draws_border_items_and_buttons() {
    let mut s = UsernameQueryState::new();
    let mut ui = UiRenderer::new(renderer());
    s.draw_ui(&mut ui, (800, 600), NO_ITEM, 0);
    // 16 border rectangles, 3 per box, 3 per button, and the active username box's cursor.
    assert_eq!(ui.vertices().len(), 6 * (16 + 3 + 3 + 3 + 3 + 1));
}

#[test]
fn connection_lost_button() {
    assert!(ConnectionLostState::get_hovering((400, 480), (200, 210)));
    assert!(!ConnectionLostState::get_hovering((400, 480), (10, 10)));
    let mut s = ConnectionLostState::new();
    assert_eq!(s.on_event(MenuEvent::LeftPressed, (400, 480)), ConnectionLostAction::Nothing);
    // y counted from the top: 480 - 270 = 210 from the bottom.
    assert_eq!(
        s.on_event(MenuEvent::CursorMoved(200, 270), (400, 480)),
        ConnectionLostAction::SetCursorIcon(CursorIcon::Hand)
    );
    assert_eq!(s.on_event(MenuEvent::CursorMoved(201, 270), (400, 480)), ConnectionLostAction::Nothing);
    assert_eq!(s.on_event(MenuEvent::LeftPressed, (400, 480)), ConnectionLostAction::GoToUsernameQuery);
    let mut ui = UiRenderer::new(renderer());
    let mut kb = Keyboard::new();
    assert_eq!(s.on_update(&mut kb, &mut ui, (400, 480)), ConnectionLostAction::Nothing);
    assert_eq!(ui.vertices().len(), 6 * (16 + 3));
}

#[test]
fn crosshair_is_two_bars_in_the_middle() {
    let mut ui = UiRenderer::new(renderer());
    draw_crosshair(&mut ui, 800, 600);
    let v = ui.vertices();
    assert_eq!(v.len(), 12);
    let xs: Vec<u16> = v[..6].iter().map(|p| p.x).collect();
    let ys: Vec<u16> = v[..6].iter().map(|p| p.y).collect();
    assert_eq!(xs.iter().min(), Some(&388));
    assert_eq!(xs.iter().max(), Some(&412));
    assert_eq!(ys.iter().min(), Some(&299));
    assert_eq!(ys.iter().max(), Some(&301));
    let xs: Vec<u16> = v[6..].iter().map(|p| p.x).collect();
    let ys: Vec<u16> = v[6..].iter().map(|p| p.y).collect();
    assert_eq!(xs.iter().min(), Some(&399));
    assert_eq!(xs.iter().max(), Some(&401));
    assert_eq!(ys.iter().min(), Some(&288));
    assert_eq!(ys.iter().max(), Some(&312));
}

#[test]
fn remote_entities_spawn_once_then_update() {
    let mut world = hecs::World::new();
    let e = world.spawn(());
    let mut table = RemoteEntities::new();
    // The player's own id is ignored.
    assert!(matches!(table.plan(3, 3), EntityAction::Ignore));
    // An unknown id asks for a spawn with nothing to despawn.
    assert!(matches!(table.plan(5, 3), EntityAction::Spawn { stale: None }));
    table.record_spawned(5, e);
    match table.plan(5, 3) {
        EntityAction::Update(found) => assert_eq!(found, e),
        _ => panic!("recorded entity not found"),
    }
    // A lower id reuses the grown table and still needs a spawn.
    assert!(matches!(table.plan(2, 3), EntityAction::Spawn { stale: None }));
}

#[test]
fn tab_works_in_a_small_window() {
    let tr = renderer();
    let mut s = UsernameQueryState::new();
    let tab = TextBoxEvent::KeyPressed(keys::TAB);
    assert!(s.event_ok_check(tab, input(false), &tr, (100, 100), (50, 50)));
    s.on_event(tab, input(false), &tr, (100, 100), (50, 50));
    assert!(s.event_ok_check(tab, input(true), &tr, (100, 100), (50, 50)));
}

#[test]
fn draw_ok_check_follows_the_window_size() {
    let tr = renderer();
    let s = UsernameQueryState::new();
    assert!(s.draw_ok_check(&tr, 1, 800, 600, 0));
    assert!(!s.draw_ok_check(&tr, 1, 200, 600, 0));
    assert!(!s.draw_ok_check(&tr, 1, 800, 200, 0));
}

#[test]
fn message_check_needs_room_for_the_lines() {
    let tr = renderer();
    assert!(message_fits_check(&tr, "", 10, 10));
    assert!(message_fits_check(&tr, "Username is too short", 800, 600));
    assert!(!message_fits_check(&tr, "Username is too short", 800, 300));
}

#[test]
fn hover_in_a_low_window_is_defined_where_the_tests_stop_early() {
    // 100 pixels high: the address box row (9..=62 from the bottom) is found
    // before the buttons' rows, which would lie below the window, are tested.
    assert!(hover_defined_check((400, 100), (150, 50), false));
    assert_eq!(UsernameQueryState::get_hovering((400, 100), (150, 50), false), 1);
    // Below that row, over the join button's column, the buttons are tested.
    assert!(!hover_defined_check((400, 100), (150, 100), false));
    // Outside every column only the left edges matter.
    assert!(hover_defined_check((400, 100), (390, 100), false));
}
