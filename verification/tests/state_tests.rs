//! Tests of the screen state machine: debounce, visibility toggling, and the
//! end-to-end screen lifecycle.

use vn_core::state::{Director, Event, Game, Screen};
use vn_core::store::Store;
use vn_core::ui::res::Resources;
use vn_core::ui::Adv;

#[test]
fn debounce_accepts_then_rejects_then_accepts() {
    let mut game = Game::default();
    assert!(!game.is_close_click_bounced(0), "first click is accepted");
    assert!(game.is_close_click_bounced(500), "a click half a second later bounces");
    assert!(!game.is_close_click_bounced(1500), "a click a second and a half later is accepted");
}

#[test]
fn debounce_rejected_click_keeps_timestamp() {
    let mut game = Game::default();
    assert!(!game.is_close_click_bounced(0));
    assert!(game.is_close_click_bounced(500));
    assert_eq!(game.last_click_inst, Some(0));
}

#[test]
fn debounce_exact_threshold_bounces() {
    let mut game = Game::default();
    assert!(!game.is_close_click_bounced(0));
    assert!(game.is_close_click_bounced(1000), "exactly the timeout still bounces");
}

#[test]
fn toggle_hide_even_number_restores() {
    let mut store = Store::new(10240, 7680);
    let res = Resources::fetch(&mut store);
    let mut adv = Adv::new(&mut store, &res);
    let window = adv.text.window;
    let close = adv.text.close;

    assert!(!store.is_hidden(window), "a fresh window shows");
    assert!(store.is_reactive(close), "a fresh window's close button is clickable");

    adv.text.toggle_hide(&mut store);
    assert!(store.is_hidden(window));
    assert!(!store.is_reactive(close), "a hidden window's close button is not clickable");

    adv.text.toggle_hide(&mut store);
    assert!(!store.is_hidden(window), "two toggles restore visibility");
    assert!(store.is_reactive(close), "two toggles restore interactivity");
}

#[test]
fn director_boots_into_menu_with_three_entities() {
    let d = Director::new(10240, 7680);
    assert_eq!(d.store.entity_count(), 3);
    match d.screen {
        Screen::Menu(ref m) => {
            let u = m.ui.as_ref().expect("menu fixture populated after enter");
            assert!(d.store.is_alive(u.background));
            assert!(d.store.is_alive(u.new_game_btn));
            assert!(d.store.is_alive(u.exit_game_btn));
        }
        Screen::Game(_) => panic!("the application starts at the menu"),
    }
}

#[test]
fn menu_start_click_switches_and_destroys_menu() {
    let mut d = Director::new(10240, 7680);
    let (bg, start, exit) = match d.screen {
        Screen::Menu(ref m) => {
            let u = m.ui.as_ref().unwrap();
            (u.background, u.new_game_btn, u.exit_game_btn)
        }
        Screen::Game(_) => panic!("expected menu"),
    };
    let quit = d.handle_event(Event::ClickStop { target: start });
    assert!(!quit);
    assert!(matches!(d.screen, Screen::Game(_)));
    assert!(!d.store.is_alive(bg));
    assert!(!d.store.is_alive(start));
    assert!(!d.store.is_alive(exit));
    assert_eq!(d.store.entity_count(), 5);
}

#[test]
fn menu_exit_click_terminates_cleanly() {
    let mut d = Director::new(10240, 7680);
    let exit = match d.screen {
        Screen::Menu(ref m) => m.ui.as_ref().unwrap().exit_game_btn,
        Screen::Game(_) => panic!("expected menu"),
    };
    let quit = d.handle_event(Event::ClickStop { target: exit });
    assert!(quit);
    assert_eq!(d.store.entity_count(), 0);
}

#[test]
fn menu_stray_click_stays() {
    let mut d = Director::new(10240, 7680);
    let quit = d.handle_event(Event::ClickStop { target: 999 });
    assert!(!quit);
    assert!(matches!(d.screen, Screen::Menu(_)));
    assert_eq!(d.store.entity_count(), 3);
}

#[test]
fn end_to_end_start_then_close_leaves_nothing() {
    let mut d = Director::new(10240, 7680);
    let start = match d.screen {
        Screen::Menu(ref m) => m.ui.as_ref().unwrap().new_game_btn,
        Screen::Game(_) => panic!("expected menu"),
    };
    assert!(!d.handle_event(Event::ClickStop { target: start }));
    assert!(matches!(d.screen, Screen::Game(_)));
    let quit = d.handle_event(Event::CloseRequested);
    assert!(quit);
    assert_eq!(d.store.entity_count(), 0, "no dangling entities after termination");
}

#[test]
fn game_toggle_key_hides_dialogue() {
    let mut d = Director::new(10240, 7680);
    let start = match d.screen {
        Screen::Menu(ref m) => m.ui.as_ref().unwrap().new_game_btn,
        Screen::Game(_) => panic!("expected menu"),
    };
    d.handle_event(Event::ClickStop { target: start });
    let window = match d.screen {
        Screen::Game(ref g) => g.ui.as_ref().unwrap().text.window,
        Screen::Menu(_) => panic!("expected game"),
    };
    assert!(!d.store.is_hidden(window));
    d.handle_event(Event::ToggleKey);
    assert!(d.store.is_hidden(window));
    d.handle_event(Event::ToggleKey);
    assert!(!d.store.is_hidden(window));
}

#[test]
fn game_close_click_debounced_through_driver() {
    let mut d = Director::new(10240, 7680);
    let start = match d.screen {
        Screen::Menu(ref m) => m.ui.as_ref().unwrap().new_game_btn,
        Screen::Game(_) => panic!("expected menu"),
    };
    d.handle_event(Event::ClickStop { target: start });
    let (window, close) = match d.screen {
        Screen::Game(ref g) => {
            let tw = g.ui.as_ref().unwrap().text;
            (tw.window, tw.close)
        }
        Screen::Menu(_) => panic!("expected game"),
    };

    d.handle_event(Event::Click { target: close, at: 2000 });
    assert!(d.store.is_hidden(window), "accepted click hides the window");

    d.handle_event(Event::Click { target: close, at: 2500 });
    assert!(d.store.is_hidden(window), "a click within the timeout is rejected");

    d.handle_event(Event::Click { target: close, at: 3500 });
    assert!(!d.store.is_hidden(window), "a click past the timeout is accepted");
}

#[test]
fn game_window_close_terminates_cleanly() {
    let mut d = Director::new(10240, 7680);
    let start = match d.screen {
        Screen::Menu(ref m) => m.ui.as_ref().unwrap().new_game_btn,
        Screen::Game(_) => panic!("expected menu"),
    };
    d.handle_event(Event::ClickStop { target: start });
    assert!(d.handle_event(Event::CloseRequested));
    assert_eq!(d.store.entity_count(), 0);
}

#[test]
fn resize_event_recomputes_button_layout() {
    let mut d = Director::new(10240, 7680);
    let start = match d.screen {
        Screen::Menu(ref m) => m.ui.as_ref().unwrap().new_game_btn,
        Screen::Game(_) => panic!("expected menu"),
    };
    assert_eq!(d.store.layout_of(start).unwrap().width, 10240 / 5);
    d.handle_event(Event::Resized { width: 20480, height: 7680 });
    let l = d.store.layout_of(start).unwrap();
    assert_eq!(l.width, 20480 / 5);
    assert_eq!(l.height, 1000);
}

#[test]
fn game_frames_drive_periodic_flip() {
    let mut d = Director::new(10240, 7680);
    let start = match d.screen {
        Screen::Menu(ref m) => m.ui.as_ref().unwrap().new_game_btn,
        Screen::Game(_) => panic!("expected menu"),
    };
    d.handle_event(Event::ClickStop { target: start });
    let sprite = match d.screen {
        Screen::Game(ref g) => g.sprite.unwrap(),
        Screen::Menu(_) => panic!("expected game"),
    };
    assert!(d.store.is_flipped(sprite), "the demo sprite starts mirrored");
    assert_eq!(d.store.position_of(sprite).unwrap().x, 12500);

    d.update(1000);
    d.update(1000);
    assert!(d.store.is_flipped(sprite), "two seconds do not reach the period");
    d.update(1000);
    assert!(!d.store.is_flipped(sprite), "the third second triggers the flip");
    assert_eq!(d.store.position_of(sprite).unwrap().x, 12500 + 25000);
}

#[test]
fn menu_frames_leave_entities_alone() {
    let mut d = Director::new(10240, 7680);
    d.update(1000);
    d.update(1000);
    d.update(1000);
    assert_eq!(d.store.entity_count(), 3);
    assert!(matches!(d.screen, Screen::Menu(_)));
}
