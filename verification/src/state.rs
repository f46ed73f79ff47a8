//! The screen state machine.
//!
//! Two screens: the menu and the game.  Each owns the entities it creates in
//! `on_start` and destroys every one of them in `on_stop`; no entity a screen
//! creates outlives it.  Each screen routes events to a transition decision
//! and dispatches its tracks once per frame: the menu runs only the base
//! track, the game runs base then extended.

use vstd::prelude::*;

use crate::camera::Camera;
use crate::schedule::{run_systems, Adv, Base, GameData};
use crate::sprites::Sprites;
use crate::store::{same_meta, Store};
use crate::ui;
use crate::ui::res::{fetch_resources_model, Resources};
use crate::ui::toggle_model;

verus! {

/// How long after an accepted close click further clicks are ignored, in
/// milliseconds.
pub const CLICK_BOUNCE_TIMEOUT: u64 = 1000;

/// The screens of the application.
#[derive(Clone, Copy, Debug, PartialEq, Eq, Structural)]
pub enum ScreenKind {
    Menu,
    Game,
}

/// What a screen decides after an event or a frame: stay, switch to another
/// screen, or terminate the application.
#[derive(Clone, Copy, Debug, PartialEq, Eq, Structural)]
pub enum Trans {
    Stay,
    Switch(ScreenKind),
    Quit,
}

/// One host event, delivered as plain values.  Click events carry the
/// clicked entity and the monotonic time of the click in milliseconds.
#[derive(Clone, Copy, Debug, PartialEq, Eq, Structural)]
pub enum Event {
    /// The window's close button was pressed.
    CloseRequested,
    /// The key bound to toggling the dialogue window went down.
    ToggleKey,
    /// A press on an interactive widget.
    Click { target: u64, at: u64 },
    /// A click released over an interactive widget.
    ClickStop { target: u64 },
    /// The window was resized to the given dimensions, in tenths of a unit.
    Resized { width: u32, height: u32 },
}

/// The menu screen: it owns its fixture between `on_start` and `on_stop`.
pub struct Menu {
    pub ui: Option<ui::Menu>,
}

impl Default for Menu {
    /// A menu screen that has not yet entered.
    fn default() -> (r: Self)
        ensures
            r.ui is None,
    {
        Menu { ui: None }
    }
}

/// The menu's transition decision for one event: closing the window or
/// releasing a click on the exit button terminates; releasing a click on the
/// start button switches to the game; everything else stays.
pub open spec fn menu_trans(u: ui::Menu, event: Event) -> Trans {
    match event {
        Event::CloseRequested => Trans::Quit,
        Event::ClickStop { target } => if target == u.exit_game_btn {
            Trans::Quit
        } else if target == u.new_game_btn {
            Trans::Switch(ScreenKind::Game)
        } else {
            Trans::Stay
        },
        _ => Trans::Stay,
    }
}

impl Menu {
    /// Every handle the screen will reference while active is populated and
    /// refers to a living entity.
    pub open spec fn populated(&self, store: &Store) -> bool {
        &&& self.ui is Some
        &&& store.alive(self.ui.unwrap().background)
        &&& store.alive(self.ui.unwrap().new_game_btn)
        &&& store.alive(self.ui.unwrap().exit_game_btn)
    }

    /// The entities this screen owns.
    pub open spec fn owned(&self) -> Set<u64> {
        if self.ui is Some {
            set![
                self.ui.unwrap().background,
                self.ui.unwrap().new_game_btn,
                self.ui.unwrap().exit_game_btn,
            ]
        } else {
            Set::empty()
        }
    }

    /// Enters the screen: fetches the UI resources and builds the menu
    /// fixture.  When it returns, every handle the screen will reference is
    /// populated.
    pub fn on_start(&mut self, store: &mut Store)
        requires
            old(self).ui is None,
            old(store).wf(),
            old(store).next_handle + 7 <= u64::MAX,
            old(store).next_entity + 3 <= u64::MAX,
        ensures
            final(store).wf(),
            final(self).populated(final(store)),
            final(self).ui is Some,
            final(self).ui.unwrap().background == old(store).next_entity,
            final(self).ui.unwrap().new_game_btn == old(store).next_entity + 1,
            final(self).ui.unwrap().exit_game_btn == old(store).next_entity + 2,
            final(store).next_entity == old(store).next_entity + 3,
            final(store).entities@.dom() == old(store).entities@.dom().insert(
                old(store).next_entity,
            ).insert((old(store).next_entity + 1) as u64).insert(
                (old(store).next_entity + 2) as u64,
            ),
            final(store).ui_res == fetch_resources_model(*old(store)).1.ui_res,
            final(store).sprites_res == old(store).sprites_res,
            final(store).delta == old(store).delta,
            final(store).screen_w == old(store).screen_w,
            final(store).screen_h == old(store).screen_h,
    {
        let res = Resources::fetch(store);
        let fixture = ui::Menu::new(store, &res);
        proof {
            assert(store.entities@.dom() =~= old(store).entities@.dom().insert(
                fixture.background,
            ).insert(fixture.new_game_btn).insert(fixture.exit_game_btn));
        }
        self.ui = Some(fixture);
    }

    /// Leaves the screen: destroys every entity it created.  When it
    /// returns, none of them remains in the store.
    pub fn on_stop(&mut self, store: &mut Store)
        requires
            old(self).ui is Some,
            old(store).wf(),
        ensures
            final(store).wf(),
            final(self).ui is None,
            final(store).entities@ == old(store).entities@.remove(
                old(self).ui.unwrap().background,
            ).remove(old(self).ui.unwrap().new_game_btn).remove(
                old(self).ui.unwrap().exit_game_btn,
            ),
            final(store).entities@.dom() == old(store).entities@.dom().remove(
                old(self).ui.unwrap().background,
            ).remove(old(self).ui.unwrap().new_game_btn).remove(
                old(self).ui.unwrap().exit_game_btn,
            ),
            forall|e: u64| old(self).owned().contains(e) ==> !final(store).alive(e),
            same_meta(old(store), final(store)),
    {
        match self.ui.take() {
            Some(fixture) => fixture.destroy(store),
            None => unreached(),
        }
    }

    /// Routes one event to a transition decision; the menu never mutates the
    /// store while handling events.
    pub fn handle_event(&mut self, event: Event) -> (r: Trans)
        requires
            old(self).ui is Some,
        ensures
            *final(self) == *old(self),
            r == menu_trans(old(self).ui.unwrap(), event),
    {
        match event {
            Event::CloseRequested => Trans::Quit,
            Event::ClickStop { target } => {
                let fixture = match &self.ui {
                    Some(f) => f,
                    None => unreached(),
                };
                if target == fixture.exit_game_btn {
                    Trans::Quit
                } else if target == fixture.new_game_btn {
                    Trans::Switch(ScreenKind::Game)
                } else {
                    Trans::Stay
                }
            },
            _ => Trans::Stay,
        }
    }

    /// One frame of the menu: dispatches the base track only.
    pub fn update(&mut self, data: &mut GameData, store: &mut Store) -> (r: Trans)
        requires
            old(data).wf(),
            old(store).wf(),
        ensures
            *final(self) == *old(self),
            r == Trans::Stay,
            final(data).wf(),
            final(store).wf(),
            final(data).basic.order@ == run_systems(
                old(data).basic.order@,
                old(store).delta,
                old(store).entities@,
            ).0,
            final(store).entities@ == run_systems(
                old(data).basic.order@,
                old(store).delta,
                old(store).entities@,
            ).1,
            final(data).adv == old(data).adv,
            same_meta(old(store), final(store)),
    {
        data.update(Base, store);
        Trans::Stay
    }
}

/// Whether a close click at time `now` is accepted: the first click always
/// is; afterwards only clicks more than the bounce timeout after the last
/// accepted one.
pub open spec fn debounce_accepts(last: Option<u64>, now: u64) -> bool {
    match last {
        None => true,
        Some(t) => now > t + CLICK_BOUNCE_TIMEOUT,
    }
}

/// The game screen: it owns the dialogue fixture, the demonstration sprite
/// and the camera between `on_start` and `on_stop`, and debounces clicks on
/// the dialogue's close button.
pub struct Game {
    pub ui: Option<ui::Adv>,
    pub sprite: Option<u64>,
    pub camera: Option<Camera>,
    /// The time of the last accepted close click, if any.
    pub last_click_inst: Option<u64>,
}

impl Default for Game {
    /// A game screen that has not yet entered and has accepted no click.
    fn default() -> (r: Self)
        ensures
            r.ui is None,
            r.sprite is None,
            r.camera is None,
            r.last_click_inst is None,
    {
        Game { ui: None, sprite: None, camera: None, last_click_inst: None }
    }
}

impl Game {
    /// Every handle the screen will reference while active is populated,
    /// refers to a living entity, and the dialogue's root and close button
    /// are distinct entities.
    pub open spec fn populated(&self, store: &Store) -> bool {
        &&& self.ui is Some
        &&& self.sprite is Some
        &&& self.camera is Some
        &&& store.alive(self.ui.unwrap().text.window)
        &&& store.alive(self.ui.unwrap().text.text)
        &&& store.alive(self.ui.unwrap().text.close)
        &&& store.alive(self.sprite.unwrap())
        &&& store.alive(self.camera.unwrap().inner)
        &&& self.ui.unwrap().text.window != self.ui.unwrap().text.close
    }

    /// The entities this screen owns.
    pub open spec fn owned(&self) -> Set<u64> {
        (if self.ui is Some {
            set![
                self.ui.unwrap().text.window,
                self.ui.unwrap().text.text,
                self.ui.unwrap().text.close,
            ]
        } else {
            Set::empty()
        }).union(
            if self.sprite is Some {
                set![self.sprite.unwrap()]
            } else {
                Set::empty()
            },
        ).union(
            if self.camera is Some {
                set![self.camera.unwrap().inner]
            } else {
                Set::empty()
            },
        )
    }

    /// Whether a close click at `now` bounces off the debounce guard.  An
    /// accepted click records its time; a bounced one changes nothing.
    pub fn is_close_click_bounced(&mut self, now: u64) -> (r: bool)
        ensures
            r == !debounce_accepts(old(self).last_click_inst, now),
            final(self).last_click_inst == (if debounce_accepts(old(self).last_click_inst, now) {
                Some(now)
            } else {
                old(self).last_click_inst
            }),
            final(self).ui == old(self).ui,
            final(self).sprite == old(self).sprite,
            final(self).camera == old(self).camera,
    {
        let accepted = match self.last_click_inst {
            None => true,
            Some(t) => now > t && now - t > CLICK_BOUNCE_TIMEOUT,
        };
        if accepted {
            self.last_click_inst = Some(now);
            false
        } else {
            true
        }
    }

    /// The dialogue fixture; absent only outside the screen's lifetime.
    pub fn ui_mut(&mut self) -> (r: &mut ui::Adv)
        requires
            old(self).ui is Some,
        ensures
            *r == old(self).ui.unwrap(),
            final(self).ui == Some(*final(r)),
            final(self).sprite == old(self).sprite,
            final(self).camera == old(self).camera,
            final(self).last_click_inst == old(self).last_click_inst,
    {
        match &mut self.ui {
            Some(fixture) => fixture,
            None => unreached(),
        }
    }

    /// Enters the screen: fetches the UI resources, builds the dialogue
    /// fixture, spawns the demonstration sprite and creates the camera.
    /// When it returns, every handle the screen will reference is populated.
    pub fn on_start(&mut self, store: &mut Store)
        requires
            old(self).ui is None,
            old(self).sprite is None,
            old(self).camera is None,
            old(store).wf(),
            old(store).next_handle + 8 <= u64::MAX,
            old(store).next_entity + 5 <= u64::MAX,
        ensures
            final(store).wf(),
            final(self).populated(final(store)),
            final(self).last_click_inst == old(self).last_click_inst,
            final(self).ui.unwrap().text.window == old(store).next_entity,
            final(self).ui.unwrap().text.text == old(store).next_entity + 1,
            final(self).ui.unwrap().text.close == old(store).next_entity + 2,
            final(self).sprite == Some((old(store).next_entity + 3) as u64),
            final(self).camera.unwrap().inner == old(store).next_entity + 4,
            final(store).next_entity == old(store).next_entity + 5,
            final(store).entities@.dom() == old(store).entities@.dom().insert(
                old(store).next_entity,
            ).insert((old(store).next_entity + 1) as u64).insert(
                (old(store).next_entity + 2) as u64,
            ).insert((old(store).next_entity + 3) as u64).insert(
                (old(store).next_entity + 4) as u64,
            ),
            final(store).delta == old(store).delta,
            final(store).screen_w == old(store).screen_w,
            final(store).screen_h == old(store).screen_h,
            final(store).ui_res is Some,
            final(store).sprites_res is Some,
    {
        let res = Resources::fetch(store);
        let fixture = ui::Adv::new(store, &res);
        self.ui = Some(fixture);

        let sprites = Sprites::fetch(store);
        let sprite: u64 = sprites.demo(store);
        self.sprite = Some(sprite);

        let cam = Camera::new(store);
        self.camera = Some(cam);
        proof {
            assert(store.entities@.dom() =~= old(store).entities@.dom().insert(
                fixture.text.window,
            ).insert(fixture.text.text).insert(fixture.text.close).insert(sprite).insert(
                cam.inner,
            ));
        }
    }

    /// Leaves the screen: destroys the dialogue fixture, the demonstration
    /// sprite and the camera.  When it returns, none of them remains.
    pub fn on_stop(&mut self, store: &mut Store)
        requires
            old(self).ui is Some,
            old(self).sprite is Some,
            old(self).camera is Some,
            old(store).wf(),
        ensures
            final(store).wf(),
            final(self).ui is None,
            final(self).sprite is None,
            final(self).camera is None,
            final(store).entities@.dom() == old(store).entities@.dom().remove(
                old(self).ui.unwrap().text.window,
            ).remove(old(self).ui.unwrap().text.text).remove(
                old(self).ui.unwrap().text.close,
            ).remove(old(self).sprite.unwrap()).remove(old(self).camera.unwrap().inner),
            forall|e: u64| old(self).owned().contains(e) ==> !final(store).alive(e),
            same_meta(old(store), final(store)),
    {
        match self.ui.take() {
            Some(fixture) => fixture.destroy(store),
            None => unreached(),
        }
        match self.sprite.take() {
            Some(sprite) => store.delete_entity(sprite),
            None => unreached(),
        }
        match self.camera.take() {
            Some(cam) => cam.destroy(store),
            None => unreached(),
        }
    }

    /// Routes one event: closing the window terminates; the toggle key flips
    /// the dialogue's visibility; a click on the dialogue's close button
    /// flips it too, unless the debounce guard rejects the click; everything
    /// else stays.
    pub fn handle_event(&mut self, store: &mut Store, event: Event) -> (r: Trans)
        requires
            old(store).wf(),
            old(self).populated(old(store)),
        ensures
            final(store).wf(),
            final(self).populated(final(store)),
            final(self).ui == old(self).ui,
            final(self).sprite == old(self).sprite,
            final(self).camera == old(self).camera,
            same_meta(old(store), final(store)),
            r == (match event {
                Event::CloseRequested => Trans::Quit,
                _ => Trans::Stay,
            }),
            (match event {
                Event::ToggleKey => final(store).entities@ == toggle_model(
                    old(store).entities@,
                    old(self).ui.unwrap().text.window,
                    old(self).ui.unwrap().text.close,
                ) && final(self).last_click_inst == old(self).last_click_inst,
                Event::Click { target, at } => if target == old(self).ui.unwrap().text.close
                    && debounce_accepts(old(self).last_click_inst, at) {
                    final(store).entities@ == toggle_model(
                        old(store).entities@,
                        old(self).ui.unwrap().text.window,
                        old(self).ui.unwrap().text.close,
                    ) && final(self).last_click_inst == Some(at)
                } else {
                    final(store).entities@ == old(store).entities@
                        && final(self).last_click_inst == old(self).last_click_inst
                },
                _ => final(store).entities@ == old(store).entities@
                    && final(self).last_click_inst == old(self).last_click_inst,
            }),
    {
        match event {
            Event::CloseRequested => Trans::Quit,
            Event::ToggleKey => {
                let fixture = self.ui_mut();
                fixture.text.toggle_hide(store);
                proof {
                    assert(store.entities@.dom() =~= old(store).entities@.dom());
                }
                Trans::Stay
            },
            Event::Click { target, at } => {
                let close: u64 = match &self.ui {
                    Some(f) => f.text.close,
                    None => unreached(),
                };
                if target == close && !self.is_close_click_bounced(at) {
                    let fixture = self.ui_mut();
                    fixture.text.toggle_hide(store);
                    proof {
                        assert(store.entities@.dom() =~= old(store).entities@.dom());
                    }
                }
                Trans::Stay
            },
            _ => Trans::Stay,
        }
    }

    /// One frame of the game: dispatches the base track, then the extended
    /// track, which may assume the base track's effects are applied.
    pub fn update(&mut self, data: &mut GameData, store: &mut Store) -> (r: Trans)
        requires
            old(data).wf(),
            old(store).wf(),
        ensures
            *final(self) == *old(self),
            r == Trans::Stay,
            final(data).wf(),
            final(store).wf(),
            ({
                let base_run = run_systems(
                    old(data).basic.order@,
                    old(store).delta,
                    old(store).entities@,
                );
                let adv_run = run_systems(old(data).adv.order@, old(store).delta, base_run.1);
                &&& final(data).basic.order@ == base_run.0
                &&& final(data).adv.order@ == adv_run.0
                &&& final(store).entities@ == adv_run.1
            }),
            same_meta(old(store), final(store)),
    {
        data.update(Base, store);
        data.update(Adv, store);
        Trans::Stay
    }
}


/// The currently active screen, with its owned handles.
pub enum Screen {
    Menu(Menu),
    Game(Game),
}

/// The entities the active screen owns.
pub open spec fn screen_owned(screen: Screen) -> Set<u64> {
    match screen {
        Screen::Menu(m) => m.owned(),
        Screen::Game(g) => g.owned(),
    }
}

/// What the active screen decides for one event.
pub open spec fn director_trans(d: Director, event: Event) -> Trans {
    match d.screen {
        Screen::Menu(m) => menu_trans(m.ui.unwrap(), event),
        Screen::Game(_) => match event {
            Event::CloseRequested => Trans::Quit,
            _ => Trans::Stay,
        },
    }
}

/// Identifier of the host input-routing system in the base track.
pub const UI_MOUSE: u64 = 1;

/// Identifier of the host hierarchy-hiding system in the extended track.
pub const HIDE_HIER: u64 = 3;

/// The top-level driver: it owns the store, the compiled tracks and the
/// active screen, and maintains the lifecycle invariant that the store holds
/// exactly the entities the active screen owns, each of them referenced by a
/// populated handle.
pub struct Director {
    pub store: Store,
    pub data: GameData,
    pub screen: Screen,
}

impl Director {
    /// The driver invariant: a well-formed store and tracks; every handle of
    /// the active screen populated and alive; and no entity in the store but
    /// those the active screen owns.
    pub open spec fn wf(&self) -> bool {
        &&& self.store.wf()
        &&& self.data.wf()
        &&& match self.screen {
            Screen::Menu(m) => m.populated(&self.store),
            Screen::Game(g) => g.populated(&self.store),
        }
        &&& self.store.entities@.dom() == screen_owned(self.screen)
    }

    /// Builds the two tracks, creates the store, and enters the menu screen.
    pub fn new(screen_w: u32, screen_h: u32) -> (r: Director)
        ensures
            r.wf(),
            r.screen matches Screen::Menu(_),
            r.store.screen_w == screen_w,
            r.store.screen_h == screen_h,
    {
        let builder = crate::schedule::GameDataBuilder::new();
        let builder = builder.with(Base, crate::schedule::Routine::External, UI_MOUSE, Vec::new());
        proof {
            assert(!crate::schedule::has_sys(builder.adv.systems@, crate::systems::demo::NAME));
        }
        let builder = builder.with(
            Adv,
            crate::schedule::Routine::Gameplay(Default::default()),
            crate::systems::demo::NAME,
            Vec::new(),
        );
        proof {
            assert(!crate::schedule::has_sys(builder.adv.systems@, HIDE_HIER)) by {
                if crate::schedule::has_sys(builder.adv.systems@, HIDE_HIER) {
                    let i = choose|i: int|
                        0 <= i < builder.adv.systems@.len() && (#[trigger] builder.adv.systems@[i]).id
                            == HIDE_HIER;
                }
            }
        }
        let builder = builder.with(Adv, crate::schedule::Routine::External, HIDE_HIER, Vec::new());
        proof {
            let basic = builder.basic.systems@;
            let adv = builder.adv.systems@;
            assert(crate::schedule::ids_unique(basic)) by {
                assert(basic.len() == 1);
            }
            assert(crate::schedule::ids_unique(adv)) by {
                assert(adv.len() == 2);
                assert(adv[0].id == crate::systems::demo::NAME);
                assert(adv[1].id == HIDE_HIER);
            }
            assert(crate::schedule::routines_wf(basic)) by {
                assert forall|i: int| 0 <= i < basic.len() implies match (
                #[trigger] basic[i]).routine {
                    crate::schedule::Routine::External => true,
                    crate::schedule::Routine::Gameplay(d) => d.wf(),
                } by {
                    assert(i == 0);
                }
            }
            assert(crate::schedule::routines_wf(adv)) by {
                assert forall|i: int| 0 <= i < adv.len() implies match (#[trigger] adv[i]).routine {
                    crate::schedule::Routine::External => true,
                    crate::schedule::Routine::Gameplay(d) => d.wf(),
                } by {
                    if i == 0 {
                    } else {
                        assert(i == 1);
                    }
                }
            }
            assert(forall|i: int|
                0 <= i < basic.len() ==> (#[trigger] basic[i]).deps@.len() == 0) by {
                assert forall|i: int|
                    0 <= i < basic.len() implies (#[trigger] basic[i]).deps@.len() == 0 by {
                    assert(i == 0);
                }
            }
            assert(forall|i: int| 0 <= i < adv.len() ==> (#[trigger] adv[i]).deps@.len() == 0) by {
                assert forall|i: int|
                    0 <= i < adv.len() implies (#[trigger] adv[i]).deps@.len() == 0 by {
                    if i == 0 {
                    } else {
                        assert(i == 1);
                    }
                }
            }
            crate::schedule::lemma_no_deps_no_cycle(basic);
            crate::schedule::lemma_no_deps_no_cycle(adv);
        }
        let data = match builder.build() {
            Ok(d) => d,
            Err(_) => unreached(),
        };

        let mut store = Store::new(screen_w, screen_h);
        let mut menu = Menu::default();
        menu.on_start(&mut store);
        let director = Director { store, data, screen: Screen::Menu(menu) };
        proof {
            assert(director.store.entities@.dom() =~= screen_owned(director.screen));
        }
        director
    }

    /// Routes one host event.  Returns whether the application terminates;
    /// on termination the active screen has been left and no entity remains
    /// in the store.  A screen switch destroys every entity the old screen
    /// owned before the new screen builds its own.
    pub fn handle_event(&mut self, event: Event) -> (quit: bool)
        requires
            old(self).wf(),
            old(self).store.next_entity + 5 <= u64::MAX,
            old(self).store.next_handle + 8 <= u64::MAX,
        ensures
            !quit ==> final(self).wf(),
            quit == (director_trans(*old(self), event) is Quit),
            quit ==> final(self).store.wf() && final(self).store.entities@.dom()
                == Set::<u64>::empty(),
            (director_trans(*old(self), event) matches Trans::Switch(k) ==> forall|e: u64|
                screen_owned(old(self).screen).contains(e)
                    ==> !final(self).store.entities@.dom().contains(e)),
    {
        if let Event::Resized { width, height } = event {
            self.store.set_screen(width, height);
            crate::ui::builder::apply_resize(&mut self.store);
            return false;
        }
        let trans = match &mut self.screen {
            Screen::Menu(m) => m.handle_event(event),
            Screen::Game(g) => g.handle_event(&mut self.store, event),
        };
        proof {
            assert(self.store.entities@.dom() =~= old(self).store.entities@.dom());
        }
        match trans {
            Trans::Stay => false,
            Trans::Quit => {
                match &mut self.screen {
                    Screen::Menu(m) => m.on_stop(&mut self.store),
                    Screen::Game(g) => g.on_stop(&mut self.store),
                }
                proof {
                    assert(self.store.entities@.dom() =~= Set::<u64>::empty());
                }
                true
            },
            Trans::Switch(kind) => {
                let ghost owned0 = screen_owned(old(self).screen);
                let ghost n0 = old(self).store.next_entity;
                match &mut self.screen {
                    Screen::Menu(m) => m.on_stop(&mut self.store),
                    Screen::Game(g) => g.on_stop(&mut self.store),
                }
                proof {
                    assert(self.store.entities@.dom() =~= Set::<u64>::empty());
                }
                match kind {
                    ScreenKind::Game => {
                        let mut game = Game::default();
                        game.on_start(&mut self.store);
                        self.screen = Screen::Game(game);
                    },
                    ScreenKind::Menu => {
                        let mut menu = Menu::default();
                        menu.on_start(&mut self.store);
                        self.screen = Screen::Menu(menu);
                    },
                }
                proof {
                    assert(self.store.entities@.dom() =~= screen_owned(self.screen));
                    assert forall|e: u64| owned0.contains(e) implies !self.store.entities@.dom()
                        .contains(e) by {
                        assert(e < n0);
                    }
                }
                false
            },
        }
    }

    /// Runs one frame: records the frame's delta time and dispatches the
    /// active screen's tracks, the base track alone on the menu, base then
    /// extended in the game.
    pub fn update(&mut self, delta: u64)
        requires
            old(self).wf(),
        ensures
            final(self).wf(),
            final(self).store.delta == delta,
            final(self).screen == old(self).screen,
            ({
                let s0 = (Store { delta, ..old(self).store });
                match old(self).screen {
                    Screen::Menu(m) => final(self).store.entities@ == run_systems(
                        old(self).data.basic.order@,
                        delta,
                        old(self).store.entities@,
                    ).1,
                    Screen::Game(g) => {
                        let base_run = run_systems(
                            old(self).data.basic.order@,
                            delta,
                            old(self).store.entities@,
                        );
                        let adv_run = run_systems(
                            old(self).data.adv.order@,
                            delta,
                            base_run.1,
                        );
                        final(self).store.entities@ == adv_run.1
                    },
                }
            }),
    {
        self.store.set_delta(delta);
        match &mut self.screen {
            Screen::Menu(m) => {
                let ghost pre = self.store;
                m.update(&mut self.data, &mut self.store);
                proof {
                    crate::schedule::lemma_run_systems_dom(
                        old(self).data.basic.order@,
                        delta,
                        pre.entities@,
                    );
                }
            },
            Screen::Game(g) => {
                let ghost pre = self.store;
                g.update(&mut self.data, &mut self.store);
                proof {
                    let base_run = run_systems(old(self).data.basic.order@, delta, pre.entities@);
                    crate::schedule::lemma_run_systems_dom(
                        old(self).data.basic.order@,
                        delta,
                        pre.entities@,
                    );
                    crate::schedule::lemma_run_systems_dom(
                        old(self).data.adv.order@,
                        delta,
                        base_run.1,
                    );
                }
            },
        }
    }
}

} // verus!
