//! Cached UI resources: texture and font handles constructed once per store
//! and served as cheap copies thereafter.
//!
//! The bundle is a singleton: `fetch` constructs it on first access and
//! afterwards returns the stored copy without touching the store.

use vstd::prelude::*;

use crate::store::Store;

verus! {

/// Handles backing the dialogue window of the in-game screen.
#[derive(Clone, Copy, Debug, PartialEq, Eq, Structural)]
pub struct AdvUi {
    pub text_background: u64,
    pub close_background: u64,
}

impl AdvUi {
    /// Uploads the two dialogue-window textures.
    fn new(store: &mut Store) -> (r: AdvUi)
        requires
            old(store).next_handle + 2 <= u64::MAX,
        ensures
            r.text_background == old(store).next_handle,
            r.close_background == old(store).next_handle + 1,
            *final(store) == (Store {
                next_handle: (old(store).next_handle + 2) as u64,
                ..*old(store)
            }),
    {
        let text_background: u64 = store.alloc_handle();
        let close_background: u64 = store.alloc_handle();
        AdvUi { text_background, close_background }
    }
}

/// Handles backing the menu screen's background and buttons.
#[derive(Clone, Copy, Debug, PartialEq, Eq, Structural)]
pub struct Background {
    pub menu_button: u64,
    pub menu_button_hover: u64,
    pub menu_button_clicked: u64,
    pub menu: u64,
}

impl Background {
    /// Uploads the three button textures and the menu image.
    fn new(store: &mut Store) -> (r: Background)
        requires
            old(store).next_handle + 4 <= u64::MAX,
        ensures
            r.menu_button == old(store).next_handle,
            r.menu_button_hover == old(store).next_handle + 1,
            r.menu_button_clicked == old(store).next_handle + 2,
            r.menu == old(store).next_handle + 3,
            *final(store) == (Store {
                next_handle: (old(store).next_handle + 4) as u64,
                ..*old(store)
            }),
    {
        let menu_button: u64 = store.alloc_handle();
        let menu_button_hover: u64 = store.alloc_handle();
        let menu_button_clicked: u64 = store.alloc_handle();
        let menu: u64 = store.alloc_handle();
        Background { menu_button, menu_button_hover, menu_button_clicked, menu }
    }
}

/// Resources for UI: the singleton bundle of UI asset handles.
#[derive(Clone, Copy, Debug, PartialEq, Eq, Structural)]
pub struct Resources {
    pub adv: AdvUi,
    pub background: Background,
    pub font: u64,
}

/// The bundle constructed when the first handle handed out is `h`.
pub open spec fn built_resources(h: int) -> Resources {
    Resources {
        font: h as u64,
        adv: AdvUi { text_background: (h + 1) as u64, close_background: (h + 2) as u64 },
        background: Background {
            menu_button: (h + 3) as u64,
            menu_button_hover: (h + 4) as u64,
            menu_button_clicked: (h + 5) as u64,
            menu: (h + 6) as u64,
        },
    }
}

/// What fetching the bundle does: the stored copy when one exists, else a
/// freshly built bundle that is also stored.
pub open spec fn fetch_resources_model(s: Store) -> (Resources, Store) {
    match s.ui_res {
        Some(r) => (r, s),
        None => (
            built_resources(s.next_handle as int),
            (Store {
                ui_res: Some(built_resources(s.next_handle as int)),
                next_handle: (s.next_handle + 7) as u64,
                ..s
            }),
        ),
    }
}

/// Two consecutive fetches return the same bundle, and the second one leaves
/// the store exactly as the first left it: the bundle is constructed at most
/// once.
pub proof fn lemma_fetch_resources_memoizes(s: Store)
    ensures
        fetch_resources_model(fetch_resources_model(s).1).0 == fetch_resources_model(s).0,
        fetch_resources_model(fetch_resources_model(s).1).1 == fetch_resources_model(s).1,
{
}

impl Resources {
    /// Uploads the font and every UI texture.
    fn new(store: &mut Store) -> (r: Resources)
        requires
            old(store).next_handle + 7 <= u64::MAX,
        ensures
            r == built_resources(old(store).next_handle as int),
            *final(store) == (Store {
                next_handle: (old(store).next_handle + 7) as u64,
                ..*old(store)
            }),
    {
        let font: u64 = store.alloc_handle();
        let adv = AdvUi::new(store);
        let background = Background::new(store);
        Resources { adv, background, font }
    }

    /// Constructs and stores the bundle unless the store already holds one.
    pub fn create(store: &mut Store)
        requires
            old(store).next_handle + 7 <= u64::MAX,
        ensures
            *final(store) == fetch_resources_model(*old(store)).1,
            final(store).ui_res is Some,
    {
        if store.ui_res.is_none() {
            let res = Self::new(store);
            store.set_ui_res(res);
        }
    }

    /// Returns the singleton bundle, constructing and storing it on first
    /// access.
    pub fn fetch(store: &mut Store) -> (r: Resources)
        requires
            old(store).next_handle + 7 <= u64::MAX,
        ensures
            r == fetch_resources_model(*old(store)).0,
            *final(store) == fetch_resources_model(*old(store)).1,
            final(store).ui_res == Some(r),
    {
        Self::create(store);
        match store.ui_res {
            Some(r) => r,
            None => unreached(),
        }
    }
}

} // verus!
