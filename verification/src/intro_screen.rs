//! The intro screen: a background image with the main menu over it.

use vstd::prelude::*;
use crate::gfx::Key;

verus! {

pub const NEW_GAME: usize = 0;

pub const CONTINUE: usize = 1;

pub const SAVE: usize = 2;

pub const ACHIEVEMENTS: usize = 3;

pub const CREDITS: usize = 4;

pub const EXIT: usize = 5;

/// Number of items in the main menu.
pub const MENU_LEN: usize = 6;

/// The intro screen.
pub struct IntroScreen {
    pub(crate) width: usize,
    pub(crate) height: usize,
    internal_item_selected: usize,
    menu_item_selected: Option<usize>,
    intro_image: Vec<Vec<(u8, u8, u8)>>,
    list_selected: Option<usize>,
}

/// The intro screen as a mathematical value.
pub struct IntroScreenView {
    pub width: usize,
    pub height: usize,
    /// The item under the cursor.
    pub cursor: usize,
    /// The item that was chosen with Enter, until the next key press.
    pub chosen: Option<usize>,
    /// The item that the list widget highlights.
    pub highlighted: Option<usize>,
    /// The background image, row by row.
    pub image: Seq<Seq<(u8, u8, u8)>>,
}

impl IntroScreenView {
    /// The screen after a key press. Up and Down move the cursor within the
    /// menu, Enter chooses the item under it; every key but Enter clears the
    /// choice.
    pub open spec fn after_key(self, key: Key) -> IntroScreenView {
        match key {
            Key::Up => if self.cursor > 0 {
                IntroScreenView {
                    cursor: (self.cursor - 1) as usize,
                    highlighted: Some((self.cursor - 1) as usize),
                    chosen: None,
                    ..self
                }
            } else {
                IntroScreenView { chosen: None, ..self }
            },
            Key::Down => if self.cursor < MENU_LEN - 1 {
                IntroScreenView {
                    cursor: (self.cursor + 1) as usize,
                    highlighted: Some((self.cursor + 1) as usize),
                    chosen: None,
                    ..self
                }
            } else {
                IntroScreenView { chosen: None, ..self }
            },
            Key::Enter => IntroScreenView { chosen: Some(self.cursor), ..self },
            _ => IntroScreenView { chosen: None, ..self },
        }
    }
}

impl View for IntroScreen {
    type V = IntroScreenView;

    closed spec fn view(&self) -> IntroScreenView {
        IntroScreenView {
            width: self.width,
            height: self.height,
            cursor: self.internal_item_selected,
            chosen: self.menu_item_selected,
            highlighted: self.list_selected,
            image: crate::color::grid_view(self.intro_image),
        }
    }
}

impl IntroScreen {
    /// The cursor is on a menu item, and the list widget highlights it.
    pub open spec fn wf(&self) -> bool {
        &&& self@.cursor < MENU_LEN
        &&& self@.highlighted == Some(self@.cursor)
    }

    /// A screen of `width` by `height` cells over the given background, with
    /// the cursor on the first item and nothing chosen.
    pub fn new(width: usize, height: usize, intro_image: Vec<Vec<(u8, u8, u8)>>) -> (screen: Self)
        ensures
            screen.wf(),
            screen@ == (IntroScreenView {
                width,
                height,
                cursor: 0,
                chosen: None,
                highlighted: Some(0usize),
                image: crate::color::grid_view(intro_image),
            }),
    {
        Self {
            width,
            height,
            internal_item_selected: 0,
            menu_item_selected: None,
            intro_image,
            list_selected: Some(0),
        }
    }

    /// The item that was chosen with the last key press, if it was Enter.
    pub fn get_selected_item(&self) -> (item: Option<usize>)
        ensures
            item == self@.chosen,
    {
        self.menu_item_selected
    }

    /// The item that the list widget highlights.
    pub fn highlighted(&self) -> (item: Option<usize>)
        ensures
            item == self@.highlighted,
    {
        self.list_selected
    }

    /// The background image, row by row.
    pub fn image(&self) -> (image: &Vec<Vec<(u8, u8, u8)>>)
        ensures
            crate::color::grid_view(*image) == self@.image,
    {
        &self.intro_image
    }

    /// Handles a key press.
    pub fn key_event(&mut self, key_code: Key)
        requires
            old(self).wf(),
        ensures
            final(self).wf(),
            final(self)@ == old(self)@.after_key(key_code),
    {
        match key_code {
            Key::Up => {
                self.menu_item_selected = None;
                if self.internal_item_selected > 0 {
                    self.internal_item_selected -= 1;
                    self.list_selected = Some(self.internal_item_selected);
                }
            },
            Key::Down => {
                self.menu_item_selected = None;
                if self.internal_item_selected < MENU_LEN - 1 {
                    self.internal_item_selected += 1;
                    self.list_selected = Some(self.internal_item_selected);
                }
            },
            Key::Enter => {
                self.menu_item_selected = Some(self.internal_item_selected);
            },
            _ => {
                self.menu_item_selected = None;
            },
        }
    }
}

} // verus!
