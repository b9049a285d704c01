//! The screen that lists the achievements over a background image.

use vstd::prelude::*;
use crate::game::GameEvent;
use crate::gfx::Key;

verus! {

/// The achievements screen.
pub struct AchievementScreen {
    pub(crate) width: usize,
    pub(crate) height: usize,
    image: Vec<Vec<(u8, u8, u8)>>,
}

/// The achievements screen as a mathematical value.
pub struct AchievementScreenView {
    pub width: usize,
    pub height: usize,
    /// The background image, row by row.
    pub image: Seq<Seq<(u8, u8, u8)>>,
}

impl View for AchievementScreen {
    type V = AchievementScreenView;

    closed spec fn view(&self) -> AchievementScreenView {
        AchievementScreenView {
            width: self.width,
            height: self.height,
            image: crate::color::grid_view(self.image),
        }
    }
}

/// The event that `key` raises on the achievements screen: Enter and Esc
/// leave it, every other key does nothing.
pub open spec fn achievement_event(key: Key) -> Option<GameEvent> {
    match key {
        Key::Enter | Key::Esc => Some(GameEvent::Exit),
        _ => None,
    }
}

impl AchievementScreen {
    /// A screen of `width` by `height` cells over the given background.
    pub fn new(width: usize, height: usize, image: Vec<Vec<(u8, u8, u8)>>) -> (screen: Self)
        ensures
            screen@ == (AchievementScreenView {
                width,
                height,
                image: crate::color::grid_view(image),
            }),
    {
        Self { width, height, image }
    }

    /// The background image, row by row.
    pub fn image(&self) -> (image: &Vec<Vec<(u8, u8, u8)>>)
        ensures
            crate::color::grid_view(*image) == self@.image,
    {
        &self.image
    }

    /// Handles a key press. The screen itself never changes.
    pub fn key_event(&mut self, key_code: Key) -> (event: Option<GameEvent>)
        ensures
            event == achievement_event(key_code),
            final(self)@ == old(self)@,
    {
        match key_code {
            Key::Enter | Key::Esc => Some(GameEvent::Exit),
            _ => None,
        }
    }
}

} // verus!
