//! The game proper: its states, the events a screen can raise, and the menu
//! of actions shown under a screen's text.

use vstd::prelude::*;
use vstd::string::StringExecFns;
use crate::gfx::{Key, TextHelper};
use crate::intro_screen::{ACHIEVEMENTS, EXIT, NEW_GAME};
use crate::text::{decimal, decimal_spec};
use crate::units::clamp_to;

verus! {

/// What a screen asks of the game after a key press.
#[derive(Debug, Clone, Copy, PartialEq, Eq, Structural)]
pub enum GameEvent {
    Exit,
    NewScreen(usize),
    Ending,
}

/// What the game is showing.
#[derive(Debug, Clone, Copy, PartialEq, Eq, Structural)]
pub enum GameState {
    Intro,
    Playing,
    Ending,
    Achievements,
}

/// The actions of one screen as they are stored with it.
pub struct GameActions {
    /// The actions that lead on, each with the screen it leads to.
    pub next: Vec<(String, usize)>,
    /// The place the screen is set in, if it names one.
    pub location: Option<String>,
    /// Whether the game ends on this screen.
    pub ending: Option<bool>,
}

impl GameActions {
    /// The single action of an ending screen.
    pub fn ending() -> (actions: Vec<(String, usize)>)
        ensures
            actions@.len() == 1,
            actions@[0].0@ == "KONEC"@,
            actions@[0].1 == 0,
    {
        let mut actions: Vec<(String, usize)> = Vec::new();
        actions.push((String::from_str("KONEC"), 0));
        actions
    }
}

/// One line of the menu: a marker for the selected action, blanks for the
/// others, then the action's text.
pub open spec fn action_line(text: Seq<char>, selected: bool) -> Seq<char> {
    (if selected {
        "---> "@
    } else {
        "     "@
    }) + text + "\n"@
}

/// The first `count` lines of the menu, with the action at `selected` marked.
pub open spec fn action_lines(actions: Seq<(String, usize)>, selected: int, count: int) -> Seq<
    char,
>
    decreases count,
{
    if count <= 0 {
        Seq::empty()
    } else {
        action_lines(actions, selected, count - 1) + action_line(
            actions[count - 1].0@,
            count - 1 == selected,
        )
    }
}

/// The menu of a screen: one line per action, the action at `idx` marked.
/// The index wraps around the number of actions.
pub open spec fn actions_text_spec(actions: Seq<(String, usize)>, idx: int) -> Seq<char> {
    if actions.len() == 0 {
        Seq::empty()
    } else {
        action_lines(actions, idx % (actions.len() as int), actions.len() as int)
    }
}

/// The menu of a screen as text.
pub fn actions_text(actions: &Vec<(String, usize)>, idx: usize) -> (contents: String)
    ensures
        contents@ == actions_text_spec(actions@, idx as int),
{
    let mut contents = String::new();
    let l = actions.len();
    if l == 0 {
        return contents;
    }
    let idx = idx % l;
    let mut i: usize = 0;
    while i < l
        invariant
            l == actions@.len(),
            i <= l,
            contents@ == action_lines(actions@, idx as int, i as int),
        decreases l - i,
    {
        let ghost before = contents@;
        if i == idx {
            contents.append("---> ");
        } else {
            contents.append("     ");
        }
        contents.append(actions[i].0.as_str());
        contents.append("\n");
        assert(contents@ =~= before + action_line(actions@[i as int].0@, i == idx));
        i += 1;
    }
    contents
}

/// What the game learns from the screen that is showing.
#[derive(Debug, Clone, Copy, PartialEq, Eq, Structural)]
pub enum Input {
    /// The event that the screen raised after a key press, if any.
    Screen(Option<GameEvent>),
    /// The item chosen in the main menu, if any.
    Menu(Option<usize>),
}

/// What the game has to do after a key press, besides showing its state.
#[derive(Debug, Clone, Copy, PartialEq, Eq, Structural)]
pub enum Command {
    /// Nothing.
    Stay,
    /// Visit the screen with this number and show it.
    Load(usize),
    /// Show the screen the game starts with.
    Start,
    /// Leave the game.
    Quit,
}

impl GameState {
    /// The state that follows `self` on `input`, and what there is to do.
    ///
    /// While playing, a screen leads on to the next screen, back to the
    /// intro, or to the ending. The ending and the achievements lead back to
    /// the intro. The intro starts a game, shows the achievements or quits,
    /// as the main menu says.
    pub open spec fn after(self, input: Input) -> (GameState, Command) {
        match (self, input) {
            (GameState::Playing, Input::Screen(Some(GameEvent::NewScreen(n)))) => (
                GameState::Playing,
                Command::Load(n),
            ),
            (GameState::Playing, Input::Screen(Some(GameEvent::Exit))) => (
                GameState::Intro,
                Command::Stay,
            ),
            (GameState::Playing, Input::Screen(Some(GameEvent::Ending))) => (
                GameState::Ending,
                Command::Stay,
            ),
            (GameState::Ending, Input::Screen(Some(GameEvent::Exit))) => (
                GameState::Intro,
                Command::Stay,
            ),
            (GameState::Achievements, Input::Screen(Some(GameEvent::Exit))) => (
                GameState::Intro,
                Command::Stay,
            ),
            (GameState::Intro, Input::Menu(Some(item))) => if item == NEW_GAME {
                (GameState::Playing, Command::Start)
            } else if item == ACHIEVEMENTS {
                (GameState::Achievements, Command::Stay)
            } else if item == EXIT {
                (GameState::Intro, Command::Quit)
            } else {
                (GameState::Intro, Command::Stay)
            },
            _ => (self, Command::Stay),
        }
    }

    /// Takes one step of the game.
    pub fn step(self, input: Input) -> (next: (GameState, Command))
        ensures
            next == self.after(input),
    {
        match self {
            GameState::Playing => match input {
                Input::Screen(Some(GameEvent::NewScreen(n))) => (
                    GameState::Playing,
                    Command::Load(n),
                ),
                Input::Screen(Some(GameEvent::Exit)) => (GameState::Intro, Command::Stay),
                Input::Screen(Some(GameEvent::Ending)) => (GameState::Ending, Command::Stay),
                _ => (self, Command::Stay),
            },
            GameState::Ending => match input {
                Input::Screen(Some(GameEvent::Exit)) => (GameState::Intro, Command::Stay),
                _ => (self, Command::Stay),
            },
            GameState::Achievements => match input {
                Input::Screen(Some(GameEvent::Exit)) => (GameState::Intro, Command::Stay),
                _ => (self, Command::Stay),
            },
            GameState::Intro => match input {
                Input::Menu(Some(item)) => {
                    if item == NEW_GAME {
                        (GameState::Playing, Command::Start)
                    } else if item == ACHIEVEMENTS {
                        (GameState::Achievements, Command::Stay)
                    } else if item == EXIT {
                        (GameState::Intro, Command::Quit)
                    } else {
                        (GameState::Intro, Command::Stay)
                    }
                },
                _ => (self, Command::Stay),
            },
        }
    }
}

/// Why a screen cannot be shown.
#[derive(Debug, Clone, Copy, PartialEq, Eq, Structural)]
pub enum ScreenError {
    /// There is no image for the screen with this number.
    NoImages(usize),
}

impl ScreenError {
    /// The error in words.
    pub open spec fn message_spec(self) -> Seq<char> {
        match self {
            ScreenError::NoImages(screen_no) => "No images found for screen "@ + decimal_spec(
                screen_no as nat,
            ),
        }
    }

    /// The error in words.
    pub fn message(&self) -> (text: String)
        ensures
            text@ == self.message_spec(),
    {
        match self {
            ScreenError::NoImages(screen_no) => {
                let mut text = String::from_str("No images found for screen ");
                text.append(decimal(*screen_no).as_str());
                text
            },
        }
    }
}

/// The text shown in place of a screen's text that could not be read.
pub open spec fn unread_text_spec(screen_no: usize) -> Seq<char> {
    "Error reading screen "@ + decimal_spec(screen_no as nat)
}

/// The text shown in place of a screen's text that could not be read.
pub fn unread_text(screen_no: usize) -> (text: String)
    ensures
        text@ == unread_text_spec(screen_no),
{
    let mut text = String::from_str("Error reading screen ");
    text.append(decimal(screen_no).as_str());
    text
}

/// The image to show `elapsed` microseconds into a screen whose `count`
/// images share `total` microseconds equally, one after the other and round
/// again. Before the start it is the first; where the images have no time at
/// all, every moment after the start lies infinitely many images on.
pub open spec fn image_slot(elapsed: int, total: int, count: int) -> int {
    if elapsed <= 0 {
        0
    } else if total <= 0 {
        (usize::MAX as int) % count
    } else {
        clamp_to((elapsed * count) / total, 0, usize::MAX as int) % count
    }
}

/// What the screens are shown with.
pub struct InnerConfig {
    pub scale_quality: bool,
    pub notifications: bool,
}

/// One screen of the game: its text, its images and its actions.
pub struct GameScreen {
    screen_no: usize,
    term_width: u16,
    term_height: u16,
    text_helper: TextHelper,
    timer: i64,
    total_time_to_write: u64,
    actions: Vec<(String, usize)>,
    inner_config: InnerConfig,
    menu_selection: usize,
    image_names: Vec<String>,
    ending_screen: bool,
    location: Option<String>,
}

/// A screen of the game as a mathematical value.
pub struct GameScreenView {
    pub screen_no: usize,
    pub term_width: u16,
    pub term_height: u16,
    /// The text and how far it is written.
    pub text_helper: TextHelper,
    /// When the screen came up.
    pub timer: i64,
    /// The microseconds it took to write the text when the screen came up.
    pub total_time_to_write: u64,
    /// The actions in the menu.
    pub actions: Seq<(String, usize)>,
    pub scale_quality: bool,
    pub notifications: bool,
    /// The action under the cursor.
    pub menu_selection: usize,
    /// The images of the screen, in the order they are shown.
    pub image_names: Seq<String>,
    pub ending_screen: bool,
    pub location: Option<String>,
}

impl GameScreenView {
    /// The event that `key` raises. Esc leaves the screen; Enter follows the
    /// action under the cursor, or ends the game on an ending screen.
    pub open spec fn event(self, key: Key) -> Option<GameEvent> {
        match key {
            Key::Esc => Some(GameEvent::Exit),
            Key::Enter => if self.menu_selection < self.actions.len() {
                if self.ending_screen {
                    Some(GameEvent::Ending)
                } else {
                    Some(GameEvent::NewScreen(self.actions[self.menu_selection as int].1))
                }
            } else {
                None
            },
            _ => None,
        }
    }

    /// The action under the cursor after `key`: Down and Up move it within
    /// the menu.
    pub open spec fn selection_after(self, key: Key) -> usize {
        match key {
            Key::Down => if self.menu_selection + 1 < self.actions.len() {
                (self.menu_selection + 1) as usize
            } else {
                self.menu_selection
            },
            Key::Up => if self.menu_selection > 0 {
                (self.menu_selection - 1) as usize
            } else {
                self.menu_selection
            },
            _ => self.menu_selection,
        }
    }

    /// The screen after its text was asked for at the time `now`: the first
    /// time that the text is found written is recorded.
    pub open spec fn after_text(self, now: i64) -> GameScreenView {
        GameScreenView {
            text_helper: TextHelper {
                end_of_writing: self.text_helper.end_seen(now),
                ..self.text_helper
            },
            ..self
        }
    }

    /// The text to show at the time `now`: the part of the screen's text
    /// that is visible, and under it the menu from the moment on that the text
    /// was found written.
    pub open spec fn text_at(self, now: i64) -> Seq<char> {
        self.text_helper.visible_text(now as int) + if self.text_helper.end_seen(now) is Some {
            "\n\n"@ + actions_text_spec(self.actions, self.menu_selection as int)
        } else {
            Seq::empty()
        }
    }

    /// The notifications that the screen gives rise to when it comes up:
    /// its location, if it names one, then the ending, if it is one; none
    /// where notifications are switched off.
    pub open spec fn notification_texts(self) -> Seq<Seq<char>> {
        if !self.notifications {
            Seq::empty()
        } else {
            (match self.location {
                Some(place) => seq!["Location: "@ + place@],
                None => Seq::empty(),
            }) + (if self.ending_screen {
                seq!["Ending screen  \u{1F389}"@]
            } else {
                Seq::empty()
            })
        }
    }
}

impl View for GameScreen {
    type V = GameScreenView;

    closed spec fn view(&self) -> GameScreenView {
        GameScreenView {
            screen_no: self.screen_no,
            term_width: self.term_width,
            term_height: self.term_height,
            text_helper: self.text_helper,
            timer: self.timer,
            total_time_to_write: self.total_time_to_write,
            actions: self.actions@,
            scale_quality: self.inner_config.scale_quality,
            notifications: self.inner_config.notifications,
            menu_selection: self.menu_selection,
            image_names: self.image_names@,
            ending_screen: self.ending_screen,
            location: self.location,
        }
    }
}

impl GameScreen {
    /// The screen has a text and an image, its menu is no longer than a
    /// vector can be, and the cursor is in the menu.
    pub open spec fn wf(&self) -> bool {
        &&& self@.text_helper.text is Some
        &&& self@.image_names.len() > 0
        &&& self@.actions.len() <= usize::MAX
        &&& self@.menu_selection == 0 || self@.menu_selection < self@.actions.len()
    }

    /// The screen `screen_no` as it comes up at the time `now`.
    ///
    /// `text` is the text of the screen, if it could be read; `action_desc`
    /// are its actions and `image_names` its images. An ending screen offers
    /// the ending in place of its own actions. A screen without images
    /// cannot be shown.
    pub fn new(
        screen_no: usize,
        term_width: u16,
        term_height: u16,
        text: Option<String>,
        action_desc: GameActions,
        image_names: Vec<String>,
        write_speed: u64,
        inner_config: InnerConfig,
        now: i64,
    ) -> (screen: Result<Self, ScreenError>)
        ensures
            screen is Err <==> image_names@.len() == 0,
            screen matches Err(e) ==> e == ScreenError::NoImages(screen_no),
            screen matches Ok(s) ==> {
                &&& s.wf()
                &&& s@.screen_no == screen_no
                &&& s@.term_width == term_width
                &&& s@.term_height == term_height
                &&& s@.text_helper.text matches Some(t) && t@ == match text {
                    Some(given) => given@,
                    None => unread_text_spec(screen_no),
                }
                &&& s@.text_helper.text_delay_timer == now
                &&& s@.text_helper.write_speed == write_speed
                &&& s@.text_helper.end_of_writing is None
                &&& s@.timer == now
                &&& s@.total_time_to_write == crate::gfx::writing_time(
                    crate::gfx::byte_len(s@.text_helper.text->Some_0@) as int,
                    write_speed as int,
                )
                &&& s@.ending_screen == (action_desc.ending == Some(true))
                &&& s@.location == action_desc.location
                &&& s@.ending_screen ==> s@.actions.len() == 1 && s@.actions[0].0@ == "KONEC"@
                    && s@.actions[0].1 == 0
                &&& !s@.ending_screen ==> s@.actions == action_desc.next@
                &&& s@.scale_quality == inner_config.scale_quality
                &&& s@.notifications == inner_config.notifications
                &&& s@.menu_selection == 0
                &&& s@.image_names == image_names@
            },
    {
        let shown = match text {
            Some(given) => given,
            None => unread_text(screen_no),
        };
        let text_helper = TextHelper::with_text(write_speed, shown, now);
        let total_time_to_write = text_helper.time_to_finish(now);
        let ending_screen = match action_desc.ending {
            Some(ending) => ending,
            None => false,
        };
        let location = action_desc.location;
        let actions = if ending_screen {
            GameActions::ending()
        } else {
            action_desc.next
        };
        if image_names.len() == 0 {
            return Err(ScreenError::NoImages(screen_no));
        }
        assert(actions@.len() == actions.len());
        Ok(
            Self {
                screen_no,
                term_width,
                term_height,
                text_helper,
                total_time_to_write,
                timer: now,
                actions,
                inner_config,
                menu_selection: 0,
                image_names,
                ending_screen,
                location,
            },
        )
    }

    /// The notifications to send when the screen has come up.
    pub fn notifications(&self) -> (texts: Vec<String>)
        ensures
            texts@.len() == self@.notification_texts().len(),
            forall|i: int|
                0 <= i < texts@.len() ==> (#[trigger] texts@[i])@ == self@.notification_texts()[i],
    {
        let mut texts: Vec<String> = Vec::new();
        if !self.inner_config.notifications {
            return texts;
        }
        match &self.location {
            Some(place) => {
                let mut text = String::from_str("Location: ");
                text.append(place.as_str());
                texts.push(text);
            },
            None => {},
        }
        if self.ending_screen {
            texts.push(String::from_str("Ending screen  \u{1F389}"));
        }
        texts
    }

    /// Height of the terminal.
    pub fn term_height(&self) -> (height: u16)
        ensures
            height == self@.term_height,
    {
        self.term_height
    }

    /// Whether pictures are resampled when they are fitted to the terminal.
    pub fn scale_quality(&self) -> (quality: bool)
        ensures
            quality == self@.scale_quality,
    {
        self.inner_config.scale_quality
    }

    /// Width of the text window: a quarter of the terminal.
    pub fn text_window_sz(&self) -> (width: u16)
        ensures
            width == self@.term_width / 4,
    {
        self.term_width / 4
    }

    /// Width of the picture: what the text window leaves of the terminal.
    pub fn picture_width(&self) -> (width: u16)
        ensures
            width == self@.term_width - self@.term_width / 4,
    {
        self.term_width - self.text_window_sz()
    }

    /// The name of the image to show at the time `now`. The images share the
    /// time it took to write the text and come round again after it.
    pub fn image_name(&self, now: i64) -> (name: &String)
        requires
            self.wf(),
        ensures
            *name == self@.image_names[image_slot(
                now - self@.timer,
                self@.total_time_to_write as int,
                self@.image_names.len() as int,
            )],
            0 <= image_slot(
                now - self@.timer,
                self@.total_time_to_write as int,
                self@.image_names.len() as int,
            ) < self@.image_names.len(),
    {
        let count = self.image_names.len();
        let elapsed: i128 = (now as i128) - (self.timer as i128);
        let slot: usize = if elapsed <= 0 {
            0
        } else if self.total_time_to_write == 0 {
            usize::MAX % count
        } else {
            let span: u128 = elapsed as u128;
            assert(span * (count as u128) <= 0xffff_ffff_ffff_ffff * 0xffff_ffff_ffff_ffff)
                by (nonlinear_arith)
                requires
                    0 <= span <= 0xffff_ffff_ffff_ffff,
                    0 <= count <= 0xffff_ffff_ffff_ffff,
            ;
            let turns: u128 = (span * (count as u128)) / (self.total_time_to_write as u128);
            let turns: usize = if turns > usize::MAX as u128 {
                usize::MAX
            } else {
                turns as usize
            };
            turns % count
        };
        &self.image_names[slot]
    }

    /// The picture shown where the image of the screen cannot be had: blue
    /// all over.
    pub fn blue_screen(&self) -> (picture: Vec<Vec<(u8, u8, u8)>>)
        ensures
            picture@.len() == self@.term_height,
            forall|i: int|
                0 <= i < picture@.len() ==> (#[trigger] picture@[i])@.len() == self@.term_width
                    - self@.term_width / 4,
            forall|i: int, j: int|
                0 <= i < picture@.len() && 0 <= j < picture@[i]@.len() ==> #[trigger] picture@[i]@[j]
                    == (0u8, 0u8, 255u8),
    {
        let width = self.picture_width() as usize;
        let height = self.term_height as usize;
        let mut picture: Vec<Vec<(u8, u8, u8)>> = Vec::new();
        let mut i: usize = 0;
        while i < height
            invariant
                i <= height,
                picture@.len() == i,
                forall|p: int| 0 <= p < i ==> (#[trigger] picture@[p])@.len() == width,
                forall|p: int, q: int|
                    0 <= p < i && 0 <= q < width ==> #[trigger] picture@[p]@[q] == (
                        0u8,
                        0u8,
                        255u8,
                    ),
            decreases height - i,
        {
            let mut row: Vec<(u8, u8, u8)> = Vec::new();
            let mut j: usize = 0;
            while j < width
                invariant
                    j <= width,
                    row@.len() == j,
                    forall|q: int| 0 <= q < j ==> #[trigger] row@[q] == (0u8, 0u8, 255u8),
                decreases width - j,
            {
                row.push((0, 0, 255));
                j += 1;
            }
            picture.push(row);
            i += 1;
        }
        picture
    }

    /// The text to show at the time `now`: the part of the screen's text
    /// that is written, and under it the menu once all of it is.
    pub fn text(&mut self, now: i64) -> (shown: String)
        requires
            old(self).wf(),
        ensures
            final(self).wf(),
            final(self)@ == old(self)@.after_text(now),
            shown@ == old(self)@.text_at(now),
    {
        let mut text = match self.text_helper.get_text(now) {
            Some(written) => written,
            None => String::new(),
        };
        let ghost written = text@;
        if self.text_helper.text_reached_end(now).is_some() {
            let menu = actions_text(&self.actions, self.menu_selection);
            text.append("\n\n");
            text.append(menu.as_str());
            assert(text@ =~= written + ("\n\n"@ + menu@));
        } else {
            assert(text@ =~= written + Seq::<char>::empty());
        }
        text
    }

    /// Handles a key press.
    pub fn key_event(&mut self, key_code: Key) -> (event: Option<GameEvent>)
        requires
            old(self).wf(),
        ensures
            final(self).wf(),
            event == old(self)@.event(key_code),
            final(self)@ == (GameScreenView {
                menu_selection: old(self)@.selection_after(key_code),
                ..old(self)@
            }),
    {
        match key_code {
            Key::Esc => Some(GameEvent::Exit),
            Key::Down => {
                if self.menu_selection < self.actions.len() && self.menu_selection + 1
                    < self.actions.len() {
                    self.menu_selection += 1;
                }
                None
            },
            Key::Up => {
                if self.menu_selection > 0 {
                    self.menu_selection -= 1;
                }
                None
            },
            Key::Enter => {
                if self.menu_selection < self.actions.len() {
                    if self.ending_screen {
                        Some(GameEvent::Ending)
                    } else {
                        Some(GameEvent::NewScreen(self.actions[self.menu_selection].1))
                    }
                } else {
                    None
                }
            },
            _ => None,
        }
    }
}

} // verus!
