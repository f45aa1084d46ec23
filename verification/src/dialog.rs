use vstd::prelude::*;
use crate::input::{is_yes_answer, parse_entry_u32, parse_entry_u8, spec_entry_u32, spec_entry_u8, trim};
use crate::world::{spec_world_side, WorldSettings, WORLD_SIZE_COUNT};

verus! {

/// The question the start-up dialog is waiting to have answered.
#[derive(Clone, Copy, Debug, PartialEq, Eq, Structural)]
pub enum Stage {
    /// Which world size, by its number in the menu.
    Mode,
    /// How far the height noise is stretched.
    Scale,
    /// Whether the player picks the seed (`y`) or one is drawn at random.
    SeedChoice,
    /// The seed the player picks.
    SeedValue,
    /// The side of the civilization square.
    CivSize,
    /// Every question answered.
    Done,
}

/// A message the dialog shows the player.
#[derive(Clone, Copy, Debug, PartialEq, Eq, Structural)]
pub enum Notice {
    ModeMenu,
    ModeRequest,
    NotANumber,
    ScaleMenu,
    NotAPositiveNumber,
    SeedQuestion,
    SeedValuePrompt,
    CivSizeMenu,
    CivSizeRetry,
}

/// The text of each notice; lines are separated by `\n`.
pub open spec fn notice_text(n: Notice) -> Seq<char> {
    match n {
        Notice::ModeMenu => "Getting Mode.\n1: Tiny (256 by 256)\n2: Small (512 by 512)\n3: Normal (1024 by 1024\n4: Large (1536 by 1536)\nInput: "@,
        Notice::ModeRequest => "Enter a number (1-4):"@,
        Notice::NotANumber => "Enter a number!"@,
        Notice::ScaleMenu => "Scaling.\n20: Lots of hills\n50: Medium Continents\n120: Landmasses\n200: Huge Landmasses"@,
        Notice::NotAPositiveNumber => "Enter a positive number."@,
        Notice::SeedQuestion => "Choose your own seed [y/N]: "@,
        Notice::SeedValuePrompt => "What is the chosen seed: "@,
        Notice::CivSizeMenu => "Your civilization will be a square of tiles, choose a side length.\nMaximum is 8 by 8, minimum is 4 by 4.\nHow big should your civiliation be: "@,
        Notice::CivSizeRetry => "Enter a number inbetween 4 and 8 inclusive."@,
    }
}

impl Notice {
    /// The text shown for this notice.
    pub fn text(&self) -> (text: &'static str)
        ensures
            text@ == notice_text(*self),
    {
        match self {
            Notice::ModeMenu => "Getting Mode.\n1: Tiny (256 by 256)\n2: Small (512 by 512)\n3: Normal (1024 by 1024\n4: Large (1536 by 1536)\nInput: ",
            Notice::ModeRequest => "Enter a number (1-4):",
            Notice::NotANumber => "Enter a number!",
            Notice::ScaleMenu => "Scaling.\n20: Lots of hills\n50: Medium Continents\n120: Landmasses\n200: Huge Landmasses",
            Notice::NotAPositiveNumber => "Enter a positive number.",
            Notice::SeedQuestion => "Choose your own seed [y/N]: ",
            Notice::SeedValuePrompt => "What is the chosen seed: ",
            Notice::CivSizeMenu => "Your civilization will be a square of tiles, choose a side length.\nMaximum is 8 by 8, minimum is 4 by 4.\nHow big should your civiliation be: ",
            Notice::CivSizeRetry => "Enter a number inbetween 4 and 8 inclusive.",
        }
    }
}

/// The start-up dialog: the settings chosen so far and the question pending.
#[derive(Clone, Copy, Debug, PartialEq, Eq, Structural)]
pub struct Dialog {
    pub settings: WorldSettings,
    pub stage: Stage,
}

/// Whether the answer to the seed question is `y` (the player picks the seed).
pub open spec fn is_yes(line: Seq<char>) -> bool {
    trim(line) == seq!['y']
}

/// Whether answering `line` in dialog `d` draws a random seed.
pub open spec fn needs_draw(d: Dialog, line: Seq<char>) -> bool {
    d.stage == Stage::SeedChoice && !is_yes(line)
}

pub open spec fn with_mode(s: WorldSettings, mode: u8) -> WorldSettings {
    WorldSettings { mode, scale: s.scale, civ_size: s.civ_size, seed: s.seed }
}

pub open spec fn with_scale(s: WorldSettings, scale: u32) -> WorldSettings {
    WorldSettings { mode: s.mode, scale, civ_size: s.civ_size, seed: s.seed }
}

pub open spec fn with_seed(s: WorldSettings, seed: u32) -> WorldSettings {
    WorldSettings { mode: s.mode, scale: s.scale, civ_size: s.civ_size, seed }
}

pub open spec fn with_civ_size(s: WorldSettings, civ_size: u8) -> WorldSettings {
    WorldSettings { mode: s.mode, scale: s.scale, civ_size, seed: s.seed }
}

/// The dialog after the player types `line`, and the notices shown before the next
/// line is read; `drawn` is the seed used where one is drawn at random.
pub open spec fn spec_step(d: Dialog, line: Seq<char>, drawn: u32) -> (Dialog, Seq<Notice>) {
    match d.stage {
        Stage::Mode => match spec_entry_u8(line) {
            None => (d, seq![Notice::NotANumber]),
            Some(num) => if 1 <= num <= 4 {
                (
                    Dialog { settings: with_mode(d.settings, (num - 1) as u8), stage: Stage::Scale },
                    seq![Notice::ScaleMenu],
                )
            } else {
                (d, seq![Notice::ModeRequest])
            },
        },
        Stage::Scale => match spec_entry_u32(line) {
            Some(n) => if n >= 1 {
                (
                    Dialog { settings: with_scale(d.settings, n), stage: Stage::SeedChoice },
                    seq![Notice::SeedQuestion],
                )
            } else {
                (d, seq![Notice::NotAPositiveNumber])
            },
            None => (d, seq![Notice::NotAPositiveNumber]),
        },
        Stage::SeedChoice => if is_yes(line) {
            (Dialog { settings: d.settings, stage: Stage::SeedValue }, seq![Notice::SeedValuePrompt])
        } else {
            (
                Dialog { settings: with_seed(d.settings, drawn), stage: Stage::CivSize },
                seq![Notice::CivSizeMenu],
            )
        },
        Stage::SeedValue => match spec_entry_u32(line) {
            None => (d, seq![Notice::NotAPositiveNumber]),
            Some(n) => (
                Dialog { settings: with_seed(d.settings, n), stage: Stage::CivSize },
                seq![Notice::CivSizeMenu],
            ),
        },
        Stage::CivSize => match spec_entry_u8(line) {
            None => (d, seq![Notice::CivSizeRetry]),
            Some(n) => (
                Dialog {
                    settings: with_civ_size(d.settings, n),
                    stage: if 4 <= n <= 8 {
                        Stage::Done
                    } else {
                        Stage::CivSize
                    },
                },
                Seq::empty(),
            ),
        },
        Stage::Done => (d, Seq::empty()),
    }
}

/// Calls `rand::random::<u32>()`, which draws a number from the thread-local
/// generator; nothing is promised of the number drawn.
#[verifier::external_body]
fn random_seed() -> u32 {
    rand::random::<u32>()
}

impl Dialog {
    /// The dialog before any answer: default settings, asking for the size.
    pub fn new() -> (d: Dialog)
        ensures
            d.settings.mode == 5,
            d.settings.scale == 50,
            d.settings.civ_size == 0,
            d.settings.seed == 0,
            d.stage == Stage::Mode,
    {
        Dialog { settings: WorldSettings::new(), stage: Stage::Mode }
    }

    /// The notices shown before the first line is read: the menu of sizes and the
    /// request for a number.
    pub fn opening_notices() -> (notices: Vec<Notice>)
        ensures
            notices@ == seq![Notice::ModeMenu, Notice::ModeRequest],
    {
        let mut notices: Vec<Notice> = Vec::new();
        notices.push(Notice::ModeMenu);
        notices.push(Notice::ModeRequest);
        notices
    }

    /// Whether every question has been answered.
    pub fn is_done(&self) -> (done: bool)
        ensures
            done == (self.stage == Stage::Done),
    {
        match self.stage {
            Stage::Done => true,
            _ => false,
        }
    }

    /// Answers the pending question with `line`, using `drawn` as the seed where
    /// one is drawn at random, and returns the notices to show.
    pub fn advance_with(&mut self, line: &str, drawn: u32) -> (notices: Vec<Notice>)
        ensures
            (*final(self), notices@) == spec_step(*old(self), line@, drawn),
    {
        let mut notices: Vec<Notice> = Vec::new();
        match self.stage {
            Stage::Mode => match parse_entry_u8(line) {
                None => {
                    notices.push(Notice::NotANumber);
                },
                Some(num) => {
                    if 1 <= num && num <= 4 {
                        self.settings.mode = num - 1;
                        self.stage = Stage::Scale;
                        notices.push(Notice::ScaleMenu);
                    } else {
                        notices.push(Notice::ModeRequest);
                    }
                },
            },
            Stage::Scale => match parse_entry_u32(line) {
                Some(n) => {
                    if n >= 1 {
                        self.settings.scale = n;
                        self.stage = Stage::SeedChoice;
                        notices.push(Notice::SeedQuestion);
                    } else {
                        notices.push(Notice::NotAPositiveNumber);
                    }
                },
                None => {
                    notices.push(Notice::NotAPositiveNumber);
                },
            },
            Stage::SeedChoice => {
                if is_yes_answer(line) {
                    self.stage = Stage::SeedValue;
                    notices.push(Notice::SeedValuePrompt);
                } else {
                    self.settings.seed = drawn;
                    self.stage = Stage::CivSize;
                    notices.push(Notice::CivSizeMenu);
                }
            },
            Stage::SeedValue => match parse_entry_u32(line) {
                None => {
                    notices.push(Notice::NotAPositiveNumber);
                },
                Some(n) => {
                    self.settings.seed = n;
                    self.stage = Stage::CivSize;
                    notices.push(Notice::CivSizeMenu);
                },
            },
            Stage::CivSize => match parse_entry_u8(line) {
                None => {
                    notices.push(Notice::CivSizeRetry);
                },
                Some(n) => {
                    self.settings.civ_size = n;
                    if 4 <= n && n <= 8 {
                        self.stage = Stage::Done;
                    }
                },
            },
            Stage::Done => {},
        }
        notices
    }

    /// Answers the pending question with `line`, drawing a random seed where the
    /// player does not pick one, and returns the notices to show.
    pub fn advance(&mut self, line: &str) -> (notices: Vec<Notice>)
        ensures
            exists|drawn: u32| (*final(self), notices@) == spec_step(*old(self), line@, drawn),
            !needs_draw(*old(self), line@) ==> (*final(self), notices@) == spec_step(
                *old(self),
                line@,
                0,
            ),
    {
        let drawn = match self.stage {
            Stage::SeedChoice => if is_yes_answer(line) {
                0
            } else {
                random_seed()
            },
            _ => 0,
        };
        self.advance_with(line, drawn)
    }
}


/// What holds of every state the dialog reaches from `Dialog::new`: once the size
/// question is answered the mode is one of the menu's four sizes, once the scale
/// question is answered the scale is positive, and a finished dialog has a
/// civilization size from 4 to 8.
pub open spec fn is_consistent(d: Dialog) -> bool {
    &&& d.stage != Stage::Mode ==> d.settings.mode < WORLD_SIZE_COUNT
    &&& (d.stage != Stage::Mode && d.stage != Stage::Scale) ==> d.settings.scale >= 1
    &&& d.stage == Stage::Done ==> 4 <= d.settings.civ_size <= 8
}

/// The dialog starts consistent.
pub proof fn lemma_new_is_consistent(d: Dialog)
    requires
        d.settings.mode == 5,
        d.settings.civ_size == 0,
        d.stage == Stage::Mode,
    ensures
        is_consistent(d),
{
}

/// Every answer keeps the dialog consistent: the dialog never finishes with a
/// civilization outside 4 by 4 to 8 by 8, never leaves the size question with a
/// mode past the menu's four sizes, and never takes 0 as the scale.
pub proof fn lemma_step_keeps_consistent(d: Dialog, line: Seq<char>, drawn: u32)
    requires
        is_consistent(d),
    ensures
        is_consistent(spec_step(d, line, drawn).0),
{
}

/// A consistent finished dialog holds settings from which the world can be made:
/// its mode has a side in the table of sizes, and its scale is positive.
pub proof fn lemma_done_settings_make_a_world(d: Dialog)
    requires
        is_consistent(d),
        d.stage == Stage::Done,
    ensures
        d.settings.mode < WORLD_SIZE_COUNT,
        spec_world_side(d.settings.mode) is Some,
        d.settings.scale >= 1,
        4 <= d.settings.civ_size <= 8,
{
}

/// The side in tiles that the menu of sizes lists for entry `k` (1 to 4).
pub open spec fn listed_side(k: u8) -> u32 {
    if k == 1 {
        256u32
    } else if k == 2 {
        512u32
    } else if k == 3 {
        1024u32
    } else {
        1536u32
    }
}

/// Answering the menu of sizes with entry `k` from 1 to 4 picks the world side that
/// the menu lists for it and moves on to the scale question.
pub proof fn lemma_menu_entry_picks_listed_side(d: Dialog, line: Seq<char>, k: u8, drawn: u32)
    requires
        d.stage == Stage::Mode,
        spec_entry_u8(line) == Some(k),
        1 <= k <= 4,
    ensures
        spec_step(d, line, drawn).0.stage == Stage::Scale,
        spec_world_side(spec_step(d, line, drawn).0.settings.mode) == Some(listed_side(k)),
{
}

/// A finished dialog stays as it is and shows nothing more, whatever is typed.
pub proof fn lemma_done_is_final(d: Dialog, line: Seq<char>, drawn: u32)
    requires
        d.stage == Stage::Done,
    ensures
        spec_step(d, line, drawn) == (d, Seq::<Notice>::empty()),
{
}

/// Only the answer to the seed question can draw a random seed; every other
/// answer leads to the same dialog whatever seed would have been drawn.
pub proof fn lemma_draw_only_for_seed(d: Dialog, line: Seq<char>, drawn1: u32, drawn2: u32)
    requires
        !needs_draw(d, line),
    ensures
        spec_step(d, line, drawn1) == spec_step(d, line, drawn2),
{
}

/// Answering the size question with a number `n` from 1 to 4 stores mode `n - 1`,
/// keeps the other settings, and asks for the scale; any other answer, a number
/// outside 1 to 4 or not a number at all, changes nothing and asks again.
pub proof fn lemma_size_answer(d: Dialog, line: Seq<char>, drawn: u32)
    requires
        d.stage == Stage::Mode,
    ensures
        ({
            let (next, notices) = spec_step(d, line, drawn);
            match spec_entry_u8(line) {
                Some(n) => if 1 <= n <= 4 {
                    &&& next.stage == Stage::Scale
                    &&& next.settings.mode == n - 1
                    &&& next.settings.scale == d.settings.scale
                    &&& next.settings.seed == d.settings.seed
                    &&& next.settings.civ_size == d.settings.civ_size
                    &&& notices == seq![Notice::ScaleMenu]
                } else {
                    next == d && notices == seq![Notice::ModeRequest]
                },
                None => next == d && notices == seq![Notice::NotANumber],
            }
        }),
{
}

/// Answering the scale question with a number `n` of at least 1 stores scale `n`,
/// keeps the other settings, and asks about the seed; 0, and anything that is not a
/// number, changes nothing and asks again for a positive number.
pub proof fn lemma_scale_answer(d: Dialog, line: Seq<char>, drawn: u32)
    requires
        d.stage == Stage::Scale,
    ensures
        ({
            let (next, notices) = spec_step(d, line, drawn);
            match spec_entry_u32(line) {
                Some(n) => if n >= 1 {
                    &&& next.stage == Stage::SeedChoice
                    &&& next.settings.scale == n
                    &&& next.settings.mode == d.settings.mode
                    &&& next.settings.seed == d.settings.seed
                    &&& next.settings.civ_size == d.settings.civ_size
                    &&& notices == seq![Notice::SeedQuestion]
                } else {
                    next == d && notices == seq![Notice::NotAPositiveNumber]
                },
                None => next == d && notices == seq![Notice::NotAPositiveNumber],
            }
        }),
{
}

/// At the seed question, `y` leads to the question of which seed, with nothing else
/// changed; any other answer stores the drawn seed, keeps the other settings, and
/// asks for the civilization size.
pub proof fn lemma_seed_choice_answer(d: Dialog, line: Seq<char>, drawn: u32)
    requires
        d.stage == Stage::SeedChoice,
    ensures
        ({
            let (next, notices) = spec_step(d, line, drawn);
            if trim(line) == seq!['y'] {
                next.stage == Stage::SeedValue && next.settings == d.settings && notices == seq![
                    Notice::SeedValuePrompt,
                ]
            } else {
                &&& next.stage == Stage::CivSize
                &&& next.settings.seed == drawn
                &&& next.settings.mode == d.settings.mode
                &&& next.settings.scale == d.settings.scale
                &&& next.settings.civ_size == d.settings.civ_size
                &&& notices == seq![Notice::CivSizeMenu]
            }
        }),
{
}

/// At the question of which seed, any number `n` (0 included) becomes the seed and
/// the civilization size is asked next; anything else changes nothing and asks again.
pub proof fn lemma_seed_value_answer(d: Dialog, line: Seq<char>, drawn: u32)
    requires
        d.stage == Stage::SeedValue,
    ensures
        ({
            let (next, notices) = spec_step(d, line, drawn);
            match spec_entry_u32(line) {
                Some(n) => {
                    &&& next.stage == Stage::CivSize
                    &&& next.settings.seed == n
                    &&& next.settings.mode == d.settings.mode
                    &&& next.settings.scale == d.settings.scale
                    &&& next.settings.civ_size == d.settings.civ_size
                    &&& notices == seq![Notice::CivSizeMenu]
                },
                None => next == d && notices == seq![Notice::NotAPositiveNumber],
            }
        }),
{
}

/// At the civilization-size question, a number `n` from 4 to 8 finishes the dialog
/// with size `n`; any other number is stored but the question stays open with no
/// message; anything that is not a number changes nothing and asks again.
pub proof fn lemma_civ_size_answer(d: Dialog, line: Seq<char>, drawn: u32)
    requires
        d.stage == Stage::CivSize,
    ensures
        ({
            let (next, notices) = spec_step(d, line, drawn);
            match spec_entry_u8(line) {
                Some(n) => {
                    &&& next.settings.civ_size == n
                    &&& next.settings.mode == d.settings.mode
                    &&& next.settings.scale == d.settings.scale
                    &&& next.settings.seed == d.settings.seed
                    &&& notices.len() == 0
                    &&& (4 <= n <= 8 <==> next.stage == Stage::Done)
                    &&& !(4 <= n <= 8) ==> next.stage == Stage::CivSize
                },
                None => next == d && notices == seq![Notice::CivSizeRetry],
            }
        }),
{
}

} // verus!
