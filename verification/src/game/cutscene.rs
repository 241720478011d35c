use vstd::prelude::*;
use vstd::string::*;

use crate::ldtk::text::str_eq;

verus! {

/// One line of the sanctuary dialog.
#[derive(Debug, Clone)]
pub struct DialogLine {
    /// "jasper", "family", or any other name shown as is.
    pub speaker: String,
    pub text: String,
}

/// The dialog of the sanctuary ending: its lines, then the prompt that ends
/// the game.
#[derive(Debug, Clone)]
pub struct CutsceneScript {
    pub lines: Vec<DialogLine>,
    pub finish_prompt: String,
}

/// Lifecycle of the sanctuary ending cutscene. Reset whenever gameplay
/// begins, keeping the loaded script.
#[derive(Debug)]
pub struct SanctuaryCutsceneState {
    /// The dialog, once loaded; without it the cutscene never starts.
    pub config: Option<CutsceneScript>,
    /// The trigger has fired; it never fires again.
    pub triggered: bool,
    /// Index of the dialog line on screen.
    pub current_line: usize,
    /// Every line has been shown; the finish prompt is on screen.
    pub awaiting_finish: bool,
    /// The player confirmed the finish; nothing more happens.
    pub finished: bool,
}

/// Number of dialog lines of a state's script (0 without a script).
pub open spec fn line_count(s: SanctuaryCutsceneState) -> int {
    match s.config {
        Some(c) => c.lines@.len() as int,
        None => 0,
    }
}

/// The states the cutscene moves through: finished only after the finish
/// prompt, the prompt only after the trigger, the trigger only with a
/// script, and while lines are shown the current one exists.
pub open spec fn consistent(s: SanctuaryCutsceneState) -> bool {
    &&& s.finished ==> s.awaiting_finish
    &&& s.awaiting_finish ==> s.triggered
    &&& s.triggered ==> s.config is Some
    &&& s.triggered && !s.awaiting_finish ==> s.current_line < line_count(s)
}

/// A script that the cutscene can play: it has at least one line.
pub open spec fn playable(s: SanctuaryCutsceneState) -> bool {
    s.config is Some ==> line_count(s) > 0
}

/// Same script and flags.
pub open spec fn same_state(a: SanctuaryCutsceneState, b: SanctuaryCutsceneState) -> bool {
    &&& a.config == b.config
    &&& a.triggered == b.triggered
    &&& a.current_line == b.current_line
    &&& a.awaiting_finish == b.awaiting_finish
    &&& a.finished == b.finished
}

/// `after` is `before` after the trigger check of one frame: the trigger
/// fires once, with a script, before the end, when the player has crossed it;
/// it then puts the first line on screen.
pub open spec fn trigger_step(
    before: SanctuaryCutsceneState,
    after: SanctuaryCutsceneState,
    player_crossed: bool,
    fired: bool,
) -> bool {
    &&& fired == (!before.triggered && !before.finished && before.config is Some && player_crossed)
    &&& fired ==> after.triggered && after.current_line == 0 && after.config == before.config
        && after.awaiting_finish == before.awaiting_finish && after.finished == before.finished
    &&& !fired ==> same_state(after, before)
}

/// `after` is `before` after the dialog key of one frame: while the cutscene
/// runs, a press shows the next line (the finish prompt after the last one),
/// and on the finish prompt it ends the cutscene.
pub open spec fn key_step(before: SanctuaryCutsceneState, after: SanctuaryCutsceneState, pressed: bool) -> bool {
    &&& after.config == before.config
    &&& after.triggered == before.triggered
    &&& !before.triggered || before.finished || !pressed || before.config is None ==> same_state(after, before)
    &&& before.triggered && !before.finished && pressed && before.config is Some ==> if before.awaiting_finish {
        after.finished && after.awaiting_finish && after.current_line == before.current_line
    } else {
        !after.finished && after.current_line == before.current_line + 1 && after.awaiting_finish == (
        after.current_line >= line_count(before))
    }
}

/// `after` is `before` reset for a new run of gameplay: the script stays,
/// everything else starts over.
pub open spec fn reset_step(before: SanctuaryCutsceneState, after: SanctuaryCutsceneState) -> bool {
    &&& after.config == before.config
    &&& !after.triggered
    &&& after.current_line == 0
    &&& !after.awaiting_finish
    &&& !after.finished
}

/// What a key press did to the dialog.
#[derive(Debug, Clone, Copy, PartialEq, Eq, Structural)]
pub enum AdvanceOutcome {
    /// Nothing changed.
    Unchanged,
    /// The next line (or the finish prompt) is due: the shown box goes away.
    NextLine,
    /// The player confirmed the ending: the box goes, the game counts as
    /// complete and the main menu opens.
    Finished,
}

/// The content of the dialog box.
#[derive(Debug, Clone)]
pub struct DialogBox {
    /// "Jasper:", "Family:" or the speaker's name and a colon; empty on the
    /// finish prompt.
    pub speaker_label: String,
    pub text: String,
    /// The box stands on the left (Jasper speaks from the left).
    pub side_left: bool,
    /// The finish prompt takes a centred full-width box.
    pub full_width: bool,
    pub hint: &'static str,
}

/// What to do with the dialog box on this frame.
#[derive(Debug, Clone)]
pub enum BoxAction {
    /// Remove any box: the cutscene is not running.
    Despawn,
    /// Leave things as they are.
    Keep,
    /// Show a new box.
    Spawn(DialogBox),
}

/// The label above a line of `speaker`.
pub open spec fn speaker_label(speaker: Seq<char>) -> Seq<char> {
    if speaker == "jasper"@ {
        "Jasper:"@
    } else if speaker == "family"@ {
        "Family:"@
    } else {
        speaker + ":"@
    }
}

impl Default for SanctuaryCutsceneState {
    fn default() -> (s: Self)
        ensures
            s.config is None,
            !s.triggered,
            s.current_line == 0,
            !s.awaiting_finish,
            !s.finished,
    {
        SanctuaryCutsceneState {
            config: None,
            triggered: false,
            current_line: 0,
            awaiting_finish: false,
            finished: false,
        }
    }
}

impl SanctuaryCutsceneState {
    /// Back to the start of gameplay, keeping the loaded script.
    pub fn reset(&mut self)
        ensures
            reset_step(*old(self), *final(self)),
    {
        self.triggered = false;
        self.current_line = 0;
        self.awaiting_finish = false;
        self.finished = false;
    }

    /// The trigger check of one frame. `player_crossed` tells whether the
    /// player and the trigger both exist and the player stands at or right of
    /// the trigger. Fires once, with a script, before the end: the first line
    /// is then due and the caller stops the player and starts the camera.
    pub fn check_trigger(&mut self, player_crossed: bool) -> (fired: bool)
        ensures
            trigger_step(*old(self), *final(self), player_crossed, fired),
    {
        if self.triggered || self.finished {
            return false;
        }
        if self.config.is_none() {
            return false;
        }
        if !player_crossed {
            return false;
        }
        self.triggered = true;
        self.current_line = 0;
        true
    }

    /// Handle the dialog key (Space or E) of one frame.
    pub fn advance(&mut self, pressed: bool) -> (outcome: AdvanceOutcome)
        requires
            old(self).triggered && !old(self).finished && pressed && old(self).config is Some
                && !old(self).awaiting_finish ==> old(self).current_line < usize::MAX,
        ensures
            key_step(*old(self), *final(self), pressed),
            outcome == if !old(self).triggered || old(self).finished || !pressed
                || old(self).config is None {
                AdvanceOutcome::Unchanged
            } else if old(self).awaiting_finish {
                AdvanceOutcome::Finished
            } else {
                AdvanceOutcome::NextLine
            },
    {
        if !self.triggered || self.finished {
            return AdvanceOutcome::Unchanged;
        }
        if !pressed {
            return AdvanceOutcome::Unchanged;
        }
        let n = match &self.config {
            Some(cfg) => cfg.lines.len(),
            None => {
                return AdvanceOutcome::Unchanged;
            },
        };
        if self.awaiting_finish {
            self.finished = true;
            return AdvanceOutcome::Finished;
        }
        self.current_line = self.current_line + 1;
        if self.current_line >= n {
            self.awaiting_finish = true;
        }
        AdvanceOutcome::NextLine
    }

    /// What the dialog box should do on this frame, given whether one is on
    /// screen: none while the cutscene is not running; a new box with the
    /// current line or the finish prompt when none is shown.
    pub fn box_action(&self, box_exists: bool) -> (action: BoxAction)
        requires
            self.triggered && !self.finished && self.config is Some && !box_exists
                && !self.awaiting_finish ==> self.current_line < line_count(*self),
        ensures
            !self.triggered || self.finished ==> action is Despawn,
            self.triggered && !self.finished && (self.config is None || box_exists) ==> action is Keep,
            self.triggered && !self.finished && self.config is Some && !box_exists ==> (
            action matches BoxAction::Spawn(b) && {
                let cfg = self.config.unwrap();
                if self.awaiting_finish {
                    &&& b.speaker_label@ == Seq::<char>::empty()
                    &&& b.text@ == cfg.finish_prompt@
                    &&& b.side_left
                    &&& b.full_width
                    &&& b.hint@ == "[Space / E] to finish"@
                } else {
                    let line = cfg.lines@[self.current_line as int];
                    &&& b.speaker_label@ == speaker_label(line.speaker@)
                    &&& b.text@ == line.text@
                    &&& b.side_left == (line.speaker@ == "jasper"@)
                    &&& !b.full_width
                    &&& b.hint@ == "[Space / E] to continue"@
                }
            }),
    {
        let active = self.triggered && !self.finished;
        if !active {
            return BoxAction::Despawn;
        }
        let cfg = match &self.config {
            Some(c) => c,
            None => {
                return BoxAction::Keep;
            },
        };
        if box_exists {
            return BoxAction::Keep;
        }
        if self.awaiting_finish {
            BoxAction::Spawn(
                DialogBox {
                    speaker_label: String::new(),
                    text: cfg.finish_prompt.clone(),
                    side_left: true,
                    full_width: true,
                    hint: "[Space / E] to finish",
                },
            )
        } else {
            let line = &cfg.lines[self.current_line];
            let is_jasper = str_eq(line.speaker.as_str(), "jasper");
            let label = if is_jasper {
                String::from_str("Jasper:")
            } else if str_eq(line.speaker.as_str(), "family") {
                String::from_str("Family:")
            } else {
                let mut l = line.speaker.clone();
                l.append(":");
                l
            };
            BoxAction::Spawn(
                DialogBox {
                    speaker_label: label,
                    text: line.text.clone(),
                    side_left: is_jasper,
                    full_width: false,
                    hint: "[Space / E] to continue",
                },
            )
        }
    }
}

/// The trigger check keeps the cutscene consistent.
pub proof fn lemma_trigger_keeps_consistent(
    before: SanctuaryCutsceneState,
    after: SanctuaryCutsceneState,
    player_crossed: bool,
    fired: bool,
)
    requires
        consistent(before),
        playable(before),
        trigger_step(before, after, player_crossed, fired),
    ensures
        consistent(after),
        playable(after),
{
}

/// The dialog key keeps the cutscene consistent.
pub proof fn lemma_key_keeps_consistent(
    before: SanctuaryCutsceneState,
    after: SanctuaryCutsceneState,
    pressed: bool,
)
    requires
        consistent(before),
        playable(before),
        key_step(before, after, pressed),
    ensures
        consistent(after),
        playable(after),
{
}

/// The reset when gameplay begins leads to a consistent cutscene.
pub proof fn lemma_reset_consistent(before: SanctuaryCutsceneState, after: SanctuaryCutsceneState)
    requires
        playable(before),
        reset_step(before, after),
    ensures
        consistent(after),
        playable(after),
{
}

/// Once finished, the cutscene stays finished: no key press and no trigger
/// changes it.
pub proof fn lemma_finished_is_final(
    before: SanctuaryCutsceneState,
    after_key: SanctuaryCutsceneState,
    after_trigger: SanctuaryCutsceneState,
    pressed: bool,
    player_crossed: bool,
    fired: bool,
)
    requires
        before.finished,
        key_step(before, after_key, pressed),
        trigger_step(before, after_trigger, player_crossed, fired),
    ensures
        same_state(after_key, before),
        same_state(after_trigger, before),
        !fired,
{
}

/// A consistent state can always be drawn: the box never asks for a line
/// past the end of the script.
pub proof fn lemma_consistent_box_in_range(s: SanctuaryCutsceneState, box_exists: bool)
    requires
        consistent(s),
    ensures
        s.triggered && !s.finished && s.config is Some && !box_exists && !s.awaiting_finish
            ==> s.current_line < line_count(s),
{
}

/// Speaker labels: Jasper's lines are headed "Jasper:", the family's
/// "Family:", anyone else's their name followed by a colon.
pub proof fn lemma_speaker_labels(name: Seq<char>)
    ensures
        speaker_label("jasper"@) == "Jasper:"@,
        speaker_label("family"@) == "Family:"@,
        name != "jasper"@ && name != "family"@ ==> speaker_label(name) == name + ":"@,
{
    reveal_strlit("jasper");
    reveal_strlit("family");
    assert("family"@[0] != "jasper"@[0]);
}

} // verus!
