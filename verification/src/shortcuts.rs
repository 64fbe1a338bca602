//! Key combinations that work in every program.
//!
//! A combination that another program holds cannot be had. That is told to the
//! user and stops nothing.

use vstd::prelude::*;
use vstd::string::*;

use crate::config::{ShortcutSettings, ShortcutView};
use crate::text::{same, to_ascii_lower, trim};

verus! {

/// What a combination does.
#[derive(Debug, Clone, Copy, PartialEq, Eq, Structural)]
pub enum Action {
    /// Open the overlay.
    OpenOverlay,
    /// Open the overlay with the rectangle tool.
    OpenOverlayRectangle,
    /// Capture the screen at once.
    FullScreen,
    /// Capture the frontmost window at once.
    ActiveWindow,
}

/// What has come of the combinations so far.
pub struct Bindings {
    /// The combinations that are held, in lower case.
    pub claimed: Seq<Seq<char>>,
    /// What the user is told.
    pub warnings: Seq<Seq<char>>,
}

/// The action of a place in the settings, from zero to three.
pub open spec fn action_at(i: int) -> Action {
    if i == 0 {
        Action::OpenOverlay
    } else if i == 1 {
        Action::OpenOverlayRectangle
    } else if i == 2 {
        Action::FullScreen
    } else {
        Action::ActiveWindow
    }
}

/// What the user knows the action of a place as.
pub open spec fn label_at(i: int) -> Seq<char> {
    if i == 0 {
        "New capture"@
    } else if i == 1 {
        "Region"@
    } else if i == 2 {
        "Full screen"@
    } else {
        "Active window"@
    }
}

/// The combination of a place, without white space round it.
pub open spec fn combination_at(settings: ShortcutView, i: int) -> Seq<char> {
    crate::text::trimmed(
        if i == 0 {
            settings.capture
        } else if i == 1 {
            settings.region
        } else if i == 2 {
            settings.full_screen
        } else {
            settings.active_window
        },
    )
}

pub open spec fn shared_warning(label: Seq<char>, combination: Seq<char>) -> Seq<char> {
    label + " shares the shortcut "@ + combination + " with another action, so it was skipped."@
}

pub open spec fn refused_warning(
    label: Seq<char>,
    combination: Seq<char>,
    why: Seq<char>,
) -> Seq<char> {
    label + " could not use "@ + combination + ": "@ + why
        + ". Another application may already own it."@
}

/// Whether a place asks for a combination that is not held yet. An empty
/// combination asks for nothing.
pub open spec fn is_tried(settings: ShortcutView, before: Bindings, i: int) -> bool {
    let combination = combination_at(settings, i);
    combination.len() > 0 && !before.claimed.contains(crate::text::ascii_lowered(combination))
}

/// What has come of the combinations after one more place, given what came of
/// registering it where it is tried.
pub open spec fn bound(
    settings: ShortcutView,
    before: Bindings,
    i: int,
    outcome: Result<(), String>,
) -> Bindings {
    let combination = combination_at(settings, i);
    let lower = crate::text::ascii_lowered(combination);
    if combination.len() == 0 {
        before
    } else if before.claimed.contains(lower) {
        Bindings {
            warnings: before.warnings.push(shared_warning(label_at(i), combination)),
            ..before
        }
    } else {
        match outcome {
            Ok(_) => Bindings { claimed: before.claimed.push(lower), ..before },
            Err(why) => Bindings {
                warnings: before.warnings.push(refused_warning(label_at(i), combination, why@)),
                ..before
            },
        }
    }
}

/// What has come of the combinations once every place from `i` on is passed over
/// that registers nothing, and the place that comes next: the next one that is
/// tried, or four where there is none left.
pub open spec fn settled(settings: ShortcutView, before: Bindings, i: nat) -> (Bindings, nat)
    decreases 4 - i,
{
    if i >= 4 || is_tried(settings, before, i as int) {
        (before, i)
    } else {
        settled(settings, bound(settings, before, i as int, Ok(())), i + 1)
    }
}

fn accelerator_at(settings: &ShortcutSettings, i: usize) -> (r: String)
    requires
        i < 4,
    ensures
        r@ == combination_at(settings@, i as int),
{
    if i == 0 {
        trim(settings.capture.as_str())
    } else if i == 1 {
        trim(settings.region.as_str())
    } else if i == 2 {
        trim(settings.full_screen.as_str())
    } else {
        trim(settings.active_window.as_str())
    }
}

fn action_of(i: usize) -> (r: Action)
    requires
        i < 4,
    ensures
        r == action_at(i as int),
{
    if i == 0 {
        Action::OpenOverlay
    } else if i == 1 {
        Action::OpenOverlayRectangle
    } else if i == 2 {
        Action::FullScreen
    } else {
        Action::ActiveWindow
    }
}

fn label_of(i: usize) -> (r: &'static str)
    requires
        i < 4,
    ensures
        r@ == label_at(i as int),
{
    if i == 0 {
        "New capture"
    } else if i == 1 {
        "Region"
    } else if i == 2 {
        "Full screen"
    } else {
        "Active window"
    }
}

fn is_claimed(claimed: &Vec<String>, lower: &str) -> (r: bool)
    ensures
        r == crate::capture::texts_view(claimed@).contains(lower@),
{
    let mut i: usize = 0;
    while i < claimed.len()
        invariant
            0 <= i <= claimed.len(),
            forall|k: int| 0 <= k < i ==> (#[trigger] claimed@[k])@ != lower@,
        decreases claimed.len() - i,
    {
        if same(claimed[i].as_str(), lower) {
            assert(crate::capture::texts_view(claimed@)[i as int] == lower@);
            return true;
        }
        i += 1;
    }
    proof {
        let all = crate::capture::texts_view(claimed@);
        assert forall|k: int| 0 <= k < all.len() implies all[k] != lower@ by {
            assert(all[k] == claimed@[k]@);
        }
    }
    false
}

fn shared_text(label: &str, combination: &str) -> (r: String)
    ensures
        r@ == shared_warning(label@, combination@),
{
    let mut out: String = label.to_owned();
    out.append(" shares the shortcut ");
    out.append(combination);
    out.append(" with another action, so it was skipped.");
    out
}

fn refused_text(label: &str, combination: &str, why: &str) -> (r: String)
    ensures
        r@ == refused_warning(label@, combination@, why@),
{
    let mut out: String = label.to_owned();
    out.append(" could not use ");
    out.append(combination);
    out.append(": ");
    out.append(why);
    out.append(". Another application may already own it.");
    out
}

/// Where a registration stands.
#[derive(Debug, Clone, Copy, PartialEq, Eq, Structural)]
pub enum Stage {
    /// The combinations from before are still held.
    Start,
    /// The place from zero to three that comes next, or four at the end.
    Ready(usize),
    /// The place whose combination was handed out to be registered.
    Asked(usize),
}

/// What to do next.
#[derive(Debug)]
pub enum Step {
    /// Give up every combination from before.
    ClearAll,
    /// Bind a combination to an action, and tell what came of it.
    Register(String, Action),
    /// All is done. These are the warnings.
    Done(Vec<String>),
}

/// What a [`Step`] holds.
pub enum StepView {
    ClearAll,
    Register(Seq<char>, Action),
    Done(Seq<Seq<char>>),
}

impl View for Step {
    type V = StepView;

    open spec fn view(&self) -> StepView {
        match *self {
            Step::ClearAll => StepView::ClearAll,
            Step::Register(combination, action) => StepView::Register(combination@, action),
            Step::Done(warnings) => StepView::Done(crate::capture::texts_view(warnings@)),
        }
    }
}

/// The combinations of the settings on their way to being held.
#[derive(Debug)]
pub struct Registration {
    settings: ShortcutSettings,
    stage: Stage,
    claimed: Vec<String>,
    warnings: Vec<String>,
}

/// What a [`Registration`] holds.
pub struct RegistrationView {
    pub settings: ShortcutView,
    pub stage: Stage,
    pub bindings: Bindings,
}

impl View for Registration {
    type V = RegistrationView;

    closed spec fn view(&self) -> RegistrationView {
        RegistrationView {
            settings: self.settings@,
            stage: self.stage,
            bindings: Bindings {
                claimed: crate::capture::texts_view(self.claimed@),
                warnings: crate::capture::texts_view(self.warnings@),
            },
        }
    }
}

impl RegistrationView {
    /// Whether the stage can be reached: a place is one of the four, and one that
    /// was handed out was tried.
    pub open spec fn is_reached(self) -> bool {
        match self.stage {
            Stage::Start => self.bindings.claimed.len() == 0 && self.bindings.warnings.len() == 0,
            Stage::Ready(i) => i <= 4,
            Stage::Asked(i) => i < 4 && is_tried(self.settings, self.bindings, i as int),
        }
    }

    /// The step that comes next.
    pub open spec fn step(self) -> StepView {
        match self.stage {
            Stage::Ready(i) => {
                let (bindings, place) = settled(self.settings, self.bindings, i as nat);
                if place < 4 {
                    StepView::Register(
                        combination_at(self.settings, place as int),
                        action_at(place as int),
                    )
                } else {
                    StepView::Done(bindings.warnings)
                }
            },
            _ => StepView::ClearAll,
        }
    }

    /// How things stand once the next step is handed out.
    pub open spec fn stepped(self) -> RegistrationView {
        match self.stage {
            Stage::Ready(i) => {
                let (bindings, place) = settled(self.settings, self.bindings, i as nat);
                let stage = if place < 4 {
                    Stage::Asked(place as usize)
                } else {
                    Stage::Ready(4)
                };
                RegistrationView { stage, bindings, ..self }
            },
            _ => RegistrationView { stage: Stage::Ready(0), ..self },
        }
    }

    /// How things stand once it is known what came of registering.
    pub open spec fn answered(self, outcome: Result<(), String>) -> RegistrationView {
        match self.stage {
            Stage::Asked(i) => RegistrationView {
                stage: Stage::Ready((i + 1) as usize),
                bindings: bound(self.settings, self.bindings, i as int, outcome),
                ..self
            },
            _ => self,
        }
    }
}

/// Starts to register the combinations of the settings in place of the ones before.
pub fn apply(settings: &ShortcutSettings) -> (r: Registration)
    ensures
        r@.settings == settings@,
        r@.stage == Stage::Start,
        r@.bindings == (Bindings { claimed: seq![], warnings: seq![] }),
        r@.is_reached(),
{
    let r: Registration = Registration {
        settings: settings.clone(),
        stage: Stage::Start,
        claimed: Vec::new(),
        warnings: Vec::new(),
    };
    assert(r@.bindings.claimed =~= seq![]);
    assert(r@.bindings.warnings =~= seq![]);
    r
}

fn texts_clone(texts: &Vec<String>) -> (r: Vec<String>)
    ensures
        crate::capture::texts_view(r@) == crate::capture::texts_view(texts@),
{
    let mut out: Vec<String> = Vec::new();
    let mut i: usize = 0;
    while i < texts.len()
        invariant
            0 <= i <= texts.len(),
            out.len() == i,
            forall|k: int| 0 <= k < i ==> (#[trigger] out@[k])@ == texts@[k]@,
        decreases texts.len() - i,
    {
        out.push(texts[i].clone());
        i += 1;
    }
    assert(crate::capture::texts_view(out@) =~= crate::capture::texts_view(texts@));
    out
}

impl Registration {
    /// Where this stands.
    pub fn stage(&self) -> (r: Stage)
        ensures
            r == self@.stage,
    {
        self.stage
    }

    /// Hands out the next step: first to give up what was held before, then to
    /// register one combination after the other.
    ///
    /// A combination that is held already is never handed out again, whatever its
    /// casing, so that no key press does two things.
    pub fn next(&mut self) -> (r: Step)
        requires
            old(self)@.is_reached(),
            !(old(self)@.stage is Asked),
        ensures
            r@ == old(self)@.step(),
            final(self)@ == old(self)@.stepped(),
            final(self)@.is_reached(),
    {
        let mut i: usize = match self.stage {
            Stage::Ready(i) => i,
            _ => {
                self.stage = Stage::Ready(0);
                return Step::ClearAll;
            },
        };
        let ghost start = self@;
        while i < 4
            invariant
                0 <= i <= 4,
                start.stage is Ready,
                self@.settings == start.settings,
                self@.stage == start.stage,
                settled(start.settings, start.bindings, start.stage->Ready_0 as nat) == settled(
                    start.settings,
                    self@.bindings,
                    i as nat,
                ),
                start == old(self)@,
            decreases 4 - i,
        {
            let ghost before = self@.bindings;
            let combination: String = accelerator_at(&self.settings, i);
            let lower: String = to_ascii_lower(combination.as_str());
            if !combination.as_str().is_empty() {
                if !is_claimed(&self.claimed, lower.as_str()) {
                    assert(is_tried(start.settings, before, i as int));
                    self.stage = Stage::Asked(i);
                    return Step::Register(combination, action_of(i));
                }
                self.warnings.push(shared_text(label_of(i), combination.as_str()));
                assert(self@.bindings.warnings =~= before.warnings.push(
                    shared_warning(label_at(i as int), combination@),
                ));
                assert(self@.bindings.claimed == before.claimed);
            }
            assert(self@.bindings == bound(start.settings, before, i as int, Ok(())));
            i += 1;
        }
        self.stage = Stage::Ready(4);
        Step::Done(texts_clone(&self.warnings))
    }

    /// Takes in what came of registering the combination that was handed out.
    pub fn answer(&mut self, outcome: Result<(), String>)
        requires
            old(self)@.is_reached(),
            old(self)@.stage is Asked,
        ensures
            final(self)@ == old(self)@.answered(outcome),
            final(self)@.is_reached(),
    {
        if let Stage::Asked(i) = self.stage {
            let ghost before = self@.bindings;
            let combination: String = accelerator_at(&self.settings, i);
            match outcome {
                Ok(_) => {
                    self.claimed.push(to_ascii_lower(combination.as_str()));
                    assert(self@.bindings.claimed =~= before.claimed.push(
                        crate::text::ascii_lowered(combination@),
                    ));
                },
                Err(why) => {
                    self.warnings.push(
                        refused_text(label_of(i), combination.as_str(), why.as_str()),
                    );
                    assert(self@.bindings.warnings =~= before.warnings.push(
                        refused_warning(label_at(i as int), combination@, why@),
                    ));
                },
            }
            self.stage = Stage::Ready(i + 1);
        }
    }
}

/// What to do when a combination is pressed.
#[derive(Debug, Clone, Copy, PartialEq, Eq, Structural)]
pub enum Dispatch {
    /// Open the overlay with the rectangle tool.
    Overlay,
    /// Capture at once.
    Immediate(ImmediateMode),
}

/// A capture that needs no overlay.
#[derive(Debug, Clone, Copy, PartialEq, Eq, Structural)]
pub enum ImmediateMode {
    FullScreen,
    ActiveWindow,
}

/// Decides what an action does.
pub fn dispatch(action: Action) -> (r: Dispatch)
    ensures
        r == match action {
            Action::OpenOverlay => Dispatch::Overlay,
            Action::OpenOverlayRectangle => Dispatch::Overlay,
            Action::FullScreen => Dispatch::Immediate(ImmediateMode::FullScreen),
            Action::ActiveWindow => Dispatch::Immediate(ImmediateMode::ActiveWindow),
        },
{
    match action {
        Action::OpenOverlay => Dispatch::Overlay,
        Action::OpenOverlayRectangle => Dispatch::Overlay,
        Action::FullScreen => Dispatch::Immediate(ImmediateMode::FullScreen),
        Action::ActiveWindow => Dispatch::Immediate(ImmediateMode::ActiveWindow),
    }
}

// ---------------------------------------------------------------------------
// Laws
// ---------------------------------------------------------------------------

/// The combinations that are handed out to be registered, in order, from a place
/// on, given what came of registering each.
pub open spec fn handed_out(
    settings: ShortcutView,
    before: Bindings,
    i: nat,
    outcomes: Seq<Result<(), String>>,
) -> Seq<Seq<char>>
    decreases 4 - i,
{
    let (bindings, place) = settled(settings, before, i);
    if i >= 4 || place >= 4 || place < i {
        seq![]
    } else {
        let one = seq![combination_at(settings, place as int)];
        if outcomes.len() == 0 {
            one
        } else {
            one + handed_out(
                settings,
                bound(settings, bindings, place as int, outcomes[0]),
                place + 1,
                outcomes.skip(1),
            )
        }
    }
}

/// What has come of the combinations at the end, given what came of registering
/// each that was handed out.
pub open spec fn concluded(
    settings: ShortcutView,
    before: Bindings,
    i: nat,
    outcomes: Seq<Result<(), String>>,
) -> Bindings
    decreases 4 - i,
{
    let (bindings, place) = settled(settings, before, i);
    if i >= 4 || place >= 4 || place < i || outcomes.len() == 0 {
        bindings
    } else {
        concluded(
            settings,
            bound(settings, bindings, place as int, outcomes[0]),
            place + 1,
            outcomes.skip(1),
        )
    }
}

/// Passing over places holds nothing more, and comes to a place that is tried or to
/// the end.
proof fn lemma_settled(settings: ShortcutView, before: Bindings, i: nat)
    requires
        i <= 4,
    ensures
        ({
            let (bindings, place) = settled(settings, before, i);
            &&& i <= place <= 4
            &&& bindings.claimed == before.claimed
            &&& place < 4 ==> is_tried(settings, bindings, place as int)
            &&& bindings.claimed.len() + bindings.warnings.len() - before.claimed.len()
                - before.warnings.len() == asked_for(settings, place) - asked_for(settings, i)
        }),
    decreases 4 - i,
{
    if i < 4 && !is_tried(settings, before, i as int) {
        lemma_settled(settings, bound(settings, before, i as int, Ok(())), i + 1);
    }
}

/// What is handed out in the course of a registration is what its steps hand out one
/// after the other, and its last step tells the warnings.
pub proof fn a_registration_is_made_of_steps(
    v: RegistrationView,
    i: usize,
    outcomes: Seq<Result<(), String>>,
)
    requires
        v.stage == Stage::Ready(i),
        i <= 4,
    ensures
        match v.step() {
            StepView::Register(combination, _) => {
                &&& v.stepped().stage matches Stage::Asked(place)
                &&& handed_out(v.settings, v.bindings, i as nat, outcomes) == if outcomes.len()
                    == 0 {
                    seq![combination]
                } else {
                    seq![combination] + handed_out(
                        v.settings,
                        v.stepped().answered(outcomes[0]).bindings,
                        (place + 1) as nat,
                        outcomes.skip(1),
                    )
                }
                &&& outcomes.len() > 0 ==> concluded(v.settings, v.bindings, i as nat, outcomes)
                    == concluded(
                    v.settings,
                    v.stepped().answered(outcomes[0]).bindings,
                    (place + 1) as nat,
                    outcomes.skip(1),
                )
            },
            StepView::Done(warnings) => {
                &&& handed_out(v.settings, v.bindings, i as nat, outcomes).len() == 0
                &&& warnings == concluded(v.settings, v.bindings, i as nat, outcomes).warnings
            },
            StepView::ClearAll => false,
        },
{
    lemma_settled(v.settings, v.bindings, i as nat);
}

/// What is held is never handed out.
proof fn lemma_not_held(
    settings: ShortcutView,
    before: Bindings,
    i: nat,
    outcomes: Seq<Result<(), String>>,
    k: int,
)
    requires
        i <= 4,
        0 <= k < handed_out(settings, before, i, outcomes).len(),
    ensures
        !before.claimed.contains(
            crate::text::ascii_lowered(handed_out(settings, before, i, outcomes)[k]),
        ),
    decreases 4 - i,
{
    lemma_settled(settings, before, i);
    let (bindings, place) = settled(settings, before, i);
    if k > 0 {
        let next = bound(settings, bindings, place as int, outcomes[0]);
        lemma_not_held(settings, next, place + 1, outcomes.skip(1), k - 1);
        let lower = crate::text::ascii_lowered(handed_out(settings, before, i, outcomes)[k]);
        if before.claimed.contains(lower) {
            let at = choose|at: int| 0 <= at < before.claimed.len() && before.claimed[at] == lower;
            assert(next.claimed[at] == lower);
        }
    }
}

/// A combination that was registered is never handed out again, whatever its
/// casing, so that no key press does two things.
pub proof fn no_combination_is_registered_twice(
    settings: ShortcutView,
    before: Bindings,
    i: nat,
    outcomes: Seq<Result<(), String>>,
    j: int,
    k: int,
)
    requires
        i <= 4,
        0 <= j < k < handed_out(settings, before, i, outcomes).len(),
        j < outcomes.len(),
        outcomes[j] is Ok,
    ensures
        crate::text::ascii_lowered(handed_out(settings, before, i, outcomes)[j])
            != crate::text::ascii_lowered(handed_out(settings, before, i, outcomes)[k]),
    decreases 4 - i,
{
    lemma_settled(settings, before, i);
    let (bindings, place) = settled(settings, before, i);
    let next = bound(settings, bindings, place as int, outcomes[0]);
    if j == 0 {
        lemma_not_held(settings, next, place + 1, outcomes.skip(1), k - 1);
        assert(next.claimed.last() == crate::text::ascii_lowered(
            combination_at(settings, place as int),
        ));
    } else {
        assert(outcomes.skip(1)[j - 1] == outcomes[j]);
        no_combination_is_registered_twice(
            settings,
            next,
            place + 1,
            outcomes.skip(1),
            j - 1,
            k - 1,
        );
    }
}

/// What was held before is given up before anything is registered.
pub proof fn earlier_combinations_are_given_up_first(v: RegistrationView)
    ensures
        v.stage is Start ==> v.step() is ClearAll && v.stepped().stage == Stage::Ready(0),
        v.step() is Register ==> v.stage is Ready,
{
}

/// No combination is held twice.
pub proof fn no_combination_is_held_twice(
    settings: ShortcutView,
    before: Bindings,
    i: nat,
    outcomes: Seq<Result<(), String>>,
)
    requires
        i <= 4,
        before.claimed.no_duplicates(),
    ensures
        concluded(settings, before, i, outcomes).claimed.no_duplicates(),
    decreases 4 - i,
{
    lemma_settled(settings, before, i);
    let (bindings, place) = settled(settings, before, i);
    if place < 4 && outcomes.len() > 0 {
        let next = bound(settings, bindings, place as int, outcomes[0]);
        assert forall|a: int, b: int|
            0 <= a < next.claimed.len() && 0 <= b < next.claimed.len() && a
                != b implies next.claimed[a] != next.claimed[b] by {
            if a == bindings.claimed.len() {
                assert(bindings.claimed.contains(bindings.claimed[b]));
            } else if b == bindings.claimed.len() {
                assert(bindings.claimed.contains(bindings.claimed[a]));
            }
        }
        no_combination_is_held_twice(settings, next, place + 1, outcomes.skip(1));
    }
}

/// Every combination that is asked for is either held or told of in the end: the
/// user is warned of each that does nothing.
pub proof fn every_combination_is_held_or_told_of(
    settings: ShortcutView,
    before: Bindings,
    i: nat,
    outcomes: Seq<Result<(), String>>,
)
    requires
        i <= 4,
        outcomes.len() >= handed_out(settings, before, i, outcomes).len(),
        before.claimed.len() + before.warnings.len() == asked_for(settings, i),
    ensures
        concluded(settings, before, i, outcomes).claimed.len() + concluded(
            settings,
            before,
            i,
            outcomes,
        ).warnings.len() == asked_for(settings, 4),
    decreases 4 - i,
{
    lemma_settled(settings, before, i);
    let (bindings, place) = settled(settings, before, i);
    if place < 4 {
        every_combination_is_held_or_told_of(
            settings,
            bound(settings, bindings, place as int, outcomes[0]),
            place + 1,
            outcomes.skip(1),
        );
    }
}

/// How many of the first `n` places ask for a combination.
pub open spec fn asked_for(settings: ShortcutView, n: nat) -> nat
    decreases n,
{
    if n == 0 {
        0
    } else {
        asked_for(settings, (n - 1) as nat) + if combination_at(settings, n - 1).len() > 0 {
            1nat
        } else {
            0nat
        }
    }
}

/// What stands at the four places: each has the combination of its own setting,
/// without white space round it, its own action, and its own name.
pub proof fn places_have_their_own_setting(settings: ShortcutView)
    ensures
        combination_at(settings, 0) == crate::text::trimmed(settings.capture),
        combination_at(settings, 1) == crate::text::trimmed(settings.region),
        combination_at(settings, 2) == crate::text::trimmed(settings.full_screen),
        combination_at(settings, 3) == crate::text::trimmed(settings.active_window),
        action_at(0) is OpenOverlay,
        action_at(1) is OpenOverlayRectangle,
        action_at(2) is FullScreen,
        action_at(3) is ActiveWindow,
        label_at(0) == "New capture"@,
        label_at(1) == "Region"@,
        label_at(2) == "Full screen"@,
        label_at(3) == "Active window"@,
{
}

/// A place that asks for nothing changes nothing. One whose combination is held, in
/// any casing, adds a warning alone. Any other is tried: it holds the combination in
/// lower case from then on where that worked, and adds a warning with the reason
/// where it did not.
pub proof fn a_place_is_held_or_told_of(
    settings: ShortcutView,
    before: Bindings,
    i: int,
    outcome: Result<(), String>,
)
    ensures
        ({
            let combination = combination_at(settings, i);
            let after = bound(settings, before, i, outcome);
            let held = exists|k: int|
                0 <= k < before.claimed.len() && #[trigger] before.claimed[k]
                    == crate::text::ascii_lowered(combination);
            &&& is_tried(settings, before, i) <==> combination.len() > 0 && !held
            &&& combination.len() == 0 ==> after == before
            &&& combination.len() > 0 && held ==> after.claimed == before.claimed && after.warnings
                == before.warnings.push(
                label_at(i) + " shares the shortcut "@ + combination
                    + " with another action, so it was skipped."@,
            )
            &&& combination.len() > 0 && !held && outcome is Ok ==> after.warnings
                == before.warnings && after.claimed == before.claimed.push(
                crate::text::ascii_lowered(combination),
            )
            &&& combination.len() > 0 && !held && outcome is Err ==> after.claimed == before.claimed
                && after.warnings == before.warnings.push(
                label_at(i) + " could not use "@ + combination + ": "@ + outcome->Err_0@
                    + ". Another application may already own it."@,
            )
        }),
{
    let lower = crate::text::ascii_lowered(combination_at(settings, i));
    assert(before.claimed.contains(lower) <==> exists|k: int|
        0 <= k < before.claimed.len() && #[trigger] before.claimed[k] == lower);
}

/// Places are passed over one by one until one is tried or none is left.
pub proof fn places_are_passed_over_in_turn(settings: ShortcutView, before: Bindings, i: nat)
    ensures
        i >= 4 ==> settled(settings, before, i) == (before, i),
        i < 4 && is_tried(settings, before, i as int) ==> settled(settings, before, i) == (
            before,
            i,
        ),
        i < 4 && !is_tried(settings, before, i as int) ==> settled(settings, before, i) == settled(
            settings,
            bound(settings, before, i as int, Ok(())),
            i + 1,
        ),
{
}

/// A registration first gives up what was held, then hands out the combination and
/// the action of each place that is tried, and in the end all warnings. Handing out a
/// step changes the place and takes in the places that were passed over, and nothing
/// else.
pub proof fn a_registration_goes_from_place_to_place(v: RegistrationView, i: usize)
    ensures
        v.stage is Start ==> v.step() is ClearAll && v.stepped().stage == Stage::Ready(0)
            && v.stepped().bindings == v.bindings,
        v.stepped().settings == v.settings,
        v.stage == Stage::Ready(i) && settled(v.settings, v.bindings, i as nat).1 < 4 ==> {
            let next = settled(v.settings, v.bindings, i as nat);
            &&& v.step() == StepView::Register(
                combination_at(v.settings, next.1 as int),
                action_at(next.1 as int),
            )
            &&& v.stepped().stage == Stage::Asked(next.1 as usize)
            &&& v.stepped().bindings == next.0
        },
        v.stage == Stage::Ready(i) && settled(v.settings, v.bindings, i as nat).1 >= 4 ==> {
            let next = settled(v.settings, v.bindings, i as nat);
            &&& v.step() == StepView::Done(next.0.warnings)
            &&& v.stepped().stage == Stage::Ready(4)
            &&& v.stepped().bindings == next.0
        },
{
}

/// An answer is about the place that was handed out, and leads to the one after it.
pub proof fn answers_are_about_what_was_asked(
    v: RegistrationView,
    i: usize,
    outcome: Result<(), String>,
)
    ensures
        v.answered(outcome).settings == v.settings,
        v.stage == Stage::Asked(i) && i < usize::MAX ==> v.answered(outcome).stage == Stage::Ready(
            (i + 1) as usize,
        ) && v.answered(outcome).bindings == bound(v.settings, v.bindings, i as int, outcome),
        !(v.stage is Asked) ==> v.answered(outcome) == v,
{
}

/// What is shown of a step is what it holds.
pub proof fn steps_are_shown_as_they_are(step: Step)
    ensures
        step is ClearAll ==> step@ is ClearAll,
        step is Register ==> step@ == StepView::Register(step->Register_0@, step->Register_1),
        step is Done ==> step@ is Done && step@->Done_0.len() == step->Done_0@.len(),
        step is Done ==> forall|i: int|
            0 <= i < step->Done_0@.len() ==> #[trigger] step@->Done_0[i] == step->Done_0@[i]@,
{
}

/// Where a registration can stand: at the start with nothing held and nothing told,
/// before one of the four places or behind the last, or at a place that is tried.
pub proof fn where_a_registration_can_stand(v: RegistrationView, i: usize)
    ensures
        v.stage is Start ==> (v.is_reached() <==> v.bindings.claimed.len() == 0
            && v.bindings.warnings.len() == 0),
        v.stage == Stage::Ready(i) ==> (v.is_reached() <==> i <= 4),
        v.stage == Stage::Asked(i) ==> (v.is_reached() <==> i <= 3 && is_tried(
            v.settings,
            v.bindings,
            i as int,
        )),
{
}

} // verus!
