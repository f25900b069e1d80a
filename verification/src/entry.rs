use vstd::prelude::*;
use crate::gate::{accepts, clamped, gate_accepts};
use crate::parse::{Command, CommandModel, ExitIntent, IntentModel};

verus! {

/// The terminal outcome the entry point selects: each variant is acted on
/// once and ends the process, except that a launch hands the process over.
pub enum ExitAction {
    /// Print the usage text and exit with status 1.
    UsageErrorExit,
    /// Print the help text and exit with status 0.
    HelpExit,
    /// Print the version banner and exit with status 0.
    VersionExit,
    /// The draw rejected: exit with status 1 without launching anything.
    RejectExit,
    /// The draw accepted and there is nothing to run: exit with status 0.
    SuccessExit,
    /// The draw accepted: replace this process with the wrapped command.
    Launch(Command),
}

/// The mathematical value of an `ExitAction`.
pub enum ActionModel {
    UsageErrorExit,
    HelpExit,
    VersionExit,
    RejectExit,
    SuccessExit,
    Launch(CommandModel),
}

impl View for ExitAction {
    type V = ActionModel;

    open spec fn view(&self) -> ActionModel {
        match self {
            ExitAction::UsageErrorExit => ActionModel::UsageErrorExit,
            ExitAction::HelpExit => ActionModel::HelpExit,
            ExitAction::VersionExit => ActionModel::VersionExit,
            ExitAction::RejectExit => ActionModel::RejectExit,
            ExitAction::SuccessExit => ActionModel::SuccessExit,
            ExitAction::Launch(c) => ActionModel::Launch(c@),
        }
    }
}

/// The entry point's state machine: a parsed intent and one draw determine
/// the terminal action. Usage error, help and version pass straight through;
/// a rejecting draw ends the run; an accepting one succeeds quietly when no
/// command was given and otherwise launches it.
pub open spec fn select_spec(intent: IntentModel, draw: int) -> ActionModel {
    match intent {
        IntentModel::UsageError => ActionModel::UsageErrorExit,
        IntentModel::Help => ActionModel::HelpExit,
        IntentModel::Version => ActionModel::VersionExit,
        IntentModel::Proceed(o) => if !accepts(o.chance, draw) {
            ActionModel::RejectExit
        } else {
            match o.command {
                None => ActionModel::SuccessExit,
                Some(c) => ActionModel::Launch(c),
            }
        },
    }
}

/// The exit status each action reports: 0 for help, version and success
/// with nothing to run; 1 for a usage error or a rejecting draw; for a
/// launch, the status used only when the replacement call fails instead of
/// taking the process over.
pub open spec fn exit_code_spec(action: ActionModel) -> int {
    match action {
        ActionModel::UsageErrorExit => 1,
        ActionModel::HelpExit => 0,
        ActionModel::VersionExit => 0,
        ActionModel::RejectExit => 1,
        ActionModel::SuccessExit => 0,
        ActionModel::Launch(_) => 1,
    }
}

/// Select the terminal action for an intent and a given draw. Deterministic,
/// so tests can drive every branch; `run_gate` supplies the random draw.
pub fn select_action(intent: ExitIntent, draw: i32) -> (action: ExitAction)
    requires
        0 <= draw < 100,
    ensures
        action@ == select_spec(intent@, draw as int),
{
    match intent {
        ExitIntent::UsageError => ExitAction::UsageErrorExit,
        ExitIntent::Help => ExitAction::HelpExit,
        ExitIntent::Version => ExitAction::VersionExit,
        ExitIntent::Proceed(o) => {
            let accept = crate::gate::decide(o.chance, draw);
            if !accept {
                ExitAction::RejectExit
            } else {
                match o.command {
                    None => ExitAction::SuccessExit,
                    Some(c) => ExitAction::Launch(c),
                }
            }
        },
    }
}

/// Draw once and select the terminal action. The draw is random, so
/// the action is pinned only up to it: some draw in [0, 100) explains the
/// action, a chance clamping to 0 is certain rejection, one clamping to 100
/// certain acceptance, and randomness is consulted only on the proceed path.
pub fn run_gate(intent: ExitIntent) -> (action: ExitAction)
    ensures
        exists|draw: int| 0 <= draw < 100 && action@ == select_spec(intent@, draw),
        (intent@ matches IntentModel::Proceed(o) && clamped(o.chance) == 0) ==> action@
            is RejectExit,
        (intent@ matches IntentModel::Proceed(o) && clamped(o.chance) == 100) ==> !(action@
            is RejectExit),
        !(intent@ is Proceed) ==> action@ == select_spec(intent@, 0),
{
    match intent {
        ExitIntent::UsageError => {
            proof {
                assert(ExitAction::UsageErrorExit@ == select_spec(intent@, 0));
            }
            ExitAction::UsageErrorExit
        },
        ExitIntent::Help => {
            proof {
                assert(ExitAction::HelpExit@ == select_spec(intent@, 0));
            }
            ExitAction::HelpExit
        },
        ExitIntent::Version => {
            proof {
                assert(ExitAction::VersionExit@ == select_spec(intent@, 0));
            }
            ExitAction::VersionExit
        },
        ExitIntent::Proceed(o) => {
            let accept = gate_accepts(o.chance);
            let ghost d: int = choose|d: int| 0 <= d < 100 && accept == accepts(o.chance as int, d);
            let action = if !accept {
                ExitAction::RejectExit
            } else {
                match o.command {
                    None => ExitAction::SuccessExit,
                    Some(c) => ExitAction::Launch(c),
                }
            };
            proof {
                assert(action@ == select_spec(intent@, d));
            }
            action
        },
    }
}

/// The exit status for an action, as `exit_code_spec` assigns it.
pub fn exit_code(action: &ExitAction) -> (code: i32)
    ensures
        code == exit_code_spec(action@),
{
    match action {
        ExitAction::UsageErrorExit => 1,
        ExitAction::HelpExit => 0,
        ExitAction::VersionExit => 0,
        ExitAction::RejectExit => 1,
        ExitAction::SuccessExit => 0,
        ExitAction::Launch(_) => 1,
    }
}

} // verus!
