//! How the program answers the interrupt signals that stop it: the first
//! starts a graceful shutdown, the second warns, the third stops at once.
use vstd::prelude::*;

verus! {

/// What to do on an interrupt signal.
#[derive(Clone, Copy, Debug, PartialEq, Eq, Structural)]
pub enum StopAction {
    /// Stop the background tasks, save the configuration and exit with 0.
    ShutDownGracefully,
    /// Say that one more signal stops the program at once, and keep waiting.
    Warn,
    /// Exit with 1 at once.
    ExitNow,
}

/// The action for the `received`-th interrupt signal, counting from 1.
pub open spec fn stop_action_spec(received: u32) -> StopAction {
    if received == 1 {
        StopAction::ShutDownGracefully
    } else if received == 2 {
        StopAction::Warn
    } else {
        StopAction::ExitNow
    }
}

/// The action for the `received`-th interrupt signal, counting from 1.
pub fn on_stop_signal(received: u32) -> (action: StopAction)
    requires
        received >= 1,
    ensures
        action == stop_action_spec(received),
{
    if received == 1 {
        StopAction::ShutDownGracefully
    } else if received == 2 {
        StopAction::Warn
    } else {
        StopAction::ExitNow
    }
}

/// The exit status that ends the program after an action, if it ends it.
pub fn exit_status(action: StopAction) -> (status: Option<i32>)
    ensures
        status == match action {
            StopAction::ShutDownGracefully => Some(0i32),
            StopAction::Warn => None::<i32>,
            StopAction::ExitNow => Some(1i32),
        },
{
    match action {
        StopAction::ShutDownGracefully => Some(0),
        StopAction::Warn => None,
        StopAction::ExitNow => Some(1),
    }
}

} // verus!
