//! The `ping` command as a handler record: its name, its registration and
//! the handler that answers it.

use super::{application::Ping, CallbackData, CommandSpec, Handler, InteractionKind, InteractionResponse};
use vstd::prelude::*;
use vstd::string::*;

verus! {

/// A command together with the handler that answers it.
pub struct CommandHandler {
    pub name: String,
    pub command: CommandSpec,
    pub handler: Handler,
}

/// The registration of `ping`.
pub fn get_command() -> (res: CommandSpec)
    ensures
        Ping(res).wf(),
{
    Ping::new().0
}

/// The answer to `ping`: an ephemeral `Pong!`.
pub fn execute(interaction: &InteractionKind) -> (res: InteractionResponse)
    requires
        interaction is ApplicationCommand,
    ensures
        res matches InteractionResponse::ChannelMessageWithSource(data) && data.content@
            == "Pong!"@ && data.ephemeral,
{
    InteractionResponse::ChannelMessageWithSource(
        CallbackData { content: String::from_str("Pong!"), ephemeral: true },
    )
}

/// The handler record of `ping`.
pub fn create_handler() -> (res: CommandHandler)
    ensures
        res.name@ == "ping"@,
        Ping(res.command).wf(),
        res.handler == Handler::Ping,
{
    CommandHandler { name: String::from_str("ping"), command: get_command(), handler: Handler::Ping }
}

} // verus!
