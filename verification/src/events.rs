//! What the bot does with each event of the Discord gateway.

use vstd::prelude::*;

verus! {

/// The guild whose slash commands the bot sets when a shard connects.
pub const COMMAND_GUILD_ID: u64 = 458035170608545802;

/// An event of the gateway, as far as the bot tells them apart.
#[derive(PartialEq, Eq, Structural, Clone, Copy, Debug)]
pub enum GatewayEvent {
    /// A user used a command or a component.
    InteractionCreate,
    /// A shard connected to the gateway.
    ShardConnected,
    /// Any other event.
    Other,
}

/// The bot's reaction to a gateway event.
#[derive(PartialEq, Eq, Structural, Clone, Copy, Debug)]
pub enum EventPlan {
    /// Route the interaction to its handler.
    HandleInteraction,
    /// Set the bot's slash commands in guild `guild_id`.
    RegisterCommands { guild_id: u64 },
    /// Nothing to do.
    Ignore,
}

/// The reaction to `event`: interactions are handled, a connected shard sets
/// the slash commands of the bot's guild, and anything else is ignored.
pub fn plan_gateway_event(event: GatewayEvent) -> (plan: EventPlan)
    ensures
        event == GatewayEvent::InteractionCreate ==> plan == EventPlan::HandleInteraction,
        event == GatewayEvent::ShardConnected ==> plan == (EventPlan::RegisterCommands {
            guild_id: COMMAND_GUILD_ID,
        }),
        event == GatewayEvent::Other ==> plan == EventPlan::Ignore,
{
    match event {
        GatewayEvent::InteractionCreate => EventPlan::HandleInteraction,
        GatewayEvent::ShardConnected => EventPlan::RegisterCommands { guild_id: COMMAND_GUILD_ID },
        GatewayEvent::Other => EventPlan::Ignore,
    }
}

} // verus!
