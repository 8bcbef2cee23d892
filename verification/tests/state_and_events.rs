use moosicyak::events::{plan_gateway_event, EventPlan, GatewayEvent, COMMAND_GUILD_ID};
use moosicyak::state::{worker_step, DiscordConfig, GuildRegistry, WorkerAction, WORKER_CHANNEL_ID};

#[test]
fn discord_config_rejects_id_zero() {
    assert!(DiscordConfig::new("t".to_string(), 0).is_none());
    let c = DiscordConfig::new("t".to_string(), 42).unwrap();
    assert_eq!(c.token, "t");
    assert_eq!(c.bot_user_id(), 42);
}

#[test]
fn guild_keeps_its_first_worker() {
    let mut registry: GuildRegistry<u32> = GuildRegistry::new();
    assert!(!registry.contains(1));
    assert_eq!(registry.get(1), None);
    registry.ensure_guild(1, || 10);
    assert_eq!(registry.get(1), Some(&10));
    let mut called = false;
    registry.ensure_guild(1, || {
        called = true;
        20
    });
    assert!(!called);
    assert_eq!(registry.get(1), Some(&10));
    registry.ensure_guild(2, || 30);
    assert_eq!(registry.get(2), Some(&30));
    assert!(registry.contains(1) && registry.contains(2));
}

#[test]
fn worker_fetches_channel_until_queue_closes() {
    assert!(matches!(
        worker_step(true),
        WorkerAction::FetchChannel { channel_id } if channel_id == WORKER_CHANNEL_ID
    ));
    assert_eq!(WORKER_CHANNEL_ID, 458035170608545806);
    assert!(matches!(worker_step(false), WorkerAction::Stop));
}

#[test]
fn gateway_events() {
    assert_eq!(plan_gateway_event(GatewayEvent::InteractionCreate), EventPlan::HandleInteraction);
    assert_eq!(
        plan_gateway_event(GatewayEvent::ShardConnected),
        EventPlan::RegisterCommands { guild_id: 458035170608545802 }
    );
    assert_eq!(COMMAND_GUILD_ID, 458035170608545802);
    assert_eq!(plan_gateway_event(GatewayEvent::Other), EventPlan::Ignore);
}

#[test]
fn worker_run_fetches_once_per_video_then_stops() {
    let mut fetches = 0;
    for received in [true, true, true, false, true] {
        match worker_step(received) {
            WorkerAction::FetchChannel { channel_id } => {
                assert_eq!(channel_id, WORKER_CHANNEL_ID);
                fetches += 1;
            }
            WorkerAction::Stop => break,
        }
    }
    assert_eq!(fetches, 3);
}
