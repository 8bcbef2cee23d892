use moosicyak::commands::application::{get_application_commands, Ping, Search};
use moosicyak::commands::message::{
    can_select, check_voice_channels, find_matching_button, get_message_components,
    matched_label, select_video, Clicker, queued_text, refusal_text, rows_are_readable,
    selection_feedback, watch_url, Refusal,
};
use moosicyak::commands::ping::{create_handler, execute, get_command};
use moosicyak::commands::{
    handle_interaction, routing_failure, Button, ButtonStyle,
    CommandOptionValue, CommandType, Component, Handler, InteractionKind, InteractionResponse,
    RouteError, RowItem,
};
use moosicyak::youtube::VideoInfo;

fn command(name: &str) -> InteractionKind {
    InteractionKind::ApplicationCommand { name: name.to_string() }
}

fn button(id: Option<&str>, label: Option<&str>) -> Button {
    Button {
        custom_id: id.map(|s| s.to_string()),
        label: label.map(|s| s.to_string()),
        style: ButtonStyle::Primary,
        disabled: false,
        url: None,
    }
}

fn row(id: &str) -> Component {
    Component::ActionRow(vec![RowItem::Button(button(Some(id), Some(id)))])
}

fn content(r: &InteractionResponse) -> (&str, bool, bool) {
    match r {
        InteractionResponse::ChannelMessageWithSource(d) => (d.content.as_str(), d.ephemeral, true),
        InteractionResponse::UpdateMessage(d) => (d.content.as_str(), d.ephemeral, false),
    }
}

#[test]
fn registered_commands() {
    let commands = get_application_commands();
    assert_eq!(commands.len(), 2);
    let ping = commands[0].command();
    assert_eq!(ping.name, "ping");
    assert_eq!(ping.description, "Send a ping to MoosicYak servers");
    assert_eq!(ping.kind, CommandType::ChatInput);
    assert!(ping.options.is_empty());
    let search = commands[1].command();
    assert_eq!(search.name, "search");
    assert_eq!(search.description, "Search for a song to play");
    assert_eq!(search.options.len(), 1);
    assert_eq!(search.options[0].name, "query");
    assert_eq!(search.options[0].description, "song name to search for");
    assert!(search.options[0].required);
    assert_eq!(commands[0].handler(), Handler::Ping);
    assert_eq!(commands[1].handler(), Handler::SearchCommand);
}

#[test]
fn registered_components() {
    let components = get_message_components();
    assert_eq!(components.len(), 1);
    assert_eq!(components[0].component().name, "search");
}

#[test]
fn commands_route_to_their_handlers() {
    assert_eq!(routing_failure(&command("ping")), None);
    assert_eq!(handle_interaction(&command("ping")), Handler::Ping);
    assert_eq!(routing_failure(&command("search")), None);
    assert_eq!(handle_interaction(&command("search")), Handler::SearchCommand);
    assert_eq!(routing_failure(&command("play")), Some(RouteError::UnknownCommand));
    assert_eq!(routing_failure(&command("Ping")), Some(RouteError::UnknownCommand));
}

#[test]
fn components_route_by_origin() {
    let from_search = InteractionKind::MessageComponent { origin: Some("search".to_string()) };
    assert_eq!(routing_failure(&from_search), None);
    assert_eq!(handle_interaction(&from_search), Handler::SearchSelection);
    let from_ping = InteractionKind::MessageComponent { origin: Some("ping".to_string()) };
    assert_eq!(routing_failure(&from_ping), Some(RouteError::UnknownComponent));
    let unknown = InteractionKind::MessageComponent { origin: None };
    assert_eq!(routing_failure(&unknown), Some(RouteError::MissingOrigin));
    assert_eq!(routing_failure(&InteractionKind::Other), Some(RouteError::Unsupported));
}

#[test]
fn ping_answers_pong() {
    let ping = Ping::new();
    assert_eq!(content(&ping.execute(&command("ping"))), ("Pong!", true, true));
    assert_eq!(content(&execute(&command("ping"))), ("Pong!", true, true));
}

#[test]
fn ping_handler_record() {
    let handler = create_handler();
    assert_eq!(handler.name, "ping");
    assert_eq!(handler.command.name, "ping");
    assert_eq!(handler.command.description, "Send a ping to MoosicYak servers");
    assert_eq!(handler.handler, Handler::Ping);
    assert_eq!(get_command().name, "ping");
}

#[test]
fn search_acknowledges_first() {
    let search = Search::new();
    assert_eq!(content(&search.acknowledge(&command("search"))), ("Searching...", true, true));
}

#[test]
fn search_query_is_the_first_string_option() {
    let opts = vec![CommandOptionValue::String("never gonna".to_string())];
    assert!(Search::has_query(&opts));
    assert_eq!(Search::query(&opts), "never gonna".to_string());
    let opts = vec![CommandOptionValue::Other, CommandOptionValue::String("x".to_string())];
    assert!(!Search::has_query(&opts));
}

#[test]
fn search_results_are_relabelled_and_offered_as_buttons() {
    let found = vec![
        VideoInfo { title: "Song ♪".to_string(), video_id: "aaa".to_string(), length: 125 },
        VideoInfo { title: "Other".to_string(), video_id: "bbb".to_string(), length: 7 },
    ];
    let relabelled = Search::relabel(&found);
    assert_eq!(relabelled[0].title, "(2:05) Song ");
    assert_eq!(relabelled[1].title, "(0:07) Other");
    assert_eq!(relabelled[1].video_id, "bbb");
    let results = Search::results_message(&"q".to_string(), &relabelled);
    assert_eq!(results.content, "Searched for `q` and found 2 results:");
    assert_eq!(results.components.len(), 2);
    match &results.components[1] {
        Component::ActionRow(items) => {
            assert_eq!(items.len(), 1);
            match &items[0] {
                RowItem::Button(b) => {
                    assert_eq!(b.label.as_deref(), Some("(0:07) Other"));
                    assert_eq!(b.custom_id.as_deref(), Some("bbb"));
                    assert_eq!(b.style, ButtonStyle::Primary);
                    assert!(!b.disabled);
                    assert!(b.url.is_none());
                }
                RowItem::Other => panic!("expected a button"),
            }
        }
        _ => panic!("expected an action row"),
    }
    let id = "bbb".to_string();
    assert!(rows_are_readable(&results.components, &id));
    assert_eq!(find_matching_button(&results.components, &id), Some(1));
}

#[test]
fn empty_search_reports_zero_results() {
    let results = Search::results_message(&"nothing".to_string(), &vec![]);
    assert_eq!(results.content, "Searched for `nothing` and found 0 results:");
    assert!(results.components.is_empty());
}

#[test]
fn clicked_button_is_the_first_matching_row() {
    let id = "x".to_string();
    let comps = vec![
        Component::Button(button(Some("x"), None)),
        Component::ActionRow(vec![RowItem::Other, RowItem::Button(button(Some("x"), None))]),
        Component::ActionRow(vec![RowItem::Button(button(None, None))]),
        row("y"),
        row("x"),
        row("x"),
    ];
    assert!(rows_are_readable(&comps, &id));
    assert_eq!(find_matching_button(&comps, &id), Some(4));
    let missing = "z".to_string();
    assert_eq!(find_matching_button(&comps, &missing), None);
}

#[test]
fn empty_row_before_the_hit_is_not_readable() {
    let id = "x".to_string();
    let comps = vec![Component::ActionRow(vec![]), row("x")];
    assert!(!rows_are_readable(&comps, &id));
    let after = vec![row("x"), Component::ActionRow(vec![])];
    assert!(rows_are_readable(&after, &id));
    assert_eq!(find_matching_button(&after, &id), Some(0));
}

#[test]
fn voice_channel_rules() {
    assert_eq!(check_voice_channels(None, None), Err(Refusal::NotInVoiceChannel));
    assert_eq!(check_voice_channels(None, Some(3)), Err(Refusal::NotInVoiceChannel));
    assert_eq!(check_voice_channels(Some(Some(7)), None), Ok(7));
    assert_eq!(check_voice_channels(Some(Some(7)), Some(7)), Ok(7));
    assert_eq!(check_voice_channels(Some(Some(7)), Some(8)), Err(Refusal::NotWithBot));
}

#[test]
fn refusal_texts() {
    assert_eq!(
        refusal_text(Refusal::ButtonNotFound, "abc", "[]"),
        "Did not find corresponding button for id abc, []"
    );
    assert_eq!(
        refusal_text(Refusal::NotInVoiceChannel, "abc", "[]"),
        "You must join a voice channel to do this!"
    );
    assert_eq!(
        refusal_text(Refusal::NotWithBot, "abc", "[]"),
        "You must be in the same channel as the bot for this to work!"
    );
    assert_eq!(queued_text(), "Added song to queue!");
}

#[test]
fn selection_feedback_texts() {
    let ok: Result<String, String> = Ok("Added song to queue!".to_string());
    assert_eq!(content(&selection_feedback(&ok)), ("✅ Success: Added song to queue!", false, false));
    let err: Result<String, String> = Err("nope".to_string());
    assert_eq!(content(&selection_feedback(&err)), ("❌ Failed: nope", false, false));
}

#[test]
fn watch_url_is_parsed() {
    assert_eq!(
        watch_url("dQw4w9WgXcQ").map_err(|_| ()),
        Ok("https://www.youtube.com/watch?v=dQw4w9WgXcQ".to_string())
    );
    assert_eq!(
        watch_url("a b").map_err(|_| ()),
        Ok("https://www.youtube.com/watch?v=a%20b".to_string())
    );
}

#[test]
fn label_of_the_matched_row() {
    let comps = vec![
        row("a"),
        Component::ActionRow(vec![RowItem::Button(button(Some("b"), None))]),
        Component::ActionRow(vec![RowItem::Other]),
    ];
    assert_eq!(matched_label(&comps, 0), Some("a".to_string()));
    assert_eq!(matched_label(&comps, 1), None);
    assert_eq!(matched_label(&comps, 2), None);
}

#[test]
fn selection_looks_up_the_button_then_the_voice_rule() {
    let id = "x".to_string();
    let comps = vec![row("y"), row("x")];
    let in_seven = Clicker::VoiceState(Some(7));
    assert!(can_select(&comps, &id, &in_seven));
    assert_eq!(select_video(&comps, &id, &in_seven, None), Ok(1));
    assert_eq!(select_video(&comps, &id, &in_seven, Some(7)), Ok(1));
    assert_eq!(select_video(&comps, &id, &in_seven, Some(8)), Err(Refusal::NotWithBot));
    assert!(can_select(&comps, &id, &Clicker::NotInVoice));
    assert_eq!(
        select_video(&comps, &id, &Clicker::NotInVoice, Some(8)),
        Err(Refusal::NotInVoiceChannel)
    );
    let missing = "z".to_string();
    assert!(can_select(&comps, &missing, &Clicker::Unknown));
    assert_eq!(
        select_video(&comps, &missing, &Clicker::Unknown, Some(8)),
        Err(Refusal::ButtonNotFound)
    );
}

#[test]
fn selection_needs_a_known_user_with_a_channel_once_a_button_is_hit() {
    let id = "x".to_string();
    let comps = vec![row("x")];
    assert!(!can_select(&comps, &id, &Clicker::Unknown));
    assert!(!can_select(&comps, &id, &Clicker::VoiceState(None)));
    let empty_first = vec![Component::ActionRow(vec![]), row("x")];
    assert!(!can_select(&empty_first, &id, &Clicker::NotInVoice));
}
