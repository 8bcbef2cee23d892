//! The bot's slash commands and message components, the replies it sends,
//! and the routing of an incoming interaction to the handler that owns it.

pub mod application;
pub mod message;
pub mod ping;

use application::{get_application_commands, ApplicationCommand};
use message::{get_message_components, MessageComponentHandler};

use vstd::prelude::*;
use vstd::string::*;

verus! {

/// Kind of a slash command.
#[derive(PartialEq, Eq, Structural, Clone, Copy, Debug)]
pub enum CommandType {
    ChatInput,
}

/// A string option of a slash command.
pub struct CommandOption {
    pub name: String,
    pub description: String,
    pub required: bool,
}

/// A slash command as it is registered with Discord.
pub struct CommandSpec {
    pub name: String,
    pub description: String,
    pub kind: CommandType,
    pub options: Vec<CommandOption>,
}

/// The value given for a command option.
pub enum CommandOptionValue {
    String(String),
    Other,
}

/// The message part of a reply.
pub struct CallbackData {
    pub content: String,
    /// Only the user who triggered the interaction sees the message.
    pub ephemeral: bool,
}

/// A reply to an interaction.
pub enum InteractionResponse {
    /// Answer with a new message.
    ChannelMessageWithSource(CallbackData),
    /// Replace the message the interaction came from.
    UpdateMessage(CallbackData),
}

/// Style of a button.
#[derive(PartialEq, Eq, Structural, Clone, Copy, Debug)]
pub enum ButtonStyle {
    Primary,
    Secondary,
    Success,
    Danger,
    Link,
}

/// A button of a message.
pub struct Button {
    pub custom_id: Option<String>,
    pub label: Option<String>,
    pub style: ButtonStyle,
    pub disabled: bool,
    pub url: Option<String>,
}

/// A component inside an action row: a button, or anything else.
pub enum RowItem {
    Button(Button),
    Other,
}

/// A top-level component of a message.
pub enum Component {
    ActionRow(Vec<RowItem>),
    Button(Button),
    Other,
}

/// An incoming interaction, as far as routing reads it.
pub enum InteractionKind {
    /// A slash command was used; `name` is the command's name.
    ApplicationCommand { name: String },
    /// A component of a message was used; `origin` is the name of the
    /// interaction that created the message, when Discord sends it.
    MessageComponent { origin: Option<String> },
    /// Any other interaction.
    Other,
}

/// The handler an interaction goes to.
#[derive(PartialEq, Eq, Structural, Clone, Copy, Debug)]
pub enum Handler {
    /// The `ping` command.
    Ping,
    /// The `search` command.
    SearchCommand,
    /// A button of a search result message.
    SearchSelection,
}

/// Why an interaction has no handler.
#[derive(PartialEq, Eq, Structural, Clone, Copy, Debug)]
pub enum RouteError {
    /// No registered command has the interaction's name.
    UnknownCommand,
    /// The component's message does not say which interaction created it.
    MissingOrigin,
    /// No registered message component has the origin's name.
    UnknownComponent,
    /// The interaction is neither a command nor a component.
    Unsupported,
}

/// Names of the slash commands, in registration order.
pub open spec fn application_command_names() -> Seq<Seq<char>> {
    seq!["ping"@, "search"@]
}

/// Handlers of the slash commands, in registration order.
pub open spec fn application_handlers() -> Seq<Handler> {
    seq![Handler::Ping, Handler::SearchCommand]
}

/// Names of the message components, in registration order.
pub open spec fn message_component_names() -> Seq<Seq<char>> {
    seq!["search"@]
}

/// Handlers of the message components, in registration order.
pub open spec fn message_handlers() -> Seq<Handler> {
    seq![Handler::SearchSelection]
}

/// Index of the first of `names` equal to `name`.
pub open spec fn first_named(names: Seq<Seq<char>>, name: Seq<char>) -> Option<int>
    decreases names.len(),
{
    if names.len() == 0 {
        None
    } else if names[0] == name {
        Some(0)
    } else {
        match first_named(names.drop_first(), name) {
            Some(i) => Some(i + 1),
            None => None,
        }
    }
}

/// The handler of a slash command named `name`.
pub open spec fn route_command(name: Seq<char>) -> Result<Handler, RouteError> {
    match first_named(application_command_names(), name) {
        Some(i) => Ok(application_handlers()[i]),
        None => Err(RouteError::UnknownCommand),
    }
}

/// The handler of a component whose message came from the interaction
/// named `origin`.
pub open spec fn route_component(origin: Option<Seq<char>>) -> Result<Handler, RouteError> {
    match origin {
        None => Err(RouteError::MissingOrigin),
        Some(name) => match first_named(message_component_names(), name) {
            Some(i) => Ok(message_handlers()[i]),
            None => Err(RouteError::UnknownComponent),
        },
    }
}

/// The handler of an interaction.
pub open spec fn route(interaction: InteractionKind) -> Result<Handler, RouteError> {
    match interaction {
        InteractionKind::ApplicationCommand { name } => route_command(name@),
        InteractionKind::MessageComponent { origin } => route_component(
            match origin {
                Some(o) => Some(o@),
                None => None,
            },
        ),
        InteractionKind::Other => Err(RouteError::Unsupported),
    }
}

/// Index of the first command in `commands` named `name`.
fn find_command(commands: &Vec<ApplicationCommand>, name: &String) -> (res: Option<usize>)
    ensures
        match res {
            Some(i) => i < commands.len() && commands@[i as int].spec_name() == name@ && forall|
                j: int,
            | 0 <= j < i ==> #[trigger] commands@[j].spec_name() != name@,
            None => forall|j: int|
                0 <= j < commands.len() ==> #[trigger] commands@[j].spec_name() != name@,
        },
{
    let mut i: usize = 0;
    while i < commands.len()
        invariant
            i <= commands.len(),
            forall|j: int| 0 <= j < i ==> #[trigger] commands@[j].spec_name() != name@,
        decreases commands.len() - i,
    {
        if commands[i].command().name == *name {
            return Some(i);
        }
        i = i + 1;
    }
    None
}

/// Index of the first component in `components` named `name`.
fn find_component(components: &Vec<MessageComponentHandler>, name: &String) -> (res: Option<
    usize,
>)
    ensures
        match res {
            Some(i) => i < components.len() && components@[i as int].spec_name() == name@
                && forall|j: int| 0 <= j < i ==> #[trigger] components@[j].spec_name() != name@,
            None => forall|j: int|
                0 <= j < components.len() ==> #[trigger] components@[j].spec_name() != name@,
        },
{
    let mut i: usize = 0;
    while i < components.len()
        invariant
            i <= components.len(),
            forall|j: int| 0 <= j < i ==> #[trigger] components@[j].spec_name() != name@,
        decreases components.len() - i,
    {
        if components[i].component().name == *name {
            return Some(i);
        }
        i = i + 1;
    }
    None
}

proof fn lemma_first_named_found(names: Seq<Seq<char>>, name: Seq<char>, i: int)
    requires
        0 <= i < names.len(),
        names[i] == name,
        forall|j: int| 0 <= j < i ==> names[j] != name,
    ensures
        first_named(names, name) == Some(i),
    decreases names.len(),
{
    if i > 0 {
        lemma_first_named_found(names.drop_first(), name, i - 1);
    }
}

proof fn lemma_first_named_absent(names: Seq<Seq<char>>, name: Seq<char>)
    requires
        forall|j: int| 0 <= j < names.len() ==> names[j] != name,
    ensures
        first_named(names, name) is None,
    decreases names.len(),
{
    if names.len() > 0 {
        lemma_first_named_absent(names.drop_first(), name);
    }
}

/// The routing of an interaction, with the reason when it has no handler.
fn resolve_route(interaction: &InteractionKind) -> (res: Result<Handler, RouteError>)
    ensures
        res == route(*interaction),
{
    match interaction {
        InteractionKind::ApplicationCommand { name } => {
            let commands = get_application_commands();
            match find_command(&commands, name) {
                Some(i) => {
                    proof {
                        assert forall|j: int| 0 <= j < i implies application_command_names()[j]
                            != name@ by {
                            assert(commands@[j].spec_name() == application_command_names()[j]);
                        }
                        assert(commands@[i as int].spec_name() == application_command_names()[i as int]);
                        lemma_first_named_found(application_command_names(), name@, i as int);
                    }
                    Ok(commands[i].handler())
                },
                None => {
                    proof {
                        assert forall|j: int| 0 <= j < application_command_names().len() implies
                            application_command_names()[j] != name@ by {
                            assert(commands@[j].spec_name() == application_command_names()[j]);
                        }
                        lemma_first_named_absent(application_command_names(), name@);
                    }
                    Err(RouteError::UnknownCommand)
                },
            }
        },
        InteractionKind::MessageComponent { origin } => match origin {
            None => Err(RouteError::MissingOrigin),
            Some(name) => {
                let components = get_message_components();
                match find_component(&components, name) {
                    Some(i) => {
                        proof {
                            assert forall|j: int| 0 <= j < i implies message_component_names()[j]
                                != name@ by {
                                assert(components@[j].spec_name() == message_component_names()[j]);
                            }
                            assert(components@[i as int].spec_name() == message_component_names()[i as int]);
                            lemma_first_named_found(message_component_names(), name@, i as int);
                        }
                        match &components[i] {
                            MessageComponentHandler::Search(_) => Ok(Handler::SearchSelection),
                        }
                    },
                    None => {
                        proof {
                            assert forall|j: int| 0 <= j < message_component_names().len() implies
                                message_component_names()[j] != name@ by {
                                assert(components@[j].spec_name() == message_component_names()[j]);
                            }
                            lemma_first_named_absent(message_component_names(), name@);
                        }
                        Err(RouteError::UnknownComponent)
                    },
                }
            },
        },
        InteractionKind::Other => Err(RouteError::Unsupported),
    }
}

/// Why `interaction` has no handler, or `None` when it has one: the test
/// that `handle_interaction` asks for.
pub fn routing_failure(interaction: &InteractionKind) -> (res: Option<RouteError>)
    ensures
        res == match route(*interaction) {
            Ok(_) => None::<RouteError>,
            Err(e) => Some(e),
        },
{
    match resolve_route(interaction) {
        Ok(_) => None,
        Err(e) => Some(e),
    }
}

/// The handler an interaction goes to: a slash command to the command of
/// that name, a component to the component named after the interaction
/// that created its message. Only interactions that have a handler are
/// accepted.
pub fn handle_interaction(interaction: &InteractionKind) -> (res: Handler)
    requires
        route(*interaction) is Ok,
    ensures
        route(*interaction) == Ok::<Handler, RouteError>(res),
{
    match resolve_route(interaction) {
        Ok(h) => h,
        Err(_) => {
            assert(false);
            Handler::Ping
        },
    }
}

/// Every slash command and every message component that the bot registers
/// is routed to its own handler.
pub proof fn lemma_registered_names_route_home()
    ensures
        forall|i: int|
            0 <= i < application_command_names().len() ==> route_command(
                #[trigger] application_command_names()[i],
            ) == Ok::<Handler, RouteError>(application_handlers()[i]),
        forall|i: int|
            0 <= i < message_component_names().len() ==> route_component(
                Some(#[trigger] message_component_names()[i]),
            ) == Ok::<Handler, RouteError>(message_handlers()[i]),
{
    reveal_strlit("ping");
    reveal_strlit("search");
    let names = application_command_names();
    assert(names[0] != names[1]) by {
        assert(names[0].len() != names[1].len());
    }
    lemma_first_named_found(names, names[0], 0);
    lemma_first_named_found(names, names[1], 1);
    lemma_first_named_found(message_component_names(), message_component_names()[0], 0);
}

} // verus!
