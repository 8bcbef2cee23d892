//! The slash commands `ping` and `search`.

use super::{
    application_command_names, application_handlers, Handler, Button, ButtonStyle, CallbackData, CommandOption, CommandOptionValue, CommandSpec, CommandType,
    Component, InteractionKind, InteractionResponse, RowItem,
};
use crate::text::{decimal, decimal_value, lemma_decimal_reads_back, push_decimal, push_str};
use crate::youtube::{discord_label, VideoInfo};
use vstd::prelude::*;
use vstd::string::*;

verus! {

/// The `ping` command.
pub struct Ping(pub CommandSpec);

/// The `search` command.
pub struct Search(pub CommandSpec);

impl Ping {
    /// The command is `ping`, a chat command without options.
    pub open spec fn wf(&self) -> bool {
        &&& self.0.name@ == "ping"@
        &&& self.0.description@ == "Send a ping to MoosicYak servers"@
        &&& self.0.kind == CommandType::ChatInput
        &&& self.0.options@.len() == 0
    }

    pub fn new() -> (res: Ping)
        ensures
            res.wf(),
    {
        Ping(
            CommandSpec {
                name: String::from_str("ping"),
                description: String::from_str("Send a ping to MoosicYak servers"),
                kind: CommandType::ChatInput,
                options: Vec::new(),
            },
        )
    }

    /// The command as registered with Discord.
    pub fn command(&self) -> (res: &CommandSpec)
        ensures
            res == &self.0,
    {
        &self.0
    }

    /// The reply to a use of the command: an ephemeral `Pong!`.
    pub fn execute(&self, interaction: &InteractionKind) -> (res: InteractionResponse)
        requires
            interaction is ApplicationCommand,
        ensures
            res matches InteractionResponse::ChannelMessageWithSource(data) && data.content@
                == "Pong!"@ && data.ephemeral,
    {
        InteractionResponse::ChannelMessageWithSource(
            CallbackData { content: String::from_str("Pong!"), ephemeral: true },
        )
    }
}

/// The message and buttons that present the videos a search found.
pub struct SearchResults {
    pub content: String,
    pub components: Vec<Component>,
}

/// The text that reports a search for `query` that found `count` videos.
pub open spec fn results_text(query: Seq<char>, count: nat) -> Seq<char> {
    "Searched for `"@ + query + "` and found "@ + decimal(count) + " results:"@
}

/// The results text quotes the query exactly as it was typed: 14 characters
/// of `Searched for `, then every character of the query in order, then
/// `` ` and found ``, then the decimal numeral of the count (digits only,
/// reading back as the count), then ` results:`.
pub proof fn lemma_results_text_quotes_query(query: Seq<char>, count: nat)
    ensures
        ({
            let t = results_text(query, count);
            let q = query.len() as int;
            let n = decimal(count).len() as int;
            &&& t.len() == 14 + q + 12 + n + 9
            &&& t.take(14) == "Searched for `"@
            &&& t.subrange(14, 14 + q) == query
            &&& t.subrange(14 + q, 26 + q) == "` and found "@
            &&& n >= 1
            &&& forall|i: int| 26 + q <= i < 26 + q + n ==> '0' <= #[trigger] t[i] <= '9'
            &&& decimal_value(t.subrange(26 + q, 26 + q + n)) == count
            &&& t.skip(26 + q + n) == " results:"@
        }),
{
    reveal_strlit("Searched for `");
    reveal_strlit("` and found ");
    reveal_strlit(" results:");
    lemma_decimal_reads_back(count);
    let t = results_text(query, count);
    let q = query.len() as int;
    let d = decimal(count);
    let n = d.len() as int;
    assert(t.take(14) =~= "Searched for `"@);
    assert(t.subrange(14, 14 + q) =~= query);
    assert(t.subrange(14 + q, 26 + q) =~= "` and found "@);
    assert(t.subrange(26 + q, 26 + q + n) =~= d);
    assert forall|i: int| 26 + q <= i < 26 + q + n implies '0' <= #[trigger] t[i] <= '9' by {
        assert(t[i] == d[i - 26 - q]);
    }
    assert(t.skip(26 + q + n) =~= " results:"@);
}

/// `c` is the row that offers video `v`: one enabled primary button labelled
/// with the video's title and identified by its id.
pub open spec fn is_result_row(c: Component, v: VideoInfo) -> bool {
    &&& c matches Component::ActionRow(items)
    &&& items@.len() == 1
    &&& items@[0] matches RowItem::Button(b)
    &&& b.label == Some(v.title)
    &&& b.custom_id == Some(v.video_id)
    &&& b.style == ButtonStyle::Primary
    &&& !b.disabled
    &&& b.url is None
}

impl Search {
    /// The command is `search`, a chat command with one required string
    /// option `query`.
    pub open spec fn wf(&self) -> bool {
        &&& self.0.name@ == "search"@
        &&& self.0.description@ == "Search for a song to play"@
        &&& self.0.kind == CommandType::ChatInput
        &&& self.0.options@.len() == 1
        &&& self.0.options@[0].name@ == "query"@
        &&& self.0.options@[0].description@ == "song name to search for"@
        &&& self.0.options@[0].required
    }

    pub fn new() -> (res: Search)
        ensures
            res.wf(),
    {
        let mut options: Vec<CommandOption> = Vec::new();
        options.push(
            CommandOption {
                name: String::from_str("query"),
                description: String::from_str("song name to search for"),
                required: true,
            },
        );
        Search(
            CommandSpec {
                name: String::from_str("search"),
                description: String::from_str("Search for a song to play"),
                kind: CommandType::ChatInput,
                options,
            },
        )
    }

    /// The command as registered with Discord.
    pub fn command(&self) -> (res: &CommandSpec)
        ensures
            res == &self.0,
    {
        &self.0
    }

    /// The first reply to a use of the command: an ephemeral `Searching...`.
    pub fn acknowledge(&self, interaction: &InteractionKind) -> (res: InteractionResponse)
        requires
            interaction is ApplicationCommand,
        ensures
            res matches InteractionResponse::ChannelMessageWithSource(data) && data.content@
                == "Searching..."@ && data.ephemeral,
    {
        InteractionResponse::ChannelMessageWithSource(
            CallbackData { content: String::from_str("Searching..."), ephemeral: true },
        )
    }

    /// Whether the first option holds a string, as `query` asks; `options`
    /// must not be empty.
    pub fn has_query(options: &Vec<CommandOptionValue>) -> (res: bool)
        requires
            options.len() > 0,
        ensures
            res == (options@[0] is String),
    {
        match &options[0] {
            CommandOptionValue::String(_) => true,
            CommandOptionValue::Other => false,
        }
    }

    /// The text to search for: the value of the first option, which must be
    /// a string.
    pub fn query(options: &Vec<CommandOptionValue>) -> (res: String)
        requires
            options.len() > 0,
            options@[0] is String,
        ensures
            options@[0] matches CommandOptionValue::String(q) && res == q,
    {
        match &options[0] {
            CommandOptionValue::String(q) => q.clone(),
            CommandOptionValue::Other => {
                assert(false);
                String::new()
            },
        }
    }

    /// The videos a search found, each titled with its Discord label.
    pub fn relabel(found: &Vec<VideoInfo>) -> (res: Vec<VideoInfo>)
        ensures
            res.len() == found.len(),
            forall|i: int|
                0 <= i < found.len() ==> #[trigger] res@[i].title@ == discord_label(
                    found@[i].length as int,
                    found@[i].title@,
                ) && res@[i].video_id == found@[i].video_id && res@[i].length == found@[i].length,
    {
        let mut res: Vec<VideoInfo> = Vec::new();
        let mut i: usize = 0;
        while i < found.len()
            invariant
                i <= found.len(),
                res.len() == i,
                forall|k: int|
                    0 <= k < i ==> #[trigger] res@[k].title@ == discord_label(
                        found@[k].length as int,
                        found@[k].title@,
                    ) && res@[k].video_id == found@[k].video_id && res@[k].length
                        == found@[k].length,
            decreases found.len() - i,
        {
            let v = &found[i];
            res.push(
                VideoInfo {
                    title: v.get_discord_interaction_str(),
                    video_id: v.video_id.clone(),
                    length: v.length,
                },
            );
            i = i + 1;
        }
        res
    }

    /// The message that presents the videos found for `query`: its text, and
    /// one row per video, in order, holding that video's button.
    pub fn results_message(query: &String, videos: &Vec<VideoInfo>) -> (res: SearchResults)
        ensures
            res.content@ == results_text(query@, videos.len() as nat),
            res.components.len() == videos.len(),
            forall|i: int|
                0 <= i < videos.len() ==> is_result_row(
                    #[trigger] res.components@[i],
                    videos@[i],
                ),
    {
        let mut components: Vec<Component> = Vec::new();
        let mut i: usize = 0;
        while i < videos.len()
            invariant
                i <= videos.len(),
                components.len() == i,
                forall|k: int|
                    0 <= k < i ==> is_result_row(#[trigger] components@[k], videos@[k]),
            decreases videos.len() - i,
        {
            let v = &videos[i];
            let mut items: Vec<RowItem> = Vec::new();
            items.push(
                RowItem::Button(
                    Button {
                        custom_id: Some(v.video_id.clone()),
                        label: Some(v.title.clone()),
                        style: ButtonStyle::Primary,
                        disabled: false,
                        url: None,
                    },
                ),
            );
            components.push(Component::ActionRow(items));
            i = i + 1;
        }
        let mut content = String::from_str("Searched for `");
        push_str(&mut content, query.as_str());
        push_str(&mut content, "` and found ");
        push_decimal(&mut content, videos.len() as u64);
        push_str(&mut content, " results:");
        SearchResults { content, components }
    }
}

/// A registered slash command.
pub enum ApplicationCommand {
    Ping(Ping),
    Search(Search),
}

impl ApplicationCommand {
    /// The command as registered with Discord.
    pub fn command(&self) -> (res: &CommandSpec)
        ensures
            res == match self {
                ApplicationCommand::Ping(p) => &p.0,
                ApplicationCommand::Search(s) => &s.0,
            },
    {
        match self {
            ApplicationCommand::Ping(p) => &p.0,
            ApplicationCommand::Search(s) => &s.0,
        }
    }

    /// The handler that executes the command.
    pub open spec fn spec_handler(&self) -> Handler {
        match self {
            ApplicationCommand::Ping(_) => Handler::Ping,
            ApplicationCommand::Search(_) => Handler::SearchCommand,
        }
    }

    /// The handler that executes the command.
    pub fn handler(&self) -> (res: Handler)
        ensures
            res == self.spec_handler(),
    {
        match self {
            ApplicationCommand::Ping(_) => Handler::Ping,
            ApplicationCommand::Search(_) => Handler::SearchCommand,
        }
    }

    /// The command's name.
    pub open spec fn spec_name(&self) -> Seq<char> {
        match self {
            ApplicationCommand::Ping(p) => p.0.name@,
            ApplicationCommand::Search(s) => s.0.name@,
        }
    }
}

/// Every slash command of the bot, in registration order.
pub fn get_application_commands() -> (res: Vec<ApplicationCommand>)
    ensures
        res.len() == application_command_names().len(),
        forall|i: int|
            0 <= i < res.len() ==> #[trigger] res@[i].spec_name() == application_command_names()[i]
                && res@[i].spec_handler() == application_handlers()[i],
        res@[0] matches ApplicationCommand::Ping(p) && p.wf(),
        res@[1] matches ApplicationCommand::Search(s) && s.wf(),
{
    let mut res: Vec<ApplicationCommand> = Vec::new();
    res.push(ApplicationCommand::Ping(Ping::new()));
    res.push(ApplicationCommand::Search(Search::new()));
    assert(res@[0].spec_name() == application_command_names()[0]);
    res
}


} // verus!
