//! The message components the bot registers, and the buttons of a search
//! result message: which video a click selects, whether the user may queue
//! it, and the reply that reports the outcome.

use super::{
    application::is_result_row, message_component_names, message_handlers, CallbackData,
    Component, Handler, InteractionResponse, RowItem,
};
use crate::text::push_str;
use crate::youtube::VideoInfo;
use vstd::prelude::*;
use vstd::string::*;

verus! {

/// A message component that the bot handles, named after the interaction
/// that creates the messages it appears on.
pub struct MessageComponent {
    pub name: String,
}

/// A registered message component.
pub enum MessageComponentHandler {
    Search(Search),
}

impl MessageComponentHandler {
    /// The component's description.
    pub fn component(&self) -> (res: &MessageComponent)
        ensures
            res == match self {
                MessageComponentHandler::Search(s) => &s.0,
            },
    {
        match self {
            MessageComponentHandler::Search(s) => &s.0,
        }
    }

    /// The component's name.
    pub open spec fn spec_name(&self) -> Seq<char> {
        match self {
            MessageComponentHandler::Search(s) => s.0.name@,
        }
    }

    /// The handler that executes the component.
    pub open spec fn spec_handler(&self) -> Handler {
        match self {
            MessageComponentHandler::Search(_) => Handler::SearchSelection,
        }
    }
}

/// Every message component of the bot, in registration order.
pub fn get_message_components() -> (res: Vec<MessageComponentHandler>)
    ensures
        res.len() == message_component_names().len(),
        forall|i: int|
            0 <= i < res.len() ==> #[trigger] res@[i].spec_name() == message_component_names()[i]
                && res@[i].spec_handler() == message_handlers()[i],
{
    let mut res: Vec<MessageComponentHandler> = Vec::new();
    res.push(MessageComponentHandler::Search(Search::new()));
    res
}


/// The component that handles clicks on search results.
pub struct Search(pub MessageComponent);

impl Search {
    /// The component named `search`, after the command whose messages carry
    /// its buttons.
    pub fn new() -> (res: Search)
        ensures
            res.0.name@ == "search"@,
    {
        Search(MessageComponent { name: String::from_str("search") })
    }

    /// The component's description.
    pub fn component(&self) -> (res: &MessageComponent)
        ensures
            res == &self.0,
    {
        &self.0
    }
}

/// `c` is an action row whose first item is a button with custom id `id`.
pub open spec fn row_hits(c: Component, id: Seq<char>) -> bool {
    &&& c matches Component::ActionRow(items)
    &&& items@.len() > 0
    &&& items@[0] matches RowItem::Button(b)
    &&& b.custom_id matches Some(cid)
    &&& cid@ == id
}

/// Index of the first component of `comps` that is a row hit by `id`.
pub open spec fn first_hit(comps: Seq<Component>, id: Seq<char>) -> Option<int>
    decreases comps.len(),
{
    if comps.len() == 0 {
        None
    } else if row_hits(comps[0], id) {
        Some(0)
    } else {
        match first_hit(comps.drop_first(), id) {
            Some(i) => Some(i + 1),
            None => None,
        }
    }
}

/// Every action row met before the first hit has an item: the search
/// reads the first item of each row it passes.
pub open spec fn rows_readable(comps: Seq<Component>, id: Seq<char>) -> bool {
    forall|i: int|
        0 <= i < comps.len() && (forall|j: int| 0 <= j < i ==> !row_hits(#[trigger] comps[j], id))
            ==> (#[trigger] comps[i] matches Component::ActionRow(items) ==> items@.len() > 0)
}

proof fn lemma_first_hit_is(comps: Seq<Component>, id: Seq<char>, i: int)
    requires
        0 <= i < comps.len(),
        row_hits(comps[i], id),
        forall|j: int| 0 <= j < i ==> !row_hits(#[trigger] comps[j], id),
    ensures
        first_hit(comps, id) == Some(i),
    decreases i,
{
    if i > 0 {
        assert forall|j: int| 0 <= j < i - 1 implies !row_hits(
            #[trigger] comps.drop_first()[j],
            id,
        ) by {
            assert(comps.drop_first()[j] == comps[j + 1]);
        }
        lemma_first_hit_is(comps.drop_first(), id, i - 1);
    }
}

proof fn lemma_first_hit_none(comps: Seq<Component>, id: Seq<char>)
    requires
        forall|j: int| 0 <= j < comps.len() ==> !row_hits(#[trigger] comps[j], id),
    ensures
        first_hit(comps, id) is None,
    decreases comps.len(),
{
    if comps.len() > 0 {
        assert forall|j: int| 0 <= j < comps.len() - 1 implies !row_hits(
            #[trigger] comps.drop_first()[j],
            id,
        ) by {
            assert(comps.drop_first()[j] == comps[j + 1]);
        }
        lemma_first_hit_none(comps.drop_first(), id);
    }
}

/// The row of the button that was clicked: the first action row whose
/// first item is a button with the clicked custom id.
pub fn find_matching_button(components: &Vec<Component>, custom_id: &String) -> (res: Option<
    usize,
>)
    requires
        rows_readable(components@, custom_id@),
    ensures
        res matches Some(i) ==> i < components.len() && first_hit(components@, custom_id@) == Some(
            i as int,
        ),
        res is None ==> first_hit(components@, custom_id@) is None,
        res == match first_hit(components@, custom_id@) {
            Some(i) => Some(i as usize),
            None => None::<usize>,
        },
{
    let mut i: usize = 0;
    while i < components.len()
        invariant
            i <= components.len(),
            rows_readable(components@, custom_id@),
            forall|j: int| 0 <= j < i ==> !row_hits(#[trigger] components@[j], custom_id@),
        decreases components.len() - i,
    {
        let hit = match &components[i] {
            Component::ActionRow(items) => {
                assert(components@[i as int] matches Component::ActionRow(items));
                match &items[0] {
                    RowItem::Button(b) => match &b.custom_id {
                        Some(cid) => *cid == *custom_id,
                        None => false,
                    },
                    RowItem::Other => false,
                }
            },
            _ => false,
        };
        if hit {
            proof {
                lemma_first_hit_is(components@, custom_id@, i as int);
            }
            return Some(i);
        }
        i = i + 1;
    }
    proof {
        lemma_first_hit_none(components@, custom_id@);
    }
    None
}

/// Whether `rows_readable` holds: no empty action row comes before the
/// first row hit by `custom_id`.
pub fn rows_are_readable(components: &Vec<Component>, custom_id: &String) -> (res: bool)
    ensures
        res == rows_readable(components@, custom_id@),
{
    let mut i: usize = 0;
    while i < components.len()
        invariant
            i <= components.len(),
            forall|j: int| 0 <= j < i ==> !row_hits(#[trigger] components@[j], custom_id@),
            forall|j: int|
                0 <= j < i ==> (#[trigger] components@[j] matches Component::ActionRow(items)
                    ==> items@.len() > 0),
        decreases components.len() - i,
    {
        match &components[i] {
            Component::ActionRow(items) => {
                if items.len() == 0 {
                    return false;
                }
                let hit = match &items[0] {
                    RowItem::Button(b) => match &b.custom_id {
                        Some(cid) => *cid == *custom_id,
                        None => false,
                    },
                    RowItem::Other => false,
                };
                if hit {
                    let ghost h = i as int;
                    assert forall|k: int|
                        0 <= k < components@.len() && (forall|j: int|
                            0 <= j < k ==> !row_hits(#[trigger] components@[j], custom_id@))
                            implies (#[trigger] components@[k] matches Component::ActionRow(items)
                        ==> items@.len() > 0) by {
                        if k > h {
                            assert(!row_hits(components@[h], custom_id@));
                        }
                    }
                    return true;
                }
            },
            _ => {},
        }
        i = i + 1;
    }
    true
}

/// The buttons of a search result message are found again when clicked:
/// a click on the button of video `i` selects the first row offering a
/// video with the same id (the row of video `i` itself when ids are
/// distinct), and the search reads only rows that have a button.
pub proof fn lemma_result_buttons_select_their_video(
    comps: Seq<Component>,
    videos: Seq<VideoInfo>,
    i: int,
)
    requires
        comps.len() == videos.len(),
        forall|k: int| 0 <= k < videos.len() ==> is_result_row(#[trigger] comps[k], videos[k]),
        0 <= i < videos.len(),
    ensures
        rows_readable(comps, videos[i].video_id@),
        first_hit(comps, videos[i].video_id@) matches Some(j) && j <= i
            && videos[j].video_id@ == videos[i].video_id@,
        (forall|a: int, b: int|
            0 <= a < b < videos.len() ==> videos[a].video_id@ != videos[b].video_id@)
            ==> first_hit(comps, videos[i].video_id@) == Some(i),
{
    let id = videos[i].video_id@;
    assert forall|k: int| 0 <= k < comps.len() implies (row_hits(#[trigger] comps[k], id)
        <==> videos[k].video_id@ == id) by {
        assert(is_result_row(comps[k], videos[k]));
    }
    assert forall|k: int|
        0 <= k < comps.len() && (forall|j: int| 0 <= j < k ==> !row_hits(#[trigger] comps[j], id))
            implies (#[trigger] comps[k] matches Component::ActionRow(items) ==> items@.len()
        > 0) by {
        assert(is_result_row(comps[k], videos[k]));
    }
    lemma_first_hit_at_most(comps, id, i);
}

proof fn lemma_first_hit_at_most(comps: Seq<Component>, id: Seq<char>, i: int)
    requires
        0 <= i < comps.len(),
        row_hits(comps[i], id),
    ensures
        first_hit(comps, id) matches Some(j) && 0 <= j <= i && row_hits(comps[j], id),
    decreases i,
{
    if !row_hits(comps[0], id) {
        assert(comps.drop_first()[i - 1] == comps[i]);
        lemma_first_hit_at_most(comps.drop_first(), id, i - 1);
        let j = first_hit(comps.drop_first(), id)->0;
        assert(comps.drop_first()[j] == comps[j + 1]);
    }
}

/// The label of the button that leads the row at `index`, if that row's
/// first item is a button with a label.
pub fn matched_label(components: &Vec<Component>, index: usize) -> (res: Option<String>)
    requires
        index < components.len(),
        components@[index as int] matches Component::ActionRow(items) && items@.len() > 0,
    ensures
        components@[index as int] matches Component::ActionRow(items) && match items@[0] {
            RowItem::Button(b) => res == b.label,
            RowItem::Other => res is None,
        },
{
    match &components[index] {
        Component::ActionRow(items) => match &items[0] {
            RowItem::Button(b) => b.label.clone(),
            RowItem::Other => None,
        },
        _ => None,
    }
}

/// Why a selection was refused.
#[derive(PartialEq, Eq, Structural, Clone, Copy, Debug)]
pub enum Refusal {
    /// The message has no button with the clicked id.
    ButtonNotFound,
    /// The user is in no voice channel of the guild.
    NotInVoiceChannel,
    /// The bot is in another voice channel than the user.
    NotWithBot,
}

/// The voice-channel rule: a user in no voice channel is refused, a user in
/// another channel than the bot is refused, and otherwise the user's
/// channel is given back.
pub open spec fn voice_rule(user_voice: Option<Option<u64>>, bot_channel: Option<u64>) -> Result<
    u64,
    Refusal,
> {
    match user_voice {
        Some(Some(user)) => match bot_channel {
            Some(bot) => if bot != user {
                Err(Refusal::NotWithBot)
            } else {
                Ok(user)
            },
            None => Ok(user),
        },
        _ => Err(Refusal::NotInVoiceChannel),
    }
}

/// Whether a user may queue a song: the user's voice state, if any, with
/// its channel, and the channel the bot is in, if any. The user's channel
/// is returned when the user is in a channel and the bot is either in no
/// channel or in the same one.
pub fn check_voice_channels(user_voice: Option<Option<u64>>, bot_channel: Option<u64>) -> (res:
    Result<u64, Refusal>)
    requires
        user_voice != Some(None::<u64>),
    ensures
        res == voice_rule(user_voice, bot_channel),
{
    let user = match user_voice {
        Some(Some(c)) => c,
        _ => {
            return Err(Refusal::NotInVoiceChannel);
        },
    };
    if let Some(bot) = bot_channel {
        if bot != user {
            return Err(Refusal::NotWithBot);
        }
    }
    Ok(user)
}

/// What is known of the user who clicked.
pub enum Clicker {
    /// The click carries no guild member with a user.
    Unknown,
    /// The user has no voice state in the guild.
    NotInVoice,
    /// The user's voice state, with its channel if it has one.
    VoiceState(Option<u64>),
}

/// The click can be decided: the rows read before the hit have an item, and
/// when a row is hit, the user is known and a voice state has a channel.
pub open spec fn selectable(comps: Seq<Component>, id: Seq<char>, clicker: Clicker) -> bool {
    &&& rows_readable(comps, id)
    &&& first_hit(comps, id) is Some ==> match clicker {
        Clicker::Unknown => false,
        Clicker::NotInVoice => true,
        Clicker::VoiceState(channel) => channel is Some,
    }
}

/// The user's voice state as the voice rule reads it.
pub open spec fn clicker_voice(clicker: Clicker) -> Option<Option<u64>> {
    match clicker {
        Clicker::VoiceState(channel) => Some(channel),
        _ => None,
    }
}

/// The decision on a click: the row of the clicked button, refused when no
/// row holds it, then refused by the voice rule, else accepted.
pub open spec fn selection(
    comps: Seq<Component>,
    id: Seq<char>,
    clicker: Clicker,
    bot_channel: Option<u64>,
) -> Result<int, Refusal> {
    match first_hit(comps, id) {
        None => Err(Refusal::ButtonNotFound),
        Some(i) => match voice_rule(clicker_voice(clicker), bot_channel) {
            Ok(_) => Ok(i),
            Err(r) => Err(r),
        },
    }
}

proof fn lemma_first_hit_hits(comps: Seq<Component>, id: Seq<char>)
    ensures
        first_hit(comps, id) matches Some(i) ==> 0 <= i < comps.len() && row_hits(comps[i], id),
    decreases comps.len(),
{
    if comps.len() > 0 && !row_hits(comps[0], id) {
        lemma_first_hit_hits(comps.drop_first(), id);
        if let Some(j) = first_hit(comps.drop_first(), id) {
            assert(comps.drop_first()[j] == comps[j + 1]);
        }
    }
}

/// Whether `selectable` holds: the test that `select_video` asks for.
pub fn can_select(components: &Vec<Component>, custom_id: &String, clicker: &Clicker) -> (res:
    bool)
    ensures
        res == selectable(components@, custom_id@, *clicker),
{
    if !rows_are_readable(components, custom_id) {
        return false;
    }
    match find_matching_button(components, custom_id) {
        None => true,
        Some(_) => match clicker {
            Clicker::Unknown => false,
            Clicker::NotInVoice => true,
            Clicker::VoiceState(channel) => channel.is_some(),
        },
    }
}

/// Decides a click on a search result: the clicked button is looked up
/// first, then the voice rule is applied; the row of the button to queue
/// is returned when both pass.
pub fn select_video(
    components: &Vec<Component>,
    custom_id: &String,
    clicker: &Clicker,
    bot_channel: Option<u64>,
) -> (res: Result<usize, Refusal>)
    requires
        selectable(components@, custom_id@, *clicker),
    ensures
        res matches Ok(i) ==> i < components.len() && row_hits(components@[i as int], custom_id@),
        match res {
            Ok(i) => selection(components@, custom_id@, *clicker, bot_channel) == Ok::<
                int,
                Refusal,
            >(i as int),
            Err(r) => selection(components@, custom_id@, *clicker, bot_channel) == Err::<
                int,
                Refusal,
            >(r),
        },
{
    let index = match find_matching_button(components, custom_id) {
        None => {
            return Err(Refusal::ButtonNotFound);
        },
        Some(i) => i,
    };
    let user_voice = match clicker {
        Clicker::VoiceState(channel) => Some(*channel),
        _ => None,
    };
    assert(user_voice == clicker_voice(*clicker));
    assert(first_hit(components@, custom_id@) == Some(index as int));
    proof {
        lemma_first_hit_hits(components@, custom_id@);
    }
    match check_voice_channels(user_voice, bot_channel) {
        Ok(_) => Ok(index),
        Err(r) => Err(r),
    }
}

/// The voice-channel rule accepts exactly a user who is in a voice channel
/// while the bot is in no channel or in that same channel, and then gives
/// the user's channel back; a user in no channel is refused as such, and a
/// user in another channel than the bot is refused for that.
pub proof fn lemma_voice_rule_accepts_only_same_channel(
    user_voice: Option<Option<u64>>,
    bot_channel: Option<u64>,
)
    ensures
        voice_rule(user_voice, bot_channel) is Ok <==> (user_voice matches Some(Some(u)) && (
        bot_channel is None || bot_channel == Some(u))),
        voice_rule(user_voice, bot_channel) matches Ok(c) ==> user_voice == Some(Some(c)),
        !(user_voice matches Some(Some(_))) ==> voice_rule(user_voice, bot_channel) == Err::<
            u64,
            Refusal,
        >(Refusal::NotInVoiceChannel),
        (user_voice matches Some(Some(u)) && bot_channel matches Some(b) && b != u) ==> voice_rule(
            user_voice,
            bot_channel,
        ) == Err::<u64, Refusal>(Refusal::NotWithBot),
{
}

/// A click is accepted only on the first row whose leading button carries
/// the clicked id, and only for a user in a voice channel that the bot is
/// not away from. With no such row the click is refused as not found; with
/// one, a user in no voice channel is refused as such whatever the bot
/// does, a user away from the bot is refused for that, and anyone else is
/// accepted.
pub proof fn lemma_selection_law(
    comps: Seq<Component>,
    id: Seq<char>,
    clicker: Clicker,
    bot_channel: Option<u64>,
)
    ensures
        selection(comps, id, clicker, bot_channel) matches Ok(i) ==> {
            &&& 0 <= i < comps.len()
            &&& match comps[i] {
                Component::ActionRow(items) => items@.len() > 0 && match items@[0] {
                    RowItem::Button(b) => match b.custom_id {
                        Some(cid) => cid@ == id,
                        None => false,
                    },
                    RowItem::Other => false,
                },
                _ => false,
            }
            &&& forall|j: int| 0 <= j < i ==> !row_hits(#[trigger] comps[j], id)
            &&& match clicker {
                Clicker::VoiceState(Some(u)) => bot_channel is None || bot_channel == Some(u),
                _ => false,
            }
        },
        (forall|j: int| 0 <= j < comps.len() ==> !row_hits(#[trigger] comps[j], id)) ==> selection(
            comps,
            id,
            clicker,
            bot_channel,
        ) == Err::<int, Refusal>(Refusal::ButtonNotFound),
        (exists|j: int| 0 <= j < comps.len() && #[trigger] row_hits(comps[j], id)) ==> {
            &&& !(clicker matches Clicker::VoiceState(Some(_))) ==> selection(
                comps,
                id,
                clicker,
                bot_channel,
            ) == Err::<int, Refusal>(Refusal::NotInVoiceChannel)
            &&& match (clicker, bot_channel) {
                (Clicker::VoiceState(Some(u)), Some(b)) => b != u ==> selection(
                    comps,
                    id,
                    clicker,
                    bot_channel,
                ) == Err::<int, Refusal>(Refusal::NotWithBot),
                _ => true,
            }
            &&& match clicker {
                Clicker::VoiceState(Some(u)) => (bot_channel is None || bot_channel == Some(u))
                    ==> selection(comps, id, clicker, bot_channel) is Ok,
                _ => true,
            }
        },
{
    lemma_first_hit_hits(comps, id);
    lemma_voice_rule_accepts_only_same_channel(clicker_voice(clicker), bot_channel);
    if let Some(i) = first_hit(comps, id) {
        lemma_first_hit_before(comps, id);
    } else {
        if exists|j: int| 0 <= j < comps.len() && #[trigger] row_hits(comps[j], id) {
            let j = choose|j: int| 0 <= j < comps.len() && #[trigger] row_hits(comps[j], id);
            lemma_first_hit_at_most(comps, id, j);
        }
    }
    if forall|j: int| 0 <= j < comps.len() ==> !row_hits(#[trigger] comps[j], id) {
        lemma_first_hit_none(comps, id);
    }
}

proof fn lemma_first_hit_before(comps: Seq<Component>, id: Seq<char>)
    ensures
        first_hit(comps, id) matches Some(i) ==> forall|j: int|
            0 <= j < i ==> !row_hits(#[trigger] comps[j], id),
    decreases comps.len(),
{
    if comps.len() > 0 && !row_hits(comps[0], id) {
        lemma_first_hit_before(comps.drop_first(), id);
        lemma_first_hit_hits(comps.drop_first(), id);
        if let Some(k) = first_hit(comps.drop_first(), id) {
            assert forall|j: int| 0 <= j < k + 1 implies !row_hits(#[trigger] comps[j], id) by {
                if j > 0 {
                    assert(comps[j] == comps.drop_first()[j - 1]);
                }
            }
        }
    }
}

/// The watch URL's text is the fixed page address followed by the video id
/// exactly as given: 32 characters of address, then every character of the
/// id in order.
pub proof fn lemma_watch_text_quotes_id(video_id: Seq<char>)
    ensures
        watch_text(video_id).len() == 32 + video_id.len(),
        watch_text(video_id).take(32) == "https://www.youtube.com/watch?v="@,
        watch_text(video_id).skip(32) == video_id,
        forall|i: int|
            0 <= i < video_id.len() ==> #[trigger] watch_text(video_id)[32 + i] == video_id[i],
{
    reveal_strlit("https://www.youtube.com/watch?v=");
    let t = watch_text(video_id);
    assert(t.take(32) =~= "https://www.youtube.com/watch?v="@);
    assert(t.skip(32) =~= video_id);
}

/// The text that explains a refusal to the user.
pub open spec fn refusal_message(refusal: Refusal, video_id: Seq<char>, components_dump: Seq<
    char,
>) -> Seq<char> {
    match refusal {
        Refusal::ButtonNotFound => "Did not find corresponding button for id "@ + video_id + ", "@
            + components_dump,
        Refusal::NotInVoiceChannel => "You must join a voice channel to do this!"@,
        Refusal::NotWithBot => "You must be in the same channel as the bot for this to work!"@,
    }
}

/// The text that explains `refusal`; `components_dump` is the message's
/// components as their debug listing shows them.
pub fn refusal_text(refusal: Refusal, video_id: &str, components_dump: &str) -> (res: String)
    ensures
        res@ == refusal_message(refusal, video_id@, components_dump@),
{
    match refusal {
        Refusal::ButtonNotFound => {
            let mut s = String::from_str("Did not find corresponding button for id ");
            push_str(&mut s, video_id);
            push_str(&mut s, ", ");
            push_str(&mut s, components_dump);
            s
        },
        Refusal::NotInVoiceChannel => String::from_str("You must join a voice channel to do this!"),
        Refusal::NotWithBot => String::from_str(
            "You must be in the same channel as the bot for this to work!",
        ),
    }
}

/// The text reporting that a song was queued.
pub fn queued_text() -> (res: String)
    ensures
        res@ == "Added song to queue!"@,
{
    String::from_str("Added song to queue!")
}

/// The reply to a click: the search message is replaced by a success or a
/// failure notice carrying the outcome's text.
pub fn selection_feedback(outcome: &Result<String, String>) -> (res: InteractionResponse)
    ensures
        res matches InteractionResponse::UpdateMessage(data) && !data.ephemeral && data.content@
            == match outcome {
            Ok(msg) => "✅ Success: "@ + msg@,
            Err(err) => "❌ Failed: "@ + err@,
        },
{
    let content = match outcome {
        Ok(msg) => {
            let mut s = String::from_str("✅ Success: ");
            push_str(&mut s, msg.as_str());
            s
        },
        Err(err) => {
            let mut s = String::from_str("❌ Failed: ");
            push_str(&mut s, err.as_str());
            s
        },
    };
    InteractionResponse::UpdateMessage(CallbackData { content, ephemeral: false })
}

/// The error of `url::Url::parse`, carried as an opaque value.
#[verifier::external_type_specification]
#[verifier::external_body]
pub struct ExUrlParseError(url::ParseError);

/// What `url::Url::parse` gives for `input`: the serialization of the
/// parsed URL, or the parse error.
pub uninterp spec fn parsed_url(input: Seq<char>) -> Result<Seq<char>, url::ParseError>;

/// Calls `url::Url::parse` and hands back the parsed URL's serialization
/// (`String::from(url)`, the URL's text). Claimed: the outcome is
/// `parsed_url(input)`, a function of the input alone (the parser runs with
/// no base URL and no callback). Which inputs it accepts and how it
/// normalises them is left unsaid.
#[verifier::external_body]
fn parse_url(input: &str) -> (res: Result<String, url::ParseError>)
    ensures
        match res {
            Ok(s) => parsed_url(input@) == Ok::<Seq<char>, url::ParseError>(s@),
            Err(e) => parsed_url(input@) == Err::<Seq<char>, url::ParseError>(e),
        },
{
    url::Url::parse(input).map(String::from)
}

/// The YouTube page of a video.
pub open spec fn watch_text(video_id: Seq<char>) -> Seq<char> {
    "https://www.youtube.com/watch?v="@ + video_id
}

/// The URL of the YouTube page of the video `video_id`, as parsed by the
/// `url` crate.
pub fn watch_url(video_id: &str) -> (res: Result<String, url::ParseError>)
    ensures
        match res {
            Ok(s) => parsed_url(watch_text(video_id@)) == Ok::<Seq<char>, url::ParseError>(s@),
            Err(e) => parsed_url(watch_text(video_id@)) == Err::<Seq<char>, url::ParseError>(e),
        },
{
    let mut text = String::from_str("https://www.youtube.com/watch?v=");
    push_str(&mut text, video_id);
    parse_url(text.as_str())
}

} // verus!
