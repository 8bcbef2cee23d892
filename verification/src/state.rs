//! The bot's configuration, the per-guild worker registry, and the decision
//! each guild worker takes on what its queue hands it.

use std::collections::HashMap;
use vstd::prelude::*;
use vstd::string::*;

verus! {

/// Discord credentials. `app_id` is never zero (see `DiscordConfig::new`).
pub struct DiscordConfig {
    pub token: String,
    pub app_id: u64,
}

/// Where `yt-dlp` lives and where it puts downloaded audio.
pub struct YoutubeConfig {
    pub yt_dlp_path: String,
    pub audio_download_path: String,
}

/// The whole configuration file.
pub struct ApplicationConfig {
    pub discord: DiscordConfig,
    pub youtube: YoutubeConfig,
}

impl DiscordConfig {
    /// A configuration holds a usable application id.
    pub open spec fn wf(&self) -> bool {
        self.app_id != 0
    }

    /// Credentials from a token and an application id; `None` for the
    /// id zero, which no application has.
    pub fn new(token: String, app_id: u64) -> (res: Option<DiscordConfig>)
        ensures
            app_id == 0 <==> res is None,
            res matches Some(c) ==> c.token@ == token@ && c.app_id == app_id && c.wf(),
    {
        if app_id == 0 {
            None
        } else {
            Some(DiscordConfig { token, app_id })
        }
    }

    /// The user id under which the bot itself appears in a guild: the
    /// application id.
    pub fn bot_user_id(&self) -> (id: u64)
        requires
            self.wf(),
        ensures
            id == self.app_id,
            id != 0,
    {
        self.app_id
    }
}

impl YoutubeConfig {
    /// Fixed paths: `yt-dlp` from an Anaconda installation, audio
    /// written to shared memory.
    pub fn builtin() -> (res: YoutubeConfig)
        ensures
            res.yt_dlp_path@ == "/data/samyakg/anaconda3/bin/yt-dlp"@,
            res.audio_download_path@ == "/dev/shm"@,
    {
        YoutubeConfig {
            yt_dlp_path: String::from_str("/data/samyakg/anaconda3/bin/yt-dlp"),
            audio_download_path: String::from_str("/dev/shm"),
        }
    }
}

/// The channel a guild worker looks up for each video it receives.
pub const WORKER_CHANNEL_ID: u64 = 458035170608545806;

/// What a guild worker does next.
pub enum WorkerAction {
    /// A video arrived: announce it and fetch the worker's channel.
    FetchChannel { channel_id: u64 },
    /// The queue closed: stop.
    Stop,
}

/// The worker's reaction to one receive: `true` when a video arrived,
/// `false` when every sender is gone.
pub open spec fn worker_decision(received_video: bool) -> WorkerAction {
    if received_video {
        WorkerAction::FetchChannel { channel_id: WORKER_CHANNEL_ID }
    } else {
        WorkerAction::Stop
    }
}

/// The actions of a worker over a run of receives: one action per receive,
/// up to and including the first `Stop`, after which the worker is gone.
pub open spec fn worker_run(received: Seq<bool>) -> Seq<WorkerAction>
    decreases received.len(),
{
    if received.len() == 0 {
        Seq::empty()
    } else if worker_decision(received[0]) == WorkerAction::Stop {
        seq![WorkerAction::Stop]
    } else {
        seq![worker_decision(received[0])] + worker_run(received.drop_first())
    }
}

/// The worker's decision on what its queue handed it: `true` when a video
/// arrived, `false` when every sender is gone.
pub fn worker_step(received_video: bool) -> (action: WorkerAction)
    ensures
        action == worker_decision(received_video),
{
    if received_video {
        WorkerAction::FetchChannel { channel_id: WORKER_CHANNEL_ID }
    } else {
        WorkerAction::Stop
    }
}

/// A worker that receives `k` videos and then finds its queue closed (what
/// would follow is never received) fetches the worker channel `k` times,
/// once per video, and then stops.
pub proof fn lemma_worker_run(k: nat, rest: Seq<bool>)
    ensures
        worker_run(Seq::new(k, |i: int| true).push(false) + rest) == Seq::new(
            k,
            |i: int| WorkerAction::FetchChannel { channel_id: WORKER_CHANNEL_ID },
        ).push(WorkerAction::Stop),
    decreases k,
{
    let events = Seq::new(k, |i: int| true).push(false) + rest;
    if k == 0 {
        assert(events[0] == false);
        assert(Seq::new(0, |i: int| WorkerAction::FetchChannel { channel_id: WORKER_CHANNEL_ID }).push(
            WorkerAction::Stop,
        ) =~= seq![WorkerAction::Stop]);
    } else {
        let k1 = (k - 1) as nat;
        lemma_worker_run(k1, rest);
        assert(events[0] == true);
        assert(events.drop_first() =~= Seq::new(k1, |i: int| true).push(false) + rest);
        assert(Seq::new(k, |i: int| WorkerAction::FetchChannel { channel_id: WORKER_CHANNEL_ID }).push(
            WorkerAction::Stop,
        ) =~= seq![WorkerAction::FetchChannel { channel_id: WORKER_CHANNEL_ID }] + Seq::new(
            k1,
            |i: int| WorkerAction::FetchChannel { channel_id: WORKER_CHANNEL_ID },
        ).push(WorkerAction::Stop));
    }
}

/// The worker state of each guild that has queued a video, keyed by guild id.
pub struct GuildRegistry<S> {
    guilds: HashMap<u64, S>,
}

impl<S> GuildRegistry<S> {
    /// The registered state of each guild.
    pub closed spec fn view(&self) -> Map<u64, S> {
        self.guilds@
    }

    /// A registry with no guild.
    pub fn new() -> (res: Self)
        ensures
            res.view() == Map::<u64, S>::empty(),
    {
        GuildRegistry { guilds: HashMap::new() }
    }

    /// Whether `guild_id` has a worker.
    pub fn contains(&self, guild_id: u64) -> (res: bool)
        ensures
            res == self.view().contains_key(guild_id),
    {
        broadcast use vstd::std_specs::hash::group_hash_axioms;
        self.guilds.contains_key(&guild_id)
    }

    /// The worker state of `guild_id`, if it has one.
    pub fn get(&self, guild_id: u64) -> (res: Option<&S>)
        ensures
            self.view().contains_key(guild_id) ==> res == Some(&self.view()[guild_id]),
            !self.view().contains_key(guild_id) ==> res is None,
    {
        broadcast use vstd::std_specs::hash::group_hash_axioms;
        self.guilds.get(&guild_id)
    }

    /// Makes sure `guild_id` has a worker: a guild that has one keeps it,
    /// and `make` is called only for a guild that has none.
    pub fn ensure_guild<F: FnOnce() -> S>(&mut self, guild_id: u64, make: F)
        requires
            make.requires(()),
        ensures
            final(self).view().contains_key(guild_id),
            old(self).view().contains_key(guild_id) ==> final(self).view() == old(self).view(),
            !old(self).view().contains_key(guild_id) ==> exists|s: S|
                make.ensures((), s) && final(self).view() == old(self).view().insert(guild_id, s),
    {
        broadcast use vstd::std_specs::hash::group_hash_axioms;
        if !self.guilds.contains_key(&guild_id) {
            let s = make();
            self.guilds.insert(guild_id, s);
        }
    }
}

} // verus!
