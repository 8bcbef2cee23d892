# moosicyak

A Discord music bot. The library (`src/`, verified with Verus) holds its
decisions: the slash commands it registers, the routing of interactions to
handlers, the search result message with one button per video, the button a
click selects and the voice-channel rule for queueing, the texts of its
replies, the button labels of videos, the `yt-dlp` command line and the
parsing of the downloaded file's name, the per-guild worker registry and the
gateway event plan.

`app/` is the program around it: configuration file, Discord gateway and
HTTP client, voice-state cache, `yt-dlp` processes and guild worker tasks.
