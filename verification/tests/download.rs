use moosicyak::state::YoutubeConfig;
use moosicyak::youtube::download::{
    destination_failure, download_command, parse_destination, DestinationError,
};

#[test]
fn destination_is_read_from_the_download_line() {
    let out = "[youtube] dQw4w9WgXcQ: Downloading webpage\n[download] Destination: /dev/shm/Rick Astley.webm\n[download] 100% of 3.28MiB\n";
    assert_eq!(destination_failure(out), None);
    assert_eq!(parse_destination(out), "/dev/shm/Rick Astley.webm");
}

#[test]
fn destination_on_last_line_without_newline() {
    assert_eq!(parse_destination("[download] Destination: a.m4a"), "a.m4a");
}

#[test]
fn first_destination_line_wins() {
    let out = "[download] Destination: first.webm\n[download] Destination: second.webm\n";
    assert_eq!(parse_destination(out), "first.webm");
}

#[test]
fn missing_destination_line_is_an_error() {
    assert_eq!(destination_failure(""), Some(DestinationError::NoDestinationLine));
    assert_eq!(
        destination_failure("[youtube] nothing here\n[download] 100%\n"),
        Some(DestinationError::NoDestinationLine)
    );
}

#[test]
fn destination_line_with_other_prefix_is_an_error() {
    let out = "[ExtractAudio] Destination: /dev/shm/a.opus\n[download] Destination: b\n";
    assert_eq!(destination_failure(out), Some(DestinationError::UnexpectedLine));
}

#[test]
fn destination_agrees_with_split_and_strip_prefix() {
    let outputs = [
        "a\nb Destination: c\n",
        "\n\n[download] Destination: \n",
        "[download] Destination: x\r\n",
        "Destination:",
        "[download] Destination: é♪\nmore",
    ];
    for out in outputs.iter() {
        let expected = match out.split('\n').find(|x| x.contains("Destination:")) {
            None => Err(DestinationError::NoDestinationLine),
            Some(line) => match line.strip_prefix("[download] Destination: ") {
                Some(p) => Ok(p.to_string()),
                None => Err(DestinationError::UnexpectedLine),
            },
        };
        match expected {
            Ok(p) => {
                assert_eq!(destination_failure(out), None);
                assert_eq!(parse_destination(out), p);
            }
            Err(e) => assert_eq!(destination_failure(out), Some(e)),
        }
    }
}

#[test]
fn download_command_extracts_audio_into_configured_directory() {
    let config = YoutubeConfig {
        yt_dlp_path: "/usr/bin/yt-dlp".to_string(),
        audio_download_path: "/tmp/audio".to_string(),
    };
    let cmd = download_command("dQw4w9WgXcQ".to_string(), &config);
    assert_eq!(cmd.program, "/usr/bin/yt-dlp");
    assert_eq!(cmd.args, vec!["dQw4w9WgXcQ", "--extract-audio", "-P /tmp/audio"]);
}

#[test]
fn builtin_paths() {
    let config = YoutubeConfig::builtin();
    assert_eq!(config.yt_dlp_path, "/data/samyakg/anaconda3/bin/yt-dlp");
    assert_eq!(config.audio_download_path, "/dev/shm");
}
