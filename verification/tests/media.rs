use niri_waybar_windowlist::media::{
    apply_changed_properties, audio_status_for, build_audio_state, extract_bus_suffix,
    name_owner_changed, status_symbol, update_audio_state, IndicatorUpdate, NameChange,
    PlaybackStatus, PlayerList, TrackedPlayer,
};
use niri_waybar_windowlist::settings::AudioIndicatorConfig;

fn player(status: PlaybackStatus, entry: Option<&str>, suffix: &str) -> TrackedPlayer {
    TrackedPlayer {
        status,
        desktop_entry: entry.map(String::from),
        bus_suffix: suffix.to_string(),
    }
}

#[test]
fn statuses_parse_and_rank() {
    assert!(PlaybackStatus::parse("Playing") == PlaybackStatus::Playing);
    assert!(PlaybackStatus::parse("Paused") == PlaybackStatus::Paused);
    assert!(PlaybackStatus::parse("playing") == PlaybackStatus::Stopped);
    assert!(PlaybackStatus::parse("") == PlaybackStatus::Stopped);
    assert_eq!(PlaybackStatus::Playing.priority(), 2);
    assert!(PlaybackStatus::most_active(PlaybackStatus::Paused, PlaybackStatus::Playing) == PlaybackStatus::Playing);
    assert!(PlaybackStatus::most_active(PlaybackStatus::Paused, PlaybackStatus::Stopped) == PlaybackStatus::Paused);
    assert_eq!(status_symbol(PlaybackStatus::Paused), "⏸ Paused");
}

#[test]
fn bus_suffixes_are_read_from_player_names() {
    assert_eq!(extract_bus_suffix("org.mpris.MediaPlayer2.spotify").as_deref(), Some("spotify"));
    assert_eq!(
        extract_bus_suffix("org.mpris.MediaPlayer2.Firefox.instance_1234").as_deref(),
        Some("firefox")
    );
    assert_eq!(extract_bus_suffix("org.mpris.MediaPlayer2.playerctld"), None);
    assert_eq!(extract_bus_suffix("org.freedesktop.Notifications"), None);
    assert_eq!(extract_bus_suffix("org.mpris.MediaPlayer2.").as_deref(), Some(""));
}

#[test]
fn players_merge_by_the_most_active_status() {
    let state = build_audio_state(&vec![
        player(PlaybackStatus::Paused, Some("firefox"), "firefox"),
        player(PlaybackStatus::Playing, None, "firefox"),
        player(PlaybackStatus::Stopped, Some("mpv"), "mpv"),
    ]);
    assert!(state.by_bus_suffix.get("firefox") == Some(&PlaybackStatus::Playing));
    assert!(state.by_desktop_entry.get("firefox") == Some(&PlaybackStatus::Paused));
    assert!(state.by_desktop_entry.get("mpv") == Some(&PlaybackStatus::Stopped));
}

#[test]
fn window_status_is_looked_up_lowercased() {
    let state = build_audio_state(&vec![
        player(PlaybackStatus::Paused, Some("firefox"), "firefox"),
        player(PlaybackStatus::Playing, None, "spotify"),
    ]);
    assert!(audio_status_for(&state, Some("Firefox")) == Some(PlaybackStatus::Paused));
    assert!(audio_status_for(&state, Some("Spotify")) == Some(PlaybackStatus::Playing));
    assert!(audio_status_for(&state, Some("foot")).is_none());
    assert!(audio_status_for(&state, None).is_none());
}

#[test]
fn indicator_shows_playing_and_paused_icons() {
    let config = AudioIndicatorConfig::default();
    assert!(matches!(update_audio_state(&config, Some(PlaybackStatus::Playing)), IndicatorUpdate::Show(i) if i == "\u{25B6}"));
    assert!(matches!(update_audio_state(&config, Some(PlaybackStatus::Paused)), IndicatorUpdate::Show(i) if i == "\u{23F8}"));
    assert!(matches!(update_audio_state(&config, Some(PlaybackStatus::Stopped)), IndicatorUpdate::Hide));
    assert!(matches!(update_audio_state(&config, None), IndicatorUpdate::Hide));
    let off = AudioIndicatorConfig { enabled: false, ..AudioIndicatorConfig::default() };
    assert!(matches!(update_audio_state(&off, Some(PlaybackStatus::Playing)), IndicatorUpdate::Keep));
}

#[test]
fn owner_changes_track_players() {
    assert!(matches!(name_owner_changed("org.mpris.MediaPlayer2.vlc", ":1.5", ""), NameChange::Vanished));
    match name_owner_changed("org.mpris.MediaPlayer2.VLC", "", ":1.6") {
        NameChange::Appeared { bus_suffix } => assert_eq!(bus_suffix, "vlc"),
        _ => panic!("expected a new player"),
    }
    assert!(matches!(name_owner_changed("org.mpris.MediaPlayer2.vlc", ":1.5", ":1.6"), NameChange::Ignore));
    assert!(matches!(name_owner_changed("org.example", "", ":1.6"), NameChange::Ignore));
}

#[test]
fn property_changes_update_players() {
    let mut p = player(PlaybackStatus::Paused, None, "vlc");
    assert!(apply_changed_properties(&mut p, "org.mpris.MediaPlayer2.Player", Some("Playing"), None));
    assert!(p.status == PlaybackStatus::Playing);
    assert!(!apply_changed_properties(&mut p, "org.mpris.MediaPlayer2.Player", Some("Playing"), None));
    assert!(apply_changed_properties(&mut p, "org.mpris.MediaPlayer2", Some("Paused"), Some("VLC")));
    assert!(p.status == PlaybackStatus::Playing);
    assert_eq!(p.desktop_entry.as_deref(), Some("vlc"));
    assert!(!apply_changed_properties(&mut p, "org.example", Some("Paused"), Some("x")));
    assert_eq!(p.desktop_entry.as_deref(), Some("vlc"));
}

#[test]
fn player_list_tracks_appearing_and_vanishing_players() {
    let mut list = PlayerList::new();
    list.insert(
        "org.mpris.MediaPlayer2.firefox.instance_1_5".to_string(),
        TrackedPlayer::new(PlaybackStatus::Paused, Some("Firefox"), "firefox".to_string()),
    );
    list.insert(
        "org.mpris.MediaPlayer2.spotify".to_string(),
        TrackedPlayer::new(PlaybackStatus::Playing, None, "spotify".to_string()),
    );
    assert_eq!(list.len(), 2);
    let state = list.audio_state();
    assert!(state.by_desktop_entry.get("firefox") == Some(&PlaybackStatus::Paused));
    assert!(state.by_bus_suffix.get("spotify") == Some(&PlaybackStatus::Playing));

    assert!(list.apply_changes(
        "org.mpris.MediaPlayer2.firefox.instance_1_5",
        "org.mpris.MediaPlayer2.Player",
        Some("Playing"),
        None,
    ));
    assert!(list.audio_state().by_desktop_entry.get("firefox") == Some(&PlaybackStatus::Playing));
    assert!(!list.apply_changes("org.mpris.MediaPlayer2.vlc", "org.mpris.MediaPlayer2.Player", Some("Playing"), None));

    list.insert(
        "org.mpris.MediaPlayer2.spotify".to_string(),
        TrackedPlayer::new(PlaybackStatus::Stopped, None, "spotify".to_string()),
    );
    assert_eq!(list.len(), 2);
    assert!(list.audio_state().by_bus_suffix.get("spotify") == Some(&PlaybackStatus::Stopped));

    assert!(list.remove("org.mpris.MediaPlayer2.spotify"));
    assert!(!list.remove("org.mpris.MediaPlayer2.spotify"));
    assert_eq!(list.len(), 1);
    assert_eq!(list.name_at(0), "org.mpris.MediaPlayer2.firefox.instance_1_5");
    assert!(list.audio_state().by_bus_suffix.get("spotify").is_none());
}
