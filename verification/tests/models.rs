use turto::models::autoleave::AutoleaveType;
use turto::models::config::{TurtoConfig, YtdlpConfig};
use turto::models::guild::volume::{check_percent, VolumeError};
use turto::models::metadata::{MetadataError, MetadataField, MetadataFields, MetadataValue};
use turto::models::playing::PlayState;
use turto::models::playlist::{advance, Advance, Playlist};
use turto::models::queue_item::QueueItem;
use turto::models::toggle::ToggleOption;
use turto::utils::queue::QueueType;
use turto::utils::{playing_card, TrackInfo};
use turto::utils::url::UrlParts;
use turto::utils::guild::{cmp_voice_channel, VoiceChannelState};
use turto::ytdl::playlist::{YouTubeDlPlaylistOutput, YouTubePlaylist};

#[test]
fn autoleave_policies() {
    assert!(AutoleaveType::On.leaves_on_empty_queue());
    assert!(AutoleaveType::On.leaves_on_empty_channel());
    assert!(AutoleaveType::Silent.leaves_on_empty_queue());
    assert!(!AutoleaveType::Silent.leaves_on_empty_channel());
    assert!(!AutoleaveType::Empty.leaves_on_empty_queue());
    assert!(AutoleaveType::Empty.leaves_on_empty_channel());
    assert!(!AutoleaveType::Off.leaves_on_empty_queue());
    assert!(!AutoleaveType::Off.leaves_on_empty_channel());
    for t in [AutoleaveType::On, AutoleaveType::Empty, AutoleaveType::Silent, AutoleaveType::Off] {
        assert_eq!(AutoleaveType::from_name(t.name()), Some(t));
    }
    assert_eq!(AutoleaveType::Silent.name(), "silent");
    assert_eq!(AutoleaveType::from_name("ON"), None);
}

#[test]
fn toggles_and_play_states() {
    assert_eq!(ToggleOption::On.name(), "on");
    assert_eq!(ToggleOption::Off.name(), "off");
    assert!(ToggleOption::On.is_on());
    assert!(!ToggleOption::Off.is_on());
    assert_ne!(PlayState::Play, PlayState::Pause);
}

#[test]
fn a_percentage_past_a_hundred_is_refused() {
    assert_eq!(check_percent(0), Ok(0));
    assert_eq!(check_percent(100), Ok(100));
    assert_eq!(check_percent(101), Err(VolumeError::OutOfRange));
    assert_eq!(VolumeError::OutOfRange.message(), "volume should be between 0.0 ~ 1.0");
    assert_eq!(
        turto::models::volume::VolumeError::OutOfRange.message(),
        "GuildVolume should be between 0.0 ~ 1.0"
    );
}

#[test]
fn config_defaults() {
    let c = TurtoConfig::default();
    assert!(c.allow_seek);
    assert!(!c.allow_backward_seek);
    assert_eq!(c.seek_limit, 600);
    assert_eq!(c.command_delay, 1);
    assert_eq!(c.owner, None);
    assert!(c.auto_save);
    assert_eq!(c.auto_save_interval, 3600);
    let y = YtdlpConfig::default();
    assert!(!y.use_nightly && !y.use_system_bun && !y.use_system_uv);
    assert_eq!(y.cookies_path, None);
    assert_eq!(y.max_concurrency, 8);
    assert!(!c.is_owner(1));
    let owned = TurtoConfig { owner: Some(42), ..TurtoConfig::default() };
    assert!(owned.is_owner(42));
    assert!(!owned.is_owner(43));
}

fn parts(url: &str, host: Option<&str>, pairs: &[(&str, &str)]) -> UrlParts {
    UrlParts {
        serialization: url.to_string(),
        host: host.map(str::to_string),
        path_segments: None,
        query_pairs: pairs.iter().map(|(k, v)| (k.to_string(), v.to_string())).collect(),
    }
}

#[test]
fn a_queued_link_knows_whether_it_is_a_playlist() {
    let single = QueueItem::new(parts("https://www.youtube.com/watch?v=abc", Some("www.youtube.com"), &[("v", "abc")]));
    assert_eq!(single.url(), "https://www.youtube.com/watch?v=abc");
    assert!(!single.is_playlist());
    let list = QueueItem::new(parts("https://music.youtube.com/playlist?list=PL1", Some("music.youtube.com"), &[("list", "PL1")]));
    assert!(list.is_playlist());
}

#[test]
fn the_queue_keeps_its_order() {
    let mut q = Playlist::from_vec(vec![1, 2, 3]);
    q.push_back(4);
    q.push_front(0);
    assert_eq!(q.len(), 5);
    assert_eq!(q.front(), Some(&0));
    assert_eq!(q.pop_front(), Some(0));
    assert_eq!(q.pop_back(), Some(4));
    assert_eq!(q.remove(1), Some(2));
    assert_eq!(q.remove(9), None);
    assert_eq!(q.get(0), Some(&1));
    assert_eq!(q.get(1), Some(&3));
    q.extend(vec![5, 6, 7]);
    assert_eq!(q.drain(1, 3), vec![3, 5]);
    assert_eq!(q.len(), 3);
    assert_eq!((q.get(0), q.get(1), q.get(2)), (Some(&1), Some(&6), Some(&7)));
    q.clear();
    assert_eq!(q.len(), 0);
    assert_eq!(q.pop_front(), None);
    let mut e: Playlist<u8> = Playlist::new();
    assert_eq!(e.pop_back(), None);
    assert_eq!(e.front(), None);
}

#[test]
fn a_shuffle_keeps_the_same_tracks() {
    let items: Vec<u32> = (0..50).collect();
    let mut q = Playlist::from_vec(items.clone());
    q.shuffle();
    let mut out: Vec<u32> = (0..q.len()).map(|i| *q.get(i).unwrap()).collect();
    out.sort();
    assert_eq!(out, items);
}

#[test]
fn a_playlist_is_queued_at_the_end_asked_for() {
    let mut q = Playlist::from_vec(vec![1, 2]);
    q.enqueue_all(vec![7, 8], QueueType::Front);
    let front: Vec<i32> = (0..q.len()).map(|i| *q.get(i).unwrap()).collect();
    assert_eq!(front, vec![7, 8, 1, 2]);
    q.enqueue_all(vec![9], QueueType::Back);
    q.enqueue(0, QueueType::Front);
    q.enqueue(10, QueueType::Back);
    let all: Vec<i32> = (0..q.len()).map(|i| *q.get(i).unwrap()).collect();
    assert_eq!(all, vec![0, 7, 8, 1, 2, 9, 10]);
}

#[test]
fn what_plays_after_a_track_ends() {
    let mut q = Playlist::from_vec(vec!["a", "b"]);
    assert!(matches!(advance(true, AutoleaveType::On, &mut q), Advance::Repeat));
    assert_eq!(q.len(), 2, "a repeat leaves the queue alone");
    assert!(matches!(advance(false, AutoleaveType::On, &mut q), Advance::Next("a")));
    assert!(matches!(advance(false, AutoleaveType::On, &mut q), Advance::Next("b")));
    assert!(matches!(advance(false, AutoleaveType::On, &mut q), Advance::Leave));
    assert!(matches!(advance(false, AutoleaveType::Silent, &mut q), Advance::Leave));
    assert!(matches!(advance(false, AutoleaveType::Empty, &mut q), Advance::Stay));
    assert!(matches!(advance(false, AutoleaveType::Off, &mut q), Advance::Stay));
}

#[test]
fn a_stored_record_reads_each_field_once() {
    let mut fields = MetadataFields::new();
    assert_eq!(MetadataField::from_name("title"), Some(MetadataField::Title));
    assert_eq!(MetadataField::from_name("sample_rate"), Some(MetadataField::SampleRate));
    assert_eq!(MetadataField::from_name("nope"), None);
    assert_eq!(MetadataField::StartTime.name(), "start_time");
    assert_eq!(fields.accept(MetadataField::Title, MetadataValue::Text(Some("Song".into()))), Ok(()));
    assert_eq!(
        fields.accept(MetadataField::Title, MetadataValue::Text(Some("Again".into()))),
        Err(MetadataError::DuplicateField(MetadataField::Title))
    );
    assert_eq!(fields.accept(MetadataField::Artist, MetadataValue::Text(None)), Ok(()));
    assert_eq!(
        fields.accept(MetadataField::Artist, MetadataValue::Text(Some("late".into()))),
        Ok(()),
        "a null value holds nothing, so a later one is no duplicate"
    );
    assert_eq!(
        fields.accept(MetadataField::Channels, MetadataValue::Rate(Some(2))),
        Err(MetadataError::WrongKind(MetadataField::Channels))
    );
    assert_eq!(fields.accept(MetadataField::Channels, MetadataValue::Channels(Some(2))), Ok(()));
    assert_eq!(fields.accept(MetadataField::Duration, MetadataValue::Time(Some((3, 5)))), Ok(()));
    let record = fields.finish();
    assert_eq!(record.title, "Song");
    assert_eq!(record.artist, "late");
    assert_eq!(record.channels, 2);
    assert_eq!(record.duration, (3, 5));
    assert_eq!(record.start_time, (0, 0));
    assert_eq!(record.track, "");
    assert_eq!(record.sample_rate, 0);
}

#[test]
fn the_now_playing_card() {
    let info = TrackInfo {
        title: Some("Song".into()),
        thumbnail: Some("https://i.invalid/t.jpg".into()),
        webpage_url: Some("https://w.invalid/v".into()),
        timestamp: Some(1_700_000_000),
        channel: None,
        uploader: Some("Uploader".into()),
        channel_url: None,
        uploader_url: Some("https://w.invalid/u".into()),
    };
    let card = playing_card(&info, Some(PlayState::Pause));
    assert_eq!(card.image.as_deref(), Some("https://i.invalid/t.jpg"));
    assert_eq!(card.url.as_deref(), Some("https://w.invalid/v"));
    assert_eq!(card.title, Some((Some(PlayState::Pause), "Song".to_string())));
    assert_eq!(card.timestamp, Some(1_700_000_000));
    assert_eq!(card.author, Some(("Uploader".to_string(), Some("https://w.invalid/u".to_string()))));
    let bare = TrackInfo { title: None, channel: None, uploader: None, ..info };
    let card = playing_card(&bare, None);
    assert_eq!(card.title, None);
    assert_eq!(card.author, None);
}

#[test]
fn two_members_voice_channels_compare() {
    assert_eq!(cmp_voice_channel(None, None), VoiceChannelState::Neither);
    assert_eq!(cmp_voice_channel(Some(7), None), VoiceChannelState::OnlyFirst(7));
    assert_eq!(cmp_voice_channel(None, Some(9)), VoiceChannelState::OnlySecond(9));
    assert_eq!(cmp_voice_channel(Some(7), Some(7)), VoiceChannelState::Same(7));
    assert_eq!(cmp_voice_channel(Some(7), Some(9)), VoiceChannelState::Different(7, 9));
}

#[test]
fn a_listed_playlist_takes_its_author_and_link_from_what_is_present() {
    let s = |v: &str| Some(v.to_string());
    let output = YouTubeDlPlaylistOutput {
        id: s("PL1"),
        title: s("Mix"),
        channel: None,
        uploader: s("uploader"),
        channel_url: None,
        uploader_url: None,
        entries: vec!["a", "b", "c"],
        webpage_url: s("https://www.youtube.com/playlist?list=PL1"),
        original_url: s("https://youtu.be/x?list=PL1"),
    };
    let playlist = YouTubePlaylist::from_output(output);
    assert_eq!(playlist.id.as_deref(), Some("PL1"));
    assert_eq!(playlist.title.as_deref(), Some("Mix"));
    assert_eq!(playlist.author.as_deref(), Some("uploader"));
    assert_eq!(playlist.url.as_deref(), Some("https://www.youtube.com/playlist?list=PL1"));
    let queue = playlist.to_playlist();
    assert_eq!(queue.len(), 3);
    assert_eq!(queue.front(), Some(&"a"));

    let owned = YouTubePlaylist::from_output(YouTubeDlPlaylistOutput {
        id: None,
        title: None,
        channel: s("channel"),
        uploader: s("uploader"),
        channel_url: None,
        uploader_url: None,
        entries: Vec::<u8>::new(),
        webpage_url: None,
        original_url: s("https://youtu.be/x?list=PL2"),
    });
    assert_eq!(owned.author.as_deref(), Some("channel"));
    assert_eq!(owned.url.as_deref(), Some("https://youtu.be/x?list=PL2"));
    assert!(owned.to_vec().is_empty());
}

#[test]
fn a_stored_record_keeps_the_values_it_was_given() {
    let mut fields = MetadataFields::new();
    assert_eq!(fields.accept(MetadataField::Track, MetadataValue::Text(Some("a".into()))), Ok(()));
    assert_eq!(fields.accept(MetadataField::Artist, MetadataValue::Text(Some("b".into()))), Ok(()));
    assert_eq!(fields.accept(MetadataField::Channels, MetadataValue::Channels(Some(2))), Ok(()));
    assert_eq!(fields.accept(MetadataField::Title, MetadataValue::Text(Some("t".into()))), Ok(()));
    let record = fields.finish();
    assert_eq!(record.track, "a");
    assert_eq!(record.artist, "b");
    assert_eq!(record.channels, 2);
    assert_eq!(record.title, "t");
    assert_eq!(record.date, "");
    assert_eq!(record.channel, "");
    assert_eq!(record.source_url, "");
    assert_eq!(record.thumbnail, "");
    assert_eq!(record.sample_rate, 0);
    assert_eq!(record.start_time, (0, 0));
    assert_eq!(record.duration, (0, 0));
}
