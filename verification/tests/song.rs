use glassbox::song::{join_artist_album, presence_for, Song, SongTags};
use std::path::PathBuf;

fn tags(title: Option<&str>, album: Option<&str>, artist: Option<&str>) -> SongTags {
    SongTags {
        title: title.map(String::from),
        album: album.map(String::from),
        artist: artist.map(String::from),
    }
}

#[test]
fn artist_and_album_are_joined() {
    let joined = join_artist_album(&Some("Musician".to_string()), &Some("The Song".to_string()));
    assert_eq!(joined.as_deref(), Some("Musician - The Song"));
}

#[test]
fn artist_or_album_alone() {
    assert_eq!(join_artist_album(&Some("A".into()), &None).as_deref(), Some("A"));
    assert_eq!(join_artist_album(&None, &Some("B".into())).as_deref(), Some("B"));
    assert_eq!(join_artist_album(&None, &None), None);
}

#[test]
fn tagged_title_wins() {
    let song = Song::from_parts(
        PathBuf::from("/music/track.ogg"),
        Some("track.ogg".into()),
        Some(tags(Some("Title"), Some("Album"), Some("Artist"))),
    );
    assert_eq!(song.title(), "Title");
    assert_eq!(song.album().as_deref(), Some("Album"));
    assert_eq!(song.artist().as_deref(), Some("Artist"));
    assert_eq!(song.artist_album().as_deref(), Some("Artist - Album"));
    assert_eq!(song.path(), &PathBuf::from("/music/track.ogg"));
}

#[test]
fn file_name_without_tags() {
    let song = Song::from_parts(PathBuf::from("/music/track.ogg"), Some("track.ogg".into()), None);
    assert_eq!(song.title(), "track.ogg");
    assert_eq!(song.album(), &None);
    assert_eq!(song.artist_album(), &None);
}

#[test]
fn file_name_when_tags_lack_title() {
    let song = Song::from_parts(PathBuf::from("a.mp3"), Some("a.mp3".into()), Some(tags(None, Some("Alb"), None)));
    assert_eq!(song.title(), "a.mp3");
    assert_eq!(song.artist_album().as_deref(), Some("Alb"));
}

#[test]
fn unknown_title_without_file_name() {
    let song = Song::from_parts(PathBuf::from("/"), None, None);
    assert_eq!(song.title(), "<unknown>");
}

#[test]
fn new_takes_file_name_from_path() {
    let song = Song::new(PathBuf::from("/music/some song.flac"), None);
    assert_eq!(song.title(), "some song.flac");
    let song = Song::new(PathBuf::from("/music/x.wav"), Some(tags(Some("X"), None, Some("Y"))));
    assert_eq!(song.title(), "X");
    assert_eq!(song.artist_album().as_deref(), Some("Y"));
}

#[test]
fn presence_for_playing_song() {
    let song = Song::from_parts(PathBuf::from("a"), None, Some(tags(Some("T"), Some("B"), Some("A"))));
    let p = presence_for(Some(&song));
    assert_eq!(p.details, "T");
    assert_eq!(p.state.as_deref(), Some("A - B"));
    assert!(p.details_as_status);
}

#[test]
fn presence_for_song_without_artist_or_album() {
    let song = Song::from_parts(PathBuf::from("a"), Some("f".into()), None);
    let p = presence_for(Some(&song));
    assert_eq!(p.details, "f");
    assert_eq!(p.state.as_deref(), Some(""));
}

#[test]
fn presence_when_nothing_plays() {
    let p = presence_for(None);
    assert_eq!(p.details, "Nothing playing");
    assert_eq!(p.state, None);
    assert!(!p.details_as_status);
}

#[test]
fn new_without_file_name_is_unknown() {
    let song = Song::new(PathBuf::from("/"), None);
    assert_eq!(song.title(), "<unknown>");
    let song = Song::new(PathBuf::from("/"), Some(tags(None, None, Some("A"))));
    assert_eq!(song.title(), "<unknown>");
}
