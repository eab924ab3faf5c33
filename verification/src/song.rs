//! Songs of an album, their display names, and the rich-presence status
//! shown for the song that plays.

use std::path::PathBuf;
use vstd::prelude::*;

verus! {

#[verifier::external_type_specification]
#[verifier::external_body]
pub struct ExPathBuf(PathBuf);

/// The text of the last component of `path`, if it has one: what
/// `Path::file_name` gives, made text by `OsStr::to_string_lossy`.
pub uninterp spec fn path_file_name_text(path: PathBuf) -> Option<Seq<char>>;

/// `Path::file_name` of the path, made text by `OsStr::to_string_lossy`
/// (the component's type cannot be named here, so both calls stand in one
/// wrapper).
#[verifier::external_body]
fn file_name_lossy(path: &PathBuf) -> (res: Option<String>)
    ensures
        opt_view(res) == path_file_name_text(*path),
{
    path.file_name().map(|t| t.to_string_lossy().to_string())
}

/// The text of an optional string.
pub open spec fn opt_view(o: Option<String>) -> Option<Seq<char>> {
    match o {
        Some(s) => Some(s@),
        None => None,
    }
}

/// The title shown for a song whose file and tags give no title.
pub open spec fn unknown_title() -> Seq<char> {
    seq!['<', 'u', 'n', 'k', 'n', 'o', 'w', 'n', '>']
}

/// The separator between artist and album.
pub open spec fn artist_album_separator() -> Seq<char> {
    seq![' ', '-', ' ']
}

/// The title of a song: the tagged title, else the file name, else
/// `<unknown>`.
pub open spec fn title_spec(file_name: Option<Seq<char>>, tag_title: Option<Seq<char>>) -> Seq<char> {
    match tag_title {
        Some(t) => t,
        None => match file_name {
            Some(f) => f,
            None => unknown_title(),
        },
    }
}

/// Artist and album joined for display, such as `Musician - The Album`;
/// either alone when the other is missing.
pub open spec fn artist_album_spec(artist: Option<Seq<char>>, album: Option<Seq<char>>) -> Option<Seq<char>> {
    match (artist, album) {
        (None, None) => None,
        (Some(a), None) => Some(a),
        (None, Some(b)) => Some(b),
        (Some(a), Some(b)) => Some(a + artist_album_separator() + b),
    }
}

/// The display text of artist and album: both present, they are joined as
/// `artist - album` for every artist and album, equal ones included; one
/// alone is shown as it is; with neither there is none.
pub proof fn law_artist_album_text(a: Seq<char>, b: Seq<char>)
    ensures
        artist_album_spec(Some(a), Some(b)) == Some(a + " - "@ + b),
        artist_album_spec(Some(a), Some(b))->Some_0.len() == a.len() + b.len() + 3,
        artist_album_spec(Some(a), None) == Some(a),
        artist_album_spec(None, Some(b)) == Some(b),
        artist_album_spec(None, None) is None,
{
    reveal_strlit(" - ");
    assert(" - "@ =~= artist_album_separator());
}

/// The title of a song: the tagged title whenever there is one, else the
/// file name, else `<unknown>`.
pub proof fn law_title_choice(f: Option<Seq<char>>, t: Option<Seq<char>>)
    ensures
        t matches Some(tt) ==> title_spec(f, t) == tt,
        t is None ==> (f matches Some(ff) ==> title_spec(f, t) == ff),
        t is None && f is None ==> title_spec(f, t) == "<unknown>"@,
{
    reveal_strlit("<unknown>");
    assert("<unknown>"@ =~= unknown_title());
}

/// The tags read from a song's file.
pub struct SongTags {
    pub title: Option<String>,
    pub album: Option<String>,
    pub artist: Option<String>,
}

/// A song of an album: its file and what is shown of it.
pub struct Song {
    path: PathBuf,
    title: String,
    album: Option<String>,
    artist: Option<String>,
    artist_album: Option<String>,
}

/// Text of the tag `f` of the tags, if the file had tags.
pub open spec fn tag_view(tags: Option<SongTags>, f: int) -> Option<Seq<char>> {
    match tags {
        Some(t) => if f == 0 {
            opt_view(t.title)
        } else if f == 1 {
            opt_view(t.album)
        } else {
            opt_view(t.artist)
        },
        None => None,
    }
}

/// Joins artist and album for display.
pub fn join_artist_album(artist: &Option<String>, album: &Option<String>) -> (res: Option<String>)
    ensures
        opt_view(res) == artist_album_spec(opt_view(*artist), opt_view(*album)),
{
    match (artist, album) {
        (None, None) => None,
        (Some(a), None) => Some(a.clone()),
        (None, Some(b)) => Some(b.clone()),
        (Some(a), Some(b)) => {
            let mut s = a.clone();
            s.append(" - ");
            s.append(b.as_str());
            proof {
                reveal_strlit(" - ");
                assert(s@ =~= a@ + artist_album_separator() + b@);
            }
            Some(s)
        },
    }
}

impl Song {
    /// The file of the song.
    pub closed spec fn path_spec(self) -> PathBuf {
        self.path
    }

    /// The title shown for the song.
    pub closed spec fn title_spec(self) -> Seq<char> {
        self.title@
    }

    /// The album tag.
    pub closed spec fn album_spec(self) -> Option<Seq<char>> {
        opt_view(self.album)
    }

    /// The artist tag.
    pub closed spec fn artist_spec(self) -> Option<Seq<char>> {
        opt_view(self.artist)
    }

    /// Artist and album as shown.
    pub closed spec fn artist_album_spec(self) -> Option<Seq<char>> {
        opt_view(self.artist_album)
    }

    /// A song made of its file, the file's name and its tags (`None` when
    /// the file's tags could not be read).
    pub fn from_parts(path: PathBuf, file_name: Option<String>, tags: Option<SongTags>) -> (res: Song)
        ensures
            res.path_spec() == path,
            res.title_spec() == title_spec(opt_view(file_name), tag_view(tags, 0)),
            res.album_spec() == tag_view(tags, 1),
            res.artist_spec() == tag_view(tags, 2),
            res.artist_album_spec() == artist_album_spec(tag_view(tags, 2), tag_view(tags, 1)),
    {
        let mut title = file_name;
        let mut album: Option<String> = None;
        let mut artist: Option<String> = None;
        if let Some(t) = tags {
            if let Some(tags_title) = t.title {
                title = Some(tags_title);
            }
            album = t.album;
            artist = t.artist;
        }
        let title = match title {
            Some(t) => t,
            None => {
                let t = String::from_str("<unknown>");
                proof {
                    reveal_strlit("<unknown>");
                    assert(t@ =~= unknown_title());
                }
                t
            },
        };
        let artist_album = join_artist_album(&artist, &album);
        Song { path, title, album, artist, artist_album }
    }

    /// A song made of its file and its tags (`None` when the file's tags
    /// could not be read); without a tagged title the file name stands in,
    /// and `<unknown>` without either.
    pub fn new(path: PathBuf, tags: Option<SongTags>) -> (res: Song)
        ensures
            res.path_spec() == path,
            res.title_spec() == title_spec(path_file_name_text(path), tag_view(tags, 0)),
            res.album_spec() == tag_view(tags, 1),
            res.artist_spec() == tag_view(tags, 2),
            res.artist_album_spec() == artist_album_spec(tag_view(tags, 2), tag_view(tags, 1)),
    {
        let file_name = file_name_lossy(&path);
        Song::from_parts(path, file_name, tags)
    }

    /// The file of the song.
    pub fn path(&self) -> (res: &PathBuf)
        ensures
            *res == self.path_spec(),
    {
        &self.path
    }

    /// The title shown for the song.
    pub fn title(&self) -> (res: &String)
        ensures
            res@ == self.title_spec(),
    {
        &self.title
    }

    /// The album tag.
    pub fn album(&self) -> (res: &Option<String>)
        ensures
            opt_view(*res) == self.album_spec(),
    {
        &self.album
    }

    /// The artist tag.
    pub fn artist(&self) -> (res: &Option<String>)
        ensures
            opt_view(*res) == self.artist_spec(),
    {
        &self.artist
    }

    /// Artist and album as shown.
    pub fn artist_album(&self) -> (res: &Option<String>)
        ensures
            opt_view(*res) == self.artist_album_spec(),
    {
        &self.artist_album
    }
}

/// The status shown while nothing plays.
pub open spec fn nothing_playing() -> Seq<char> {
    seq!['N', 'o', 't', 'h', 'i', 'n', 'g', ' ', 'p', 'l', 'a', 'y', 'i', 'n', 'g']
}

/// The "listening" activity shown to others: a first line, an optional
/// second line, and whether the first line is the short status.
pub struct Presence {
    pub details: String,
    pub state: Option<String>,
    pub details_as_status: bool,
}

/// The activity shown for the song that plays, or for no song: the title
/// over artist and album (an empty line when there are neither), or
/// `Nothing playing`.
pub fn presence_for(song: Option<&Song>) -> (res: Presence)
    ensures
        song matches Some(s) ==> {
            &&& res.details@ == s.title_spec()
            &&& res.state matches Some(st) && st@ == match s.artist_album_spec() {
                Some(aa) => aa,
                None => Seq::<char>::empty(),
            }
            &&& res.details_as_status
        },
        song is None ==> res.details@ == nothing_playing() && res.state is None
            && !res.details_as_status,
{
    match song {
        Some(song) => {
            let state = match song.artist_album() {
                Some(x) => x.clone(),
                None => String::new(),
            };
            Presence { details: song.title().clone(), state: Some(state), details_as_status: true }
        },
        None => {
            let details = String::from_str("Nothing playing");
            proof {
                reveal_strlit("Nothing playing");
                assert(details@ =~= nothing_playing());
            }
            Presence { details, state: None, details_as_status: false }
        },
    }
}

} // verus!
