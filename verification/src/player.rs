//! Playback bookkeeping: which files make an album, which song of the queue
//! plays, when the shown status must change, and where each song ends.

use vstd::prelude::*;

verus! {

/// The file extensions of the audio files that an album is made of.
pub open spec fn is_supported_extension_spec(ext: Seq<char>) -> bool {
    ||| ext == seq!['o', 'g', 'g']
    ||| ext == seq!['f', 'l', 'a', 'c']
    ||| ext == seq!['m', 'p', '3']
    ||| ext == seq!['w', 'a', 'v']
}

/// Whether a file with extension `ext` is a song of the album (`ogg`,
/// `flac`, `mp3` or `wav`, compared exactly).
pub fn is_supported_extension(ext: &str) -> (res: bool)
    ensures
        res == is_supported_extension_spec(ext@),
{
    let ext = String::from_str(ext);
    let candidates = ["ogg", "flac", "mp3", "wav"];
    proof {
        reveal_strlit("ogg");
        reveal_strlit("flac");
        reveal_strlit("mp3");
        reveal_strlit("wav");
    }
    let mut found = false;
    let mut i: usize = 0;
    while i < 4
        invariant
            i <= 4,
            candidates@ == seq!["ogg", "flac", "mp3", "wav"],
            found == exists|j: int| 0 <= j < i && ext@ == (#[trigger] candidates@[j])@,
        decreases 4 - i,
    {
        let candidate = String::from_str(candidates[i]);
        if ext == candidate {
            found = true;
        }
        i = i + 1;
    }
    proof {
        assert(candidates@[0]@ =~= seq!['o', 'g', 'g']);
        assert(candidates@[1]@ =~= seq!['f', 'l', 'a', 'c']);
        assert(candidates@[2]@ =~= seq!['m', 'p', '3']);
        assert(candidates@[3]@ =~= seq!['w', 'a', 'v']);
        if is_supported_extension_spec(ext@) {
            if ext@ == seq!['o', 'g', 'g'] {
                assert(ext@ == candidates@[0]@);
            } else if ext@ == seq!['f', 'l', 'a', 'c'] {
                assert(ext@ == candidates@[1]@);
            } else if ext@ == seq!['m', 'p', '3'] {
                assert(ext@ == candidates@[2]@);
            } else {
                assert(ext@ == candidates@[3]@);
            }
        }
    }
    found
}

/// Exactly the four extensions `ogg`, `flac`, `mp3` and `wav` are songs;
/// every other text, other cases included, is refused.
pub proof fn law_supported_extensions(e: Seq<char>)
    ensures
        is_supported_extension_spec(e) <==> (e == "ogg"@ || e == "flac"@ || e == "mp3"@ || e == "wav"@),
        is_supported_extension_spec("ogg"@),
        is_supported_extension_spec("flac"@),
        is_supported_extension_spec("mp3"@),
        is_supported_extension_spec("wav"@),
{
    reveal_strlit("ogg");
    reveal_strlit("flac");
    reveal_strlit("mp3");
    reveal_strlit("wav");
    assert("ogg"@ =~= seq!['o', 'g', 'g']);
    assert("flac"@ =~= seq!['f', 'l', 'a', 'c']);
    assert("mp3"@ =~= seq!['m', 'p', '3']);
    assert("wav"@ =~= seq!['w', 'a', 'v']);
}

/// The index of the song that plays: the songs of the album minus the songs
/// still queued, or -1 when there is no playback or no album.
pub open spec fn playing_index_spec(num_songs: Option<usize>, queued: Option<usize>) -> int {
    match (queued, num_songs) {
        (Some(q), Some(n)) => n - q,
        _ => -1,
    }
}

/// Computes which song of the album plays from the number of songs and the
/// number of songs still queued for playback (`None` when there is no
/// album, or no playback).
pub fn compute_playing_idx(num_songs: Option<usize>, queued: Option<usize>) -> (res: isize)
    requires
        queued matches Some(q) ==> (num_songs matches Some(n) ==> q <= n && n - q <= isize::MAX),
    ensures
        res == playing_index_spec(num_songs, queued),
{
    let Some(q) = queued else { return -1 };
    let Some(n) = num_songs else { return -1 };
    (n - q) as isize
}

/// With an album of `n` songs and a queue of `q <= n` songs still to play,
/// the song that plays is the one after the `n - q` finished ones, so the
/// index is never -1 then; without an album or without playback it is -1.
pub proof fn law_playing_index(n: usize, q: usize)
    ensures
        q <= n ==> playing_index_spec(Some(n), Some(q)) == n - q,
        q <= n ==> playing_index_spec(Some(n), Some(q)) >= 0,
        playing_index_spec(None, Some(q)) == -1,
        playing_index_spec(Some(n), None) == -1,
        playing_index_spec(None, None) == -1,
{
}

/// The song at `idx` of an album of `num_songs` songs, if there is one.
pub open spec fn now_playing_spec(idx: int, num_songs: int) -> Option<usize> {
    if 0 <= idx < num_songs {
        Some(idx as usize)
    } else {
        None
    }
}

/// The position of the song at `idx` in an album of `num_songs` songs, or
/// `None` when `idx` lies outside the album.
pub fn now_playing(idx: isize, num_songs: usize) -> (res: Option<usize>)
    requires
        num_songs <= isize::MAX,
    ensures
        res == now_playing_spec(idx as int, num_songs as int),
{
    if idx >= 0 && idx < num_songs as isize {
        Some(idx as usize)
    } else {
        None
    }
}

/// The song shown as playing between frames: the index seen at the last
/// frame, -1 before any and after a new queue is built.
pub struct PlayingTracker {
    last_playing_idx: isize,
}

impl PlayingTracker {
    /// The index seen at the last frame.
    pub closed spec fn last(self) -> int {
        self.last_playing_idx as int
    }

    /// A tracker that has seen no frame.
    pub fn new() -> (res: Self)
        ensures
            res.last() == -1,
    {
        PlayingTracker { last_playing_idx: -1 }
    }

    /// Forgets the index seen, so that the next frame reports its song.
    pub fn force_update(&mut self)
        ensures
            final(self).last() == -1,
    {
        self.last_playing_idx = -1;
    }

    /// The index seen at the last frame.
    pub fn last_playing_idx(&self) -> (res: isize)
        ensures
            res == self.last(),
    {
        self.last_playing_idx
    }

    /// Records the index `current` of a frame of an album of `num_songs`
    /// songs (`None` when no album is open). When an album is open and the
    /// index differs from the last frame's, gives the song whose status must
    /// now be shown (`Some(None)` when none plays); else `None`.
    pub fn observe(&mut self, current: isize, num_songs: Option<usize>) -> (res: Option<Option<usize>>)
        requires
            num_songs matches Some(n) ==> n <= isize::MAX,
        ensures
            final(self).last() == current,
            res == match num_songs {
                Some(n) => if current != old(self).last() {
                    Some(now_playing_spec(current as int, n as int))
                } else {
                    None
                },
                None => None,
            },
    {
        let res = match num_songs {
            Some(n) => if current != self.last_playing_idx {
                Some(now_playing(current, n))
            } else {
                None
            },
            None => None,
        };
        self.last_playing_idx = current;
        res
    }
}

/// The longest duration there is, in nanoseconds: `u64::MAX` seconds and
/// 999 999 999 nanoseconds.
pub open spec fn max_duration_nanos() -> int {
    u64::MAX * 1_000_000_000 + 999_999_999
}

/// The longest duration there is, in nanoseconds.
pub const MAX_DURATION_NANOS: u128 = 18_446_744_073_709_551_615_999_999_999;

/// Where each queued song ends, counted from the start of the queue.
pub struct DurationMap {
    ends: Vec<u128>,
    total: u128,
}

/// The end of each of the songs of durations `ds` queued in turn.
pub open spec fn song_ends(ds: Seq<u128>) -> Seq<int>
    decreases ds.len(),
{
    if ds.len() == 0 {
        Seq::empty()
    } else {
        let prev = song_ends(ds.drop_last());
        prev.push(if prev.len() == 0 { 0 } else { prev.last() } + ds.last())
    }
}

impl DurationMap {
    /// The ends are in order and the total is the last of them (0 for an
    /// empty queue), within the longest duration.
    pub closed spec fn wf(self) -> bool {
        &&& self.total <= max_duration_nanos()
        &&& forall|i: int, j: int|
            0 <= i <= j < self.ends@.len() ==> self.ends@[i] <= self.ends@[j]
        &&& self.total == if self.ends@.len() == 0 {
            0
        } else {
            self.ends@.last()
        }
    }

    /// The end of each queued song, in nanoseconds.
    pub closed spec fn ends_spec(self) -> Seq<int> {
        self.ends@.map_values(|e: u128| e as int)
    }

    /// The length of the whole queue, in nanoseconds.
    pub closed spec fn total_spec(self) -> int {
        self.total as int
    }

    /// An empty queue.
    pub fn new() -> (res: Self)
        ensures
            res.wf(),
            res.ends_spec() == Seq::<int>::empty(),
            res.total_spec() == 0,
    {
        let res = DurationMap { ends: Vec::new(), total: 0 };
        assert(res.ends_spec() =~= Seq::<int>::empty());
        res
    }

    /// Empties the queue.
    pub fn clear(&mut self)
        ensures
            final(self).wf(),
            final(self).ends_spec() == Seq::<int>::empty(),
            final(self).total_spec() == 0,
    {
        self.ends.clear();
        self.total = 0;
        assert(self.ends_spec() =~= Seq::<int>::empty());
    }

    /// Queues a song that lasts `duration_nanos` nanoseconds.
    pub fn push_song(&mut self, duration_nanos: u128)
        requires
            old(self).wf(),
            old(self).total_spec() + duration_nanos <= max_duration_nanos(),
        ensures
            final(self).wf(),
            final(self).total_spec() == old(self).total_spec() + duration_nanos,
            final(self).ends_spec() == old(self).ends_spec().push(final(self).total_spec()),
    {
        self.total = self.total + duration_nanos;
        self.ends.push(self.total);
        assert(self.ends_spec() =~= old(self).ends_spec().push(self.total as int));
    }

    /// The end of each queued song, in nanoseconds.
    pub fn ends(&self) -> (res: &Vec<u128>)
        ensures
            res@.map_values(|e: u128| e as int) == self.ends_spec(),
    {
        &self.ends
    }

    /// The length of the whole queue, in nanoseconds.
    pub fn total(&self) -> (res: u128)
        ensures
            res == self.total_spec(),
    {
        self.total
    }
}

/// The sum of the durations `ds`.
pub open spec fn total_of(ds: Seq<u128>) -> int
    decreases ds.len(),
{
    if ds.len() == 0 {
        0
    } else {
        total_of(ds.drop_last()) + ds.last()
    }
}

/// Each song of a queue ends where the durations of it and of every song
/// before it add up to, so the ends never decrease and the last one is the
/// length of the whole queue.
pub proof fn law_song_ends_are_running_totals(ds: Seq<u128>)
    ensures
        song_ends(ds).len() == ds.len(),
        forall|k: int| 0 <= k < ds.len() ==> #[trigger] song_ends(ds)[k] == total_of(ds.take(k + 1)),
        forall|i: int, j: int|
            0 <= i <= j < ds.len() ==> #[trigger] song_ends(ds)[i] <= #[trigger] song_ends(ds)[j],
        ds.len() > 0 ==> song_ends(ds).last() == total_of(ds),
    decreases ds.len(),
{
    if ds.len() > 0 {
        let d0 = ds.drop_last();
        law_song_ends_are_running_totals(d0);
        assert(ds.take(ds.len() as int) =~= ds);
        assert forall|k: int| 0 <= k < d0.len() implies #[trigger] song_ends(ds)[k] == total_of(
            ds.take(k + 1),
        ) by {
            assert(d0.take(k + 1) =~= ds.take(k + 1));
            assert(song_ends(ds)[k] == song_ends(d0)[k]);
        }
        assert(ds.take(ds.len() as int).drop_last() =~= d0);
        if d0.len() > 0 {
            assert(d0.take(d0.len() as int) =~= d0);
        }
        lemma_total_of_nonneg(d0);
    }
}

proof fn lemma_total_of_nonneg(ds: Seq<u128>)
    ensures
        total_of(ds) >= 0,
    decreases ds.len(),
{
    if ds.len() > 0 {
        lemma_total_of_nonneg(ds.drop_last());
    }
}

/// Queuing songs one by one with `push_song` builds the song ends of their
/// durations: a queue whose ends are those of `ds` and whose total is their
/// sum, given one more song of duration `d`, has the ends of `ds` followed
/// by `d`.
pub proof fn law_push_song_extends_song_ends(ds: Seq<u128>, d: u128, ends: Seq<int>, total: int)
    requires
        ends == song_ends(ds),
        total == total_of(ds),
    ensures
        ends.push(total + d) == song_ends(ds.push(d)),
        total + d == total_of(ds.push(d)),
{
    law_song_ends_are_running_totals(ds);
    assert(ds.push(d).drop_last() =~= ds);
}

} // verus!
