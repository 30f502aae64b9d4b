//! Remote control: the playback state that other devices can read, and the commands that
//! they send.

use vstd::prelude::*;

use crate::bluez;
use crate::bluez::BlueZEvent;

verus! {

// ---------------------------------------------------------------------------------
// Playback state
// ---------------------------------------------------------------------------------

/// Playback state, as remote devices see it.
#[derive(Debug, Clone)]
pub struct PlaybackInfo {
    /// "playing", "paused" or "stopped".
    pub status: String,
    pub title: String,
    pub artist: String,
    pub album: String,
    pub genre: String,
    pub track_number: u32,
    /// In microseconds.
    pub duration_us: u64,
    /// In microseconds.
    pub position_us: u64,
    pub shuffle: bool,
    /// "off", "singletrack" or "alltracks".
    pub repeat: String,
}

/// What a playback state holds.
pub ghost struct PlaybackView {
    pub status: Seq<char>,
    pub title: Seq<char>,
    pub artist: Seq<char>,
    pub album: Seq<char>,
    pub genre: Seq<char>,
    pub track_number: u32,
    pub duration_us: u64,
    pub position_us: u64,
    pub shuffle: bool,
    pub repeat: Seq<char>,
}

impl View for PlaybackInfo {
    type V = PlaybackView;

    open spec fn view(&self) -> PlaybackView {
        PlaybackView {
            status: self.status@,
            title: self.title@,
            artist: self.artist@,
            album: self.album@,
            genre: self.genre@,
            track_number: self.track_number,
            duration_us: self.duration_us,
            position_us: self.position_us,
            shuffle: self.shuffle,
            repeat: self.repeat@,
        }
    }
}

/// The state in which nothing was played yet.
pub open spec fn stopped() -> PlaybackView {
    PlaybackView {
        status: "stopped"@,
        title: Seq::empty(),
        artist: Seq::empty(),
        album: Seq::empty(),
        genre: Seq::empty(),
        track_number: 0,
        duration_us: 0,
        position_us: 0,
        shuffle: false,
        repeat: "off"@,
    }
}

impl Default for PlaybackInfo {
    fn default() -> (p: PlaybackInfo)
        ensures
            p@ == stopped(),
    {
        PlaybackInfo {
            status: "stopped".to_owned(),
            title: String::new(),
            artist: String::new(),
            album: String::new(),
            genre: String::new(),
            track_number: 0,
            duration_us: 0,
            position_us: 0,
            shuffle: false,
            repeat: "off".to_owned(),
        }
    }
}

/// The state after a track change: the new track starts from its beginning.
pub open spec fn with_metadata(
    p: PlaybackView,
    title: Seq<char>,
    artist: Seq<char>,
    album: Seq<char>,
    duration_us: u64,
) -> PlaybackView {
    PlaybackView { title, artist, album, duration_us, position_us: 0, ..p }
}

/// The state with another status.
pub open spec fn with_status(p: PlaybackView, status: Seq<char>) -> PlaybackView {
    PlaybackView { status, ..p }
}

/// The state at another position.
pub open spec fn with_position(p: PlaybackView, position_us: u64) -> PlaybackView {
    PlaybackView { position_us, ..p }
}

/// A track change.
pub fn update_metadata(
    info: &mut PlaybackInfo,
    title: &str,
    artist: &str,
    album: &str,
    duration_us: u64,
)
    ensures
        final(info)@ == with_metadata(old(info)@, title@, artist@, album@, duration_us),
{
    info.title = title.to_owned();
    info.artist = artist.to_owned();
    info.album = album.to_owned();
    info.duration_us = duration_us;
    info.position_us = 0;
}

/// Playing, pausing or stopping.
pub fn update_status(info: &mut PlaybackInfo, status: &str)
    ensures
        final(info)@ == with_status(old(info)@, status@),
{
    info.status = status.to_owned();
}

/// Progress or seeking.
pub fn update_position(info: &mut PlaybackInfo, position_us: u64)
    ensures
        final(info)@ == with_position(old(info)@, position_us),
{
    info.position_us = position_us;
}

// ---------------------------------------------------------------------------------
// Properties that remote devices read
// ---------------------------------------------------------------------------------

/// A value in the track dictionary.
#[derive(Debug, Clone)]
pub enum TrackValue {
    Text(String),
    Number(u32),
    Micros(u64),
}

/// What a value in the track dictionary says.
pub ghost enum TrackValueView {
    Text(Seq<char>),
    Number(u32),
    Micros(u64),
}

impl View for TrackValue {
    type V = TrackValueView;

    open spec fn view(&self) -> TrackValueView {
        match *self {
            TrackValue::Text(s) => TrackValueView::Text(s@),
            TrackValue::Number(n) => TrackValueView::Number(n),
            TrackValue::Micros(n) => TrackValueView::Micros(n),
        }
    }
}

/// The entry of a text, which is left out when it is empty.
pub open spec fn text_entry(key: Seq<char>, s: Seq<char>) -> Seq<(Seq<char>, TrackValueView)> {
    if s.len() > 0 {
        seq![(key, TrackValueView::Text(s))]
    } else {
        Seq::empty()
    }
}

/// The entries of the track dictionary: what is empty or zero is left out.
pub open spec fn track_entries(p: PlaybackView) -> Seq<(Seq<char>, TrackValueView)> {
    text_entry("Title"@, p.title) + text_entry("Artist"@, p.artist) + text_entry("Album"@, p.album)
        + text_entry("Genre"@, p.genre) + (if p.track_number > 0 {
        seq![("TrackNumber"@, TrackValueView::Number(p.track_number))]
    } else {
        Seq::empty()
    }) + (if p.duration_us > 0 {
        seq![("Duration"@, TrackValueView::Micros(p.duration_us))]
    } else {
        Seq::empty()
    })
}

/// What entries say.
pub open spec fn entry_views(v: Seq<(&'static str, TrackValue)>) -> Seq<
    (Seq<char>, TrackValueView),
> {
    v.map_values(|e: (&'static str, TrackValue)| (e.0@, e.1@))
}

/// Adds the entry of a text, unless it is empty.
fn push_text(v: &mut Vec<(&'static str, TrackValue)>, key: &'static str, s: &String)
    ensures
        entry_views(final(v)@) == entry_views(old(v)@) + text_entry(key@, s@),
{
    if !s.as_str().is_empty() {
        v.push((key, TrackValue::Text(s.clone())));
    }
    assert(entry_views(v@) =~= entry_views(old(v)@) + text_entry(key@, s@));
}

/// The media player that remote devices see.
#[derive(Debug)]
pub struct MediaPlayer {
    pub info: PlaybackInfo,
}

impl MediaPlayer {
    /// A player that has not played anything yet.
    pub fn new() -> (p: MediaPlayer)
        ensures
            p.info@ == stopped(),
    {
        MediaPlayer { info: PlaybackInfo::default() }
    }

    /// Playback status.
    pub fn status(&self) -> (s: String)
        ensures
            s@ == self.info@.status,
    {
        self.info.status.clone()
    }

    /// Position in the track, in microseconds.
    pub fn position(&self) -> (n: u64)
        ensures
            n == self.info@.position_us,
    {
        self.info.position_us
    }

    /// The track dictionary.
    pub fn track(&self) -> (entries: Vec<(&'static str, TrackValue)>)
        ensures
            entry_views(entries@) == track_entries(self.info@),
    {
        let mut v: Vec<(&'static str, TrackValue)> = Vec::new();
        assert(entry_views(v@) =~= Seq::<(Seq<char>, TrackValueView)>::empty());
        push_text(&mut v, "Title", &self.info.title);
        push_text(&mut v, "Artist", &self.info.artist);
        push_text(&mut v, "Album", &self.info.album);
        push_text(&mut v, "Genre", &self.info.genre);
        if self.info.track_number > 0 {
            v.push(("TrackNumber", TrackValue::Number(self.info.track_number)));
        }
        if self.info.duration_us > 0 {
            v.push(("Duration", TrackValue::Micros(self.info.duration_us)));
        }
        assert(entry_views(v@) =~= track_entries(self.info@));
        v
    }

    /// Shuffle mode.
    pub fn shuffle(&self) -> (s: &'static str)
        ensures
            s@ == (if self.info@.shuffle {
                "alltracks"@
            } else {
                "off"@
            }),
    {
        if self.info.shuffle {
            "alltracks"
        } else {
            "off"
        }
    }

    /// Repeat mode.
    pub fn repeat(&self) -> (s: String)
        ensures
            s@ == self.info@.repeat,
    {
        self.info.repeat.clone()
    }

    /// The name that remote devices show.
    pub fn name(&self) -> (s: &'static str)
        ensures
            s@ == "DeMoD BT"@,
    {
        "DeMoD BT"
    }

    /// The player's type.
    pub fn player_type(&self) -> (s: &'static str)
        ensures
            s@ == "Audio"@,
    {
        "Audio"
    }

    /// The player's subtype.
    pub fn subtype(&self) -> (s: &'static str)
        ensures
            s@ == "Music"@,
    {
        "Music"
    }

    /// Media browsing is not supported.
    pub fn browsable(&self) -> (b: bool)
        ensures
            !b,
    {
        false
    }

    /// Searching is not supported.
    pub fn searchable(&self) -> (b: bool)
        ensures
            !b,
    {
        false
    }
}

// ---------------------------------------------------------------------------------
// Commands that remote devices send
// ---------------------------------------------------------------------------------

/// A command of a remote device.
#[derive(Debug, Clone, Copy, PartialEq, Eq, Structural)]
pub enum PlayerCommand {
    Play,
    Pause,
    Stop,
    Next,
    Previous,
    FastForward,
    Rewind,
}

impl PlayerCommand {
    /// The message of a command.
    pub open spec fn text(self) -> Seq<char> {
        match self {
            PlayerCommand::Play => "AVRCP:Play"@,
            PlayerCommand::Pause => "AVRCP:Pause"@,
            PlayerCommand::Stop => "AVRCP:Stop"@,
            PlayerCommand::Next => "AVRCP:Next"@,
            PlayerCommand::Previous => "AVRCP:Previous"@,
            PlayerCommand::FastForward => "AVRCP:FastForward"@,
            PlayerCommand::Rewind => "AVRCP:Rewind"@,
        }
    }

    /// The event by which a command reaches the control plane.
    pub fn event(self) -> (e: BlueZEvent)
        ensures
            e@ == (bluez::EventView::Error { message: self.text() }),
    {
        let message = match self {
            PlayerCommand::Play => "AVRCP:Play",
            PlayerCommand::Pause => "AVRCP:Pause",
            PlayerCommand::Stop => "AVRCP:Stop",
            PlayerCommand::Next => "AVRCP:Next",
            PlayerCommand::Previous => "AVRCP:Previous",
            PlayerCommand::FastForward => "AVRCP:FastForward",
            PlayerCommand::Rewind => "AVRCP:Rewind",
        };
        BlueZEvent::Error { message: message.to_owned() }
    }
}

// ---------------------------------------------------------------------------------
// Laws of what remote devices see
// ---------------------------------------------------------------------------------

proof fn lemma_contains_joined<A>(a: Seq<A>, b: Seq<A>, x: A)
    ensures
        (a + b).contains(x) <==> a.contains(x) || b.contains(x),
{
    if a.contains(x) {
        let i = choose|i: int| 0 <= i < a.len() && a[i] == x;
        assert((a + b)[i] == x);
    }
    if b.contains(x) {
        let i = choose|i: int| 0 <= i < b.len() && b[i] == x;
        assert((a + b)[a.len() + i] == x);
    }
}

/// The track dictionary has an entry for each thing that is known, under its key and with its
/// value, and no other entries.
pub proof fn law_track_dictionary(p: PlaybackView, key: Seq<char>, value: TrackValueView)
    ensures
        track_entries(p).contains((key, value)) <==> {
            ||| key == "Title"@ && value == TrackValueView::Text(p.title) && p.title.len() > 0
            ||| key == "Artist"@ && value == TrackValueView::Text(p.artist) && p.artist.len() > 0
            ||| key == "Album"@ && value == TrackValueView::Text(p.album) && p.album.len() > 0
            ||| key == "Genre"@ && value == TrackValueView::Text(p.genre) && p.genre.len() > 0
            ||| key == "TrackNumber"@ && value == TrackValueView::Number(p.track_number)
                && p.track_number > 0
            ||| key == "Duration"@ && value == TrackValueView::Micros(p.duration_us)
                && p.duration_us > 0
        },
{
    let x = (key, value);
    let e1 = text_entry("Title"@, p.title);
    let e2 = text_entry("Artist"@, p.artist);
    let e3 = text_entry("Album"@, p.album);
    let e4 = text_entry("Genre"@, p.genre);
    let e5 = if p.track_number > 0 {
        seq![("TrackNumber"@, TrackValueView::Number(p.track_number))]
    } else {
        Seq::empty()
    };
    let e6 = if p.duration_us > 0 {
        seq![("Duration"@, TrackValueView::Micros(p.duration_us))]
    } else {
        Seq::empty()
    };
    lemma_contains_joined(e1, e2, x);
    lemma_contains_joined(e1 + e2, e3, x);
    lemma_contains_joined(e1 + e2 + e3, e4, x);
    lemma_contains_joined(e1 + e2 + e3 + e4, e5, x);
    lemma_contains_joined(e1 + e2 + e3 + e4 + e5, e6, x);
    lemma_text_entry("Title"@, p.title, x);
    lemma_text_entry("Artist"@, p.artist, x);
    lemma_text_entry("Album"@, p.album, x);
    lemma_text_entry("Genre"@, p.genre, x);
    if p.track_number > 0 {
        assert(e5[0] == ("TrackNumber"@, TrackValueView::Number(p.track_number)));
    }
    if p.duration_us > 0 {
        assert(e6[0] == ("Duration"@, TrackValueView::Micros(p.duration_us)));
    }
}

proof fn lemma_text_entry(key: Seq<char>, s: Seq<char>, x: (Seq<char>, TrackValueView))
    ensures
        text_entry(key, s).contains(x) <==> s.len() > 0 && x == (key, TrackValueView::Text(s)),
{
    if s.len() > 0 {
        assert(text_entry(key, s)[0] == (key, TrackValueView::Text(s)));
    }
}

/// Every entry stands in the dictionary once: there are as many as things that are known.
pub proof fn law_track_dictionary_size(p: PlaybackView)
    ensures
        track_entries(p).len() == (if p.title.len() > 0 {
            1int
        } else {
            0int
        }) + (if p.artist.len() > 0 {
            1int
        } else {
            0int
        }) + (if p.album.len() > 0 {
            1int
        } else {
            0int
        }) + (if p.genre.len() > 0 {
            1int
        } else {
            0int
        }) + (if p.track_number > 0 {
            1int
        } else {
            0int
        }) + (if p.duration_us > 0 {
            1int
        } else {
            0int
        }),
{
}

/// A track change replaces the track and starts it from its beginning; a status and a
/// position change nothing but themselves.
pub proof fn law_playback_changes(
    p: PlaybackView,
    title: Seq<char>,
    artist: Seq<char>,
    album: Seq<char>,
    duration_us: u64,
    status: Seq<char>,
    position_us: u64,
)
    ensures
        ({
            let q = with_metadata(p, title, artist, album, duration_us);
            &&& q.title == title
            &&& q.artist == artist
            &&& q.album == album
            &&& q.duration_us == duration_us
            &&& q.position_us == 0
            &&& q.status == p.status
            &&& q.genre == p.genre
            &&& q.track_number == p.track_number
            &&& q.shuffle == p.shuffle
            &&& q.repeat == p.repeat
        }),
        with_status(p, status).status == status,
        with_status(with_status(p, status), p.status) == p,
        with_position(p, position_us).position_us == position_us,
        with_position(with_position(p, position_us), p.position_us) == p,
        with_status(with_position(p, position_us), status) == with_position(
            with_status(p, status),
            position_us,
        ),
{
}

/// Before anything was played, the player is stopped, without a track, and neither shuffles
/// nor repeats.
pub proof fn law_stopped()
    ensures
        stopped().status == "stopped"@,
        track_entries(stopped()).len() == 0,
        stopped().position_us == 0,
        !stopped().shuffle,
        stopped().repeat == "off"@,
{
}

/// Commands reach the control plane behind the name of the profile.
pub proof fn law_command_messages()
    ensures
        PlayerCommand::Play.text() == "AVRCP:"@ + "Play"@,
        PlayerCommand::Pause.text() == "AVRCP:"@ + "Pause"@,
        PlayerCommand::Stop.text() == "AVRCP:"@ + "Stop"@,
        PlayerCommand::Next.text() == "AVRCP:"@ + "Next"@,
        PlayerCommand::Previous.text() == "AVRCP:"@ + "Previous"@,
        PlayerCommand::FastForward.text() == "AVRCP:"@ + "FastForward"@,
        PlayerCommand::Rewind.text() == "AVRCP:"@ + "Rewind"@,
{
    reveal_strlit("AVRCP:");
    reveal_strlit("Play");
    reveal_strlit("Pause");
    reveal_strlit("Stop");
    reveal_strlit("Next");
    reveal_strlit("Previous");
    reveal_strlit("FastForward");
    reveal_strlit("Rewind");
    reveal_strlit("AVRCP:Play");
    reveal_strlit("AVRCP:Pause");
    reveal_strlit("AVRCP:Stop");
    reveal_strlit("AVRCP:Next");
    reveal_strlit("AVRCP:Previous");
    reveal_strlit("AVRCP:FastForward");
    reveal_strlit("AVRCP:Rewind");
    assert("AVRCP:Play"@ =~= "AVRCP:"@ + "Play"@);
    assert("AVRCP:Pause"@ =~= "AVRCP:"@ + "Pause"@);
    assert("AVRCP:Stop"@ =~= "AVRCP:"@ + "Stop"@);
    assert("AVRCP:Next"@ =~= "AVRCP:"@ + "Next"@);
    assert("AVRCP:Previous"@ =~= "AVRCP:"@ + "Previous"@);
    assert("AVRCP:FastForward"@ =~= "AVRCP:"@ + "FastForward"@);
    assert("AVRCP:Rewind"@ =~= "AVRCP:"@ + "Rewind"@);
}

/// What entries say, one for each and in the same order.
pub proof fn law_entry_views(v: Seq<(&'static str, TrackValue)>, i: int)
    requires
        0 <= i < v.len(),
    ensures
        entry_views(v).len() == v.len(),
        entry_views(v)[i].0 == v[i].0@,
        entry_views(v)[i].1 == v[i].1@,
{
}

} // verus!
