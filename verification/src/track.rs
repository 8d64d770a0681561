use vstd::prelude::*;

verus! {

/// The parts of a library track that the list logic reads.
#[derive(Debug, Clone)]
pub struct Track {
    /// The track's location: a file path, or `service:id[:tag]` for a server item.
    pub path: String,
    pub album_id: String,
    pub title: String,
    pub artist: String,
    pub album: String,
    /// Length in seconds; `u64::MAX` marks an endless stream (radio).
    pub duration: u64,
    pub disc_number: Option<u32>,
    pub track_number: Option<u32>,
}

/// A track as plain values.
pub struct TrackView {
    pub path: Seq<char>,
    pub album_id: Seq<char>,
    pub title: Seq<char>,
    pub artist: Seq<char>,
    pub album: Seq<char>,
    pub duration: u64,
    pub disc_number: Option<u32>,
    pub track_number: Option<u32>,
}

impl View for Track {
    type V = TrackView;

    open spec fn view(&self) -> TrackView {
        TrackView {
            path: self.path@,
            album_id: self.album_id@,
            title: self.title@,
            artist: self.artist@,
            album: self.album@,
            duration: self.duration,
            disc_number: self.disc_number,
            track_number: self.track_number,
        }
    }
}

impl Track {
    /// A field-by-field copy.
    pub fn duplicate(&self) -> (r: Track)
        ensures
            r == *self,
    {
        Track {
            path: self.path.clone(),
            album_id: self.album_id.clone(),
            title: self.title.clone(),
            artist: self.artist.clone(),
            album: self.album.clone(),
            duration: self.duration,
            disc_number: self.disc_number,
            track_number: self.track_number,
        }
    }
}

} // verus!
