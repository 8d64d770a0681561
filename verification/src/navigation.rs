use vstd::prelude::*;

verus! {

/// The pages of the app.
#[derive(Debug, Clone, Copy, PartialEq, Eq, Structural)]
pub enum Route {
    Home,
    Search,
    Discover,
    Radio,
    Library,
    Album,
    Artist,
    Favorites,
    Activity,
    Playlists,
    Ytdlp,
    Settings,
}

/// The page shown and the artist and album it was last asked to show.
pub struct NavigationController {
    pub current_route: Route,
    pub selected_artist_name: String,
    pub selected_album_id: String,
}

impl NavigationController {
    /// Opens an artist's page; an empty name changes nothing.
    pub fn navigate_to_artist(&mut self, name: String)
        ensures
            name@.len() == 0 ==> *final(self) == *old(self),
            name@.len() > 0 ==> final(self).current_route == Route::Artist
                && final(self).selected_artist_name@ == name@
                && final(self).selected_album_id == old(self).selected_album_id,
    {
        if name.as_str().is_empty() {
            return;
        }
        self.selected_artist_name = name;
        self.current_route = Route::Artist;
    }

    /// Opens an album's page; an empty id changes nothing.
    pub fn navigate_to_album(&mut self, id: String)
        ensures
            id@.len() == 0 ==> *final(self) == *old(self),
            id@.len() > 0 ==> final(self).current_route == Route::Album
                && final(self).selected_album_id@ == id@
                && final(self).selected_artist_name == old(self).selected_artist_name,
    {
        if id.as_str().is_empty() {
            return;
        }
        self.selected_album_id = id;
        self.current_route = Route::Album;
    }
}

} // verus!
