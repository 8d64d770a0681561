use vstd::prelude::*;
use crate::navigation::Route;

verus! {

/// The width of the collapsed sidebar, in pixels.
pub const COLLAPSED_WIDTH: i32 = 56;

/// The resizable sidebar: its width when open, and whether it is collapsed
/// to icons.
#[derive(Debug, Clone, Copy, PartialEq, Eq, Structural)]
pub struct SidebarSize {
    pub width: i32,
    pub collapsed: bool,
}

impl SidebarSize {
    /// The open width is never below the width at which dragging collapses it.
    pub open spec fn wf(self) -> bool {
        self.width >= 130
    }

    /// Open, 200 pixels wide.
    pub fn new() -> (r: SidebarSize)
        ensures
            r.wf(),
            r.width == 200,
            !r.collapsed,
    {
        SidebarSize { width: 200, collapsed: false }
    }

    /// The width the sidebar takes on screen.
    pub fn current_width(&self) -> (r: i32)
        ensures
            r == (if self.collapsed { COLLAPSED_WIDTH } else { self.width }),
    {
        if self.collapsed {
            COLLAPSED_WIDTH
        } else {
            self.width
        }
    }

    /// The resize handle dragged to `x`: a collapsed sidebar opens at `x`
    /// once dragged past 160; an open one collapses below 130 and otherwise
    /// follows the handle up to 400.
    pub fn drag_to(&mut self, x: i32)
        requires
            old(self).wf(),
        ensures
            final(self).wf(),
            old(self).collapsed ==> *final(self) == (if x > 160 {
                SidebarSize { width: x, collapsed: false }
            } else {
                *old(self)
            }),
            !old(self).collapsed ==> *final(self) == (if x < 130 {
                SidebarSize { width: old(self).width, collapsed: true }
            } else if x < 400 {
                SidebarSize { width: x, collapsed: false }
            } else {
                *old(self)
            }),
    {
        if self.collapsed {
            if x > 160 {
                self.collapsed = false;
                self.width = x;
            }
        } else if x < 130 {
            self.collapsed = true;
        } else if x < 400 {
            self.width = x;
        }
    }
}

/// A link of the sidebar: its label key, page and icon.
#[derive(Debug, Clone, Copy)]
pub struct NavItem {
    pub key: &'static str,
    pub route: Route,
    pub icon: &'static str,
}

/// The pages of the sidebar's sections, in order: Home, Search, Discover and
/// Radio, then the library pages.
pub open spec fn section_routes() -> Seq<Route> {
    seq![
        Route::Home,
        Route::Search,
        Route::Discover,
        Route::Radio,
        Route::Library,
        Route::Album,
        Route::Artist,
        Route::Favorites,
        Route::Activity,
        Route::Playlists,
    ]
}

/// The section links shown: all of them, but Discover only when the active
/// source can discover.
pub open spec fn shown_routes(has_discover: bool) -> Seq<Route> {
    if has_discover {
        section_routes()
    } else {
        section_routes().remove(2)
    }
}

/// The label key and icon of a section link.
pub open spec fn nav_key_icon(route: Route) -> (Seq<char>, Seq<char>) {
    match route {
        Route::Home => ("home"@, "fa-solid fa-house"@),
        Route::Search => ("search"@, "fa-solid fa-magnifying-glass"@),
        Route::Discover => ("discover"@, "fa-solid fa-compass"@),
        Route::Radio => ("radio"@, "fa-solid fa-radio"@),
        Route::Library => ("library"@, "fa-solid fa-music"@),
        Route::Album => ("albums"@, "fa-solid fa-record-vinyl"@),
        Route::Artist => ("artists"@, "fa-solid fa-user"@),
        Route::Favorites => ("favorites"@, "fa-solid fa-heart"@),
        Route::Activity => ("activity"@, "fa-solid fa-chart-simple"@),
        Route::Playlists => ("playlists"@, "fa-solid fa-list"@),
        Route::Ytdlp => ("ytdlp"@, "fa-solid fa-download"@),
        Route::Settings => ("settings"@, "fa-solid fa-gear"@),
    }
}

fn item(key: &'static str, route: Route, icon: &'static str) -> (r: NavItem)
    requires
        (key@, icon@) == nav_key_icon(route),
    ensures
        (r.key@, r.icon@) == nav_key_icon(r.route),
        r.key == key,
        r.route == route,
        r.icon == icon,
{
    NavItem { key, route, icon }
}

/// The links of the sidebar's sections, with their label keys and icons.
pub fn section_items(has_discover: bool) -> (r: Vec<NavItem>)
    ensures
        r@.map_values(|i: NavItem| i.route) == shown_routes(has_discover),
        forall|k: int| 0 <= k < r@.len() ==> ((#[trigger] r@[k]).key@, r@[k].icon@) == nav_key_icon(r@[k].route),
{
    let mut v: Vec<NavItem> = Vec::new();
    v.push(item("home", Route::Home, "fa-solid fa-house"));
    v.push(item("search", Route::Search, "fa-solid fa-magnifying-glass"));
    if has_discover {
        v.push(item("discover", Route::Discover, "fa-solid fa-compass"));
    }
    v.push(item("radio", Route::Radio, "fa-solid fa-radio"));
    v.push(item("library", Route::Library, "fa-solid fa-music"));
    v.push(item("albums", Route::Album, "fa-solid fa-record-vinyl"));
    v.push(item("artists", Route::Artist, "fa-solid fa-user"));
    v.push(item("favorites", Route::Favorites, "fa-solid fa-heart"));
    v.push(item("activity", Route::Activity, "fa-solid fa-chart-simple"));
    v.push(item("playlists", Route::Playlists, "fa-solid fa-list"));
    assert(v@.map_values(|i: NavItem| i.route) =~= shown_routes(has_discover));
    v
}

/// The tool links under the sections: the downloader (on desktop builds) and
/// the settings.
pub fn tool_items(with_downloader: bool) -> (r: Vec<NavItem>)
    ensures
        r@.map_values(|i: NavItem| i.route) == (if with_downloader {
            seq![Route::Ytdlp, Route::Settings]
        } else {
            seq![Route::Settings]
        }),
        forall|k: int| 0 <= k < r@.len() ==> ((#[trigger] r@[k]).key@, r@[k].icon@) == nav_key_icon(r@[k].route),
{
    let mut v: Vec<NavItem> = Vec::new();
    if with_downloader {
        v.push(item("ytdlp", Route::Ytdlp, "fa-solid fa-download"));
    }
    v.push(item("settings", Route::Settings, "fa-solid fa-gear"));
    assert(v@.map_values(|i: NavItem| i.route) =~= (if with_downloader {
        seq![Route::Ytdlp, Route::Settings]
    } else {
        seq![Route::Settings]
    }));
    v
}

} // verus!
