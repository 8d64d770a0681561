use vstd::prelude::*;
use crate::text::{chars_of, push_char};
use crate::track::Track;
use vstd::string::StringSliceAdditionalSpecFns;

verus! {

/// The pieces of `s` between the separators, as `str::split` yields them
/// (an empty string gives one empty piece).
pub open spec fn split_on(s: Seq<char>, sep: char) -> Seq<Seq<char>>
    decreases s.len(),
{
    if s.len() == 0 {
        seq![Seq::<char>::empty()]
    } else {
        let parts = split_on(s.drop_last(), sep);
        if s.last() == sep {
            parts.push(Seq::empty())
        } else {
            parts.update(parts.len() - 1, parts.last().push(s.last()))
        }
    }
}

/// `split_on` always yields at least one piece.
pub proof fn lemma_split_nonempty(s: Seq<char>, sep: char)
    ensures
        split_on(s, sep).len() >= 1,
    decreases s.len(),
{
    if s.len() > 0 {
        lemma_split_nonempty(s.drop_last(), sep);
    }
}

/// The views of a list of strings.
pub open spec fn views(v: Seq<String>) -> Seq<Seq<char>> {
    v.map_values(|p: String| p@)
}

/// The pieces of `s` between colons (`s.split(':')`).
pub fn split_colons(s: &str) -> (r: Vec<String>)
    ensures
        views(r@) == split_on(s@, ':'),
{
    let chars = chars_of(s);
    let mut done: Vec<String> = Vec::new();
    let mut current = String::new();
    let mut i: usize = 0;
    while i < chars.len()
        invariant
            i <= chars@.len(),
            chars@ == s@,
            views(done@).push(current@) == split_on(chars@.take(i as int), ':'),
        decreases chars@.len() - i,
    {
        proof {
            lemma_split_nonempty(chars@.take(i as int), ':');
        }
        assert(chars@.take(i + 1).drop_last() =~= chars@.take(i as int));
        let c = chars[i];
        if c == ':' {
            let finished = current;
            done.push(finished);
            current = String::new();
            assert(views(done@).push(current@) =~= split_on(chars@.take(i + 1), ':'));
        } else {
            push_char(&mut current, c);
            assert(views(done@).push(current@) =~= split_on(chars@.take(i + 1), ':'));
        }
        i = i + 1;
    }
    assert(chars@.take(chars@.len() as int) =~= chars@);
    done.push(current);
    assert(views(done@) =~= split_on(s@, ':'));
    done
}

/// `prefix` starts `s`.
pub open spec fn starts_with(s: Seq<char>, prefix: Seq<char>) -> bool {
    prefix.len() <= s.len() && s.take(prefix.len() as int) == prefix
}

/// Whether `s` starts with `prefix`.
pub fn has_prefix(s: &str, prefix: &str) -> (r: bool)
    ensures
        r == starts_with(s@, prefix@),
{
    let a = chars_of(s);
    let b = chars_of(prefix);
    if b.len() > a.len() {
        return false;
    }
    let mut i: usize = 0;
    while i < b.len()
        invariant
            i <= b@.len(),
            b@.len() <= a@.len(),
            a@ == s@,
            b@ == prefix@,
            forall|k: int| 0 <= k < i ==> a@[k] == b@[k],
        decreases b@.len() - i,
    {
        if a[i] != b[i] {
            assert(a@.take(b@.len() as int)[i as int] != b@[i as int]);
            return false;
        }
        i = i + 1;
    }
    assert(a@.take(b@.len() as int) =~= b@);
    true
}

/// The characters with the Unicode `White_Space` property, which is what
/// `char::is_whitespace` answers: U+0009 to U+000D, U+0020, U+0085, U+00A0,
/// U+1680, U+2000 to U+200A, U+2028, U+2029, U+202F, U+205F and U+3000.
pub open spec fn whitespace(c: char) -> bool {
    let u = c as u32;
    ||| 0x9 <= u <= 0xD
    ||| u == 0x20
    ||| u == 0x85
    ||| u == 0xA0
    ||| u == 0x1680
    ||| 0x2000 <= u <= 0x200A
    ||| u == 0x2028
    ||| u == 0x2029
    ||| u == 0x202F
    ||| u == 0x205F
    ||| u == 0x3000
}

/// Whether a character is whitespace (the `White_Space` property).
pub fn is_whitespace_char(c: char) -> (r: bool)
    ensures
        r == whitespace(c),
{
    let u = c as u32;
    (0x9 <= u && u <= 0xD) || u == 0x20 || u == 0x85 || u == 0xA0 || u == 0x1680 || (0x2000 <= u && u <= 0x200A)
        || u == 0x2028 || u == 0x2029 || u == 0x202F || u == 0x205F || u == 0x3000
}

/// Only whitespace: what `trim` leaves empty.
pub open spec fn blank(s: Seq<char>) -> bool {
    forall|k: int| 0 <= k < s.len() ==> whitespace(s[k])
}

/// Whether a string is empty once trimmed.
pub fn is_blank(s: &str) -> (r: bool)
    ensures
        r == blank(s@),
{
    let chars = chars_of(s);
    let mut i: usize = 0;
    while i < chars.len()
        invariant
            i <= chars@.len(),
            chars@ == s@,
            forall|k: int| 0 <= k < i ==> whitespace(chars@[k]),
        decreases chars@.len() - i,
    {
        if !is_whitespace_char(chars[i]) {
            return false;
        }
        i = i + 1;
    }
    true
}

/// The path prefixes of items that live on a server.
pub open spec fn is_server_path(p: Seq<char>) -> bool {
    starts_with(p, "jellyfin:"@) || starts_with(p, "subsonic:"@) || starts_with(p, "custom:"@)
}

/// Which favourite list a track belongs to.
#[derive(Debug, Clone, PartialEq, Eq)]
pub enum FavoriteKey {
    /// A server item, by its id.
    Server(String),
    /// A local file, by its path.
    Local,
    /// A server path without an id: never a favourite.
    Missing,
}

/// The favourite key of a track path: `service:id[:...]` names a server item
/// by the text between the first and second colon (when it is not blank);
/// any other path is a local file.
pub open spec fn favorite_key_of(p: Seq<char>) -> Option<Option<Seq<char>>> {
    if is_server_path(p) {
        let parts = split_on(p, ':');
        if parts.len() >= 2 && !blank(parts[1]) {
            Some(Some(parts[1]))
        } else {
            Some(None)
        }
    } else {
        None
    }
}

/// The favourite key of a track path (see `favorite_key_of`).
pub fn favorite_key(path: &str) -> (r: FavoriteKey)
    ensures
        favorite_key_of(path@) is None <==> r == FavoriteKey::Local,
        favorite_key_of(path@) == Some(Option::<Seq<char>>::None) <==> r == FavoriteKey::Missing,
        forall|id: Seq<char>| favorite_key_of(path@) == Some(Some(id)) <==> (r matches FavoriteKey::Server(s) && s@ == id),
{
    if has_prefix(path, "jellyfin:") || has_prefix(path, "subsonic:") || has_prefix(path, "custom:") {
        let parts = split_colons(path);
        if parts.len() >= 2 && !is_blank(parts[1].as_str()) {
            assert(views(parts@)[1] == parts@[1]@);
            FavoriteKey::Server(parts[1].clone())
        } else {
            FavoriteKey::Missing
        }
    } else {
        FavoriteKey::Local
    }
}

/// The favourites, as the store keeps them.
pub struct FavoritesStore {
    /// Ids of server items.
    pub server_ids: Vec<String>,
    /// Paths of local files.
    pub local_paths: Vec<String>,
}

/// Whether a list of strings holds one equal to `s`.
pub fn holds(list: &Vec<String>, s: &str) -> (r: bool)
    ensures
        r == views(list@).contains(s@),
{
    let target = String::from_str(s);
    let mut i: usize = 0;
    while i < list.len()
        invariant
            i <= list@.len(),
            target@ == s@,
            forall|k: int| 0 <= k < i ==> list@[k]@ != s@,
        decreases list@.len() - i,
    {
        if list[i] == target {
            assert(views(list@)[i as int] == s@);
            return true;
        }
        i = i + 1;
    }
    assert forall|k: int| 0 <= k < views(list@).len() implies views(list@)[k] != s@ by {
        assert(views(list@)[k] == list@[k]@);
    }
    false
}

/// Whether the playing track is a favourite: server items by id, local files by path.
pub open spec fn is_favorite(track: Option<Track>, store_ids: Seq<Seq<char>>, store_paths: Seq<Seq<char>>) -> bool {
    match track {
        None => false,
        Some(t) => match favorite_key_of(t.path@) {
            None => store_paths.contains(t.path@),
            Some(None) => false,
            Some(Some(id)) => store_ids.contains(id),
        },
    }
}

/// The heart shown for the playing track.
pub fn get_favorite(current_track: Option<&Track>, favorites_store: &FavoritesStore) -> (r: bool)
    ensures
        r == is_favorite(
            match current_track {
                Some(t) => Some(*t),
                None => None,
            },
            views(favorites_store.server_ids@),
            views(favorites_store.local_paths@),
        ),
{
    match current_track {
        None => false,
        Some(track) => match favorite_key(track.path.as_str()) {
            FavoriteKey::Server(id) => holds(&favorites_store.server_ids, id.as_str()),
            FavoriteKey::Missing => false,
            FavoriteKey::Local => holds(&favorites_store.local_paths, track.path.as_str()),
        },
    }
}

/// `list` with `s` in or out, everything else as before.
pub open spec fn marked(before: Seq<Seq<char>>, after: Seq<Seq<char>>, s: Seq<char>, on: bool) -> bool {
    forall|x: Seq<char>| #[trigger] after.contains(x) == (if x == s { on } else { before.contains(x) })
}

/// Puts `s` into `list` (once) or takes every copy of it out.
pub fn set_membership(list: &mut Vec<String>, s: &str, on: bool)
    ensures
        marked(views(old(list)@), views(final(list)@), s@, on),
{
    let ghost start = views(list@);
    if on {
        if !holds(list, s) {
            list.push(String::from_str(s));
            assert(views(list@) =~= start.push(s@));
        }
        assert forall|x: Seq<char>| #[trigger] views(list@).contains(x) == (if x == s@ {
            on
        } else {
            start.contains(x)
        }) by {
            if x == s@ {
                if start.contains(s@) {
                    let k = choose|k: int| 0 <= k < start.len() && start[k] == x;
                    assert(views(list@)[k] == x);
                } else {
                    assert(views(list@)[views(list@).len() - 1] == x);
                }
            }
            if views(list@).contains(x) && x != s@ {
                let k = choose|k: int| 0 <= k < views(list@).len() && views(list@)[k] == x;
                assert(k < start.len());
                assert(start[k] == x);
            }
            if start.contains(x) {
                let k = choose|k: int| 0 <= k < start.len() && start[k] == x;
                assert(views(list@)[k] == x);
            }
        }
    } else {
        let mut old_list: Vec<String> = Vec::new();
        std::mem::swap(list, &mut old_list);
        let mut i: usize = 0;
        while i < old_list.len()
            invariant
                i <= old_list@.len(),
                views(old_list@) == start,
                forall|x: Seq<char>| #[trigger] views(list@).contains(x) == (x != s@ && views(old_list@).take(i as int).contains(x)),
            decreases old_list@.len() - i,
        {
            let ghost before = views(list@);
            let item = old_list[i].clone();
            proof {
                assert(views(old_list@).take(i + 1) =~= views(old_list@).take(i as int).push(item@));
            }
            if !str_equal(item.as_str(), s) {
                list.push(item);
                assert(views(list@) =~= before.push(old_list@[i as int]@));
            }
            assert forall|x: Seq<char>| #[trigger] views(list@).contains(x) == (x != s@ && views(old_list@).take(i + 1).contains(x)) by {
                let longer = views(old_list@).take(i + 1);
                let shorter = views(old_list@).take(i as int);
                assert(longer[i as int] == old_list@[i as int]@);
                if x == old_list@[i as int]@ && x != s@ {
                    assert(views(list@)[views(list@).len() - 1] == x);
                }
                if longer.contains(x) {
                    let k = choose|k: int| 0 <= k < longer.len() && longer[k] == x;
                    if k < i {
                        assert(shorter[k] == x);
                    }
                }
                if shorter.contains(x) {
                    let k = choose|k: int| 0 <= k < shorter.len() && shorter[k] == x;
                    assert(longer[k] == x);
                }
                if views(list@).contains(x) {
                    let k = choose|k: int| 0 <= k < views(list@).len() && views(list@)[k] == x;
                    if k < before.len() {
                        assert(before[k] == x);
                    }
                }
                if before.contains(x) {
                    let k = choose|k: int| 0 <= k < before.len() && before[k] == x;
                    assert(views(list@)[k] == x);
                }
            }
            i = i + 1;
        }
        assert(views(old_list@).take(old_list@.len() as int) =~= start);
    }
}

/// Whether two strings are equal.
pub fn str_equal(a: &str, b: &str) -> (r: bool)
    ensures
        r == (a@ == b@),
{
    let x = String::from_str(a);
    let y = String::from_str(b);
    x == y
}

/// What a click on the heart asks of the server.
#[derive(Debug, Clone, PartialEq, Eq)]
pub enum FavoriteToggle {
    /// Tell the server the item's new state; on failure, undo it with `revert_favorite`.
    Sync { item_id: String, new_fav: bool },
    /// A local file was toggled; nothing to send.
    Local,
    /// Nothing playing, or a server path without an id.
    Nothing,
}

/// Flips the favourite state of the playing track in the store. A server item
/// changes at once and the returned request carries its new state to the
/// server; a local file flips in the local list.
pub fn toggle_favorite(current_track: Option<&Track>, favorites_store: &mut FavoritesStore) -> (r: FavoriteToggle)
    ensures
        current_track is None ==> r == FavoriteToggle::Nothing && *final(favorites_store) == *old(favorites_store),
        current_track matches Some(t) ==> match favorite_key_of(t.path@) {
            None => r == FavoriteToggle::Local && final(favorites_store).server_ids == old(favorites_store).server_ids
                && marked(views(old(favorites_store).local_paths@), views(final(favorites_store).local_paths@), t.path@,
                    !views(old(favorites_store).local_paths@).contains(t.path@)),
            Some(None) => r == FavoriteToggle::Nothing && *final(favorites_store) == *old(favorites_store),
            Some(Some(id)) => (r matches FavoriteToggle::Sync { item_id, new_fav } && item_id@ == id
                && new_fav == !views(old(favorites_store).server_ids@).contains(id))
                && final(favorites_store).local_paths == old(favorites_store).local_paths
                && marked(views(old(favorites_store).server_ids@), views(final(favorites_store).server_ids@), id,
                    !views(old(favorites_store).server_ids@).contains(id)),
        },
{
    match current_track {
        None => FavoriteToggle::Nothing,
        Some(track) => match favorite_key(track.path.as_str()) {
            FavoriteKey::Server(item_id) => {
                let currently_fav = holds(&favorites_store.server_ids, item_id.as_str());
                let new_fav = !currently_fav;
                set_membership(&mut favorites_store.server_ids, item_id.as_str(), new_fav);
                FavoriteToggle::Sync { item_id, new_fav }
            },
            FavoriteKey::Missing => FavoriteToggle::Nothing,
            FavoriteKey::Local => {
                let currently_fav = holds(&favorites_store.local_paths, track.path.as_str());
                set_membership(&mut favorites_store.local_paths, track.path.as_str(), !currently_fav);
                FavoriteToggle::Local
            },
        },
    }
}

/// Undoes a server favourite change that could not be sent.
pub fn revert_favorite(favorites_store: &mut FavoritesStore, item_id: &str, new_fav: bool)
    ensures
        final(favorites_store).local_paths == old(favorites_store).local_paths,
        marked(views(old(favorites_store).server_ids@), views(final(favorites_store).server_ids@), item_id@, !new_fav),
{
    set_membership(&mut favorites_store.server_ids, item_id, !new_fav);
}

/// Whether the configured server carries what a favourite change needs to be
/// sent: an access token and a user id.
pub fn has_sync_credentials(server: &Option<crate::config::JellyfinServer>) -> (r: bool)
    ensures
        r == (server matches Some(s) && s.access_token is Some && s.user_id is Some),
{
    match server {
        Some(s) => s.access_token.is_some() && s.user_id.is_some(),
        None => false,
    }
}

/// How sending a favourite change to the server ended.
#[derive(Debug, Clone, Copy, PartialEq, Eq, Structural)]
pub enum FavoriteSync {
    /// The server took the change.
    Sent,
    /// The server call failed.
    Failed,
    /// There were no credentials to send it with.
    NoCredentials,
}

/// After a favourite change was sent: a change the server did not take is
/// reverted in the store; a sent one stays. Returns whether it reverted.
pub fn favorite_sync_done(favorites_store: &mut FavoritesStore, item_id: &str, new_fav: bool, outcome: FavoriteSync) -> (reverted: bool)
    ensures
        reverted == (outcome != FavoriteSync::Sent),
        !reverted ==> *final(favorites_store) == *old(favorites_store),
        reverted ==> final(favorites_store).local_paths == old(favorites_store).local_paths
            && marked(views(old(favorites_store).server_ids@), views(final(favorites_store).server_ids@), item_id@, !new_fav),
{
    if outcome == FavoriteSync::Sent {
        false
    } else {
        revert_favorite(favorites_store, item_id, new_fav);
        true
    }
}

/// The id of a Jellyfin item path (`jellyfin:id[:...]`): the second
/// colon-separated piece; `None` for other paths.
pub open spec fn jellyfin_id_of(uid: Seq<char>) -> Option<Seq<char>> {
    if starts_with(uid, "jellyfin:"@) && split_on(uid, ':').len() >= 2 {
        Some(split_on(uid, ':')[1])
    } else {
        None
    }
}

/// The Jellyfin item id of a track, used to find its offline copy.
pub fn jellyfin_item_id(uid: &str) -> (r: Option<String>)
    ensures
        r matches Some(id) ==> jellyfin_id_of(uid@) == Some(id@),
        r is None ==> jellyfin_id_of(uid@) is None,
{
    if has_prefix(uid, "jellyfin:") {
        let parts = split_colons(uid);
        if parts.len() >= 2 {
            assert(views(parts@)[1] == parts@[1]@);
            return Some(parts[1].clone());
        }
    }
    None
}

/// Whether a listed track is the one playing: the same track id, or, when
/// the player has no track id, the same non-empty title with the same album,
/// artist and length.
pub fn is_currently_playing(
    track: &Track,
    currently_playing_path: Option<&String>,
    current_song_title: &String,
    current_song_artist: &String,
    current_song_album: &String,
    current_song_duration: u64,
) -> (r: bool)
    ensures
        r == ((currently_playing_path matches Some(p) && p@ == track.path@) || (
        currently_playing_path is None && current_song_title@.len() > 0 && track.title@
            == current_song_title@ && track.album@ == current_song_album@ && track.artist@
            == current_song_artist@ && track.duration == current_song_duration)),
{
    let matches_current_path = match currently_playing_path {
        Some(p) => *p == track.path,
        None => false,
    };
    let matches_current_metadata = currently_playing_path.is_none()
        && !current_song_title.as_str().is_empty()
        && track.title == *current_song_title
        && track.album == *current_song_album
        && track.artist == *current_song_artist
        && track.duration == current_song_duration;
    matches_current_path || matches_current_metadata
}

/// The query of a cover URL: the image tag and the access token, when known.
pub open spec fn cover_query(tag: Option<Seq<char>>, token: Option<Seq<char>>) -> Seq<char> {
    match (tag, token) {
        (None, None) => Seq::empty(),
        (Some(t), None) => "?tag="@ + t,
        (None, Some(k)) => "?api_key="@ + k,
        (Some(t), Some(k)) => "?tag="@ + t + "&api_key="@ + k,
    }
}

/// The cover URL of a Jellyfin track path `jellyfin:id[:tag]` on a server.
pub open spec fn jellyfin_cover_url_of(path: Seq<char>, server_url: Seq<char>, token: Option<Seq<char>>) -> Option<Seq<char>> {
    let parts = split_on(path, ':');
    if parts.len() >= 2 {
        Some(server_url + "/Items/"@ + parts[1] + "/Images/Primary"@ + cover_query(
            if parts.len() >= 3 { Some(parts[2]) } else { None },
            token,
        ))
    } else {
        None
    }
}

/// The address of a Jellyfin item's primary image, before any query.
pub open spec fn primary_image_base(path: Seq<char>, server_url: Seq<char>) -> Seq<char> {
    server_url + "/Items/"@ + split_on(path, ':')[1] + "/Images/Primary"@
}

/// A Jellyfin cover URL is the item's primary image address followed by its
/// query, which, when there is one, opens with `?`; the image tag comes as
/// `?tag=`, the token as `api_key=` after it (or as `?api_key=` alone).
pub proof fn lemma_cover_url_shape(path: Seq<char>, server_url: Seq<char>, token: Option<Seq<char>>)
    ensures
        jellyfin_cover_url_of(path, server_url, token) is Some <==> split_on(path, ':').len() >= 2,
        jellyfin_cover_url_of(path, server_url, token) matches Some(u) ==> {
            let base = primary_image_base(path, server_url);
            &&& base.len() <= u.len()
            &&& u.subrange(0, base.len() as int) == base
            &&& u.len() > base.len() ==> u[base.len() as int] == '?'
        },
        split_on(path, ':').len() >= 3 && token is None ==> jellyfin_cover_url_of(path, server_url, token)
            == Some(primary_image_base(path, server_url) + "?tag="@ + split_on(path, ':')[2]),
        split_on(path, ':').len() >= 3 && token is Some ==> jellyfin_cover_url_of(path, server_url, token)
            == Some(primary_image_base(path, server_url) + "?tag="@ + split_on(path, ':')[2] + "&api_key="@ + token->0),
        split_on(path, ':').len() == 2 && token is Some ==> jellyfin_cover_url_of(path, server_url, token)
            == Some(primary_image_base(path, server_url) + "?api_key="@ + token->0),
        split_on(path, ':').len() == 2 && token is None ==> jellyfin_cover_url_of(path, server_url, token)
            == Some(primary_image_base(path, server_url)),
{
    reveal_strlit("?tag=");
    reveal_strlit("?api_key=");
    let parts = split_on(path, ':');
    if parts.len() >= 2 {
        let base = primary_image_base(path, server_url);
        let tag = if parts.len() >= 3 { Some(parts[2]) } else { None };
        let q = cover_query(tag, token);
        let u = base + q;
        assert(jellyfin_cover_url_of(path, server_url, token) == Some(u));
        assert(u.subrange(0, base.len() as int) =~= base);
        if q.len() > 0 {
            assert(u[base.len() as int] == q[0]);
            match (tag, token) {
                (Some(t), None) => assert(q[0] == "?tag="@[0]),
                (None, Some(k)) => assert(q[0] == "?api_key="@[0]),
                (Some(t), Some(k)) => assert(q[0] == "?tag="@[0]),
                (None, None) => {},
            }
        }
        if parts.len() >= 3 {
            if let Some(k) = token {
                assert(base + ("?tag="@ + parts[2] + "&api_key="@ + k) =~= base + "?tag="@ + parts[2] + "&api_key="@ + k);
            } else {
                assert(base + ("?tag="@ + parts[2]) =~= base + "?tag="@ + parts[2]);
            }
        } else if let Some(k) = token {
            assert(base + ("?api_key="@ + k) =~= base + "?api_key="@ + k);
        } else {
            assert(base + Seq::<char>::empty() =~= base);
        }
    }
}

/// The primary image of a Jellyfin item, from its track path.
pub fn jellyfin_cover_url(path: &str, server_url: &str, access_token: Option<&String>) -> (r: Option<String>)
    ensures
        r matches Some(u) ==> jellyfin_cover_url_of(path@, server_url@, match access_token {
            Some(t) => Some(t@),
            None => None,
        }) == Some(u@),
        r is None ==> jellyfin_cover_url_of(path@, server_url@, match access_token {
            Some(t) => Some(t@),
            None => None,
        }) is None,
        r is Some <==> split_on(path@, ':').len() >= 2,
        r matches Some(u) ==> ({
            let base = primary_image_base(path@, server_url@);
            &&& base.len() <= u@.len()
            &&& u@.subrange(0, base.len() as int) == base
            &&& u@.len() > base.len() ==> u@[base.len() as int] == '?'
        }),
        split_on(path@, ':').len() >= 3 && access_token is None ==> (r matches Some(u) && u@ == primary_image_base(
            path@,
            server_url@,
        ) + "?tag="@ + split_on(path@, ':')[2]),
{
    proof {
        lemma_cover_url_shape(path@, server_url@, match access_token {
            Some(t) => Some(t@),
            None => None,
        });
    }
    let parts = split_colons(path);
    if parts.len() < 2 {
        return None;
    }
    assert(views(parts@)[1] == parts@[1]@);
    let mut url = String::from_str(server_url);
    url.append("/Items/");
    url.append(parts[1].as_str());
    url.append("/Images/Primary");
    let has_tag = parts.len() >= 3;
    if has_tag {
        assert(views(parts@)[2] == parts@[2]@);
        url.append("?tag=");
        url.append(parts[2].as_str());
    }
    match access_token {
        Some(token) => {
            if has_tag {
                url.append("&api_key=");
            } else {
                url.append("?api_key=");
            }
            url.append(token.as_str());
        },
        None => {},
    }
    Some(url)
}

/// A server item's track path: `jellyfin:id`, with `:tag` when there is a tag.
pub open spec fn item_path_of(id: Seq<char>, tag: Option<Seq<char>>) -> Seq<char> {
    match tag {
        Some(t) => "jellyfin:"@ + id + ":"@ + t,
        None => "jellyfin:"@ + id,
    }
}

/// The track path of a server item, carrying its image tag.
pub fn item_path(id: &str, tag: Option<&String>) -> (r: String)
    ensures
        r@ == item_path_of(id@, match tag {
            Some(t) => Some(t@),
            None => None,
        }),
{
    let mut path = String::from_str("jellyfin:");
    path.append(id);
    match tag {
        Some(t) => {
            path.append(":");
            path.append(t.as_str());
        },
        None => {},
    }
    path
}

/// A Jellyfin item's album id: `jellyfin:` and the album's id, or empty.
pub fn jellyfin_album_id(album_id: Option<&String>) -> (r: String)
    ensures
        album_id matches Some(a) ==> r@ == "jellyfin:"@ + a@,
        album_id is None ==> r@ == Seq::<char>::empty(),
{
    match album_id {
        Some(a) => {
            let mut s = String::from_str("jellyfin:");
            s.append(a.as_str());
            s
        },
        None => String::new(),
    }
}

/// A Subsonic entry's album id: the album (or, without one, the entry itself)
/// with the cover tag, or `none`.
pub open spec fn subsonic_album_id_of(album_id: Option<Seq<char>>, item_id: Seq<char>, cover_tag: Option<Seq<char>>) -> Seq<char> {
    match album_id {
        Some(a) => match cover_tag {
            Some(t) => "jellyfin:"@ + a + ":"@ + t,
            None => "jellyfin:"@ + a + ":none"@,
        },
        None => "jellyfin:"@ + item_id + ":none"@,
    }
}

/// The album id a Subsonic entry is filed under.
pub fn subsonic_album_id(album_id: Option<&String>, item_id: &str, cover_tag: Option<&String>) -> (r: String)
    ensures
        r@ == subsonic_album_id_of(
            match album_id {
                Some(a) => Some(a@),
                None => None,
            },
            item_id@,
            match cover_tag {
                Some(t) => Some(t@),
                None => None,
            },
        ),
{
    let mut s = String::from_str("jellyfin:");
    match album_id {
        Some(a) => {
            s.append(a.as_str());
            match cover_tag {
                Some(t) => {
                    s.append(":");
                    s.append(t.as_str());
                },
                None => s.append(":none"),
            }
        },
        None => {
            s.append(item_id);
            s.append(":none");
        },
    }
    s
}

/// A lowercase hexadecimal digit.
pub open spec fn hex_digit(d: nat) -> char {
    if d < 10 {
        (d + 48) as char
    } else {
        (d + 87) as char
    }
}

/// Two lowercase hexadecimal digits per byte (`{:02x}`).
pub open spec fn hex_of(bytes: Seq<u8>) -> Seq<char>
    decreases bytes.len(),
{
    if bytes.len() == 0 {
        Seq::empty()
    } else {
        hex_of(bytes.drop_last()) + seq![
            hex_digit((bytes.last() / 16) as nat),
            hex_digit((bytes.last() % 16) as nat),
        ]
    }
}

fn hex_char(d: u8) -> (c: char)
    requires
        d < 16,
    ensures
        c == hex_digit(d as nat),
{
    if d < 10 {
        (d + 48u8) as char
    } else {
        (d + 87u8) as char
    }
}

/// A cover URL packed into a path tag: `urlhex_` and the URL's UTF-8 bytes in hexadecimal.
pub fn url_hex_tag(url: &str) -> (r: String)
    ensures
        r@ == "urlhex_"@ + hex_of(url.spec_bytes()),
{
    let bytes = url.as_bytes();
    let mut hex = String::new();
    let mut i: usize = 0;
    while i < bytes.len()
        invariant
            i <= bytes@.len(),
            bytes@ == url.spec_bytes(),
            hex@ == hex_of(bytes@.take(i as int)),
        decreases bytes@.len() - i,
    {
        assert(bytes@.take(i + 1).drop_last() =~= bytes@.take(i as int));
        let b = bytes[i];
        push_char(&mut hex, hex_char(b / 16));
        push_char(&mut hex, hex_char(b % 16));
        i = i + 1;
    }
    assert(bytes@.take(bytes@.len() as int) =~= bytes@);
    let mut r = String::from_str("urlhex_");
    r.append(hex.as_str());
    r
}

/// A run time in 100-nanosecond ticks, in whole seconds (none counts as zero).
pub fn ticks_to_secs(ticks: Option<u64>) -> (r: u64)
    ensures
        r == (match ticks {
            Some(t) => t,
            None => 0,
        }) / 10_000_000,
{
    match ticks {
        Some(t) => t / 10_000_000,
        None => 0,
    }
}

/// A bit rate in bits per second as kilobits, capped at 255.
pub fn kbps_capped(bitrate: Option<u64>) -> (r: u8)
    ensures
        r == (if (match bitrate {
            Some(b) => b,
            None => 0,
        }) / 1000 > 255 {
            255
        } else {
            (match bitrate {
                Some(b) => b,
                None => 0,
            }) / 1000
        }),
{
    let b = match bitrate {
        Some(b) => b,
        None => 0,
    };
    let kbps = b / 1000;
    if kbps > 255 {
        255
    } else {
        kbps as u8
    }
}

/// A bit rate already in kilobits, capped at 255.
pub fn bitrate_capped(bit_rate: Option<u32>) -> (r: u8)
    ensures
        r == (match bit_rate {
            Some(b) => if b > 255 { 255 } else { b },
            None => 0,
        }),
{
    match bit_rate {
        Some(b) => if b > 255 {
            255
        } else {
            b as u8
        },
        None => 0,
    }
}

/// The names joined with `sep` between them.
pub open spec fn joined(names: Seq<Seq<char>>, sep: Seq<char>) -> Seq<char>
    decreases names.len(),
{
    if names.len() == 0 {
        Seq::empty()
    } else if names.len() == 1 {
        names[0]
    } else {
        joined(names.drop_last(), sep) + sep + names.last()
    }
}

/// The names joined with `sep` between them (`[String]::join`).
pub fn join_names(names: &Vec<String>, sep: &str) -> (r: String)
    ensures
        r@ == joined(views(names@), sep@),
{
    let mut out = String::new();
    let mut i: usize = 0;
    while i < names.len()
        invariant
            i <= names@.len(),
            out@ == joined(views(names@).take(i as int), sep@),
        decreases names@.len() - i,
    {
        assert(views(names@).take(i + 1).drop_last() =~= views(names@).take(i as int));
        assert(views(names@).take(i + 1).last() == names@[i as int]@);
        if i > 0 {
            out.append(sep);
        }
        out.append(names[i].as_str());
        i = i + 1;
    }
    assert(views(names@).take(names@.len() as int) =~= views(names@));
    out
}

/// The artist shown for a server item: the album artist, else the track
/// artists joined by commas, else nothing.
pub fn display_artist(album_artist: Option<&String>, artists: Option<&Vec<String>>) -> (r: String)
    ensures
        album_artist matches Some(a) ==> r@ == a@,
        album_artist is None ==> (artists matches Some(v) ==> r@ == joined(views(v@), ", "@)),
        album_artist is None && artists is None ==> r@ == Seq::<char>::empty(),
{
    match album_artist {
        Some(a) => a.clone(),
        None => match artists {
            Some(v) => join_names(v, ", "),
            None => String::new(),
        },
    }
}

/// Flipping a favourite twice leaves every list as it was; so does a server
/// change followed by its revert.
pub proof fn lemma_flip_twice_restores(a: Seq<Seq<char>>, b: Seq<Seq<char>>, c: Seq<Seq<char>>, x: Seq<char>)
    requires
        marked(a, b, x, !a.contains(x)),
        marked(b, c, x, !b.contains(x)),
    ensures
        forall|y: Seq<char>| #[trigger] c.contains(y) == a.contains(y),
{
    assert(b.contains(x) == !a.contains(x));
    assert forall|y: Seq<char>| #[trigger] c.contains(y) == a.contains(y) by {
        assert(c.contains(y) == (if y == x { !b.contains(x) } else { b.contains(y) }));
        assert(b.contains(y) == (if y == x { !a.contains(x) } else { a.contains(y) }));
    }
}

} // verus!
