use vstd::prelude::*;
use crate::menu::MenuAction;
use crate::remote::{has_prefix, is_server_path};
use crate::text::{chars_of, push_char};
use crate::remote::str_equal;
use crate::track::Track;

verus! {

/// What an entry of a track row's menu does.
#[derive(Debug, Clone, Copy, PartialEq, Eq, Structural)]
pub enum TrackMenuAction {
    PlayNext,
    AddToQueue,
    AddToPlaylist,
    RemoveFromPlaylist,
    Download,
    Delete,
    Share,
    StartRadio,
    ViewMetadata,
}

/// Which optional entries a row offers: one per handler the row was given,
/// and the delete entry unless it is hidden.
#[derive(Debug, Clone, Copy, PartialEq, Eq, Structural)]
pub struct TrackMenuOptions {
    pub has_queue: bool,
    pub has_remove: bool,
    pub has_download: bool,
    pub hide_delete: bool,
    pub has_radio: bool,
    pub has_view_metadata: bool,
}

/// The entries of a row's menu, top to bottom.
pub open spec fn menu_layout(o: TrackMenuOptions) -> Seq<TrackMenuAction> {
    (if o.has_queue { seq![TrackMenuAction::PlayNext, TrackMenuAction::AddToQueue] } else { seq![] })
        + seq![TrackMenuAction::AddToPlaylist]
        + (if o.has_remove { seq![TrackMenuAction::RemoveFromPlaylist] } else { seq![] })
        + (if o.has_download { seq![TrackMenuAction::Download] } else { seq![] })
        + (if !o.hide_delete { seq![TrackMenuAction::Delete] } else { seq![] })
        + seq![TrackMenuAction::Share]
        + (if o.has_radio { seq![TrackMenuAction::StartRadio] } else { seq![] })
        + (if o.has_view_metadata { seq![TrackMenuAction::ViewMetadata] } else { seq![] })
}

fn push_if(v: &mut Vec<TrackMenuAction>, cond: bool, a: TrackMenuAction)
    ensures
        final(v)@ == old(v)@ + (if cond { seq![a] } else { seq![] }),
{
    if cond {
        v.push(a);
    }
    assert(cond ==> final(v)@ =~= old(v)@ + seq![a]);
    assert(!cond ==> old(v)@ + Seq::<TrackMenuAction>::empty() =~= old(v)@);
}

/// The entries of a row's menu, top to bottom.
pub fn track_menu_layout(o: TrackMenuOptions) -> (r: Vec<TrackMenuAction>)
    ensures
        r@ == menu_layout(o),
{
    let mut v: Vec<TrackMenuAction> = Vec::new();
    push_if(&mut v, o.has_queue, TrackMenuAction::PlayNext);
    push_if(&mut v, o.has_queue, TrackMenuAction::AddToQueue);
    v.push(TrackMenuAction::AddToPlaylist);
    push_if(&mut v, o.has_remove, TrackMenuAction::RemoveFromPlaylist);
    push_if(&mut v, o.has_download, TrackMenuAction::Download);
    push_if(&mut v, !o.hide_delete, TrackMenuAction::Delete);
    v.push(TrackMenuAction::Share);
    push_if(&mut v, o.has_radio, TrackMenuAction::StartRadio);
    push_if(&mut v, o.has_view_metadata, TrackMenuAction::ViewMetadata);
    assert(v@ =~= menu_layout(o));
    v
}

/// One for a present optional entry, zero for an absent one.
pub open spec fn flag(b: bool) -> int {
    if b { 1 } else { 0 }
}

/// Where each entry of the menu stands.
proof fn lemma_layout_positions(o: TrackMenuOptions)
    ensures
        ({
            let s = menu_layout(o);
            let q = 2 * flag(o.has_queue);
            let m = flag(o.has_remove);
            let d = flag(o.has_download);
            let x = flag(!o.hide_delete);
            let g = flag(o.has_radio);
            let w = flag(o.has_view_metadata);
            &&& s.len() == q + 1 + m + d + x + 1 + g + w
            &&& o.has_queue ==> s[0] == TrackMenuAction::PlayNext && s[1] == TrackMenuAction::AddToQueue
            &&& s[q] == TrackMenuAction::AddToPlaylist
            &&& o.has_remove ==> s[q + 1] == TrackMenuAction::RemoveFromPlaylist
            &&& o.has_download ==> s[q + 1 + m] == TrackMenuAction::Download
            &&& !o.hide_delete ==> s[q + 1 + m + d] == TrackMenuAction::Delete
            &&& s[q + 1 + m + d + x] == TrackMenuAction::Share
            &&& o.has_radio ==> s[q + 2 + m + d + x] == TrackMenuAction::StartRadio
            &&& o.has_view_metadata ==> s[q + 2 + m + d + x + g] == TrackMenuAction::ViewMetadata
        }),
{
    let e = Seq::<TrackMenuAction>::empty();
    let s0 = if o.has_queue { seq![TrackMenuAction::PlayNext, TrackMenuAction::AddToQueue] } else { e };
    let s1 = s0 + seq![TrackMenuAction::AddToPlaylist];
    let s2 = s1 + (if o.has_remove { seq![TrackMenuAction::RemoveFromPlaylist] } else { e });
    let s3 = s2 + (if o.has_download { seq![TrackMenuAction::Download] } else { e });
    let s4 = s3 + (if !o.hide_delete { seq![TrackMenuAction::Delete] } else { e });
    let s5 = s4 + seq![TrackMenuAction::Share];
    let s6 = s5 + (if o.has_radio { seq![TrackMenuAction::StartRadio] } else { e });
    let s7 = s6 + (if o.has_view_metadata { seq![TrackMenuAction::ViewMetadata] } else { e });
    assert(s7 == menu_layout(o));
    let q = 2 * flag(o.has_queue);
    let m = flag(o.has_remove);
    let d = flag(o.has_download);
    let x = flag(!o.hide_delete);
    let g = flag(o.has_radio);
    assert(s1.len() == q + 1 && s1[q] == TrackMenuAction::AddToPlaylist);
    assert(o.has_queue ==> s1[0] == TrackMenuAction::PlayNext && s1[1] == TrackMenuAction::AddToQueue);
    assert(s2.len() == q + 1 + m && s2[q] == s1[q]);
    assert(o.has_queue ==> s2[0] == s1[0] && s2[1] == s1[1]);
    assert(o.has_remove ==> s2[q + 1] == TrackMenuAction::RemoveFromPlaylist);
    assert(s3.len() == q + 1 + m + d && s3[q] == s2[q]);
    assert(o.has_queue ==> s3[0] == s2[0] && s3[1] == s2[1]);
    assert(o.has_remove ==> s3[q + 1] == s2[q + 1]);
    assert(o.has_download ==> s3[q + 1 + m] == TrackMenuAction::Download);
    assert(s4.len() == q + 1 + m + d + x && s4[q] == s3[q]);
    assert(o.has_queue ==> s4[0] == s3[0] && s4[1] == s3[1]);
    assert(o.has_remove ==> s4[q + 1] == s3[q + 1]);
    assert(o.has_download ==> s4[q + 1 + m] == s3[q + 1 + m]);
    assert(!o.hide_delete ==> s4[q + 1 + m + d] == TrackMenuAction::Delete);
    assert(s5.len() == q + 2 + m + d + x && s5[q] == s4[q]);
    assert(o.has_queue ==> s5[0] == s4[0] && s5[1] == s4[1]);
    assert(o.has_remove ==> s5[q + 1] == s4[q + 1]);
    assert(o.has_download ==> s5[q + 1 + m] == s4[q + 1 + m]);
    assert(!o.hide_delete ==> s5[q + 1 + m + d] == s4[q + 1 + m + d]);
    assert(s5[q + 1 + m + d + x] == TrackMenuAction::Share);
    assert(s6.len() == q + 2 + m + d + x + g && s6[q] == s5[q]);
    assert(o.has_queue ==> s6[0] == s5[0] && s6[1] == s5[1]);
    assert(o.has_remove ==> s6[q + 1] == s5[q + 1]);
    assert(o.has_download ==> s6[q + 1 + m] == s5[q + 1 + m]);
    assert(!o.hide_delete ==> s6[q + 1 + m + d] == s5[q + 1 + m + d]);
    assert(s6[q + 1 + m + d + x] == s5[q + 1 + m + d + x]);
    assert(o.has_radio ==> s6[q + 2 + m + d + x] == TrackMenuAction::StartRadio);
    assert(s7[q] == s6[q]);
    assert(o.has_queue ==> s7[0] == s6[0] && s7[1] == s6[1]);
    assert(o.has_remove ==> s7[q + 1] == s6[q + 1]);
    assert(o.has_download ==> s7[q + 1 + m] == s6[q + 1 + m]);
    assert(!o.hide_delete ==> s7[q + 1 + m + d] == s6[q + 1 + m + d]);
    assert(s7[q + 1 + m + d + x] == s6[q + 1 + m + d + x]);
    assert(o.has_radio ==> s7[q + 2 + m + d + x] == s6[q + 2 + m + d + x]);
    assert(o.has_view_metadata ==> s7[q + 2 + m + d + x + g] == TrackMenuAction::ViewMetadata);
}

fn one_if(b: bool) -> (r: usize)
    ensures
        r == (if b { 1usize } else { 0usize }),
{
    if b { 1 } else { 0 }
}

/// The action of the menu entry at `idx`, found from the entries' positions;
/// `None` past the last entry. The clicked entry is always the one shown there.
pub fn track_menu_choice(o: TrackMenuOptions, idx: usize) -> (r: Option<TrackMenuAction>)
    ensures
        r == (if idx < menu_layout(o).len() { Some(menu_layout(o)[idx as int]) } else { None }),
{
    let add_to_playlist_idx: usize = if o.has_queue { 2 } else { 0 };
    let after_remove: usize = add_to_playlist_idx + 1 + one_if(o.has_remove);
    let download_action_idx: usize = if o.has_download { after_remove } else { 0 };
    let after_download: usize = after_remove + one_if(o.has_download);
    let delete_action_idx: Option<usize> = if !o.hide_delete { Some(after_download) } else { None };
    let share_idx: usize = after_download + one_if(!o.hide_delete);
    let mix_idx: Option<usize> = if o.has_radio { Some(share_idx + 1) } else { None };
    let view_metadata_idx: Option<usize> = if o.has_view_metadata {
        Some(share_idx + 1 + one_if(o.has_radio))
    } else {
        None
    };
    let remove_action_idx: Option<usize> = if o.has_remove { Some(add_to_playlist_idx + 1) } else { None };

    let r = if o.has_queue && idx == 0 {
        Some(TrackMenuAction::PlayNext)
    } else if o.has_queue && idx == 1 {
        Some(TrackMenuAction::AddToQueue)
    } else if idx == add_to_playlist_idx {
        Some(TrackMenuAction::AddToPlaylist)
    } else if remove_action_idx == Some(idx) {
        Some(TrackMenuAction::RemoveFromPlaylist)
    } else if o.has_download && idx == download_action_idx {
        Some(TrackMenuAction::Download)
    } else if idx == share_idx {
        Some(TrackMenuAction::Share)
    } else if mix_idx == Some(idx) {
        Some(TrackMenuAction::StartRadio)
    } else if view_metadata_idx == Some(idx) {
        Some(TrackMenuAction::ViewMetadata)
    } else if delete_action_idx == Some(idx) {
        Some(TrackMenuAction::Delete)
    } else {
        None
    };
    proof {
        lemma_layout_positions(o);
    }
    r
}

/// The translated texts of a row's menu entries.
pub struct TrackMenuTexts {
    pub play_next: String,
    pub add_to_queue: String,
    pub add_to_playlist: String,
    pub remove_from_playlist: String,
    pub delete: String,
    pub share: String,
    pub view_metadata: String,
}

/// The label of an entry; the download entry tells the track's download state.
pub open spec fn entry_label(a: TrackMenuAction, t: TrackMenuTexts, downloading: bool, downloaded: bool) -> Seq<char> {
    match a {
        TrackMenuAction::PlayNext => t.play_next@,
        TrackMenuAction::AddToQueue => t.add_to_queue@,
        TrackMenuAction::AddToPlaylist => t.add_to_playlist@,
        TrackMenuAction::RemoveFromPlaylist => t.remove_from_playlist@,
        TrackMenuAction::Download => if downloading {
            "Downloading..."@
        } else if downloaded {
            "Remove Download"@
        } else {
            "Download Offline"@
        },
        TrackMenuAction::Delete => t.delete@,
        TrackMenuAction::Share => t.share@,
        TrackMenuAction::StartRadio => "Start radio"@,
        TrackMenuAction::ViewMetadata => t.view_metadata@,
    }
}

/// The icon class of an entry.
pub open spec fn entry_icon(a: TrackMenuAction, downloading: bool, downloaded: bool) -> Seq<char> {
    match a {
        TrackMenuAction::PlayNext => "fa-solid fa-forward-step"@,
        TrackMenuAction::AddToQueue => "fa-solid fa-list-ul"@,
        TrackMenuAction::AddToPlaylist => "fa-solid fa-plus"@,
        TrackMenuAction::RemoveFromPlaylist => "fa-solid fa-minus"@,
        TrackMenuAction::Download => if downloading {
            "fa-solid fa-spinner fa-spin"@
        } else if downloaded {
            "fa-solid fa-trash-can"@
        } else {
            "fa-solid fa-download"@
        },
        TrackMenuAction::Delete => "fa-solid fa-trash"@,
        TrackMenuAction::Share => "fa-solid fa-share-nodes"@,
        TrackMenuAction::StartRadio => "fa-solid fa-tower-broadcast"@,
        TrackMenuAction::ViewMetadata => "fa-solid fa-circle-info"@,
    }
}

/// Deleting the track, and removing a download, are drawn as destructive.
pub open spec fn entry_destructive(a: TrackMenuAction, downloaded: bool) -> bool {
    a == TrackMenuAction::Delete || (a == TrackMenuAction::Download && downloaded)
}

fn menu_entry(a: TrackMenuAction, t: &TrackMenuTexts, downloading: bool, downloaded: bool) -> (r: MenuAction)
    ensures
        r.label@ == entry_label(a, *t, downloading, downloaded),
        r.icon@ == entry_icon(a, downloading, downloaded),
        r.destructive == entry_destructive(a, downloaded),
{
    let (label, icon) = match a {
        TrackMenuAction::PlayNext => (t.play_next.clone(), String::from_str("fa-solid fa-forward-step")),
        TrackMenuAction::AddToQueue => (t.add_to_queue.clone(), String::from_str("fa-solid fa-list-ul")),
        TrackMenuAction::AddToPlaylist => (t.add_to_playlist.clone(), String::from_str("fa-solid fa-plus")),
        TrackMenuAction::RemoveFromPlaylist => (t.remove_from_playlist.clone(), String::from_str("fa-solid fa-minus")),
        TrackMenuAction::Download => if downloading {
            (String::from_str("Downloading..."), String::from_str("fa-solid fa-spinner fa-spin"))
        } else if downloaded {
            (String::from_str("Remove Download"), String::from_str("fa-solid fa-trash-can"))
        } else {
            (String::from_str("Download Offline"), String::from_str("fa-solid fa-download"))
        },
        TrackMenuAction::Delete => (t.delete.clone(), String::from_str("fa-solid fa-trash")),
        TrackMenuAction::Share => (t.share.clone(), String::from_str("fa-solid fa-share-nodes")),
        TrackMenuAction::StartRadio => (String::from_str("Start radio"), String::from_str("fa-solid fa-tower-broadcast")),
        TrackMenuAction::ViewMetadata => (t.view_metadata.clone(), String::from_str("fa-solid fa-circle-info")),
    };
    let entry = MenuAction::new(label, icon);
    if a == TrackMenuAction::Delete || (a == TrackMenuAction::Download && downloaded) {
        entry.destructive()
    } else {
        entry
    }
}

/// The entries of a track row's menu, with their labels, icons and colour.
pub fn track_menu_entries(o: TrackMenuOptions, t: &TrackMenuTexts, is_downloading: bool, is_downloaded: bool) -> (r: Vec<MenuAction>)
    ensures
        r@.len() == menu_layout(o).len(),
        forall|k: int| 0 <= k < r@.len() ==> {
            let a = #[trigger] menu_layout(o)[k];
            &&& r@[k].label@ == entry_label(a, *t, is_downloading, is_downloaded)
            &&& r@[k].icon@ == entry_icon(a, is_downloading, is_downloaded)
            &&& r@[k].destructive == entry_destructive(a, is_downloaded)
        },
{
    let layout = track_menu_layout(o);
    let mut out: Vec<MenuAction> = Vec::new();
    let mut k: usize = 0;
    while k < layout.len()
        invariant
            k <= layout@.len(),
            layout@ == menu_layout(o),
            out@.len() == k,
            forall|j: int| 0 <= j < k ==> {
                let a = #[trigger] menu_layout(o)[j];
                &&& out@[j].label@ == entry_label(a, *t, is_downloading, is_downloaded)
                &&& out@[j].icon@ == entry_icon(a, is_downloading, is_downloaded)
                &&& out@[j].destructive == entry_destructive(a, is_downloaded)
            },
        decreases layout@.len() - k,
    {
        let entry = menu_entry(layout[k], t, is_downloading, is_downloaded);
        out.push(entry);
        k = k + 1;
    }
    out
}

/// A character in lower case, for the ASCII letters.
pub open spec fn lower_char(c: char) -> char {
    if 'A' <= c <= 'Z' {
        (c as int + 32) as char
    } else {
        c
    }
}

/// A string with its ASCII letters in lower case.
pub open spec fn ascii_lower(s: Seq<char>) -> Seq<char> {
    Seq::new(s.len(), |i: int| lower_char(s[i]))
}

/// The badge of an audio file type, by its extension in lower case.
pub open spec fn badge_of(lower: Seq<char>) -> Option<Seq<char>> {
    if lower == "mp3"@ {
        Some("MP3"@)
    } else if lower == "flac"@ {
        Some("FLAC"@)
    } else if lower == "m4a"@ {
        Some("M4A"@)
    } else if lower == "wav"@ {
        Some("WAV"@)
    } else if lower == "ogg"@ {
        Some("OGG"@)
    } else if lower == "opus"@ {
        Some("OPUS"@)
    } else if lower == "mp4"@ {
        Some("MP4"@)
    } else if lower == "mka"@ {
        Some("MKA"@)
    } else {
        None
    }
}


/// A character in upper case, for the ASCII letters.
pub open spec fn upper_char(c: char) -> char {
    if 'a' <= c <= 'z' {
        (c as int - 32) as char
    } else {
        c
    }
}

/// A string with its ASCII letters in upper case.
pub open spec fn ascii_upper(s: Seq<char>) -> Seq<char> {
    Seq::new(s.len(), |i: int| upper_char(s[i]))
}

/// The extensions of the audio files a track row shows a badge for, in any
/// ASCII case: mp3, flac, m4a, wav, ogg, opus, mp4 and mka.
pub open spec fn is_audio_extension(e: Seq<char>) -> bool {
    let l = ascii_lower(e);
    ||| l == "mp3"@
    ||| l == "flac"@
    ||| l == "m4a"@
    ||| l == "wav"@
    ||| l == "ogg"@
    ||| l == "opus"@
    ||| l == "mp4"@
    ||| l == "mka"@
}

/// Capitals do not depend on the case a string came in.
proof fn lemma_upper_of_lower(e: Seq<char>)
    ensures
        ascii_upper(ascii_lower(e)) == ascii_upper(e),
{
    assert(ascii_upper(ascii_lower(e)) =~= ascii_upper(e));
}

/// The badge of an extension is exactly the audio extensions' list, and it
/// is the extension in capitals.
pub proof fn lemma_badge_is_upper_extension(e: Seq<char>)
    ensures
        badge_of(ascii_lower(e)) is Some <==> is_audio_extension(e),
        badge_of(ascii_lower(e)) matches Some(b) ==> b == ascii_upper(e),
{
    lemma_upper_of_lower(e);
    reveal_strlit("mp3");
    reveal_strlit("MP3");
    reveal_strlit("flac");
    reveal_strlit("FLAC");
    reveal_strlit("m4a");
    reveal_strlit("M4A");
    reveal_strlit("wav");
    reveal_strlit("WAV");
    reveal_strlit("ogg");
    reveal_strlit("OGG");
    reveal_strlit("opus");
    reveal_strlit("OPUS");
    reveal_strlit("mp4");
    reveal_strlit("MP4");
    reveal_strlit("mka");
    reveal_strlit("MKA");
    let l = ascii_lower(e);
    if l == "mp3"@ {
        assert(ascii_upper(l) =~= "MP3"@);
    } else if l == "flac"@ {
        assert(ascii_upper(l) =~= "FLAC"@);
    } else if l == "m4a"@ {
        assert(ascii_upper(l) =~= "M4A"@);
    } else if l == "wav"@ {
        assert(ascii_upper(l) =~= "WAV"@);
    } else if l == "ogg"@ {
        assert(ascii_upper(l) =~= "OGG"@);
    } else if l == "opus"@ {
        assert(ascii_upper(l) =~= "OPUS"@);
    } else if l == "mp4"@ {
        assert(ascii_upper(l) =~= "MP4"@);
    } else if l == "mka"@ {
        assert(ascii_upper(l) =~= "MKA"@);
    }
}

pub(crate) fn lower_ascii(s: &str) -> (r: String)
    ensures
        r@ == ascii_lower(s@),
{
    let cs = chars_of(s);
    let mut out = String::new();
    let mut i: usize = 0;
    while i < cs.len()
        invariant
            i <= cs@.len(),
            cs@ == s@,
            out@ == ascii_lower(s@.take(i as int)),
        decreases cs@.len() - i,
    {
        let c = cs[i];
        let l = if 'A' <= c && c <= 'Z' { ((c as u8) + 32u8) as char } else { c };
        push_char(&mut out, l);
        i = i + 1;
        assert(ascii_lower(s@.take(i as int)) =~= ascii_lower(s@.take(i - 1)).push(lower_char(c)));
    }
    assert(s@.take(cs@.len() as int) =~= s@);
    out
}

/// The badge shown for a file extension: the extension in capitals when it
/// names one of the audio formats, in any case.
pub fn badge_for_extension(ext: &str) -> (r: Option<String>)
    ensures
        match badge_of(ascii_lower(ext@)) {
            Some(b) => r matches Some(s) && s@ == b,
            None => r is None,
        },
        r is Some <==> is_audio_extension(ext@),
        r matches Some(s) ==> s@ == ascii_upper(ext@),
{
    proof {
        lemma_badge_is_upper_extension(ext@);
    }
    let lower = lower_ascii(ext);
    let l = lower.as_str();
    if str_equal(l, "mp3") {
        Some(String::from_str("MP3"))
    } else if str_equal(l, "flac") {
        Some(String::from_str("FLAC"))
    } else if str_equal(l, "m4a") {
        Some(String::from_str("M4A"))
    } else if str_equal(l, "wav") {
        Some(String::from_str("WAV"))
    } else if str_equal(l, "ogg") {
        Some(String::from_str("OGG"))
    } else if str_equal(l, "opus") {
        Some(String::from_str("OPUS"))
    } else if str_equal(l, "mp4") {
        Some(String::from_str("MP4"))
    } else if str_equal(l, "mka") {
        Some(String::from_str("MKA"))
    } else {
        None
    }
}

/// The part of a path after its last `/`.
pub open spec fn last_segment(p: Seq<char>) -> Seq<char>
    decreases p.len(),
{
    if p.len() == 0 {
        p
    } else if p.last() == '/' {
        Seq::empty()
    } else {
        last_segment(p.drop_last()).push(p.last())
    }
}

/// The extension of a file name as `Path::extension` documents it: the part
/// after the final dot; none without a dot, and none when the only dot opens
/// the name.
pub open spec fn name_extension(name: Seq<char>) -> Option<Seq<char>>
    decreases name.len(),
{
    if name.len() == 0 {
        None
    } else if name.last() == '.' {
        if name.len() == 1 {
            None
        } else {
            Some(Seq::empty())
        }
    } else {
        match name_extension(name.drop_last()) {
            Some(e) => Some(e.push(name.last())),
            None => None,
        }
    }
}

/// A path that every platform splits the same way: `/` separators only (no
/// `\`, no `:` of a drive, no leading `//` of a network share), ending in
/// a file name that is neither `.` nor `..`. Its file name is its last segment.
pub open spec fn plain_path(p: Seq<char>) -> bool {
    &&& !p.contains('\\')
    &&& !p.contains(':')
    &&& !(p.len() >= 2 && p[0] == '/' && p[1] == '/')
    &&& last_segment(p).len() > 0
    &&& last_segment(p) != seq!['.']
    &&& last_segment(p) != seq!['.', '.']
}

/// The extension of a file path: `std::path::Path::extension`, as text. It is
/// the part of the file name after its last dot, so it holds no dot. On a
/// `plain_path` the file name is the last segment, and the extension is the
/// one `name_extension` gives. Which part of other paths is the file name
/// depends on the platform's separators and prefixes, and is left unsaid.
#[verifier::external_body]
pub(crate) fn path_extension(path: &str) -> (r: Option<String>)
    ensures
        r matches Some(e) ==> !e@.contains('.'),
        plain_path(path@) ==> match name_extension(last_segment(path@)) {
            Some(e) => r matches Some(x) && x@ == e,
            None => r is None,
        },
{
    std::path::Path::new(path).extension().and_then(|e| e.to_str()).map(|e| e.to_string())
}

/// The file-type badge of a track row: for a local file whose extension names
/// one of the audio formats; never for a server item. On a plain path the
/// extension is the part of the file name after its last dot.
pub fn file_type_badge(track: &Track) -> (r: Option<String>)
    ensures
        is_server_path(track.path@) ==> r is None,
        r matches Some(b) ==> exists|e: Seq<char>| !e.contains('.') && badge_of(ascii_lower(e)) == Some(b@),
        !is_server_path(track.path@) && plain_path(track.path@) ==> match name_extension(last_segment(track.path@)) {
            Some(e) => match badge_of(ascii_lower(e)) {
                Some(b) => r matches Some(x) && x@ == b,
                None => r is None,
            },
            None => r is None,
        },
{
    let p = track.path.as_str();
    if has_prefix(p, "jellyfin:") || has_prefix(p, "subsonic:") || has_prefix(p, "custom:") {
        return None;
    }
    match path_extension(p) {
        Some(e) => badge_for_extension(e.as_str()),
        None => None,
    }
}

} // verus!
