use vstd::prelude::*;

verus! {

/// The look of the app.
#[derive(Debug, Clone, Copy, PartialEq, Eq, Structural)]
pub enum UiStyle {
    Normal,
    Modern,
}

/// The classes of the compact player, per style.
pub struct CompactSkin {
    pub container: &'static str,
    pub title: &'static str,
    pub cover: &'static str,
    pub play_btn: &'static str,
    pub play_icon: &'static str,
    pub ctrl_btn: &'static str,
    pub progress_fill: &'static str,
}

/// The compact player's classes in the normal style.
pub open spec fn is_normal_skin(s: CompactSkin) -> bool {
        &&& s.container@ == "bg-[#0a0a0a]"@
        &&& s.title@ == "text-[14px] font-bold text-white/95 truncate leading-tight"@
        &&& s.cover@ == "rounded-lg ring-1 ring-white/10 shadow-lg shadow-black/50"@
        &&& s.play_btn@ == "w-10 h-10 flex items-center justify-center rounded-full bg-white text-black hover:scale-105 active:scale-95 transition-all shadow-lg shadow-black/40"@
        &&& s.play_icon@ == "text-base"@
        &&& s.ctrl_btn@ == "w-8 h-8 flex items-center justify-center rounded-full text-slate-300 hover:text-white hover:bg-white/10 transition-all"@
        &&& s.progress_fill@ == "bg-white group-hover:bg-green-500"@
}

/// The compact player's classes in the modern style.
pub open spec fn is_modern_skin(s: CompactSkin) -> bool {
        &&& s.container@ == "bg-black"@
        &&& s.title@ == "text-[13px] font-mono font-semibold uppercase tracking-wide text-white/90 truncate leading-tight"@
        &&& s.cover@ == "rounded-none ring-1 ring-white/10"@
        &&& s.play_btn@ == "w-9 h-9 flex items-center justify-center rounded-full bg-white/10 hover:bg-white/20 text-white transition-all active:scale-95"@
        &&& s.play_icon@ == "text-sm"@
        &&& s.ctrl_btn@ == "w-8 h-8 flex items-center justify-center text-slate-400 hover:text-white transition-colors"@
        &&& s.progress_fill@ == "bg-white/70 group-hover:bg-white"@
}

/// The compact player's classes for a style, so it matches the bottom bar.
pub fn skin_for(style: UiStyle) -> (r: CompactSkin)
    ensures
        style == UiStyle::Normal ==> is_normal_skin(r),
        style == UiStyle::Modern ==> is_modern_skin(r),
{
    match style {
        UiStyle::Normal => CompactSkin {
            container: "bg-[#0a0a0a]",
            title: "text-[14px] font-bold text-white/95 truncate leading-tight",
            cover: "rounded-lg ring-1 ring-white/10 shadow-lg shadow-black/50",
            play_btn: "w-10 h-10 flex items-center justify-center rounded-full bg-white text-black hover:scale-105 active:scale-95 transition-all shadow-lg shadow-black/40",
            play_icon: "text-base",
            ctrl_btn: "w-8 h-8 flex items-center justify-center rounded-full text-slate-300 hover:text-white hover:bg-white/10 transition-all",
            progress_fill: "bg-white group-hover:bg-green-500",
        },
        UiStyle::Modern => CompactSkin {
            container: "bg-black",
            title: "text-[13px] font-mono font-semibold uppercase tracking-wide text-white/90 truncate leading-tight",
            cover: "rounded-none ring-1 ring-white/10",
            play_btn: "w-9 h-9 flex items-center justify-center rounded-full bg-white/10 hover:bg-white/20 text-white transition-all active:scale-95",
            play_icon: "text-sm",
            ctrl_btn: "w-8 h-8 flex items-center justify-center text-slate-400 hover:text-white transition-colors",
            progress_fill: "bg-white/70 group-hover:bg-white",
        },
    }
}

/// The kinds of music server.
#[derive(Debug, Clone, Copy, PartialEq, Eq, Structural)]
pub enum MusicService {
    Jellyfin,
    Subsonic,
    Custom,
    YtMusic,
    SoundCloud,
    AppleMusic,
}

/// A service's icon class and accent colour.
pub open spec fn service_style_text(service: MusicService) -> (Seq<char>, Seq<char>) {
    match service {
        MusicService::YtMusic => ("fa-brands fa-youtube"@, "#ff3355"@),
        MusicService::SoundCloud => ("fa-brands fa-soundcloud"@, "#ff7a33"@),
        MusicService::AppleMusic => ("fa-brands fa-apple"@, "#ffffff"@),
        MusicService::Jellyfin => ("fa-solid fa-server"@, "#b277ee"@),
        MusicService::Subsonic | MusicService::Custom => ("fa-solid fa-compact-disc"@, "#f0a84b"@),
    }
}

/// Icon and accent colour per service, so each source reads at a glance.
pub fn service_style(service: MusicService) -> (r: (&'static str, &'static str))
    ensures
        (r.0@, r.1@) == service_style_text(service),
{
    match service {
        MusicService::YtMusic => ("fa-brands fa-youtube", "#ff3355"),
        MusicService::SoundCloud => ("fa-brands fa-soundcloud", "#ff7a33"),
        MusicService::AppleMusic => ("fa-brands fa-apple", "#ffffff"),
        MusicService::Jellyfin => ("fa-solid fa-server", "#b277ee"),
        MusicService::Subsonic | MusicService::Custom => ("fa-solid fa-compact-disc", "#f0a84b"),
    }
}

/// A source the player can switch to.
#[derive(Debug, Clone, PartialEq, Eq)]
pub enum Source {
    Local,
    Server(String),
}

/// A configured server, with its service's display name.
pub struct ServerSource {
    pub id: String,
    pub name: String,
    pub service: MusicService,
    pub service_name: String,
}

/// One row of the source switcher.
pub struct SourceEntry {
    pub source: Source,
    pub label: String,
    pub icon: &'static str,
    pub accent: &'static str,
    pub subline: String,
}

/// The accent of the local source: the theme's own colour.
pub const LOCAL_ACCENT: &'static str = "var(--color-indigo-500)";

/// What `str::to_uppercase` returns for a string.
pub uninterp spec fn uppercased(s: Seq<char>) -> Seq<char>;

/// Uppercases a string (`str::to_uppercase`).
#[verifier::external_body]
fn to_uppercase(s: &str) -> (r: String)
    ensures
        r@ == uppercased(s@),
{
    s.to_uppercase()
}

/// The switcher row of a server: its name, its service's icon and accent, and
/// the service name in capitals underneath.
pub open spec fn server_entry_ok(e: SourceEntry, s: ServerSource) -> bool {
    &&& e.source matches Source::Server(id) && id@ == s.id@
    &&& e.label@ == s.name@
    &&& (e.icon@, e.accent@) == service_style_text(s.service)
    &&& e.subline@ == uppercased(s.service_name@)
}

/// The switcher's rows: the local source first, then every configured server in order.
pub fn entries(servers: &[ServerSource], local_label: String, local_subline: String) -> (r: Vec<SourceEntry>)
    ensures
        r@.len() == servers@.len() + 1,
        r@[0].source == Source::Local,
        r@[0].label == local_label,
        r@[0].icon@ == "fa-solid fa-hard-drive"@,
        r@[0].accent@ == LOCAL_ACCENT@,
        r@[0].subline == local_subline,
        forall|k: int| 0 <= k < servers@.len() ==> #[trigger] server_entry_ok(r@[k + 1], servers@[k]),
{
    let mut v: Vec<SourceEntry> = Vec::new();
    v.push(SourceEntry {
        source: Source::Local,
        label: local_label,
        icon: "fa-solid fa-hard-drive",
        accent: LOCAL_ACCENT,
        subline: local_subline,
    });
    let mut i: usize = 0;
    while i < servers.len()
        invariant
            i <= servers@.len(),
            v@.len() == i + 1,
            v@[0].source == Source::Local,
            v@[0].label == local_label,
            v@[0].icon@ == "fa-solid fa-hard-drive"@,
            v@[0].accent@ == LOCAL_ACCENT@,
            v@[0].subline == local_subline,
            forall|k: int| 0 <= k < i ==> #[trigger] server_entry_ok(v@[k + 1], servers@[k]),
        decreases servers@.len() - i,
    {
        let s = &servers[i];
        let (icon, accent) = service_style(s.service);
        let ghost before = v@;
        v.push(SourceEntry {
            source: Source::Server(s.id.clone()),
            label: s.name.clone(),
            icon,
            accent,
            subline: to_uppercase(s.service_name.as_str()),
        });
        assert forall|k: int| 0 <= k < i + 1 implies #[trigger] server_entry_ok(v@[k + 1], servers@[k]) by {
            if k < i {
                assert(v@[k + 1] == before[k + 1]);
            }
        }
        i = i + 1;
    }
    v
}

} // verus!
