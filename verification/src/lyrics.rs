use vstd::prelude::*;
use crate::text::{decimal, push_char, push_decimal};

verus! {

/// Where a lyrics or queue list is drawn.
#[derive(Debug, Clone, Copy, PartialEq, Eq, Structural)]
pub enum LayoutMode {
    Rightbar,
    Fullscreen,
}

impl LayoutMode {
    /// The name used in element ids and class names.
    pub fn name(&self) -> (r: &'static str)
        ensures
            *self == LayoutMode::Rightbar ==> r@ == "rightbar"@,
            *self == LayoutMode::Fullscreen ==> r@ == "fullscreen"@,
    {
        match self {
            LayoutMode::Rightbar => "rightbar",
            LayoutMode::Fullscreen => "fullscreen",
        }
    }
}

/// The parts of a lyric line that decide how it is drawn.
#[derive(Debug, Clone, Copy, PartialEq, Eq, Structural)]
pub struct LyricLine {
    /// A background vocal, drawn smaller under its main line.
    pub background: bool,
    /// Sung by the other voice of a duet, drawn on the right.
    pub opposite_turn: bool,
    /// For a background vocal, the main line it belongs to.
    pub parent_line_index: Option<usize>,
}

pub const FULLSCREEN_MAIN_LYRIC_CLASS: &'static str = "text-white/40 text-2xl font-semibold transition-colors duration-300 hover:text-white/60 cursor-pointer whitespace-pre-wrap text-left w-full";
pub const FULLSCREEN_ACTIVE_MAIN_LYRIC_CLASS: &'static str = "text-white text-2xl font-semibold transition-colors duration-300 whitespace-pre-wrap text-left w-full";
pub const RIGHTBAR_MAIN_LYRIC_CLASS: &'static str = "text-white/40 text-lg font-semibold transition-colors duration-300 hover:text-white/60 cursor-pointer whitespace-pre-wrap text-left w-full";
pub const RIGHTBAR_ACTIVE_MAIN_LYRIC_CLASS: &'static str = "text-white text-lg font-semibold transition-colors duration-300 whitespace-pre-wrap text-left w-full";
pub const FULLSCREEN_CENTER_LYRIC_CLASS: &'static str = "text-white/40 text-2xl font-semibold transition-colors duration-300 hover:text-white/60 cursor-pointer whitespace-pre-wrap text-center w-full";
pub const FULLSCREEN_ACTIVE_CENTER_LYRIC_CLASS: &'static str = "text-white text-2xl font-semibold transition-colors duration-300 whitespace-pre-wrap text-center w-full";
pub const RIGHTBAR_CENTER_LYRIC_CLASS: &'static str = "text-white/40 text-lg font-semibold transition-colors duration-300 hover:text-white/60 cursor-pointer whitespace-pre-wrap text-center w-full";
pub const RIGHTBAR_ACTIVE_CENTER_LYRIC_CLASS: &'static str = "text-white text-lg font-semibold transition-colors duration-300 whitespace-pre-wrap text-center w-full";
pub const LYRIC_STYLE: &'static str = "box-sizing: border-box; overflow-wrap: normal; word-break: normal; transform: scale(1); transition: color 300ms, transform 300ms, opacity 180ms, max-height 180ms, margin-top 180ms;";
pub const FULLSCREEN_BACKGROUND_LYRIC_CLASS: &'static str = "text-white/25 text-xl font-medium transition-colors duration-300 whitespace-pre-wrap text-left w-full pl-6 leading-snug";
pub const FULLSCREEN_ACTIVE_BACKGROUND_LYRIC_CLASS: &'static str = "text-white/70 text-xl font-medium transition-colors duration-300 whitespace-pre-wrap text-left w-full pl-6 leading-snug";
pub const RIGHTBAR_BACKGROUND_LYRIC_CLASS: &'static str = "text-white/25 text-sm font-medium transition-colors duration-300 whitespace-pre-wrap text-left w-full pl-4 leading-snug";
pub const RIGHTBAR_ACTIVE_BACKGROUND_LYRIC_CLASS: &'static str = "text-white/70 text-sm font-medium transition-colors duration-300 whitespace-pre-wrap text-left w-full pl-4 leading-snug";
pub const FULLSCREEN_BACKGROUND_OPPOSITE_LYRIC_CLASS: &'static str = "text-white/25 text-xl font-medium transition-colors duration-300 whitespace-pre-wrap text-right w-full pr-6 leading-snug";
pub const FULLSCREEN_ACTIVE_BACKGROUND_OPPOSITE_LYRIC_CLASS: &'static str = "text-white/70 text-xl font-medium transition-colors duration-300 whitespace-pre-wrap text-right w-full pr-6 leading-snug";
pub const RIGHTBAR_BACKGROUND_OPPOSITE_LYRIC_CLASS: &'static str = "text-white/25 text-sm font-medium transition-colors duration-300 whitespace-pre-wrap text-right w-full pr-4 leading-snug";
pub const RIGHTBAR_ACTIVE_BACKGROUND_OPPOSITE_LYRIC_CLASS: &'static str = "text-white/70 text-sm font-medium transition-colors duration-300 whitespace-pre-wrap text-right w-full pr-4 leading-snug";
pub const FULLSCREEN_OPPOSITE_LYRIC_CLASS: &'static str = "text-white/40 text-2xl italic font-semibold transition-colors duration-300 hover:text-white/60 cursor-pointer whitespace-pre-wrap text-right w-full";
pub const FULLSCREEN_ACTIVE_OPPOSITE_LYRIC_CLASS: &'static str = "text-white text-2xl italic font-semibold transition-colors duration-300 whitespace-pre-wrap text-right w-full";
pub const RIGHTBAR_OPPOSITE_LYRIC_CLASS: &'static str = "text-white/40 text-lg italic font-semibold transition-colors duration-300 hover:text-white/60 cursor-pointer whitespace-pre-wrap text-right w-full";
pub const RIGHTBAR_ACTIVE_OPPOSITE_LYRIC_CLASS: &'static str = "text-white text-lg italic font-semibold transition-colors duration-300 whitespace-pre-wrap text-right w-full";

/// How a lyric line is laid out.
#[derive(Debug, Clone, Copy, PartialEq, Eq, Structural)]
pub enum LyricKind {
    /// A background vocal of the first voice.
    Background,
    /// A background vocal of the other voice.
    BackgroundOpposite,
    /// A line of the other voice.
    Opposite,
    /// A line of the first voice in a duet.
    Main,
    /// A line of a song with one voice, centred.
    Center,
}

/// The layout of a line, given whether the song has a second voice.
pub open spec fn lyric_kind(line: LyricLine, has_opposite_turn: bool) -> LyricKind {
    if line.background {
        if line.opposite_turn {
            LyricKind::BackgroundOpposite
        } else {
            LyricKind::Background
        }
    } else if line.opposite_turn {
        LyricKind::Opposite
    } else if has_opposite_turn {
        LyricKind::Main
    } else {
        LyricKind::Center
    }
}

/// The class table: one class per layout, kind of line and highlight.
pub open spec fn lyric_class(layout: LayoutMode, kind: LyricKind, active: bool) -> &'static str {
    match (layout, kind, active) {
        (LayoutMode::Fullscreen, LyricKind::Background, false) => FULLSCREEN_BACKGROUND_LYRIC_CLASS,
        (LayoutMode::Fullscreen, LyricKind::Background, true) => FULLSCREEN_ACTIVE_BACKGROUND_LYRIC_CLASS,
        (LayoutMode::Rightbar, LyricKind::Background, false) => RIGHTBAR_BACKGROUND_LYRIC_CLASS,
        (LayoutMode::Rightbar, LyricKind::Background, true) => RIGHTBAR_ACTIVE_BACKGROUND_LYRIC_CLASS,
        (LayoutMode::Fullscreen, LyricKind::BackgroundOpposite, false) => FULLSCREEN_BACKGROUND_OPPOSITE_LYRIC_CLASS,
        (LayoutMode::Fullscreen, LyricKind::BackgroundOpposite, true) => FULLSCREEN_ACTIVE_BACKGROUND_OPPOSITE_LYRIC_CLASS,
        (LayoutMode::Rightbar, LyricKind::BackgroundOpposite, false) => RIGHTBAR_BACKGROUND_OPPOSITE_LYRIC_CLASS,
        (LayoutMode::Rightbar, LyricKind::BackgroundOpposite, true) => RIGHTBAR_ACTIVE_BACKGROUND_OPPOSITE_LYRIC_CLASS,
        (LayoutMode::Fullscreen, LyricKind::Opposite, false) => FULLSCREEN_OPPOSITE_LYRIC_CLASS,
        (LayoutMode::Fullscreen, LyricKind::Opposite, true) => FULLSCREEN_ACTIVE_OPPOSITE_LYRIC_CLASS,
        (LayoutMode::Rightbar, LyricKind::Opposite, false) => RIGHTBAR_OPPOSITE_LYRIC_CLASS,
        (LayoutMode::Rightbar, LyricKind::Opposite, true) => RIGHTBAR_ACTIVE_OPPOSITE_LYRIC_CLASS,
        (LayoutMode::Fullscreen, LyricKind::Main, false) => FULLSCREEN_MAIN_LYRIC_CLASS,
        (LayoutMode::Fullscreen, LyricKind::Main, true) => FULLSCREEN_ACTIVE_MAIN_LYRIC_CLASS,
        (LayoutMode::Rightbar, LyricKind::Main, false) => RIGHTBAR_MAIN_LYRIC_CLASS,
        (LayoutMode::Rightbar, LyricKind::Main, true) => RIGHTBAR_ACTIVE_MAIN_LYRIC_CLASS,
        (LayoutMode::Fullscreen, LyricKind::Center, false) => FULLSCREEN_CENTER_LYRIC_CLASS,
        (LayoutMode::Fullscreen, LyricKind::Center, true) => FULLSCREEN_ACTIVE_CENTER_LYRIC_CLASS,
        (LayoutMode::Rightbar, LyricKind::Center, false) => RIGHTBAR_CENTER_LYRIC_CLASS,
        (LayoutMode::Rightbar, LyricKind::Center, true) => RIGHTBAR_ACTIVE_CENTER_LYRIC_CLASS,
    }
}

/// Whether `t` occurs in `s`.
pub open spec fn has_text(s: Seq<char>, t: Seq<char>) -> bool {
    exists|k: int| 0 <= k && k + t.len() <= s.len() && #[trigger] s.subrange(k, k + t.len()) == t
}

proof fn lemma_classes_right()
    ensures
        has_text(FULLSCREEN_BACKGROUND_OPPOSITE_LYRIC_CLASS@, "text-right"@),
        has_text(FULLSCREEN_ACTIVE_BACKGROUND_OPPOSITE_LYRIC_CLASS@, "text-right"@),
        has_text(RIGHTBAR_BACKGROUND_OPPOSITE_LYRIC_CLASS@, "text-right"@),
        has_text(RIGHTBAR_ACTIVE_BACKGROUND_OPPOSITE_LYRIC_CLASS@, "text-right"@),
        has_text(FULLSCREEN_OPPOSITE_LYRIC_CLASS@, "text-right"@),
        has_text(FULLSCREEN_ACTIVE_OPPOSITE_LYRIC_CLASS@, "text-right"@),
        has_text(RIGHTBAR_OPPOSITE_LYRIC_CLASS@, "text-right"@),
        has_text(RIGHTBAR_ACTIVE_OPPOSITE_LYRIC_CLASS@, "text-right"@),
{
    reveal_strlit("text-right");
    reveal_strlit("text-white/25 text-xl font-medium transition-colors duration-300 whitespace-pre-wrap text-right w-full pr-6 leading-snug");
    assert(FULLSCREEN_BACKGROUND_OPPOSITE_LYRIC_CLASS@.subrange(85, 85int + "text-right"@.len()) =~= "text-right"@);
    reveal_strlit("text-white/70 text-xl font-medium transition-colors duration-300 whitespace-pre-wrap text-right w-full pr-6 leading-snug");
    assert(FULLSCREEN_ACTIVE_BACKGROUND_OPPOSITE_LYRIC_CLASS@.subrange(85, 85int + "text-right"@.len()) =~= "text-right"@);
    reveal_strlit("text-white/25 text-sm font-medium transition-colors duration-300 whitespace-pre-wrap text-right w-full pr-4 leading-snug");
    assert(RIGHTBAR_BACKGROUND_OPPOSITE_LYRIC_CLASS@.subrange(85, 85int + "text-right"@.len()) =~= "text-right"@);
    reveal_strlit("text-white/70 text-sm font-medium transition-colors duration-300 whitespace-pre-wrap text-right w-full pr-4 leading-snug");
    assert(RIGHTBAR_ACTIVE_BACKGROUND_OPPOSITE_LYRIC_CLASS@.subrange(85, 85int + "text-right"@.len()) =~= "text-right"@);
    reveal_strlit("text-white/40 text-2xl italic font-semibold transition-colors duration-300 hover:text-white/60 cursor-pointer whitespace-pre-wrap text-right w-full");
    assert(FULLSCREEN_OPPOSITE_LYRIC_CLASS@.subrange(130, 130int + "text-right"@.len()) =~= "text-right"@);
    reveal_strlit("text-white text-2xl italic font-semibold transition-colors duration-300 whitespace-pre-wrap text-right w-full");
    assert(FULLSCREEN_ACTIVE_OPPOSITE_LYRIC_CLASS@.subrange(92, 92int + "text-right"@.len()) =~= "text-right"@);
    reveal_strlit("text-white/40 text-lg italic font-semibold transition-colors duration-300 hover:text-white/60 cursor-pointer whitespace-pre-wrap text-right w-full");
    assert(RIGHTBAR_OPPOSITE_LYRIC_CLASS@.subrange(129, 129int + "text-right"@.len()) =~= "text-right"@);
    reveal_strlit("text-white text-lg italic font-semibold transition-colors duration-300 whitespace-pre-wrap text-right w-full");
    assert(RIGHTBAR_ACTIVE_OPPOSITE_LYRIC_CLASS@.subrange(91, 91int + "text-right"@.len()) =~= "text-right"@);
}

proof fn lemma_classes_left()
    ensures
        has_text(FULLSCREEN_MAIN_LYRIC_CLASS@, "text-left"@),
        has_text(FULLSCREEN_ACTIVE_MAIN_LYRIC_CLASS@, "text-left"@),
        has_text(RIGHTBAR_MAIN_LYRIC_CLASS@, "text-left"@),
        has_text(RIGHTBAR_ACTIVE_MAIN_LYRIC_CLASS@, "text-left"@),
        has_text(FULLSCREEN_BACKGROUND_LYRIC_CLASS@, "text-left"@),
        has_text(FULLSCREEN_ACTIVE_BACKGROUND_LYRIC_CLASS@, "text-left"@),
        has_text(RIGHTBAR_BACKGROUND_LYRIC_CLASS@, "text-left"@),
        has_text(RIGHTBAR_ACTIVE_BACKGROUND_LYRIC_CLASS@, "text-left"@),
{
    reveal_strlit("text-left");
    reveal_strlit("text-white/40 text-2xl font-semibold transition-colors duration-300 hover:text-white/60 cursor-pointer whitespace-pre-wrap text-left w-full");
    assert(FULLSCREEN_MAIN_LYRIC_CLASS@.subrange(123, 123int + "text-left"@.len()) =~= "text-left"@);
    reveal_strlit("text-white text-2xl font-semibold transition-colors duration-300 whitespace-pre-wrap text-left w-full");
    assert(FULLSCREEN_ACTIVE_MAIN_LYRIC_CLASS@.subrange(85, 85int + "text-left"@.len()) =~= "text-left"@);
    reveal_strlit("text-white/40 text-lg font-semibold transition-colors duration-300 hover:text-white/60 cursor-pointer whitespace-pre-wrap text-left w-full");
    assert(RIGHTBAR_MAIN_LYRIC_CLASS@.subrange(122, 122int + "text-left"@.len()) =~= "text-left"@);
    reveal_strlit("text-white text-lg font-semibold transition-colors duration-300 whitespace-pre-wrap text-left w-full");
    assert(RIGHTBAR_ACTIVE_MAIN_LYRIC_CLASS@.subrange(84, 84int + "text-left"@.len()) =~= "text-left"@);
    reveal_strlit("text-white/25 text-xl font-medium transition-colors duration-300 whitespace-pre-wrap text-left w-full pl-6 leading-snug");
    assert(FULLSCREEN_BACKGROUND_LYRIC_CLASS@.subrange(85, 85int + "text-left"@.len()) =~= "text-left"@);
    reveal_strlit("text-white/70 text-xl font-medium transition-colors duration-300 whitespace-pre-wrap text-left w-full pl-6 leading-snug");
    assert(FULLSCREEN_ACTIVE_BACKGROUND_LYRIC_CLASS@.subrange(85, 85int + "text-left"@.len()) =~= "text-left"@);
    reveal_strlit("text-white/25 text-sm font-medium transition-colors duration-300 whitespace-pre-wrap text-left w-full pl-4 leading-snug");
    assert(RIGHTBAR_BACKGROUND_LYRIC_CLASS@.subrange(85, 85int + "text-left"@.len()) =~= "text-left"@);
    reveal_strlit("text-white/70 text-sm font-medium transition-colors duration-300 whitespace-pre-wrap text-left w-full pl-4 leading-snug");
    assert(RIGHTBAR_ACTIVE_BACKGROUND_LYRIC_CLASS@.subrange(85, 85int + "text-left"@.len()) =~= "text-left"@);
}

proof fn lemma_classes_center()
    ensures
        has_text(FULLSCREEN_CENTER_LYRIC_CLASS@, "text-center"@),
        has_text(FULLSCREEN_ACTIVE_CENTER_LYRIC_CLASS@, "text-center"@),
        has_text(RIGHTBAR_CENTER_LYRIC_CLASS@, "text-center"@),
        has_text(RIGHTBAR_ACTIVE_CENTER_LYRIC_CLASS@, "text-center"@),
{
    reveal_strlit("text-center");
    reveal_strlit("text-white/40 text-2xl font-semibold transition-colors duration-300 hover:text-white/60 cursor-pointer whitespace-pre-wrap text-center w-full");
    assert(FULLSCREEN_CENTER_LYRIC_CLASS@.subrange(123, 123int + "text-center"@.len()) =~= "text-center"@);
    reveal_strlit("text-white text-2xl font-semibold transition-colors duration-300 whitespace-pre-wrap text-center w-full");
    assert(FULLSCREEN_ACTIVE_CENTER_LYRIC_CLASS@.subrange(85, 85int + "text-center"@.len()) =~= "text-center"@);
    reveal_strlit("text-white/40 text-lg font-semibold transition-colors duration-300 hover:text-white/60 cursor-pointer whitespace-pre-wrap text-center w-full");
    assert(RIGHTBAR_CENTER_LYRIC_CLASS@.subrange(122, 122int + "text-center"@.len()) =~= "text-center"@);
    reveal_strlit("text-white text-lg font-semibold transition-colors duration-300 whitespace-pre-wrap text-center w-full");
    assert(RIGHTBAR_ACTIVE_CENTER_LYRIC_CLASS@.subrange(84, 84int + "text-center"@.len()) =~= "text-center"@);
}

/// Every lyric line is aligned to its voice's side: a line of the second
/// voice (a background vocal of it too) is aligned right, the side it grows
/// from; a line of the first voice in a duet, and a background vocal of the
/// first voice, are aligned left; in a song with one voice the main lines are
/// centred.
pub proof fn lemma_lyric_line_side(layout: LayoutMode, line: LyricLine, active: bool, has_opposite_turn: bool)
    ensures
        line.opposite_turn ==> has_text(lyric_class(layout, lyric_kind(line, has_opposite_turn), active)@, "text-right"@),
        !line.opposite_turn && (line.background || has_opposite_turn) ==> has_text(
            lyric_class(layout, lyric_kind(line, has_opposite_turn), active)@,
            "text-left"@,
        ),
        !line.opposite_turn && !line.background && !has_opposite_turn ==> has_text(
            lyric_class(layout, lyric_kind(line, has_opposite_turn), active)@,
            "text-center"@,
        ),
{
    lemma_classes_right();
    lemma_classes_left();
    lemma_classes_center();
}

/// The classes of a lyric line.
pub fn lyric_line_class(layout: LayoutMode, line: &LyricLine, active: bool, has_opposite_turn: bool) -> (r: &'static str)
    ensures
        r == lyric_class(layout, lyric_kind(*line, has_opposite_turn), active),
        line.opposite_turn ==> has_text(r@, "text-right"@),
        !line.opposite_turn && (line.background || has_opposite_turn) ==> has_text(r@, "text-left"@),
        !line.opposite_turn && !line.background && !has_opposite_turn ==> has_text(r@, "text-center"@),
{
    proof {
        lemma_lyric_line_side(layout, *line, active, has_opposite_turn);
    }
    match (layout, line.background, line.opposite_turn, has_opposite_turn, active) {
        (LayoutMode::Fullscreen, true, false, _, false) => FULLSCREEN_BACKGROUND_LYRIC_CLASS,
        (LayoutMode::Fullscreen, true, false, _, true) => FULLSCREEN_ACTIVE_BACKGROUND_LYRIC_CLASS,
        (LayoutMode::Rightbar, true, false, _, false) => RIGHTBAR_BACKGROUND_LYRIC_CLASS,
        (LayoutMode::Rightbar, true, false, _, true) => RIGHTBAR_ACTIVE_BACKGROUND_LYRIC_CLASS,
        (LayoutMode::Fullscreen, true, true, _, false) => FULLSCREEN_BACKGROUND_OPPOSITE_LYRIC_CLASS,
        (LayoutMode::Fullscreen, true, true, _, true) => FULLSCREEN_ACTIVE_BACKGROUND_OPPOSITE_LYRIC_CLASS,
        (LayoutMode::Rightbar, true, true, _, false) => RIGHTBAR_BACKGROUND_OPPOSITE_LYRIC_CLASS,
        (LayoutMode::Rightbar, true, true, _, true) => RIGHTBAR_ACTIVE_BACKGROUND_OPPOSITE_LYRIC_CLASS,
        (LayoutMode::Fullscreen, false, true, _, false) => FULLSCREEN_OPPOSITE_LYRIC_CLASS,
        (LayoutMode::Fullscreen, false, true, _, true) => FULLSCREEN_ACTIVE_OPPOSITE_LYRIC_CLASS,
        (LayoutMode::Rightbar, false, true, _, false) => RIGHTBAR_OPPOSITE_LYRIC_CLASS,
        (LayoutMode::Rightbar, false, true, _, true) => RIGHTBAR_ACTIVE_OPPOSITE_LYRIC_CLASS,
        (LayoutMode::Fullscreen, false, false, true, false) => FULLSCREEN_MAIN_LYRIC_CLASS,
        (LayoutMode::Fullscreen, false, false, true, true) => FULLSCREEN_ACTIVE_MAIN_LYRIC_CLASS,
        (LayoutMode::Rightbar, false, false, true, false) => RIGHTBAR_MAIN_LYRIC_CLASS,
        (LayoutMode::Rightbar, false, false, true, true) => RIGHTBAR_ACTIVE_MAIN_LYRIC_CLASS,
        (LayoutMode::Fullscreen, false, false, false, false) => FULLSCREEN_CENTER_LYRIC_CLASS,
        (LayoutMode::Fullscreen, false, false, false, true) => FULLSCREEN_ACTIVE_CENTER_LYRIC_CLASS,
        (LayoutMode::Rightbar, false, false, false, false) => RIGHTBAR_CENTER_LYRIC_CLASS,
        (LayoutMode::Rightbar, false, false, false, true) => RIGHTBAR_ACTIVE_CENTER_LYRIC_CLASS,
    }
}

/// How much the active line grows: least for background vocals, more for
/// duets, most for a single voice.
pub fn lyric_line_active_scale(line: &LyricLine, has_opposite_turn: bool) -> (r: &'static str)
    ensures
        line.background ==> r@ == "1.02"@,
        !line.background && (line.opposite_turn || has_opposite_turn) ==> r@ == "1.06"@,
        !line.background && !line.opposite_turn && !has_opposite_turn ==> r@ == "1.12"@,
{
    if line.background {
        "1.02"
    } else if line.opposite_turn || has_opposite_turn {
        "1.06"
    } else {
        "1.12"
    }
}

/// The anchor the active line grows from: the side its voice is drawn on.
pub fn lyric_line_transform_origin(line: &LyricLine, has_opposite_turn: bool) -> (r: &'static str)
    ensures
        line.opposite_turn ==> r@ == "right center"@,
        !line.opposite_turn && has_opposite_turn ==> r@ == "left center"@,
        !line.opposite_turn && !has_opposite_turn ==> r@ == "center"@,
{
    if line.opposite_turn {
        "right center"
    } else if has_opposite_turn {
        "left center"
    } else {
        "center"
    }
}

/// The width limit of a line: narrower in duets and in the side panel.
pub open spec fn max_width_text(layout: LayoutMode, duet: bool) -> Seq<char> {
    match (layout, duet) {
        (LayoutMode::Fullscreen, true) => "min(90%, 34rem)"@,
        (LayoutMode::Fullscreen, false) => "min(100%, 38rem)"@,
        (LayoutMode::Rightbar, true) => "min(90%, 18rem)"@,
        (LayoutMode::Rightbar, false) => "min(100%, 20rem)"@,
    }
}

/// The width limit of a lyric line.
pub fn lyric_line_max_width(layout: LayoutMode, line: &LyricLine, has_opposite_turn: bool) -> (r: &'static str)
    ensures
        r@ == max_width_text(layout, line.opposite_turn || has_opposite_turn),
{
    match (layout, line.opposite_turn || has_opposite_turn) {
        (LayoutMode::Fullscreen, true) => "min(90%, 34rem)",
        (LayoutMode::Fullscreen, false) => "min(100%, 38rem)",
        (LayoutMode::Rightbar, true) => "min(90%, 18rem)",
        (LayoutMode::Rightbar, false) => "min(100%, 20rem)",
    }
}

/// The margins that push a line to its voice's side.
pub open spec fn margin_text(line: LyricLine, has_opposite_turn: bool) -> Seq<char> {
    if line.opposite_turn {
        "margin-left: auto; margin-right: 0;"@
    } else if has_opposite_turn {
        "margin-left: 0; margin-right: auto;"@
    } else {
        "margin-left: auto; margin-right: auto;"@
    }
}

/// The inline style of a lyric line: the shared transitions, the width limit
/// twice (as width and max-width), then the side margins.
pub fn lyric_line_style(layout: LayoutMode, line: &LyricLine, has_opposite_turn: bool) -> (r: String)
    ensures
        r@ == LYRIC_STYLE@ + " width: "@ + max_width_text(layout, line.opposite_turn || has_opposite_turn)
            + "; max-width: "@ + max_width_text(layout, line.opposite_turn || has_opposite_turn) + "; "@
            + margin_text(*line, has_opposite_turn),
{
    let max_width = lyric_line_max_width(layout, line, has_opposite_turn);
    let margin_style = if line.opposite_turn {
        "margin-left: auto; margin-right: 0;"
    } else if has_opposite_turn {
        "margin-left: 0; margin-right: auto;"
    } else {
        "margin-left: auto; margin-right: auto;"
    };
    let mut s = String::from_str(LYRIC_STYLE);
    s.append(" width: ");
    s.append(max_width);
    s.append("; max-width: ");
    s.append(max_width);
    s.append("; ");
    s.append(margin_style);
    s
}

/// The positions of the lines that are not background vocals, in order.
pub open spec fn foreground_positions(lines: Seq<LyricLine>) -> Seq<usize>
    decreases lines.len(),
{
    if lines.len() == 0 {
        Seq::empty()
    } else if !lines.last().background {
        foreground_positions(lines.drop_last()).push((lines.len() - 1) as usize)
    } else {
        foreground_positions(lines.drop_last())
    }
}

/// The lines the highlight steps through: the foreground lines, or every
/// line when all of them are background vocals.
pub fn main_line_indices(lines: &[LyricLine]) -> (r: Vec<usize>)
    ensures
        foreground_positions(lines@).len() > 0 ==> r@ == foreground_positions(lines@),
        foreground_positions(lines@).len() == 0 ==> r@ == Seq::new(lines@.len(), |k: int| k as usize),
{
    let mut foreground: Vec<usize> = Vec::new();
    let mut i: usize = 0;
    while i < lines.len()
        invariant
            i <= lines@.len(),
            foreground@ == foreground_positions(lines@.take(i as int)),
        decreases lines@.len() - i,
    {
        assert(lines@.take(i + 1).drop_last() =~= lines@.take(i as int));
        if !lines[i].background {
            foreground.push(i);
        }
        i = i + 1;
    }
    assert(lines@.take(lines@.len() as int) =~= lines@);
    if foreground.len() > 0 {
        return foreground;
    }
    let mut all: Vec<usize> = Vec::new();
    let mut k: usize = 0;
    while k < lines.len()
        invariant
            k <= lines@.len(),
            all@ == Seq::new(k as nat, |j: int| j as usize),
        decreases lines@.len() - k,
    {
        all.push(k);
        k = k + 1;
        assert(all@ =~= Seq::new(k as nat, |j: int| j as usize));
    }
    all
}

/// The word of a line that is being sung, as written for the lyric script:
/// its position, or `-1` before the first word.
pub open spec fn chunk_text(chunk: Option<usize>) -> Seq<char> {
    match chunk {
        Some(k) => decimal(k as nat),
        None => seq!['-', '1'],
    }
}

/// One entry `[line,word]` of the list of background lines in progress.
pub open spec fn secondary_entry(index: nat, chunk: Option<usize>) -> Seq<char> {
    seq!['['] + decimal(index) + seq![','] + chunk_text(chunk) + seq![']']
}

/// Whether the line at `index` is a background vocal of the main line `main`.
pub open spec fn is_secondary_of(line: LyricLine, index: int, main: usize) -> bool {
    index != main && line.background && line.parent_line_index == Some(main)
}

/// The comma-separated entries for the background vocals of `main` among the
/// first `n` lines.
pub open spec fn secondary_entries(
    lines: Seq<LyricLine>,
    chunks: Seq<Option<usize>>,
    main: usize,
    n: nat,
) -> Seq<char>
    decreases n,
{
    if n == 0 {
        Seq::empty()
    } else {
        let prev = secondary_entries(lines, chunks, main, (n - 1) as nat);
        let k = n - 1;
        if is_secondary_of(lines[k], k, main) {
            if prev.len() == 0 {
                secondary_entry(k as nat, chunks[k])
            } else {
                prev + seq![','] + secondary_entry(k as nat, chunks[k])
            }
        } else {
            prev
        }
    }
}

/// The background lines sung with the main line `main_line_index`, as the
/// list `[[line,word],...]` handed to the lyric script. `active_chunks` holds,
/// for each line, the word reached at the current time.
pub fn active_secondary_lines(
    lines: &[LyricLine],
    active_chunks: &[Option<usize>],
    main_line_index: usize,
) -> (r: String)
    requires
        active_chunks@.len() == lines@.len(),
    ensures
        r@ == seq!['['] + secondary_entries(lines@, active_chunks@, main_line_index, lines@.len())
            + seq![']'],
{
    let mut out = String::new();
    push_char(&mut out, '[');
    let mut any: bool = false;
    let mut i: usize = 0;
    while i < lines.len()
        invariant
            i <= lines@.len(),
            active_chunks@.len() == lines@.len(),
            out@ == seq!['['] + secondary_entries(lines@, active_chunks@, main_line_index, i as nat),
            any <==> secondary_entries(lines@, active_chunks@, main_line_index, i as nat).len() > 0,
        decreases lines@.len() - i,
    {
        let line = lines[i];
        if i != main_line_index && line.background && line.parent_line_index == Some(main_line_index) {
            if any {
                push_char(&mut out, ',');
            }
            push_char(&mut out, '[');
            push_decimal(&mut out, i as u64);
            push_char(&mut out, ',');
            match active_chunks[i] {
                Some(k) => push_decimal(&mut out, k as u64),
                None => {
                    push_char(&mut out, '-');
                    push_char(&mut out, '1');
                },
            }
            push_char(&mut out, ']');
            any = true;
        }
        i = i + 1;
    }
    push_char(&mut out, ']');
    out
}

} // verus!
