use vstd::prelude::*;

verus! {

/// The presets of the equalizer.
#[derive(Debug, Clone, Copy, PartialEq, Eq, Structural)]
pub enum EqPreset {
    Flat,
    BassBoost,
    TrebleBoost,
    VocalBoost,
    Loudness,
    Custom,
}

/// The translation key of a preset's label.
pub open spec fn eq_preset_key_text(preset: EqPreset) -> Seq<char> {
    match preset {
        EqPreset::Flat => "eq_preset_flat"@,
        EqPreset::BassBoost => "eq_preset_bass_boost"@,
        EqPreset::TrebleBoost => "eq_preset_treble_boost"@,
        EqPreset::VocalBoost => "eq_preset_vocal_boost"@,
        EqPreset::Loudness => "eq_preset_loudness"@,
        EqPreset::Custom => "eq_preset_custom"@,
    }
}

/// The translation key under which a preset's label is looked up.
pub fn eq_preset_key(preset: EqPreset) -> (r: &'static str)
    ensures
        r@ == eq_preset_key_text(preset),
{
    match preset {
        EqPreset::Flat => "eq_preset_flat",
        EqPreset::BassBoost => "eq_preset_bass_boost",
        EqPreset::TrebleBoost => "eq_preset_treble_boost",
        EqPreset::VocalBoost => "eq_preset_vocal_boost",
        EqPreset::Loudness => "eq_preset_loudness",
        EqPreset::Custom => "eq_preset_custom",
    }
}

/// How a track is shared.
#[derive(Debug, Clone, PartialEq, Eq)]
pub enum SharePlan {
    /// Copy the source's own web link and say so.
    CopyLink { url: String, toast: &'static str },
    /// Look the track up on MusicBrainz by its metadata.
    LookUpMusicBrainz,
}

/// A track with a public page on its source is shared by that link;
/// otherwise it is looked up on MusicBrainz.
pub fn share_track(web_url: Option<String>) -> (r: SharePlan)
    ensures
        web_url matches Some(u) ==> (r matches SharePlan::CopyLink { url, toast } && url == u
            && toast@ == "Copied link"@),
        web_url is None ==> r == SharePlan::LookUpMusicBrainz,
{
    match web_url {
        Some(url) => SharePlan::CopyLink { url, toast: "Copied link" },
        None => SharePlan::LookUpMusicBrainz,
    }
}

/// After a MusicBrainz lookup: the link to copy, if one was found, and the
/// message to show.
pub fn share_to_musicbrainz(found: Option<String>) -> (r: (Option<String>, &'static str))
    ensures
        found is Some ==> r.0 == found && r.1@ == "Copied MusicBrainz link"@,
        found is None ==> r.0 is None && r.1@ == "Couldn't find this track on MusicBrainz"@,
{
    match found {
        Some(url) => (Some(url), "Copied MusicBrainz link"),
        None => (None, "Couldn't find this track on MusicBrainz"),
    }
}

/// What to do with the answer of a radio request.
#[derive(Debug, Clone, Copy, PartialEq, Eq, Structural)]
pub enum RadioOutcome {
    /// Play the returned tracks as a new queue.
    Play,
    /// The source returned nothing; note it and carry on.
    Empty,
    /// The request failed; warn and carry on.
    Failed,
}

/// A radio answer with tracks is played; an empty one or a failure is only logged.
pub fn radio_outcome(succeeded: bool, track_count: usize) -> (r: RadioOutcome)
    ensures
        succeeded && track_count > 0 ==> r == RadioOutcome::Play,
        succeeded && track_count == 0 ==> r == RadioOutcome::Empty,
        !succeeded ==> r == RadioOutcome::Failed,
{
    if !succeeded {
        RadioOutcome::Failed
    } else if track_count > 0 {
        RadioOutcome::Play
    } else {
        RadioOutcome::Empty
    }
}

} // verus!
