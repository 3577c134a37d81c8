//! The fixed catalog of system voices, whose packaged samples are served as
//! local media under stable names.

use vstd::prelude::*;

use crate::json::str_eq;
use crate::text::{concat, concat3};

verus! {

/// The ids of the system voices, in catalog order.
pub open spec fn system_voices() -> Seq<Seq<char>> {
    seq![
        "broken_whisper_resilient_female"@,
        "cold_boss_male"@,
        "cool_career_newcomer_male"@,
        "soft_puppy_boyfriend_male"@,
        "sickly_gloomy_yandere_male"@,
        "ruthless_old_fox_male"@,
        "arrogant_genius_male"@,
        "cool_abstinent_detective_female"@,
        "warm_older_brother_male"@,
        "sweet_cold_yandere_male"@,
        "cold_royal_sister_female"@,
        "strong_female_lead"@,
        "mature_warm_goddess_female"@,
        "sweet_fox_tease_female"@,
    ]
}

/// The local media file name of a voice's sample.
pub open spec fn media_name(id: Seq<char>) -> Seq<char> {
    "system-voice-"@ + id + ".mp3"@
}

/// The ids of the system voices, in catalog order.
pub fn all() -> (r: Vec<&'static str>)
    ensures
        crate::skills::strs_view(r@) == system_voices(),
{
    let ids = vec![
        "broken_whisper_resilient_female",
        "cold_boss_male",
        "cool_career_newcomer_male",
        "soft_puppy_boyfriend_male",
        "sickly_gloomy_yandere_male",
        "ruthless_old_fox_male",
        "arrogant_genius_male",
        "cool_abstinent_detective_female",
        "warm_older_brother_male",
        "sweet_cold_yandere_male",
        "cold_royal_sister_female",
        "strong_female_lead",
        "mature_warm_goddess_female",
        "sweet_fox_tease_female",
    ];
    proof {
        assert(crate::skills::strs_view(ids@) =~= system_voices());
    }
    ids
}

/// The catalog id of a system voice, with its sample's media file name.
pub fn sample_for_voice(voice_id: &str) -> (r: Option<(String, String)>)
    ensures
        match r {
            Some((id, media)) => system_voices().contains(voice_id@) && id@ == voice_id@ && media@ == media_name(voice_id@),
            None => !system_voices().contains(voice_id@),
        },
{
    let ids = all();
    let mut i: usize = 0;
    while i < ids.len()
        invariant
            i <= ids.len(),
            crate::skills::strs_view(ids@) == system_voices(),
            forall|k: int| 0 <= k < i ==> system_voices()[k] != voice_id@,
        decreases ids.len() - i,
    {
        if str_eq(ids[i], voice_id) {
            proof {
                assert(system_voices()[i as int] == voice_id@);
            }
            return Some((ids[i].to_owned(), concat3("system-voice-", ids[i], ".mp3")));
        }
        proof {
            assert(system_voices()[i as int] == ids@[i as int]@);
        }
        i += 1;
    }
    None
}

/// The local media URL of a system voice's sample.
pub fn audio_url(voice_id: &str) -> (r: Option<String>)
    ensures
        crate::storage::opt_text_view(r) == if system_voices().contains(voice_id@) {
            Some("/api/media/"@ + media_name(voice_id@))
        } else {
            None
        },
{
    match sample_for_voice(voice_id) {
        Some((_, media)) => Some(concat("/api/media/", media.as_str())),
        None => None,
    }
}

/// Whether a voice id belongs to the shipped catalog rather than a creator's preset.
pub fn is_system_voice(voice_id: &str) -> (r: bool)
    ensures
        r == system_voices().contains(voice_id@),
{
    sample_for_voice(voice_id).is_some()
}

/// Whether a local media file name is one of the immutable system samples.
pub fn is_system_media(media_id: &str) -> (r: bool)
    ensures
        r == exists|k: int| 0 <= k < system_voices().len() && media_name(system_voices()[k]) == media_id@,
{
    let ids = all();
    let mut i: usize = 0;
    while i < ids.len()
        invariant
            i <= ids.len(),
            crate::skills::strs_view(ids@) == system_voices(),
            forall|k: int| 0 <= k < i ==> media_name(system_voices()[k]) != media_id@,
        decreases ids.len() - i,
    {
        let name = concat3("system-voice-", ids[i], ".mp3");
        proof {
            assert(system_voices()[i as int] == ids@[i as int]@);
        }
        if str_eq(name.as_str(), media_id) {
            return true;
        }
        i += 1;
    }
    false
}

} // verus!
