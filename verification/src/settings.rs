//! The settings that are kept between runs, and their conversion to and
//! from the values the frontend works with.
use vstd::prelude::*;
use vstd::std_specs::convert::FromSpecImpl;
use crate::app_model::{DownloadMode, QualityPreset};

verus! {

#[derive(Clone, Debug, PartialEq, Eq)]
pub struct AppSettings {
    pub download_path: String,
    pub mode: SavedDownloadMode,
    pub quality: SavedQualityPreset,
    pub last_url: String,
}

#[derive(Clone, Copy, Debug, PartialEq, Eq, Structural)]
pub enum SavedDownloadMode {
    Video,
    AudioMp3,
    Manual,
}

#[derive(Clone, Copy, Debug, PartialEq, Eq, Structural)]
pub enum SavedQualityPreset {
    Best,
    P1080,
    P720,
    P480,
    Worst,
}

pub open spec fn saved_mode_of(m: DownloadMode) -> SavedDownloadMode {
    match m {
        DownloadMode::Video => SavedDownloadMode::Video,
        DownloadMode::AudioMp3 => SavedDownloadMode::AudioMp3,
        DownloadMode::Manual => SavedDownloadMode::Manual,
    }
}

pub open spec fn runtime_mode_of(m: SavedDownloadMode) -> DownloadMode {
    match m {
        SavedDownloadMode::Video => DownloadMode::Video,
        SavedDownloadMode::AudioMp3 => DownloadMode::AudioMp3,
        SavedDownloadMode::Manual => DownloadMode::Manual,
    }
}

pub open spec fn saved_quality_of(q: QualityPreset) -> SavedQualityPreset {
    match q {
        QualityPreset::Best => SavedQualityPreset::Best,
        QualityPreset::P1080 => SavedQualityPreset::P1080,
        QualityPreset::P720 => SavedQualityPreset::P720,
        QualityPreset::P480 => SavedQualityPreset::P480,
        QualityPreset::Worst => SavedQualityPreset::Worst,
    }
}

pub open spec fn runtime_quality_of(q: SavedQualityPreset) -> QualityPreset {
    match q {
        SavedQualityPreset::Best => QualityPreset::Best,
        SavedQualityPreset::P1080 => QualityPreset::P1080,
        SavedQualityPreset::P720 => QualityPreset::P720,
        SavedQualityPreset::P480 => QualityPreset::P480,
        SavedQualityPreset::Worst => QualityPreset::Worst,
    }
}

impl SavedDownloadMode {
    pub fn to_runtime(&self) -> (r: DownloadMode)
        ensures
            r == runtime_mode_of(*self),
    {
        match self {
            Self::Video => DownloadMode::Video,
            Self::AudioMp3 => DownloadMode::AudioMp3,
            Self::Manual => DownloadMode::Manual,
        }
    }
}

impl<'a> From<&'a DownloadMode> for SavedDownloadMode {
    fn from(value: &'a DownloadMode) -> (r: Self) {
        match value {
            DownloadMode::Video => Self::Video,
            DownloadMode::AudioMp3 => Self::AudioMp3,
            DownloadMode::Manual => Self::Manual,
        }
    }
}

impl<'a> FromSpecImpl<&'a DownloadMode> for SavedDownloadMode {
    open spec fn obeys_from_spec() -> bool {
        true
    }

    open spec fn from_spec(v: &'a DownloadMode) -> Self {
        saved_mode_of(*v)
    }
}

impl SavedQualityPreset {
    pub fn to_runtime(&self) -> (r: QualityPreset)
        ensures
            r == runtime_quality_of(*self),
    {
        match self {
            Self::Best => QualityPreset::Best,
            Self::P1080 => QualityPreset::P1080,
            Self::P720 => QualityPreset::P720,
            Self::P480 => QualityPreset::P480,
            Self::Worst => QualityPreset::Worst,
        }
    }
}

impl<'a> From<&'a QualityPreset> for SavedQualityPreset {
    fn from(value: &'a QualityPreset) -> (r: Self) {
        match value {
            QualityPreset::Best => Self::Best,
            QualityPreset::P1080 => Self::P1080,
            QualityPreset::P720 => Self::P720,
            QualityPreset::P480 => Self::P480,
            QualityPreset::Worst => Self::Worst,
        }
    }
}

impl<'a> FromSpecImpl<&'a QualityPreset> for SavedQualityPreset {
    open spec fn obeys_from_spec() -> bool {
        true
    }

    open spec fn from_spec(v: &'a QualityPreset) -> Self {
        saved_quality_of(*v)
    }
}

impl AppSettings {
    /// The settings that record the frontend's current choices.
    pub fn from_runtime(
        download_path: String,
        mode: &DownloadMode,
        quality: &QualityPreset,
        last_url: String,
    ) -> (r: Self)
        ensures
            r.download_path == download_path,
            r.mode == saved_mode_of(*mode),
            r.quality == saved_quality_of(*quality),
            r.last_url == last_url,
    {
        Self {
            download_path,
            mode: SavedDownloadMode::from(mode),
            quality: SavedQualityPreset::from(quality),
            last_url,
        }
    }

    /// The frontend's choices that these settings record.
    pub fn apply_to_runtime(&self) -> (r: (String, DownloadMode, QualityPreset, String))
        ensures
            r.0 == self.download_path,
            r.1 == runtime_mode_of(self.mode),
            r.2 == runtime_quality_of(self.quality),
            r.3 == self.last_url,
    {
        (
            self.download_path.clone(),
            self.mode.to_runtime(),
            self.quality.to_runtime(),
            self.last_url.clone(),
        )
    }
}

/// Saving the frontend's choices and applying them back gives the same
/// choices.
pub proof fn law_settings_restore_choices(mode: DownloadMode, quality: QualityPreset)
    ensures
        runtime_mode_of(saved_mode_of(mode)) == mode,
        runtime_quality_of(saved_quality_of(quality)) == quality,
{
}

/// Applying saved settings and saving the result gives the same settings.
pub proof fn law_settings_resave(mode: SavedDownloadMode, quality: SavedQualityPreset)
    ensures
        saved_mode_of(runtime_mode_of(mode)) == mode,
        saved_quality_of(runtime_quality_of(quality)) == quality,
{
}

} // verus!
