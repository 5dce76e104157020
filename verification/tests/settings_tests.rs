use rusttube::app_model::{DownloadMode, QualityPreset};
use rusttube::settings::{AppSettings, SavedDownloadMode, SavedQualityPreset};

#[test]
fn settings_round_trip() {
    let modes = [DownloadMode::Video, DownloadMode::AudioMp3, DownloadMode::Manual];
    let qualities = [
        QualityPreset::Best,
        QualityPreset::P1080,
        QualityPreset::P720,
        QualityPreset::P480,
        QualityPreset::Worst,
    ];
    for m in modes {
        for q in qualities {
            let s = AppSettings::from_runtime("D:\\Videos".to_string(), &m, &q, "https://x".to_string());
            let (path, m2, q2, url) = s.apply_to_runtime();
            assert_eq!(path, "D:\\Videos");
            assert_eq!(m2, m);
            assert_eq!(q2, q);
            assert_eq!(url, "https://x");
            let again = AppSettings::from_runtime(path, &m2, &q2, url);
            assert_eq!(again, s);
        }
    }
}

#[test]
fn saved_values() {
    assert_eq!(SavedDownloadMode::from(&DownloadMode::AudioMp3), SavedDownloadMode::AudioMp3);
    assert_eq!(SavedQualityPreset::from(&QualityPreset::P480), SavedQualityPreset::P480);
    assert_eq!(SavedDownloadMode::Manual.to_runtime(), DownloadMode::Manual);
    assert_eq!(SavedQualityPreset::P1080.to_runtime(), QualityPreset::P1080);
}
