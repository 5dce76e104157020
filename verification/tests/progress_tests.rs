use rusttube::progress::{DownloadProgress, ProgressPhase};

fn fresh() -> DownloadProgress {
    DownloadProgress::default()
}

#[test]
fn destination_line_sets_file_and_preparing() {
    let mut p = fresh();
    p.update_from_chunk("[download] Destination: C:\\Downloads\\clip.mp4\n");
    assert_eq!(p.phase, ProgressPhase::Preparing);
    assert_eq!(p.current_file.as_deref(), Some("C:\\Downloads\\clip.mp4"));
    assert_eq!(p.percent, None);
}

#[test]
fn destination_text_stops_at_second_marker() {
    let mut p = fresh();
    p.update_from_chunk("[download] Destination:  a.mp4 Destination: b.mp4");
    assert_eq!(p.current_file.as_deref(), Some("a.mp4"));
}

#[test]
fn download_line_reads_percent_speed_and_eta() {
    let mut p = fresh();
    p.update_from_chunk("[download]  45.3% of ~ 10.00MiB at  2.00MiB/s ETA 00:05 (frag 3/9)");
    assert_eq!(p.phase, ProgressPhase::Downloading);
    assert_eq!(p.percent, Some(4530));
    assert_eq!(p.speed.as_deref(), Some("2.00MiB/s"));
    assert_eq!(p.eta.as_deref(), Some("00:05"));
}

#[test]
fn percent_is_clamped_and_bad_numbers_are_ignored() {
    let mut p = fresh();
    p.update_from_chunk("[download] 150% of 1MiB");
    assert_eq!(p.percent, Some(10000));
    p.update_from_chunk("[download] -5% of 1MiB");
    assert_eq!(p.percent, Some(0));
    p.update_from_chunk("[download] 12.345% of 1MiB");
    assert_eq!(p.percent, Some(1234));
    p.update_from_chunk("[download] N/A% of 1MiB");
    assert_eq!(p.percent, Some(1234));
    p.update_from_chunk("[download] .5% of 1MiB");
    assert_eq!(p.percent, Some(50));
    p.update_from_chunk("[download] 7.% of 1MiB");
    assert_eq!(p.percent, Some(700));
    p.update_from_chunk("[download] +100% done");
    assert_eq!(p.percent, Some(10000));
    p.update_from_chunk("[download] .% of 1MiB");
    assert_eq!(p.percent, Some(10000));
}

#[test]
fn later_pairs_win() {
    let mut p = fresh();
    p.update_from_chunk("[download] 1% at 1KiB/s ETA 10:00 at 2KiB/s ETA 05:00");
    assert_eq!(p.speed.as_deref(), Some("2KiB/s"));
    assert_eq!(p.eta.as_deref(), Some("05:00"));
}

#[test]
fn speed_and_eta_survive_lines_without_them() {
    let mut p = fresh();
    p.update_from_chunk("[download] 10% at 3MiB/s ETA 00:30\n[download] 20%\n");
    assert_eq!(p.percent, Some(2000));
    assert_eq!(p.speed.as_deref(), Some("3MiB/s"));
    assert_eq!(p.eta.as_deref(), Some("00:30"));
}

#[test]
fn post_processing_lines() {
    for line in ["[Merger] Merging formats into \"x.mp4\"", "[Metadata] Adding metadata", "[EmbedThumbnail] ffmpeg"] {
        let mut p = fresh();
        p.update_from_chunk(line);
        assert_eq!(p.phase, ProgressPhase::PostProcessing);
    }
}

#[test]
fn already_downloaded_finishes() {
    let mut p = fresh();
    p.update_from_chunk("[youtube] clip.mp4 has already been downloaded");
    assert_eq!(p.phase, ProgressPhase::Finished);
    assert_eq!(p.percent, Some(10000));
}

#[test]
fn already_downloaded_after_download_tag_is_a_download_line() {
    let mut p = fresh();
    p.update_from_chunk("[download] clip.mp4 has already been downloaded");
    assert_eq!(p.phase, ProgressPhase::Downloading);
    assert_eq!(p.percent, None);
}

#[test]
fn chunk_with_crlf_and_blank_lines() {
    let mut p = fresh();
    p.update_from_chunk("\r\n  [download] Destination: a.webm  \r\n\r\n[download]   3.0% of 5MiB at 1MiB/s ETA 00:04\r\n");
    assert_eq!(p.phase, ProgressPhase::Downloading);
    assert_eq!(p.current_file.as_deref(), Some("a.webm"));
    assert_eq!(p.percent, Some(300));
    assert_eq!(p.eta.as_deref(), Some("00:04"));
}

#[test]
fn chunks_compose_like_the_whole_text() {
    let mut a = fresh();
    a.update_from_chunk("[download] Destination: x.mp4\n");
    a.update_from_chunk("[download] 50% at 1MiB/s ETA 00:01");
    let mut b = fresh();
    b.update_from_chunk("[download] Destination: x.mp4\n[download] 50% at 1MiB/s ETA 00:01");
    assert_eq!(a.percent, b.percent);
    assert_eq!(a.phase, b.phase);
    assert_eq!(a.current_file, b.current_file);
    assert_eq!(a.speed, b.speed);
    assert_eq!(a.eta, b.eta);
}

#[test]
fn unrelated_and_empty_chunks_change_nothing() {
    let mut p = fresh();
    p.update_from_chunk("");
    p.update_from_chunk("[youtube] Extracting URL\n   \n");
    assert_eq!(p.phase, ProgressPhase::Idle);
    assert_eq!(p.percent, None);
    assert_eq!(p.current_file, None);
}

#[test]
fn reset_and_labels() {
    let mut p = fresh();
    p.update_from_chunk("[download] 50% at 1MiB/s ETA 00:01");
    assert_eq!(p.label(), "Downloading");
    p.reset();
    assert_eq!(p.phase, ProgressPhase::Idle);
    assert_eq!(p.percent, None);
    assert_eq!(p.speed, None);
    assert_eq!(p.label(), "Idle");
    let cases = [
        (ProgressPhase::Preparing, "Preparing"),
        (ProgressPhase::PostProcessing, "Post-processing"),
        (ProgressPhase::Finished, "Finished"),
        (ProgressPhase::Canceled, "Canceled"),
        (ProgressPhase::Failed, "Failed"),
    ];
    for (phase, label) in cases {
        p.phase = phase;
        assert_eq!(p.label(), label);
    }
    assert_eq!(ProgressPhase::default(), ProgressPhase::Idle);
}

#[test]
fn percent_with_exponent_or_infinity() {
    let cases: [(&str, Option<u32>); 14] = [
        ("1e2", Some(10000)),
        ("5E1", Some(5000)),
        ("2.5e1", Some(2500)),
        ("1e-2", Some(1)),
        ("1e-3", Some(0)),
        ("45.678e0", Some(4567)),
        ("+1e+1", Some(1000)),
        ("inf", Some(10000)),
        ("-Infinity", Some(0)),
        ("1e99999999999999999999999", Some(10000)),
        ("1e-99999999999999999999", Some(0)),
        ("0e999999999999999999999", Some(0)),
        ("100000000000000000000000e-22", Some(1000)),
        ("0.0000000000000000000000000000000000000001e40", Some(100)),
    ];
    for (number, expected) in cases {
        let mut p = fresh();
        p.update_from_chunk(&format!("[download] {number}% of 1MiB"));
        assert_eq!(p.percent, expected, "{number}");
    }
    for bad in ["NaN", "1e", "e5", "1e2.5", "infinit", "1e5e5", "--1"] {
        let mut p = fresh();
        p.update_from_chunk("[download] 12% of 1MiB");
        p.update_from_chunk(&format!("[download] {bad}% of 1MiB"));
        assert_eq!(p.percent, Some(1200), "{bad}");
    }
}

#[test]
fn post_processing_and_other_lines() {
    let mut p = fresh();
    p.update_from_chunk("[download]  42.0% of 10MiB at 1MiB/s ETA 00:07");
    let before = p.clone();
    p.update_from_chunk("[Merger] Merging formats into \"x.mp4\"");
    assert_eq!(p.phase, ProgressPhase::PostProcessing);
    assert_eq!(p.percent, before.percent);
    assert_eq!(p.speed, before.speed);
    assert_eq!(p.eta, before.eta);
    assert_eq!(p.current_file, before.current_file);
    let before = p.clone();
    p.update_from_chunk("[info] Writing video metadata\n   \n[youtube] abc: Downloading webpage");
    assert_eq!(p.phase, before.phase);
    assert_eq!(p.percent, before.percent);
    assert_eq!(p.speed, before.speed);
    assert_eq!(p.eta, before.eta);
    assert_eq!(p.current_file, before.current_file);
}

#[test]
fn chunks_split_without_trailing_newline() {
    let a = "[download]  10.0% of 5MiB at 1MiB/s\r";
    let b = "[download]  20.0% of 5MiB ETA 00:04\n[Merger] Merging";
    let mut joined = fresh();
    joined.update_from_chunk(&format!("{a}\n{b}"));
    let mut split = fresh();
    split.update_from_chunk(a);
    split.update_from_chunk(b);
    assert_eq!(joined.percent, split.percent);
    assert_eq!(joined.speed, split.speed);
    assert_eq!(joined.eta, split.eta);
    assert_eq!(joined.phase, split.phase);
    assert_eq!(joined.current_file, split.current_file);
}
