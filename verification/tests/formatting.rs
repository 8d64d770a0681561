use kopuz_components::downloads::{count_with_status, download_title, status_text_class, DownloadStatus};
use kopuz_components::timefmt::{fmt_dur, fmt_eta, fmt_time, format_queue_duration};

#[test]
fn fmt_time_pads_seconds() {
    assert_eq!(fmt_time(0), "0:00");
    assert_eq!(fmt_time(65), "1:05");
    assert_eq!(fmt_time(600), "10:00");
    assert_eq!(fmt_time(3600), "60:00");
}

#[test]
fn fmt_time_unknown_length() {
    assert_eq!(fmt_time(u64::MAX), "--:--");
    assert_eq!(fmt_time(u64::MAX - 1), "307445734561825860:14");
}

#[test]
fn fmt_eta_minutes_from_sixty() {
    assert_eq!(fmt_eta(0), "0s");
    assert_eq!(fmt_eta(59), "59s");
    assert_eq!(fmt_eta(60), "1m 0s");
    assert_eq!(fmt_eta(125), "2m 5s");
}

#[test]
fn fmt_dur_minutes_and_seconds() {
    assert_eq!(fmt_dur(605), "10:05");
    assert_eq!(fmt_dur(9), "0:09");
}

#[test]
fn queue_duration_hours_only_when_needed() {
    assert_eq!(format_queue_duration(59), "0:59");
    assert_eq!(format_queue_duration(3599), "59:59");
    assert_eq!(format_queue_duration(3600), "1:00:00");
    assert_eq!(format_queue_duration(3725), "1:02:05");
    assert_eq!(format_queue_duration(36000 + 61), "10:01:01");
}

#[test]
fn download_panel_heading() {
    assert_eq!(download_title(true, 2, 5), "Downloading 3 / 5");
    assert_eq!(download_title(false, 4, 4), "Done — 4 downloaded");
}

#[test]
fn download_status_counts_and_classes() {
    let items = [
        DownloadStatus::Done,
        DownloadStatus::Failed,
        DownloadStatus::Queued,
        DownloadStatus::Failed,
        DownloadStatus::Downloading,
    ];
    assert_eq!(count_with_status(&items, DownloadStatus::Failed), 2);
    assert_eq!(count_with_status(&items, DownloadStatus::Queued), 1);
    assert_eq!(count_with_status(&[], DownloadStatus::Done), 0);
    assert_eq!(status_text_class(DownloadStatus::Done), "text-slate-400");
    assert_eq!(status_text_class(DownloadStatus::Failed), "text-red-400/70");
    assert_eq!(status_text_class(DownloadStatus::Queued), "text-slate-500");
}
