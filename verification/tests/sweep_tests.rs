use pdf2html::CLEANUP_INTERVAL_SECS;
use pdf2html::FILE_MAX_AGE_SECS;
use pdf2html::sweep::EntryMeta;
use pdf2html::sweep::SweepState;
use pdf2html::sweep::expired;
use pdf2html::sweep::plan_artifact_sweep;
use pdf2html::sweep::plan_upload_sweep;
use pdf2html::sweep::sweeper_next;

fn entry(name: &str, is_dir: bool, created: Option<u64>, modified: Option<u64>) -> EntryMeta {
    EntryMeta { name: name.to_string(), is_dir, created, modified }
}

#[test]
fn configured_intervals() {
    assert_eq!(CLEANUP_INTERVAL_SECS, 600);
    assert_eq!(FILE_MAX_AGE_SECS, 3 * 60 * 60);
}

#[test]
fn sweeper_alternates_forever() {
    assert_eq!(sweeper_next(SweepState::Sleeping), SweepState::Sweeping);
    assert_eq!(sweeper_next(SweepState::Sweeping), SweepState::Sleeping);
}

#[test]
fn age_strictly_over_threshold_expires() {
    assert!(expired(1000, 100, 500));
    assert!(!expired(1000, 600, 500));
    assert!(!expired(1000, 500, 500));
    assert!(!expired(100, 200, 50));
}

#[test]
fn old_directories_are_swept_young_ones_kept() {
    let now: u64 = 10_000;
    let max: u64 = 100;
    let entries = vec![
        entry("old-dir", true, Some(now - 101), None),
        entry("young-dir", true, Some(now - 99), None),
        entry("boundary-dir", true, Some(now - 100), None),
        entry("old-file", false, Some(now - 500), Some(now - 500)),
    ];
    let plan = plan_artifact_sweep(&entries, now, max);
    assert_eq!(plan, vec!["old-dir".to_string()]);
}

#[test]
fn creation_time_falls_back_to_modification_time() {
    let now: u64 = 10_000;
    let max: u64 = 100;
    let entries = vec![
        entry("no-created-old", true, None, Some(now - 200)),
        entry("no-created-young", true, None, Some(now - 50)),
        entry("no-stamp", true, None, None),
        entry("future", true, Some(now + 10), None),
    ];
    let plan = plan_artifact_sweep(&entries, now, max);
    assert_eq!(plan, vec!["no-created-old".to_string()]);
}

#[test]
fn stale_staged_files_are_swept() {
    let now: u64 = 10_000;
    let max: u64 = 100;
    let entries = vec![
        entry("stale.pdf", false, None, Some(now - 200)),
        entry("fresh.pdf", false, None, Some(now - 10)),
        entry("a-directory", true, None, Some(now - 200)),
        entry("no-stamp.pdf", false, None, None),
    ];
    let plan = plan_upload_sweep(&entries, now, max);
    assert_eq!(plan, vec!["stale.pdf".to_string()]);
}
