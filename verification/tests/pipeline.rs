//! End-to-end tests of the search pipeline over real in-memory archives.

use zip_pw_finder::probe::{ArchiveProbe, SearchError, Verdict};
use zip_pw_finder::search::{check_batch, run_search};
use zip_pw_finder::slot::ResultSlot;

/// Builds an in-memory archive whose first entry is encrypted with `password`.
fn archive_bytes(password: &str, content: &[u8]) -> Vec<u8> {
    let mut writer = zip::write::ZipWriter::new(std::io::Cursor::new(Vec::new()));
    let options = zip::write::SimpleFileOptions::default()
        .compression_method(zip::CompressionMethod::Stored)
        .with_aes_encryption(zip::AesMode::Aes256, password);
    writer.start_file("entry.txt", options).unwrap();
    std::io::Write::write_all(&mut writer, content).unwrap();
    writer.finish().unwrap().into_inner()
}

fn dict(words: &[&str]) -> Vec<String> {
    words.iter().map(|w| w.to_string()).collect()
}

#[test]
fn scenario_batch_size_one() {
    let bytes = archive_bytes("secret", b"valid content");
    let mut probe = ArchiveProbe::open(&bytes).unwrap();
    let lines = dict(&["aaa", "bbb", "secret", "zzz"]);
    let found = run_search(&mut probe, &lines, 1).unwrap();
    assert_eq!(found, Some("secret".to_string()));
}

#[test]
fn scenario_batch_size_four() {
    let bytes = archive_bytes("secret", b"valid content");
    let mut probe = ArchiveProbe::open(&bytes).unwrap();
    let lines = dict(&["aaa", "bbb", "secret", "zzz"]);
    let found = run_search(&mut probe, &lines, 4).unwrap();
    assert_eq!(found, Some("secret".to_string()));
}

#[test]
fn found_at_any_position() {
    let bytes = archive_bytes("secret", b"payload");
    for pos in 0..4 {
        let mut words = vec!["alpha", "beta", "gamma"];
        words.insert(pos.min(3), "secret");
        let lines = dict(&words);
        for batch_size in [1, 2, 7] {
            let mut probe = ArchiveProbe::open(&bytes).unwrap();
            let found = run_search(&mut probe, &lines, batch_size).unwrap();
            assert_eq!(found, Some("secret".to_string()));
        }
    }
}

#[test]
fn no_password_found() {
    let bytes = archive_bytes("secret", b"payload");
    let mut probe = ArchiveProbe::open(&bytes).unwrap();
    let lines = dict(&["aaa", "bbb", "ccc", "ddd", "eee"]);
    let found = run_search(&mut probe, &lines, 2).unwrap();
    assert_eq!(found, None);
}

#[test]
fn empty_dictionary_finds_nothing() {
    let bytes = archive_bytes("secret", b"payload");
    let mut probe = ArchiveProbe::open(&bytes).unwrap();
    let lines: Vec<String> = Vec::new();
    let found = run_search(&mut probe, &lines, 3).unwrap();
    assert_eq!(found, None);
}

#[test]
fn two_verifying_candidates_deliver_exactly_one() {
    let bytes = archive_bytes("secret", b"payload");
    let mut probe = ArchiveProbe::open(&bytes).unwrap();
    // The verifying password occurs twice; exactly one delivery results.
    let lines = dict(&["aaa", "secret", "bbb", "secret", "ccc"]);
    let found = run_search(&mut probe, &lines, 2).unwrap();
    assert_eq!(found, Some("secret".to_string()));
}

#[test]
fn batch_size_does_not_change_outcome() {
    let bytes = archive_bytes("hunter2", b"some payload");
    // Dictionary length 5 is not divisible by 2, 3 or 7, and the verifying
    // password stands last: a dropped trailing partial batch would lose it.
    let lines = dict(&["one", "two", "three", "four", "hunter2"]);
    for batch_size in [1, 2, 3, 7, 100] {
        let mut probe = ArchiveProbe::open(&bytes).unwrap();
        let found = run_search(&mut probe, &lines, batch_size).unwrap();
        assert_eq!(found, Some("hunter2".to_string()), "batch size {batch_size}");
    }
    let misses = dict(&["one", "two", "three", "four", "five"]);
    for batch_size in [1, 2, 3, 7, 100] {
        let mut probe = ArchiveProbe::open(&bytes).unwrap();
        let found = run_search(&mut probe, &misses, batch_size).unwrap();
        assert_eq!(found, None, "batch size {batch_size}");
    }
}

#[test]
fn unreadable_archive_is_rejected() {
    let garbage: Vec<u8> = vec![1, 2, 3, 4, 5, 6, 7, 8];
    match ArchiveProbe::open(&garbage) {
        Err(SearchError::ArchiveUnreadable) => {}
        other => panic!("expected ArchiveUnreadable, got {:?}", other.is_ok()),
    }
}

#[test]
fn probe_verdicts() {
    let bytes = archive_bytes("secret", b"payload");
    let mut probe = ArchiveProbe::open(&bytes).unwrap();
    assert_eq!(probe.probe("wrong"), Verdict::WrongPassword);
    assert_eq!(probe.probe("secret"), Verdict::Verified);
    // The probe is reusable after both outcomes.
    assert_eq!(probe.probe("also-wrong"), Verdict::WrongPassword);
    assert_eq!(probe.probe("secret"), Verdict::Verified);
}

/// Distributes the batches round-robin over `workers` probes, each worker
/// publishing its finds into the shared first-result slot, and returns the
/// delivered password. Mirrors how the worker pool divides the work: any
/// worker may receive any batch.
fn pool_outcome(bytes: &[u8], lines: &[&str], batch_size: usize, workers: usize) -> Option<String> {
    let lines = dict(lines);
    let batches = zip_pw_finder::batch::make_batches(&lines, batch_size);
    let mut slot = ResultSlot::new();
    for worker in 0..workers {
        let mut probe = ArchiveProbe::open(&bytes.to_vec()).unwrap();
        for batch in batches.iter().skip(worker).step_by(workers) {
            if let Some(found) = check_batch(&mut probe, batch).unwrap() {
                slot.publish(found);
            }
        }
    }
    slot.take()
}

#[test]
fn worker_count_does_not_change_outcome() {
    let bytes = archive_bytes("secret", b"payload");
    let hit = ["aaa", "bbb", "secret", "zzz"];
    let miss = ["aaa", "bbb", "ccc", "zzz"];
    for workers in [1, 2, 4] {
        for batch_size in [1, 4] {
            assert_eq!(
                pool_outcome(&bytes, &hit, batch_size, workers),
                Some("secret".to_string()),
                "workers {workers}, batch size {batch_size}"
            );
            assert_eq!(
                pool_outcome(&bytes, &miss, batch_size, workers),
                None,
                "workers {workers}, batch size {batch_size}"
            );
        }
    }
}

#[test]
fn check_batch_finds_first_verified() {
    let bytes = archive_bytes("secret", b"payload");
    let mut probe = ArchiveProbe::open(&bytes).unwrap();
    let batch = dict(&["nope", "secret", "later"]);
    assert_eq!(check_batch(&mut probe, &batch), Ok(Some("secret".to_string())));
    let empty_handed = dict(&["nope", "nada"]);
    assert_eq!(check_batch(&mut probe, &empty_handed), Ok(None));
}
