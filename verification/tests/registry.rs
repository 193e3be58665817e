use patter::registry::{check_digest, continues_part, needs_digest, range_header, resume_offset, staged_fate, StagedFate};
use patter::registry::{
    all_ids, check_download_size, download_failed_error, download_sources, files_to_fetch,
    find_variant, join_path, mirror_url, part_name, unknown_model_error, EngineKind, FileProbe, ModelFile,
    ModelManager, ModelState, CATALOG_LEN, MIRROR_BASE,
};

fn none() -> FileProbe {
    FileProbe { len: None, part_len: None }
}

fn manager() -> ModelManager {
    ModelManager::new("/data/models".to_string())
}

#[test]
fn truncated_downloads_report_as_partial_not_missing() {
    let mm = manager();
    let size = find_variant("whisper-base").unwrap().files[0].size;
    assert!(mm.state("whisper-base", &vec![none()]) == ModelState::Missing);
    assert_eq!(mm.stray_bytes("whisper-base", &vec![none()]), 0);

    let short = vec![FileProbe { len: Some(1024), part_len: None }];
    assert!(mm.state("whisper-base", &short) == ModelState::Partial);
    assert_eq!(mm.stray_bytes("whisper-base", &short), 1024);

    let full = vec![FileProbe { len: Some(size), part_len: None }];
    assert!(mm.state("whisper-base", &full) == ModelState::Complete);

    // A `.part` alone is Partial too: an interrupted download mid-stage.
    let staged = vec![FileProbe { len: None, part_len: Some(64) }];
    assert!(mm.state("whisper-base", &staged) == ModelState::Partial);
    assert_eq!(mm.stray_bytes("whisper-base", &staged), 64);
}

#[test]
fn a_multi_file_model_is_incomplete_until_every_file_lands() {
    let mm = manager();
    let v = find_variant("parakeet-v2").unwrap();
    let probes: Vec<FileProbe> = v
        .files
        .iter()
        .map(|f| if f.size < 100_000 { FileProbe { len: Some(f.size), part_len: None } } else { none() })
        .collect();
    assert!(mm.state("parakeet-v2", &probes) == ModelState::Partial);
    assert!(!mm.is_downloaded("parakeet-v2", &probes));

    let all: Vec<FileProbe> =
        v.files.iter().map(|f| FileProbe { len: Some(f.size), part_len: None }).collect();
    assert!(mm.state("parakeet-v2", &all) == ModelState::Complete);
    assert!(mm.is_downloaded("parakeet-v2", &all));
    assert_eq!(files_to_fetch(v, &probes), vec![0, 1, 2]);
    assert!(files_to_fetch(v, &all).is_empty());
}

#[test]
fn unknown_ids_are_missing_and_not_downloaded() {
    let mm = manager();
    assert!(find_variant("whisper-huge").is_none());
    assert!(mm.state("whisper-huge", &vec![]) == ModelState::Missing);
    assert!(!mm.is_downloaded("whisper-huge", &vec![]));
    assert_eq!(mm.stray_bytes("whisper-huge", &vec![]), 0);
    assert!(mm.get_engine_kind("whisper-huge").is_none());
    assert!(mm.variant_dir("whisper-huge").is_none());
    assert!(mm.probe_paths("whisper-huge").is_empty());
}

#[test]
fn stray_bytes_count_files_and_parts() {
    let mm = manager();
    let probes = vec![
        FileProbe { len: Some(10), part_len: Some(5) },
        FileProbe { len: None, part_len: Some(7) },
        none(),
        FileProbe { len: Some(1), part_len: None },
    ];
    assert_eq!(mm.stray_bytes("parakeet-v3", &probes), 23);
}

#[test]
fn the_catalog_lists_every_model_once_in_order() {
    let ids = all_ids();
    assert_eq!(ids.len(), CATALOG_LEN);
    assert_eq!(ids[0], "whisper-tiny");
    assert_eq!(ids[11], "parakeet-v3");
    for id in &ids {
        assert_eq!(find_variant(id).unwrap().id, *id);
    }
    let mm = manager();
    assert!(mm.get_engine_kind("diar-embedding") == Some(EngineKind::Diarization));
    assert!(mm.get_engine_kind("parakeet-v2") == Some(EngineKind::Parakeet));
    assert!(mm.get_engine_kind("whisper-large-v3-turbo") == Some(EngineKind::Whisper));
}

#[test]
fn paths_are_built_under_the_models_directory() {
    let mm = manager();
    assert_eq!(
        mm.variant_file_path("whisper-tiny").unwrap(),
        "/data/models/whisper/ggml-tiny.en.bin"
    );
    assert_eq!(mm.variant_dir("parakeet-v3").unwrap(), "/data/models/parakeet-v3");
    let paths = mm.probe_paths("parakeet-v2");
    assert_eq!(paths.len(), 4);
    assert_eq!(paths[3].0, "/data/models/parakeet-v2/tokens.txt");
    assert_eq!(paths[3].1, "/data/models/parakeet-v2/tokens.txt.part");
    assert_eq!(join_path("/a/", "b"), "/a/b");
    assert_eq!(join_path("", "b"), "b");
    assert_eq!(part_name("model.onnx"), "model.onnx.part");
}

#[test]
fn downloaded_ids_skip_diarization_and_incomplete_models() {
    let mm = manager();
    let mut disk: Vec<Vec<FileProbe>> = Vec::new();
    for id in all_ids() {
        let v = find_variant(id).unwrap();
        let complete = id == "whisper-small" || id == "diar-embedding" || id == "parakeet-v3";
        disk.push(
            v.files
                .iter()
                .map(|f| if complete { FileProbe { len: Some(f.size), part_len: None } } else { none() })
                .collect(),
        );
    }
    assert_eq!(mm.downloaded_ids(&disk), vec!["whisper-small", "parakeet-v3"]);
}

#[test]
fn downloads_try_the_primary_host_then_the_mirror() {
    let v = find_variant("parakeet-v2").unwrap();
    let f = v.files[3];
    let urls = download_sources(v, f);
    assert_eq!(
        urls[0],
        "https://huggingface.co/csukuangfj/sherpa-onnx-nemo-parakeet-tdt-0.6b-v2-int8/resolve/main/tokens.txt?download=true"
    );
    assert_eq!(urls[1], format!("{}/parakeet-v2-tokens.txt", MIRROR_BASE));
    assert_eq!(mirror_url("diar-embedding", "x.onnx"), format!("{}/diar-embedding-x.onnx", MIRROR_BASE));
}

#[test]
fn download_errors_say_what_went_wrong() {
    assert!(check_download_size("a.bin", 10, 10).is_ok());
    assert_eq!(check_download_size("a.bin", 9, 10).unwrap_err(), "a.bin is 9 bytes, expected 10");
    assert_eq!(
        download_failed_error("a.bin", Some("HTTP 404")),
        "Failed to download a.bin from all sources: HTTP 404"
    );
    assert_eq!(download_failed_error("a.bin", None), "Failed to download a.bin from all sources: ");
    assert_eq!(unknown_model_error("nope"), "Unknown model: nope");
}

#[test]
fn interrupted_downloads_resume_after_the_staged_bytes() {
    let f = ModelFile { name: "model.bin", size: 100, sha256: None };
    assert_eq!(resume_offset(f, FileProbe { len: None, part_len: Some(40) }), 40);
    assert_eq!(resume_offset(f, FileProbe { len: None, part_len: Some(100) }), 0);
    assert_eq!(resume_offset(f, FileProbe { len: None, part_len: None }), 0);
    assert_eq!(range_header(40).as_deref(), Some("bytes=40-"));
    assert_eq!(range_header(0), None);
    assert!(continues_part(40, 206));
    assert!(!continues_part(40, 200));
    assert!(!continues_part(0, 206));
    assert!(staged_fate(f, 60) == StagedFate::Resume);
    assert!(staged_fate(f, 101) == StagedFate::Discard);
    assert!(staged_fate(f, 100) == StagedFate::Verify);
}

#[test]
fn a_listed_digest_must_match_before_the_file_takes_its_name() {
    let abc = "ba7816bf8f01cfea414140de5dae2223b00361a396177a9cb410ff61f20015ad";
    let f = ModelFile { name: "model.bin", size: 3, sha256: Some(abc) };
    assert!(needs_digest(f));
    let got = patter::digest::sha256_hex(b"abc");
    assert!(check_digest("model.bin", f, Some(&got)).is_ok());
    let bad = patter::digest::sha256_hex(b"abd");
    assert_eq!(check_digest("model.bin", f, Some(&bad)), Err("model.bin failed its SHA-256 check".to_string()));
    assert!(check_digest("model.bin", f, None).is_err());
    let unlisted = ModelFile { name: "m", size: 3, sha256: None };
    assert!(!needs_digest(unlisted));
    assert!(check_digest("m", unlisted, None).is_ok());
}
