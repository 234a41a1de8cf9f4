use hyprnote::fs_sync::{
    audio_file_names, candidate_filename, check_samples_nonempty, checked_channel_count,
    entity_dir_visit, get_parent_folder_path, is_uuid, join_path, orphan_candidate_id,
    rename_recovery, sanitize_filename, session_probe, slashed_relative, to_relative_path, AudioCheckError,
    CleanupTarget, EntityVisit, FilenameError, FsSyncCore, RenameRecovery, SessionProbe,
    TARGET_SAMPLE_RATE_HZ,
};

const SAMPLE_UUID_A: &str = "550e8400-e29b-41d4-a716-446655440000";
const SAMPLE_UUID_B: &str = "6ba7b810-9dad-11d1-80b4-00c04fd430c8";

#[test]
fn sanitize_filename_rejects_empty() {
    assert!(sanitize_filename("").is_err());
}

#[test]
fn sanitize_filename_strips_directories() {
    let result = sanitize_filename("nested/path/file.txt").unwrap();
    assert_eq!(result, "file.txt");
}

#[test]
fn sanitize_filename_error_kinds() {
    assert!(sanitize_filename("") == Err(FilenameError::InvalidFilename));
    assert!(sanitize_filename("..") == Err(FilenameError::InvalidFilename));
    assert!(sanitize_filename("a\\b") == Err(FilenameError::InvalidFilenameCharacters));
    assert!(sanitize_filename("a\0b") == Err(FilenameError::InvalidFilenameCharacters));
    assert!(sanitize_filename("plain.md") == Ok("plain.md".to_string()));
}

#[test]
fn test_is_uuid() {
    assert!(is_uuid(SAMPLE_UUID_A));
    assert!(is_uuid(SAMPLE_UUID_B));
    assert!(is_uuid("550E8400-E29B-41D4-A716-446655440000"));
    assert!(!is_uuid("_default"));
    assert!(!is_uuid("work"));
    assert!(!is_uuid("not-a-uuid"));
}

#[test]
fn parent_folder_paths() {
    assert_eq!(get_parent_folder_path("work/projects/alpha"), Some("work/projects".to_string()));
    assert_eq!(get_parent_folder_path("work"), None);
    assert_eq!(get_parent_folder_path("/top"), Some(String::new()));
}

#[test]
fn join_path_follows_unix_rules() {
    assert_eq!(join_path("base", "sessions"), "base/sessions");
    assert_eq!(join_path("base/", "sessions"), "base/sessions");
    assert_eq!(join_path("", "sessions"), "sessions");
    assert_eq!(join_path("base", "/abs"), "/abs");
}

#[test]
fn core_layout_under_base() {
    let core = FsSyncCore::new("/vault".to_string());
    assert_eq!(core.base_dir(), "/vault");
    assert_eq!(core.sessions_dir(), "/vault/sessions");
    let target = CleanupTarget::Files { subdir: "notes".to_string(), extension: "json".to_string() };
    assert_eq!(core.cleanup_dir(&target), "/vault/notes");
    assert_eq!(FsSyncCore::attachments_dir("/vault/sessions/x"), "/vault/sessions/x/attachments");
}

#[test]
fn relative_paths_use_forward_slashes() {
    assert_eq!(to_relative_path("/vault/sessions/a/b.md", "/vault"), "sessions/a/b.md");
    assert_eq!(to_relative_path("/other/file", "/vault"), "");
}

#[test]
fn candidate_names_count_up() {
    assert_eq!(candidate_filename("file.txt", 0), "file.txt");
    assert_eq!(candidate_filename("file.txt", 1), "file 1.txt");
    assert_eq!(candidate_filename("file.txt", 12), "file 12.txt");
    assert_eq!(candidate_filename("README", 2), "README 2");
    assert_eq!(candidate_filename("archive.tar.gz", 1), "archive.tar 1.gz");
}

#[test]
fn candidate_names_never_repeat() {
    let names: Vec<String> = (1..50).map(|i| candidate_filename("notes.md", i)).collect();
    for i in 0..names.len() {
        for j in (i + 1)..names.len() {
            assert_ne!(names[i], names[j]);
        }
    }
}

#[test]
fn entity_and_session_probes() {
    assert!(entity_dir_visit(true, true) == EntityVisit::Entity);
    assert!(entity_dir_visit(false, false) == EntityVisit::Descend);
    assert!(entity_dir_visit(true, false) == EntityVisit::Skip);
    assert!(entity_dir_visit(false, true) == EntityVisit::Skip);
    assert!(session_probe(true, true) == SessionProbe::Found);
    assert!(session_probe(false, true) == SessionProbe::LookInside);
    assert!(session_probe(false, false) == SessionProbe::LookInside);
    assert!(session_probe(true, false) == SessionProbe::Ignore);
}

#[test]
fn orphan_candidates_need_uuid_stem_and_extension() {
    let name = format!("{SAMPLE_UUID_A}.json");
    assert_eq!(orphan_candidate_id(&name, "json"), Some(SAMPLE_UUID_A.to_string()));
    assert_eq!(orphan_candidate_id(&name, "md"), None);
    assert_eq!(orphan_candidate_id("not-uuid.json", "json"), None);
    assert_eq!(orphan_candidate_id(SAMPLE_UUID_B, "json"), None);
}

#[test]
fn audio_names_and_import_checks() {
    assert_eq!(audio_file_names(), vec!["audio.mp3", "audio.wav", "audio.ogg"]);
    assert_eq!(TARGET_SAMPLE_RATE_HZ, 16_000);
    assert!(checked_channel_count(0) == Ok(1));
    assert!(checked_channel_count(1) == Ok(1));
    assert!(checked_channel_count(2) == Ok(2));
    assert!(checked_channel_count(255) == Ok(255));
    assert!(checked_channel_count(300) == Err(AudioCheckError::UnsupportedChannelCount { count: 300 }));
    assert!(check_samples_nonempty(0) == Err(AudioCheckError::EmptyInput));
    assert!(check_samples_nonempty(5) == Ok(()));
}

#[test]
fn rename_recovery_choices() {
    assert!(rename_recovery(Some(18), true, false) == RenameRecovery::CopyThenRemove);
    assert!(rename_recovery(None, true, false) == RenameRecovery::RemoveTargetAndRetry);
    assert!(rename_recovery(Some(17), true, true) == RenameRecovery::Fail);
    assert!(rename_recovery(None, false, false) == RenameRecovery::Fail);
}

#[test]
fn separators_become_slashes() {
    assert_eq!(slashed_relative(Some("a\\b\\c.md".to_string()), '\\'), "a/b/c.md");
    assert_eq!(slashed_relative(Some("a/b".to_string()), '/'), "a/b");
    assert_eq!(slashed_relative(None, '/'), "");
}
