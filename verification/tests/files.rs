use group29_backup::backup::{
    backup_log_entry, backup_log_text, backup_plan, check_backup_paths, copy_action, has_extension,
    select_files_by_extension, total_size, BackupError, BackupPlan, CopyAction,
};
use group29_backup::project_dir::{project_directory_len, sound_base_directory_len, ProjectDirError};
use group29_backup::text::decimal_string;

fn parts(v: &[&str]) -> Vec<String> {
    v.iter().map(|s| s.to_string()).collect()
}

#[test]
fn project_directory_above_the_executable() {
    let p = parts(&["home", "u", "group29_backup", "target", "release", "backup"]);
    assert_eq!(project_directory_len(&p), Ok(3));
    assert_eq!(sound_base_directory_len(&p), Ok(3));
}

#[test]
fn project_directory_is_the_nearest_one() {
    let p = parts(&["group29_backup", "x", "group29_backup", "bin", "backup"]);
    assert_eq!(project_directory_len(&p), Ok(3));
}

#[test]
fn project_directory_may_hold_the_executable_directly() {
    let p = parts(&["srv", "group29_backup", "backup"]);
    assert_eq!(project_directory_len(&p), Ok(2));
}

#[test]
fn project_directory_from_a_macos_bundle() {
    let p = parts(&["Applications", "group29_backup", "Backup.app", "Contents", "MacOS", "backup"]);
    assert_eq!(project_directory_len(&p), Ok(2));
    // the sounds lookup does not skip the bundle but finds the same folder
    assert_eq!(sound_base_directory_len(&p), Ok(2));
    // a bundle directory named like the project is skipped by the bundle step
    let p = parts(&["group29_backup", "Contents", "MacOS", "backup"]);
    assert_eq!(project_directory_len(&p), Ok(1));
    let p = parts(&["a", "group29_backup", "MacOS", "backup"]);
    assert_eq!(project_directory_len(&p), Err(ProjectDirError::NotFound));
    assert_eq!(sound_base_directory_len(&p), Ok(2));
}

#[test]
fn project_directory_errors() {
    assert_eq!(project_directory_len(&parts(&[])), Err(ProjectDirError::NoParent));
    assert_eq!(sound_base_directory_len(&parts(&[])), Err(ProjectDirError::NoParent));
    assert_eq!(project_directory_len(&parts(&["MacOS", "backup"])), Err(ProjectDirError::NoBundleRoot));
    assert_eq!(project_directory_len(&parts(&["usr", "bin", "backup"])), Err(ProjectDirError::NotFound));
    assert_eq!(project_directory_len(&parts(&["backup"])), Err(ProjectDirError::NotFound));
}

#[test]
fn decimal_rendering() {
    assert_eq!(decimal_string(0), "0");
    assert_eq!(decimal_string(7), "7");
    assert_eq!(decimal_string(10), "10");
    assert_eq!(decimal_string(1234567890), "1234567890");
    assert_eq!(decimal_string(u64::MAX), u64::MAX.to_string());
}

#[test]
fn extensions_follow_path_rules() {
    assert!(has_extension("notes.txt", "txt"));
    assert!(!has_extension("notes.txt", "toml"));
    assert!(!has_extension("notes.txt", "tx"));
    assert!(has_extension("archive.tar.gz", "gz"));
    assert!(!has_extension("archive.tar.gz", "tar.gz"));
    assert!(!has_extension(".txt", "txt"));
    assert!(!has_extension("txt", "txt"));
    assert!(has_extension("a.", ""));
    assert!(!has_extension("a", ""));
    assert!(!has_extension("..", ""));
    assert!(has_extension("..txt", "txt"));
    assert!(has_extension("città.tòml", "tòml"));
}

#[test]
fn extension_agrees_with_std_path() {
    let names = ["a.txt", ".txt", "..", "...", "a.", "a..b", "x", ".a.b", "é.ü", "a.b.c"];
    let exts = ["txt", "", "b", "c", "ü", ".b"];
    for n in names {
        for e in exts {
            let std_says = std::path::Path::new(n).extension().map(|x| x == e).unwrap_or(false);
            assert_eq!(has_extension(n, e), std_says, "{} {}", n, e);
        }
    }
}

#[test]
fn file_type_selection_keeps_order() {
    let names = parts(&["b.txt", "a.toml", "c.txt", "d", ".txt", "e.TXT", "f.txt"]);
    assert_eq!(select_files_by_extension(&names, "txt"), vec![0, 2, 6]);
    assert_eq!(select_files_by_extension(&names, "toml"), vec![1]);
    assert_eq!(select_files_by_extension(&names, "md"), Vec::<usize>::new());
}

#[test]
fn totals() {
    assert_eq!(total_size(&vec![]), 0);
    assert_eq!(total_size(&vec![10, 20, 30]), 60);
    assert_eq!(total_size(&vec![u64::MAX - 1, 1]), u64::MAX);
}

#[test]
fn path_checks() {
    assert_eq!(check_backup_paths(false, false, true, true), Err(BackupError::SourceMissing));
    assert_eq!(check_backup_paths(true, false, true, true), Err(BackupError::InvalidPaths));
    assert_eq!(check_backup_paths(true, true, false, false), Err(BackupError::InvalidPaths));
    assert_eq!(check_backup_paths(true, true, true, false), Err(BackupError::InvalidPaths));
    assert_eq!(check_backup_paths(true, true, true, true), Ok(()));
    assert!(BackupError::SourceMissing.plays_error_sound());
    assert!(BackupError::InvalidPaths.plays_error_sound());
    assert!(!BackupError::MissingExtension.plays_error_sound());
    assert!(!BackupError::InvalidBackupType.plays_error_sound());
}

#[test]
fn backup_requests() {
    assert!(matches!(backup_plan("FullFolder", None), Ok(BackupPlan::FullFolder)));
    assert!(matches!(backup_plan("FullFolder", Some("txt")), Ok(BackupPlan::FullFolder)));
    match backup_plan("FileType", Some("toml")) {
        Ok(BackupPlan::FileType(e)) => assert_eq!(e, "toml"),
        other => panic!("unexpected {:?}", other),
    }
    assert!(matches!(backup_plan("FileType", None), Err(BackupError::MissingExtension)));
    assert!(matches!(backup_plan("fullfolder", None), Err(BackupError::InvalidBackupType)));
    assert!(matches!(backup_plan("", Some("txt")), Err(BackupError::InvalidBackupType)));
}

#[test]
fn backup_error_messages() {
    assert_eq!(BackupError::SourceMissing.message(), "Percorso sorgente non esiste");
    assert_eq!(BackupError::InvalidPaths.message(), "Percorso sorgente o destinazione non valido");
    assert_eq!(BackupError::MissingExtension.message(), "Estensione file non specificata per FileType");
    assert_eq!(BackupError::InvalidBackupType.message(), "Tipo di backup non valido");
}

#[test]
fn copying_decisions() {
    assert_eq!(copy_action(true, true), CopyAction::CopyDirectory);
    assert_eq!(copy_action(true, false), CopyAction::CopyDirectory);
    assert_eq!(copy_action(false, true), CopyAction::SkipExisting);
    assert_eq!(copy_action(false, false), CopyAction::CopyFile);
}

#[test]
fn backup_log_lines() {
    let d = std::time::Duration::new(3, 500_000_000);
    let expected = format!(
        "Backup completato:\nDimensione totale dei file: {} bytes\nTempo impiegato per il backup: {:?}\n",
        12345u64, d
    );
    assert_eq!(backup_log_entry(12345, 3, 500_000_000), expected);
    assert_eq!(backup_log_entry(0, 0, 1_000), format!(
        "Backup completato:\nDimensione totale dei file: 0 bytes\nTempo impiegato per il backup: {:?}\n",
        std::time::Duration::from_micros(1)
    ));
    assert_eq!(
        backup_log_text(7, "2s"),
        "Backup completato:\nDimensione totale dei file: 7 bytes\nTempo impiegato per il backup: 2s\n"
    );
}
