use carbon::instance::{
    package_folder_action, persisted_elsewhere, InstanceWriteError, PackageFolderAction,
};
use carbon::vanilla::{total_download_mib, version_index, InstallStages};
use std::path::PathBuf;

#[test]
fn package_folder_decisions() {
    assert!(matches!(package_folder_action(true, false, false), Ok(PackageFolderAction::CopyFromPersisted)));
    assert!(matches!(package_folder_action(false, false, false), Ok(PackageFolderAction::Create)));
    assert!(matches!(package_folder_action(true, true, false), Err(InstanceWriteError::MinecraftPackageIsAFile())));
    assert!(matches!(package_folder_action(false, true, true), Err(InstanceWriteError::MinecraftPackageAlreadyExist())));
    assert!(matches!(package_folder_action(true, false, true), Ok(PackageFolderAction::LeaveAsIs)));
}

#[test]
fn download_total_in_mebibytes() {
    assert_eq!(total_download_mib(&vec![]), 0);
    assert_eq!(total_download_mib(&vec![Some(1024 * 1024 - 1)]), 0);
    assert_eq!(total_download_mib(&vec![Some(1024 * 1024), None, Some(3 * 1024 * 1024 + 5)]), 4);
    assert_eq!(total_download_mib(&vec![Some(u64::MAX)]), u64::MAX / (1024 * 1024));
    assert_ne!(InstallStages::DownloadingAssets, InstallStages::ExtractingNatives);
}

#[test]
fn saved_elsewhere_unless_inside_the_package_folder() {
    let folder = PathBuf::from("/games/new/minecraft");
    assert!(!persisted_elsewhere(&None, &folder));
    assert!(persisted_elsewhere(&Some(PathBuf::from("/games/old")), &folder));
    assert!(!persisted_elsewhere(&Some(PathBuf::from("/games/new/minecraft")), &folder));
    assert!(!persisted_elsewhere(&Some(PathBuf::from("/games/new/minecraft/saves")), &folder));
    // A path is a prefix by whole components only.
    assert!(persisted_elsewhere(&Some(PathBuf::from("/games/new/minecraft2")), &folder));
    assert!(persisted_elsewhere(&Some(PathBuf::from("/games/new")), &folder));
}

#[test]
fn version_lookup_finds_the_first_match() {
    let ids: Vec<String> = ["1.19.2", "1.19.3", "1.19.2"].iter().map(|s| s.to_string()).collect();
    assert_eq!(version_index(&ids, &"1.19.2".to_string()), Some(0));
    assert_eq!(version_index(&ids, &"1.19.3".to_string()), Some(1));
    assert_eq!(version_index(&ids, &"1.19".to_string()), None);
    assert_eq!(version_index(&vec![], &"1.19.2".to_string()), None);
}
