use save_manager::paths::{check_archive, check_deploy_game, check_save_folder, DeployFailure};
use save_manager::game::{DeployOptions, Game, ItrOptions, SaveSlots};
use save_manager::paths::{backup_path, get_game_save_dir, get_my_games_dir, get_version_cache_dir, get_version_path, slot_path, PathParts};

fn p(parts: &[&str]) -> PathParts {
    PathParts::from_parts(parts.iter().map(|s| s.to_string()).collect())
}

#[test]
fn game_save_dir_of_into_the_radius() {
    let docs = p(&["C:", "Users", "me", "Documents"]);
    let games = get_my_games_dir(docs);
    assert_eq!(games.parts, vec!["C:", "Users", "me", "Documents", "My Games"]);
    let dir = get_game_save_dir(Game::IntoTheRadius2, games);
    assert_eq!(dir.parts, vec!["C:", "Users", "me", "Documents", "My Games", "IntoTheRadius2", "Profile 1"]);
}

#[test]
fn cache_dir_and_version_path() {
    let cache = get_version_cache_dir(p(&["/", "opt", "app", "save-manager"]));
    assert_eq!(cache.parts, vec!["/", "opt", "app", "downloads"]);
    let file = get_version_path(cache, "My Save", 12);
    assert_eq!(file.parts, vec!["/", "opt", "app", "downloads", "My Save", "12.zip"]);
    let empty = get_version_cache_dir(PathParts::new());
    assert_eq!(empty.parts, vec!["downloads"]);
}

#[test]
fn slot_and_backup_paths() {
    let coop = DeployOptions::IntoTheRadius2(ItrOptions { coop: true, slot: SaveSlots::AutoSave1 });
    let path = slot_path(&coop, p(&["base"]));
    assert_eq!(path.parts, vec!["base", "Coop", "Autosave 1.sav"]);
    let single = DeployOptions::IntoTheRadius2(ItrOptions { coop: false, slot: SaveSlots::Slot2 });
    let path = slot_path(&single, p(&["base"]));
    assert_eq!(path.parts, vec!["base", "Single", "Save 2.dat.sav"]);
    let backup = backup_path(path);
    assert_eq!(backup.parts, vec!["base", "Single", "Save 2.dat.bak"]);
}

#[test]
fn with_extension_matches_std() {
    for name in ["a.txt", "a", ".hidden", "a.", "archive.tar.gz", "..", ".a.b"] {
        let ours = p(&["dir", name]).with_extension("bak");
        let theirs = std::path::Path::new("dir").join(name).with_extension("bak");
        let expected: Vec<String> = theirs.iter().map(|c| c.to_string_lossy().into_owned()).collect();
        assert_eq!(ours.parts, expected, "{}", name);
    }
    assert_eq!(p(&["x.y"]).with_extension("").parts, vec!["x"]);
    assert_eq!(PathParts::new().with_extension("bak").parts, Vec::<String>::new());
}

#[test]
fn push_and_pop() {
    let mut a = PathParts::new();
    a.push("x");
    a.push("y");
    assert!(a.pop());
    assert_eq!(a.parts, vec!["x"]);
    assert!(a.pop());
    assert!(!a.pop());
}

#[test]
fn deploy_checks() {
    let itr = DeployOptions::IntoTheRadius2(ItrOptions::default());
    assert_eq!(check_deploy_game(&itr, Game::IntoTheRadius2), Ok(()));
    assert_eq!(check_deploy_game(&itr, Game::Satisfactory), Err(DeployFailure::WrongGame));
    assert_eq!(check_archive(true, false), Ok(()));
    assert_eq!(check_archive(false, true), Ok(()));
    assert_eq!(check_archive(false, false), Err(DeployFailure::DownloadFailed));
    assert_eq!(check_save_folder(false), Err(DeployFailure::NoSaveFolder));
    assert_eq!(check_save_folder(true), Ok(()));
}
