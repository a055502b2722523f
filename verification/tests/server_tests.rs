use save_manager::access::{UserAccess, UserPreview, UserSaveAccess};
use save_manager::game::Game;
use save_manager::server::{
    authorize_access_change, check_can_create_version, check_can_delete_save, check_can_delete_version,
    check_can_view, check_permissions, check_save_owner, check_target_not_owner, check_user_saves_request,
    download_file_name, get_user_save_access, get_username, is_save_name_valid, is_version_name_valid,
    new_save, require_user, save_folder, version_file, ApiError, VersionForm,
};

#[test]
fn error_statuses_and_messages() {
    assert_eq!(ApiError::Unauthenticated.status(), 401);
    assert_eq!(ApiError::Unauthenticated.message(), "You are not authenticated");
    let e = ApiError::NotYourSaves { you: 2, them: -7 };
    assert_eq!(e.status(), 401);
    assert_eq!(e.message(), "You are not authorized to view this user's saves (You: 2| Them: -7)");
    assert_eq!(ApiError::OwnerAccessFixed.status(), 400);
    assert_eq!(ApiError::OwnerAccessFixed.message(), "Cannot modify access for the owner of the save");
    assert_eq!(ApiError::MissingFields.message(), "Missing required fields");
    assert_eq!(ApiError::MissingFileName.status(), 400);
    assert_eq!(ApiError::InvalidLabel.message(), "Invalid version label");
    assert_eq!(ApiError::UnknownUser.status(), 500);
    assert_eq!(ApiError::UnknownUser.message(), "User does not exist.");
    assert_eq!(ApiError::Internal.message(), "Internal server error");
    assert_eq!(ApiError::CannotViewSave.message(), "You do not have permission to view this save");
    assert_eq!(ApiError::CannotDeleteSave.message(), "You do not have permission to delete this save");
    assert_eq!(ApiError::CannotModifySave.message(), "You do not have permission to modify this save");
    assert_eq!(ApiError::CannotCreateVersion.message(), "You do not have permission to create a version for this save");
    assert_eq!(ApiError::CannotDeleteVersion.message(), "You do not have permission to delete this version");
    assert_eq!(ApiError::NoPermission.message(), "You do not have permission to view categories");
}

#[test]
fn request_checks() {
    assert_eq!(require_user(Some(3)), Ok(3));
    assert_eq!(require_user(None), Err(ApiError::Unauthenticated));
    assert_eq!(check_user_saves_request(2, 2), Ok(()));
    assert_eq!(check_user_saves_request(2, 5), Err(ApiError::NotYourSaves { you: 2, them: 5 }));
    assert_eq!(check_can_view(Some(UserAccess::View)), Ok(()));
    assert_eq!(check_can_view(None), Err(ApiError::CannotViewSave));
    assert_eq!(check_can_delete_save(Some(UserAccess::Owner)), Ok(()));
    assert_eq!(check_can_delete_save(Some(UserAccess::Edit)), Err(ApiError::CannotDeleteSave));
    assert_eq!(check_can_create_version(Some(UserAccess::Edit)), Ok(()));
    assert_eq!(check_can_create_version(Some(UserAccess::View)), Err(ApiError::CannotCreateVersion));
    assert_eq!(check_can_delete_version(None), Err(ApiError::CannotDeleteVersion));
    assert_eq!(check_can_delete_version(Some(UserAccess::Owner)), Ok(()));
    assert_eq!(check_save_owner(1, 2), Err(ApiError::CannotModifySave));
    assert_eq!(check_target_not_owner(2, 2), Err(ApiError::OwnerAccessFixed));
}

#[test]
fn access_change_decision() {
    assert_eq!(authorize_access_change(None, 2, Some(3)), Err(ApiError::Unauthenticated));
    assert_eq!(authorize_access_change(Some(4), 2, Some(3)), Err(ApiError::CannotModifySave));
    assert_eq!(authorize_access_change(Some(2), 2, None), Err(ApiError::UnknownUser));
    assert_eq!(authorize_access_change(Some(2), 2, Some(2)), Err(ApiError::OwnerAccessFixed));
    assert_eq!(authorize_access_change(Some(2), 2, Some(3)), Ok(3));
}

#[test]
fn session_access_and_name() {
    let grants = vec![UserSaveAccess { user_id: 3, save_id: 1, access: UserAccess::Edit }];
    assert_eq!(get_user_save_access(None, 1, Some(2), &grants), None);
    assert_eq!(get_user_save_access(Some(3), 1, Some(2), &grants), Some(UserAccess::Edit));
    let u = UserPreview { id: 2, username: "Test".to_string() };
    assert_eq!(get_username(Some(&u)), "Test");
    assert_eq!(get_username(None), "Unknown");
}

#[test]
fn permissions() {
    assert_eq!(check_permissions(&vec!["Category::View".to_string()]), Ok(()));
    assert_eq!(check_permissions(&vec!["x".to_string(), "Admin::View".to_string()]), Ok(()));
    assert_eq!(check_permissions(&vec!["Category::Edit".to_string()]), Err(ApiError::NoPermission));
    assert_eq!(check_permissions(&vec![]), Err(ApiError::NoPermission));
}

#[test]
fn names() {
    assert!(is_version_name_valid("Initial Version"));
    assert!(!is_version_name_valid("   "));
    assert!(!is_version_name_valid("a/b"));
    assert!(!is_version_name_valid("a\\b"));
    assert!(is_save_name_valid("My Save"));
    assert!(is_save_name_valid(""));
    assert!(!is_save_name_valid("x/y"));
}

#[test]
fn version_form_checks() {
    let mut f = VersionForm::new();
    f.set_label("  Steel Plant ".to_string());
    f.set_file(Some(" save.sav "), 10);
    let ok = f.validate().ok().unwrap();
    assert_eq!(ok.label(), "Steel Plant");
    assert_eq!(ok.file_name(), "save.sav");

    let mut f = VersionForm::new();
    f.set_file(Some("save.sav"), 10);
    assert_eq!(f.validate().err(), Some(ApiError::MissingFields));

    let mut f = VersionForm::new();
    f.set_label("  ".to_string());
    f.set_file(Some("save.sav"), 10);
    assert_eq!(f.validate().err(), Some(ApiError::MissingFields));

    let mut f = VersionForm::new();
    f.set_label("x".to_string());
    f.set_file(Some("save.sav"), 0);
    assert_eq!(f.validate().err(), Some(ApiError::MissingFields));

    let mut f = VersionForm::new();
    f.set_label("x".to_string());
    f.set_file(Some("  "), 3);
    assert_eq!(f.validate().err(), Some(ApiError::MissingFileName));

    let mut f = VersionForm::new();
    f.set_label("x".to_string());
    f.set_file(None, 3);
    assert_eq!(f.validate().err(), Some(ApiError::MissingFileName));

    let mut f = VersionForm::new();
    f.set_label("a/b".to_string());
    f.set_file(Some("s"), 3);
    assert_eq!(f.validate().err(), Some(ApiError::InvalidLabel));
}

#[test]
fn server_files() {
    assert_eq!(save_folder("Test", Game::IntoTheRadius2, "Run"), "./saves/Test/IntoTheRadius2/Run");
    assert_eq!(version_file("Test", Game::Satisfactory, "Base", 12), "./saves/Test/Satisfactory/Base/12.zip");
    assert_eq!(download_file_name(Game::Satisfactory, "Base", 3), "Satisfactory_Base_v3.zip");
    let s = new_save(5, "Base".to_string(), Game::Satisfactory, 2);
    assert_eq!(s.owner, 2);
    assert_eq!(s.version_count, 0);
    assert_eq!(s.most_recent_version, None);
}

#[test]
fn greeting() {
    assert_eq!(save_manager::server::get_greeting("Ann"), "Hello, Ann!");
}

#[test]
fn upload_fields_fill_the_form() {
    let mut f = VersionForm::new();
    assert!(!f.read_field("label", " Wire Factory ".to_string(), None, 12));
    assert!(!f.read_field("comment", "ignored".to_string(), Some("x.txt"), 3));
    assert!(f.read_field("file", String::new(), Some(" 3.sav "), 42));
    let ok = f.validate().ok().unwrap();
    assert_eq!(ok.label(), "Wire Factory");
    assert_eq!(ok.file_name(), "3.sav");

    let mut f = VersionForm::new();
    assert!(f.read_field("file", String::new(), None, 42));
    f.read_field("label", "Later".to_string(), None, 5);
    assert_eq!(f.validate().err(), Some(ApiError::MissingFileName));

    let mut f = VersionForm::new();
    f.read_field("label", "First".to_string(), None, 5);
    f.read_field("label", "  ".to_string(), None, 2);
    f.read_field("file", String::new(), Some("a.sav"), 1);
    assert_eq!(f.validate().err(), Some(ApiError::MissingFields));
}
