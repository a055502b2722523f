use save_manager::access::{NamedUserAccess, UserAccess, UserPreview};
use save_manager::client::{
    access_added, access_removed, access_updated, logged_out, new_save_refusal, refreshed_user, save_created,
    signed_in, toggle_access, version_created, version_deleted,
};
use save_manager::toast::ToastKind;
use save_manager::ui::ClientError;
use save_manager::versions::Version;

fn user(id: i32, name: &str) -> UserPreview {
    UserPreview { id, username: name.to_string() }
}

fn entry(id: i32, name: &str, access: UserAccess) -> NamedUserAccess {
    NamedUserAccess { user: user(id, name), access }
}

#[test]
fn sign_in_sets_the_user_only_on_success() {
    let mut current = None;
    let shown = signed_in(&mut current, Err(ClientError::ServerError { message: "Invalid password".to_string(), code: 401 }));
    assert_eq!(shown.as_deref(), Some("Invalid password"));
    assert_eq!(current, None);
    let shown = signed_in(&mut current, Err(ClientError::Other));
    assert_eq!(shown.as_deref(), Some("An unknown error occurred"));
    assert_eq!(current, None);
    assert_eq!(signed_in(&mut current, Ok(user(2, "Test"))), None);
    assert_eq!(current, Some(user(2, "Test")));
}

#[test]
fn refresh_and_logout() {
    let mut current = None;
    refreshed_user(&mut current, Ok::<UserPreview, String>(user(2, "Test")));
    assert_eq!(current, Some(user(2, "Test")));
    refreshed_user(&mut current, Err::<UserPreview, String>("offline".to_string()));
    assert_eq!(current, None);
    current = Some(user(2, "Test"));
    logged_out(&mut current, Err::<(), String>("offline".to_string()));
    assert_eq!(current, None);
}

#[test]
fn new_save_dialog_steps() {
    let refused = new_save_refusal("a/b").expect("refused");
    assert_eq!(refused.kind, ToastKind::Error);
    assert_eq!(refused.title, "Invalid Save Name");
    assert!(new_save_refusal("a\\b").is_some());
    assert!(new_save_refusal("My Save").is_none());
    let (close, after) = save_created(&Ok::<i32, String>(1));
    assert!(close && after.reload && after.notice.is_none());
    let (close, after) = save_created(&Err::<i32, String>("exists".to_string()));
    assert!(!close && after.reload);
}

#[test]
fn failed_version_delete_reloads_and_tells() {
    let ok = version_deleted(Ok(()));
    assert!(!ok.reload && ok.notice.is_none());
    let failed = version_deleted(Err("server error".to_string()));
    assert!(failed.reload);
    let t = failed.notice.expect("notice");
    assert_eq!(t.kind, ToastKind::Error);
    assert_eq!(t.title, "Failed to delete version");
    assert_eq!(t.message, "server error");
}

#[test]
fn refused_access_update_is_reverted() {
    let before = vec![entry(1, "Alice", UserAccess::View), entry(3, "Steve", UserAccess::Edit)];
    let mut list = before.clone();
    let (previous, requested) = toggle_access(&mut list, 1);
    assert_eq!((previous, requested), (UserAccess::Edit, UserAccess::View));
    assert_eq!(list[1].access, UserAccess::View);
    let notice = access_updated(&mut list, 1, previous, Err("refused".to_string())).expect("notice");
    assert_eq!(notice.title, "Failed to update access");
    assert_eq!(notice.message, "refused");
    assert_eq!(list, before);

    let (previous, _) = toggle_access(&mut list, 0);
    assert!(access_updated(&mut list, 0, previous, Ok(())).is_none());
    assert_eq!(list[0].access, UserAccess::Edit);
}

#[test]
fn access_add_and_remove_answers() {
    assert_eq!(access_added(Ok(())), (false, None));
    let (reload, shown) = access_added(Err(ClientError::ServerError { message: "User does not exist.".to_string(), code: 500 }));
    assert!(reload);
    assert_eq!(shown.as_deref(), Some("User does not exist."));
    let (reload, shown) = access_added(Err(ClientError::Other));
    assert!(reload);
    assert_eq!(shown.as_deref(), Some("Failed to add access"));
    let removed = access_removed(Err("no".to_string()));
    assert!(removed.reload);
    assert_eq!(removed.notice.expect("notice").title, "Failed to remove access");
    assert!(!access_removed(Ok(())).reload);
}

fn version(id: i32, number: i32, label: &str) -> Version {
    Version { id, save_id: 1, version: number, label: label.to_string(), timestamp: 1680000000, by: user(2, "Test") }
}

#[test]
fn new_version_answers() {
    let mut list = vec![version(1, 1, "Wire Factory")];
    let mut label = "Steel Plant".to_string();
    let (close, shown) = version_created(&mut list, &mut label, Err(ClientError::Other));
    assert!(!close);
    assert_eq!(shown.as_deref(), Some("Failed to create version"));
    assert_eq!(list, vec![version(1, 1, "Wire Factory")]);
    assert_eq!(label, "Steel Plant");
    let refused = ClientError::ServerError { message: "Invalid version label".to_string(), code: 400 };
    let (close, shown) = version_created(&mut list, &mut label, Err(refused));
    assert!(!close);
    assert_eq!(shown.as_deref(), Some("Invalid version label"));
    let (close, shown) = version_created(&mut list, &mut label, Ok(version(2, 2, "Steel Plant")));
    assert!(close);
    assert_eq!(shown, None);
    assert_eq!(list, vec![version(2, 2, "Steel Plant"), version(1, 1, "Wire Factory")]);
    assert_eq!(label, "");
}
