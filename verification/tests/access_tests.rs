use save_manager::access::{
    add_access_entry, query_user_save_access, remove_access_entry, search_username, set_access_at,
    NamedUserAccess, UserAccess, UserAccessExt, UserPreview, UserSaveAccess,
};

fn entry(id: i32, name: &str, access: UserAccess) -> NamedUserAccess {
    NamedUserAccess { user: UserPreview { id, username: name.to_string() }, access }
}

#[test]
fn access_levels() {
    assert!(!UserAccess::View.can_edit());
    assert!(UserAccess::Edit.can_edit());
    assert!(UserAccess::Owner.can_edit());
    for a in [UserAccess::View, UserAccess::Edit, UserAccess::Owner] {
        assert!(a.can_view());
        assert_eq!(UserAccess::from_code(a.code() as i64), Some(a));
        assert!(!a.can_edit() || a.can_view());
        assert_ne!(a.toggled(), UserAccess::Owner);
    }
    assert_eq!(UserAccess::from_code(3), None);
    assert_eq!(UserAccess::Owner.code(), 2);
    assert_eq!(UserAccess::Edit.to_string(), "Edit");
    assert_eq!(UserAccess::View.toggled(), UserAccess::Edit);
    assert_eq!(UserAccess::Edit.toggled(), UserAccess::View);
    assert_eq!(UserAccess::View.toggled().toggled(), UserAccess::View);
    assert_eq!(UserAccess::Owner.toggled(), UserAccess::View);
}

#[test]
fn optional_access() {
    let none: Option<UserAccess> = None;
    assert!(!none.can_edit());
    assert!(!none.can_view());
    assert!(Some(UserAccess::View).can_view());
    assert!(!Some(UserAccess::View).can_edit());
    assert!(Some(UserAccess::Edit).can_edit());
}

#[test]
fn query_access() {
    let grants = vec![
        UserSaveAccess { user_id: 3, save_id: 1, access: UserAccess::Edit },
        UserSaveAccess { user_id: 4, save_id: 2, access: UserAccess::View },
        UserSaveAccess { user_id: 4, save_id: 1, access: UserAccess::View },
        UserSaveAccess { user_id: 3, save_id: 1, access: UserAccess::View },
    ];
    assert_eq!(query_user_save_access(2, 1, Some(2), &grants), Some(UserAccess::Owner));
    assert_eq!(query_user_save_access(3, 1, Some(2), &grants), Some(UserAccess::Edit));
    assert_eq!(query_user_save_access(4, 1, Some(2), &grants), Some(UserAccess::View));
    assert_eq!(query_user_save_access(5, 1, Some(2), &grants), None);
    assert_eq!(query_user_save_access(3, 1, None, &grants), None);
    assert_eq!(query_user_save_access(3, 2, Some(2), &grants), None);
}

#[test]
fn search_in_sorted_list() {
    let list = vec![entry(1, "Alice", UserAccess::View), entry(2, "Jane", UserAccess::Edit), entry(3, "Steve", UserAccess::View)];
    assert_eq!(search_username(&list, "Jane"), Ok(1));
    assert_eq!(search_username(&list, "Bob"), Err(1));
    assert_eq!(search_username(&list, "Zed"), Err(3));
    assert_eq!(search_username(&list, "Aaron"), Err(0));
    let names: Vec<String> = list.iter().map(|e| e.user.username.clone()).collect();
    for probe in ["Alice", "Bob", "Jane", "Steve", "Zed", ""] {
        let std_res = names.binary_search_by(|n| n.as_str().cmp(probe));
        assert_eq!(search_username(&list, probe).is_ok(), std_res.is_ok());
        if let (Err(a), Err(b)) = (search_username(&list, probe), std_res) {
            assert_eq!(a, b);
        }
    }
}

#[test]
fn add_keeps_the_list_sorted() {
    let mut list = vec![entry(1, "Alice", UserAccess::View), entry(3, "Steve", UserAccess::Edit)];
    assert!(add_access_entry(&mut list, "Jane".to_string()));
    let names: Vec<&str> = list.iter().map(|e| e.user.username.as_str()).collect();
    assert_eq!(names, vec!["Alice", "Jane", "Steve"]);
    assert_eq!(list[1], entry(0, "Jane", UserAccess::View));
    assert!(!add_access_entry(&mut list, "Steve".to_string()));
    assert_eq!(list.len(), 3);
    let mut empty = Vec::new();
    assert!(add_access_entry(&mut empty, "Bob".to_string()));
    assert_eq!(empty, vec![entry(0, "Bob", UserAccess::View)]);
}

#[test]
fn remove_and_set_access() {
    let mut list = vec![entry(1, "Alice", UserAccess::View), entry(2, "Jane", UserAccess::Edit), entry(3, "Steve", UserAccess::View)];
    remove_access_entry(&mut list, 2);
    assert_eq!(list, vec![entry(1, "Alice", UserAccess::View), entry(3, "Steve", UserAccess::View)]);
    remove_access_entry(&mut list, 9);
    assert_eq!(list.len(), 2);
    set_access_at(&mut list, 1, UserAccess::Edit);
    assert_eq!(list[1], entry(3, "Steve", UserAccess::Edit));
    assert_eq!(list[0], entry(1, "Alice", UserAccess::View));
}

#[test]
fn refused_toggle_is_undone() {
    let before = vec![entry(1, "Alice", UserAccess::View), entry(3, "Steve", UserAccess::Edit)];
    let mut list = before.clone();
    let previous = list[0].access;
    set_access_at(&mut list, 0, previous.toggled());
    assert_eq!(list[0].access, UserAccess::Edit);
    assert_ne!(list, before);
    set_access_at(&mut list, 0, previous);
    assert_eq!(list, before);
}
