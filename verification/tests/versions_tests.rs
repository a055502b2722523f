use save_manager::versions::accept_chunk;
use save_manager::access::UserPreview;
use save_manager::game::Game;
use save_manager::versions::{add_created_version, delete_version_prompt, next_version_number, remove_version, version_list_columns, version_time_text, Version};

fn version(id: i32, number: i32, label: &str) -> Version {
    Version { id, save_id: 1, version: number, label: label.to_string(), timestamp: 1680000000, by: UserPreview { id: 0, username: "John Doe".to_string() } }
}

#[test]
fn version_list_updates() {
    let mut list = vec![version(2, 2, "Steel Plant"), version(1, 1, "Wire Factory")];
    add_created_version(&mut list, version(3, 3, "Modular Frames"));
    assert_eq!(list.iter().map(|v| v.id).collect::<Vec<_>>(), vec![3, 2, 1]);
    remove_version(&mut list, 2);
    assert_eq!(list.iter().map(|v| v.id).collect::<Vec<_>>(), vec![3, 1]);
    remove_version(&mut list, 7);
    assert_eq!(list.len(), 2);
}

#[test]
fn next_version_numbers() {
    assert_eq!(next_version_number(&vec![]), Some(1));
    assert_eq!(next_version_number(&vec![1, 3, 2]), Some(4));
    assert_eq!(next_version_number(&vec![-5]), Some(-4));
    assert_eq!(next_version_number(&vec![i32::MAX, 1]), None);
}

#[test]
fn columns_of_the_version_list() {
    assert_eq!(version_list_columns(false, Game::IntoTheRadius2, false), 4);
    assert_eq!(version_list_columns(false, Game::Satisfactory, true), 5);
    assert_eq!(version_list_columns(true, Game::IntoTheRadius2, true), 7);
    assert_eq!(version_list_columns(true, Game::Satisfactory, false), 5);
}

#[test]
fn version_texts() {
    let v = version(3, 3, "Modular Frames");
    assert_eq!(version_time_text(&v), "2023-03-28 10:40:00");
    assert_eq!(delete_version_prompt(&v), "Are you sure you want to delete version 3 (\"Modular Frames\")?");
}

#[test]
fn download_address() {
    assert_eq!(save_manager::versions::download_url(1, 23), "/api/save/1/23/download");
}

#[test]
fn download_chunks_stop_at_the_first_error() {
    let mut bytes = vec![1u8];
    assert!(accept_chunk::<String>(&mut bytes, Some(Ok(vec![2, 3]))));
    assert_eq!(bytes, vec![1, 2, 3]);
    assert!(!accept_chunk(&mut bytes, Some(Err("x".to_string()))));
    assert!(!accept_chunk::<String>(&mut bytes, None));
    assert_eq!(bytes, vec![1, 2, 3]);
}
