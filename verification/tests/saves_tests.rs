use save_manager::game::Game;
use save_manager::saves::{filter_saves, sort_saves, visible_saves, Save, SortBy, SortIcon};

fn save(id: i32, name: &str, game: Game, recent: Option<i32>) -> Save {
    Save { id, name: name.to_string(), game, owner: 1, version_count: 0, most_recent_version: recent }
}

fn ids(v: &[Save]) -> Vec<i32> {
    v.iter().map(|s| s.id).collect()
}

fn sample() -> Vec<Save> {
    vec![
        save(1, "beta", Game::Satisfactory, Some(30)),
        save(2, "Alpha", Game::IntoTheRadius2, None),
        save(3, "alpha", Game::Satisfactory, Some(10)),
        save(4, "Gamma", Game::IntoTheRadius2, Some(30)),
    ]
}

#[test]
fn sort_by_name_ignores_case_and_is_stable() {
    assert_eq!(ids(&sort_saves(sample(), SortBy::NameAsc)), vec![2, 3, 1, 4]);
    assert_eq!(ids(&sort_saves(sample(), SortBy::NameDesc)), vec![4, 1, 2, 3]);
}

#[test]
fn sort_by_game_and_time() {
    assert_eq!(ids(&sort_saves(sample(), SortBy::GameAsc)), vec![2, 4, 1, 3]);
    assert_eq!(ids(&sort_saves(sample(), SortBy::GameDesc)), vec![1, 3, 2, 4]);
    assert_eq!(ids(&sort_saves(sample(), SortBy::LastUpdatedAsc)), vec![2, 3, 1, 4]);
    assert_eq!(ids(&sort_saves(sample(), SortBy::LastUpdatedDesc)), vec![1, 4, 3, 2]);
}

#[test]
fn sort_agrees_with_std_sort_by_key() {
    for by in [SortBy::NameAsc, SortBy::NameDesc, SortBy::GameAsc, SortBy::GameDesc, SortBy::LastUpdatedAsc, SortBy::LastUpdatedDesc] {
        let mut expected = sample();
        match by {
            SortBy::NameAsc => expected.sort_by_key(|a| a.name.to_lowercase()),
            SortBy::NameDesc => expected.sort_by_key(|b| std::cmp::Reverse(b.name.to_lowercase())),
            SortBy::GameAsc => expected.sort_by_key(|a| a.game.to_string()),
            SortBy::GameDesc => expected.sort_by_key(|b| std::cmp::Reverse(b.game.to_string())),
            SortBy::LastUpdatedAsc => expected.sort_by_key(|a| a.most_recent_version),
            SortBy::LastUpdatedDesc => expected.sort_by_key(|b| std::cmp::Reverse(b.most_recent_version)),
        }
        assert_eq!(ids(&sort_saves(sample(), by)), ids(&expected), "{:?}", by);
    }
}

#[test]
fn filter_matches_name_or_game_ignoring_case() {
    assert_eq!(ids(&filter_saves(sample(), "ALP")), vec![2, 3]);
    assert_eq!(ids(&filter_saves(sample(), "SAT")), vec![1, 3]);
    assert_eq!(ids(&filter_saves(sample(), "radius")), vec![2, 4]);
    assert_eq!(ids(&filter_saves(sample(), "")), vec![1, 2, 3, 4]);
    assert_eq!(ids(&filter_saves(sample(), "zzz")), Vec::<i32>::new());
}

#[test]
fn visible_list_filters_then_sorts() {
    assert_eq!(ids(&visible_saves(sample(), "a", SortBy::initial())), vec![1, 4, 3, 2]);
    assert_eq!(ids(&visible_saves(sample(), "sat", SortBy::NameAsc)), vec![3, 1]);
}

#[test]
fn sort_buttons() {
    assert_eq!(SortBy::initial(), SortBy::LastUpdatedDesc);
    assert_eq!(SortBy::NameAsc.after_name_click(), SortBy::NameDesc);
    assert_eq!(SortBy::NameDesc.after_name_click(), SortBy::NameAsc);
    assert_eq!(SortBy::GameAsc.after_name_click(), SortBy::NameAsc);
    assert_eq!(SortBy::GameAsc.after_game_click(), SortBy::GameDesc);
    assert_eq!(SortBy::LastUpdatedDesc.after_last_updated_click(), SortBy::LastUpdatedAsc);
    assert_eq!(SortBy::LastUpdatedAsc.after_last_updated_click(), SortBy::LastUpdatedDesc);
    assert_eq!(SortBy::NameAsc.name_icon(), SortIcon::ChevronDown);
    assert_eq!(SortBy::NameDesc.name_icon(), SortIcon::ChevronUp);
    assert_eq!(SortBy::GameAsc.name_icon(), SortIcon::ChevronsUpDown);
    assert_eq!(SortBy::GameDesc.game_icon(), SortIcon::ChevronUp);
    assert_eq!(SortBy::LastUpdatedAsc.last_updated_icon(), SortIcon::ChevronUp);
    assert_eq!(SortBy::LastUpdatedDesc.last_updated_icon(), SortIcon::ChevronDown);
}

#[test]
fn sorting_a_sorted_list_changes_nothing() {
    for by in [SortBy::NameAsc, SortBy::NameDesc, SortBy::GameAsc, SortBy::GameDesc, SortBy::LastUpdatedAsc, SortBy::LastUpdatedDesc] {
        let once = sort_saves(sample(), by);
        let twice = sort_saves(once.clone(), by);
        assert_eq!(twice, once);
    }
}

#[test]
fn empty_filter_keeps_every_save() {
    assert_eq!(filter_saves(sample(), ""), sample());
    assert_eq!(filter_saves(Vec::new(), ""), Vec::<Save>::new());
}
