use save_manager::game::{offered_slots, CanAuto, DeployOptions, ExistingSaves, Game, ItrOptions, SaveSlots, SlotFlags};

#[test]
fn games_in_order_with_names() {
    let all = Game::iter();
    assert_eq!(all, vec![Game::IntoTheRadius2, Game::Satisfactory]);
    assert_eq!(Game::IntoTheRadius2.to_string(), "Into the Radius 2");
    assert_eq!(Game::Satisfactory.to_string(), "Satisfactory");
    assert_eq!(Game::IntoTheRadius2.debug_name(), format!("{:?}", Game::IntoTheRadius2));
    assert_eq!(Game::Satisfactory.debug_name(), "Satisfactory");
}

#[test]
fn game_codes_round_trip() {
    for g in Game::iter() {
        assert_eq!(Game::from_code(g.code() as i64), Some(g));
    }
    assert_eq!(Game::from_code(2), None);
    assert_eq!(Game::from_code(-1), None);
}

#[test]
fn only_into_the_radius_is_automatic() {
    assert!(Game::IntoTheRadius2.can_fetch());
    assert!(Game::IntoTheRadius2.can_deploy());
    assert!(!Game::Satisfactory.can_fetch());
    assert!(!Game::Satisfactory.can_deploy());
}

#[test]
fn slot_file_names() {
    assert_eq!(SaveSlots::Slot1.name(false), "Save 1.dat.sav");
    assert_eq!(SaveSlots::AutoSave3.name(false), "Autosave 3.dat.sav");
    assert_eq!(SaveSlots::Slot2.name(true), "Save 2.sav");
    assert_eq!(SaveSlots::AutoSave1.name(true), "Autosave 1.sav");
    assert_eq!(SaveSlots::AutoSave2.label(), "Autosave 2");
    assert_eq!(SaveSlots::Slot3.index(), 2);
    assert_eq!(SaveSlots::default(), SaveSlots::Slot1);
}

#[test]
fn slot_names_are_distinct_per_mode() {
    for coop in [false, true] {
        let names: Vec<&str> = SaveSlots::all().iter().map(|s| s.name(coop)).collect();
        for i in 0..names.len() {
            for j in 0..names.len() {
                assert_eq!(names[i] == names[j], i == j);
            }
        }
    }
}

#[test]
fn deploy_options_match_their_game() {
    let itr = DeployOptions::for_game(Game::IntoTheRadius2);
    assert_eq!(itr, DeployOptions::IntoTheRadius2(ItrOptions { coop: false, slot: SaveSlots::Slot1 }));
    assert!(itr.matches_game(Game::IntoTheRadius2));
    assert!(!itr.matches_game(Game::Satisfactory));
    let sat = DeployOptions::for_game(Game::Satisfactory);
    assert!(sat.matches_game(Game::Satisfactory));
    assert!(!sat.matches_game(Game::IntoTheRadius2));
    assert_eq!(ItrOptions::default(), ItrOptions { coop: false, slot: SaveSlots::Slot1 });
}

#[test]
fn ensure_into_the_radius_keeps_or_resets() {
    let mine = DeployOptions::IntoTheRadius2(ItrOptions { coop: true, slot: SaveSlots::AutoSave2 });
    assert_eq!(mine.ensure_into_the_radius_2(), mine);
    assert_eq!(
        DeployOptions::Satisfactory {}.ensure_into_the_radius_2(),
        DeployOptions::IntoTheRadius2(ItrOptions::default())
    );
}

#[test]
fn offered_slots_follow_existing_files() {
    let single = SlotFlags { s1: true, s2: false, s3: false, a1: false, a2: true, a3: false };
    let coop = SlotFlags { s1: false, s2: false, s3: true, a1: false, a2: false, a3: false };
    let existing = ExistingSaves { single, coop };
    assert_eq!(offered_slots(false, existing.current(false)), vec![SaveSlots::Slot1, SaveSlots::AutoSave2]);
    assert_eq!(offered_slots(false, existing.current(true)), vec![SaveSlots::Slot3]);
    assert_eq!(offered_slots(true, existing.current(true)), SaveSlots::all());
}

#[test]
fn twelve_distinct_bare_slot_names() {
    let mut names: Vec<&str> = Vec::new();
    for coop in [false, true] {
        for slot in SaveSlots::all() {
            let n = slot.name(coop);
            assert!(!n.contains('/') && !n.contains('\\'));
            names.push(n);
        }
    }
    let mut unique = names.clone();
    unique.sort();
    unique.dedup();
    assert_eq!(unique.len(), 12);
}
