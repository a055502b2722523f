//! Supported games, their save slots and deployment options.

use vstd::prelude::*;
use crate::text::digit_char;

verus! {

/// A game whose saves the service manages.
#[derive(Debug, Clone, Copy, PartialEq, Eq, Hash, Structural)]
pub enum Game {
    IntoTheRadius2,
    Satisfactory,
}

/// Human-readable name of a game, as shown in the UI.
pub open spec fn game_display_name(g: Game) -> Seq<char> {
    match g {
        Game::IntoTheRadius2 => "Into the Radius 2"@,
        Game::Satisfactory => "Satisfactory"@,
    }
}

/// Variant name of a game, as used in folder and file names on the server.
pub open spec fn game_debug_name(g: Game) -> Seq<char> {
    match g {
        Game::IntoTheRadius2 => "IntoTheRadius2"@,
        Game::Satisfactory => "Satisfactory"@,
    }
}

/// Numeric code of a game in the database (its declaration order).
pub open spec fn game_code(g: Game) -> int {
    match g {
        Game::IntoTheRadius2 => 0,
        Game::Satisfactory => 1,
    }
}

impl Game {
    /// All games, in declaration order.
    pub fn iter() -> (v: Vec<Game>)
        ensures
            v@ == seq![Game::IntoTheRadius2, Game::Satisfactory],
    {
        let mut v = Vec::new();
        v.push(Game::IntoTheRadius2);
        v.push(Game::Satisfactory);
        assert(v@ =~= seq![Game::IntoTheRadius2, Game::Satisfactory]);
        v
    }

    /// The display name (what `Display` writes).
    pub fn to_string(&self) -> (r: String)
        ensures
            r@ == game_display_name(*self),
    {
        match self {
            Game::IntoTheRadius2 => String::from_str("Into the Radius 2"),
            Game::Satisfactory => String::from_str("Satisfactory"),
        }
    }

    /// The variant name (what `Debug` writes).
    pub fn debug_name(&self) -> (r: &'static str)
        ensures
            r@ == game_debug_name(*self),
    {
        match self {
            Game::IntoTheRadius2 => "IntoTheRadius2",
            Game::Satisfactory => "Satisfactory",
        }
    }

    /// The database code of the game.
    pub fn code(&self) -> (c: u8)
        ensures
            c as int == game_code(*self),
    {
        match self {
            Game::IntoTheRadius2 => 0,
            Game::Satisfactory => 1,
        }
    }

    /// The game stored under a database code, if any.
    pub fn from_code(code: i64) -> (g: Option<Game>)
        ensures
            g matches Some(game) ==> game_code(game) == code,
            g is None <==> !(code == 0 || code == 1),
    {
        if code == 0 {
            Some(Game::IntoTheRadius2)
        } else if code == 1 {
            Some(Game::Satisfactory)
        } else {
            None
        }
    }
}

/// Decoding the code of a game gives the game back.
pub proof fn lemma_game_code_roundtrip(g: Game)
    ensures
        0 <= game_code(g) <= 1,
        forall|h: Game| game_code(h) == game_code(g) ==> h == g,
{
}

/// What the client can do automatically for a game.
pub trait CanAuto {
    /// The client can locate the game's save file on disk by itself.
    fn can_fetch(&self) -> bool;

    /// The client can install a version into the game's save folder by itself.
    fn can_deploy(&self) -> bool;
}

impl CanAuto for Game {
    fn can_fetch(&self) -> (r: bool)
        ensures
            r == (*self == Game::IntoTheRadius2),
    {
        match self {
            Game::IntoTheRadius2 => true,
            Game::Satisfactory => false,
        }
    }

    fn can_deploy(&self) -> (r: bool)
        ensures
            r == (*self == Game::IntoTheRadius2),
    {
        match self {
            Game::IntoTheRadius2 => true,
            Game::Satisfactory => false,
        }
    }
}

/// A save slot of Into the Radius 2.
#[derive(Debug, Clone, Copy, PartialEq, Eq, Hash, Structural)]
pub enum SaveSlots {
    Slot1,
    Slot2,
    Slot3,
    AutoSave1,
    AutoSave2,
    AutoSave3,
}

/// The file name of a slot, which differs between single-player and co-op saves.
pub open spec fn slot_file_name(slot: SaveSlots, coop: bool) -> Seq<char> {
    match (slot, coop) {
        (SaveSlots::Slot1, false) => "Save 1.dat.sav"@,
        (SaveSlots::Slot2, false) => "Save 2.dat.sav"@,
        (SaveSlots::Slot3, false) => "Save 3.dat.sav"@,
        (SaveSlots::AutoSave1, false) => "Autosave 1.dat.sav"@,
        (SaveSlots::AutoSave2, false) => "Autosave 2.dat.sav"@,
        (SaveSlots::AutoSave3, false) => "Autosave 3.dat.sav"@,
        (SaveSlots::Slot1, true) => "Save 1.sav"@,
        (SaveSlots::Slot2, true) => "Save 2.sav"@,
        (SaveSlots::Slot3, true) => "Save 3.sav"@,
        (SaveSlots::AutoSave1, true) => "Autosave 1.sav"@,
        (SaveSlots::AutoSave2, true) => "Autosave 2.sav"@,
        (SaveSlots::AutoSave3, true) => "Autosave 3.sav"@,
    }
}

/// The label of a slot in the slot picker.
pub open spec fn slot_label(slot: SaveSlots) -> Seq<char> {
    match slot {
        SaveSlots::Slot1 => "Save 1"@,
        SaveSlots::Slot2 => "Save 2"@,
        SaveSlots::Slot3 => "Save 3"@,
        SaveSlots::AutoSave1 => "Autosave 1"@,
        SaveSlots::AutoSave2 => "Autosave 2"@,
        SaveSlots::AutoSave3 => "Autosave 3"@,
    }
}

/// Position of a slot in the slot picker (declaration order).
pub open spec fn slot_index(slot: SaveSlots) -> int {
    match slot {
        SaveSlots::Slot1 => 0,
        SaveSlots::Slot2 => 1,
        SaveSlots::Slot3 => 2,
        SaveSlots::AutoSave1 => 3,
        SaveSlots::AutoSave2 => 4,
        SaveSlots::AutoSave3 => 5,
    }
}

impl SaveSlots {
    /// The save file name of this slot.
    pub fn name(&self, coop: bool) -> (r: &'static str)
        ensures
            r@ == slot_file_name(*self, coop),
            r@ == slot_name_prefix(*self) + seq![digit_char(slot_number(*self))] + slot_name_suffix(coop),
    {
        proof {
            lemma_slot_name_numbered(*self, coop);
        }
        match (self, coop) {
            (SaveSlots::Slot1, false) => "Save 1.dat.sav",
            (SaveSlots::Slot2, false) => "Save 2.dat.sav",
            (SaveSlots::Slot3, false) => "Save 3.dat.sav",
            (SaveSlots::AutoSave1, false) => "Autosave 1.dat.sav",
            (SaveSlots::AutoSave2, false) => "Autosave 2.dat.sav",
            (SaveSlots::AutoSave3, false) => "Autosave 3.dat.sav",
            (SaveSlots::Slot1, true) => "Save 1.sav",
            (SaveSlots::Slot2, true) => "Save 2.sav",
            (SaveSlots::Slot3, true) => "Save 3.sav",
            (SaveSlots::AutoSave1, true) => "Autosave 1.sav",
            (SaveSlots::AutoSave2, true) => "Autosave 2.sav",
            (SaveSlots::AutoSave3, true) => "Autosave 3.sav",
        }
    }

    /// The label shown for this slot.
    pub fn label(&self) -> (r: &'static str)
        ensures
            r@ == slot_label(*self),
    {
        match self {
            SaveSlots::Slot1 => "Save 1",
            SaveSlots::Slot2 => "Save 2",
            SaveSlots::Slot3 => "Save 3",
            SaveSlots::AutoSave1 => "Autosave 1",
            SaveSlots::AutoSave2 => "Autosave 2",
            SaveSlots::AutoSave3 => "Autosave 3",
        }
    }

    /// The position of this slot in the slot picker.
    pub fn index(&self) -> (i: usize)
        ensures
            i as int == slot_index(*self),
    {
        match self {
            SaveSlots::Slot1 => 0,
            SaveSlots::Slot2 => 1,
            SaveSlots::Slot3 => 2,
            SaveSlots::AutoSave1 => 3,
            SaveSlots::AutoSave2 => 4,
            SaveSlots::AutoSave3 => 5,
        }
    }

    /// All slots, in declaration order.
    pub fn all() -> (v: Vec<SaveSlots>)
        ensures
            v@ == seq![SaveSlots::Slot1, SaveSlots::Slot2, SaveSlots::Slot3, SaveSlots::AutoSave1, SaveSlots::AutoSave2, SaveSlots::AutoSave3],
            forall|i: int| 0 <= i < v@.len() ==> slot_index(#[trigger] v@[i]) == i,
    {
        let v = vec![SaveSlots::Slot1, SaveSlots::Slot2, SaveSlots::Slot3, SaveSlots::AutoSave1, SaveSlots::AutoSave2, SaveSlots::AutoSave3];
        assert(v@ =~= seq![SaveSlots::Slot1, SaveSlots::Slot2, SaveSlots::Slot3, SaveSlots::AutoSave1, SaveSlots::AutoSave2, SaveSlots::AutoSave3]);
        v
    }
}

impl Default for SaveSlots {
    fn default() -> (r: SaveSlots)
        ensures
            r == SaveSlots::Slot1,
    {
        SaveSlots::Slot1
    }
}

/// The word a slot's file name starts with: `Save ` for the three save slots (the first
/// three in the picker), `Autosave ` for the three autosaves.
pub open spec fn slot_name_prefix(slot: SaveSlots) -> Seq<char> {
    if slot_index(slot) < 3 { "Save "@ } else { "Autosave "@ }
}

/// The number a slot carries among its kind: 1 to 3, in the picker's order.
pub open spec fn slot_number(slot: SaveSlots) -> int {
    if slot_index(slot) < 3 { slot_index(slot) + 1 } else { slot_index(slot) - 2 }
}

/// The ending of a save file name: `.sav` in co-op, `.dat.sav` in single player.
pub open spec fn slot_name_suffix(coop: bool) -> Seq<char> {
    if coop { ".sav"@ } else { ".dat.sav"@ }
}

/// A slot's file name is made of its kind, its own number among that kind, and the
/// mode's ending: slot 1 in co-op is `Save 1.sav`, autosave 2 alone is `Autosave 2.dat.sav`.
pub proof fn lemma_slot_name_numbered(slot: SaveSlots, coop: bool)
    ensures
        slot_file_name(slot, coop) == slot_name_prefix(slot) + seq![digit_char(slot_number(slot))]
            + slot_name_suffix(coop),
        1 <= slot_number(slot) <= 3,
{
    reveal_strlit("Save 1.dat.sav");
    reveal_strlit("Save 2.dat.sav");
    reveal_strlit("Save 3.dat.sav");
    reveal_strlit("Autosave 1.dat.sav");
    reveal_strlit("Autosave 2.dat.sav");
    reveal_strlit("Autosave 3.dat.sav");
    reveal_strlit("Save 1.sav");
    reveal_strlit("Save 2.sav");
    reveal_strlit("Save 3.sav");
    reveal_strlit("Autosave 1.sav");
    reveal_strlit("Autosave 2.sav");
    reveal_strlit("Autosave 3.sav");
    reveal_strlit("Save ");
    reveal_strlit("Autosave ");
    reveal_strlit(".sav");
    reveal_strlit(".dat.sav");
    assert(slot_file_name(slot, coop) =~= slot_name_prefix(slot) + seq![digit_char(slot_number(slot))]
        + slot_name_suffix(coop));
}

/// The twelve save file names all differ, across slots and across the two modes, and
/// each is a bare file name: no `/` or `\\` in it.
pub proof fn lemma_slot_names_distinct(a: SaveSlots, coop_a: bool, b: SaveSlots, coop_b: bool)
    ensures
        slot_file_name(a, coop_a) == slot_file_name(b, coop_b) ==> a == b && coop_a == coop_b,
        !slot_file_name(a, coop_a).contains('/'),
        !slot_file_name(a, coop_a).contains('\\'),
{
    reveal_strlit("Save 1.dat.sav");
    reveal_strlit("Save 2.dat.sav");
    reveal_strlit("Save 3.dat.sav");
    reveal_strlit("Autosave 1.dat.sav");
    reveal_strlit("Autosave 2.dat.sav");
    reveal_strlit("Autosave 3.dat.sav");
    reveal_strlit("Save 1.sav");
    reveal_strlit("Save 2.sav");
    reveal_strlit("Save 3.sav");
    reveal_strlit("Autosave 1.sav");
    reveal_strlit("Autosave 2.sav");
    reveal_strlit("Autosave 3.sav");
    let x = slot_file_name(a, coop_a);
    let y = slot_file_name(b, coop_b);
    if (a != b || coop_a != coop_b) && x == y {
        assert(x.len() != y.len() || exists|i: int| 0 <= i < x.len() && x[i] != y[i]) by {
            if x.len() == y.len() {
                if coop_a != coop_b {
                    assert(x[0] != y[0]);
                } else if (!coop_a && x.len() == 14) || (coop_a && x.len() == 10) {
                    assert(x[5] != y[5]);
                } else {
                    assert(x[9] != y[9]);
                }
            }
        }
    }
    assert forall|i: int| 0 <= i < x.len() implies x[i] != '/' && x[i] != '\\' by {}
}

/// Options for installing a version of Into the Radius 2.
#[derive(Debug, Clone, Copy, PartialEq, Eq, Hash, Structural)]
pub struct ItrOptions {
    pub coop: bool,
    pub slot: SaveSlots,
}

impl Default for ItrOptions {
    fn default() -> (r: ItrOptions)
        ensures
            r == (ItrOptions { coop: false, slot: SaveSlots::Slot1 }),
    {
        ItrOptions { coop: false, slot: SaveSlots::Slot1 }
    }
}

/// How a version is installed into a game's save folder.
#[derive(Debug, Clone, Copy, PartialEq, Eq, Structural)]
pub enum DeployOptions {
    IntoTheRadius2(ItrOptions),
    Satisfactory {},
}

/// The deploy options fit the game.
pub open spec fn options_match_game(o: DeployOptions, g: Game) -> bool {
    match (o, g) {
        (DeployOptions::IntoTheRadius2(_), Game::IntoTheRadius2) => true,
        (DeployOptions::Satisfactory {}, Game::Satisfactory) => true,
        _ => false,
    }
}

/// The default deploy options of a game.
pub open spec fn default_deploy_options(g: Game) -> DeployOptions {
    match g {
        Game::IntoTheRadius2 => DeployOptions::IntoTheRadius2(
            ItrOptions { coop: false, slot: SaveSlots::Slot1 },
        ),
        Game::Satisfactory => DeployOptions::Satisfactory {},
    }
}

impl DeployOptions {
    /// Whether these options are meant for `game`.
    pub fn matches_game(&self, game: Game) -> (r: bool)
        ensures
            r == options_match_game(*self, game),
    {
        match (self, game) {
            (DeployOptions::IntoTheRadius2(_), Game::IntoTheRadius2) => true,
            (DeployOptions::Satisfactory {}, Game::Satisfactory) => true,
            _ => false,
        }
    }

    /// The default options for `game` (single-player, first slot).
    pub fn for_game(game: Game) -> (r: DeployOptions)
        ensures
            r == default_deploy_options(game),
    {
        match game {
            Game::IntoTheRadius2 => DeployOptions::IntoTheRadius2(
                ItrOptions { coop: false, slot: SaveSlots::Slot1 },
            ),
            Game::Satisfactory => DeployOptions::Satisfactory {},
        }
    }

    /// Options that are Into the Radius 2 options: kept when they already are,
    /// otherwise replaced by the defaults.
    pub fn ensure_into_the_radius_2(self) -> (r: DeployOptions)
        ensures
            self is IntoTheRadius2 ==> r == self,
            !(self is IntoTheRadius2) ==> r == DeployOptions::IntoTheRadius2(
                ItrOptions { coop: false, slot: SaveSlots::Slot1 },
            ),
    {
        match self {
            DeployOptions::IntoTheRadius2(_) => self,
            _ => DeployOptions::IntoTheRadius2(ItrOptions::default()),
        }
    }
}

/// The default options of a game always fit that game.
pub proof fn lemma_default_options_match(g: Game)
    ensures
        options_match_game(default_deploy_options(g), g),
        forall|h: Game| options_match_game(default_deploy_options(g), h) ==> h == g,
{
}

/// Which save files of Into the Radius 2 already exist, per slot.
#[derive(Debug, Clone, Copy, PartialEq, Eq, Structural)]
pub struct SlotFlags {
    pub s1: bool,
    pub s2: bool,
    pub s3: bool,
    pub a1: bool,
    pub a2: bool,
    pub a3: bool,
}

/// The flag of one slot.
pub open spec fn slot_flag(f: SlotFlags, slot: SaveSlots) -> bool {
    match slot {
        SaveSlots::Slot1 => f.s1,
        SaveSlots::Slot2 => f.s2,
        SaveSlots::Slot3 => f.s3,
        SaveSlots::AutoSave1 => f.a1,
        SaveSlots::AutoSave2 => f.a2,
        SaveSlots::AutoSave3 => f.a3,
    }
}

/// Existing save files in the single-player and co-op folders.
#[derive(Debug, Clone, Copy, PartialEq, Eq, Structural)]
pub struct ExistingSaves {
    pub single: SlotFlags,
    pub coop: SlotFlags,
}

impl ExistingSaves {
    /// The flags of the folder the chosen mode uses.
    pub fn current(&self, coop: bool) -> (r: SlotFlags)
        ensures
            r == (if coop { self.coop } else { self.single }),
    {
        if coop {
            self.coop
        } else {
            self.single
        }
    }
}

/// The slots offered in the slot picker: all of them when new files may be created,
/// otherwise only those whose file exists; always in declaration order.
pub fn offered_slots(allow_new: bool, existing: SlotFlags) -> (v: Vec<SaveSlots>)
    ensures
        forall|i: int| 0 <= i < v@.len() ==> allow_new || slot_flag(existing, #[trigger] v@[i]),
        forall|s: SaveSlots| (allow_new || slot_flag(existing, s)) ==> v@.contains(s),
        forall|i: int, j: int| 0 <= i < j < v@.len() ==> slot_index(v@[i]) < slot_index(v@[j]),
{
    let all = SaveSlots::all();
    let mut v: Vec<SaveSlots> = Vec::new();
    for k in 0..all.len()
        invariant
            all@ == seq![SaveSlots::Slot1, SaveSlots::Slot2, SaveSlots::Slot3, SaveSlots::AutoSave1, SaveSlots::AutoSave2, SaveSlots::AutoSave3],
            forall|i: int| 0 <= i < v@.len() ==> allow_new || slot_flag(existing, #[trigger] v@[i]),
            forall|i: int| 0 <= i < v@.len() ==> slot_index(#[trigger] v@[i]) < k,
            forall|s: SaveSlots| #![trigger slot_index(s)] slot_index(s) < k && (allow_new || slot_flag(existing, s)) ==> v@.contains(s),
            forall|i: int, j: int| 0 <= i < j < v@.len() ==> slot_index(v@[i]) < slot_index(v@[j]),
    {
        let slot = all[k];
        assert(slot_index(slot) == k);
        let present = match slot {
            SaveSlots::Slot1 => existing.s1,
            SaveSlots::Slot2 => existing.s2,
            SaveSlots::Slot3 => existing.s3,
            SaveSlots::AutoSave1 => existing.a1,
            SaveSlots::AutoSave2 => existing.a2,
            SaveSlots::AutoSave3 => existing.a3,
        };
        assert(present == slot_flag(existing, slot));
        if allow_new || present {
            let ghost old_v = v@;
            v.push(slot);
            assert forall|s: SaveSlots| #![trigger slot_index(s)] slot_index(s) < k + 1 && (allow_new || slot_flag(existing, s)) implies v@.contains(s) by {
                if slot_index(s) == k {
                    assert(s == slot);
                    assert(v@[v@.len() - 1] == s);
                } else {
                    assert(old_v.contains(s));
                    let j = choose|j: int| 0 <= j < old_v.len() && old_v[j] == s;
                    assert(v@[j] == s);
                }
            }
        } else {
            assert forall|s: SaveSlots| #![trigger slot_index(s)] slot_index(s) < k + 1 && (allow_new || slot_flag(existing, s)) implies v@.contains(s) by {
                if slot_index(s) == k {
                    assert(s == slot);
                }
            }
        }
        assert(forall|s: SaveSlots| #![trigger slot_index(s)] slot_index(s) < k + 1 && (allow_new || slot_flag(existing, s)) ==> v@.contains(s));
    }
    assert forall|s: SaveSlots| (allow_new || slot_flag(existing, s)) implies v@.contains(s) by {
        assert(slot_index(s) < 6);
    }
    v
}

} // verus!
