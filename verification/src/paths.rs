//! File-system paths on the desktop client, as the sequence of components pushed
//! onto a base path.

use vstd::prelude::*;
use crate::game::{Game, DeployOptions, slot_file_name};
use crate::text::{i64_to_text, decimal_text, chars_of, string_from_chars};

verus! {

/// A path, as the sequence of components pushed onto an empty path.
pub struct PathParts {
    pub parts: Vec<String>,
}

impl View for PathParts {
    type V = Seq<Seq<char>>;

    open spec fn view(&self) -> Seq<Seq<char>> {
        self.parts@.map_values(|s: String| s@)
    }
}

/// Position of the last `.` in `s` before position `j`, or `-1`.
pub open spec fn last_dot_before(s: Seq<char>, j: int) -> int
    decreases j,
{
    if j <= 0 || j > s.len() {
        -1
    } else if s[j - 1] == '.' {
        j - 1
    } else {
        last_dot_before(s, j - 1)
    }
}

/// The file name `name` with its extension replaced by `ext` (`Path::with_extension`):
/// the extension is what follows the last `.`, unless that `.` opens the name;
/// an empty `ext` leaves the stem alone.
pub open spec fn replace_extension(name: Seq<char>, ext: Seq<char>) -> Seq<char> {
    let d = last_dot_before(name, name.len() as int);
    let stem = if d > 0 { name.subrange(0, d) } else { name };
    if ext.len() == 0 {
        stem
    } else {
        stem + seq!['.'] + ext
    }
}

/// The path components that follow a parent directory and hold no file name.
pub open spec fn is_parent_marker(name: Seq<char>) -> bool {
    name == seq!['.', '.']
}

impl PathParts {
    /// The empty path.
    pub fn new() -> (p: PathParts)
        ensures
            p@ == Seq::<Seq<char>>::empty(),
    {
        let p = PathParts { parts: Vec::new() };
        assert(p@ =~= Seq::<Seq<char>>::empty());
        p
    }

    /// A path made of the given components.
    pub fn from_parts(parts: Vec<String>) -> (p: PathParts)
        ensures
            p.parts@ == parts@,
    {
        PathParts { parts }
    }

    /// Appends a component (`PathBuf::push`).
    pub fn push(&mut self, part: &str)
        ensures
            final(self)@ == old(self)@.push(part@),
    {
        self.parts.push(String::from_str(part));
        assert(self@ =~= old(self)@.push(part@));
    }

    /// This path with one more component (`Path::join`).
    pub fn join(self, part: &str) -> (p: PathParts)
        ensures
            p@ == self@.push(part@),
    {
        let mut p = self;
        p.push(part);
        p
    }

    /// Drops the last component, if any (`PathBuf::pop`); tells whether one was dropped.
    pub fn pop(&mut self) -> (r: bool)
        ensures
            r == (old(self)@.len() > 0),
            r ==> final(self)@ == old(self)@.drop_last(),
            !r ==> final(self)@ == old(self)@,
    {
        if self.parts.len() == 0 {
            false
        } else {
            self.parts.pop();
            assert(self@ =~= old(self)@.drop_last());
            true
        }
    }

    /// The path with the extension of its last component replaced (`Path::with_extension`).
    /// A path without a file name (empty, or ending in `..`) is left as it is.
    pub fn with_extension(self, ext: &str) -> (p: PathParts)
        ensures
            self@.len() == 0 || is_parent_marker(self@.last()) ==> p@ == self@,
            self@.len() > 0 && !is_parent_marker(self@.last()) ==> p@ == self@.drop_last().push(
                replace_extension(self@.last(), ext@),
            ),
    {
        let mut p = self;
        let n = p.parts.len();
        if n == 0 {
            return p;
        }
        let last = p.parts.pop().unwrap();
        let ghost old_view = self@;
        assert(p@ =~= old_view.drop_last());
        let chars = chars_of(last.as_str());
        if chars.len() == 2 && chars[0] == '.' && chars[1] == '.' {
            assert(chars@ =~= seq!['.', '.']);
            p.parts.push(last);
            assert(p@ =~= old_view);
            return p;
        }
        assert(!is_parent_marker(old_view.last())) by {
            if is_parent_marker(old_view.last()) {
                assert(chars@ == seq!['.', '.']);
            }
        }
        let replaced = replace_extension_exec(&chars, ext);
        p.parts.push(replaced);
        assert(p@ =~= old_view.drop_last().push(replace_extension(old_view.last(), ext@)));
        p
    }
}

fn last_dot(v: &Vec<char>) -> (d: Option<usize>)
    ensures
        d is None ==> last_dot_before(v@, v@.len() as int) == -1,
        d matches Some(i) ==> last_dot_before(v@, v@.len() as int) == i && i < v@.len(),
{
    let mut j = v.len();
    while j > 0 && v[j - 1] != '.'
        invariant
            j <= v@.len(),
            last_dot_before(v@, v@.len() as int) == last_dot_before(v@, j as int),
        decreases j,
    {
        j = j - 1;
    }
    if j == 0 {
        None
    } else {
        Some(j - 1)
    }
}

fn replace_extension_exec(name: &Vec<char>, ext: &str) -> (r: String)
    ensures
        r@ == replace_extension(name@, ext@),
{
    let d = last_dot(name);
    let mut out: Vec<char> = Vec::new();
    let stem_len = match d {
        Some(i) => if i > 0 { i } else { name.len() },
        None => name.len(),
    };
    let mut k: usize = 0;
    while k < stem_len
        invariant
            k <= stem_len <= name@.len(),
            out@ == name@.subrange(0, k as int),
        decreases stem_len - k,
    {
        out.push(name[k]);
        assert(out@ =~= name@.subrange(0, k + 1));
        k = k + 1;
    }
    assert(name@.subrange(0, name@.len() as int) =~= name@);
    let ev = chars_of(ext);
    if ev.len() > 0 {
        let ghost stem = out@;
        out.push('.');
        let mut m: usize = 0;
        while m < ev.len()
            invariant
                m <= ev@.len(),
                out@ == stem + seq!['.'] + ev@.subrange(0, m as int),
            decreases ev.len() - m,
        {
            out.push(ev[m]);
            assert(out@ =~= stem + seq!['.'] + ev@.subrange(0, m + 1));
            m = m + 1;
        }
        assert(ev@.subrange(0, ev@.len() as int) =~= ev@);
    }
    string_from_chars(&out)
}

/// The "My Games" folder inside the user's documents folder.
pub fn get_my_games_dir(document_dir: PathParts) -> (p: PathParts)
    ensures
        p@ == document_dir@.push("My Games"@),
{
    document_dir.join("My Games")
}

/// The folder where a game keeps its saves, below the "My Games" folder.
/// Only Into the Radius 2 has one.
pub fn get_game_save_dir(game: Game, my_games_dir: PathParts) -> (p: PathParts)
    requires
        game == Game::IntoTheRadius2,
    ensures
        p@ == my_games_dir@.push("IntoTheRadius2"@).push("Profile 1"@),
{
    match game {
        Game::IntoTheRadius2 => my_games_dir.join("IntoTheRadius2").join("Profile 1"),
        Game::Satisfactory => my_games_dir,
    }
}

/// The folder where downloaded versions are cached: `downloads` next to the executable.
pub fn get_version_cache_dir(current_exe: PathParts) -> (p: PathParts)
    ensures
        current_exe@.len() > 0 ==> p@ == current_exe@.drop_last().push("downloads"@),
        current_exe@.len() == 0 ==> p@ == seq!["downloads"@],
{
    let mut p = current_exe;
    p.pop();
    p.push("downloads");
    p
}

/// The cached file of a version: `<cache>/<save name>/<version>.zip`.
pub fn get_version_path(cache_dir: PathParts, save_name: &str, version: i32) -> (p: PathParts)
    ensures
        p@ == cache_dir@.push(save_name@).push(decimal_text(version as int) + ".zip"@),
{
    let mut file = i64_to_text(version as i64);
    file.append(".zip");
    let p = cache_dir.join(save_name);
    p.join(file.as_str())
}

/// The save file a deployment writes: the `Coop` or `Single` folder of the game's save
/// folder, then the slot's file name. Only Into the Radius 2 has such a file.
pub fn slot_path(options: &DeployOptions, game_save_dir: PathParts) -> (p: PathParts)
    requires
        options is IntoTheRadius2,
    ensures
        options matches DeployOptions::IntoTheRadius2(o) ==> p@ == game_save_dir@.push(
            if o.coop { "Coop"@ } else { "Single"@ },
        ).push(slot_file_name(o.slot, o.coop)),
{
    match options {
        DeployOptions::IntoTheRadius2(o) => {
            let folder = if o.coop { "Coop" } else { "Single" };
            game_save_dir.join(folder).join(o.slot.name(o.coop))
        },
        DeployOptions::Satisfactory {} => game_save_dir,
    }
}

/// Where an existing save file is backed up before it is overwritten: the same path
/// with the extension `bak`.
pub fn backup_path(path: PathParts) -> (p: PathParts)
    ensures
        path@.len() == 0 || is_parent_marker(path@.last()) ==> p@ == path@,
        path@.len() > 0 && !is_parent_marker(path@.last()) ==> p@ == path@.drop_last().push(
            replace_extension(path@.last(), "bak"@),
        ),
{
    path.with_extension("bak")
}

/// Why installing a version on the desktop fails before anything is written.
#[derive(Debug, Clone, Copy, PartialEq, Eq, Structural)]
pub enum DeployFailure {
    /// The options are meant for another game.
    WrongGame,
    /// The version is not cached and could not be downloaded.
    DownloadFailed,
    /// The game's save folder does not exist.
    NoSaveFolder,
}

/// The first check of an installation: the options must be meant for the save's game.
pub fn check_deploy_game(options: &DeployOptions, game: Game) -> (r: Result<(), DeployFailure>)
    ensures
        r is Ok <==> crate::game::options_match_game(*options, game),
        r is Err ==> r == Err::<(), DeployFailure>(DeployFailure::WrongGame),
{
    if options.matches_game(game) {
        Ok(())
    } else {
        Err(DeployFailure::WrongGame)
    }
}

/// After the game check: the archive must be cached already, or downloaded now.
pub fn check_archive(cached: bool, downloaded: bool) -> (r: Result<(), DeployFailure>)
    ensures
        r is Ok <==> (cached || downloaded),
        r is Err ==> r == Err::<(), DeployFailure>(DeployFailure::DownloadFailed),
{
    if cached || downloaded {
        Ok(())
    } else {
        Err(DeployFailure::DownloadFailed)
    }
}

/// Then the game's save folder must exist.
pub fn check_save_folder(exists: bool) -> (r: Result<(), DeployFailure>)
    ensures
        r is Ok <==> exists,
        r is Err ==> r == Err::<(), DeployFailure>(DeployFailure::NoSaveFolder),
{
    if exists {
        Ok(())
    } else {
        Err(DeployFailure::NoSaveFolder)
    }
}

} // verus!
