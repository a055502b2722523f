//! Saves, and the filtered and sorted save list of the UI.

use vstd::prelude::*;
use crate::access::{SaveId, UserId};
use crate::game::{Game, game_display_name};
use crate::text::{
    compare_text, contains_str, has_substring, lowercase, occurs_at, lex_le, lex_order,
    lemma_lex_order_antisym, lemma_lex_order_trans, to_lowercase,
};

verus! {

/// A save as the server lists it.
#[derive(Debug, Clone, PartialEq, Eq)]
pub struct Save {
    pub id: SaveId,
    pub name: String,
    pub game: Game,
    pub owner: UserId,
    pub version_count: i32,
    pub most_recent_version: Option<i32>,
}

/// The column and direction the save list is sorted by.
#[derive(Debug, Clone, Copy, PartialEq, Eq, Structural)]
pub enum SortBy {
    NameAsc,
    NameDesc,
    GameAsc,
    GameDesc,
    LastUpdatedAsc,
    LastUpdatedDesc,
}

/// The icon of a column's sort button.
#[derive(Debug, Clone, Copy, PartialEq, Eq, Structural)]
pub enum SortIcon {
    ChevronDown,
    ChevronUp,
    ChevronsUpDown,
}

impl SortBy {
    /// The order the list starts in: most recently updated first.
    pub fn initial() -> (r: SortBy)
        ensures
            r == SortBy::LastUpdatedDesc,
    {
        SortBy::LastUpdatedDesc
    }

    /// The order after clicking the name column: ascending, or descending when it was
    /// already ascending by name.
    pub fn after_name_click(self) -> (r: SortBy)
        ensures
            r == (if self == SortBy::NameAsc { SortBy::NameDesc } else { SortBy::NameAsc }),
    {
        match self {
            SortBy::NameAsc => SortBy::NameDesc,
            _ => SortBy::NameAsc,
        }
    }

    /// The order after clicking the game column.
    pub fn after_game_click(self) -> (r: SortBy)
        ensures
            r == (if self == SortBy::GameAsc { SortBy::GameDesc } else { SortBy::GameAsc }),
    {
        match self {
            SortBy::GameAsc => SortBy::GameDesc,
            _ => SortBy::GameAsc,
        }
    }

    /// The order after clicking the last-updated column.
    pub fn after_last_updated_click(self) -> (r: SortBy)
        ensures
            r == (if self == SortBy::LastUpdatedAsc {
                SortBy::LastUpdatedDesc
            } else {
                SortBy::LastUpdatedAsc
            }),
    {
        match self {
            SortBy::LastUpdatedAsc => SortBy::LastUpdatedDesc,
            _ => SortBy::LastUpdatedAsc,
        }
    }

    /// The icon of the name column's button.
    pub fn name_icon(self) -> (r: SortIcon)
        ensures
            r == (match self {
                SortBy::NameAsc => SortIcon::ChevronDown,
                SortBy::NameDesc => SortIcon::ChevronUp,
                _ => SortIcon::ChevronsUpDown,
            }),
    {
        match self {
            SortBy::NameAsc => SortIcon::ChevronDown,
            SortBy::NameDesc => SortIcon::ChevronUp,
            _ => SortIcon::ChevronsUpDown,
        }
    }

    /// The icon of the game column's button.
    pub fn game_icon(self) -> (r: SortIcon)
        ensures
            r == (match self {
                SortBy::GameAsc => SortIcon::ChevronDown,
                SortBy::GameDesc => SortIcon::ChevronUp,
                _ => SortIcon::ChevronsUpDown,
            }),
    {
        match self {
            SortBy::GameAsc => SortIcon::ChevronDown,
            SortBy::GameDesc => SortIcon::ChevronUp,
            _ => SortIcon::ChevronsUpDown,
        }
    }

    /// The icon of the last-updated column's button.
    pub fn last_updated_icon(self) -> (r: SortIcon)
        ensures
            r == (match self {
                SortBy::LastUpdatedAsc => SortIcon::ChevronUp,
                SortBy::LastUpdatedDesc => SortIcon::ChevronDown,
                _ => SortIcon::ChevronsUpDown,
            }),
    {
        match self {
            SortBy::LastUpdatedAsc => SortIcon::ChevronUp,
            SortBy::LastUpdatedDesc => SortIcon::ChevronDown,
            _ => SortIcon::ChevronsUpDown,
        }
    }
}

/// `None` sorts before every timestamp; timestamps sort by value.
pub open spec fn opt_le(a: Option<i32>, b: Option<i32>) -> bool {
    match (a, b) {
        (None, _) => true,
        (Some(_), None) => false,
        (Some(x), Some(y)) => x <= y,
    }
}

/// `a` may come before `b` in the list sorted by `by` (its sort key is not greater).
/// Names compare in lowercase; games by their display names; descending orders compare
/// the keys the other way round.
pub open spec fn save_key_le(by: SortBy, a: Save, b: Save) -> bool {
    match by {
        SortBy::NameAsc => lex_le(lowercase(a.name@), lowercase(b.name@)),
        SortBy::NameDesc => lex_le(lowercase(b.name@), lowercase(a.name@)),
        SortBy::GameAsc => lex_le(game_display_name(a.game), game_display_name(b.game)),
        SortBy::GameDesc => lex_le(game_display_name(b.game), game_display_name(a.game)),
        SortBy::LastUpdatedAsc => opt_le(a.most_recent_version, b.most_recent_version),
        SortBy::LastUpdatedDesc => opt_le(b.most_recent_version, a.most_recent_version),
    }
}

fn opt_le_exec(a: Option<i32>, b: Option<i32>) -> (r: bool)
    ensures
        r == opt_le(a, b),
{
    match (a, b) {
        (None, _) => true,
        (Some(_), None) => false,
        (Some(x), Some(y)) => x <= y,
    }
}

/// Compares two saves' sort keys.
pub fn save_key_le_exec(by: SortBy, a: &Save, b: &Save) -> (r: bool)
    ensures
        r == save_key_le(by, *a, *b),
{
    match by {
        SortBy::NameAsc | SortBy::NameDesc => {
            let la = to_lowercase(a.name.as_str());
            let lb = to_lowercase(b.name.as_str());
            if by == SortBy::NameAsc {
                compare_text(la.as_str(), lb.as_str()) <= 0
            } else {
                compare_text(lb.as_str(), la.as_str()) <= 0
            }
        },
        SortBy::GameAsc | SortBy::GameDesc => {
            let ga = a.game.to_string();
            let gb = b.game.to_string();
            if by == SortBy::GameAsc {
                compare_text(ga.as_str(), gb.as_str()) <= 0
            } else {
                compare_text(gb.as_str(), ga.as_str()) <= 0
            }
        },
        SortBy::LastUpdatedAsc => opt_le_exec(a.most_recent_version, b.most_recent_version),
        SortBy::LastUpdatedDesc => opt_le_exec(b.most_recent_version, a.most_recent_version),
    }
}

/// Sort keys are totally preordered: any two compare one way or the other, and the
/// comparison is transitive.
pub proof fn lemma_save_key_total_preorder(by: SortBy, a: Save, b: Save, c: Save)
    ensures
        save_key_le(by, a, b) || save_key_le(by, b, a),
        save_key_le(by, a, a),
        save_key_le(by, a, b) && save_key_le(by, b, c) ==> save_key_le(by, a, c),
{
    let (ka, kb, kc) = match by {
        SortBy::NameAsc | SortBy::NameDesc => (lowercase(a.name@), lowercase(b.name@), lowercase(c.name@)),
        _ => (game_display_name(a.game), game_display_name(b.game), game_display_name(c.game)),
    };
    lemma_lex_order_antisym(ka, kb);
    lemma_lex_order_antisym(ka, ka);
    match by {
        SortBy::NameAsc | SortBy::GameAsc => {
            if lex_le(ka, kb) && lex_le(kb, kc) {
                lemma_lex_order_trans(ka, kb, kc);
            }
        },
        SortBy::NameDesc | SortBy::GameDesc => {
            if lex_le(kb, ka) && lex_le(kc, kb) {
                lemma_lex_order_trans(kc, kb, ka);
            }
        },
        _ => {},
    }
}

/// Where a save goes when it joins the already sorted `r`: after every save whose key is
/// not greater (so that saves with equal keys keep their order), scanning from `i`.
pub open spec fn insert_pos(by: SortBy, r: Seq<Save>, x: Save, i: int) -> int
    decreases r.len() - i,
{
    if i < 0 || i >= r.len() {
        r.len() as int
    } else if !save_key_le(by, r[i], x) {
        i
    } else {
        insert_pos(by, r, x, i + 1)
    }
}

/// The stable sort of `s` by `by` (what `sort_by_key` computes): saves ordered by key,
/// saves with equal keys in the order they had.
pub open spec fn stable_sorted(by: SortBy, s: Seq<Save>) -> Seq<Save>
    decreases s.len(),
{
    if s.len() == 0 {
        Seq::empty()
    } else {
        let r = stable_sorted(by, s.drop_last());
        r.insert(insert_pos(by, r, s.last(), 0), s.last())
    }
}

/// Every save may come before every later one.
pub open spec fn sorted_by(by: SortBy, s: Seq<Save>) -> bool {
    forall|i: int, j: int| 0 <= i < j < s.len() ==> save_key_le(by, s[i], s[j])
}

proof fn lemma_insert_pos(by: SortBy, r: Seq<Save>, x: Save, i: int)
    requires
        0 <= i <= r.len(),
    ensures
        i <= insert_pos(by, r, x, i) <= r.len(),
        forall|k: int| i <= k < insert_pos(by, r, x, i) ==> save_key_le(by, #[trigger] r[k], x),
        insert_pos(by, r, x, i) < r.len() ==> !save_key_le(by, r[insert_pos(by, r, x, i)], x),
    decreases r.len() - i,
{
    if i < r.len() && save_key_le(by, r[i], x) {
        lemma_insert_pos(by, r, x, i + 1);
    }
}

/// A stable sort is sorted.
pub proof fn lemma_stable_sorted_is_sorted(by: SortBy, s: Seq<Save>)
    ensures
        sorted_by(by, stable_sorted(by, s)),
        stable_sorted(by, s).len() == s.len(),
    decreases s.len(),
{
    if s.len() > 0 {
        let r = stable_sorted(by, s.drop_last());
        let x = s.last();
        lemma_stable_sorted_is_sorted(by, s.drop_last());
        lemma_insert_pos(by, r, x, 0);
        let p = insert_pos(by, r, x, 0);
        let w = r.insert(p, x);
        assert forall|i: int, j: int| 0 <= i < j < w.len() implies save_key_le(by, w[i], w[j]) by {
            if j < p {
                assert(w[i] == r[i] && w[j] == r[j]);
            } else if j == p {
                assert(w[i] == r[i]);
            } else if i == p {
                assert(w[j] == r[j - 1]);
                lemma_save_key_total_preorder(by, r[p], x, r[j - 1]);
                if j - 1 > p {
                    assert(save_key_le(by, r[p], r[j - 1]));
                    lemma_save_key_total_preorder(by, x, r[p], r[j - 1]);
                }
            } else if i < p {
                assert(w[i] == r[i] && w[j] == r[j - 1]);
            } else {
                assert(w[i] == r[i - 1] && w[j] == r[j - 1]);
            }
        }
    }
}

/// A stable sort rearranges the saves without adding or dropping any.
pub proof fn lemma_stable_sorted_is_permutation(by: SortBy, s: Seq<Save>)
    ensures
        stable_sorted(by, s).to_multiset() == s.to_multiset(),
    decreases s.len(),
{
    broadcast use vstd::seq_lib::group_to_multiset_ensures;
    if s.len() > 0 {
        let r = stable_sorted(by, s.drop_last());
        lemma_stable_sorted_is_permutation(by, s.drop_last());
        lemma_stable_sorted_is_sorted(by, s.drop_last());
        lemma_insert_pos(by, r, s.last(), 0);
        assert(s =~= s.drop_last().push(s.last()));
    }
}

proof fn lemma_insert_pos_at_end(by: SortBy, r: Seq<Save>, x: Save, i: int)
    requires
        0 <= i <= r.len(),
        forall|k: int| 0 <= k < r.len() ==> save_key_le(by, #[trigger] r[k], x),
    ensures
        insert_pos(by, r, x, i) == r.len(),
    decreases r.len() - i,
{
    if i < r.len() {
        lemma_insert_pos_at_end(by, r, x, i + 1);
    }
}

/// Sorting a list that is already sorted leaves it as it is.
pub proof fn lemma_sorting_sorted_is_identity(by: SortBy, s: Seq<Save>)
    requires
        sorted_by(by, s),
    ensures
        stable_sorted(by, s) == s,
    decreases s.len(),
{
    if s.len() > 0 {
        let init = s.drop_last();
        assert(sorted_by(by, init));
        lemma_sorting_sorted_is_identity(by, init);
        assert forall|k: int| 0 <= k < init.len() implies save_key_le(by, #[trigger] init[k], s.last()) by {
            assert(init[k] == s[k]);
        }
        lemma_insert_pos_at_end(by, init, s.last(), 0);
        assert(init.insert(init.len() as int, s.last()) =~= s);
    }
}

/// `a` and `b` have equal sort keys.
pub open spec fn same_key(by: SortBy, a: Save, b: Save) -> bool {
    save_key_le(by, a, b) && save_key_le(by, b, a)
}

/// The saves of `s` whose key equals that of `c`, in their order.
pub open spec fn key_class(by: SortBy, s: Seq<Save>, c: Save) -> Seq<Save>
    decreases s.len(),
{
    if s.len() == 0 {
        Seq::empty()
    } else {
        let rest = key_class(by, s.drop_last(), c);
        if same_key(by, s.last(), c) {
            rest.push(s.last())
        } else {
            rest
        }
    }
}

proof fn lemma_key_class_concat(by: SortBy, a: Seq<Save>, b: Seq<Save>, c: Save)
    ensures
        key_class(by, a + b, c) == key_class(by, a, c) + key_class(by, b, c),
    decreases b.len(),
{
    if b.len() == 0 {
        assert(a + b =~= a);
        assert(key_class(by, a, c) + key_class(by, b, c) =~= key_class(by, a, c));
    } else {
        lemma_key_class_concat(by, a, b.drop_last(), c);
        assert((a + b).drop_last() =~= a + b.drop_last());
        assert((a + b).last() == b.last());
        if same_key(by, b.last(), c) {
            assert(key_class(by, a, c) + key_class(by, b.drop_last(), c).push(b.last()) =~= (key_class(by, a, c) + key_class(by, b.drop_last(), c)).push(b.last()));
        }
    }
}

proof fn lemma_key_class_empty(by: SortBy, s: Seq<Save>, c: Save)
    requires
        forall|k: int| 0 <= k < s.len() ==> !same_key(by, #[trigger] s[k], c),
    ensures
        key_class(by, s, c) == Seq::<Save>::empty(),
    decreases s.len(),
{
    if s.len() > 0 {
        assert(!same_key(by, s[s.len() - 1], c));
        lemma_key_class_empty(by, s.drop_last(), c);
    }
}

/// Sorting is stable: the saves with any given key come out in the order they went in.
pub proof fn lemma_stable_sorted_is_stable(by: SortBy, s: Seq<Save>, c: Save)
    ensures
        key_class(by, stable_sorted(by, s), c) == key_class(by, s, c),
    decreases s.len(),
{
    if s.len() > 0 {
        let init = s.drop_last();
        let x = s.last();
        let r = stable_sorted(by, init);
        lemma_stable_sorted_is_stable(by, init, c);
        lemma_stable_sorted_is_sorted(by, init);
        lemma_insert_pos(by, r, x, 0);
        let p = insert_pos(by, r, x, 0);
        let w = r.insert(p, x);
        let head = r.take(p);
        let tail = r.skip(p);
        assert(w =~= head + seq![x] + tail);
        assert(r =~= head + tail);
        lemma_key_class_concat(by, head + seq![x], tail, c);
        lemma_key_class_concat(by, head, seq![x], c);
        lemma_key_class_concat(by, head, tail, c);
        assert(seq![x].drop_last() =~= Seq::<Save>::empty());
        assert(key_class(by, Seq::<Save>::empty(), c) == Seq::<Save>::empty());
        assert(seq![x].last() == x);
        let single = key_class(by, seq![x], c);
        assert(single == (if same_key(by, x, c) { Seq::<Save>::empty().push(x) } else { Seq::<Save>::empty() }));
        assert(key_class(by, w, c) == key_class(by, head, c) + single + key_class(by, tail, c));
        if same_key(by, x, c) {
            assert forall|k: int| 0 <= k < tail.len() implies !same_key(by, #[trigger] tail[k], c) by {
                assert(tail[k] == r[p + k]);
                assert(!save_key_le(by, r[p], x));
                if k > 0 {
                    assert(save_key_le(by, r[p], r[p + k]));
                    if save_key_le(by, r[p + k], x) {
                        lemma_save_key_total_preorder(by, r[p], r[p + k], x);
                    }
                }
                if same_key(by, tail[k], c) {
                    lemma_save_key_total_preorder(by, tail[k], c, x);
                }
            }
            lemma_key_class_empty(by, tail, c);
            assert(key_class(by, w, c) =~= key_class(by, head, c).push(x));
            assert(key_class(by, r, c) =~= key_class(by, head, c));
        } else {
            assert(key_class(by, w, c) =~= key_class(by, r, c));
        }
    }
}

/// The saves whose lowercase name is `t`.
pub open spec fn named_lower(t: Seq<char>) -> spec_fn(Save) -> bool {
    |x: Save| lowercase(x.name@) == t
}

/// The saves of game `g`.
pub open spec fn of_game(g: Game) -> spec_fn(Save) -> bool {
    |x: Save| x.game == g
}

/// The saves last updated at `t` (`None`: never).
pub open spec fn updated_at(t: Option<i32>) -> spec_fn(Save) -> bool {
    |x: Save| x.most_recent_version == t
}

/// Every save of the list is ordered as the sort `by` asks, stated on the sort key itself:
/// the whole lowercase name, the game's display name, or the time of the newest version
/// (never updated first), ascending or descending.
pub open spec fn ordered_by_key(by: SortBy, r: Seq<Save>) -> bool {
    forall|i: int, j: int| 0 <= i < j < r.len() ==> match by {
        SortBy::NameAsc => lex_order(lowercase(#[trigger] r[i].name@), lowercase(#[trigger] r[j].name@)) <= 0,
        SortBy::NameDesc => lex_order(lowercase(r[j].name@), lowercase(r[i].name@)) <= 0,
        SortBy::GameAsc => lex_order(game_display_name(r[i].game), game_display_name(r[j].game)) <= 0,
        SortBy::GameDesc => lex_order(game_display_name(r[j].game), game_display_name(r[i].game)) <= 0,
        SortBy::LastUpdatedAsc => r[i].most_recent_version is None || (r[j].most_recent_version is Some
            && r[i].most_recent_version->0 <= r[j].most_recent_version->0),
        SortBy::LastUpdatedDesc => r[j].most_recent_version is None || (r[i].most_recent_version is Some
            && r[j].most_recent_version->0 <= r[i].most_recent_version->0),
    }
}

/// A sorted list is ordered by the whole sort key.
pub proof fn lemma_sorted_is_ordered_by_key(by: SortBy, r: Seq<Save>)
    requires
        sorted_by(by, r),
    ensures
        ordered_by_key(by, r),
{
    assert forall|i: int, j: int| 0 <= i < j < r.len() implies save_key_le(by, #[trigger] r[i], #[trigger] r[j]) by {}
}

proof fn lemma_filter_none(s: Seq<Save>, p: spec_fn(Save) -> bool)
    requires
        forall|k: int| 0 <= k < s.len() ==> !p(#[trigger] s[k]),
    ensures
        s.filter(p) == Seq::<Save>::empty(),
    decreases s.len(),
{
    reveal_with_fuel(Seq::filter, 1);
    if s.len() > 0 {
        assert(!p(s[s.len() - 1]));
        lemma_filter_none(s.drop_last(), p);
    }
}

proof fn lemma_key_class_is_filter(by: SortBy, s: Seq<Save>, c: Save)
    ensures
        key_class(by, s, c) == s.filter(|x: Save| same_key(by, x, c)),
    decreases s.len(),
{
    reveal_with_fuel(Seq::filter, 1);
    if s.len() > 0 {
        lemma_key_class_is_filter(by, s.drop_last(), c);
    }
}

/// Sorting keeps the saves of any one key class in their order: for a predicate `p` that
/// picks out exactly the saves with one sort key, the saves it picks come out of the sort
/// in the order they went in.
pub proof fn lemma_sort_keeps_class(by: SortBy, s: Seq<Save>, p: spec_fn(Save) -> bool)
    requires
        forall|x: Save, y: Save| #![trigger p(x), p(y)] p(x) ==> (p(y) <==> same_key(by, x, y)),
    ensures
        stable_sorted(by, s).filter(p) == s.filter(p),
{
    broadcast use vstd::seq_lib::group_to_multiset_ensures;
    let r = stable_sorted(by, s);
    lemma_stable_sorted_is_permutation(by, s);
    if exists|k: int| 0 <= k < s.len() && p(#[trigger] s[k]) {
        let k = choose|k: int| 0 <= k < s.len() && p(#[trigger] s[k]);
        let c = s[k];
        let q = |x: Save| same_key(by, x, c);
        assert forall|x: Save| #[trigger] p(x) == q(x) by {
            assert(p(c));
            if p(x) {
                assert(same_key(by, c, x));
            } else {
                assert(!same_key(by, c, x));
            }
        }
        assert(p =~= q);
        lemma_key_class_is_filter(by, r, c);
        lemma_key_class_is_filter(by, s, c);
        lemma_stable_sorted_is_stable(by, s, c);
    } else {
        lemma_filter_none(s, p);
        assert forall|k: int| 0 <= k < r.len() implies !p(#[trigger] r[k]) by {
            assert(r.contains(r[k]));
            assert(r.to_multiset().count(r[k]) > 0);
            assert(s.to_multiset().count(r[k]) > 0);
            assert(s.contains(r[k]));
            let m = choose|m: int| 0 <= m < s.len() && s[m] == r[k];
            assert(!p(s[m]));
        }
        lemma_filter_none(r, p);
    }
}

/// Sorting is stable on the key itself: saves with the same lowercase name (for the name
/// orders), the same game (game orders) or the same last update (time orders) come out in
/// the order they went in.
pub proof fn lemma_sort_stable_by_key(by: SortBy, s: Seq<Save>)
    ensures
        by == SortBy::NameAsc || by == SortBy::NameDesc ==> forall|t: Seq<char>|
            #[trigger] stable_sorted(by, s).filter(named_lower(t)) == s.filter(named_lower(t)),
        by == SortBy::GameAsc || by == SortBy::GameDesc ==> forall|g: Game|
            #[trigger] stable_sorted(by, s).filter(of_game(g)) == s.filter(of_game(g)),
        by == SortBy::LastUpdatedAsc || by == SortBy::LastUpdatedDesc ==> forall|t: Option<i32>|
            #[trigger] stable_sorted(by, s).filter(updated_at(t)) == s.filter(updated_at(t)),
{
    if by == SortBy::NameAsc || by == SortBy::NameDesc {
        assert forall|t: Seq<char>| #[trigger] stable_sorted(by, s).filter(named_lower(t)) == s.filter(named_lower(t)) by {
            let p = named_lower(t);
            assert forall|x: Save, y: Save| #![trigger p(x), p(y)] p(x) implies (p(y) <==> same_key(by, x, y)) by {
                lemma_lex_order_antisym(lowercase(x.name@), lowercase(y.name@));
            }
            lemma_sort_keeps_class(by, s, p);
        }
    } else if by == SortBy::GameAsc || by == SortBy::GameDesc {
        assert forall|g: Game| #[trigger] stable_sorted(by, s).filter(of_game(g)) == s.filter(of_game(g)) by {
            let p = of_game(g);
            assert forall|x: Save, y: Save| #![trigger p(x), p(y)] p(x) implies (p(y) <==> same_key(by, x, y)) by {
                lemma_lex_order_antisym(game_display_name(x.game), game_display_name(y.game));
                reveal_strlit("Into the Radius 2");
                reveal_strlit("Satisfactory");
                if x.game != y.game {
                    assert(game_display_name(x.game) != game_display_name(y.game)) by {
                        assert(game_display_name(x.game)[0] != game_display_name(y.game)[0]);
                    }
                }
            }
            lemma_sort_keeps_class(by, s, p);
        }
    } else {
        assert forall|t: Option<i32>| #[trigger] stable_sorted(by, s).filter(updated_at(t)) == s.filter(updated_at(t)) by {
            let p = updated_at(t);
            assert forall|x: Save, y: Save| #![trigger p(x), p(y)] p(x) implies (p(y) <==> same_key(by, x, y)) by {}
            lemma_sort_keeps_class(by, s, p);
        }
    }
}

/// Sorts the saves by `by`, keeping saves with equal keys in their order
/// (`sort_by_key`, which is stable).
pub fn sort_saves(saves: Vec<Save>, by: SortBy) -> (r: Vec<Save>)
    ensures
        r@ == stable_sorted(by, saves@),
        sorted_by(by, r@),
        r@.to_multiset() == saves@.to_multiset(),
        forall|c: Save| #[trigger] key_class(by, r@, c) == key_class(by, saves@, c),
        ordered_by_key(by, r@),
        by == SortBy::NameAsc || by == SortBy::NameDesc ==> forall|t: Seq<char>|
            #[trigger] r@.filter(named_lower(t)) == saves@.filter(named_lower(t)),
        by == SortBy::GameAsc || by == SortBy::GameDesc ==> forall|g: Game|
            #[trigger] r@.filter(of_game(g)) == saves@.filter(of_game(g)),
        by == SortBy::LastUpdatedAsc || by == SortBy::LastUpdatedDesc ==> forall|t: Option<i32>|
            #[trigger] r@.filter(updated_at(t)) == saves@.filter(updated_at(t)),
{
    proof {
        lemma_stable_sorted_is_sorted(by, saves@);
        lemma_sorted_is_ordered_by_key(by, stable_sorted(by, saves@));
        lemma_sort_stable_by_key(by, saves@);
    }
    let ghost orig = saves@;
    let mut rest = saves;
    let n = rest.len();
    let mut out: Vec<Save> = Vec::new();
    let mut done: usize = 0;
    while rest.len() > 0
        invariant
            n == orig.len(),
            done + rest@.len() == n,
            rest@ == orig.skip(done as int),
            out@ == stable_sorted(by, orig.take(done as int)),
        decreases rest.len(),
    {
        let x = rest.remove(0);
        proof {
            assert(orig.take(done + 1).drop_last() =~= orig.take(done as int));
            assert(orig.take(done + 1).last() == orig[done as int]);
            assert(rest@ =~= orig.skip(done + 1));
        }
        let mut p: usize = 0;
        while p < out.len() && save_key_le_exec(by, &out[p], &x)
            invariant
                p <= out@.len(),
                insert_pos(by, out@, x, 0) == insert_pos(by, out@, x, p as int),
            decreases out.len() - p,
        {
            p = p + 1;
        }
        assert(insert_pos(by, out@, x, p as int) == p);
        out.insert(p, x);
        done = done + 1;
    }
    assert(orig.take(n as int) =~= orig);
    proof {
        lemma_stable_sorted_is_sorted(by, orig);
        lemma_stable_sorted_is_permutation(by, orig);
        assert forall|c: Save| #[trigger] key_class(by, out@, c) == key_class(by, orig, c) by {
            lemma_stable_sorted_is_stable(by, orig, c);
        }
    }
    out
}

/// The save matches the (lowercased) filter text: by its lowercased name or its
/// lowercased game name.
pub open spec fn save_matches(s: Save, filter_lower: Seq<char>) -> bool {
    has_substring(lowercase(s.name@), filter_lower)
        || has_substring(lowercase(game_display_name(s.game)), filter_lower)
}

/// The saves that match the filter, in their order.
pub open spec fn matching_saves(s: Seq<Save>, filter_lower: Seq<char>) -> Seq<Save>
    decreases s.len(),
{
    if s.len() == 0 {
        Seq::empty()
    } else {
        let rest = matching_saves(s.drop_last(), filter_lower);
        if save_matches(s.last(), filter_lower) {
            rest.push(s.last())
        } else {
            rest
        }
    }
}

/// Whether a save matches the filter text typed into the save list.
pub fn save_matches_exec(s: &Save, filter_lower: &str) -> (r: bool)
    ensures
        r == save_matches(*s, filter_lower@),
        r == (has_substring(lowercase(s.name@), filter_lower@)
            || has_substring(lowercase(game_display_name(s.game)), filter_lower@)),
{
    let name = to_lowercase(s.name.as_str());
    if contains_str(name.as_str(), filter_lower) {
        return true;
    }
    let game = s.game.to_string();
    let game_lower = to_lowercase(game.as_str());
    contains_str(game_lower.as_str(), filter_lower)
}

/// The saves whose name or game contains the filter text, ignoring case; in their order.
pub fn filter_saves(saves: Vec<Save>, filter: &str) -> (r: Vec<Save>)
    ensures
        r@ == matching_saves(saves@, lowercase(filter@)),
        r@ == saves@.filter(|s: Save| has_substring(lowercase(s.name@), lowercase(filter@))
            || has_substring(lowercase(game_display_name(s.game)), lowercase(filter@))),
        filter@.len() == 0 ==> r@ == saves@,
{
    proof {
        lemma_matching_saves_is_filter(saves@, lowercase(filter@));
    }
    let filter_lower = to_lowercase(filter);
    proof {
        if filter@.len() == 0 {
            assert(filter_lower@ =~= Seq::<char>::empty());
            lemma_empty_filter_matches_all(saves@);
        }
    }
    let ghost orig = saves@;
    let mut rest = saves;
    let n = rest.len();
    let mut out: Vec<Save> = Vec::new();
    let mut done: usize = 0;
    while rest.len() > 0
        invariant
            n == orig.len(),
            done + rest@.len() == n,
            rest@ == orig.skip(done as int),
            filter_lower@ == lowercase(filter@),
            out@ == matching_saves(orig.take(done as int), filter_lower@),
        decreases rest.len(),
    {
        let x = rest.remove(0);
        proof {
            assert(orig.take(done + 1).drop_last() =~= orig.take(done as int));
            assert(orig.take(done + 1).last() == orig[done as int]);
            assert(rest@ =~= orig.skip(done + 1));
        }
        if save_matches_exec(&x, filter_lower.as_str()) {
            out.push(x);
        }
        done = done + 1;
    }
    assert(orig.take(n as int) =~= orig);
    out
}

/// The filter keeps exactly the saves whose lowercase name, or lowercase game name,
/// holds the lowercase filter text somewhere, in the order they had.
pub proof fn lemma_matching_saves_is_filter(s: Seq<Save>, f: Seq<char>)
    ensures
        matching_saves(s, f) == s.filter(|x: Save| has_substring(lowercase(x.name@), f)
            || has_substring(lowercase(game_display_name(x.game)), f)),
    decreases s.len(),
{
    reveal_with_fuel(Seq::filter, 1);
    if s.len() > 0 {
        lemma_matching_saves_is_filter(s.drop_last(), f);
    }
}

/// An empty filter text matches every save, so the list stays as it is.
pub proof fn lemma_empty_filter_matches_all(s: Seq<Save>)
    ensures
        matching_saves(s, Seq::<char>::empty()) == s,
    decreases s.len(),
{
    if s.len() > 0 {
        lemma_empty_filter_matches_all(s.drop_last());
        let name = lowercase(s.last().name@);
        assert(name.subrange(0, 0) =~= Seq::<char>::empty());
        assert(occurs_at(name, Seq::<char>::empty(), 0));
        assert(s.drop_last().push(s.last()) =~= s);
    }
}

/// Filtering keeps exactly the matching saves: everything kept matches and comes from
/// the list, and every matching save of the list is kept.
pub proof fn lemma_matching_saves(s: Seq<Save>, f: Seq<char>)
    ensures
        forall|i: int| 0 <= i < matching_saves(s, f).len() ==> save_matches(#[trigger] matching_saves(s, f)[i], f),
        forall|i: int| 0 <= i < matching_saves(s, f).len() ==> s.contains(#[trigger] matching_saves(s, f)[i]),
        forall|i: int| 0 <= i < s.len() && save_matches(#[trigger] s[i], f) ==> matching_saves(s, f).contains(s[i]),
        matching_saves(s, f).len() <= s.len(),
    decreases s.len(),
{
    if s.len() > 0 {
        let init = s.drop_last();
        lemma_matching_saves(init, f);
        let r = matching_saves(init, f);
        assert forall|i: int| 0 <= i < matching_saves(s, f).len() implies s.contains(#[trigger] matching_saves(s, f)[i]) by {
            if i < r.len() {
                let x = r[i];
                assert(init.contains(x));
                let k = choose|k: int| 0 <= k < init.len() && init[k] == x;
                assert(s[k] == x);
            } else {
                assert(s[s.len() - 1] == s.last());
            }
        }
        assert forall|i: int| 0 <= i < s.len() && save_matches(#[trigger] s[i], f) implies matching_saves(s, f).contains(s[i]) by {
            if i < s.len() - 1 {
                assert(init[i] == s[i]);
                assert(r.contains(s[i]));
                let k = choose|k: int| 0 <= k < r.len() && r[k] == s[i];
                assert(matching_saves(s, f)[k] == s[i]);
            } else {
                assert(matching_saves(s, f)[r.len() as int] == s[i]);
            }
        }
    }
}

/// The save list as the UI shows it: the matching saves, sorted.
pub fn visible_saves(saves: Vec<Save>, filter: &str, by: SortBy) -> (r: Vec<Save>)
    ensures
        r@ == stable_sorted(by, matching_saves(saves@, lowercase(filter@))),
        sorted_by(by, r@),
        ordered_by_key(by, r@),
        r@.to_multiset() == saves@.filter(|s: Save| has_substring(lowercase(s.name@), lowercase(filter@))
            || has_substring(lowercase(game_display_name(s.game)), lowercase(filter@))).to_multiset(),
{
    let filtered = filter_saves(saves, filter);
    sort_saves(filtered, by)
}

} // verus!
