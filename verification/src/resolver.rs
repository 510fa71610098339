//! Status resolution: for each item of a source, decide from the declared
//! enabled state, the cross-source collision map, and the observed state of
//! the target slot whether the item is active, inactive, broken or in
//! conflict.

use vstd::prelude::*;

use crate::models::{
    effective_target, has_enabled, AppConfig, Item, ItemStatus, Profile, ProfileView, SourceView,
};

verus! {

/// What inspection of a target slot (`target_dir/item_name`) observed.
#[derive(Clone, Debug, PartialEq)]
pub enum SlotState {
    /// Nothing exists under that name.
    Empty,
    /// A symbolic link exists; `resolved` is the canonical path its
    /// destination resolves to, or `None` when the destination is missing.
    SymlinkTo { resolved: Option<String> },
    /// A plain file or directory (not a symlink) occupies the name.
    Occupied,
}

/// Mathematical image of a [`SlotState`].
#[verifier::ext_equal]
pub ghost enum SlotView {
    Empty,
    SymlinkTo(Option<Seq<char>>),
    Occupied,
}

impl View for SlotState {
    type V = SlotView;

    open spec fn view(&self) -> SlotView {
        match self {
            SlotState::Empty => SlotView::Empty,
            SlotState::SymlinkTo { resolved } => SlotView::SymlinkTo(resolved.deep_view()),
            SlotState::Occupied => SlotView::Occupied,
        }
    }
}

/// A slot observation for one item: the slot's state and the canonical form
/// of the expected link destination (`source_dir/item_name`), when it has
/// one.
#[derive(Clone, Debug, PartialEq)]
pub struct SlotObservation {
    pub slot: SlotState,
    pub expected: Option<String>,
}

/// The status an item earns from its declared state, its collision map
/// entry, and the observed slot. A collision from another enabled source
/// wins over every other determination; then a symlink is judged by whether
/// it resolves to the expected destination; a foreign file or directory is a
/// conflict; an empty slot is inactive.
pub open spec fn slot_status(
    enabled: bool,
    collision: Option<Seq<char>>,
    slot: SlotView,
    expected: Option<Seq<char>>,
) -> ItemStatus {
    if collision is Some {
        ItemStatus::Conflict
    } else {
        match slot {
            SlotView::SymlinkTo(resolved) => match resolved {
                None => ItemStatus::Broken,
                Some(link) => if expected is Some && link == expected->0 {
                    ItemStatus::Active
                } else if !enabled {
                    ItemStatus::Conflict
                } else {
                    ItemStatus::Broken
                },
            },
            SlotView::Occupied => ItemStatus::Conflict,
            SlotView::Empty => ItemStatus::Inactive,
        }
    }
}

/// The conflicting-source label that accompanies [`slot_status`]: the other
/// source's name for a collision, a fixed marker for a foreign symlink or an
/// existing file or folder, nothing otherwise.
pub open spec fn slot_conflict_label(
    enabled: bool,
    collision: Option<Seq<char>>,
    slot: SlotView,
    expected: Option<Seq<char>>,
) -> Option<Seq<char>> {
    if collision is Some {
        collision
    } else {
        match slot {
            SlotView::SymlinkTo(resolved) => match resolved {
                None => None,
                Some(link) => if expected is Some && link == expected->0 {
                    None
                } else if !enabled {
                    Some("External"@)
                } else {
                    None
                },
            },
            SlotView::Occupied => Some("Existing file/folder"@),
            SlotView::Empty => None,
        }
    }
}

/// The collision map entry for `name`: the display name of the latest other
/// source (any but `self_id`) projecting into the same target directory that
/// declares `name` enabled.
pub open spec fn collision_in(
    sources: Seq<SourceView>,
    base: Seq<char>,
    self_id: Seq<char>,
    target: Seq<char>,
    name: Seq<char>,
) -> Option<Seq<char>>
    decreases sources.len(),
{
    if sources.len() == 0 {
        None
    } else {
        let s = sources.last();
        if s.id != self_id && effective_target(s, base) == target && s.enabled_items.contains(
            name,
        ) {
            Some(s.name)
        } else {
            collision_in(sources.drop_last(), base, self_id, target, name)
        }
    }
}

/// Whether `name` occurs in `names`.
pub fn contains_name(names: &Vec<String>, name: &str) -> (r: bool)
    ensures
        r == names.deep_view().contains(name@),
{
    let mut i: usize = 0;
    while i < names.len()
        invariant
            0 <= i <= names@.len(),
            forall|j: int| 0 <= j < i ==> names.deep_view()[j] != name@,
        decreases names@.len() - i,
    {
        if crate::text::str_eq(names[i].as_str(), name) {
            proof {
                assert(names.deep_view()[i as int] == name@);
            }
            return true;
        }
        i = i + 1;
    }
    proof {
        assert forall|j: int| 0 <= j < names.deep_view().len() implies names.deep_view()[j]
            != name@ by {}
    }
    false
}

/// Looks up the collision map entry for `name` among the other sources of
/// `profile` sharing the target directory `target`.
pub fn find_collision(profile: &Profile, self_id: &str, target: &str, name: &str) -> (r: Option<
    String,
>)
    ensures
        r.deep_view() == collision_in(profile@.sources, profile@.base_path, self_id@, target@, name@),
{
    let ghost sources = profile@.sources;
    let mut i: usize = profile.sources.len();
    proof {
        assert(sources.take(i as int) =~= sources);
    }
    while i > 0
        invariant
            0 <= i <= profile.sources@.len(),
            sources == profile@.sources,
            collision_in(sources, profile@.base_path, self_id@, target@, name@) == collision_in(
                sources.take(i as int),
                profile@.base_path,
                self_id@,
                target@,
                name@,
            ),
        decreases i,
    {
        let j: usize = i - 1;
        let s = &profile.sources[j];
        proof {
            assert(sources.take(i as int).last() == sources[j as int]);
            assert(sources.take(i as int).drop_last() =~= sources.take(j as int));
        }
        let other_target = s.get_target_path(profile.base_path.as_str());
        if !crate::text::str_eq(s.id.as_str(), self_id) && crate::text::str_eq(
            other_target,
            target,
        ) && contains_name(&s.enabled_items, name) {
            return Some(s.name.clone());
        }
        i = j;
    }
    proof {
        assert(sources.take(0) =~= Seq::<SourceView>::empty());
    }
    None
}

/// Resolves one item against its collision map entry and slot observation.
pub fn resolve_slot(
    name: String,
    is_directory: bool,
    source_path: String,
    enabled: bool,
    collision: Option<String>,
    slot: &SlotState,
    expected: &Option<String>,
) -> (it: Item)
    ensures
        it.name == name,
        it.is_directory == is_directory,
        it.source_path == source_path,
        it.enabled == enabled,
        it.status == slot_status(enabled, collision.deep_view(), slot@, expected.deep_view()),
        it.conflict_source.deep_view() == slot_conflict_label(
            enabled,
            collision.deep_view(),
            slot@,
            expected.deep_view(),
        ),
{
    let (status, conflict_source): (ItemStatus, Option<String>) = match collision {
        Some(other) => (ItemStatus::Conflict, Some(other)),
        None => match slot {
            SlotState::SymlinkTo { resolved } => match resolved {
                None => (ItemStatus::Broken, None),
                Some(link) => {
                    let matches_expected = match expected {
                        Some(exp) => crate::text::str_eq(link.as_str(), exp.as_str()),
                        None => false,
                    };
                    if matches_expected {
                        (ItemStatus::Active, None)
                    } else if !enabled {
                        (ItemStatus::Conflict, Some(String::from_str("External")))
                    } else {
                        (ItemStatus::Broken, None)
                    }
                },
            },
            SlotState::Occupied => (
                ItemStatus::Conflict,
                Some(String::from_str("Existing file/folder")),
            ),
            SlotState::Empty => (ItemStatus::Inactive, None),
        },
    };
    Item { name, is_directory, source_path, status, enabled, conflict_source }
}

/// Whether the item named `name` of source `si` is declared enabled.
pub open spec fn verdict_enabled(p: ProfileView, si: int, name: Seq<char>) -> bool {
    has_enabled(p.sources[si], name)
}

/// The status the item named `name` of source `si` earns under slot
/// observation (`slot`, `expected`).
pub open spec fn verdict_status(
    p: ProfileView,
    si: int,
    name: Seq<char>,
    slot: SlotView,
    expected: Option<Seq<char>>,
) -> ItemStatus {
    let s = p.sources[si];
    let t = effective_target(s, p.base_path);
    slot_status(
        has_enabled(s, name),
        collision_in(p.sources, p.base_path, s.id, t, name),
        slot,
        expected,
    )
}

/// The conflicting-source label that accompanies [`verdict_status`].
pub open spec fn verdict_label(
    p: ProfileView,
    si: int,
    name: Seq<char>,
    slot: SlotView,
    expected: Option<Seq<char>>,
) -> Option<Seq<char>> {
    let s = p.sources[si];
    let t = effective_target(s, p.base_path);
    slot_conflict_label(
        has_enabled(s, name),
        collision_in(p.sources, p.base_path, s.id, t, name),
        slot,
        expected,
    )
}

/// Resolves the status of every candidate item of source `source_index`
/// within `profile`, given one slot observation per item.
pub fn resolve_items(
    profile: &Profile,
    source_index: usize,
    items: Vec<Item>,
    observations: &Vec<SlotObservation>,
) -> (r: Vec<Item>)
    requires
        source_index < profile.sources@.len(),
        items@.len() == observations@.len(),
    ensures
        r@.len() == items@.len(),
        forall|i: int|
            0 <= i < r@.len() ==> {
                &&& r@[i].name == items@[i].name
                &&& r@[i].is_directory == items@[i].is_directory
                &&& r@[i].source_path == items@[i].source_path
                &&& r@[i].enabled == verdict_enabled(profile@, source_index as int, items@[i].name@)
                &&& r@[i].status == verdict_status(
                    profile@,
                    source_index as int,
                    items@[i].name@,
                    observations@[i].slot@,
                    observations@[i].expected.deep_view(),
                )
                &&& r@[i].conflict_source.deep_view() == verdict_label(
                    profile@,
                    source_index as int,
                    items@[i].name@,
                    observations@[i].slot@,
                    observations@[i].expected.deep_view(),
                )
            },
{
    let mut out: Vec<Item> = Vec::new();
    let mut i: usize = 0;
    while i < items.len()
        invariant
            0 <= i <= items@.len(),
            items@.len() == observations@.len(),
            source_index < profile.sources@.len(),
            out@.len() == i,
            forall|k: int|
                0 <= k < i ==> {
                    &&& out@[k].name == items@[k].name
                    &&& out@[k].is_directory == items@[k].is_directory
                    &&& out@[k].source_path == items@[k].source_path
                    &&& out@[k].enabled == verdict_enabled(
                        profile@,
                        source_index as int,
                        items@[k].name@,
                    )
                    &&& out@[k].status == verdict_status(
                        profile@,
                        source_index as int,
                        items@[k].name@,
                        observations@[k].slot@,
                        observations@[k].expected.deep_view(),
                    )
                    &&& out@[k].conflict_source.deep_view() == verdict_label(
                        profile@,
                        source_index as int,
                        items@[k].name@,
                        observations@[k].slot@,
                        observations@[k].expected.deep_view(),
                    )
                },
        decreases items@.len() - i,
    {
        let it = &items[i];
        let source = &profile.sources[source_index];
        let enabled = contains_name(&source.enabled_items, it.name.as_str());
        let target = source.get_target_path(profile.base_path.as_str());
        let collision = find_collision(profile, source.id.as_str(), target, it.name.as_str());
        let ob = &observations[i];
        let resolved = resolve_slot(
            it.name.clone(),
            it.is_directory,
            it.source_path.clone(),
            enabled,
            collision,
            &ob.slot,
            &ob.expected,
        );
        out.push(resolved);
        i = i + 1;
    }
    out
}

/// Status resolution is a pure function of the profile, the source, the item
/// name, and the observed filesystem state: equal inputs yield equal
/// verdicts, so querying twice without intervening change repeats the same
/// result.
pub proof fn lemma_resolution_pure(
    p1: ProfileView,
    p2: ProfileView,
    si1: int,
    si2: int,
    name1: Seq<char>,
    name2: Seq<char>,
    slot1: SlotView,
    slot2: SlotView,
    exp1: Option<Seq<char>>,
    exp2: Option<Seq<char>>,
)
    requires
        p1 == p2,
        si1 == si2,
        name1 == name2,
        slot1 == slot2,
        exp1 == exp2,
    ensures
        verdict_enabled(p1, si1, name1) == verdict_enabled(p2, si2, name2),
        verdict_status(p1, si1, name1, slot1, exp1) == verdict_status(p2, si2, name2, slot2, exp2),
        verdict_label(p1, si1, name1, slot1, exp1) == verdict_label(p2, si2, name2, slot2, exp2),
{
}

/// Two configurations with equal mathematical views resolve every item
/// identically: reloading a faithfully persisted configuration cannot change
/// any status, given an unchanged filesystem.
pub proof fn lemma_reload_preserves_verdicts(
    c1: AppConfig,
    c2: AppConfig,
    pi: int,
    si: int,
    name: Seq<char>,
    slot: SlotView,
    expected: Option<Seq<char>>,
)
    requires
        c1@ == c2@,
        0 <= pi < c1@.profiles.len(),
    ensures
        c1@.profiles[pi].sources[si].enabled_items == c2@.profiles[pi].sources[si].enabled_items,
        verdict_status(c1@.profiles[pi], si, name, slot, expected) == verdict_status(
            c2@.profiles[pi],
            si,
            name,
            slot,
            expected,
        ),
        verdict_label(c1@.profiles[pi], si, name, slot, expected) == verdict_label(
            c2@.profiles[pi],
            si,
            name,
            slot,
            expected,
        ),
{
}

/// If `sources[k]` is an other source sharing the target and declaring the
/// name enabled, the collision map has an entry for the name.
proof fn lemma_collision_found(
    sources: Seq<SourceView>,
    base: Seq<char>,
    self_id: Seq<char>,
    target: Seq<char>,
    name: Seq<char>,
    k: int,
)
    requires
        0 <= k < sources.len(),
        sources[k].id != self_id,
        effective_target(sources[k], base) == target,
        sources[k].enabled_items.contains(name),
    ensures
        collision_in(sources, base, self_id, target, name) is Some,
    decreases sources.len(),
{
    let s = sources.last();
    if !(s.id != self_id && effective_target(s, base) == target && s.enabled_items.contains(
        name,
    )) {
        assert(k < sources.len() - 1);
        assert(sources.drop_last()[k] == sources[k]);
        lemma_collision_found(sources.drop_last(), base, self_id, target, name, k);
    }
}

/// If `sources[j]` is the only other source sharing the target and declaring
/// the name enabled, the collision entry names exactly that source.
proof fn lemma_collision_named(
    sources: Seq<SourceView>,
    base: Seq<char>,
    self_id: Seq<char>,
    target: Seq<char>,
    name: Seq<char>,
    j: int,
)
    requires
        0 <= j < sources.len(),
        sources[j].id != self_id,
        effective_target(sources[j], base) == target,
        sources[j].enabled_items.contains(name),
        forall|k: int|
            0 <= k < sources.len() && k != j ==> !(sources[k].id != self_id && effective_target(
                sources[k],
                base,
            ) == target && sources[k].enabled_items.contains(name)),
    ensures
        collision_in(sources, base, self_id, target, name) == Some(sources[j].name),
    decreases sources.len(),
{
    let s = sources.last();
    if s.id != self_id && effective_target(s, base) == target && s.enabled_items.contains(name) {
        assert(j == sources.len() - 1);
    } else {
        assert(j < sources.len() - 1);
        assert(forall|k: int|
            0 <= k < sources.drop_last().len() && k != j ==> sources.drop_last()[k] == sources[k]);
        assert(sources.drop_last()[j] == sources[j]);
        lemma_collision_named(sources.drop_last(), base, self_id, target, name, j);
    }
}

/// Two distinct sources of one profile, projecting into the same target
/// directory and each the only other claimant of an enabled item name, both
/// resolve that name to `Conflict`, each labelled with the other's display
/// name — whatever the slot itself observes.
pub proof fn lemma_mutual_conflict(
    p: ProfileView,
    i: int,
    j: int,
    name: Seq<char>,
    slot_i: SlotView,
    exp_i: Option<Seq<char>>,
    slot_j: SlotView,
    exp_j: Option<Seq<char>>,
)
    requires
        0 <= i < p.sources.len(),
        0 <= j < p.sources.len(),
        i != j,
        p.sources[i].id != p.sources[j].id,
        effective_target(p.sources[i], p.base_path) == effective_target(
            p.sources[j],
            p.base_path,
        ),
        p.sources[i].enabled_items.contains(name),
        p.sources[j].enabled_items.contains(name),
        forall|k: int|
            0 <= k < p.sources.len() && k != i && k != j ==> !(effective_target(
                p.sources[k],
                p.base_path,
            ) == effective_target(p.sources[i], p.base_path)
                && p.sources[k].enabled_items.contains(name)),
        forall|k: int|
            0 <= k < p.sources.len() && k != i ==> p.sources[k].id != p.sources[i].id,
        forall|k: int|
            0 <= k < p.sources.len() && k != j ==> p.sources[k].id != p.sources[j].id,
    ensures
        verdict_status(p, i, name, slot_i, exp_i) == ItemStatus::Conflict,
        verdict_label(p, i, name, slot_i, exp_i) == Some(p.sources[j].name),
        verdict_status(p, j, name, slot_j, exp_j) == ItemStatus::Conflict,
        verdict_label(p, j, name, slot_j, exp_j) == Some(p.sources[i].name),
{
    let target = effective_target(p.sources[i], p.base_path);
    lemma_collision_named(p.sources, p.base_path, p.sources[i].id, target, name, j);
    lemma_collision_named(p.sources, p.base_path, p.sources[j].id, target, name, i);
}

/// A symlink whose destination has been deleted externally resolves to
/// `Broken` for an enabled item with no cross-source collision.
pub proof fn lemma_dangling_symlink_broken(
    p: ProfileView,
    si: int,
    name: Seq<char>,
    expected: Option<Seq<char>>,
)
    requires
        0 <= si < p.sources.len(),
        has_enabled(p.sources[si], name),
        collision_in(
            p.sources,
            p.base_path,
            p.sources[si].id,
            effective_target(p.sources[si], p.base_path),
            name,
        ) is None,
    ensures
        verdict_status(p, si, name, SlotView::SymlinkTo(None), expected) == ItemStatus::Broken,
{
}

} // verus!
