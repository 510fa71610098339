//! The link toggle engine: declared-state mutation with compensation, and
//! the reported results of the physical symlink step. The physical step
//! itself (creating or removing the link, persisting the configuration) is
//! the caller's; every decision around it is made here.

use vstd::prelude::*;

use crate::models::{has_enabled, AppConfig, AppConfigView, ProfileView, Source, SourceView, SymlinkResult};
use crate::records::{
    find_profile_index, find_source_index, is_first_profile_match, is_first_source_match,
    no_profile_match, no_source_match,
};
use crate::text::{join_path, str_eq};

verus! {

/// `items` with every occurrence of `name` removed.
pub open spec fn without_name(items: Seq<Seq<char>>, name: Seq<char>) -> Seq<Seq<char>> {
    items.filter(|n: Seq<char>| n != name)
}

/// The declared enabled set after a toggle's membership step: enabling adds
/// the name when absent (and never duplicates it), disabling removes it.
pub open spec fn enabled_after(items: Seq<Seq<char>>, name: Seq<char>, enable: bool) -> Seq<
    Seq<char>,
> {
    if enable {
        if items.contains(name) {
            items
        } else {
            items.push(name)
        }
    } else {
        without_name(items, name)
    }
}

/// The declared enabled set after compensating a failed enable: the
/// membership change of [`enabled_after`] is undone.
pub open spec fn reverted(items: Seq<Seq<char>>, name: Seq<char>, was_enabled: bool) -> Seq<
    Seq<char>,
> {
    if was_enabled {
        items
    } else {
        without_name(items, name)
    }
}

/// Removing a name leaves a set that no longer contains it.
pub proof fn lemma_without_name_removes(items: Seq<Seq<char>>, name: Seq<char>)
    ensures
        !without_name(items, name).contains(name),
{
    let pred = |n: Seq<char>| n != name;
    if without_name(items, name).contains(name) {
        let k = choose|k: int|
            0 <= k < items.filter(pred).len() && items.filter(pred)[k] == name;
        items.lemma_filter_pred(pred, k);
    }
}

/// Removing an absent name changes nothing.
pub proof fn lemma_without_name_noop(items: Seq<Seq<char>>, name: Seq<char>)
    requires
        !items.contains(name),
    ensures
        without_name(items, name) == items,
    decreases items.len(),
{
    reveal(Seq::filter);
    let pred = |n: Seq<char>| n != name;
    if items.len() > 0 {
        assert(items.last() != name) by {
            if items.last() == name {
                assert(items[items.len() - 1] == name);
            }
        }
        assert(!items.drop_last().contains(name)) by {
            if items.drop_last().contains(name) {
                let k = choose|k: int|
                    0 <= k < items.drop_last().len() && items.drop_last()[k] == name;
                assert(items[k] == name);
            }
        }
        lemma_without_name_noop(items.drop_last(), name);
        assert(pred(items.last()));
        assert(items.filter(pred) == items.drop_last().filter(pred).push(items.last()));
        assert(items.drop_last().push(items.last()) =~= items);
    } else {
        assert(items.filter(pred) =~= items);
    }
}

/// Membership is what matters of the declared enabled set: a toggle's
/// membership step never lets a name accumulate duplicates.
pub proof fn lemma_membership_no_duplicates(
    items: Seq<Seq<char>>,
    name: Seq<char>,
    enable: bool,
)
    requires
        items.to_multiset().count(name) <= 1,
    ensures
        enabled_after(items, name, enable).to_multiset().count(name) <= 1,
{
    broadcast use vstd::seq_lib::group_to_multiset_ensures;
    broadcast use vstd::multiset::group_multiset_axioms;

    if enable {
        if !items.contains(name) {
            assert(items.push(name).to_multiset() =~= items.to_multiset().insert(name));
        }
    } else {
        lemma_without_name_removes(items, name);
    }
}

/// Enabling an item and then immediately disabling it leaves the declared
/// enabled set without the item, and, once the link is gone and nothing
/// else claims the slot, the item's status is back to `Inactive`.
pub proof fn lemma_enable_then_disable(
    items: Seq<Seq<char>>,
    name: Seq<char>,
    expected: Option<Seq<char>>,
)
    ensures
        !enabled_after(enabled_after(items, name, true), name, false).contains(name),
        crate::resolver::slot_status(
            enabled_after(enabled_after(items, name, true), name, false).contains(name),
            None,
            crate::resolver::SlotView::Empty,
            expected,
        ) == crate::models::ItemStatus::Inactive,
{
    lemma_without_name_removes(enabled_after(items, name, true), name);
}

/// A fully compensated enable (the membership step followed by the revert
/// that a blocked or failed physical step triggers) restores the declared
/// enabled set exactly.
pub proof fn lemma_blocked_enable_restores(items: Seq<Seq<char>>, name: Seq<char>)
    ensures
        reverted(enabled_after(items, name, true), name, items.contains(name)) == items,
{
    reveal(Seq::filter);
    if !items.contains(name) {
        let pushed = items.push(name);
        assert(pushed.drop_last() =~= items);
        lemma_without_name_noop(items, name);
        assert(without_name(pushed, name) =~= items);
    }
}

/// Replaces every occurrence of `name` in `items` by nothing, in place.
pub fn remove_name(items: &mut Vec<String>, name: &str)
    ensures
        final(items).deep_view() == without_name(old(items).deep_view(), name@),
{
    let ghost orig = old(items).deep_view();
    let ghost pred = |n: Seq<char>| n != name@;
    let mut kept: Vec<String> = Vec::new();
    let mut i: usize = 0;
    proof {
        assert(orig.subrange(0, 0) =~= Seq::<Seq<char>>::empty());
        assert(kept.deep_view() =~= orig.subrange(0, 0).filter(pred));
    }
    while i < items.len()
        invariant
            0 <= i <= items@.len(),
            items.deep_view() == orig,
            pred == (|n: Seq<char>| n != name@),
            kept.deep_view() == orig.subrange(0, i as int).filter(pred),
        decreases items@.len() - i,
    {
        proof {
            reveal(Seq::filter);
            assert(orig.subrange(0, i + 1).drop_last() =~= orig.subrange(0, i as int));
            assert(orig.subrange(0, i + 1).last() == orig[i as int]);
            assert(orig[i as int] == items@[i as int]@);
        }
        if !str_eq(items[i].as_str(), name) {
            let ghost pre = kept.deep_view();
            kept.push(items[i].clone());
            proof {
                assert forall|k: int| 0 <= k < kept.deep_view().len() implies kept.deep_view()[k]
                    == pre.push(orig[i as int])[k] by {
                    assert(kept.deep_view()[k] == kept@[k]@);
                }
                assert(kept.deep_view() =~= pre.push(orig[i as int]));
                assert(kept.deep_view() =~= orig.subrange(0, i + 1).filter(pred));
            }
        } else {
            proof {
                assert(kept.deep_view() =~= orig.subrange(0, i + 1).filter(pred));
            }
        }
        i = i + 1;
    }
    proof {
        assert(orig.subrange(0, orig.len() as int) =~= orig);
    }
    *items = kept;
}

/// Applies a toggle's membership step to a source: enabling adds the item
/// name when absent, disabling removes it. Idempotent; reports whether the
/// name was declared enabled before the call.
pub fn set_membership(source: &mut Source, name: &str, enable: bool) -> (was: bool)
    ensures
        was == has_enabled(old(source)@, name@),
        final(source)@.id == old(source)@.id,
        final(source)@.name == old(source)@.name,
        final(source)@.source_path == old(source)@.source_path,
        final(source)@.target_path == old(source)@.target_path,
        final(source)@.enabled_items == enabled_after(old(source)@.enabled_items, name@, enable),
{
    let was = crate::resolver::contains_name(&source.enabled_items, name);
    if enable {
        if !was {
            let ghost pre = source.enabled_items.deep_view();
            source.enabled_items.push(String::from_str(name));
            proof {
                assert forall|k: int|
                    0 <= k < source.enabled_items.deep_view().len() implies source
                    .enabled_items
                    .deep_view()[k] == pre.push(name@)[k] by {
                    assert(source.enabled_items.deep_view()[k] == source.enabled_items@[k]@);
                }
                assert(source.enabled_items.deep_view() =~= pre.push(name@));
            }
        }
    } else {
        remove_name(&mut source.enabled_items, name);
    }
    was
}

/// Undoes a toggle's membership step: when the item was not declared
/// enabled before, the added name is removed again; otherwise nothing
/// changed and nothing changes.
pub fn revert_membership(source: &mut Source, name: &str, was_enabled: bool)
    ensures
        final(source)@.id == old(source)@.id,
        final(source)@.name == old(source)@.name,
        final(source)@.source_path == old(source)@.source_path,
        final(source)@.target_path == old(source)@.target_path,
        final(source)@.enabled_items == reverted(old(source)@.enabled_items, name@, was_enabled),
{
    if !was_enabled {
        remove_name(&mut source.enabled_items, name);
    }
}

/// What a toggle's membership step hands back for the physical step:
/// whether the item was declared enabled before, the directory the link
/// belongs in, and the link's expected destination.
#[derive(Clone, Debug, PartialEq)]
pub struct TogglePrepared {
    pub was_enabled: bool,
    pub target_path: String,
    pub item_source_path: String,
}

/// `post` is `pre` with the enabled set of source `si` of profile `pi`
/// replaced by `items`, and nothing else changed.
pub open spec fn membership_updated(
    pre: AppConfigView,
    post: AppConfigView,
    pi: int,
    si: int,
    items: Seq<Seq<char>>,
) -> bool {
    &&& post.version == pre.version
    &&& post.active_profile_id == pre.active_profile_id
    &&& post.profiles == pre.profiles.update(
        pi,
        ProfileView {
            sources: pre.profiles[pi].sources.update(
                si,
                SourceView { enabled_items: items, ..pre.profiles[pi].sources[si] },
            ),
            ..pre.profiles[pi]
        },
    )
}

/// Everything [`toggle_prepare`] promises of a successful call, at the
/// first-matching profile index `pi` and source index `si`.
pub open spec fn toggle_prepare_post(
    pre: AppConfigView,
    post: AppConfigView,
    profile_id: Seq<char>,
    source_id: Seq<char>,
    name: Seq<char>,
    enable: bool,
    pi: int,
    si: int,
    prep: TogglePrepared,
) -> bool {
    let p = pre.profiles[pi];
    let s = p.sources[si];
    &&& is_first_profile_match(pre, profile_id, pi)
    &&& is_first_source_match(p, source_id, si)
    &&& prep.was_enabled == s.enabled_items.contains(name)
    &&& prep.target_path@ == crate::models::effective_target(s, p.base_path)
    &&& prep.item_source_path@ == s.source_path + "/"@ + name
    &&& membership_updated(pre, post, pi, si, enabled_after(s.enabled_items, name, enable))
}

/// [`toggle_prepare_post`] holds at some pair of indices (necessarily the
/// first-matching ones).
pub open spec fn toggle_prepared_somewhere(
    pre: AppConfigView,
    post: AppConfigView,
    profile_id: Seq<char>,
    source_id: Seq<char>,
    name: Seq<char>,
    enable: bool,
    prep: TogglePrepared,
) -> bool {
    exists|pi: int, si: int|
        toggle_prepare_post(pre, post, profile_id, source_id, name, enable, pi, si, prep)
}

/// The membership step of a toggle: resolves the profile and source,
/// mutates the declared enabled set, and hands back what the physical step
/// needs. Fails exactly when an identity does not resolve, leaving the
/// configuration untouched.
pub fn toggle_prepare(
    config: &mut AppConfig,
    profile_id: &str,
    source_id: &str,
    item_name: &str,
    enable: bool,
) -> (r: Result<TogglePrepared, String>)
    ensures
        match r {
            Ok(prep) => toggle_prepared_somewhere(
                old(config)@,
                final(config)@,
                profile_id@,
                source_id@,
                item_name@,
                enable,
                prep,
            ),
            Err(e) => {
                &&& final(config)@ == old(config)@
                &&& (no_profile_match(old(config)@, profile_id@) && e@ == "Profile not found"@
                    || exists|pi: int|
                        is_first_profile_match(old(config)@, profile_id@, pi) && no_source_match(
                            old(config)@.profiles[pi],
                            source_id@,
                        ) && e@ == "Source not found"@)
            },
        },
{
    let pi = match find_profile_index(config, profile_id) {
        Some(i) => i,
        None => {
            return Err(String::from_str("Profile not found"));
        },
    };
    let ghost pii = pi as int;
    let si = match find_source_index(&config.profiles[pi], source_id) {
        Some(i) => i,
        None => {
            proof {
                assert(is_first_profile_match(config@, profile_id@, pii) && no_source_match(
                    config@.profiles[pii],
                    source_id@,
                ));
            }
            return Err(String::from_str("Source not found"));
        },
    };
    let ghost sii = si as int;
    let target_path = {
        let p = &config.profiles[pi];
        String::from_str(p.sources[si].get_target_path(p.base_path.as_str()))
    };
    let item_source_path = {
        let s = &config.profiles[pi].sources[si];
        join_path(s.source_path.as_str(), item_name)
    };
    let profile = &mut config.profiles[pi];
    let source = &mut profile.sources[si];
    let was_enabled = set_membership(source, item_name, enable);
    let prep = TogglePrepared { was_enabled, target_path, item_source_path };
    proof {
        let pre = old(config)@;
        let postc = config@;
        let s0 = pre.profiles[pii].sources[sii];
        assert(postc.profiles[pii].sources[sii] =~~= SourceView {
            enabled_items: enabled_after(s0.enabled_items, item_name@, enable),
            ..s0
        });
        assert(postc.profiles[pii].sources =~~= pre.profiles[pii].sources.update(
            sii,
            SourceView { enabled_items: enabled_after(s0.enabled_items, item_name@, enable), ..s0 },
        ));
        assert(postc.profiles[pii] =~~= ProfileView {
            sources: pre.profiles[pii].sources.update(
                sii,
                SourceView {
                    enabled_items: enabled_after(s0.enabled_items, item_name@, enable),
                    ..s0
                },
            ),
            ..pre.profiles[pii]
        });
        assert(postc.profiles =~~= pre.profiles.update(
            pii,
            ProfileView {
                sources: pre.profiles[pii].sources.update(
                    sii,
                    SourceView {
                        enabled_items: enabled_after(s0.enabled_items, item_name@, enable),
                        ..s0
                    },
                ),
                ..pre.profiles[pii]
            },
        ));
        assert(toggle_prepare_post(
            pre,
            postc,
            profile_id@,
            source_id@,
            item_name@,
            enable,
            pii,
            sii,
            prep,
        ));
        assert(toggle_prepared_somewhere(
            pre,
            postc,
            profile_id@,
            source_id@,
            item_name@,
            enable,
            prep,
        ));
    }
    Ok(prep)
}

/// Everything [`rollback_enabled_state`] promises when both identities
/// resolve.
pub open spec fn rollback_post(
    pre: AppConfigView,
    post: AppConfigView,
    profile_id: Seq<char>,
    source_id: Seq<char>,
    name: Seq<char>,
    was_enabled: bool,
    pi: int,
    si: int,
) -> bool {
    let p = pre.profiles[pi];
    let s = p.sources[si];
    &&& is_first_profile_match(pre, profile_id, pi)
    &&& is_first_source_match(p, source_id, si)
    &&& membership_updated(pre, post, pi, si, reverted(s.enabled_items, name, was_enabled))
}

/// Compensates a toggle whose physical step was blocked or failed: the
/// membership change is undone at the first-matching profile and source.
/// When an identity no longer resolves, nothing changes.
pub fn rollback_enabled_state(
    config: &mut AppConfig,
    profile_id: &str,
    source_id: &str,
    item_name: &str,
    was_enabled: bool,
)
    ensures
        no_profile_match(old(config)@, profile_id@) && final(config)@ == old(config)@
            || (exists|pi: int|
            is_first_profile_match(old(config)@, profile_id@, pi) && no_source_match(
                old(config)@.profiles[pi],
                source_id@,
            )) && final(config)@ == old(config)@
            || exists|pi: int, si: int|
            rollback_post(
                old(config)@,
                final(config)@,
                profile_id@,
                source_id@,
                item_name@,
                was_enabled,
                pi,
                si,
            ),
{
    let pi = match find_profile_index(config, profile_id) {
        Some(i) => i,
        None => {
            return ;
        },
    };
    let ghost pii = pi as int;
    let si = match find_source_index(&config.profiles[pi], source_id) {
        Some(i) => i,
        None => {
            proof {
                assert(is_first_profile_match(config@, profile_id@, pii) && no_source_match(
                    config@.profiles[pii],
                    source_id@,
                ));
            }
            return ;
        },
    };
    let ghost sii = si as int;
    let profile = &mut config.profiles[pi];
    let source = &mut profile.sources[si];
    revert_membership(source, item_name, was_enabled);
    proof {
        let pre = old(config)@;
        let postc = config@;
        let s0 = pre.profiles[pii].sources[sii];
        assert(postc.profiles[pii].sources[sii] =~~= SourceView {
            enabled_items: reverted(s0.enabled_items, item_name@, was_enabled),
            ..s0
        });
        assert(postc.profiles[pii].sources =~~= pre.profiles[pii].sources.update(
            sii,
            SourceView {
                enabled_items: reverted(s0.enabled_items, item_name@, was_enabled),
                ..s0
            },
        ));
        assert(postc.profiles[pii] =~~= ProfileView {
            sources: pre.profiles[pii].sources.update(
                sii,
                SourceView {
                    enabled_items: reverted(s0.enabled_items, item_name@, was_enabled),
                    ..s0
                },
            ),
            ..pre.profiles[pii]
        });
        assert(postc.profiles =~~= pre.profiles.update(
            pii,
            ProfileView {
                sources: pre.profiles[pii].sources.update(
                    sii,
                    SourceView {
                        enabled_items: reverted(s0.enabled_items, item_name@, was_enabled),
                        ..s0
                    },
                ),
                ..pre.profiles[pii]
            },
        ));
        assert(rollback_post(
            pre,
            postc,
            profile_id@,
            source_id@,
            item_name@,
            was_enabled,
            pii,
            sii,
        ));
    }
}

/// The explanation a blocked enable reports: the target slot is taken.
pub open spec fn occupied_message() -> Seq<char> {
    "Target location already has a file or folder with this name"@
}

/// The blocked enable's explanation is not empty.
pub proof fn lemma_occupied_message_nonempty()
    ensures
        occupied_message().len() > 0,
{
    reveal_strlit("Target location already has a file or folder with this name");
}

/// The remediation text a privilege-denied symlink failure earns.
pub open spec fn privilege_help_text() -> Seq<char> {
    "Permission denied: Creating symbolic links requires either:\n1. Enable Developer Mode in Windows Settings (Settings > Update & Security > For developers)\n2. Run this application as Administrator"@
}

/// The explanation attached to a failed physical symlink step: a
/// privilege-denied failure (policy error code 1314) is translated into
/// remediation text, any other failure keeps its own message.
pub open spec fn formatted_error(raw_code: Option<i32>, message: Seq<char>) -> Seq<char> {
    if raw_code == Some(1314i32) {
        privilege_help_text()
    } else {
        message
    }
}

/// Translates a failed symlink operation into the explanation shown to the
/// caller; see [`formatted_error`].
pub fn format_symlink_error(raw_code: Option<i32>, message: String) -> (r: String)
    ensures
        r@ == formatted_error(raw_code, message@),
{
    if let Some(c) = raw_code {
        if c == 1314 {
            return String::from_str(
                "Permission denied: Creating symbolic links requires either:\n1. Enable Developer Mode in Windows Settings (Settings > Update & Security > For developers)\n2. Run this application as Administrator",
            );
        }
    }
    message
}

/// The successful outcome of a toggle's physical step.
pub fn success_result(item_name: String) -> (r: SymlinkResult)
    ensures
        r.success,
        r.item_name == item_name,
        r.error is None,
{
    SymlinkResult { success: true, item_name, error: None }
}

/// The reported (not failed) outcome of an enable whose target slot is
/// already occupied: a failure with a non-empty explanation.
pub fn occupied_result(item_name: String) -> (r: SymlinkResult)
    ensures
        !r.success,
        r.item_name == item_name,
        r.error is Some,
        r.error->0@ == occupied_message(),
{
    SymlinkResult {
        success: false,
        item_name,
        error: Some(
            String::from_str("Target location already has a file or folder with this name"),
        ),
    }
}

/// The reported outcome of an enable whose physical link creation failed,
/// with the failure translated as [`formatted_error`].
pub fn creation_failed_result(item_name: String, raw_code: Option<i32>, message: String) -> (r:
    SymlinkResult)
    ensures
        !r.success,
        r.item_name == item_name,
        r.error is Some,
        r.error->0@ == formatted_error(raw_code, message@),
{
    let error = format_symlink_error(raw_code, message);
    SymlinkResult { success: false, item_name, error: Some(error) }
}

/// The reported outcome of a disable: success when nothing was there or the
/// link was removed, a failure carrying the removal error otherwise.
/// Declared state is never rolled back on this path.
pub fn disable_result(item_name: String, removal_error: Option<String>) -> (r: SymlinkResult)
    ensures
        r.item_name == item_name,
        r.success == (removal_error is None),
        r.error == removal_error,
{
    match removal_error {
        None => SymlinkResult { success: true, item_name, error: None },
        Some(e) => SymlinkResult { success: false, item_name, error: Some(e) },
    }
}

} // verus!
