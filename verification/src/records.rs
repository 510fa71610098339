//! Record management over the in-memory configuration: profile and source
//! lookup, creation, update and removal, and the symlink cleanup lists that
//! accompany record deletion.

use vstd::prelude::*;

use crate::models::{
    effective_target, AppConfig, AppConfigView, Profile, ProfileView, Source, SourceView,
};
use crate::text::{join_path, str_eq};

verus! {

/// `pi` is the index of the first profile of `c` whose identity is `id`.
pub open spec fn is_first_profile_match(c: AppConfigView, id: Seq<char>, pi: int) -> bool {
    &&& 0 <= pi < c.profiles.len()
    &&& c.profiles[pi].id == id
    &&& forall|j: int| 0 <= j < pi ==> c.profiles[j].id != id
}

/// No profile of `c` has identity `id`.
pub open spec fn no_profile_match(c: AppConfigView, id: Seq<char>) -> bool {
    forall|j: int| 0 <= j < c.profiles.len() ==> c.profiles[j].id != id
}

/// `si` is the index of the first source of `p` whose identity is `id`.
pub open spec fn is_first_source_match(p: ProfileView, id: Seq<char>, si: int) -> bool {
    &&& 0 <= si < p.sources.len()
    &&& p.sources[si].id == id
    &&& forall|j: int| 0 <= j < si ==> p.sources[j].id != id
}

/// No source of `p` has identity `id`.
pub open spec fn no_source_match(p: ProfileView, id: Seq<char>) -> bool {
    forall|j: int| 0 <= j < p.sources.len() ==> p.sources[j].id != id
}

/// Finds the first profile with the given identity.
pub fn find_profile_index(config: &AppConfig, profile_id: &str) -> (r: Option<usize>)
    ensures
        match r {
            Some(i) => is_first_profile_match(config@, profile_id@, i as int),
            None => no_profile_match(config@, profile_id@),
        },
{
    let mut i: usize = 0;
    while i < config.profiles.len()
        invariant
            0 <= i <= config.profiles@.len(),
            forall|j: int| 0 <= j < i ==> config@.profiles[j].id != profile_id@,
        decreases config.profiles@.len() - i,
    {
        if str_eq(config.profiles[i].id.as_str(), profile_id) {
            return Some(i);
        }
        i = i + 1;
    }
    None
}

/// Finds the first source of `profile` with the given identity.
pub fn find_source_index(profile: &Profile, source_id: &str) -> (r: Option<usize>)
    ensures
        match r {
            Some(i) => is_first_source_match(profile@, source_id@, i as int),
            None => no_source_match(profile@, source_id@),
        },
{
    let mut i: usize = 0;
    while i < profile.sources.len()
        invariant
            0 <= i <= profile.sources@.len(),
            forall|j: int| 0 <= j < i ==> profile@.sources[j].id != source_id@,
        decreases profile.sources@.len() - i,
    {
        if str_eq(profile.sources[i].id.as_str(), source_id) {
            return Some(i);
        }
        i = i + 1;
    }
    None
}

/// Resolves a profile identity and a source identity to their first-match
/// indices. Fails with the profile error when no profile matches, and with
/// the source error when the profile matches but none of its sources does.
pub fn locate_source(config: &AppConfig, profile_id: &str, source_id: &str) -> (r: Result<
    (usize, usize),
    String,
>)
    ensures
        match r {
            Ok(loc) => is_first_profile_match(config@, profile_id@, loc.0 as int)
                && is_first_source_match(
                config@.profiles[loc.0 as int],
                source_id@,
                loc.1 as int,
            ),
            Err(e) => no_profile_match(config@, profile_id@) && e@ == "Profile not found"@
                || (exists|pi: int|
                is_first_profile_match(config@, profile_id@, pi) && no_source_match(
                    config@.profiles[pi],
                    source_id@,
                )) && e@ == "Source not found"@,
        },
{
    match find_profile_index(config, profile_id) {
        Some(pi) => match find_source_index(&config.profiles[pi], source_id) {
            Some(si) => Ok((pi, si)),
            None => {
                proof {
                    let pii = pi as int;
                    assert(is_first_profile_match(config@, profile_id@, pii) && no_source_match(
                        config@.profiles[pii],
                        source_id@,
                    ));
                }
                Err(String::from_str("Source not found"))
            },
        },
        None => Err(String::from_str("Profile not found")),
    }
}

/// An element-wise copy of a list of names.
pub fn copy_names(names: &Vec<String>) -> (r: Vec<String>)
    ensures
        r@ == names@,
{
    let mut r: Vec<String> = Vec::new();
    let mut i: usize = 0;
    while i < names.len()
        invariant
            0 <= i <= names@.len(),
            r@ == names@.subrange(0, i as int),
        decreases names@.len() - i,
    {
        r.push(names[i].clone());
        proof {
            assert(r@ =~~= names@.subrange(0, i + 1));
        }
        i = i + 1;
    }
    proof {
        assert(names@.subrange(0, names@.len() as int) =~~= names@);
    }
    r
}

/// A copy of a source with the same mathematical view (identity included).
pub fn duplicate_source(s: &Source) -> (r: Source)
    ensures
        r@ == s@,
{
    Source {
        id: s.id.clone(),
        name: s.name.clone(),
        source_path: s.source_path.clone(),
        target_path: match &s.target_path {
            Some(t) => Some(t.clone()),
            None => None,
        },
        enabled_items: copy_names(&s.enabled_items),
    }
}

/// A copy of a profile with the same mathematical view (identity included).
pub fn duplicate_profile(p: &Profile) -> (r: Profile)
    ensures
        r@ == p@,
{
    let mut sources: Vec<Source> = Vec::new();
    let mut i: usize = 0;
    while i < p.sources.len()
        invariant
            0 <= i <= p.sources@.len(),
            sources@.len() == i,
            forall|k: int| 0 <= k < i ==> sources@[k]@ == p@.sources[k],
        decreases p.sources@.len() - i,
    {
        sources.push(duplicate_source(&p.sources[i]));
        i = i + 1;
    }
    let r = Profile {
        id: p.id.clone(),
        name: p.name.clone(),
        base_path: p.base_path.clone(),
        sources,
    };
    proof {
        assert forall|k: int| 0 <= k < r@.sources.len() implies r@.sources[k]
            == p@.sources[k] by {}
        assert(r@.sources =~~= p@.sources);
        assert(r@ =~~= p@);
    }
    r
}

/// A copy of the whole configuration with the same mathematical view.
pub fn duplicate_config(c: &AppConfig) -> (r: AppConfig)
    ensures
        r@ == c@,
{
    let mut profiles: Vec<Profile> = Vec::new();
    let mut i: usize = 0;
    while i < c.profiles.len()
        invariant
            0 <= i <= c.profiles@.len(),
            profiles@.len() == i,
            forall|k: int| 0 <= k < i ==> profiles@[k]@ == c@.profiles[k],
        decreases c.profiles@.len() - i,
    {
        profiles.push(duplicate_profile(&c.profiles[i]));
        i = i + 1;
    }
    let r = AppConfig {
        version: c.version,
        profiles,
        active_profile_id: match &c.active_profile_id {
            Some(a) => Some(a.clone()),
            None => None,
        },
    };
    proof {
        assert forall|k: int| 0 <= k < r@.profiles.len() implies r@.profiles[k]
            == c@.profiles[k] by {}
        assert(r@.profiles =~~= c@.profiles);
        assert(r@ =~~= c@);
    }
    r
}

/// Appends a freshly created profile to the configuration and returns it.
pub fn create_profile(config: &mut AppConfig, name: String, base_path: String) -> (r: Profile)
    ensures
        r@.name == name@,
        r@.base_path == base_path@,
        r@.sources.len() == 0,
        final(config)@.profiles == old(config)@.profiles.push(r@),
        final(config)@.version == old(config)@.version,
        final(config)@.active_profile_id == old(config)@.active_profile_id,
{
    let r = Profile::new(name, base_path);
    let stored = duplicate_profile(&r);
    config.profiles.push(stored);
    proof {
        assert(final(config)@.profiles =~~= old(config)@.profiles.push(r@));
    }
    r
}

/// Replaces the first profile carrying the given profile's identity.
pub fn update_profile(config: &mut AppConfig, profile: Profile) -> (r: Result<Profile, String>)
    ensures
        match r {
            Ok(p) => {
                &&& p@ == profile@
                &&& exists|pi: int|
                    is_first_profile_match(old(config)@, profile@.id, pi) && final(config)@.profiles == old(config)@.profiles.update(pi, profile@)
                &&& final(config)@.version == old(config)@.version
                &&& final(config)@.active_profile_id == old(config)@.active_profile_id
            },
            Err(e) => {
                &&& *final(config) == *old(config)
                &&& no_profile_match(old(config)@, profile@.id)
                &&& e@ == "Profile not found"@
            },
        },
{
    match find_profile_index(config, profile.id.as_str()) {
        Some(pi) => {
            let ghost pii = pi as int;
            let stored = duplicate_profile(&profile);
            config.profiles[pi] = stored;
            proof {
                assert(final(config)@.profiles =~~= old(config)@.profiles.update(
                    pii,
                    profile@,
                ));
                assert(is_first_profile_match(old(config)@, profile@.id, pii) && final(config)@.profiles == old(config)@.profiles.update(pii, profile@));
            }
            Ok(profile)
        },
        None => Err(String::from_str("Profile not found")),
    }
}

/// Removes every profile carrying the given identity.
pub fn remove_profile(config: &mut AppConfig, profile_id: &str)
    ensures
        final(config)@.profiles == old(config)@.profiles.filter(
            |p: ProfileView| p.id != profile_id@,
        ),
        final(config)@.version == old(config)@.version,
        final(config)@.active_profile_id == old(config)@.active_profile_id,
{
    let ghost orig = config@.profiles;
    let mut kept: Vec<Profile> = Vec::new();
    let mut i: usize = 0;
    proof {
        assert(orig.subrange(0, 0) =~~= Seq::<ProfileView>::empty());
        assert(kept@.map_values(|p: Profile| p@) =~~= orig.subrange(0, 0).filter(
            |p: ProfileView| p.id != profile_id@,
        ));
    }
    while i < config.profiles.len()
        invariant
            0 <= i <= config.profiles@.len(),
            config@.profiles == orig,
            kept@.map_values(|p: Profile| p@) == orig.subrange(0, i as int).filter(
                |p: ProfileView| p.id != profile_id@,
            ),
        decreases config.profiles@.len() - i,
    {
        proof {
            reveal(Seq::filter);
            assert(orig.subrange(0, i + 1).drop_last() =~~= orig.subrange(0, i as int));
            assert(orig.subrange(0, i + 1).last() == orig[i as int]);
        }
        if !str_eq(config.profiles[i].id.as_str(), profile_id) {
            kept.push(duplicate_profile(&config.profiles[i]));
            proof {
                assert(kept@.map_values(|p: Profile| p@) =~~= orig.subrange(0, i + 1).filter(
                    |p: ProfileView| p.id != profile_id@,
                ));
            }
        } else {
            proof {
                assert(kept@.map_values(|p: Profile| p@) =~~= orig.subrange(0, i + 1).filter(
                    |p: ProfileView| p.id != profile_id@,
                ));
            }
        }
        i = i + 1;
    }
    proof {
        assert(orig.subrange(0, orig.len() as int) =~~= orig);
    }
    config.profiles = kept;
}

/// Appends a freshly created source to the first profile with the given
/// identity and returns it.
pub fn create_source(
    config: &mut AppConfig,
    profile_id: &str,
    name: String,
    source_path: String,
    target_path: Option<String>,
) -> (r: Result<Source, String>)
    ensures
        match r {
            Ok(s) => {
                &&& s@.name == name@
                &&& s@.source_path == source_path@
                &&& s@.target_path == target_path.deep_view()
                &&& s@.enabled_items.len() == 0
                &&& exists|pi: int|
                    is_first_profile_match(old(config)@, profile_id@, pi) && final(config)@.profiles == old(config)@.profiles.update(
                        pi,
                        ProfileView {
                            sources: old(config)@.profiles[pi].sources.push(s@),
                            ..old(config)@.profiles[pi]
                        },
                    )
                &&& final(config)@.version == old(config)@.version
                &&& final(config)@.active_profile_id == old(config)@.active_profile_id
            },
            Err(e) => {
                &&& *final(config) == *old(config)
                &&& no_profile_match(old(config)@, profile_id@)
                &&& e@ == "Profile not found"@
            },
        },
{
    match find_profile_index(config, profile_id) {
        Some(pi) => {
            let ghost pii = pi as int;
            let s = Source::new(name, source_path, target_path);
            let stored = duplicate_source(&s);
            let profile = &mut config.profiles[pi];
            profile.sources.push(stored);
            proof {
                assert(final(config)@.profiles =~~= old(config)@.profiles.update(
                    pii,
                    ProfileView {
                        sources: old(config)@.profiles[pii].sources.push(s@),
                        ..old(config)@.profiles[pii]
                    },
                ));
                assert(is_first_profile_match(old(config)@, profile_id@, pii) && final(config)@.profiles == old(config)@.profiles.update(
                    pii,
                    ProfileView {
                        sources: old(config)@.profiles[pii].sources.push(s@),
                        ..old(config)@.profiles[pii]
                    },
                ));
            }
            Ok(s)
        },
        None => Err(String::from_str("Profile not found")),
    }
}

/// Replaces, within the first profile with the given identity, the first
/// source carrying the given source's identity.
pub fn update_source(config: &mut AppConfig, profile_id: &str, source: Source) -> (r: Result<
    Source,
    String,
>)
    ensures
        match r {
            Ok(s) => {
                &&& s@ == source@
                &&& exists|pi: int, si: int|
                    is_first_profile_match(old(config)@, profile_id@, pi)
                        && is_first_source_match(old(config)@.profiles[pi], source@.id, si)
                        && final(config)@.profiles == old(config)@.profiles.update(
                        pi,
                        ProfileView {
                            sources: old(config)@.profiles[pi].sources.update(si, source@),
                            ..old(config)@.profiles[pi]
                        },
                    )
                &&& final(config)@.version == old(config)@.version
                &&& final(config)@.active_profile_id == old(config)@.active_profile_id
            },
            Err(e) => {
                &&& *final(config) == *old(config)
                &&& (no_profile_match(old(config)@, profile_id@) && e@ == "Profile not found"@
                    || exists|pi: int|
                        is_first_profile_match(old(config)@, profile_id@, pi) && no_source_match(
                            old(config)@.profiles[pi],
                            source@.id,
                        ) && e@ == "Source not found"@)
            },
        },
{
    match find_profile_index(config, profile_id) {
        Some(pi) => {
            let ghost pii = pi as int;
            match find_source_index(&config.profiles[pi], source.id.as_str()) {
                Some(si) => {
                    let ghost sii = si as int;
                    let stored = duplicate_source(&source);
                    let profile = &mut config.profiles[pi];
                    profile.sources[si] = stored;
                    proof {
                        assert(final(config)@.profiles =~~= old(config)@.profiles.update(
                            pii,
                            ProfileView {
                                sources: old(config)@.profiles[pii].sources.update(
                                    sii,
                                    source@,
                                ),
                                ..old(config)@.profiles[pii]
                            },
                        ));
                        assert(is_first_profile_match(old(config)@, profile_id@, pii)
                            && is_first_source_match(old(config)@.profiles[pii], source@.id, sii)
                            && final(config)@.profiles == old(config)@.profiles.update(
                            pii,
                            ProfileView {
                                sources: old(config)@.profiles[pii].sources.update(
                                    sii,
                                    source@,
                                ),
                                ..old(config)@.profiles[pii]
                            },
                        ));
                    }
                    Ok(source)
                },
                None => {
                    proof {
                        assert(is_first_profile_match(config@, profile_id@, pii)
                            && no_source_match(config@.profiles[pii], source@.id));
                    }
                    Err(String::from_str("Source not found"))
                },
            }
        },
        None => Err(String::from_str("Profile not found")),
    }
}

/// Removes, within the first profile with the given identity, every source
/// carrying `source_id`.
pub fn remove_source(config: &mut AppConfig, profile_id: &str, source_id: &str) -> (r: Result<
    (),
    String,
>)
    ensures
        match r {
            Ok(_) => {
                &&& exists|pi: int|
                    is_first_profile_match(old(config)@, profile_id@, pi) && final(config)@.profiles == old(config)@.profiles.update(
                        pi,
                        ProfileView {
                            sources: old(config)@.profiles[pi].sources.filter(
                                |s: SourceView| s.id != source_id@,
                            ),
                            ..old(config)@.profiles[pi]
                        },
                    )
                &&& final(config)@.version == old(config)@.version
                &&& final(config)@.active_profile_id == old(config)@.active_profile_id
            },
            Err(e) => {
                &&& *final(config) == *old(config)
                &&& no_profile_match(old(config)@, profile_id@)
                &&& e@ == "Profile not found"@
            },
        },
{
    match find_profile_index(config, profile_id) {
        Some(pi) => {
            let ghost pii = pi as int;
            let ghost orig = config@.profiles[pii].sources;
            let profile = &mut config.profiles[pi];
            let mut kept: Vec<Source> = Vec::new();
            let mut i: usize = 0;
            proof {
                assert(orig.subrange(0, 0) =~~= Seq::<SourceView>::empty());
                assert(kept@.map_values(|s: Source| s@) =~~= orig.subrange(0, 0).filter(
                    |s: SourceView| s.id != source_id@,
                ));
            }
            while i < profile.sources.len()
                invariant
                    0 <= i <= profile.sources@.len(),
                    profile@.sources == orig,
                    kept@.map_values(|s: Source| s@) == orig.subrange(0, i as int).filter(
                        |s: SourceView| s.id != source_id@,
                    ),
                decreases profile.sources@.len() - i,
            {
                proof {
                    reveal(Seq::filter);
                    assert(orig.subrange(0, i + 1).drop_last() =~~= orig.subrange(0, i as int));
                    assert(orig.subrange(0, i + 1).last() == orig[i as int]);
                }
                if !str_eq(profile.sources[i].id.as_str(), source_id) {
                    kept.push(duplicate_source(&profile.sources[i]));
                    proof {
                        assert(kept@.map_values(|s: Source| s@) =~~= orig.subrange(0, i + 1).filter(
                            |s: SourceView| s.id != source_id@,
                        ));
                    }
                } else {
                    proof {
                        assert(kept@.map_values(|s: Source| s@) =~~= orig.subrange(0, i + 1).filter(
                            |s: SourceView| s.id != source_id@,
                        ));
                    }
                }
                i = i + 1;
            }
            proof {
                assert(orig.subrange(0, orig.len() as int) =~~= orig);
            }
            profile.sources = kept;
            proof {
                assert(final(config)@.profiles =~~= old(config)@.profiles.update(
                    pii,
                    ProfileView {
                        sources: old(config)@.profiles[pii].sources.filter(
                            |s: SourceView| s.id != source_id@,
                        ),
                        ..old(config)@.profiles[pii]
                    },
                ));
                assert(is_first_profile_match(old(config)@, profile_id@, pii) && final(config)@.profiles == old(config)@.profiles.update(
                    pii,
                    ProfileView {
                        sources: old(config)@.profiles[pii].sources.filter(
                            |s: SourceView| s.id != source_id@,
                        ),
                        ..old(config)@.profiles[pii]
                    },
                ));
            }
            Ok(())
        },
        None => Err(String::from_str("Profile not found")),
    }
}

/// Records which profile is active.
pub fn set_active_profile(config: &mut AppConfig, profile_id: Option<String>)
    ensures
        final(config)@.active_profile_id == profile_id.deep_view(),
        final(config)@.profiles == old(config)@.profiles,
        final(config)@.version == old(config)@.version,
{
    config.active_profile_id = profile_id;
}

/// The target slot paths of every enabled item of a source: the paths whose
/// symlinks record deletion must tear down.
pub open spec fn source_cleanup(s: SourceView, base: Seq<char>) -> Seq<Seq<char>> {
    s.enabled_items.map_values(|n: Seq<char>| effective_target(s, base) + "/"@ + n)
}

/// The cleanup paths of a whole run of sources, in source order.
pub open spec fn sources_cleanup(sources: Seq<SourceView>, base: Seq<char>) -> Seq<Seq<char>>
    decreases sources.len(),
{
    if sources.len() == 0 {
        Seq::empty()
    } else {
        sources_cleanup(sources.drop_last(), base) + source_cleanup(sources.last(), base)
    }
}

/// The target slot paths of every enabled item of one source.
pub fn source_cleanup_paths(source: &Source, base_path: &str) -> (r: Vec<String>)
    ensures
        r.deep_view() == source_cleanup(source@, base_path@),
{
    let mut r: Vec<String> = Vec::new();
    let target = source.get_target_path(base_path);
    let mut i: usize = 0;
    while i < source.enabled_items.len()
        invariant
            0 <= i <= source.enabled_items@.len(),
            target@ == effective_target(source@, base_path@),
            r@.len() == i,
            forall|k: int|
                0 <= k < i ==> r@[k]@ == effective_target(source@, base_path@) + "/"@
                    + source@.enabled_items[k],
        decreases source.enabled_items@.len() - i,
    {
        let p = join_path(target, source.enabled_items[i].as_str());
        r.push(p);
        i = i + 1;
    }
    proof {
        assert forall|k: int| 0 <= k < r.deep_view().len() implies r.deep_view()[k]
            == source_cleanup(source@, base_path@)[k] by {
            assert(r.deep_view()[k] == r@[k]@);
        }
        assert(r.deep_view() =~~= source_cleanup(source@, base_path@));
    }
    r
}

/// Appends every name of `more` to `acc`.
fn append_names(acc: &mut Vec<String>, more: &Vec<String>)
    ensures
        final(acc).deep_view() == old(acc).deep_view() + more.deep_view(),
{
    let mut i: usize = 0;
    while i < more.len()
        invariant
            0 <= i <= more@.len(),
            acc@.len() == old(acc)@.len() + i,
            forall|k: int| 0 <= k < old(acc)@.len() ==> acc@[k] == old(acc)@[k],
            forall|k: int| 0 <= k < i ==> acc@[old(acc)@.len() + k] == more@[k],
        decreases more@.len() - i,
    {
        acc.push(more[i].clone());
        i = i + 1;
    }
    proof {
        assert forall|k: int| 0 <= k < acc.deep_view().len() implies acc.deep_view()[k] == (old(
            acc,
        ).deep_view() + more.deep_view())[k] by {
            assert(acc.deep_view()[k] == acc@[k]@);
            if k < old(acc)@.len() {
                assert(acc@[k] == old(acc)@[k]);
            } else {
                assert(acc@[k] == more@[k - old(acc)@.len()]);
            }
        }
        assert(acc.deep_view() =~~= old(acc).deep_view() + more.deep_view());
    }
}

/// The target slot paths of every enabled item of every source of a
/// profile.
pub fn profile_cleanup_paths(profile: &Profile) -> (r: Vec<String>)
    ensures
        r.deep_view() == sources_cleanup(profile@.sources, profile@.base_path),
{
    let mut r: Vec<String> = Vec::new();
    let mut i: usize = 0;
    proof {
        assert(profile@.sources.subrange(0, 0) =~~= Seq::<SourceView>::empty());
    }
    while i < profile.sources.len()
        invariant
            0 <= i <= profile.sources@.len(),
            r.deep_view() == sources_cleanup(
                profile@.sources.subrange(0, i as int),
                profile@.base_path,
            ),
        decreases profile.sources@.len() - i,
    {
        let batch = source_cleanup_paths(&profile.sources[i], profile.base_path.as_str());
        append_names(&mut r, &batch);
        proof {
            assert(profile@.sources.subrange(0, i + 1).drop_last() =~~= profile@.sources.subrange(
                0,
                i as int,
            ));
            assert(profile@.sources.subrange(0, i + 1).last() == profile@.sources[i as int]);
            assert(r.deep_view() == sources_cleanup(
                profile@.sources.subrange(0, i + 1),
                profile@.base_path,
            ));
        }
        i = i + 1;
    }
    proof {
        assert(profile@.sources.subrange(0, profile@.sources.len() as int) =~~= profile@.sources);
    }
    r
}

} // verus!
