//! What holds of the pass that builds the registry, and of the caches of
//! the directories in it.

use crate::cache::CacheKey;
use crate::registry::{
    cached_answer, directory_prefix, registered, reported, setup_failure, type_key, verdict,
    with_answer, Answer, DirectoryConfig, DirectoryView, Protocol, Verdict,
};
use crate::text::is_prefix;
use vstd::prelude::*;

verus! {

/// No two declared directories have the same name.
pub open spec fn distinct_ids(configs: Seq<DirectoryConfig>) -> bool {
    forall|i: int, j: int|
        #![trigger configs[i], configs[j]]
        0 <= i < j < configs.len() ==> configs[i].id@ != configs[j].id@
}

/// The directory is switched on, its type is known and its backend was set
/// up.
pub open spec fn sound(config: DirectoryConfig) -> bool {
    !config.disable && Protocol::of_token(config.protocol@) is Some && setup_failure(
        config.id@,
        config.setup,
    ) is None
}

/// The directory is switched on and its type is not known.
pub open spec fn of_unknown_type(config: DirectoryConfig) -> bool {
    !config.disable && Protocol::of_token(config.protocol@) is None
}

/// Whatever is recorded of a directory is recorded against a key of that
/// directory: the key begins with `directory.`, the name and a dot.
pub proof fn lemma_diagnostic_names_directory(config: DirectoryConfig)
    ensures
        verdict(config) matches Verdict::Rejected(diagnostic) ==> is_prefix(
            directory_prefix(config.id@),
            diagnostic.key,
        ),
{
}

/// The registry holds finitely many directories, each under the name of a
/// declared directory that was built.
pub proof fn lemma_registered_names(configs: Seq<DirectoryConfig>)
    ensures
        registered(configs).dom().finite(),
        forall|id: Seq<char>| #[trigger]
            registered(configs).contains_key(id) ==> exists|i: int|
                0 <= i < configs.len() && (#[trigger] configs[i]).id@ == id && verdict(
                    configs[i],
                ) is Built,
    decreases configs.len(),
{
    if configs.len() > 0 {
        let front = configs.drop_last();
        lemma_registered_names(front);
        assert forall|id: Seq<char>| #[trigger]
            registered(configs).contains_key(id) implies exists|i: int|
            0 <= i < configs.len() && (#[trigger] configs[i]).id@ == id && verdict(
                configs[i],
            ) is Built by {
            if registered(front).contains_key(id) {
                let i = choose|i: int|
                    0 <= i < front.len() && (#[trigger] front[i]).id@ == id && verdict(
                        front[i],
                    ) is Built;
                assert(configs[i] == front[i]);
            } else {
                assert(configs[configs.len() - 1].id@ == id);
            }
        }
    }
}

/// Among directories of which no two have the same name, the name of the
/// last one is not in the registry of those before it; and those before it
/// have no name twice either.
proof fn lemma_last_name_is_new(configs: Seq<DirectoryConfig>)
    requires
        distinct_ids(configs),
        configs.len() > 0,
    ensures
        distinct_ids(configs.drop_last()),
        !registered(configs.drop_last()).contains_key(configs.last().id@),
{
    let front = configs.drop_last();
    assert forall|i: int, j: int|
        #![trigger front[i], front[j]]
        0 <= i < j < front.len() implies front[i].id@ != front[j].id@ by {
        assert(front[i] == configs[i] && front[j] == configs[j]);
    }
    lemma_registered_names(front);
    if registered(front).contains_key(configs.last().id@) {
        let i = choose|i: int|
            0 <= i < front.len() && (#[trigger] front[i]).id@ == configs.last().id@ && verdict(
                front[i],
            ) is Built;
        assert(front[i] == configs[i]);
        assert(configs[i].id@ != configs[configs.len() - 1].id@);
    }
}

/// Every declared directory is accounted for: one that was built is in the
/// registry, and of one that was left out for a mistake the diagnostic is
/// among those recorded, against a key of that directory. So a declared
/// directory is missing only where it is switched off or a diagnostic says
/// why.
pub proof fn lemma_absence_is_explained(configs: Seq<DirectoryConfig>, i: int)
    requires
        0 <= i < configs.len(),
    ensures
        match verdict(configs[i]) {
            Verdict::Built(_) => registered(configs).contains_key(configs[i].id@),
            Verdict::Rejected(diagnostic) => reported(configs).contains(diagnostic) && is_prefix(
                directory_prefix(configs[i].id@),
                diagnostic.key,
            ),
            Verdict::Skipped => configs[i].disable,
        },
    decreases configs.len(),
{
    let front = configs.drop_last();
    let last = configs.last();
    if i == configs.len() - 1 {
        match verdict(last) {
            Verdict::Rejected(diagnostic) => {
                let all = reported(configs);
                assert(all[all.len() - 1] == diagnostic);
            },
            _ => {},
        }
    } else {
        assert(front[i] == configs[i]);
        lemma_absence_is_explained(front, i);
        match verdict(configs[i]) {
            Verdict::Rejected(diagnostic) => {
                let before = reported(front);
                let at = choose|at: int| 0 <= at < before.len() && before[at] == diagnostic;
                assert(reported(configs)[at] == diagnostic);
            },
            _ => {},
        }
    }
}

/// Where every declared directory is sound and no name is used twice, all
/// of them are in the registry and nothing is reported.
pub proof fn lemma_all_built(configs: Seq<DirectoryConfig>)
    requires
        distinct_ids(configs),
        forall|i: int| 0 <= i < configs.len() ==> sound(#[trigger] configs[i]),
    ensures
        registered(configs).dom().finite(),
        registered(configs).dom().len() == configs.len(),
        reported(configs).len() == 0,
    decreases configs.len(),
{
    lemma_registered_names(configs);
    if configs.len() > 0 {
        let front = configs.drop_last();
        assert forall|i: int| 0 <= i < front.len() implies sound(#[trigger] front[i]) by {
            assert(front[i] == configs[i]);
        }
        lemma_last_name_is_new(configs);
        lemma_all_built(front);
        lemma_registered_names(front);
        assert(sound(configs[configs.len() - 1]));
    }
}

/// One mistake costs one directory: where exactly one of the declared
/// directories is left out for a mistake, whether its type is not known,
/// its store is not there or its backend could not be set up, and the
/// others are sound and no name is used twice, the registry holds all but
/// that one, and the one diagnostic that is recorded is the one of that
/// directory.
pub proof fn lemma_soft_fail(configs: Seq<DirectoryConfig>, bad: int)
    requires
        distinct_ids(configs),
        0 <= bad < configs.len(),
        verdict(configs[bad]) is Rejected,
        forall|i: int| 0 <= i < configs.len() && i != bad ==> sound(#[trigger] configs[i]),
    ensures
        registered(configs).dom().finite(),
        registered(configs).dom().len() == configs.len() - 1,
        !registered(configs).contains_key(configs[bad].id@),
        reported(configs) == seq![verdict(configs[bad])->Rejected_0],
        is_prefix(directory_prefix(configs[bad].id@), reported(configs)[0].key),
    decreases configs.len(),
{
    let front = configs.drop_last();
    lemma_last_name_is_new(configs);
    lemma_registered_names(front);
    lemma_diagnostic_names_directory(configs[bad]);
    if bad == configs.len() - 1 {
        assert forall|i: int| 0 <= i < front.len() implies sound(#[trigger] front[i]) by {
            assert(front[i] == configs[i]);
        }
        lemma_all_built(front);
        assert(reported(configs) =~= seq![verdict(configs[bad])->Rejected_0]);
    } else {
        assert(front[bad] == configs[bad]);
        assert forall|i: int| 0 <= i < front.len() && i != bad implies sound(
            #[trigger] front[i],
        ) by {
            assert(front[i] == configs[i]);
        }
        lemma_soft_fail(front, bad);
        assert(sound(configs[configs.len() - 1]));
        assert(configs[bad].id@ != configs[configs.len() - 1].id@);
    }
}

/// Where exactly one of the declared directories has a type that is not
/// known, and the others are sound and no name is used twice, the registry
/// holds all but that one, and the one diagnostic that is recorded names
/// the key of its type.
pub proof fn lemma_unknown_type_costs_one(configs: Seq<DirectoryConfig>, bad: int)
    requires
        distinct_ids(configs),
        0 <= bad < configs.len(),
        of_unknown_type(configs[bad]),
        forall|i: int| 0 <= i < configs.len() && i != bad ==> sound(#[trigger] configs[i]),
    ensures
        registered(configs).dom().finite(),
        registered(configs).dom().len() == configs.len() - 1,
        !registered(configs).contains_key(configs[bad].id@),
        reported(configs).len() == 1,
        reported(configs)[0].key == type_key(configs[bad].id@),
{
    lemma_soft_fail(configs, bad);
}

/// Within the time-to-live the backend of a directory with a cache is
/// asked once: after its answer was filed at the time `first`, the same
/// question at a time `again` before the time-to-live has passed is
/// answered from the cache, with the same answer.
pub proof fn lemma_cached_within_ttl(
    directory: DirectoryView,
    key: CacheKey,
    answer: Answer,
    first: u64,
    again: u64,
)
    requires
        directory.cache matches Some(cache) && first <= again < first + cache.ttl,
    ensures
        cached_answer(with_answer(directory, key, answer, first), key, again) == Some(answer),
{
}

/// Once the time-to-live has passed the backend of a directory is asked
/// again: the cache has no answer at a time that is not before the expiry.
pub proof fn lemma_uncached_after_ttl(
    directory: DirectoryView,
    key: CacheKey,
    answer: Answer,
    first: u64,
    later: u64,
)
    requires
        directory.cache matches Some(cache) ==> first + cache.ttl <= later,
    ensures
        cached_answer(with_answer(directory, key, answer, first), key, later) is None,
{
}

} // verus!
