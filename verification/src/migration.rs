//! The sweep that turns the contexts of legacy bundles into registered
//! clusters: what is decided for each discovered context, and why a sweep
//! over the same contexts registers none of them twice.

use crate::input_validation::{
    cluster_name_outcome, context_name_outcome, validate_cluster_name, validate_context_name,
};
use vstd::prelude::*;

verus! {

/// The names under which a migrated context is registered.
#[derive(Debug, Clone)]
pub struct MigrationNames {
    /// The display name of the new cluster: the context's name.
    pub name: String,
    /// The validated name of the context.
    pub context_name: String,
}

pub struct MigrationNamesView {
    pub name: Seq<char>,
    pub context_name: Seq<char>,
}

impl View for MigrationNames {
    type V = MigrationNamesView;

    open spec fn view(&self) -> MigrationNamesView {
        MigrationNamesView { name: self.name@, context_name: self.context_name@ }
    }
}

/// The names for a discovered context, or the line that says why it is
/// passed over: its name must be valid as a context name and, checked
/// second, as a cluster name.
pub open spec fn migration_names_of(raw: Seq<char>) -> Result<MigrationNamesView, Seq<char>> {
    match context_name_outcome(raw) {
        Err(m) => Err("Skipping invalid context name '"@ + raw + "': "@ + m),
        Ok(c) => match cluster_name_outcome(raw) {
            Err(m) => Err("Skipping invalid cluster name '"@ + raw + "': "@ + m),
            Ok(n) => Ok(MigrationNamesView { name: n, context_name: c }),
        },
    }
}

fn skipped(what: &str, raw: &str, why: &str) -> (line: String)
    ensures
        line@ == what@ + raw@ + "': "@ + why@,
{
    let mut line = String::from_str(what);
    line.append(raw);
    line.append("': ");
    line.append(why);
    line
}

/// Validates the name of a discovered context for registration.
pub fn migration_names(context_name: &str) -> (r: Result<MigrationNames, String>)
    ensures
        match migration_names_of(context_name@) {
            Ok(v) => r matches Ok(names) && names@ == v,
            Err(line) => r matches Err(m) && m@ == line,
        },
{
    let validated_context = match validate_context_name(String::from_str(context_name)) {
        Ok(v) => v,
        Err(e) => {
            return Err(skipped("Skipping invalid context name '", context_name, e.as_str()));
        },
    };
    let validated_name = match validate_cluster_name(String::from_str(context_name)) {
        Ok(v) => v,
        Err(e) => {
            return Err(skipped("Skipping invalid cluster name '", context_name, e.as_str()));
        },
    };
    Ok(MigrationNames { name: validated_name, context_name: validated_context })
}

/// Whether the registry's answer to "how many clusters have this context
/// name" means that the context is registered. An answer that could not be
/// had counts as none.
pub open spec fn counts_as_registered(count: Option<i64>) -> bool {
    match count {
        Some(n) => n > 0,
        None => false,
    }
}

pub fn is_registered(count: Option<i64>) -> (b: bool)
    ensures
        b == counts_as_registered(count),
{
    match count {
        Some(n) => n > 0,
        None => false,
    }
}

// ---------------------------------------------------------------------------
// The sweep as a whole
// ---------------------------------------------------------------------------

/// The state of a sweep: the context names that the registry holds, and the
/// names migrated so far, in their order.
pub struct SweepState {
    pub registered: Set<Seq<char>>,
    pub migrated: Seq<Seq<char>>,
}

/// The validated context name of a discovered context whose name is valid.
pub open spec fn context_of(raw: Seq<char>) -> Seq<char> {
    migration_names_of(raw)->Ok_0.context_name
}

/// One step of the sweep, for the discovered context named `raw`, where
/// the registry answered `count` when asked how many clusters have that
/// context name. A context whose name is invalid, or that counts as
/// registered, or whose extraction fails, is passed over. Else it is
/// registered and reported as migrated.
pub open spec fn sweep_step(
    state: SweepState,
    raw: Seq<char>,
    count: Option<i64>,
    extracted: bool,
) -> SweepState {
    if migration_names_of(raw) is Err || counts_as_registered(count) || !extracted {
        state
    } else {
        SweepState {
            registered: state.registered.insert(context_of(raw)),
            migrated: state.migrated.push(context_of(raw)),
        }
    }
}

/// The sweep over the first `upto` discovered contexts, starting from a
/// registry that holds `registered`. `counts(i)` is what the registry
/// answers for the context at `i`, and `extracted(i)` says whether the
/// extraction of that context succeeds.
pub open spec fn sweep(
    registered: Set<Seq<char>>,
    discovered: Seq<Seq<char>>,
    counts: spec_fn(int) -> Option<i64>,
    extracted: spec_fn(int) -> bool,
    upto: int,
) -> SweepState
    decreases upto,
{
    if upto <= 0 {
        SweepState { registered, migrated: Seq::empty() }
    } else {
        sweep_step(
            sweep(registered, discovered, counts, extracted, upto - 1),
            discovered[upto - 1],
            counts(upto - 1),
            extracted(upto - 1),
        )
    }
}

/// Whether the registry answers truly during the first `upto` steps of a
/// sweep: asked for a context with a valid name, its answer counts as
/// registered exactly when the registry holds that name at that step.
pub open spec fn answers_truly(
    registered: Set<Seq<char>>,
    discovered: Seq<Seq<char>>,
    counts: spec_fn(int) -> Option<i64>,
    extracted: spec_fn(int) -> bool,
    upto: int,
) -> bool {
    forall|i: int|
        0 <= i < upto && migration_names_of(discovered[i]) is Ok ==> counts_as_registered(
            #[trigger] counts(i),
        ) == sweep(registered, discovered, counts, extracted, i).registered.contains(
            context_of(discovered[i]),
        )
}

/// Whether the context at `i` would be migrated if the registry did not
/// hold it: its name is valid and its extraction succeeds.
pub open spec fn migratable(discovered: Seq<Seq<char>>, extracted: spec_fn(int) -> bool, i: int) -> bool {
    migration_names_of(discovered[i]) is Ok && extracted(i)
}

/// Whether one of the first `upto` discovered contexts is migratable and
/// has the validated name `name`.
pub open spec fn migratable_below(
    discovered: Seq<Seq<char>>,
    extracted: spec_fn(int) -> bool,
    upto: int,
    name: Seq<char>,
) -> bool {
    exists|i: int|
        0 <= i < upto && #[trigger] migratable(discovered, extracted, i) && context_of(
            discovered[i],
        ) == name
}

proof fn lemma_sweep_grows(
    registered: Set<Seq<char>>,
    discovered: Seq<Seq<char>>,
    counts: spec_fn(int) -> Option<i64>,
    extracted: spec_fn(int) -> bool,
    upto: int,
)
    requires
        answers_truly(registered, discovered, counts, extracted, upto),
    ensures
        forall|name: Seq<char>|
            #![trigger sweep(registered, discovered, counts, extracted, upto).registered.contains(name)]
            sweep(registered, discovered, counts, extracted, upto).registered.contains(name) <==> (
            registered.contains(name) || sweep(
                registered,
                discovered,
                counts,
                extracted,
                upto,
            ).migrated.contains(name)),
        forall|name: Seq<char>|
            #![trigger sweep(registered, discovered, counts, extracted, upto).migrated.contains(name)]
            sweep(registered, discovered, counts, extracted, upto).migrated.contains(name) <==> (
            !registered.contains(name) && migratable_below(discovered, extracted, upto, name)),
        sweep(registered, discovered, counts, extracted, upto).migrated.no_duplicates(),
    decreases upto,
{
    let after = sweep(registered, discovered, counts, extracted, upto);
    if upto > 0 {
        lemma_sweep_grows(registered, discovered, counts, extracted, upto - 1);
        let before = sweep(registered, discovered, counts, extracted, upto - 1);
        let raw = discovered[upto - 1];
        let count = counts(upto - 1);
        let taken = migratable(discovered, extracted, upto - 1);
        assert(after == sweep_step(before, raw, count, extracted(upto - 1)));
        if taken {
            assert(counts_as_registered(count) == before.registered.contains(context_of(raw)));
        }
        let added = taken && !counts_as_registered(count);
        if added {
            assert(after.migrated == before.migrated.push(context_of(raw)));
            assert(after.migrated.last() == context_of(raw));
            assert(after.migrated.drop_last() =~= before.migrated);
        } else {
            assert(after == before);
        }
        assert forall|name: Seq<char>| after.migrated.contains(name) <==> (before.migrated.contains(
            name,
        ) || (added && name == context_of(raw))) by {
            if added {
                if before.migrated.contains(name) {
                    let k = choose|k: int| 0 <= k < before.migrated.len() && before.migrated[k] == name;
                    assert(after.migrated[k] == name);
                }
                if after.migrated.contains(name) {
                    let k = choose|k: int| 0 <= k < after.migrated.len() && after.migrated[k] == name;
                    if k < before.migrated.len() {
                        assert(before.migrated[k] == name);
                    }
                }
            }
        }
        assert forall|name: Seq<char>| migratable_below(discovered, extracted, upto, name) <==> (
        migratable_below(discovered, extracted, upto - 1, name) || (taken && name == context_of(
            raw,
        ))) by {
            if migratable_below(discovered, extracted, upto, name) {
                let i = choose|i: int|
                    0 <= i < upto && #[trigger] migratable(discovered, extracted, i) && context_of(
                        discovered[i],
                    ) == name;
                if i < upto - 1 {
                    assert(migratable_below(discovered, extracted, upto - 1, name));
                }
            }
            if migratable_below(discovered, extracted, upto - 1, name) {
                let i = choose|i: int|
                    0 <= i < upto - 1 && #[trigger] migratable(discovered, extracted, i)
                        && context_of(discovered[i]) == name;
                assert(migratable(discovered, extracted, i));
            }
            if taken && name == context_of(raw) {
                assert(migratable(discovered, extracted, upto - 1));
            }
        }
        assert forall|name: Seq<char>| after.registered.contains(name) <==> (registered.contains(
            name,
        ) || after.migrated.contains(name)) by {
            assert(before.registered.contains(name) <==> (registered.contains(name)
                || before.migrated.contains(name)));
        }
        assert forall|name: Seq<char>| after.migrated.contains(name) <==> (!registered.contains(
            name,
        ) && migratable_below(discovered, extracted, upto, name)) by {
            assert(before.migrated.contains(name) <==> (!registered.contains(name)
                && migratable_below(discovered, extracted, upto - 1, name)));
            assert(before.registered.contains(name) <==> (registered.contains(name)
                || before.migrated.contains(name)));
        }
        if added {
            assert(!before.migrated.contains(context_of(raw))) by {
                assert(before.registered.contains(context_of(raw)) <==> (registered.contains(
                    context_of(raw),
                ) || before.migrated.contains(context_of(raw))));
            }
            assert forall|i: int, j: int|
                0 <= i < after.migrated.len() && 0 <= j < after.migrated.len() && i != j implies
                after.migrated[i] != after.migrated[j] by {
                if i < before.migrated.len() && j < before.migrated.len() {
                    assert(before.migrated[i] != before.migrated[j]);
                } else if i < before.migrated.len() {
                    assert(before.migrated.contains(before.migrated[i]));
                } else {
                    assert(before.migrated.contains(before.migrated[j]));
                }
            }
        }
    } else {
        assert forall|name: Seq<char>| !after.migrated.contains(name) by {}
        assert forall|name: Seq<char>| !migratable_below(discovered, extracted, upto, name) by {}
    }
}

/// A sweep in a registry that answers truly reports no context name twice,
/// and none that the registry held before; every name it reports is
/// registered afterwards, and what was registered before stays so.
pub proof fn law_sweep_registers_once(
    registered: Set<Seq<char>>,
    discovered: Seq<Seq<char>>,
    counts: spec_fn(int) -> Option<i64>,
    extracted: spec_fn(int) -> bool,
)
    requires
        answers_truly(registered, discovered, counts, extracted, discovered.len() as int),
    ensures
        sweep(registered, discovered, counts, extracted, discovered.len() as int).migrated.no_duplicates(),
        forall|k: int|
            0 <= k < sweep(
                registered,
                discovered,
                counts,
                extracted,
                discovered.len() as int,
            ).migrated.len() ==> !registered.contains(
                #[trigger] sweep(
                    registered,
                    discovered,
                    counts,
                    extracted,
                    discovered.len() as int,
                ).migrated[k],
            ) && sweep(
                registered,
                discovered,
                counts,
                extracted,
                discovered.len() as int,
            ).registered.contains(
                sweep(registered, discovered, counts, extracted, discovered.len() as int).migrated[k],
            ),
        registered.subset_of(
            sweep(registered, discovered, counts, extracted, discovered.len() as int).registered,
        ),
{
    let n = discovered.len() as int;
    let after = sweep(registered, discovered, counts, extracted, n);
    lemma_sweep_grows(registered, discovered, counts, extracted, n);
    assert forall|k: int| 0 <= k < after.migrated.len() implies !registered.contains(
        #[trigger] after.migrated[k],
    ) && after.registered.contains(after.migrated[k]) by {
        assert(after.migrated.contains(after.migrated[k]));
    }
    assert forall|name: Seq<char>| registered.contains(name) implies after.registered.contains(
        name,
    ) by {}
}

/// In a registry that answers truly, a sweep migrates a context name
/// exactly when the registry did not hold it before and one of the
/// discovered contexts has that validated name and is extracted; and the
/// registry afterwards holds what it held before and what was migrated.
pub proof fn law_migrated_exactly_when(
    registered: Set<Seq<char>>,
    discovered: Seq<Seq<char>>,
    counts: spec_fn(int) -> Option<i64>,
    extracted: spec_fn(int) -> bool,
    name: Seq<char>,
)
    requires
        answers_truly(registered, discovered, counts, extracted, discovered.len() as int),
    ensures
        sweep(registered, discovered, counts, extracted, discovered.len() as int).migrated.contains(
            name,
        ) <==> (!registered.contains(name) && migratable_below(
            discovered,
            extracted,
            discovered.len() as int,
            name,
        )),
        sweep(registered, discovered, counts, extracted, discovered.len() as int).registered.contains(
            name,
        ) <==> (registered.contains(name) || sweep(
            registered,
            discovered,
            counts,
            extracted,
            discovered.len() as int,
        ).migrated.contains(name)),
{
    lemma_sweep_grows(registered, discovered, counts, extracted, discovered.len() as int);
}

proof fn lemma_sweep_of_registered(
    registered: Set<Seq<char>>,
    discovered: Seq<Seq<char>>,
    counts: spec_fn(int) -> Option<i64>,
    extracted: spec_fn(int) -> bool,
    upto: int,
)
    requires
        answers_truly(registered, discovered, counts, extracted, upto),
        forall|i: int|
            0 <= i < upto && #[trigger] migratable(discovered, extracted, i)
                ==> registered.contains(context_of(discovered[i])),
    ensures
        sweep(registered, discovered, counts, extracted, upto) == (SweepState {
            registered,
            migrated: Seq::empty(),
        }),
    decreases upto,
{
    if upto > 0 {
        lemma_sweep_of_registered(registered, discovered, counts, extracted, upto - 1);
        if migratable(discovered, extracted, upto - 1) {
            assert(registered.contains(context_of(discovered[upto - 1])));
            assert(counts_as_registered(counts(upto - 1)));
        }
    }
}

/// A second sweep over the same discovered contexts, in a registry that
/// holds what the first sweep left and answers truly both times, and where
/// each extraction ends as it did the first time, migrates nothing and
/// leaves the registry as it is.
pub proof fn law_second_sweep_migrates_nothing(
    registered: Set<Seq<char>>,
    discovered: Seq<Seq<char>>,
    counts: spec_fn(int) -> Option<i64>,
    again: spec_fn(int) -> Option<i64>,
    extracted: spec_fn(int) -> bool,
)
    requires
        answers_truly(registered, discovered, counts, extracted, discovered.len() as int),
        answers_truly(
            sweep(registered, discovered, counts, extracted, discovered.len() as int).registered,
            discovered,
            again,
            extracted,
            discovered.len() as int,
        ),
    ensures
        sweep(
            sweep(registered, discovered, counts, extracted, discovered.len() as int).registered,
            discovered,
            again,
            extracted,
            discovered.len() as int,
        ) == (SweepState {
            registered: sweep(
                registered,
                discovered,
                counts,
                extracted,
                discovered.len() as int,
            ).registered,
            migrated: Seq::empty(),
        }),
{
    let n = discovered.len() as int;
    let first = sweep(registered, discovered, counts, extracted, n);
    lemma_sweep_grows(registered, discovered, counts, extracted, n);
    assert forall|i: int| 0 <= i < n && #[trigger] migratable(discovered, extracted, i) implies
        first.registered.contains(context_of(discovered[i])) by {
        let name = context_of(discovered[i]);
        assert(migratable_below(discovered, extracted, n, name));
        assert(first.migrated.contains(name) <==> (!registered.contains(name)
            && migratable_below(discovered, extracted, n, name)));
        assert(first.registered.contains(name) <==> (registered.contains(name)
            || first.migrated.contains(name)));
    }
    lemma_sweep_of_registered(first.registered, discovered, again, extracted, n);
}

} // verus!
