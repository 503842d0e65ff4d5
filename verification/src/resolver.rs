//! Which engines can run a title, and in what order they are offered.

use vstd::prelude::*;
use crate::disk::DiskSnapshot;
use crate::engine_data::EngineData;
use crate::iwad_data::IWadID;
use crate::text::{
    lemma_lex_asymmetric, lemma_lex_irreflexive, lemma_lex_total, lemma_lex_transitive, lex_lt,
    name_before, sort_key, str_eq,
};

verus! {

/// The engine can run the title `variant`: the title is among its games and
/// the executable that it starts for the title is on disk.
pub open spec fn is_compatible(engine: EngineData, variant: IWadID, disk: Set<Seq<char>>) -> bool {
    engine.games.spec_intersects(variant) && disk.contains(engine.spec_executable_for(variant)@)
}

/// Tells whether the engine can run the title `variant`.
pub fn compatible(engine: &EngineData, variant: IWadID, disk: &DiskSnapshot) -> (b: bool)
    ensures
        b == is_compatible(*engine, variant, disk@),
{
    engine.games.intersects(variant) && disk.contains(engine.executable_for(variant))
}

/// The bytes by which an engine is ordered: its name, case ignored.
pub open spec fn name_key(engine: EngineData) -> Seq<u8> {
    sort_key(engine.name@, true)
}

/// Entry `i` of the catalog is offered before entry `j`: its name comes
/// first, or the names are equal and it stands first in the catalog.
pub open spec fn offered_before(catalog: Seq<EngineData>, i: int, j: int) -> bool {
    lex_lt(name_key(catalog[i]), name_key(catalog[j])) || (name_key(catalog[i]) == name_key(
        catalog[j],
    ) && i < j)
}

/// Every position of `order` is offered before those that follow it.
pub open spec fn in_offered_order(order: Seq<usize>, catalog: Seq<EngineData>) -> bool {
    forall|a: int, b: int|
        0 <= a < b < order.len() ==> offered_before(
            catalog,
            #[trigger] order[a] as int,
            #[trigger] order[b] as int,
        )
}

/// `order` lists the positions of the compatible engines among the first
/// `n` entries of the catalog, each once, in the order in which they are
/// offered.
pub open spec fn is_display_order(
    order: Seq<usize>,
    catalog: Seq<EngineData>,
    variant: IWadID,
    disk: Set<Seq<char>>,
    n: int,
) -> bool {
    &&& forall|k: int|
        0 <= k < order.len() ==> (#[trigger] order[k]) < n && order[k] < catalog.len()
            && is_compatible(catalog[order[k] as int], variant, disk)
    &&& forall|i: int|
        0 <= i < n && i < catalog.len() && is_compatible(#[trigger] catalog[i], variant, disk)
            ==> order.contains(i as usize)
    &&& in_offered_order(order, catalog)
}

/// The engines at the positions `order` of the catalog.
pub open spec fn entries_at(catalog: Seq<EngineData>, order: Seq<usize>) -> Seq<EngineData> {
    Seq::new(order.len(), |k: int| catalog[order[k] as int])
}

/// Of two different entries exactly one is offered before the other, and
/// no entry is offered before itself.
pub proof fn lemma_offered_total(catalog: Seq<EngineData>, i: int, j: int)
    ensures
        i != j ==> offered_before(catalog, i, j) != offered_before(catalog, j, i),
        !offered_before(catalog, i, i),
{
    let a = name_key(catalog[i]);
    let b = name_key(catalog[j]);
    lemma_lex_total(a, b);
    if lex_lt(a, b) {
        lemma_lex_asymmetric(a, b);
    }
    if lex_lt(b, a) {
        lemma_lex_asymmetric(b, a);
    }
    lemma_lex_irreflexive(a);
}

/// Being offered before is transitive.
pub proof fn lemma_offered_transitive(catalog: Seq<EngineData>, i: int, j: int, k: int)
    requires
        offered_before(catalog, i, j),
        offered_before(catalog, j, k),
    ensures
        offered_before(catalog, i, k),
{
    let a = name_key(catalog[i]);
    let b = name_key(catalog[j]);
    let c = name_key(catalog[k]);
    if lex_lt(a, b) && lex_lt(b, c) {
        lemma_lex_transitive(a, b, c);
    }
}

/// Two lists in offered order that hold the same positions are the same
/// list.
pub proof fn lemma_same_entries_same_list(
    first: Seq<usize>,
    second: Seq<usize>,
    catalog: Seq<EngineData>,
)
    requires
        in_offered_order(first, catalog),
        in_offered_order(second, catalog),
        forall|x: usize| first.contains(x) <==> second.contains(x),
    ensures
        first == second,
    decreases first.len(),
{
    if first.len() == 0 {
        if second.len() > 0 {
            assert(second.contains(second[0]));
        }
        assert(first =~= second);
    } else {
        assert(first.contains(first[0]));
        let j = choose|j: int| 0 <= j < second.len() && second[j] == first[0];
        assert(second.contains(second[0]));
        let i = choose|i: int| 0 <= i < first.len() && first[i] == second[0];
        if first[0] != second[0] {
            assert(offered_before(catalog, second[0] as int, second[j] as int));
            assert(offered_before(catalog, first[0] as int, first[i] as int));
            lemma_offered_total(catalog, first[0] as int, second[0] as int);
        }
        let head = first[0];
        let first_rest = first.drop_first();
        let second_rest = second.drop_first();
        lemma_offered_total(catalog, head as int, head as int);
        assert forall|x: usize| first_rest.contains(x) <==> second_rest.contains(x) by {
            if first_rest.contains(x) {
                let k = choose|k: int| 0 <= k < first_rest.len() && first_rest[k] == x;
                assert(first[k + 1] == x);
                assert(offered_before(catalog, first[0] as int, first[k + 1] as int));
                assert(first.contains(x));
                let m = choose|m: int| 0 <= m < second.len() && second[m] == x;
                assert(second_rest[m - 1] == x);
            }
            if second_rest.contains(x) {
                let k = choose|k: int| 0 <= k < second_rest.len() && second_rest[k] == x;
                assert(second[k + 1] == x);
                assert(offered_before(catalog, second[0] as int, second[k + 1] as int));
                assert(second.contains(x));
                let m = choose|m: int| 0 <= m < first.len() && first[m] == x;
                assert(first_rest[m - 1] == x);
            }
        }
        assert(in_offered_order(first_rest, catalog)) by {
            assert forall|a: int, b: int| 0 <= a < b < first_rest.len() implies offered_before(
                catalog,
                #[trigger] first_rest[a] as int,
                #[trigger] first_rest[b] as int,
            ) by {
                assert(offered_before(catalog, first[a + 1] as int, first[b + 1] as int));
            }
        }
        assert(in_offered_order(second_rest, catalog)) by {
            assert forall|a: int, b: int| 0 <= a < b < second_rest.len() implies offered_before(
                catalog,
                #[trigger] second_rest[a] as int,
                #[trigger] second_rest[b] as int,
            ) by {
                assert(offered_before(catalog, second[a + 1] as int, second[b + 1] as int));
            }
        }
        lemma_same_entries_same_list(first_rest, second_rest, catalog);
        assert(first =~= seq![head] + first_rest);
        assert(second =~= seq![head] + second_rest);
    }
}

/// The order in which the compatible engines are offered is determined by
/// the catalog, the title and the disk: two lists that both are the display
/// order are the same list.
pub proof fn lemma_display_order_unique(
    first: Seq<usize>,
    second: Seq<usize>,
    catalog: Seq<EngineData>,
    variant: IWadID,
    disk: Set<Seq<char>>,
    n: int,
)
    requires
        is_display_order(first, catalog, variant, disk, n),
        is_display_order(second, catalog, variant, disk, n),
    ensures
        first == second,
{
    assert forall|x: usize| first.contains(x) <==> second.contains(x) by {
        if first.contains(x) {
            let k = choose|k: int| 0 <= k < first.len() && first[k] == x;
            assert(is_compatible(catalog[first[k] as int], variant, disk));
        }
        if second.contains(x) {
            let k = choose|k: int| 0 <= k < second.len() && second[k] == x;
            assert(is_compatible(catalog[second[k] as int], variant, disk));
        }
    }
    lemma_same_entries_same_list(first, second, catalog);
}

/// Lists the positions in the catalog of the engines that can run the
/// title `variant`, in the order in which they are offered: by name, case
/// ignored, and by position in the catalog where names are equal.
pub fn compatible_engine_indices(
    catalog: &Vec<EngineData>,
    variant: IWadID,
    disk: &DiskSnapshot,
) -> (order: Vec<usize>)
    ensures
        is_display_order(order@, catalog@, variant, disk@, catalog@.len() as int),
{
    let mut order: Vec<usize> = Vec::new();
    let mut i: usize = 0;
    while i < catalog.len()
        invariant
            i <= catalog@.len(),
            is_display_order(order@, catalog@, variant, disk@, i as int),
        decreases catalog.len() - i,
    {
        let ghost before = order@;
        if compatible(&catalog[i], variant, disk) {
            let mut p: usize = order.len();
            while p > 0 && name_before(catalog[i].name, catalog[order[p - 1]].name, true)
                invariant
                    p <= order@.len(),
                    i < catalog@.len(),
                    order@ == before,
                    is_display_order(before, catalog@, variant, disk@, i as int),
                    forall|k: int|
                        p <= k < before.len() ==> lex_lt(
                            name_key(catalog@[i as int]),
                            name_key(catalog@[(#[trigger] before[k]) as int]),
                        ),
                decreases p,
            {
                p = p - 1;
            }
            order.insert(p, i);
            proof {
                let after = order@;
                let c = catalog@;
                assert(after =~= before.insert(p as int, i));
                assert forall|a: int, b: int| 0 <= a < b < after.len() implies offered_before(
                    c,
                    #[trigger] after[a] as int,
                    #[trigger] after[b] as int,
                ) by {
                    if b == p {
                        // every earlier position holds a smaller index; its
                        // name is not after the new one
                        assert(after[a] == before[a]);
                        assert(before[a] < i);
                        let last = before[p - 1];
                        lemma_offered_total(c, last as int, i as int);
                        assert(offered_before(c, last as int, i as int));
                        if a < p - 1 {
                            assert(offered_before(c, before[a] as int, before[p - 1] as int));
                            lemma_offered_transitive(c, before[a] as int, last as int, i as int);
                        }
                    } else if a == p {
                        assert(after[b] == before[b - 1]);
                    } else {
                        let a0 = if a < p {
                            a
                        } else {
                            a - 1
                        };
                        let b0 = if b < p {
                            b
                        } else {
                            b - 1
                        };
                        assert(after[a] == before[a0]);
                        assert(after[b] == before[b0]);
                    }
                }
                assert forall|k: int| 0 <= k < after.len() implies (#[trigger] after[k]) < i + 1
                    && after[k] < c.len() && is_compatible(c[after[k] as int], variant, disk@) by {
                    if k < p {
                        assert(after[k] == before[k]);
                    } else if k > p {
                        assert(after[k] == before[k - 1]);
                    }
                }
                assert forall|j: int|
                    0 <= j < i + 1 && j < c.len() && is_compatible(
                        #[trigger] c[j],
                        variant,
                        disk@,
                    ) implies after.contains(j as usize) by {
                    if j == i {
                        assert(after[p as int] == i);
                    } else {
                        assert(before.contains(j as usize));
                        let k = choose|k: int| 0 <= k < before.len() && before[k] == j as usize;
                        let k1 = if k < p {
                            k
                        } else {
                            k + 1
                        };
                        assert(after[k1] == j as usize);
                    }
                }
            }
        }
        i = i + 1;
    }
    order
}

/// Lists the engines that can run the title `variant`, in the order in
/// which they are offered.
///
/// An engine is listed exactly when the title is among its games and the
/// executable that it starts for the title is on disk. The list is in
/// ascending order of name, case ignored; engines of equal name keep the
/// order of the catalog.
pub fn compatible_engines(catalog: &Vec<EngineData>, variant: IWadID, disk: &DiskSnapshot) -> (engines:
    Vec<EngineData>)
    ensures
        exists|order: Seq<usize>|
            is_display_order(order, catalog@, variant, disk@, catalog@.len() as int) && engines@
                == entries_at(catalog@, order),
        forall|engine: EngineData|
            engines@.contains(engine) <==> catalog@.contains(engine) && is_compatible(
                engine,
                variant,
                disk@,
            ),
        forall|a: int, b: int|
            0 <= a < b < engines@.len() ==> !lex_lt(
                name_key(#[trigger] engines@[b]),
                name_key(#[trigger] engines@[a]),
            ),
{
    let order = compatible_engine_indices(catalog, variant, disk);
    let count = catalog.len();
    let mut engines: Vec<EngineData> = Vec::new();
    let mut k: usize = 0;
    while k < order.len()
        invariant
            k <= order@.len(),
            is_display_order(order@, catalog@, variant, disk@, catalog@.len() as int),
            engines@.len() == k,
            forall|j: int| 0 <= j < k ==> #[trigger] engines@[j] == catalog@[order@[j] as int],
        decreases order.len() - k,
    {
        engines.push(catalog[order[k]]);
        k = k + 1;
    }
    proof {
        let c = catalog@;
        let o = order@;
        assert(c.len() == count);
        assert(engines@ =~= entries_at(c, o));
        assert forall|engine: EngineData|
            engines@.contains(engine) <==> c.contains(engine) && is_compatible(
                engine,
                variant,
                disk@,
            ) by {
            if engines@.contains(engine) {
                let j = choose|j: int| 0 <= j < engines@.len() && engines@[j] == engine;
                assert(c[o[j] as int] == engine);
            }
            if c.contains(engine) && is_compatible(engine, variant, disk@) {
                let i = choose|i: int| 0 <= i < c.len() && c[i] == engine;
                assert(is_compatible(c[i], variant, disk@));
                assert(o.contains(i as usize));
                let j = choose|j: int| 0 <= j < o.len() && o[j] == i as usize;
                assert(engines@[j] == engine);
            }
        }
        assert forall|a: int, b: int| 0 <= a < b < engines@.len() implies !lex_lt(
            name_key(#[trigger] engines@[b]),
            name_key(#[trigger] engines@[a]),
        ) by {
            assert(offered_before(c, o[a] as int, o[b] as int));
            lemma_offered_total(c, o[a] as int, o[b] as int);
            lemma_offered_total(c, o[a] as int, o[a] as int);
        }
    }
    engines
}

/// `at` is where the engine named `name` stands in `engines`: the place of
/// the first such engine, or the start of the list where there is none.
pub open spec fn is_engine_position(engines: Seq<EngineData>, name: Seq<char>, at: int) -> bool {
    if exists|i: int| 0 <= i < engines.len() && (#[trigger] engines[i]).name@ == name {
        &&& 0 <= at < engines.len()
        &&& engines[at].name@ == name
        &&& forall|i: int| 0 <= i < at ==> (#[trigger] engines[i]).name@ != name
    } else {
        at == 0
    }
}

/// Finds the engine to select for a remembered name.
pub fn engine_position(engines: &Vec<EngineData>, name: &str) -> (at: usize)
    ensures
        is_engine_position(engines@, name@, at as int),
{
    let mut i: usize = 0;
    while i < engines.len()
        invariant
            i <= engines@.len(),
            forall|j: int| 0 <= j < i ==> (#[trigger] engines@[j]).name@ != name@,
        decreases engines.len() - i,
    {
        if str_eq(engines[i].name, name) {
            return i;
        }
        i = i + 1;
    }
    0
}

/// Lists the paths that the resolver looks for on disk: for each engine of
/// the catalog, the executable that it starts for the title `variant`.
pub fn resolver_probes(catalog: &Vec<EngineData>, variant: IWadID) -> (paths: Vec<String>)
    ensures
        paths@.len() == catalog@.len(),
        forall|i: int|
            0 <= i < catalog@.len() ==> (#[trigger] paths@[i])@ == catalog@[i].spec_executable_for(
                variant,
            )@,
{
    let mut paths: Vec<String> = Vec::new();
    let mut i: usize = 0;
    while i < catalog.len()
        invariant
            i <= catalog@.len(),
            paths@.len() == i,
            forall|j: int|
                0 <= j < i ==> (#[trigger] paths@[j])@ == catalog@[j].spec_executable_for(variant)@,
        decreases catalog.len() - i,
    {
        paths.push(catalog[i].executable_for(variant).to_owned());
        i = i + 1;
    }
    paths
}

} // verus!
