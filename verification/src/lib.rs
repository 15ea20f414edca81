//! Search for crafting rotations: a simulator of the craft, and a two-phase
//! search that first brings the craft within reach of completion and then
//! raises its quality as far as the crafting points allow.

use crate::action::ActionList;
use crate::craft::{views, Craft, CraftView};
use crate::frontier::{phase1_found, phase2_routes, touches_cost};
use crate::io::Parameters;
use crate::results::{Info, SolverResult};
use crate::solver::{generate_routes_phase1, generate_routes_phase2};
use crate::specs::{Recipe, Stats};
use vstd::prelude::*;

pub mod action;
pub mod config;
pub mod craft;
pub mod frontier;
pub mod io;
pub mod laws;
pub mod numbers;
pub mod results;
pub mod solver;
pub mod specs;
pub mod text;

verus! {

/// What the second phase returns for a list of seeds: the crafts of each
/// seed in turn, none for a seed on a catalog whose touches are free.
pub open spec fn phase2_all<'a>(seeds: Seq<CraftView<'a>>) -> Seq<CraftView<'a>>
    decreases seeds.len(),
{
    if seeds.len() == 0 {
        Seq::empty()
    } else if touches_cost(seeds.last().catalog) {
        phase2_all(seeds.drop_last()) + phase2_routes(seeds.last())
    } else {
        phase2_all(seeds.drop_last())
    }
}

/// The crafts of a list that meet the quality target of their recipe, in
/// order.
pub open spec fn meeting<'a>(routes: Seq<CraftView<'a>>) -> Seq<CraftView<'a>>
    decreases routes.len(),
{
    if routes.len() == 0 {
        Seq::empty()
    } else if routes.last().quality >= routes.last().recipe.quality {
        meeting(routes.drop_last()).push(routes.last())
    } else {
        meeting(routes.drop_last())
    }
}

/// The crafts a search reports: those that meet the quality target, or all
/// of them where none does.
pub open spec fn reported<'a>(routes: Seq<CraftView<'a>>) -> Seq<CraftView<'a>> {
    if meeting(routes).len() > 0 {
        meeting(routes)
    } else {
        routes
    }
}

/// Whether `results` holds the record of each craft of `crafts`, in order.
pub open spec fn records_of(results: Seq<SolverResult>, crafts: Seq<CraftView>) -> bool {
    &&& results.len() == crafts.len()
    &&& forall|i: int| 0 <= i < results.len() ==> (#[trigger] results[i]).describes(crafts[i])
}

/// The answer of a search whose second phase returned `routes` for `seeds`
/// seeds: nothing where it returned no craft, else the records of the crafts
/// to report, with the summary.
pub open spec fn is_answer(
    answer: Option<(Vec<SolverResult>, Info)>,
    routes: Seq<CraftView>,
    seeds: nat,
) -> bool {
    match answer {
        None => routes.len() == 0,
        Some((results, info)) => {
            &&& routes.len() > 0
            &&& records_of(results@, reported(routes))
            &&& info.step1_solutions == seeds
            &&& info.step2_solutions == routes.len()
            &&& info.found_100_percent == (meeting(routes).len() > 0)
        },
    }
}

/// Turns the crafts that the second phase returned into the answer of the
/// search: the records of the crafts that meet the quality target, or of
/// all crafts where none meets it.
pub fn collect_results(routes: &Vec<Craft>, seeds: usize) -> (r: Option<(Vec<SolverResult>, Info)>)
    ensures
        is_answer(r, views(routes@), seeds as nat),
{
    let n = routes.len();
    if n == 0 {
        return None;
    }
    let ghost crafts = views(routes@);
    let mut results: Vec<SolverResult> = Vec::new();
    let mut i: usize = 0;
    while i < n
        invariant
            n == routes@.len(),
            crafts == views(routes@),
            i <= n,
            records_of(results@, meeting(crafts.take(i as int))),
        decreases n - i,
    {
        assert(crafts.take(i + 1).drop_last() == crafts.take(i as int));
        if routes[i].quality >= routes[i].recipe.quality {
            results.push(SolverResult::from_craft(&routes[i]));
        }
        i = i + 1;
    }
    assert(crafts.take(n as int) == crafts);
    let met = results.len() > 0;
    if !met {
        let mut j: usize = 0;
        while j < n
            invariant
                n == routes@.len(),
                crafts == views(routes@),
                j <= n,
                results@.len() == j,
                forall|k: int| 0 <= k < j ==> (#[trigger] results@[k]).describes(crafts[k]),
            decreases n - j,
        {
            results.push(SolverResult::from_craft(&routes[j]));
            j = j + 1;
        }
    }
    Some((results, Info::new(seeds, n, met)))
}

/// Searches for rotations: the first phase finds the seeds, the second
/// phase works on each seed in turn, and the crafts it returns make the
/// answer. There is no answer where the first phase finds no seed, nor on a
/// catalog whose touches are free.
pub fn solve_craft<'a>(
    recipe: Recipe,
    stats: Stats,
    params: Parameters,
    catalog: &'a ActionList,
) -> (r: Option<(Vec<SolverResult>, Info)>)
    ensures
        is_answer(
            r,
            phase2_all(phase1_found(seq![CraftView::start(recipe, stats, params, catalog)])),
            phase1_found(seq![CraftView::start(recipe, stats, params, catalog)]).len(),
        ),
{
    let craft = Craft::new(recipe, stats, params, catalog);
    let seeds = generate_routes_phase1(craft);
    let n = seeds.len();
    let ghost found = views(seeds@);
    let mut routes: Vec<Craft<'a>> = Vec::new();
    let mut i: usize = 0;
    while i < n
        invariant
            n == seeds@.len(),
            found == views(seeds@),
            i <= n,
            forall|k: int| 0 <= k < seeds@.len() ==> (#[trigger] seeds@[k])@.catalog == catalog,
            views(routes@) == phase2_all(found.take(i as int)),
        decreases n - i,
    {
        assert(found.take(i + 1).drop_last() == found.take(i as int));
        match generate_routes_phase2(seeds[i].clone()) {
            Some(mut more) => {
                routes.append(&mut more);
            },
            None => {},
        }
        i = i + 1;
    }
    assert(found.take(n as int) == found);
    collect_results(&routes, n)
}

/// Whether `keys[i]` is the least key and the first such.
pub open spec fn first_least(keys: Seq<int>, i: int) -> bool {
    &&& 0 <= i < keys.len()
    &&& forall|j: int| 0 <= j < keys.len() ==> keys[i] <= #[trigger] keys[j]
    &&& forall|j: int| 0 <= j < i ==> keys[i] < #[trigger] keys[j]
}

/// Whether `keys[i]` is the greatest key and the last such.
pub open spec fn last_greatest(keys: Seq<int>, i: int) -> bool {
    &&& 0 <= i < keys.len()
    &&& forall|j: int| 0 <= j < keys.len() ==> keys[i] >= #[trigger] keys[j]
    &&& forall|j: int| i < j < keys.len() ==> keys[i] > #[trigger] keys[j]
}

/// The step counts of a list of records.
pub open spec fn steps_of(results: Seq<SolverResult>) -> Seq<int> {
    Seq::new(results.len(), |i: int| results[i].steps as int)
}

/// The qualities of a list of records.
pub open spec fn qualities_of(results: Seq<SolverResult>) -> Seq<int> {
    Seq::new(results.len(), |i: int| results[i].quality as int)
}

/// The durabilities of a list of records.
pub open spec fn durabilities_of(results: Seq<SolverResult>) -> Seq<int> {
    Seq::new(results.len(), |i: int| results[i].durability as int)
}

/// The rotation with the fewest steps; of several the first.
pub fn find_fast_route<'a>(routes: &'a (Vec<SolverResult>, Info)) -> (r: Option<&'a SolverResult>)
    ensures
        routes.0@.len() == 0 <==> r.is_none(),
        r.is_some() ==> exists|i: int| #[trigger]
            first_least(steps_of(routes.0@), i) && *r.unwrap() == routes.0@[i],
{
    let list = &routes.0;
    let n = list.len();
    if n == 0 {
        return None;
    }
    let mut best: usize = 0;
    let mut i: usize = 1;
    while i < n
        invariant
            n == list@.len(),
            1 <= i <= n,
            best < i,
            forall|j: int| 0 <= j < i ==> list@[best as int].steps <= (#[trigger] list@[j]).steps,
            forall|j: int| 0 <= j < best ==> list@[best as int].steps < (#[trigger] list@[j]).steps,
        decreases n - i,
    {
        if list[i].steps < list[best].steps {
            best = i;
        }
        i = i + 1;
    }
    assert(first_least(steps_of(list@), best as int));
    Some(&list[best])
}

/// The rotation of the highest quality; of several the last.
pub fn find_quality_route<'a>(routes: &'a (Vec<SolverResult>, Info)) -> (r: Option<
    &'a SolverResult,
>)
    ensures
        routes.0@.len() == 0 <==> r.is_none(),
        r.is_some() ==> exists|i: int| #[trigger]
            last_greatest(qualities_of(routes.0@), i) && *r.unwrap() == routes.0@[i],
{
    let list = &routes.0;
    let n = list.len();
    if n == 0 {
        return None;
    }
    let mut best: usize = 0;
    let mut i: usize = 1;
    while i < n
        invariant
            n == list@.len(),
            1 <= i <= n,
            best < i,
            forall|j: int| 0 <= j < i ==> list@[best as int].quality >= (#[trigger] list@[j]).quality,
            forall|j: int|
                best < j < i ==> list@[best as int].quality > (#[trigger] list@[j]).quality,
        decreases n - i,
    {
        if list[i].quality >= list[best].quality {
            best = i;
        }
        i = i + 1;
    }
    assert(last_greatest(qualities_of(list@), best as int));
    Some(&list[best])
}

/// The rotation that leaves the most durability; of several the last.
pub fn find_safe_route<'a>(routes: &'a (Vec<SolverResult>, Info)) -> (r: Option<&'a SolverResult>)
    ensures
        routes.0@.len() == 0 <==> r.is_none(),
        r.is_some() ==> exists|i: int| #[trigger]
            last_greatest(durabilities_of(routes.0@), i) && *r.unwrap() == routes.0@[i],
{
    let list = &routes.0;
    let n = list.len();
    if n == 0 {
        return None;
    }
    let mut best: usize = 0;
    let mut i: usize = 1;
    while i < n
        invariant
            n == list@.len(),
            1 <= i <= n,
            best < i,
            forall|j: int|
                0 <= j < i ==> list@[best as int].durability >= (#[trigger] list@[j]).durability,
            forall|j: int|
                best < j < i ==> list@[best as int].durability > (#[trigger] list@[j]).durability,
        decreases n - i,
    {
        if list[i].durability >= list[best].durability {
            best = i;
        }
        i = i + 1;
    }
    assert(last_greatest(durabilities_of(list@), best as int));
    Some(&list[best])
}

} // verus!
