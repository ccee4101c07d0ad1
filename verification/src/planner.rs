//! Turns a selection of catalog items into an ordered installation plan: dependencies are
//! visited depth first and planned before the items that need them.
use vstd::prelude::*;

use crate::models::{
    os_debug_name, os_debug_str, contains_os, duplicate_changes, CatalogItem, Catalog, InstallPlan,
    InstallStepTemplate, NetworkMode, NetworkProfile, OperatingSystem, PlanSelection, PlannedItem,
    PlannedStep, VersionOption,
};
use crate::catalog::{catalog_is_valid, item_is_valid, item_known};
use crate::text::{join_strings, join_with, views_of};

verus! {

broadcast use vstd::seq_lib::group_seq_properties;

/// Why no plan could be built.
#[derive(Debug, Clone, PartialEq, Eq)]
pub enum PlanError {
    /// The item with this id depends, directly or not, on itself.
    DependencyCycle(String),
    /// No catalog item has this id.
    UnknownItem(String),
}

/// What a [`PlanError`] says, as plain values.
pub enum PlanFault {
    Cycle(Seq<char>),
    Unknown(Seq<char>),
}

impl View for PlanError {
    type V = PlanFault;

    open spec fn view(&self) -> PlanFault {
        match self {
            PlanError::DependencyCycle(id) => PlanFault::Cycle(id@),
            PlanError::UnknownItem(id) => PlanFault::Unknown(id@),
        }
    }
}

/// The message that a plan failure is reported with.
pub open spec fn fault_message(f: PlanFault) -> Seq<char> {
    match f {
        PlanFault::Cycle(id) => "dependency cycle detected at "@ + id,
        PlanFault::Unknown(id) => "unknown catalog item '"@ + id + "'"@,
    }
}

impl PlanError {
    /// The message that this failure is reported with.
    pub fn message(&self) -> (r: String)
        ensures
            r@ == fault_message(self@),
    {
        match self {
            PlanError::DependencyCycle(id) => {
                let mut m = String::from_str("dependency cycle detected at ");
                m.append(id.as_str());
                m
            },
            PlanError::UnknownItem(id) => {
                let mut m = String::from_str("unknown catalog item '");
                m.append(id.as_str());
                m.append("'");
                m
            },
        }
    }
}

/// Index of the catalog item whose id is `id`; when several share it, the last one.
pub open spec fn item_index(items: Seq<CatalogItem>, id: Seq<char>) -> Option<int>
    decreases items.len(),
{
    if items.len() == 0 {
        None
    } else if items.last().id@ == id {
        Some(items.len() - 1)
    } else {
        item_index(items.drop_last(), id)
    }
}

/// Whether some planned item (an index into `items`) has id `id`.
pub open spec fn is_planned(items: Seq<CatalogItem>, order: Seq<int>, id: Seq<char>) -> bool {
    exists|k: int| 0 <= k < order.len() && #[trigger] items[order[k]].id@ == id
}

/// Depth-first visit of `id`: its dependencies are planned first, in their order, then the
/// item itself. `path` holds the ids being visited, `order` what is planned so far.
pub open spec fn visit(
    items: Seq<CatalogItem>,
    id: Seq<char>,
    path: Seq<Seq<char>>,
    order: Seq<int>,
) -> Result<Seq<int>, PlanFault>
    decreases items.len() - path.len(), 0int,
{
    if is_planned(items, order, id) {
        Ok(order)
    } else if path.contains(id) {
        Err(PlanFault::Cycle(id))
    } else {
        match item_index(items, id) {
            None => Err(PlanFault::Unknown(id)),
            Some(i) => {
                if path.len() < items.len() {
                    match visit_deps(items, items[i].dependencies@, 0, path.push(id), order) {
                        Ok(o) => Ok(o.push(i)),
                        Err(f) => Err(f),
                    }
                } else {
                    // a path of distinct catalog ids is never this long
                    Err(PlanFault::Cycle(id))
                }
            },
        }
    }
}

/// Visits `deps[j..]` in turn, stopping at the first failure.
pub open spec fn visit_deps(
    items: Seq<CatalogItem>,
    deps: Seq<String>,
    j: int,
    path: Seq<Seq<char>>,
    order: Seq<int>,
) -> Result<Seq<int>, PlanFault>
    decreases items.len() - path.len(), deps.len() - j,
{
    if j < 0 || j >= deps.len() {
        Ok(order)
    } else {
        match visit(items, deps[j]@, path, order) {
            Ok(o) => visit_deps(items, deps, j + 1, path, o),
            Err(f) => Err(f),
        }
    }
}

/// Visits the selected ids `sels[j..]` in turn, each from an empty path.
pub open spec fn visit_selections(
    items: Seq<CatalogItem>,
    sels: Seq<PlanSelection>,
    j: int,
    order: Seq<int>,
) -> Result<Seq<int>, PlanFault>
    decreases sels.len() - j,
{
    if j < 0 || j >= sels.len() {
        Ok(order)
    } else {
        match visit(items, sels[j].item_id@, Seq::empty(), order) {
            Ok(o) => visit_selections(items, sels, j + 1, o),
            Err(f) => Err(f),
        }
    }
}

/// The catalog items of a plan, as indices into the catalog, in installation order.
pub open spec fn plan_order(items: Seq<CatalogItem>, sels: Seq<PlanSelection>) -> Result<
    Seq<int>,
    PlanFault,
> {
    visit_selections(items, sels, 0, Seq::empty())
}

/// Index of the last selection of `id`.
pub open spec fn last_selection(sels: Seq<PlanSelection>, id: Seq<char>) -> Option<int>
    decreases sels.len(),
{
    if sels.len() == 0 {
        None
    } else if sels.last().item_id@ == id {
        Some(sels.len() - 1)
    } else {
        last_selection(sels.drop_last(), id)
    }
}

/// Index of the first version marked as the default.
pub open spec fn first_default(versions: Seq<VersionOption>) -> Option<int>
    decreases versions.len(),
{
    if versions.len() == 0 {
        None
    } else if versions[0].is_default {
        Some(0)
    } else {
        match first_default(versions.drop_first()) {
            Some(k) => Some(k + 1),
            None => None,
        }
    }
}

/// The version that a plan installs of `item`: the one that the last selection of it asks
/// for; else the item's first default version; else `latest`.
pub open spec fn planned_version(sels: Seq<PlanSelection>, item: CatalogItem) -> Seq<char> {
    let asked = match last_selection(sels, item.id@) {
        Some(k) => sels[k].version,
        None => None,
    };
    match asked {
        Some(v) => v@,
        None => match first_default(item.versions@) {
            Some(d) => item.versions@[d].id@,
            None => "latest"@,
        },
    }
}

/// Indices of the first `n` install steps that run on `platform`.
pub open spec fn steps_for(steps: Seq<InstallStepTemplate>, platform: OperatingSystem, n: int) -> Seq<
    int,
>
    decreases n,
{
    if n <= 0 {
        Seq::empty()
    } else if steps[n - 1].platforms@.contains(platform) {
        steps_for(steps, platform, n - 1).push(n - 1)
    } else {
        steps_for(steps, platform, n - 1)
    }
}

/// Indices of the install steps of `item` that run on `platform`, in catalog order.
pub open spec fn platform_steps(item: CatalogItem, platform: OperatingSystem) -> Seq<int> {
    steps_for(item.install_steps@, platform, item.install_steps@.len() as int)
}

/// For each step of a plan, the catalog item and the install step it comes from.
pub open spec fn step_origins(items: Seq<CatalogItem>, order: Seq<int>, platform: OperatingSystem) -> Seq<
    (int, int),
>
    decreases order.len(),
{
    if order.len() == 0 {
        Seq::empty()
    } else {
        let i = order.last();
        step_origins(items, order.drop_last(), platform) + platform_steps(items[i], platform).map_values(
            |t: int| (i, t),
        )
    }
}

/// The warnings of a plan: one for each planned item without a step for the platform.
pub open spec fn plan_warnings(items: Seq<CatalogItem>, order: Seq<int>, platform: OperatingSystem) -> Seq<
    Seq<char>,
>
    decreases order.len(),
{
    if order.len() == 0 {
        Seq::empty()
    } else {
        let item = items[order.last()];
        let earlier = plan_warnings(items, order.drop_last(), platform);
        if platform_steps(item, platform).len() == 0 {
            earlier.push(item.id@ + " has no install step for "@ + os_debug_name(platform))
        } else {
            earlier
        }
    }
}

/// The download location of a planned step: mirrors first when the profile asks for them.
pub open spec fn planned_url(step: InstallStepTemplate, network: NetworkProfile) -> Option<String> {
    match network.mode {
        NetworkMode::ChinaMirror => if step.mirror_url is Some {
            step.mirror_url
        } else {
            step.url
        },
        _ => step.url,
    }
}

/// `ps` is the planned form of install step `step` of `item`.
pub open spec fn is_planned_step(
    ps: PlannedStep,
    item: CatalogItem,
    step: InstallStepTemplate,
    network: NetworkProfile,
) -> bool {
    &&& ps.id@ == item.id@ + ":"@ + step.id@
    &&& ps.item_id == item.id
    &&& ps.title == step.title
    &&& ps.kind == step.kind
    &&& ps.source == step.source
    &&& ps.url == planned_url(step, network)
    &&& ps.checksum == step.checksum
    &&& ps.command == step.command
    &&& ps.args@ == step.args@
    &&& ps.permissions == step.permissions
    &&& ps.config_changes@ == item.config_steps@
}

/// `pi` is the planned form of `item`.
pub open spec fn is_planned_item(pi: PlannedItem, item: CatalogItem, sels: Seq<PlanSelection>) -> bool {
    &&& pi.item_id == item.id
    &&& pi.name == item.name
    &&& pi.version@ == planned_version(sels, item)
    &&& pi.dependency == (last_selection(sels, item.id@) is None)
}

/// The id of a plan: the platform and the selected ids, joined by dashes.
pub open spec fn plan_id(sels: Seq<PlanSelection>, platform: OperatingSystem) -> Seq<char> {
    os_debug_name(platform) + "-"@ + join_with(sels.map_values(|s: PlanSelection| s.item_id@), "-"@)
}

/// `plan` is the plan for the items `order` of `catalog`.
pub open spec fn is_plan_for(
    plan: InstallPlan,
    items: Seq<CatalogItem>,
    sels: Seq<PlanSelection>,
    network: NetworkProfile,
    platform: OperatingSystem,
    order: Seq<int>,
) -> bool {
    let origins = step_origins(items, order, platform);
    &&& plan.id@ == plan_id(sels, platform)
    &&& plan.platform == platform
    &&& plan.network == network
    &&& plan.items@.len() == order.len()
    &&& forall|k: int|
        0 <= k < order.len() ==> is_planned_item(#[trigger] plan.items@[k], items[order[k]], sels)
    &&& plan.steps@.len() == origins.len()
    &&& forall|m: int|
        0 <= m < origins.len() ==> is_planned_step(
            #[trigger] plan.steps@[m],
            items[origins[m].0],
            items[origins[m].0].install_steps@[origins[m].1],
            network,
        )
    &&& plan.requires_admin == (exists|m: int|
        0 <= m < plan.steps@.len() && #[trigger] plan.steps@[m].permissions.requires_admin)
    &&& views_of(plan.warnings@) == plan_warnings(items, order, platform)
}

// ---------------------------------------------------------------------------------------
// Facts about the lookup and the visit
// ---------------------------------------------------------------------------------------

proof fn lemma_item_index(items: Seq<CatalogItem>, id: Seq<char>)
    ensures
        match item_index(items, id) {
            Some(i) => 0 <= i < items.len() && items[i].id@ == id,
            None => forall|k: int| 0 <= k < items.len() ==> items[k].id@ != id,
        },
    decreases items.len(),
{
    if items.len() > 0 && items.last().id@ != id {
        lemma_item_index(items.drop_last(), id);
        if item_index(items, id) is None {
            assert forall|k: int| 0 <= k < items.len() implies items[k].id@ != id by {
                if k < items.len() - 1 {
                    assert(items.drop_last()[k] == items[k]);
                }
            }
        }
    }
}

/// Ids that all name catalog items, none twice.
pub open spec fn is_catalog_path(items: Seq<CatalogItem>, path: Seq<Seq<char>>) -> bool {
    &&& path.no_duplicates()
    &&& forall|k: int| 0 <= k < path.len() ==> item_index(items, #[trigger] path[k]) is Some
}

/// A path of distinct catalog ids that does not hold `id`, another catalog id, is shorter
/// than the catalog.
proof fn lemma_path_shorter(items: Seq<CatalogItem>, path: Seq<Seq<char>>, id: Seq<char>)
    requires
        is_catalog_path(items, path),
        item_index(items, id) is Some,
        !path.contains(id),
    ensures
        path.len() < items.len(),
{
    broadcast use vstd::set::group_set_axioms;
    let p = path.push(id);
    let ids = items.map_values(|it: CatalogItem| it.id@);
    assert(p.no_duplicates()) by {
        assert forall|a: int, b: int| 0 <= a < p.len() && 0 <= b < p.len() && a != b implies p[a]
            != p[b] by {
            if a < path.len() && b < path.len() {
                assert(path[a] != path[b]);
            } else if a == path.len() {
                assert(path.contains(path[b]));
            } else {
                assert(path.contains(path[a]));
            }
        }
    }
    assert(p.to_set().subset_of(ids.to_set())) by {
        assert forall|x: Seq<char>| p.to_set().contains(x) implies ids.to_set().contains(x) by {
            let k = choose|k: int| 0 <= k < p.len() && p[k] == x;
            lemma_item_index(items, x);
            if k < path.len() {
                assert(item_index(items, path[k]) is Some);
            }
            let i = item_index(items, x)->0;
            assert(ids[i] == x);
        }
    }
    p.unique_seq_to_set();
    ids.lemma_cardinality_of_set();
    vstd::set_lib::lemma_len_subset(p.to_set(), ids.to_set());
}

// ---------------------------------------------------------------------------------------
// Executable planner
// ---------------------------------------------------------------------------------------

/// The order as plain integers.
pub open spec fn as_ints(v: Seq<usize>) -> Seq<int> {
    v.map_values(|k: usize| k as int)
}

/// Index of the catalog item with id `id`; the last one when several share it.
fn find_item(items: &Vec<CatalogItem>, id: &String) -> (r: Option<usize>)
    ensures
        match item_index(items@, id@) {
            Some(i) => r == Some(i as usize),
            None => r is None,
        },
{
    let mut k = items.len();
    while k > 0
        invariant
            k <= items.len(),
            item_index(items@, id@) == item_index(items@.take(k as int), id@),
        decreases k,
    {
        assert(items@.take(k as int).drop_last() =~= items@.take(k - 1));
        if items[k - 1].id == *id {
            return Some(k - 1);
        }
        k = k - 1;
    }
    None
}

/// Whether some item of `order` has id `id`.
fn planned_already(items: &Vec<CatalogItem>, order: &Vec<usize>, id: &String) -> (r: bool)
    requires
        forall|k: int| 0 <= k < order.len() ==> order@[k] < items.len(),
    ensures
        r == is_planned(items@, as_ints(order@), id@),
{
    let mut k: usize = 0;
    while k < order.len()
        invariant
            k <= order.len(),
            forall|m: int| 0 <= m < order.len() ==> order@[m] < items.len(),
            forall|m: int| 0 <= m < k ==> items@[order@[m] as int].id@ != id@,
        decreases order.len() - k,
    {
        if items[order[k]].id == *id {
            assert(as_ints(order@)[k as int] == order@[k as int] as int);
            return true;
        }
        k = k + 1;
    }
    assert forall|m: int| 0 <= m < order.len() implies items@[as_ints(order@)[m]].id@ != id@ by {
        assert(as_ints(order@)[m] == order@[m] as int);
    }
    false
}

/// Whether `id` is one of `path`.
fn on_path(path: &Vec<String>, id: &String) -> (r: bool)
    ensures
        r == views_of(path@).contains(id@),
{
    let mut k: usize = 0;
    while k < path.len()
        invariant
            k <= path.len(),
            forall|m: int| 0 <= m < k ==> path@[m]@ != id@,
        decreases path.len() - k,
    {
        if path[k] == *id {
            assert(views_of(path@)[k as int] == id@);
            return true;
        }
        k = k + 1;
    }
    false
}

/// Depth-first visit of `id`: plans its dependencies, then the item.
fn visit_item(
    items: &Vec<CatalogItem>,
    id: &String,
    path: &mut Vec<String>,
    order: &mut Vec<usize>,
) -> (r: Result<(), PlanError>)
    requires
        is_catalog_path(items@, views_of(old(path)@)),
        forall|k: int| 0 <= k < old(order).len() ==> old(order)@[k] < items.len(),
    ensures
        match visit(items@, id@, views_of(old(path)@), as_ints(old(order)@)) {
            Ok(o) => {
                &&& r is Ok
                &&& as_ints(final(order)@) == o
                &&& final(path)@ == old(path)@
                &&& forall|k: int| 0 <= k < final(order).len() ==> final(order)@[k] < items.len()
            },
            Err(f) => r matches Err(e) && e@ == f,
        },
    decreases items@.len() - old(path)@.len(),
{
    let ghost p0 = views_of(path@);
    let ghost o0 = as_ints(order@);
    if planned_already(items, order, id) {
        return Ok(());
    }
    if on_path(path, id) {
        return Err(PlanError::DependencyCycle(id.clone()));
    }
    let idx = match find_item(items, id) {
        Some(i) => i,
        None => {
            return Err(PlanError::UnknownItem(id.clone()));
        },
    };
    proof {
        lemma_item_index(items@, id@);
        lemma_path_shorter(items@, p0, id@);
        let i = item_index(items@, id@)->Some_0;
        assert(items@.len() == items.len());
        assert(0 <= i < items.len());
        assert(i == idx as int);
    }
    path.push(id.clone());
    let ghost pushed = path@;
    let ghost p1 = views_of(path@);
    assert(p1 =~= p0.push(id@));
    assert(is_catalog_path(items@, p1)) by {
        assert forall|k: int| 0 <= k < p1.len() implies item_index(items@, #[trigger] p1[k]) is Some by {
            if k < p0.len() {
                assert(p1[k] == p0[k]);
            }
        }
    }
    let deps = &items[idx].dependencies;
    let mut j: usize = 0;
    while j < deps.len()
        invariant
            j <= deps.len(),
            idx < items.len(),
            deps@ == items@[idx as int].dependencies@,
            path@ == pushed,
            pushed == old(path)@.push(pushed.last()),
            p1 == views_of(pushed),
            is_catalog_path(items@, p1),
            forall|k: int| 0 <= k < order.len() ==> order@[k] < items.len(),
            visit_deps(items@, deps@, 0, p1, o0) == visit_deps(items@, deps@, j as int, p1, as_ints(order@)),
            items@.len() - path@.len() < items@.len() - old(path)@.len(),
            path@.len() <= items@.len(),
            !is_planned(items@, o0, id@),
            !p0.contains(id@),
            item_index(items@, id@) == Some(idx as int),
            p0.len() < items@.len(),
            p1 == p0.push(id@),
            p0 == views_of(old(path)@),
            o0 == as_ints(old(order)@),
        decreases deps.len() - j,
    {
        let ghost before = as_ints(order@);
        match visit_item(items, &deps[j], path, order) {
            Ok(()) => {},
            Err(e) => {
                assert(visit_deps(items@, deps@, j as int, p1, before) == Err::<Seq<int>, PlanFault>(e@));
                assert(visit(items@, id@, p0, o0) == Err::<Seq<int>, PlanFault>(e@));
                assert(p0 == views_of(old(path)@));
                assert(o0 == as_ints(old(order)@));
                return Err(e);
            },
        }
        j = j + 1;
    }
    path.pop();
    assert(path@ =~= old(path)@);
    order.push(idx);
    assert(as_ints(order@) =~= visit_deps(items@, deps@, 0, p1, o0)->Ok_0.push(idx as int));
    Ok(())
}


/// Index of the last selection of `id`.
fn last_selection_of(selections: &[PlanSelection], id: &String) -> (r: Option<usize>)
    ensures
        match last_selection(selections@, id@) {
            Some(k) => 0 <= k < selections.len() && r == Some(k as usize),
            None => r is None,
        },
{
    let mut k = selections.len();
    while k > 0
        invariant
            k <= selections.len(),
            last_selection(selections@, id@) == last_selection(selections@.take(k as int), id@),
        decreases k,
    {
        assert(selections@.take(k as int).drop_last() =~= selections@.take(k - 1));
        if selections[k - 1].item_id == *id {
            return Some(k - 1);
        }
        k = k - 1;
    }
    assert(selections@.take(0) =~= Seq::<PlanSelection>::empty());
    None
}

/// Index of the first version marked as the default.
fn first_default_of(versions: &Vec<VersionOption>) -> (r: Option<usize>)
    ensures
        match first_default(versions@) {
            Some(d) => 0 <= d < versions.len() && r == Some(d as usize),
            None => r is None,
        },
{
    let mut k: usize = 0;
    while k < versions.len()
        invariant
            k <= versions.len(),
            first_default(versions@) == match first_default(versions@.skip(k as int)) {
                Some(d) => Some(d + k),
                None => None,
            },
        decreases versions.len() - k,
    {
        assert(versions@.skip(k as int).drop_first() =~= versions@.skip(k + 1));
        if versions[k].is_default {
            return Some(k);
        }
        k = k + 1;
    }
    None
}

/// The version that a plan installs of `item`.
fn select_version(selections: &[PlanSelection], item: &CatalogItem) -> (r: String)
    ensures
        r@ == planned_version(selections@, *item),
{
    let asked: Option<String> = match last_selection_of(selections, &item.id) {
        Some(k) => match &selections[k].version {
            Some(v) => Some(v.clone()),
            None => None,
        },
        None => None,
    };
    match asked {
        Some(v) => v,
        None => match first_default_of(&item.versions) {
            Some(d) => item.versions[d].id.clone(),
            None => String::from_str("latest"),
        },
    }
}

/// The planned form of install step `step` of `item`.
fn plan_step(item: &CatalogItem, step: &InstallStepTemplate, network: &NetworkProfile) -> (r:
    PlannedStep)
    ensures
        is_planned_step(r, *item, *step, *network),
{
    let url = match network.mode {
        NetworkMode::ChinaMirror => if step.mirror_url.is_some() {
            step.mirror_url.clone()
        } else {
            step.url.clone()
        },
        NetworkMode::Official | NetworkMode::CustomProxy => step.url.clone(),
    };
    let mut id = item.id.clone();
    id.append(":");
    id.append(step.id.as_str());
    PlannedStep {
        id,
        item_id: item.id.clone(),
        title: step.title.duplicate(),
        kind: step.kind,
        source: step.source,
        url,
        checksum: step.checksum.clone(),
        command: step.command.clone(),
        args: step.args.clone(),
        permissions: step.permissions.duplicate(),
        config_changes: duplicate_changes(&item.config_steps),
    }
}

/// Appends the planned forms of the install steps of `item` that run on `platform`, and
/// returns how many there are.
fn plan_item_steps(
    item: &CatalogItem,
    platform: OperatingSystem,
    network: &NetworkProfile,
    steps: &mut Vec<PlannedStep>,
) -> (n: usize)
    ensures
        n == platform_steps(*item, platform).len(),
        final(steps)@.len() == old(steps)@.len() + n,
        final(steps)@.take(old(steps)@.len() as int) == old(steps)@,
        forall|q: int|
            0 <= q < n ==> is_planned_step(
                #[trigger] final(steps)@[old(steps)@.len() + q],
                *item,
                item.install_steps@[platform_steps(*item, platform)[q]],
                *network,
            ),
{
    let ghost start = steps@.len();
    let mut n: usize = 0;
    let mut t: usize = 0;
    while t < item.install_steps.len()
        invariant
            t <= item.install_steps.len(),
            n == steps_for(item.install_steps@, platform, t as int).len(),
            n <= t,
            steps@.len() == start + n,
            start == old(steps)@.len(),
            steps@.take(start as int) == old(steps)@,
            forall|q: int| 0 <= q < steps_for(item.install_steps@, platform, t as int).len() ==> 0 <= #[trigger] steps_for(item.install_steps@, platform, t as int)[q] < t,
            forall|q: int|
                0 <= q < n ==> is_planned_step(
                    #[trigger] steps@[start + q],
                    *item,
                    item.install_steps@[steps_for(item.install_steps@, platform, t as int)[q]],
                    *network,
                ),
        decreases item.install_steps.len() - t,
    {
        let step = &item.install_steps[t];
        let ghost before = steps@;
        let ghost prev = steps_for(item.install_steps@, platform, t as int);
        if contains_os(&step.platforms, platform) {
            let ps = plan_step(item, step, network);
            steps.push(ps);
            n = n + 1;
            assert(steps@.take(start as int) =~= before.take(start as int));
            assert(steps_for(item.install_steps@, platform, t + 1) == prev.push(t as int));
            assert forall|q: int| 0 <= q < n implies is_planned_step(
                #[trigger] steps@[start + q],
                *item,
                item.install_steps@[steps_for(item.install_steps@, platform, t + 1)[q]],
                *network,
            ) by {
                if q < n - 1 {
                    assert(steps@[start + q] == before[start + q]);
                }
            }
        }
        t = t + 1;
    }
    n
}

/// The warning for an item without a step for the platform.
fn missing_steps_warning(item: &CatalogItem, platform: OperatingSystem) -> (r: String)
    ensures
        r@ == item.id@ + " has no install step for "@ + os_debug_name(platform),
{
    let mut w = item.id.clone();
    w.append(" has no install step for ");
    w.append(os_debug_str(platform));
    w
}

/// The id of a plan: the platform and the selected ids, joined by dashes.
fn stable_plan_id(selections: &[PlanSelection], platform: OperatingSystem) -> (r: String)
    ensures
        r@ == plan_id(selections@, platform),
{
    let mut ids: Vec<String> = Vec::new();
    let mut j: usize = 0;
    while j < selections.len()
        invariant
            j <= selections.len(),
            views_of(ids@) == selections@.take(j as int).map_values(|s: PlanSelection| s.item_id@),
        decreases selections.len() - j,
    {
        let ghost before = ids@;
        assert(views_of(before).len() == before.len());
        ids.push(selections[j].item_id.clone());
        assert forall|i: int| 0 <= i < j + 1 implies views_of(ids@)[i] == selections@.take(j + 1).map_values(|s: PlanSelection| s.item_id@)[i] by {
            if i < j {
                assert(views_of(ids@)[i] == views_of(before)[i]);
                assert(views_of(before)[i] == selections@.take(j as int).map_values(|s: PlanSelection| s.item_id@)[i]);
            }
        }
        assert(views_of(ids@) =~= selections@.take(j + 1).map_values(|s: PlanSelection| s.item_id@));
        j = j + 1;
    }
    assert(selections@.take(selections.len() as int) =~= selections@);
    let joined = join_strings(ids.as_slice(), "-");
    let mut r = String::from_str(os_debug_str(platform));
    r.append("-");
    r.append(joined.as_str());
    r
}

/// Lays out the plan that installs `selections` and, before them, what they depend on.
///
/// Dependencies are visited depth first, in catalog order, and each item is planned once,
/// after all of its dependencies. The plan lists, for each planned item, the version to
/// install and whether it was only pulled in as a dependency; then the install steps that
/// run on `platform` (download locations taken from mirrors when `network` asks for them);
/// whether any step needs administrator rights; and a warning for each item without a
/// step for `platform`. A dependency cycle or an unknown item id fails the whole plan.
pub fn build_install_plan(
    catalog: &Catalog,
    selections: &[PlanSelection],
    network: &NetworkProfile,
    platform: OperatingSystem,
) -> (r: Result<InstallPlan, PlanError>)
    ensures
        match plan_order(catalog.items@, selections@) {
            Ok(order) => r matches Ok(plan) && is_plan_for(
                plan,
                catalog.items@,
                selections@,
                *network,
                platform,
                order,
            ),
            Err(f) => r matches Err(e) && e@ == f,
        },
{
    let items = &catalog.items;
    let mut order: Vec<usize> = Vec::new();
    let mut path: Vec<String> = Vec::new();
    let mut j: usize = 0;
    assert(as_ints(order@) =~= Seq::<int>::empty());
    while j < selections.len()
        invariant
            j <= selections.len(),
            items == &catalog.items,
            path@ == Seq::<String>::empty(),
            forall|k: int| 0 <= k < order.len() ==> order@[k] < items.len(),
            plan_order(items@, selections@) == visit_selections(items@, selections@, j as int, as_ints(order@)),
        decreases selections.len() - j,
    {
        assert(views_of(path@) =~= Seq::<Seq<char>>::empty());
        let ghost before = as_ints(order@);
        match visit_item(items, &selections[j].item_id, &mut path, &mut order) {
            Ok(()) => {},
            Err(e) => {
                assert(visit_selections(items@, selections@, j as int, before) == Err::<Seq<int>, PlanFault>(e@));
                return Err(e);
            },
        }
        j = j + 1;
    }
    let ghost ord = as_ints(order@);
    assert(plan_order(items@, selections@) == Ok::<Seq<int>, PlanFault>(ord));

    let mut planned_items: Vec<PlannedItem> = Vec::new();
    let mut steps: Vec<PlannedStep> = Vec::new();
    let mut warnings: Vec<String> = Vec::new();
    let mut k: usize = 0;
    while k < order.len()
        invariant
            k <= order.len(),
            items == &catalog.items,
            ord == as_ints(order@),
            forall|m: int| 0 <= m < order.len() ==> order@[m] < items.len(),
            planned_items@.len() == k,
            forall|q: int|
                0 <= q < k ==> is_planned_item(#[trigger] planned_items@[q], items@[ord[q]], selections@),
            steps@.len() == step_origins(items@, ord.take(k as int), platform).len(),
            forall|m: int|
                0 <= m < steps@.len() ==> {
                    let o = step_origins(items@, ord.take(k as int), platform)[m];
                    is_planned_step(#[trigger] steps@[m], items@[o.0], items@[o.0].install_steps@[o.1], *network)
                },
            views_of(warnings@) == plan_warnings(items@, ord.take(k as int), platform),
        decreases order.len() - k,
    {
        let idx = order[k];
        let item = &items[idx];
        let ghost old_steps = steps@;
        let ghost old_origins = step_origins(items@, ord.take(k as int), platform);
        assert(ord.take(k + 1).drop_last() =~= ord.take(k as int));
        assert(ord.take(k + 1).last() == idx as int);
        let version = select_version(selections, item);
        let dependency = last_selection_of(selections, &item.id).is_none();
        planned_items.push(PlannedItem { item_id: item.id.clone(), name: item.name.duplicate(), version, dependency });
        let n = plan_item_steps(item, platform, network, &mut steps);
        let ghost new_part = platform_steps(*item, platform).map_values(|t: int| (idx as int, t));
        assert(step_origins(items@, ord.take(k + 1), platform) == old_origins + new_part);
        assert forall|m: int| 0 <= m < steps@.len() implies {
            let o = step_origins(items@, ord.take(k + 1), platform)[m];
            is_planned_step(#[trigger] steps@[m], items@[o.0], items@[o.0].install_steps@[o.1], *network)
        } by {
            if m < old_steps.len() {
                assert(steps@[m] == steps@.take(old_steps.len() as int)[m]);
            } else {
                let q = m - old_steps.len();
                assert(steps@[old_steps.len() + q] == steps@[m]);
            }
        }
        if n == 0 {
            let w = missing_steps_warning(item, platform);
            warnings.push(w);
            assert(views_of(warnings@) =~= plan_warnings(items@, ord.take(k + 1), platform));
        } else {
            assert(views_of(warnings@) =~= plan_warnings(items@, ord.take(k + 1), platform));
        }
        k = k + 1;
    }
    assert(ord.take(order.len() as int) =~= ord);

    let mut requires_admin = false;
    let mut m: usize = 0;
    while m < steps.len()
        invariant
            m <= steps.len(),
            requires_admin == (exists|q: int| 0 <= q < m && #[trigger] steps@[q].permissions.requires_admin),
        decreases steps.len() - m,
    {
        if steps[m].permissions.requires_admin {
            requires_admin = true;
        }
        m = m + 1;
    }
    let plan = InstallPlan {
        id: stable_plan_id(selections, platform),
        platform,
        network: network.duplicate(),
        items: planned_items,
        steps,
        requires_admin,
        warnings,
    };
    Ok(plan)
}


// ---------------------------------------------------------------------------------------
// Laws of the plan order
// ---------------------------------------------------------------------------------------

/// Planned items are catalog indices, no id is planned twice, and each item comes after
/// every item it depends on.
pub open spec fn is_dependency_order(items: Seq<CatalogItem>, o: Seq<int>) -> bool {
    &&& forall|k: int| 0 <= k < o.len() ==> 0 <= #[trigger] o[k] < items.len()
    &&& forall|k1: int, k2: int|
        0 <= k1 < k2 < o.len() ==> items[#[trigger] o[k1]].id@ != items[#[trigger] o[k2]].id@
    &&& forall|k: int, d: int|
        0 <= k < o.len() && 0 <= d < items[o[k]].dependencies@.len() ==> #[trigger] planned_before(
            items,
            o,
            k,
            items[o[k]].dependencies@[d]@,
        )
}

/// Some item before position `k` of `o` has id `id`.
pub open spec fn planned_before(items: Seq<CatalogItem>, o: Seq<int>, k: int, id: Seq<char>) -> bool {
    exists|k2: int| 0 <= k2 < k && #[trigger] items[o[k2]].id@ == id
}

/// `a` is a prefix of `b`.
pub open spec fn extends(a: Seq<int>, b: Seq<int>) -> bool {
    a.len() <= b.len() && b.take(a.len() as int) == a
}

proof fn lemma_planned_in_extension(items: Seq<CatalogItem>, a: Seq<int>, b: Seq<int>, id: Seq<char>)
    requires
        extends(a, b),
        is_planned(items, a, id),
    ensures
        is_planned(items, b, id),
{
    let k = choose|k: int| 0 <= k < a.len() && #[trigger] items[a[k]].id@ == id;
    assert(b.take(a.len() as int)[k] == b[k]);
}

proof fn lemma_visit_order(items: Seq<CatalogItem>, id: Seq<char>, path: Seq<Seq<char>>, order: Seq<int>)
    requires
        is_dependency_order(items, order),
        visit(items, id, path, order) is Ok,
    ensures
        ({
            let o = visit(items, id, path, order)->Ok_0;
            &&& is_dependency_order(items, o)
            &&& extends(order, o)
            &&& is_planned(items, o, id)
            &&& forall|p: Seq<char>|
                path.contains(p) && !is_planned(items, order, p) ==> !is_planned(items, o, p)
        }),
    decreases items.len() - path.len(), 0int,
{
    if is_planned(items, order, id) {
        assert(order.take(order.len() as int) =~= order);
    } else {
        let i = item_index(items, id)->Some_0;
        lemma_item_index(items, id);
        let deps = items[i].dependencies@;
        let p2 = path.push(id);
        lemma_deps_order(items, deps, 0, p2, order);
        let o1 = visit_deps(items, deps, 0, p2, order)->Ok_0;
        let o = o1.push(i);
        assert(p2.contains(id));
        assert(!is_planned(items, o1, id));
        assert(o.take(order.len() as int) =~= o1.take(order.len() as int));
        assert forall|k1: int, k2: int|
            0 <= k1 < k2 < o.len() implies items[#[trigger] o[k1]].id@ != items[#[trigger] o[k2]].id@ by {
            if k2 == o1.len() {
                assert(o[k1] == o1[k1]);
            } else {
                assert(o[k1] == o1[k1] && o[k2] == o1[k2]);
            }
        }
        assert forall|k: int, d: int|
            0 <= k < o.len() && 0 <= d < items[o[k]].dependencies@.len() implies #[trigger] planned_before(
                items,
                o,
                k,
                items[o[k]].dependencies@[d]@,
            ) by {
            if k == o1.len() {
                assert(is_planned(items, o1, deps[d]@));
                let k2 = choose|k2: int| 0 <= k2 < o1.len() && #[trigger] items[o1[k2]].id@ == deps[d]@;
                assert(o[k2] == o1[k2]);
            } else {
                assert(o[k] == o1[k]);
                assert(planned_before(items, o1, k, items[o1[k]].dependencies@[d]@));
                let k2 = choose|k2: int| 0 <= k2 < k && #[trigger] items[o1[k2]].id@ == items[o1[k]].dependencies@[d]@;
                assert(o[k2] == o1[k2]);
            }
        }
        assert(items[o[o1.len() as int]].id@ == id);
        assert(visit(items, id, path, order)->Ok_0 == o);
        assert(extends(order, o));
        assert(is_planned(items, o, id));
        assert(forall|k: int| 0 <= k < o.len() ==> 0 <= #[trigger] o[k] < items.len());
        assert forall|p: Seq<char>|
            path.contains(p) && !is_planned(items, order, p) implies !is_planned(items, o, p) by {
            assert(p2.contains(p)) by {
                let q = choose|q: int| 0 <= q < path.len() && path[q] == p;
                assert(p2[q] == p);
            }
            if is_planned(items, o, p) {
                let k = choose|k: int| 0 <= k < o.len() && #[trigger] items[o[k]].id@ == p;
                if k < o1.len() {
                    assert(o[k] == o1[k]);
                } else {
                    assert(path.contains(id));
                }
            }
        }
    }
}

proof fn lemma_deps_order(
    items: Seq<CatalogItem>,
    deps: Seq<String>,
    j: int,
    path: Seq<Seq<char>>,
    order: Seq<int>,
)
    requires
        is_dependency_order(items, order),
        visit_deps(items, deps, j, path, order) is Ok,
        0 <= j,
    ensures
        ({
            let o = visit_deps(items, deps, j, path, order)->Ok_0;
            &&& is_dependency_order(items, o)
            &&& extends(order, o)
            &&& forall|d: int| j <= d < deps.len() ==> is_planned(items, o, #[trigger] deps[d]@)
            &&& forall|p: Seq<char>|
                path.contains(p) && !is_planned(items, order, p) ==> !is_planned(items, o, p)
        }),
    decreases items.len() - path.len(), deps.len() - j,
{
    if j < deps.len() {
        lemma_visit_order(items, deps[j]@, path, order);
        let o1 = visit(items, deps[j]@, path, order)->Ok_0;
        lemma_deps_order(items, deps, j + 1, path, o1);
        let o = visit_deps(items, deps, j + 1, path, o1)->Ok_0;
        assert(o.take(order.len() as int) =~= o.take(o1.len() as int).take(order.len() as int));
        lemma_planned_in_extension(items, o1, o, deps[j]@);
    } else {
        assert(order.take(order.len() as int) =~= order);
    }
}

proof fn lemma_selections_order(items: Seq<CatalogItem>, sels: Seq<PlanSelection>, j: int, order: Seq<int>)
    requires
        is_dependency_order(items, order),
        visit_selections(items, sels, j, order) is Ok,
        0 <= j,
    ensures
        ({
            let o = visit_selections(items, sels, j, order)->Ok_0;
            &&& is_dependency_order(items, o)
            &&& extends(order, o)
            &&& forall|s: int| j <= s < sels.len() ==> is_planned(items, o, #[trigger] sels[s].item_id@)
        }),
    decreases sels.len() - j,
{
    if j < sels.len() {
        lemma_visit_order(items, sels[j].item_id@, Seq::empty(), order);
        let o1 = visit(items, sels[j].item_id@, Seq::empty(), order)->Ok_0;
        lemma_selections_order(items, sels, j + 1, o1);
        let o = visit_selections(items, sels, j + 1, o1)->Ok_0;
        assert(o.take(order.len() as int) =~= o.take(o1.len() as int).take(order.len() as int));
        lemma_planned_in_extension(items, o1, o, sels[j].item_id@);
    } else {
        assert(order.take(order.len() as int) =~= order);
    }
}

/// Law: a plan installs each item once, installs every selected item, and installs every
/// item only after all the items it depends on.
pub proof fn plan_respects_dependencies(items: Seq<CatalogItem>, sels: Seq<PlanSelection>)
    requires
        plan_order(items, sels) is Ok,
    ensures
        is_dependency_order(items, plan_order(items, sels)->Ok_0),
        forall|s: int|
            0 <= s < sels.len() ==> is_planned(items, plan_order(items, sels)->Ok_0, #[trigger] sels[s].item_id@),
{
    lemma_selections_order(items, sels, 0, Seq::empty());
}


/// Every dependency of every catalog item names a catalog item.
pub open spec fn dependencies_resolve(items: Seq<CatalogItem>) -> bool {
    forall|i: int, d: int|
        0 <= i < items.len() && 0 <= d < items[i].dependencies@.len() ==> item_index(
            items,
            #[trigger] items[i].dependencies@[d]@,
        ) is Some
}

/// The fault names a catalog item when it is a cycle, and no catalog item when it is an
/// unknown id.
pub open spec fn fault_fits_catalog(items: Seq<CatalogItem>, f: PlanFault) -> bool {
    match f {
        PlanFault::Cycle(id) => item_index(items, id) is Some,
        PlanFault::Unknown(id) => item_index(items, id) is None,
    }
}

proof fn lemma_visit_fault(items: Seq<CatalogItem>, id: Seq<char>, path: Seq<Seq<char>>, order: Seq<int>)
    requires
        forall|k: int| 0 <= k < path.len() ==> item_index(items, #[trigger] path[k]) is Some,
    ensures
        visit(items, id, path, order) matches Err(f) ==> fault_fits_catalog(items, f),
        dependencies_resolve(items) && item_index(items, id) is Some ==> !(visit(
            items,
            id,
            path,
            order,
        ) matches Err(PlanFault::Unknown(_))),
    decreases items.len() - path.len(), 0int,
{
    if !is_planned(items, order, id) && !path.contains(id) && item_index(items, id) is Some
        && path.len() < items.len() {
        let i = item_index(items, id)->Some_0;
        lemma_item_index(items, id);
        let p2 = path.push(id);
        assert forall|k: int| 0 <= k < p2.len() implies item_index(items, #[trigger] p2[k]) is Some by {
            if k < path.len() {
                assert(p2[k] == path[k]);
            }
        }
        lemma_deps_fault(items, items[i].dependencies@, 0, p2, order);
    } else if path.contains(id) {
        let k = choose|k: int| 0 <= k < path.len() && path[k] == id;
        assert(item_index(items, path[k]) is Some);
    }
}

proof fn lemma_deps_fault(
    items: Seq<CatalogItem>,
    deps: Seq<String>,
    j: int,
    path: Seq<Seq<char>>,
    order: Seq<int>,
)
    requires
        forall|k: int| 0 <= k < path.len() ==> item_index(items, #[trigger] path[k]) is Some,
        0 <= j,
    ensures
        visit_deps(items, deps, j, path, order) matches Err(f) ==> fault_fits_catalog(items, f),
        dependencies_resolve(items) && (forall|d: int|
            0 <= d < deps.len() ==> item_index(items, #[trigger] deps[d]@) is Some) ==> !(visit_deps(
            items,
            deps,
            j,
            path,
            order,
        ) matches Err(PlanFault::Unknown(_))),
    decreases items.len() - path.len(), deps.len() - j,
{
    if j < deps.len() {
        lemma_visit_fault(items, deps[j]@, path, order);
        if visit(items, deps[j]@, path, order) is Ok {
            lemma_deps_fault(items, deps, j + 1, path, visit(items, deps[j]@, path, order)->Ok_0);
        }
    }
}

proof fn lemma_selections_fault(items: Seq<CatalogItem>, sels: Seq<PlanSelection>, j: int, order: Seq<int>)
    requires
        0 <= j,
    ensures
        visit_selections(items, sels, j, order) matches Err(f) ==> fault_fits_catalog(items, f),
        dependencies_resolve(items) && (forall|s: int|
            0 <= s < sels.len() ==> item_index(items, #[trigger] sels[s].item_id@) is Some) ==> !(
        visit_selections(items, sels, j, order) matches Err(PlanFault::Unknown(_))),
    decreases sels.len() - j,
{
    if j < sels.len() {
        lemma_visit_fault(items, sels[j].item_id@, Seq::empty(), order);
        if visit(items, sels[j].item_id@, Seq::empty(), order) is Ok {
            lemma_selections_fault(items, sels, j + 1, visit(items, sels[j].item_id@, Seq::empty(), order)->Ok_0);
        }
    }
}

/// Law: a plan that fails on an unknown id names an id that no catalog item has, and one
/// that fails on a cycle names an id that the catalog has.
pub proof fn plan_failures_fit_catalog(items: Seq<CatalogItem>, sels: Seq<PlanSelection>)
    ensures
        plan_order(items, sels) matches Err(f) ==> fault_fits_catalog(items, f),
{
    lemma_selections_fault(items, sels, 0, Seq::empty());
}

proof fn lemma_known_has_index(items: Seq<CatalogItem>, id: Seq<char>)
    requires
        item_known(items, id),
    ensures
        item_index(items, id) is Some,
{
    lemma_item_index(items, id);
}

/// Law: when the catalog passes validation and every selection names a catalog item,
/// planning can fail only on a dependency cycle, never on an unknown item.
pub proof fn valid_catalog_plans_fail_only_on_cycles(c: Catalog, sels: Seq<PlanSelection>)
    requires
        catalog_is_valid(c),
        forall|s: int| 0 <= s < sels.len() ==> item_known(c.items@, #[trigger] sels[s].item_id@),
    ensures
        !(plan_order(c.items@, sels) matches Err(PlanFault::Unknown(_))),
{
    let items = c.items@;
    assert forall|i: int, d: int|
        0 <= i < items.len() && 0 <= d < items[i].dependencies@.len() implies item_index(
            items,
            #[trigger] items[i].dependencies@[d]@,
        ) is Some by {
        assert(item_is_valid(c, i));
        lemma_known_has_index(items, items[i].dependencies@[d]@);
    }
    assert forall|s: int| 0 <= s < sels.len() implies item_index(items, #[trigger] sels[s].item_id@) is Some by {
        lemma_known_has_index(items, sels[s].item_id@);
    }
    lemma_selections_fault(items, sels, 0, Seq::empty());
}


/// The item at position `k` of `o` is needed by a later item of `o`.
pub open spec fn needed_later(items: Seq<CatalogItem>, o: Seq<int>, k: int) -> bool {
    exists|k2: int, d: int|
        k < k2 < o.len() && 0 <= d < items[o[k2]].dependencies@.len() && #[trigger] items[o[k2]].dependencies@[d]@
            == items[o[k]].id@
}

proof fn lemma_needed_later_grows(items: Seq<CatalogItem>, a: Seq<int>, b: Seq<int>, k: int)
    requires
        extends(a, b),
        needed_later(items, a, k),
        0 <= k,
    ensures
        needed_later(items, b, k),
{
    let (k2, d) = choose|k2: int, d: int|
        k < k2 < a.len() && 0 <= d < items[a[k2]].dependencies@.len() && #[trigger] items[a[k2]].dependencies@[d]@
            == items[a[k]].id@;
    assert(b.take(a.len() as int)[k2] == b[k2]);
    assert(b.take(a.len() as int)[k] == b[k]);
    assert(items[b[k2]].dependencies@[d]@ == items[b[k]].id@);
}

proof fn lemma_visit_wanted(items: Seq<CatalogItem>, id: Seq<char>, path: Seq<Seq<char>>, order: Seq<int>)
    requires
        visit(items, id, path, order) is Ok,
    ensures
        ({
            let o = visit(items, id, path, order)->Ok_0;
            &&& extends(order, o)
            &&& forall|k: int|
                order.len() <= k < o.len() ==> items[o[k]].id@ == id || #[trigger] needed_later(items, o, k)
        }),
    decreases items.len() - path.len(), 0int,
{
    if is_planned(items, order, id) {
        assert(order.take(order.len() as int) =~= order);
    } else {
        let i = item_index(items, id)->Some_0;
        lemma_item_index(items, id);
        let deps = items[i].dependencies@;
        lemma_deps_wanted(items, deps, 0, path.push(id), order);
        let o1 = visit_deps(items, deps, 0, path.push(id), order)->Ok_0;
        let o = o1.push(i);
        assert(o.take(order.len() as int) =~= o1.take(order.len() as int));
        assert(o.take(o1.len() as int) =~= o1);
        assert forall|k: int| order.len() <= k < o.len() implies items[o[k]].id@ == id || #[trigger] needed_later(
            items,
            o,
            k,
        ) by {
            if k < o1.len() {
                assert(o[k] == o1[k]);
                if needed_later(items, o1, k) {
                    lemma_needed_later_grows(items, o1, o, k);
                } else {
                    let d = choose|d: int| 0 <= d < deps.len() && #[trigger] deps[d]@ == items[o1[k]].id@;
                    assert(o[o1.len() as int] == i);
                    assert(items[o[o1.len() as int]].dependencies@[d]@ == items[o[k]].id@);
                }
            }
        }
    }
}

proof fn lemma_deps_wanted(
    items: Seq<CatalogItem>,
    deps: Seq<String>,
    j: int,
    path: Seq<Seq<char>>,
    order: Seq<int>,
)
    requires
        visit_deps(items, deps, j, path, order) is Ok,
        0 <= j,
    ensures
        ({
            let o = visit_deps(items, deps, j, path, order)->Ok_0;
            &&& extends(order, o)
            &&& forall|k: int|
                order.len() <= k < o.len() ==> (exists|d: int|
                    j <= d < deps.len() && #[trigger] deps[d]@ == items[o[k]].id@) || #[trigger] needed_later(items, o, k)
        }),
    decreases items.len() - path.len(), deps.len() - j,
{
    if j < deps.len() {
        lemma_visit_wanted(items, deps[j]@, path, order);
        let o1 = visit(items, deps[j]@, path, order)->Ok_0;
        lemma_deps_wanted(items, deps, j + 1, path, o1);
        let o = visit_deps(items, deps, j + 1, path, o1)->Ok_0;
        assert(o.take(order.len() as int) =~= o.take(o1.len() as int).take(order.len() as int));
        assert forall|k: int| order.len() <= k < o.len() implies (exists|d: int|
            j <= d < deps.len() && #[trigger] deps[d]@ == items[o[k]].id@) || #[trigger] needed_later(items, o, k) by {
            if k < o1.len() {
                assert(o.take(o1.len() as int)[k] == o[k]);
                if needed_later(items, o1, k) {
                    lemma_needed_later_grows(items, o1, o, k);
                } else {
                    assert(deps[j]@ == items[o[k]].id@);
                }
            } else if !needed_later(items, o, k) {
                let d = choose|d: int| j + 1 <= d < deps.len() && #[trigger] deps[d]@ == items[o[k]].id@;
                assert(j <= d);
            }
        }
    } else {
        assert(order.take(order.len() as int) =~= order);
    }
}

proof fn lemma_selections_wanted(items: Seq<CatalogItem>, sels: Seq<PlanSelection>, j: int, order: Seq<int>)
    requires
        visit_selections(items, sels, j, order) is Ok,
        0 <= j,
    ensures
        ({
            let o = visit_selections(items, sels, j, order)->Ok_0;
            &&& extends(order, o)
            &&& forall|k: int|
                order.len() <= k < o.len() ==> (exists|s: int|
                    j <= s < sels.len() && #[trigger] sels[s].item_id@ == items[o[k]].id@) || #[trigger] needed_later(
                    items,
                    o,
                    k,
                )
        }),
    decreases sels.len() - j,
{
    if j < sels.len() {
        lemma_visit_wanted(items, sels[j].item_id@, Seq::empty(), order);
        let o1 = visit(items, sels[j].item_id@, Seq::empty(), order)->Ok_0;
        lemma_selections_wanted(items, sels, j + 1, o1);
        let o = visit_selections(items, sels, j + 1, o1)->Ok_0;
        assert(o.take(order.len() as int) =~= o.take(o1.len() as int).take(order.len() as int));
        assert forall|k: int| order.len() <= k < o.len() implies (exists|s: int|
            j <= s < sels.len() && #[trigger] sels[s].item_id@ == items[o[k]].id@) || #[trigger] needed_later(
            items,
            o,
            k,
        ) by {
            if k < o1.len() {
                assert(o.take(o1.len() as int)[k] == o[k]);
                if needed_later(items, o1, k) {
                    lemma_needed_later_grows(items, o1, o, k);
                } else {
                    assert(sels[j].item_id@ == items[o[k]].id@);
                }
            } else if !needed_later(items, o, k) {
                let s = choose|s: int| j + 1 <= s < sels.len() && #[trigger] sels[s].item_id@ == items[o[k]].id@;
                assert(j <= s);
            }
        }
    } else {
        assert(order.take(order.len() as int) =~= order);
    }
}

/// Law: a plan holds nothing that was not asked for: each planned item is selected, or a
/// dependency of an item planned after it.
pub proof fn plan_holds_only_wanted_items(items: Seq<CatalogItem>, sels: Seq<PlanSelection>)
    requires
        plan_order(items, sels) is Ok,
    ensures
        ({
            let o = plan_order(items, sels)->Ok_0;
            forall|k: int|
                0 <= k < o.len() ==> (exists|s: int|
                    0 <= s < sels.len() && #[trigger] sels[s].item_id@ == items[o[k]].id@) || #[trigger] needed_later(
                    items,
                    o,
                    k,
                )
        }),
{
    lemma_selections_wanted(items, sels, 0, Seq::empty());
}

proof fn lemma_first_default(vs: Seq<VersionOption>)
    ensures
        match first_default(vs) {
            Some(d) => 0 <= d < vs.len() && vs[d].is_default && forall|e: int|
                0 <= e < d ==> !(#[trigger] vs[e]).is_default,
            None => forall|d: int| 0 <= d < vs.len() ==> !(#[trigger] vs[d]).is_default,
        },
    decreases vs.len(),
{
    if vs.len() > 0 && !vs[0].is_default {
        lemma_first_default(vs.drop_first());
        assert forall|d: int| 1 <= d < vs.len() implies #[trigger] vs[d] == vs.drop_first()[d - 1] by {}
    }
}

proof fn lemma_last_selection(sels: Seq<PlanSelection>, id: Seq<char>)
    ensures
        last_selection(sels, id) matches Some(k) ==> 0 <= k < sels.len() && sels[k].item_id@ == id,
    decreases sels.len(),
{
    if sels.len() > 0 && sels.last().item_id@ != id {
        lemma_last_selection(sels.drop_last(), id);
    }
}

/// Law: when no selection asks for a version of a planned item, the plan installs the
/// item's first version marked as the default, or `latest` when none is marked.
pub proof fn unrequested_version_is_the_default(
    plan: InstallPlan,
    items: Seq<CatalogItem>,
    sels: Seq<PlanSelection>,
    network: NetworkProfile,
    platform: OperatingSystem,
    order: Seq<int>,
    k: int,
)
    requires
        is_plan_for(plan, items, sels, network, platform, order),
        0 <= k < order.len(),
        forall|s: int|
            0 <= s < sels.len() && (#[trigger] sels[s]).item_id@ == items[order[k]].id@
                ==> sels[s].version is None,
    ensures
        ({
            let vs = items[order[k]].versions@;
            &&& (forall|d: int| 0 <= d < vs.len() ==> !(#[trigger] vs[d]).is_default)
                ==> plan.items@[k].version@ == "latest"@
            &&& forall|d: int|
                0 <= d < vs.len() && (#[trigger] vs[d]).is_default && (forall|e: int|
                    0 <= e < d ==> !vs[e].is_default) ==> plan.items@[k].version@ == vs[d].id@
        }),
{
    let item = items[order[k]];
    let vs = item.versions@;
    assert(is_planned_item(plan.items@[k], item, sels));
    lemma_last_selection(sels, item.id@);
    lemma_first_default(vs);
    if let Some(f) = first_default(vs) {
        assert forall|d: int|
            0 <= d < vs.len() && (#[trigger] vs[d]).is_default && (forall|e: int|
                0 <= e < d ==> !vs[e].is_default) implies plan.items@[k].version@ == vs[d].id@ by {
            if d < f {
                assert(!vs[d].is_default);
            } else if f < d {
                assert(!vs[f].is_default);
            }
        }
    }
}

proof fn lemma_last_selection_is_last(sels: Seq<PlanSelection>, id: Seq<char>, s: int)
    requires
        0 <= s < sels.len(),
        sels[s].item_id@ == id,
        forall|t: int| s < t < sels.len() ==> (#[trigger] sels[t]).item_id@ != id,
    ensures
        last_selection(sels, id) == Some(s),
    decreases sels.len(),
{
    if s < sels.len() - 1 {
        assert(sels.last() == sels[sels.len() - 1]);
        lemma_last_selection_is_last(sels.drop_last(), id, s);
    }
}

/// Law: a planned item that a selection asks a version of is planned at the version that
/// its last selection asks for.
pub proof fn requested_version_is_kept(
    plan: InstallPlan,
    items: Seq<CatalogItem>,
    sels: Seq<PlanSelection>,
    network: NetworkProfile,
    platform: OperatingSystem,
    order: Seq<int>,
    k: int,
    s: int,
)
    requires
        is_plan_for(plan, items, sels, network, platform, order),
        0 <= k < order.len(),
        0 <= s < sels.len(),
        sels[s].item_id@ == items[order[k]].id@,
        sels[s].version is Some,
        forall|t: int| s < t < sels.len() ==> (#[trigger] sels[t]).item_id@ != items[order[k]].id@,
    ensures
        plan.items@[k].version@ == sels[s].version->Some_0@,
        !plan.items@[k].dependency,
{
    assert(is_planned_item(plan.items@[k], items[order[k]], sels));
    lemma_last_selection_is_last(sels, items[order[k]].id@, s);
}

/// Law: a plan needs administrator rights exactly when one of its steps, wherever it
/// stands, needs them.
pub proof fn plan_needs_admin_exactly_for_an_admin_step(
    plan: InstallPlan,
    items: Seq<CatalogItem>,
    sels: Seq<PlanSelection>,
    network: NetworkProfile,
    platform: OperatingSystem,
    order: Seq<int>,
)
    requires
        is_plan_for(plan, items, sels, network, platform, order),
    ensures
        forall|m: int|
            0 <= m < plan.steps@.len() && (#[trigger] plan.steps@[m]).permissions.requires_admin
                ==> plan.requires_admin,
        !plan.requires_admin ==> forall|m: int|
            0 <= m < plan.steps@.len() ==> !(#[trigger] plan.steps@[m]).permissions.requires_admin,
        plan.requires_admin ==> exists|m: int|
            0 <= m < plan.steps@.len() && (#[trigger] plan.steps@[m]).permissions.requires_admin,
{
}

} // verus!
