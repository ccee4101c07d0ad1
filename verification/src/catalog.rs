//! Consistency checks on a catalog: every check that fails adds one message.
use vstd::prelude::*;

use crate::models::{Catalog, CatalogCategory, CatalogItem, SourceKind};
use crate::text::{trim_whitespace, trim_whitespace_str, views_of};

verus! {

/// Some category has id `id`.
pub open spec fn category_known(categories: Seq<CatalogCategory>, id: Seq<char>) -> bool {
    exists|k: int| 0 <= k < categories.len() && #[trigger] categories[k].id@ == id
}

/// Some item has id `id`.
pub open spec fn item_known(items: Seq<CatalogItem>, id: Seq<char>) -> bool {
    exists|k: int| 0 <= k < items.len() && #[trigger] items[k].id@ == id
}

/// An item before position `i` has the id of item `i`.
pub open spec fn id_seen_before(items: Seq<CatalogItem>, i: int) -> bool {
    exists|k: int| 0 <= k < i && #[trigger] items[k].id@ == items[i].id@
}

/// The item names an official source.
pub open spec fn has_official_source(item: CatalogItem) -> bool {
    exists|k: int| 0 <= k < item.sources@.len() && #[trigger] item.sources@[k].kind == SourceKind::Official
}

/// `'x'`.
pub open spec fn quoted(x: Seq<char>) -> Seq<char> {
    "'"@ + x + "'"@
}

/// Messages for the first `n` dependencies of `item` that no item of `items` provides.
pub open spec fn dependency_errors(items: Seq<CatalogItem>, item: CatalogItem, n: int) -> Seq<Seq<char>>
    decreases n,
{
    if n <= 0 {
        Seq::empty()
    } else {
        let dep = item.dependencies@[n - 1]@;
        let earlier = dependency_errors(items, item, n - 1);
        if item_known(items, dep) {
            earlier
        } else {
            earlier.push("item "@ + quoted(item.id@) + " depends on unknown item "@ + quoted(dep))
        }
    }
}

/// `seq![m]` when `cond` holds, else nothing.
pub open spec fn message_if(cond: bool, m: Seq<char>) -> Seq<Seq<char>> {
    if cond {
        seq![m]
    } else {
        Seq::empty()
    }
}

/// The messages of the checks on item `i` itself, in the order they are made.
pub open spec fn item_check_errors(c: Catalog, i: int) -> Seq<Seq<char>> {
    let items = c.items@;
    let item = items[i];
    let id = item.id@;
    message_if(trim_whitespace(id).len() == 0, "catalog item has empty id"@) + message_if(
        id_seen_before(items, i),
        "duplicate catalog item id "@ + quoted(id),
    ) + message_if(
        !category_known(c.categories@, item.category@),
        "item "@ + quoted(id) + " references missing category "@ + quoted(item.category@),
    ) + message_if(
        item.supported_platforms@.len() == 0,
        "item "@ + quoted(id) + " must support at least one platform"@,
    ) + message_if(
        item.install_steps@.len() == 0,
        "item "@ + quoted(id) + " must define at least one install step"@,
    ) + message_if(!has_official_source(item), "item "@ + quoted(id) + " must include an official source"@)
}

/// The messages about item `i` of the catalog, in the order they are checked.
pub open spec fn item_errors(c: Catalog, i: int) -> Seq<Seq<char>> {
    let item = c.items@[i];
    item_check_errors(c, i) + dependency_errors(c.items@, item, item.dependencies@.len() as int)
}

/// The messages about the categories and the first `n` items.
pub open spec fn errors_upto(c: Catalog, n: int) -> Seq<Seq<char>>
    decreases n,
{
    if n <= 0 {
        message_if(c.categories@.len() == 0, "catalog must define at least one category"@)
    } else {
        errors_upto(c, n - 1) + item_errors(c, n - 1)
    }
}

/// Everything wrong with the catalog, in the order the checks report it.
pub open spec fn catalog_errors(c: Catalog) -> Seq<Seq<char>> {
    errors_upto(c, c.items@.len() as int)
}

/// Item `i` passes every check.
pub open spec fn item_is_valid(c: Catalog, i: int) -> bool {
    let items = c.items@;
    let item = items[i];
    &&& trim_whitespace(item.id@).len() > 0
    &&& !id_seen_before(items, i)
    &&& category_known(c.categories@, item.category@)
    &&& item.supported_platforms@.len() > 0
    &&& item.install_steps@.len() > 0
    &&& has_official_source(item)
    &&& forall|d: int|
        0 <= d < item.dependencies@.len() ==> item_known(items, #[trigger] item.dependencies@[d]@)
}

/// A catalog with categories whose items all pass every check.
pub open spec fn catalog_is_valid(c: Catalog) -> bool {
    &&& c.categories@.len() > 0
    &&& forall|i: int| 0 <= i < c.items@.len() ==> #[trigger] item_is_valid(c, i)
}

// ---------------------------------------------------------------------------------------
// Executable checks
// ---------------------------------------------------------------------------------------

/// `a` followed by `x` in single quotes and `b`.
fn quoted_message(a: &str, x: &str, b: &str) -> (r: String)
    ensures
        r@ == a@ + quoted(x@) + b@,
{
    let mut m = String::from_str(a);
    m.append("'");
    m.append(x);
    m.append("'");
    m.append(b);
    assert(m@ =~= a@ + quoted(x@) + b@);
    m
}

/// Whether some item has id `id`.
fn has_item(items: &Vec<CatalogItem>, id: &String) -> (r: bool)
    ensures
        r == item_known(items@, id@),
{
    let mut k: usize = 0;
    while k < items.len()
        invariant
            k <= items.len(),
            forall|m: int| 0 <= m < k ==> items@[m].id@ != id@,
        decreases items.len() - k,
    {
        if items[k].id == *id {
            return true;
        }
        k = k + 1;
    }
    false
}

/// Whether an item before position `i` has the id of item `i`.
fn seen_before(items: &Vec<CatalogItem>, i: usize) -> (r: bool)
    requires
        i < items.len(),
    ensures
        r == id_seen_before(items@, i as int),
{
    let mut k: usize = 0;
    while k < i
        invariant
            k <= i < items.len(),
            forall|m: int| 0 <= m < k ==> items@[m].id@ != items@[i as int].id@,
        decreases i - k,
    {
        if items[k].id == items[i].id {
            return true;
        }
        k = k + 1;
    }
    false
}

/// Whether some category has id `id`.
fn has_category(categories: &Vec<CatalogCategory>, id: &String) -> (r: bool)
    ensures
        r == category_known(categories@, id@),
{
    let mut k: usize = 0;
    while k < categories.len()
        invariant
            k <= categories.len(),
            forall|m: int| 0 <= m < k ==> categories@[m].id@ != id@,
        decreases categories.len() - k,
    {
        if categories[k].id == *id {
            return true;
        }
        k = k + 1;
    }
    false
}

/// Whether the item names an official source.
fn official_source(item: &CatalogItem) -> (r: bool)
    ensures
        r == has_official_source(*item),
{
    let mut k: usize = 0;
    while k < item.sources.len()
        invariant
            k <= item.sources.len(),
            forall|m: int| 0 <= m < k ==> item.sources@[m].kind != SourceKind::Official,
        decreases item.sources.len() - k,
    {
        if item.sources[k].kind == SourceKind::Official {
            return true;
        }
        k = k + 1;
    }
    false
}

/// Appends `m` when `cond` holds.
fn push_if(errors: &mut Vec<String>, cond: bool, m: String)
    ensures
        views_of(final(errors)@) == views_of(old(errors)@) + message_if(cond, m@),
{
    let ghost before = errors@;
    if cond {
        errors.push(m);
        assert(views_of(errors@) =~= views_of(before) + message_if(cond, m@));
    } else {
        assert(views_of(errors@) =~= views_of(before) + message_if(cond, m@));
    }
}

/// The messages of the checks on item `i` itself.
fn item_check_messages(catalog: &Catalog, i: usize) -> (r: Vec<String>)
    requires
        i < catalog.items.len(),
    ensures
        views_of(r@) == item_check_errors(*catalog, i as int),
{
    let items = &catalog.items;
    let item = &items[i];
    let id = item.id.as_str();
    let mut errors: Vec<String> = Vec::new();
    let trimmed = trim_whitespace_str(id);
    push_if(&mut errors, trimmed.as_str().is_empty(), String::from_str("catalog item has empty id"));
    assert(views_of(errors@) =~= message_if(trim_whitespace(item.id@).len() == 0, "catalog item has empty id"@));
    let dup = quoted_message("duplicate catalog item id ", id, "");
    proof {
        reveal_strlit("");
        assert(dup@ =~= "duplicate catalog item id "@ + quoted(item.id@));
    }
    push_if(&mut errors, seen_before(items, i), dup);
    let known = has_category(&catalog.categories, &item.category);
    let mut missing = quoted_message("item ", id, " references missing category ");
    missing.append("'");
    missing.append(item.category.as_str());
    missing.append("'");
    proof {
        assert(missing@ =~= "item "@ + quoted(item.id@) + " references missing category "@ + quoted(
            item.category@,
        ));
    }
    push_if(&mut errors, !known, missing);
    push_if(
        &mut errors,
        item.supported_platforms.len() == 0,
        quoted_message("item ", id, " must support at least one platform"),
    );
    push_if(
        &mut errors,
        item.install_steps.len() == 0,
        quoted_message("item ", id, " must define at least one install step"),
    );
    push_if(&mut errors, !official_source(item), quoted_message("item ", id, " must include an official source"));
    errors
}

/// The messages about the dependencies of item `i` that are not catalog items.
fn dependency_messages(catalog: &Catalog, i: usize) -> (r: Vec<String>)
    requires
        i < catalog.items.len(),
    ensures
        views_of(r@) == dependency_errors(
            catalog.items@,
            catalog.items@[i as int],
            catalog.items@[i as int].dependencies@.len() as int,
        ),
{
    let items = &catalog.items;
    let item = &items[i];
    let id = item.id.as_str();
    let mut errors: Vec<String> = Vec::new();
    assert(views_of(errors@) =~= dependency_errors(items@, *item, 0));
    let mut d: usize = 0;
    while d < item.dependencies.len()
        invariant
            d <= item.dependencies.len(),
            item == &catalog.items@[i as int],
            items == &catalog.items,
            id@ == item.id@,
            views_of(errors@) == dependency_errors(items@, *item, d as int),
        decreases item.dependencies.len() - d,
    {
        let dep = &item.dependencies[d];
        let ghost before = views_of(errors@);
        if !has_item(items, dep) {
            let mut m = quoted_message("item ", id, " depends on unknown item ");
            m.append("'");
            m.append(dep.as_str());
            m.append("'");
            errors.push(m);
            assert(views_of(errors@) =~= before.push(m@));
            assert(m@ =~= "item "@ + quoted(item.id@) + " depends on unknown item "@ + quoted(dep@));
        }
        d = d + 1;
    }
    errors
}

/// Appends the messages about item `i`.
fn check_item(catalog: &Catalog, i: usize, errors: &mut Vec<String>)
    requires
        i < catalog.items.len(),
    ensures
        views_of(final(errors)@) == views_of(old(errors)@) + item_errors(*catalog, i as int),
{
    let mut own = item_check_messages(catalog, i);
    let mut deps = dependency_messages(catalog, i);
    let ghost a = own@;
    let ghost b = deps@;
    errors.append(&mut own);
    errors.append(&mut deps);
    assert(views_of(errors@) =~= views_of(old(errors)@) + views_of(a) + views_of(b));
}

/// Checks the catalog: it must have a category, and every item a non-blank id that no
/// earlier item has, a known category, a platform, an install step, an official source,
/// and dependencies that are catalog items. Reports every failed check, in that order.
pub fn validate_catalog(catalog: &Catalog) -> (r: Result<(), Vec<String>>)
    ensures
        r is Ok <==> catalog_errors(*catalog).len() == 0,
        r matches Err(errors) ==> views_of(errors@) == catalog_errors(*catalog),
{
    let mut errors: Vec<String> = Vec::new();
    push_if(
        &mut errors,
        catalog.categories.len() == 0,
        String::from_str("catalog must define at least one category"),
    );
    assert(views_of(errors@) =~= errors_upto(*catalog, 0));
    let mut i: usize = 0;
    while i < catalog.items.len()
        invariant
            i <= catalog.items.len(),
            views_of(errors@) == errors_upto(*catalog, i as int),
        decreases catalog.items.len() - i,
    {
        check_item(catalog, i, &mut errors);
        i = i + 1;
    }
    if errors.len() == 0 {
        Ok(())
    } else {
        Err(errors)
    }
}


// ---------------------------------------------------------------------------------------
// Laws
// ---------------------------------------------------------------------------------------

proof fn lemma_dependency_errors_empty(items: Seq<CatalogItem>, item: CatalogItem, n: int)
    requires
        0 <= n <= item.dependencies@.len(),
    ensures
        dependency_errors(items, item, n).len() == 0 <==> forall|d: int|
            0 <= d < n ==> item_known(items, #[trigger] item.dependencies@[d]@),
    decreases n,
{
    if n > 0 {
        lemma_dependency_errors_empty(items, item, n - 1);
        if dependency_errors(items, item, n).len() == 0 {
            assert forall|d: int| 0 <= d < n implies item_known(items, #[trigger] item.dependencies@[d]@) by {
                if d < n - 1 {
                    assert(dependency_errors(items, item, n - 1).len() == 0);
                }
            }
        }
    }
}

proof fn lemma_item_errors_empty(c: Catalog, i: int)
    requires
        0 <= i < c.items@.len(),
    ensures
        item_errors(c, i).len() == 0 <==> item_is_valid(c, i),
{
    let item = c.items@[i];
    lemma_dependency_errors_empty(c.items@, item, item.dependencies@.len() as int);
}

proof fn lemma_errors_upto_empty(c: Catalog, n: int)
    requires
        0 <= n <= c.items@.len(),
    ensures
        errors_upto(c, n).len() == 0 <==> (c.categories@.len() > 0 && forall|i: int|
            0 <= i < n ==> #[trigger] item_is_valid(c, i)),
    decreases n,
{
    if n > 0 {
        lemma_errors_upto_empty(c, n - 1);
        lemma_item_errors_empty(c, n - 1);
        if errors_upto(c, n).len() == 0 {
            assert forall|i: int| 0 <= i < n implies #[trigger] item_is_valid(c, i) by {
                if i < n - 1 {
                    assert(errors_upto(c, n - 1).len() == 0);
                }
            }
        }
    }
}

/// Law: the checks report nothing exactly for the valid catalogs, so `validate_catalog`
/// accepts a catalog if and only if it is valid.
pub proof fn validation_accepts_exactly_valid_catalogs(c: Catalog)
    ensures
        catalog_errors(c).len() == 0 <==> catalog_is_valid(c),
{
    lemma_errors_upto_empty(c, c.items@.len() as int);
}

/// Items `a` and `b` agree on everything the checks read, but for their sources, and each
/// has an official source exactly when the other does.
pub open spec fn same_but_sources(a: CatalogItem, b: CatalogItem) -> bool {
    &&& a.id@ == b.id@
    &&& a.category@ == b.category@
    &&& a.supported_platforms@.len() == b.supported_platforms@.len()
    &&& a.install_steps@.len() == b.install_steps@.len()
    &&& a.dependencies@ == b.dependencies@
    &&& (exists|k: int| 0 <= k < a.sources@.len() && #[trigger] a.sources@[k].kind == SourceKind::Official)
        == (exists|k: int| 0 <= k < b.sources@.len() && #[trigger] b.sources@[k].kind == SourceKind::Official)
}

proof fn lemma_same_ids(items1: Seq<CatalogItem>, items2: Seq<CatalogItem>)
    requires
        items1.len() == items2.len(),
        forall|j: int| 0 <= j < items1.len() ==> (#[trigger] items1[j]).id@ == items2[j].id@,
    ensures
        forall|x: Seq<char>| item_known(items1, x) == #[trigger] item_known(items2, x),
        forall|i: int| 0 <= i < items1.len() ==> id_seen_before(items1, i) == #[trigger] id_seen_before(items2, i),
{
    assert forall|x: Seq<char>| item_known(items1, x) == #[trigger] item_known(items2, x) by {
        if item_known(items1, x) {
            let k = choose|k: int| 0 <= k < items1.len() && #[trigger] items1[k].id@ == x;
            assert(items2[k].id@ == x);
        }
        if item_known(items2, x) {
            let k = choose|k: int| 0 <= k < items2.len() && #[trigger] items2[k].id@ == x;
            assert(items1[k].id@ == x);
        }
    }
    assert forall|i: int| 0 <= i < items1.len() implies id_seen_before(items1, i) == #[trigger] id_seen_before(items2, i) by {
        assert(items1[i].id@ == items2[i].id@);
        if id_seen_before(items1, i) {
            let k = choose|k: int| 0 <= k < i && #[trigger] items1[k].id@ == items1[i].id@;
            assert(items2[k].id@ == items2[i].id@);
        }
        if id_seen_before(items2, i) {
            let k = choose|k: int| 0 <= k < i && #[trigger] items2[k].id@ == items2[i].id@;
            assert(items1[k].id@ == items1[i].id@);
        }
    }
}

proof fn lemma_same_dependency_errors(
    items1: Seq<CatalogItem>,
    items2: Seq<CatalogItem>,
    a: CatalogItem,
    b: CatalogItem,
    n: int,
)
    requires
        forall|x: Seq<char>| item_known(items1, x) == #[trigger] item_known(items2, x),
        a.id@ == b.id@,
        a.dependencies@ == b.dependencies@,
    ensures
        dependency_errors(items1, a, n) == dependency_errors(items2, b, n),
    decreases n,
{
    if n > 0 {
        lemma_same_dependency_errors(items1, items2, a, b, n - 1);
        assert(item_known(items1, a.dependencies@[n - 1]@) == item_known(items2, b.dependencies@[n - 1]@));
    }
}

/// Law: the checks look at an item's sources only for whether one of them, at any
/// position, is official. Two catalogs that differ only in their items' sources, each item
/// having an official source in one exactly when it has one in the other, get the same
/// messages, so `validate_catalog` gives both the same answer.
pub proof fn only_an_official_source_anywhere_matters(c1: Catalog, c2: Catalog)
    requires
        c1.categories@ == c2.categories@,
        c1.items@.len() == c2.items@.len(),
        forall|j: int| 0 <= j < c1.items@.len() ==> same_but_sources(#[trigger] c1.items@[j], c2.items@[j]),
    ensures
        catalog_errors(c1) == catalog_errors(c2),
{
    let items1 = c1.items@;
    let items2 = c2.items@;
    assert forall|j: int| 0 <= j < items1.len() implies (#[trigger] items1[j]).id@ == items2[j].id@ by {
        assert(same_but_sources(c1.items@[j], c2.items@[j]));
    }
    lemma_same_ids(items1, items2);
    lemma_same_errors_upto(c1, c2, items1.len() as int);
}

proof fn lemma_same_errors_upto(c1: Catalog, c2: Catalog, n: int)
    requires
        0 <= n <= c1.items@.len(),
        c1.categories@ == c2.categories@,
        c1.items@.len() == c2.items@.len(),
        forall|j: int| 0 <= j < c1.items@.len() ==> same_but_sources(#[trigger] c1.items@[j], c2.items@[j]),
        forall|x: Seq<char>| item_known(c1.items@, x) == #[trigger] item_known(c2.items@, x),
        forall|i: int|
            0 <= i < c1.items@.len() ==> id_seen_before(c1.items@, i) == #[trigger] id_seen_before(
                c2.items@,
                i,
            ),
    ensures
        errors_upto(c1, n) == errors_upto(c2, n),
    decreases n,
{
    if n > 0 {
        lemma_same_errors_upto(c1, c2, n - 1);
        let a = c1.items@[n - 1];
        let b = c2.items@[n - 1];
        assert(same_but_sources(a, b));
        assert(id_seen_before(c1.items@, n - 1) == id_seen_before(c2.items@, n - 1));
        assert(category_known(c1.categories@, a.category@) == category_known(c2.categories@, b.category@));
        assert(has_official_source(a) == has_official_source(b));
        assert(item_check_errors(c1, n - 1) == item_check_errors(c2, n - 1));
        lemma_same_dependency_errors(c1.items@, c2.items@, a, b, a.dependencies@.len() as int);
        assert(item_errors(c1, n - 1) == item_errors(c2, n - 1));
    }
}

/// Law: a catalog holding an item none of whose sources is official is refused.
pub proof fn item_without_official_source_is_refused(c: Catalog, j: int)
    requires
        0 <= j < c.items@.len(),
        forall|k: int|
            0 <= k < c.items@[j].sources@.len() ==> (#[trigger] c.items@[j].sources@[k]).kind
                != SourceKind::Official,
    ensures
        catalog_errors(c).len() > 0,
{
    lemma_errors_upto_empty(c, c.items@.len() as int);
    assert(!item_is_valid(c, j));
}

} // verus!
