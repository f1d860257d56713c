//! Header modules and sidebar items of the navigation, and the menu
//! preview of what a set of permissions can reach.
use vstd::prelude::*;
use crate::text::{chars_of, chars_eq, starts_with, has_prefix};

verus! {

/// A header module.
pub struct NavModule {
    pub label: String,
    pub url: String,
    pub is_active: bool,
}

/// An item of the sidebar of the active module.
pub struct NavSidebarItem {
    pub label: String,
    pub url: String,
    pub is_active: bool,
}

/// An active navigation item as stored, in menu order. An item with an
/// empty `parent` is a top-level module; otherwise it belongs to the module
/// named `parent`. `permitted` tells whether the current user holds
/// `permission_code`.
pub struct NavRow {
    pub nav_name: String,
    pub label: String,
    pub url: String,
    pub permission_code: String,
    pub parent: String,
    pub permitted: bool,
}

/// A row is a top-level module.
pub open spec fn is_top(r: NavRow) -> bool {
    r.parent@.len() == 0
}

/// The user may see the row: it needs no permission or the user holds it.
pub open spec fn row_allowed(r: NavRow) -> bool {
    r.permission_code@.len() == 0 || r.permitted
}

/// Position `i` is a child item of the module named `name`.
pub open spec fn child_of(rows: Seq<NavRow>, i: int, name: Seq<char>) -> bool {
    !is_top(rows[i]) && rows[i].parent@ == name
}

/// A module is shown: with no children by its own permission, otherwise
/// when at least one child is allowed.
pub open spec fn module_shown(rows: Seq<NavRow>, m: NavRow) -> bool {
    if exists|i: int| 0 <= i < rows.len() && child_of(rows, i, m.nav_name@) {
        exists|i: int| 0 <= i < rows.len() && child_of(rows, i, m.nav_name@) && row_allowed(rows[i])
    } else {
        row_allowed(m)
    }
}

/// The first child item (in menu order) whose URL prefixes `path`.
pub open spec fn first_matching_child(rows: Seq<NavRow>, path: Seq<char>) -> Option<NavRow>
    decreases rows.len(),
{
    if rows.len() == 0 {
        None
    } else if !is_top(rows[0]) && has_prefix(path, rows[0].url@) {
        Some(rows[0])
    } else {
        first_matching_child(rows.drop_first(), path)
    }
}

/// The first top-level module (in menu order) whose URL prefixes `path`.
pub open spec fn first_matching_top(rows: Seq<NavRow>, path: Seq<char>) -> Option<NavRow>
    decreases rows.len(),
{
    if rows.len() == 0 {
        None
    } else if is_top(rows[0]) && has_prefix(path, rows[0].url@) {
        Some(rows[0])
    } else {
        first_matching_top(rows.drop_first(), path)
    }
}

/// The active module: the parent of the first child whose URL prefixes
/// the path, else the first top-level module whose URL does.
pub open spec fn active_module(rows: Seq<NavRow>, path: Seq<char>) -> Option<Seq<char>> {
    match first_matching_child(rows, path) {
        Some(c) => Some(c.parent@),
        None => match first_matching_top(rows, path) {
            Some(t) => Some(t.nav_name@),
            None => None,
        },
    }
}

/// The top-level rows that are shown, in order.
pub open spec fn shown_modules(rows: Seq<NavRow>) -> Seq<NavRow> {
    rows.filter(|r: NavRow| is_top(r) && module_shown(rows, r))
}

/// The allowed child items of module `m`, in order.
pub open spec fn sidebar_rows(rows: Seq<NavRow>, m: Seq<char>) -> Seq<NavRow> {
    rows.filter(|r: NavRow| !is_top(r) && r.parent@ == m && row_allowed(r))
}

/// A sidebar row is active: its URL prefixes the path and no other sidebar
/// row with a longer URL does.
pub open spec fn sidebar_active(items: Seq<NavRow>, i: int, path: Seq<char>) -> bool {
    has_prefix(path, items[i].url@) && forall|j: int|
        0 <= j < items.len() && has_prefix(path, #[trigger] items[j].url@) ==> items[j].url@.len()
            <= items[i].url@.len()
}

/// The navigation for `path`: shown modules (the active one marked) and the
/// sidebar of the active module.
pub open spec fn navigation_of(
    rows: Seq<NavRow>,
    path: Seq<char>,
    modules: Seq<NavModule>,
    sidebar: Seq<NavSidebarItem>,
) -> bool {
    let shown = shown_modules(rows);
    let active = active_module(rows, path);
    &&& modules.len() == shown.len()
    &&& forall|i: int|
        0 <= i < shown.len() ==> {
            &&& (#[trigger] modules[i]).label@ == shown[i].label@
            &&& modules[i].url@ == shown[i].url@
            &&& modules[i].is_active == (active == Some(shown[i].nav_name@))
        }
    &&& match active {
        None => sidebar.len() == 0,
        Some(m) => {
            let items = sidebar_rows(rows, m);
            &&& sidebar.len() == items.len()
            &&& forall|i: int|
                0 <= i < items.len() ==> {
                    &&& (#[trigger] sidebar[i]).label@ == items[i].label@
                    &&& sidebar[i].url@ == items[i].url@
                    &&& sidebar[i].is_active == sidebar_active(items, i, path)
                }
        },
    }
}

/// `m` shows a top-level row that is permitted: it has a permitted
/// sub-item, or has no sub-items and is permitted itself.
pub open spec fn shows_permitted_module(rows: Seq<NavRow>, m: NavModule) -> bool {
    exists|j: int|
        0 <= j < rows.len() && is_top(#[trigger] rows[j]) && module_shown(rows, rows[j])
            && m.label@ == rows[j].label@ && m.url@ == rows[j].url@
}

/// Some header module shows the row `r`.
pub open spec fn module_listed(modules: Seq<NavModule>, r: NavRow) -> bool {
    exists|i: int|
        0 <= i < modules.len() && (#[trigger] modules[i]).label@ == r.label@ && modules[i].url@
            == r.url@
}

/// `item` shows a permitted sub-item of module `m`.
pub open spec fn shows_permitted_item(rows: Seq<NavRow>, m: Seq<char>, item: NavSidebarItem) -> bool {
    exists|j: int|
        0 <= j < rows.len() && !is_top(#[trigger] rows[j]) && rows[j].parent@ == m && row_allowed(
            rows[j],
        ) && item.label@ == rows[j].label@ && item.url@ == rows[j].url@
}

/// Some sidebar item shows the row `r`.
pub open spec fn item_listed(sidebar: Seq<NavSidebarItem>, r: NavRow) -> bool {
    exists|i: int|
        0 <= i < sidebar.len() && (#[trigger] sidebar[i]).label@ == r.label@ && sidebar[i].url@
            == r.url@
}

/// The navigation shows only what the user may reach, and all of it: each
/// header module is a top-level row that has a permitted sub-item (or, with
/// no sub-items, is permitted itself), and every such row is shown; the
/// sidebar lists exactly the permitted sub-items of the active module, each
/// with its own label and link; with no active module the sidebar is empty.
pub proof fn lemma_navigation_respects_permissions(
    rows: Seq<NavRow>,
    path: Seq<char>,
    modules: Seq<NavModule>,
    sidebar: Seq<NavSidebarItem>,
)
    requires
        navigation_of(rows, path, modules, sidebar),
    ensures
        forall|i: int| 0 <= i < modules.len() ==> shows_permitted_module(rows, #[trigger] modules[i]),
        forall|j: int|
            0 <= j < rows.len() && is_top(#[trigger] rows[j]) && module_shown(rows, rows[j])
                ==> module_listed(modules, rows[j]),
        active_module(rows, path) is None ==> sidebar.len() == 0,
        active_module(rows, path) matches Some(m) ==> forall|i: int|
            0 <= i < sidebar.len() ==> shows_permitted_item(rows, m, #[trigger] sidebar[i]),
        active_module(rows, path) matches Some(m) ==> forall|j: int|
            0 <= j < rows.len() && !is_top(#[trigger] rows[j]) && rows[j].parent@ == m && row_allowed(
                rows[j],
            ) ==> item_listed(sidebar, rows[j]),
{
    let shown = shown_modules(rows);
    assert(modules.len() == shown.len());
    assert forall|i: int| 0 <= i < shown.len() implies (#[trigger] modules[i]).label@
        == shown[i].label@ && modules[i].url@ == shown[i].url@ by {}
    lemma_modules_permitted(rows, modules);
    match active_module(rows, path) {
        Some(m) => {
            let items = sidebar_rows(rows, m);
            assert(sidebar.len() == items.len());
            assert forall|i: int| 0 <= i < items.len() implies (#[trigger] sidebar[i]).label@
                == items[i].label@ && sidebar[i].url@ == items[i].url@ by {}
            lemma_sidebar_permitted(rows, sidebar, m);
        },
        None => {},
    }
}

proof fn lemma_modules_permitted(rows: Seq<NavRow>, modules: Seq<NavModule>)
    requires
        modules.len() == shown_modules(rows).len(),
        forall|i: int|
            0 <= i < shown_modules(rows).len() ==> (#[trigger] modules[i]).label@ == shown_modules(
                rows,
            )[i].label@ && modules[i].url@ == shown_modules(rows)[i].url@,
    ensures
        forall|i: int| 0 <= i < modules.len() ==> shows_permitted_module(rows, #[trigger] modules[i]),
        forall|j: int|
            0 <= j < rows.len() && is_top(#[trigger] rows[j]) && module_shown(rows, rows[j])
                ==> module_listed(modules, rows[j]),
{
    broadcast use vstd::seq_lib::group_filter_ensures, Seq::lemma_filter_contains_rev;

    let shown = shown_modules(rows);
    assert forall|i: int| 0 <= i < modules.len() implies shows_permitted_module(
        rows,
        #[trigger] modules[i],
    ) by {
        let r = shown[i];
        assert(is_top(r) && module_shown(rows, r));
        assert(shown.contains(r));
        assert(rows.contains(r));
        let j = choose|j: int| 0 <= j < rows.len() && rows[j] == r;
        assert(modules[i].label@ == r.label@ && modules[i].url@ == r.url@);
        assert(is_top(rows[j]));
    }
    assert forall|j: int|
        0 <= j < rows.len() && is_top(#[trigger] rows[j]) && module_shown(rows, rows[j]) implies module_listed(
        modules,
        rows[j],
    ) by {
        assert(shown.contains(rows[j]));
        let i = choose|i: int| 0 <= i < shown.len() && shown[i] == rows[j];
        assert(modules[i].label@ == shown[i].label@);
    }
}

proof fn lemma_sidebar_permitted(rows: Seq<NavRow>, sidebar: Seq<NavSidebarItem>, m: Seq<char>)
    requires
        sidebar.len() == sidebar_rows(rows, m).len(),
        forall|i: int|
            0 <= i < sidebar_rows(rows, m).len() ==> (#[trigger] sidebar[i]).label@ == sidebar_rows(
                rows,
                m,
            )[i].label@ && sidebar[i].url@ == sidebar_rows(rows, m)[i].url@,
    ensures
        forall|i: int| 0 <= i < sidebar.len() ==> shows_permitted_item(rows, m, #[trigger] sidebar[i]),
        forall|j: int|
            0 <= j < rows.len() && !is_top(#[trigger] rows[j]) && rows[j].parent@ == m && row_allowed(
                rows[j],
            ) ==> item_listed(sidebar, rows[j]),
{
    lemma_sidebar_rows(rows, m);
    let items = sidebar_rows(rows, m);
    assert forall|i: int| 0 <= i < sidebar.len() implies shows_permitted_item(
        rows,
        m,
        #[trigger] sidebar[i],
    ) by {
        let r = items[i];
        assert(!is_top(r) && r.parent@ == m && row_allowed(r));
        let j = choose|j: int| 0 <= j < rows.len() && rows[j] == r;
        assert(sidebar[i].label@ == r.label@ && sidebar[i].url@ == r.url@);
        assert(!is_top(rows[j]));
    }
    assert forall|j: int|
        0 <= j < rows.len() && !is_top(#[trigger] rows[j]) && rows[j].parent@ == m && row_allowed(
            rows[j],
        ) implies item_listed(sidebar, rows[j]) by {
        let i = choose|i: int| 0 <= i < items.len() && items[i] == rows[j];
        assert(sidebar[i].label@ == items[i].label@);
    }
}

/// The sidebar rows of module `m` are the permitted sub-items of `m`: each
/// is one of the rows, and each such row is among them.
proof fn lemma_sidebar_rows(rows: Seq<NavRow>, m: Seq<char>)
    ensures
        forall|i: int|
            0 <= i < sidebar_rows(rows, m).len() ==> {
                let r = #[trigger] sidebar_rows(rows, m)[i];
                &&& !is_top(r) && r.parent@ == m && row_allowed(r)
                &&& exists|j: int| 0 <= j < rows.len() && rows[j] == r
            },
        forall|j: int|
            0 <= j < rows.len() && !is_top(#[trigger] rows[j]) && rows[j].parent@ == m && row_allowed(
                rows[j],
            ) ==> exists|i: int| 0 <= i < sidebar_rows(rows, m).len() && sidebar_rows(rows, m)[i] == rows[j],
{
    broadcast use vstd::seq_lib::group_filter_ensures, Seq::lemma_filter_contains_rev;

    let items = sidebar_rows(rows, m);
    assert forall|i: int| 0 <= i < items.len() implies exists|j: int|
        0 <= j < rows.len() && rows[j] == #[trigger] items[i] by {
        assert(items.contains(items[i]));
        assert(rows.contains(items[i]));
    }
    assert forall|j: int|
        0 <= j < rows.len() && !is_top(#[trigger] rows[j]) && rows[j].parent@ == m && row_allowed(
            rows[j],
        ) implies exists|i: int| 0 <= i < items.len() && items[i] == rows[j] by {
        assert(items.contains(rows[j]));
    }
}

fn url_prefixes(path: &[char], r: &NavRow) -> (b: bool)
    ensures
        b == has_prefix(path@, r.url@),
{
    let u = chars_of(r.url.as_str());
    starts_with(path, u.as_slice())
}

fn first_child_from(rows: &Vec<NavRow>, path: &[char]) -> (r: Option<usize>)
    ensures
        r matches Some(i) ==> i < rows@.len() && first_matching_child(rows@, path@) == Some(
            rows@[i as int],
        ),
        r is None ==> first_matching_child(rows@, path@) is None,
{
    let n = rows.len();
    assert(rows@.subrange(0, n as int) =~= rows@);
    for i in 0..n
        invariant
            n == rows@.len(),
            first_matching_child(rows@, path@) == first_matching_child(
                rows@.subrange(i as int, n as int),
                path@,
            ),
    {
        let ghost rest = rows@.subrange(i as int, n as int);
        assert(rest.drop_first() =~= rows@.subrange(i + 1, n as int));
        assert(rest[0] == rows@[i as int]);
        if !rows[i].parent.as_str().is_empty() && url_prefixes(path, &rows[i]) {
            return Some(i);
        }
    }
    None
}

fn first_top_from(rows: &Vec<NavRow>, path: &[char]) -> (r: Option<usize>)
    ensures
        r matches Some(i) ==> i < rows@.len() && first_matching_top(rows@, path@) == Some(
            rows@[i as int],
        ),
        r is None ==> first_matching_top(rows@, path@) is None,
{
    let n = rows.len();
    assert(rows@.subrange(0, n as int) =~= rows@);
    for i in 0..n
        invariant
            n == rows@.len(),
            first_matching_top(rows@, path@) == first_matching_top(
                rows@.subrange(i as int, n as int),
                path@,
            ),
    {
        let ghost rest = rows@.subrange(i as int, n as int);
        assert(rest.drop_first() =~= rows@.subrange(i + 1, n as int));
        assert(rest[0] == rows@[i as int]);
        if rows[i].parent.as_str().is_empty() && url_prefixes(path, &rows[i]) {
            return Some(i);
        }
    }
    None
}

/// Determines the active module for `current_path`: a child whose URL
/// prefixes the path gives its parent, else a top-level module whose URL does.
pub fn find_active_module(current_path: &str, rows: &Vec<NavRow>) -> (r: Option<String>)
    ensures
        r matches Some(s) ==> active_module(rows@, current_path@) == Some(s@),
        r is None ==> active_module(rows@, current_path@) is None,
{
    let path = chars_of(current_path);
    match first_child_from(rows, path.as_slice()) {
        Some(i) => Some(rows[i].parent.clone()),
        None => match first_top_from(rows, path.as_slice()) {
            Some(i) => Some(rows[i].nav_name.clone()),
            None => None,
        },
    }
}

fn is_shown(rows: &Vec<NavRow>, m: &NavRow) -> (b: bool)
    ensures
        b == module_shown(rows@, *m),
{
    let name = chars_of(m.nav_name.as_str());
    let n = rows.len();
    let mut any_child = false;
    let mut any_allowed = false;
    for i in 0..n
        invariant
            n == rows@.len(),
            name@ == m.nav_name@,
            any_child == exists|j: int| 0 <= j < i && child_of(rows@, j, m.nav_name@),
            any_allowed == exists|j: int|
                0 <= j < i && child_of(rows@, j, m.nav_name@) && row_allowed(rows@[j]),
    {
        let p = chars_of(rows[i].parent.as_str());
        if p.len() != 0 && chars_eq(p.as_slice(), name.as_slice()) {
            assert(child_of(rows@, i as int, m.nav_name@));
            any_child = true;
            if rows[i].permission_code.as_str().is_empty() || rows[i].permitted {
                any_allowed = true;
            }
        } else {
            assert(!child_of(rows@, i as int, m.nav_name@));
        }
    }
    if any_child {
        any_allowed
    } else {
        m.permission_code.as_str().is_empty() || m.permitted
    }
}

/// Builds the header modules and the sidebar for `current_path` from the
/// active navigation items (in menu order).
pub fn build_navigation(rows: &Vec<NavRow>, current_path: &str) -> (r: (
    Vec<NavModule>,
    Vec<NavSidebarItem>,
))
    ensures
        navigation_of(rows@, current_path@, r.0@, r.1@),
{
    let active = find_active_module(current_path, rows);
    let ghost shown_pred = |r: NavRow| is_top(r) && module_shown(rows@, r);
    let n = rows.len();
    let mut modules: Vec<NavModule> = Vec::new();
    for i in 0..n
        invariant
            n == rows@.len(),
            shown_pred == (|r: NavRow| is_top(r) && module_shown(rows@, r)),
            active matches Some(s) ==> active_module(rows@, current_path@) == Some(s@),
            active is None ==> active_module(rows@, current_path@) is None,
            modules@.len() == rows@.subrange(0, i as int).filter(shown_pred).len(),
            forall|k: int|
                0 <= k < modules@.len() ==> {
                    let s = rows@.subrange(0, i as int).filter(shown_pred)[k];
                    &&& (#[trigger] modules@[k]).label@ == s.label@
                    &&& modules@[k].url@ == s.url@
                    &&& modules@[k].is_active == (active_module(rows@, current_path@) == Some(
                        s.nav_name@,
                    ))
                },
    {
        proof {
            reveal_with_fuel(Seq::<_>::filter, 1);
        }
        let ghost pre = rows@.subrange(0, i as int);
        assert(rows@.subrange(0, i + 1).drop_last() =~= pre);
        let r = &rows[i];
        if r.parent.as_str().is_empty() && is_shown(rows, r) {
            let is_active = match &active {
                Some(a) => {
                    let ac = chars_of(a.as_str());
                    let nc = chars_of(r.nav_name.as_str());
                    chars_eq(ac.as_slice(), nc.as_slice())
                },
                None => false,
            };
            modules.push(
                NavModule { label: r.label.clone(), url: r.url.clone(), is_active },
            );
            assert(rows@.subrange(0, i + 1).filter(shown_pred) =~= pre.filter(shown_pred).push(
                rows@[i as int],
            ));
        } else {
            assert(rows@.subrange(0, i + 1).filter(shown_pred) =~= pre.filter(shown_pred));
        }
    }
    assert(rows@.subrange(0, n as int) =~= rows@);
    let path = chars_of(current_path);
    let mut sidebar: Vec<NavSidebarItem> = Vec::new();
    match &active {
        None => {},
        Some(m) => {
            let mc = chars_of(m.as_str());
            let ghost item_pred = |r: NavRow|
                !is_top(r) && r.parent@ == m@ && row_allowed(r);
            let mut items: Vec<usize> = Vec::new();
            let mut best: usize = 0;
            for i in 0..n
                invariant
                    n == rows@.len(),
                    mc@ == m@,
                    path@ == current_path@,
                    item_pred == (|r: NavRow| !is_top(r) && r.parent@ == m@ && row_allowed(r)),
                    items@.len() == rows@.subrange(0, i as int).filter(item_pred).len(),
                    forall|k: int|
                        0 <= k < items@.len() ==> (#[trigger] items@[k]) < n && rows@[items@[k] as int]
                            == rows@.subrange(0, i as int).filter(item_pred)[k],
                    forall|k: int|
                        0 <= k < items@.len() && has_prefix(path@, rows@[items@[k] as int].url@)
                            ==> rows@[#[trigger] items@[k] as int].url@.len() <= best,
                    best == 0 || exists|k: int|
                        0 <= k < items@.len() && has_prefix(path@, rows@[items@[k] as int].url@)
                            && rows@[#[trigger] items@[k] as int].url@.len() == best,
            {
                proof {
                    reveal_with_fuel(Seq::<_>::filter, 1);
                }
                let ghost pre = rows@.subrange(0, i as int);
                assert(rows@.subrange(0, i + 1).drop_last() =~= pre);
                let r = &rows[i];
                let p = chars_of(r.parent.as_str());
                if p.len() != 0 && chars_eq(p.as_slice(), mc.as_slice()) && (
                r.permission_code.as_str().is_empty() || r.permitted) {
                    let ghost old_items = items@;
                    items.push(i);
                    assert(rows@.subrange(0, i + 1).filter(item_pred) =~= pre.filter(
                        item_pred,
                    ).push(rows@[i as int]));
                    let u = chars_of(r.url.as_str());
                    if starts_with(path.as_slice(), u.as_slice()) && u.len() > best {
                        best = u.len();
                        assert(items@[items@.len() - 1] == i);
                    }
                    assert(forall|k: int| 0 <= k < old_items.len() ==> items@[k] == old_items[k]);
                } else {
                    assert(rows@.subrange(0, i + 1).filter(item_pred) =~= pre.filter(item_pred));
                }
            }
            assert(rows@.subrange(0, n as int) =~= rows@);
            let ghost its = sidebar_rows(rows@, m@);
            assert(its == rows@.filter(item_pred));
            let k = items.len();
            assert forall|q: int| 0 <= q < k && has_prefix(path@, its[q].url@) implies (
            #[trigger] its[q]).url@.len() <= best by {
                assert(rows@[items@[q] as int] == its[q]);
            }
            proof {
                if best != 0 {
                    let q0 = choose|q: int|
                        0 <= q < items@.len() && has_prefix(path@, rows@[items@[q] as int].url@)
                            && rows@[#[trigger] items@[q] as int].url@.len() == best;
                    assert(rows@[items@[q0] as int] == its[q0]);
                }
            }
            for j in 0..k
                invariant
                    k == items@.len(),
                    n == rows@.len(),
                    path@ == current_path@,
                    its == sidebar_rows(rows@, m@),
                    its.len() == k,
                    forall|q: int| 0 <= q < k ==> (#[trigger] items@[q]) < n && rows@[items@[q] as int] == its[q],
                    forall|q: int|
                        0 <= q < k && has_prefix(path@, its[q].url@) ==> (#[trigger] its[q]).url@.len() <= best,
                    best == 0 || exists|q: int|
                        0 <= q < k && has_prefix(path@, its[q].url@) && (#[trigger] its[q]).url@.len() == best,
                    sidebar@.len() == j,
                    forall|q: int|
                        0 <= q < j ==> {
                            &&& (#[trigger] sidebar@[q]).label@ == its[q].label@
                            &&& sidebar@[q].url@ == its[q].url@
                            &&& sidebar@[q].is_active == sidebar_active(its, q, current_path@)
                        },
            {
                let r = &rows[items[j]];
                let u = chars_of(r.url.as_str());
                let is_active = u.len() == best && starts_with(path.as_slice(), u.as_slice());
                proof {
                    assert(rows@[items@[j as int] as int] == its[j as int]);
                    if is_active {
                        assert forall|q: int|
                            0 <= q < its.len() && has_prefix(current_path@, #[trigger] its[q].url@)
                            implies its[q].url@.len() <= its[j as int].url@.len() by {}
                    } else if has_prefix(current_path@, its[j as int].url@) {
                        let q = choose|q: int|
                            0 <= q < k && has_prefix(path@, its[q].url@) && (#[trigger] its[q]).url@.len() == best;
                        if best == 0 {
                            assert(its[j as int].url@.len() <= 0);
                        }
                        assert(!sidebar_active(its, j as int, current_path@));
                    }
                }
                sidebar.push(NavSidebarItem { label: r.label.clone(), url: r.url.clone(), is_active });
            }
        },
    }
    (modules, sidebar)
}

/// A navigation item with its id, as read for the menu preview.
pub struct NavItemRow {
    pub id: i64,
    pub name: String,
    pub label: String,
    pub url: String,
    pub permission_code: String,
    pub parent: String,
}

/// An item reachable with a set of permissions, with the label of the
/// module it is shown under.
pub struct NavItemPreview {
    pub id: i64,
    pub label: String,
    pub path: String,
    pub module_name: String,
}

/// A permission code is held: it is empty or one of `codes`.
pub open spec fn code_held(codes: Seq<String>, code: Seq<char>) -> bool {
    code.len() == 0 || exists|i: int| 0 <= i < codes.len() && codes[i]@ == code
}

/// The view of a preview entry.
pub open spec fn preview_of(id: i64, label: Seq<char>, path: Seq<char>, module: Seq<char>) -> (
    i64,
    Seq<char>,
    Seq<char>,
    Seq<char>,
) {
    (id, label, path, module)
}

/// The view of a preview entry.
pub open spec fn preview_view(p: NavItemPreview) -> (i64, Seq<char>, Seq<char>, Seq<char>) {
    (p.id, p.label@, p.path@, p.module_name@)
}

/// The item rows that are children of module `m`, in order.
pub open spec fn children_of(items: Seq<NavItemRow>, m: NavItemRow) -> Seq<NavItemRow> {
    items.filter(|c: NavItemRow| c.parent@.len() > 0 && c.parent@ == m.name@)
}

/// The entries a module contributes: itself when it has no children and is
/// held, otherwise its held children.
pub open spec fn module_entries(items: Seq<NavItemRow>, m: NavItemRow, codes: Seq<String>) -> Seq<
    (i64, Seq<char>, Seq<char>, Seq<char>),
> {
    let kids = children_of(items, m);
    if kids.len() == 0 {
        if code_held(codes, m.permission_code@) {
            seq![preview_of(m.id, m.label@, m.url@, m.label@)]
        } else {
            Seq::empty()
        }
    } else {
        kids.filter(|c: NavItemRow| code_held(codes, c.permission_code@)).map_values(
            |c: NavItemRow| preview_of(c.id, c.label@, c.url@, m.label@),
        )
    }
}

/// The entries of the top-level modules among `tops`, in order.
pub open spec fn preview_entries(items: Seq<NavItemRow>, tops: Seq<NavItemRow>, codes: Seq<String>) -> Seq<
    (i64, Seq<char>, Seq<char>, Seq<char>),
>
    decreases tops.len(),
{
    if tops.len() == 0 {
        Seq::empty()
    } else {
        preview_entries(items, tops.drop_last(), codes) + (if tops.last().parent@.len() == 0 {
            module_entries(items, tops.last(), codes)
        } else {
            Seq::empty()
        })
    }
}

fn holds_code(codes: &Vec<String>, code: &str) -> (b: bool)
    ensures
        b == code_held(codes@, code@),
{
    let c = chars_of(code);
    if c.len() == 0 {
        return true;
    }
    let n = codes.len();
    for i in 0..n
        invariant
            n == codes@.len(),
            c@ == code@,
            forall|j: int| 0 <= j < i ==> codes@[j]@ != code@,
    {
        let d = chars_of(codes[i].as_str());
        if chars_eq(d.as_slice(), c.as_slice()) {
            return true;
        }
    }
    false
}

fn push_module_entries(
    items: &Vec<NavItemRow>,
    m: &NavItemRow,
    codes: &Vec<String>,
    out: &mut Vec<NavItemPreview>,
)
    ensures
        final(out)@.map_values(|p: NavItemPreview| preview_view(p)) == old(out)@.map_values(
            |p: NavItemPreview| preview_view(p),
        ) + module_entries(items@, *m, codes@),
{
    let ghost start = out@.map_values(|p: NavItemPreview| preview_view(p));
    let mname = chars_of(m.name.as_str());
    let ghost kid_pred = |c: NavItemRow| c.parent@.len() > 0 && c.parent@ == m.name@;
    let ghost held_pred = |c: NavItemRow| code_held(codes@, c.permission_code@);
    let ghost to_view = |c: NavItemRow| preview_of(c.id, c.label@, c.url@, m.label@);
    let n = items.len();
    let mut any_kid = false;
    for i in 0..n
        invariant
            n == items@.len(),
            mname@ == m.name@,
            kid_pred == (|c: NavItemRow| c.parent@.len() > 0 && c.parent@ == m.name@),
            held_pred == (|c: NavItemRow| code_held(codes@, c.permission_code@)),
            to_view == (|c: NavItemRow| preview_of(c.id, c.label@, c.url@, m.label@)),
            any_kid == (items@.subrange(0, i as int).filter(kid_pred).len() > 0),
            out@.map_values(|p: NavItemPreview| preview_view(p)) == start + items@.subrange(
                0,
                i as int,
            ).filter(kid_pred).filter(held_pred).map_values(to_view),
    {
        proof {
            reveal_with_fuel(Seq::<_>::filter, 1);
        }
        let ghost pre = items@.subrange(0, i as int);
        assert(items@.subrange(0, i + 1).drop_last() =~= pre);
        let c = &items[i];
        let p = chars_of(c.parent.as_str());
        if p.len() > 0 && chars_eq(p.as_slice(), mname.as_slice()) {
            any_kid = true;
            assert(items@.subrange(0, i + 1).filter(kid_pred) =~= pre.filter(kid_pred).push(*c));
            assert(pre.filter(kid_pred).push(*c).drop_last() =~= pre.filter(kid_pred));
            if holds_code(codes, c.permission_code.as_str()) {
                let ghost before = out@;
                out.push(
                    NavItemPreview {
                        id: c.id,
                        label: c.label.clone(),
                        path: c.url.clone(),
                        module_name: m.label.clone(),
                    },
                );
                assert(pre.filter(kid_pred).push(*c).filter(held_pred) =~= pre.filter(
                    kid_pred,
                ).filter(held_pred).push(*c));
                assert(out@.map_values(|p: NavItemPreview| preview_view(p)) =~= before.map_values(
                    |p: NavItemPreview| preview_view(p),
                ).push(to_view(*c)));
            } else {
                assert(pre.filter(kid_pred).push(*c).filter(held_pred) =~= pre.filter(
                    kid_pred,
                ).filter(held_pred));
            }
        } else {
            assert(items@.subrange(0, i + 1).filter(kid_pred) =~= pre.filter(kid_pred));
        }
    }
    assert(items@.subrange(0, n as int) =~= items@);
    assert(children_of(items@, *m) == items@.filter(kid_pred));
    if !any_kid {
        assert(items@.filter(kid_pred).filter(held_pred).map_values(to_view) =~= Seq::empty());
        if holds_code(codes, m.permission_code.as_str()) {
            let ghost before = out@;
            out.push(
                NavItemPreview {
                    id: m.id,
                    label: m.label.clone(),
                    path: m.url.clone(),
                    module_name: m.label.clone(),
                },
            );
            assert(out@.map_values(|p: NavItemPreview| preview_view(p)) =~= before.map_values(
                |p: NavItemPreview| preview_view(p),
            ).push(preview_of(m.id, m.label@, m.url@, m.label@)));
        }
        assert(out@.map_values(|p: NavItemPreview| preview_view(p)) =~= start + module_entries(
            items@,
            *m,
            codes@,
        ));
    }
}

/// The menu entries reachable with the permission `codes`: a standalone
/// module as its own entry, otherwise the module's permitted children; no
/// entries at all when `codes` is empty.
pub fn accessible_nav_items(items: &Vec<NavItemRow>, codes: &Vec<String>) -> (r: Vec<
    NavItemPreview,
>)
    ensures
        codes@.len() == 0 ==> r@.len() == 0,
        codes@.len() > 0 ==> r@.map_values(|p: NavItemPreview| preview_view(p)) == preview_entries(
            items@,
            items@,
            codes@,
        ),
{
    let mut out: Vec<NavItemPreview> = Vec::new();
    if codes.len() == 0 {
        return out;
    }
    let n = items.len();
    for i in 0..n
        invariant
            n == items@.len(),
            out@.map_values(|p: NavItemPreview| preview_view(p)) == preview_entries(
                items@,
                items@.subrange(0, i as int),
                codes@,
            ),
    {
        let ghost pre = items@.subrange(0, i as int);
        assert(items@.subrange(0, i + 1).drop_last() =~= pre);
        if items[i].parent.as_str().is_empty() {
            push_module_entries(items, &items[i], codes, &mut out);
        }
        assert(out@.map_values(|p: NavItemPreview| preview_view(p)) =~= preview_entries(
            items@,
            items@.subrange(0, i + 1),
            codes@,
        ));
    }
    assert(items@.subrange(0, n as int) =~= items@);
    out
}

} // verus!
