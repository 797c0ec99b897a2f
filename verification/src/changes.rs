//! Debounced filesystem-change records, and the grouping of one window's
//! raw events: one record per change kind, each affected path listed once,
//! in arrival order.

use vstd::prelude::*;

verus! {

/// One filesystem change as published to the listener.
#[derive(Debug, Clone)]
pub struct FilesystemChange {
    pub kind: String,
    pub paths: Vec<String>,
}

/// One raw event as the watcher reported it: its change category and the
/// paths involved.
#[derive(Debug, Clone)]
pub struct RawChange {
    pub kind: String,
    pub paths: Vec<String>,
}

/// Mathematical model of a change or of a raw event.
pub struct ChangeModel {
    pub kind: Seq<char>,
    pub paths: Seq<Seq<char>>,
}

impl View for FilesystemChange {
    type V = ChangeModel;

    open spec fn view(&self) -> ChangeModel {
        ChangeModel { kind: self.kind@, paths: self.paths.deep_view() }
    }
}

impl View for RawChange {
    type V = ChangeModel;

    open spec fn view(&self) -> ChangeModel {
        ChangeModel { kind: self.kind@, paths: self.paths.deep_view() }
    }
}

/// The models of a sequence of change records.
pub open spec fn change_views(s: Seq<FilesystemChange>) -> Seq<ChangeModel> {
    s.map_values(|c: FilesystemChange| c@)
}

/// The models of a sequence of raw events.
pub open spec fn raw_views(s: Seq<RawChange>) -> Seq<ChangeModel> {
    s.map_values(|c: RawChange| c@)
}

/// Index of the first group of the given kind, or `-1` if none has it.
pub open spec fn find_kind(groups: Seq<ChangeModel>, kind: Seq<char>) -> int
    decreases groups.len(),
{
    if groups.len() == 0 {
        -1
    } else if groups[0].kind == kind {
        0
    } else if find_kind(groups.drop_first(), kind) == -1 {
        -1
    } else {
        find_kind(groups.drop_first(), kind) + 1
    }
}

/// What `find_kind` finds: the first group of the kind, or that none has it.
pub proof fn lemma_find_kind(groups: Seq<ChangeModel>, kind: Seq<char>)
    ensures
        -1 <= find_kind(groups, kind) < groups.len(),
        find_kind(groups, kind) == -1 ==> forall|i: int|
            0 <= i < groups.len() ==> groups[i].kind != kind,
        find_kind(groups, kind) >= 0 ==> groups[find_kind(groups, kind)].kind == kind,
        find_kind(groups, kind) >= 0 ==> forall|i: int|
            0 <= i < find_kind(groups, kind) ==> groups[i].kind != kind,
    decreases groups.len(),
{
    if groups.len() > 0 && groups[0].kind != kind {
        lemma_find_kind(groups.drop_first(), kind);
        assert forall|i: int| 1 <= i < groups.len() implies groups.drop_first()[i - 1]
            == groups[i] by {}
    }
}

/// Adds one path of one kind to the groups: appends it to that kind's
/// group if the group exists and lacks it, opens a new group at the end
/// if none exists, and changes nothing if the group already lists it.
pub open spec fn add_path(groups: Seq<ChangeModel>, kind: Seq<char>, path: Seq<char>) -> Seq<
    ChangeModel,
> {
    let i = find_kind(groups, kind);
    if i == -1 {
        groups.push(ChangeModel { kind: kind, paths: seq![path] })
    } else if groups[i].paths.contains(path) {
        groups
    } else {
        groups.update(i, ChangeModel { kind: kind, paths: groups[i].paths.push(path) })
    }
}

/// Adds all paths of one event, in order.
pub open spec fn add_paths(groups: Seq<ChangeModel>, kind: Seq<char>, paths: Seq<Seq<char>>) -> Seq<
    ChangeModel,
>
    decreases paths.len(),
{
    if paths.len() == 0 {
        groups
    } else {
        add_paths(add_path(groups, kind, paths[0]), kind, paths.drop_first())
    }
}

/// Folds a window's events, in arrival order, into the groups.
pub open spec fn coalesce_spec(groups: Seq<ChangeModel>, events: Seq<ChangeModel>) -> Seq<
    ChangeModel,
>
    decreases events.len(),
{
    if events.len() == 0 {
        groups
    } else {
        coalesce_spec(add_paths(groups, events[0].kind, events[0].paths), events.drop_first())
    }
}

/// No two records share a kind, and no record lists a path twice.
pub open spec fn well_grouped(groups: Seq<ChangeModel>) -> bool {
    (forall|i: int, j: int| 0 <= i < j < groups.len() ==> groups[i].kind != groups[j].kind)
        && (forall|g: int, p: int, q: int|
        0 <= g < groups.len() && 0 <= p < q < groups[g].paths.len() ==> groups[g].paths[p]
            != groups[g].paths[q])
}

proof fn lemma_add_path_well_grouped(groups: Seq<ChangeModel>, kind: Seq<char>, path: Seq<char>)
    requires
        well_grouped(groups),
    ensures
        well_grouped(add_path(groups, kind, path)),
{
    lemma_find_kind(groups, kind);
    let i = find_kind(groups, kind);
    if i == -1 {
        let t = groups.push(ChangeModel { kind: kind, paths: seq![path] });
        assert forall|a: int, b: int| 0 <= a < b < t.len() implies t[a].kind != t[b].kind by {
            if b == groups.len() {
                assert(t[a] == groups[a]);
            }
        }
    } else if !groups[i].paths.contains(path) {
        let np = groups[i].paths.push(path);
        let t = groups.update(i, ChangeModel { kind: kind, paths: np });
        assert forall|p: int, q: int| 0 <= p < q < np.len() implies np[p] != np[q] by {
            if q == np.len() - 1 {
                assert(np[p] == groups[i].paths[p]);
                assert(!groups[i].paths.contains(path));
            }
        }
    }
}

/// Grouping keeps the groups well formed, whatever events arrive: one
/// record per kind, no path listed twice.
pub proof fn lemma_coalesce_well_grouped(groups: Seq<ChangeModel>, events: Seq<ChangeModel>)
    requires
        well_grouped(groups),
    ensures
        well_grouped(coalesce_spec(groups, events)),
    decreases events.len(), events.first().paths.len() + 1,
{
    if events.len() > 0 {
        lemma_add_paths_well_grouped(groups, events[0].kind, events[0].paths);
        lemma_coalesce_well_grouped(
            add_paths(groups, events[0].kind, events[0].paths),
            events.drop_first(),
        );
    }
}

proof fn lemma_add_paths_well_grouped(groups: Seq<ChangeModel>, kind: Seq<char>, paths: Seq<
    Seq<char>,
>)
    requires
        well_grouped(groups),
    ensures
        well_grouped(add_paths(groups, kind, paths)),
    decreases paths.len(),
{
    if paths.len() > 0 {
        lemma_add_path_well_grouped(groups, kind, paths[0]);
        lemma_add_paths_well_grouped(add_path(groups, kind, paths[0]), kind, paths.drop_first());
    }
}

/// Decides whether the groups already list `kind`, and at which record.
fn find_kind_exec(groups: &Vec<FilesystemChange>, kind: &String) -> (r: Option<usize>)
    ensures
        match r {
            Some(i) => i < groups@.len() && find_kind(change_views(groups@), kind@) == i,
            None => find_kind(change_views(groups@), kind@) == -1,
        },
{
    let mut i: usize = 0;
    while i < groups.len()
        invariant
            i <= groups@.len(),
            forall|j: int| 0 <= j < i ==> #[trigger] change_views(groups@)[j].kind != kind@,
        decreases groups@.len() - i,
    {
        if groups[i].kind == *kind {
            proof {
                assert(change_views(groups@)[i as int].kind == kind@);
                lemma_find_kind(change_views(groups@), kind@);
            }
            return Some(i);
        }
        i = i + 1;
    }
    proof {
        lemma_find_kind(change_views(groups@), kind@);
    }
    None
}

/// Decides whether `v` holds a string equal to `s`.
fn contains_string(v: &Vec<String>, s: &String) -> (r: bool)
    ensures
        r == v.deep_view().contains(s@),
{
    let mut i: usize = 0;
    while i < v.len()
        invariant
            i <= v@.len(),
            forall|j: int| 0 <= j < i ==> #[trigger] v.deep_view()[j] != s@,
        decreases v@.len() - i,
    {
        if v[i] == *s {
            assert(v.deep_view()[i as int] == s@);
            return true;
        }
        i = i + 1;
    }
    assert(!v.deep_view().contains(s@)) by {
        if v.deep_view().contains(s@) {
            let j = choose|j: int| 0 <= j < v.deep_view().len() && v.deep_view()[j] == s@;
            assert(v.deep_view()[j] != s@);
        }
    }
    false
}

/// Applies `add_path` to the records.
fn add_path_exec(groups: &mut Vec<FilesystemChange>, kind: &String, path: &String)
    ensures
        change_views(final(groups)@) == add_path(change_views(old(groups)@), kind@, path@),
{
    let ghost s = change_views(groups@);
    match find_kind_exec(groups, kind) {
        None => {
            let mut paths: Vec<String> = Vec::new();
            paths.push(path.clone());
            let ghost before = groups@;
            groups.push(FilesystemChange { kind: kind.clone(), paths });
            proof {
                assert(groups@[before.len() as int]@.paths =~= seq![path@]);
                assert forall|k: int| 0 <= k < groups@.len() implies change_views(groups@)[k]
                    == add_path(s, kind@, path@)[k] by {
                    if k < before.len() {
                        assert(groups@[k] == before[k]);
                    }
                }
                assert(change_views(groups@) =~= add_path(s, kind@, path@));
            }
        },
        Some(i) => {
            proof {
                lemma_find_kind(s, kind@);
                assert(s[i as int].kind == kind@);
            }
            if contains_string(&groups[i].paths, path) {
                proof {
                    assert(change_views(groups@) =~= add_path(s, kind@, path@));
                }
            } else {
                let ghost before = groups@;
                let mut g = groups.remove(i);
                let ghost old_paths = g.paths@;
                g.paths.push(path.clone());
                proof {
                    assert forall|k: int| 0 <= k < g.paths.deep_view().len() implies g
                        .paths
                        .deep_view()[k] == s[i as int].paths.push(path@)[k] by {
                        if k < old_paths.len() {
                            assert(g.paths@[k] == old_paths[k]);
                        }
                    }
                    assert(g.paths.deep_view() =~= s[i as int].paths.push(path@));
                }
                groups.insert(i, g);
                proof {
                    let t = add_path(s, kind@, path@);
                    assert(t == s.update(i as int, ChangeModel {
                        kind: kind@,
                        paths: s[i as int].paths.push(path@),
                    }));
                    assert forall|k: int| 0 <= k < groups@.len() implies change_views(groups@)[k]
                        == t[k] by {
                        if k < i {
                            assert(groups@[k] == before[k]);
                        } else if k > i {
                            assert(groups@[k] == before[k]);
                        } else {
                            assert(groups@[k] == g);
                            assert(g@.kind == s[i as int].kind);
                            assert(g@.paths == s[i as int].paths.push(path@));
                        }
                    }
                    assert(change_views(groups@) =~= t);
                }
            }
        },
    }
}

/// Groups the raw events of one debounce window as they arrive.
pub struct Coalescer {
    groups: Vec<FilesystemChange>,
}

impl Coalescer {
    /// The records grouped so far.
    pub closed spec fn groups_view(&self) -> Seq<ChangeModel> {
        change_views(self.groups@)
    }

    /// Opens a window with nothing grouped yet.
    pub fn new() -> (r: Coalescer)
        ensures
            r.groups_view() == Seq::<ChangeModel>::empty(),
    {
        let c = Coalescer { groups: Vec::new() };
        proof {
            assert(c.groups_view() =~= Seq::<ChangeModel>::empty());
        }
        c
    }

    /// Folds one raw event into the groups.
    pub fn push_event(&mut self, ev: &RawChange)
        ensures
            final(self).groups_view() == add_paths(old(self).groups_view(), ev@.kind, ev@.paths),
    {
        let ghost orig = self.groups_view();
        let ghost all = ev.paths.deep_view();
        let mut i: usize = 0;
        proof {
            assert(all.skip(0) =~= all);
        }
        while i < ev.paths.len()
            invariant
                i <= all.len(),
                all == ev.paths.deep_view(),
                add_paths(orig, ev@.kind, all) == add_paths(
                    self.groups_view(),
                    ev@.kind,
                    all.skip(i as int),
                ),
            decreases all.len() - i,
        {
            let ghost cur = self.groups_view();
            add_path_exec(&mut self.groups, &ev.kind, &ev.paths[i]);
            proof {
                assert(all.skip(i as int)[0] == all[i as int]);
                assert(all.skip(i as int).drop_first() =~= all.skip(i as int + 1));
            }
            i = i + 1;
        }
        proof {
            assert(all.skip(all.len() as int).len() == 0);
        }
    }

    /// Closes the window, handing out one record per kind seen.
    pub fn finish(self) -> (r: Vec<FilesystemChange>)
        ensures
            change_views(r@) == self.groups_view(),
    {
        self.groups
    }
}

/// Groups a whole window's raw events: one record per distinct kind, each
/// carrying that kind's paths in arrival order, each path once.
pub fn coalesce_batch(events: &Vec<RawChange>) -> (r: Vec<FilesystemChange>)
    ensures
        change_views(r@) == coalesce_spec(Seq::empty(), raw_views(events@)),
{
    let ghost all = raw_views(events@);
    let mut c = Coalescer::new();
    let mut i: usize = 0;
    proof {
        assert(all.skip(0) =~= all);
    }
    while i < events.len()
        invariant
            i <= all.len(),
            all == raw_views(events@),
            coalesce_spec(Seq::empty(), all) == coalesce_spec(c.groups_view(), all.skip(i as int)),
        decreases all.len() - i,
    {
        c.push_event(&events[i]);
        proof {
            assert(all.skip(i as int)[0] == all[i as int]);
            assert(all.skip(i as int).drop_first() =~= all.skip(i as int + 1));
        }
        i = i + 1;
    }
    proof {
        assert(all.skip(all.len() as int).len() == 0);
    }
    c.finish()
}

/// Adding an event with one path is one `add_path` step.
proof fn lemma_add_paths_single(groups: Seq<ChangeModel>, k: Seq<char>, p: Seq<char>)
    ensures
        add_paths(groups, k, seq![p]) == add_path(groups, k, p),
{
    assert(seq![p][0] == p);
    assert(seq![p].drop_first() =~= Seq::<Seq<char>>::empty());
    assert(add_paths(add_path(groups, k, p), k, Seq::<Seq<char>>::empty()) == add_path(
        groups,
        k,
        p,
    ));
    assert(add_paths(groups, k, seq![p]) == add_paths(
        add_path(groups, k, seq![p][0]),
        k,
        seq![p].drop_first(),
    ));
}


/// Whether some event of the given kind lists the given path.
pub open spec fn event_lists(events: Seq<ChangeModel>, kind: Seq<char>, path: Seq<char>) -> bool {
    exists|i: int|
        0 <= i < events.len() && events[i].kind == kind && events[i].paths.contains(path)
}

/// Whether some group of the given kind lists the given path.
pub open spec fn group_lists(groups: Seq<ChangeModel>, kind: Seq<char>, path: Seq<char>) -> bool {
    exists|i: int|
        0 <= i < groups.len() && groups[i].kind == kind && groups[i].paths.contains(path)
}

proof fn lemma_add_path_sound(groups: Seq<ChangeModel>, kind: Seq<char>, path: Seq<char>)
    ensures
        forall|gi: int, pi: int|
            0 <= gi < add_path(groups, kind, path).len() && 0 <= pi < add_path(
                groups,
                kind,
                path,
            )[gi].paths.len() ==> group_lists(
                groups,
                add_path(groups, kind, path)[gi].kind,
                #[trigger] add_path(groups, kind, path)[gi].paths[pi],
            ) || (add_path(groups, kind, path)[gi].kind == kind && add_path(
                groups,
                kind,
                path,
            )[gi].paths[pi] == path),
{
    let r = add_path(groups, kind, path);
    let i = find_kind(groups, kind);
    lemma_find_kind(groups, kind);
    assert forall|gi: int, pi: int|
        0 <= gi < r.len() && 0 <= pi < r[gi].paths.len() implies group_lists(
        groups,
        r[gi].kind,
        #[trigger] r[gi].paths[pi],
    ) || (r[gi].kind == kind && r[gi].paths[pi] == path) by {
        if i == -1 {
            if gi < groups.len() {
                assert(r[gi] == groups[gi]);
                assert(groups[gi].paths.contains(r[gi].paths[pi]));
            } else {
                assert(r[gi].paths =~= seq![path]);
            }
        } else if groups[i].paths.contains(path) {
            assert(r[gi] == groups[gi]);
            assert(groups[gi].paths.contains(r[gi].paths[pi]));
        } else {
            if gi != i {
                assert(r[gi] == groups[gi]);
                assert(groups[gi].paths.contains(r[gi].paths[pi]));
            } else {
                assert(r[gi].paths == groups[i].paths.push(path));
                if pi < groups[i].paths.len() {
                    assert(r[gi].paths[pi] == groups[i].paths[pi]);
                    assert(groups[i].paths.contains(r[gi].paths[pi]));
                } else {
                    assert(r[gi].paths[pi] == path);
                }
            }
        }
    }
}

proof fn lemma_add_paths_sound(groups: Seq<ChangeModel>, kind: Seq<char>, paths: Seq<Seq<char>>)
    ensures
        forall|gi: int, pi: int|
            0 <= gi < add_paths(groups, kind, paths).len() && 0 <= pi < add_paths(
                groups,
                kind,
                paths,
            )[gi].paths.len() ==> group_lists(
                groups,
                add_paths(groups, kind, paths)[gi].kind,
                #[trigger] add_paths(groups, kind, paths)[gi].paths[pi],
            ) || (add_paths(groups, kind, paths)[gi].kind == kind && paths.contains(
                add_paths(groups, kind, paths)[gi].paths[pi],
            )),
    decreases paths.len(),
{
    if paths.len() > 0 {
        let g1 = add_path(groups, kind, paths[0]);
        let r = add_paths(groups, kind, paths);
        lemma_add_path_sound(groups, kind, paths[0]);
        lemma_add_paths_sound(g1, kind, paths.drop_first());
        assert(r == add_paths(g1, kind, paths.drop_first()));
        assert forall|gi: int, pi: int|
            0 <= gi < r.len() && 0 <= pi < r[gi].paths.len() implies group_lists(
            groups,
            r[gi].kind,
            #[trigger] r[gi].paths[pi],
        ) || (r[gi].kind == kind && paths.contains(r[gi].paths[pi])) by {
            let p = r[gi].paths[pi];
            assert(add_paths(g1, kind, paths.drop_first())[gi].paths[pi] == p);
            if group_lists(g1, r[gi].kind, p) {
                let wi = choose|wi: int|
                    0 <= wi < g1.len() && g1[wi].kind == r[gi].kind && g1[wi].paths.contains(p);
                let wp = choose|wp: int| 0 <= wp < g1[wi].paths.len() && g1[wi].paths[wp] == p;
                assert(g1[wi].paths[wp] == p);
                if g1[wi].kind == kind && g1[wi].paths[wp] == paths[0] {
                    assert(paths.contains(p));
                }
            } else {
                assert(r[gi].kind == kind && paths.drop_first().contains(p));
                let wj = choose|wj: int|
                    0 <= wj < paths.drop_first().len() && paths.drop_first()[wj] == p;
                assert(paths[wj + 1] == p);
                assert(paths.contains(p));
            }
        }
    }
}

/// Every path a grouped record lists was reported, for that record's kind,
/// by some event of the window or listed by the starting groups.
pub proof fn lemma_coalesce_sound(groups: Seq<ChangeModel>, events: Seq<ChangeModel>)
    ensures
        forall|gi: int, pi: int|
            0 <= gi < coalesce_spec(groups, events).len() && 0 <= pi < coalesce_spec(
                groups,
                events,
            )[gi].paths.len() ==> group_lists(
                groups,
                coalesce_spec(groups, events)[gi].kind,
                #[trigger] coalesce_spec(groups, events)[gi].paths[pi],
            ) || event_lists(
                events,
                coalesce_spec(groups, events)[gi].kind,
                coalesce_spec(groups, events)[gi].paths[pi],
            ),
    decreases events.len(),
{
    if events.len() > 0 {
        let g1 = add_paths(groups, events[0].kind, events[0].paths);
        let r = coalesce_spec(groups, events);
        lemma_add_paths_sound(groups, events[0].kind, events[0].paths);
        lemma_coalesce_sound(g1, events.drop_first());
        assert(r == coalesce_spec(g1, events.drop_first()));
        assert forall|gi: int, pi: int|
            0 <= gi < r.len() && 0 <= pi < r[gi].paths.len() implies group_lists(
            groups,
            r[gi].kind,
            #[trigger] r[gi].paths[pi],
        ) || event_lists(events, r[gi].kind, r[gi].paths[pi]) by {
            let p = r[gi].paths[pi];
            let k = r[gi].kind;
            assert(coalesce_spec(g1, events.drop_first())[gi].paths[pi] == p);
            if group_lists(g1, k, p) {
                let wi = choose|wi: int|
                    0 <= wi < g1.len() && g1[wi].kind == k && g1[wi].paths.contains(p);
                let wp = choose|wp: int| 0 <= wp < g1[wi].paths.len() && g1[wi].paths[wp] == p;
                assert(g1[wi].paths[wp] == p);
                if !group_lists(groups, k, p) {
                    assert(k == events[0].kind && events[0].paths.contains(p));
                    assert(events[0].kind == k && events[0].paths.contains(p));
                    assert(event_lists(events, k, p));
                }
            } else {
                assert(event_lists(events.drop_first(), k, p));
                let wj = choose|wj: int|
                    0 <= wj < events.drop_first().len() && events.drop_first()[wj].kind == k
                        && events.drop_first()[wj].paths.contains(p);
                assert(events[wj + 1].kind == k && events[wj + 1].paths.contains(p));
                assert(event_lists(events, k, p));
            }
        }
    }
}

proof fn lemma_add_path_lists(groups: Seq<ChangeModel>, kind: Seq<char>, path: Seq<char>)
    ensures
        group_lists(add_path(groups, kind, path), kind, path),
{
    lemma_find_kind(groups, kind);
    let i = find_kind(groups, kind);
    let r = add_path(groups, kind, path);
    if i == -1 {
        assert(r[groups.len() as int].kind == kind);
        assert(r[groups.len() as int].paths =~= seq![path]);
        assert(r[groups.len() as int].paths[0] == path);
        assert(r[groups.len() as int].paths.contains(path));
    } else if groups[i].paths.contains(path) {
        assert(r[i].kind == kind && r[i].paths.contains(path));
    } else {
        assert(r[i].kind == kind);
        assert(r[i].paths == groups[i].paths.push(path));
        assert(r[i].paths[groups[i].paths.len() as int] == path);
        assert(r[i].paths.contains(path));
    }
}

proof fn lemma_add_path_preserves(
    groups: Seq<ChangeModel>,
    kind: Seq<char>,
    path: Seq<char>,
    k: Seq<char>,
    p: Seq<char>,
)
    requires
        group_lists(groups, k, p),
    ensures
        group_lists(add_path(groups, kind, path), k, p),
{
    let r = add_path(groups, kind, path);
    let wi = choose|wi: int|
        0 <= wi < groups.len() && groups[wi].kind == k && groups[wi].paths.contains(p);
    let wp = choose|wp: int| 0 <= wp < groups[wi].paths.len() && groups[wi].paths[wp] == p;
    let i = find_kind(groups, kind);
    lemma_find_kind(groups, kind);
    if i == -1 {
        assert(r[wi] == groups[wi]);
        assert(r[wi].paths.contains(p));
    } else if groups[i].paths.contains(path) {
        assert(r[wi].paths.contains(p));
    } else {
        if wi == i {
            assert(r[wi].kind == k);
            assert(r[wi].paths[wp] == p);
            assert(r[wi].paths.contains(p));
        } else {
            assert(r[wi] == groups[wi]);
            assert(r[wi].paths[wp] == p);
            assert(r[wi].paths.contains(p));
        }
    }
}

proof fn lemma_add_paths_complete(groups: Seq<ChangeModel>, kind: Seq<char>, paths: Seq<Seq<char>>)
    ensures
        forall|p: Seq<char>| #[trigger]
            paths.contains(p) ==> group_lists(add_paths(groups, kind, paths), kind, p),
        forall|k: Seq<char>, p: Seq<char>| #[trigger]
            group_lists(groups, k, p) ==> group_lists(add_paths(groups, kind, paths), k, p),
    decreases paths.len(),
{
    if paths.len() > 0 {
        let g1 = add_path(groups, kind, paths[0]);
        let r = add_paths(groups, kind, paths);
        lemma_add_path_lists(groups, kind, paths[0]);
        lemma_add_paths_complete(g1, kind, paths.drop_first());
        assert(r == add_paths(g1, kind, paths.drop_first()));
        assert forall|k: Seq<char>, p: Seq<char>| #[trigger]
            group_lists(groups, k, p) implies group_lists(r, k, p) by {
            lemma_add_path_preserves(groups, kind, paths[0], k, p);
            assert(group_lists(g1, k, p));
        }
        assert forall|p: Seq<char>| #[trigger] paths.contains(p) implies group_lists(
            r,
            kind,
            p,
        ) by {
            let wj = choose|wj: int| 0 <= wj < paths.len() && paths[wj] == p;
            if wj == 0 {
                assert(group_lists(g1, kind, p));
            } else {
                assert(paths.drop_first()[wj - 1] == p);
                assert(paths.drop_first().contains(p));
            }
        }
    }
}

/// Nothing is dropped: every path of every event of the window appears in
/// the grouped records under that event's kind, and what the starting
/// groups listed stays listed.
pub proof fn lemma_coalesce_complete(groups: Seq<ChangeModel>, events: Seq<ChangeModel>)
    ensures
        forall|k: Seq<char>, p: Seq<char>| #[trigger]
            group_lists(groups, k, p) ==> group_lists(coalesce_spec(groups, events), k, p),
        forall|i: int, p: Seq<char>|
            0 <= i < events.len() && #[trigger] events[i].paths.contains(p) ==> group_lists(
                coalesce_spec(groups, events),
                events[i].kind,
                p,
            ),
    decreases events.len(),
{
    if events.len() > 0 {
        let g1 = add_paths(groups, events[0].kind, events[0].paths);
        let r = coalesce_spec(groups, events);
        lemma_add_paths_complete(groups, events[0].kind, events[0].paths);
        lemma_coalesce_complete(g1, events.drop_first());
        assert(r == coalesce_spec(g1, events.drop_first()));
        assert forall|k: Seq<char>, p: Seq<char>| #[trigger]
            group_lists(groups, k, p) implies group_lists(r, k, p) by {
            assert(group_lists(g1, k, p));
        }
        assert forall|i: int, p: Seq<char>|
            0 <= i < events.len() && #[trigger] events[i].paths.contains(p) implies group_lists(
            r,
            events[i].kind,
            p,
        ) by {
            if i == 0 {
                assert(group_lists(g1, events[0].kind, p));
            } else {
                assert(events.drop_first()[i - 1] == events[i]);
                assert(events.drop_first()[i - 1].paths.contains(p));
            }
        }
    }
}

/// A steady state: events that repeat the one grouped record change nothing.
proof fn lemma_coalesce_steady(k: Seq<char>, p: Seq<char>, events: Seq<ChangeModel>)
    requires
        forall|i: int| 0 <= i < events.len() ==> events[i] == (ChangeModel {
            kind: k,
            paths: seq![p],
        }),
    ensures
        coalesce_spec(seq![(ChangeModel { kind: k, paths: seq![p] })], events) == seq![
            (ChangeModel { kind: k, paths: seq![p] }),
        ],
    decreases events.len(),
{
    let g = ChangeModel { kind: k, paths: seq![p] };
    if events.len() > 0 {
        assert(find_kind(seq![g], k) == 0);
        assert(seq![g][0].paths.contains(p)) by {
            assert(seq![g][0].paths[0] == p);
        }
        assert(add_path(seq![g], k, p) == seq![g]);
        lemma_add_paths_single(seq![g], k, p);
        assert(events[0] == g);
        lemma_coalesce_steady(k, p, events.drop_first());
    }
}

/// A burst of identical single-path events, however long, yields exactly
/// one record: that kind, listing that path once.
pub proof fn lemma_burst_one_record(k: Seq<char>, p: Seq<char>, events: Seq<ChangeModel>)
    requires
        events.len() >= 1,
        forall|i: int| 0 <= i < events.len() ==> events[i] == (ChangeModel {
            kind: k,
            paths: seq![p],
        }),
    ensures
        coalesce_spec(Seq::empty(), events) == seq![(ChangeModel { kind: k, paths: seq![p] })],
{
    let g = ChangeModel { kind: k, paths: seq![p] };
    assert(find_kind(Seq::empty(), k) == -1);
    assert(add_path(Seq::empty(), k, p) =~= seq![g]);
    lemma_add_paths_single(Seq::empty(), k, p);
    assert(events[0] == g);
    lemma_coalesce_steady(k, p, events.drop_first());
}

/// Two events of different kinds yield two records, one per kind, each
/// listing only its own event's path.
pub proof fn lemma_two_kinds_two_records(k1: Seq<char>, p1: Seq<char>, k2: Seq<char>, p2: Seq<char>)
    requires
        k1 != k2,
    ensures
        coalesce_spec(
            Seq::empty(),
            seq![
                (ChangeModel { kind: k1, paths: seq![p1] }),
                (ChangeModel { kind: k2, paths: seq![p2] }),
            ],
        ) == seq![
            (ChangeModel { kind: k1, paths: seq![p1] }),
            (ChangeModel { kind: k2, paths: seq![p2] }),
        ],
{
    let g1 = ChangeModel { kind: k1, paths: seq![p1] };
    let g2 = ChangeModel { kind: k2, paths: seq![p2] };
    let events = seq![g1, g2];
    assert(find_kind(Seq::empty(), k1) == -1);
    assert(add_path(Seq::empty(), k1, p1) =~= seq![g1]);
    lemma_add_paths_single(Seq::empty(), k1, p1);
    assert(find_kind(seq![g1], k2) == -1) by {
        assert(seq![g1].drop_first() =~= Seq::<ChangeModel>::empty());
        assert(find_kind(Seq::<ChangeModel>::empty(), k2) == -1);
        assert(seq![g1][0].kind == k1);
    }
    assert(add_path(seq![g1], k2, p2) =~= seq![g1, g2]);
    lemma_add_paths_single(seq![g1], k2, p2);
    assert(events[0] == g1);
    assert(events.drop_first() =~= seq![g2]);
    assert(seq![g2][0] == g2);
    assert(seq![g2].drop_first() =~= Seq::<ChangeModel>::empty());
    assert(coalesce_spec(seq![g1, g2], Seq::<ChangeModel>::empty()) == seq![g1, g2]);
    assert(coalesce_spec(seq![g1], seq![g2]) == seq![g1, g2]);
    assert(coalesce_spec(Seq::empty(), events) == coalesce_spec(seq![g1], events.drop_first()));
    assert(coalesce_spec(Seq::empty(), events) == seq![g1, g2]);
}

} // verus!
