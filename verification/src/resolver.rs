//! From imports between files to the modules that a selection needs.
//!
//! A module is a folder directly below the modules folder. An import of a file
//! of one module by a file of another makes the first module depend on the
//! second. The closure of a selection holds the selected modules and every
//! module that one of them needs, directly or through others.
use vstd::prelude::*;
use crate::models::DependencyEdge;
use crate::text::{
    chars_eq, concat, copy_chars, dedup, dedup_of, find_char, find_char_of, lemma_dedup,
    lemma_push_contains, list_contains, string_views, strip_prefix, strip_prefix_of, subvec,
    to_char_lists, to_chars, to_strings, views,
};

verus! {

/// The module that the file `path` belongs to: the first segment after
/// `{modules_dir}/`, where that segment is a folder and one of `all`.
pub open spec fn module_of_path(path: Seq<char>, modules_dir: Seq<char>, all: Seq<Seq<char>>)
    -> Option<Seq<char>> {
    match strip_prefix_of(path, modules_dir + "/"@) {
        None => None,
        Some(rest) => match find_char_of(rest, '/') {
            None => None,
            Some(pos) => if all.contains(rest.subrange(0, pos)) {
                Some(rest.subrange(0, pos))
            } else {
                None
            },
        },
    }
}

/// The module that the file `path` belongs to, or `None` for a file outside
/// every module.
pub fn module_of(path: &Vec<char>, modules_dir: &Vec<char>, all: &Vec<Vec<char>>) -> (r: Option<
    Vec<char>,
>)
    ensures
        crate::text::opt_view(r) == module_of_path(path@, modules_dir@, views(all@)),
{
    let prefix = concat(modules_dir, &to_chars("/"));
    let rest = match strip_prefix(path, &prefix) {
        Some(r) => r,
        None => {
            return None;
        },
    };
    match find_char(&rest, '/') {
        Some(pos) => {
            let name = subvec(&rest, 0, pos);
            if list_contains(all, &name) {
                Some(name)
            } else {
                None
            }
        },
        None => None,
    }
}

/// The imports between files as pairs of paths.
pub open spec fn edge_views(edges: Seq<DependencyEdge>) -> Seq<(Seq<char>, Seq<char>)> {
    Seq::new(edges.len(), |i: int| (edges[i].source@, edges[i].target@))
}

/// The views of a list of pairs of texts.
pub open spec fn pair_views(pairs: Seq<(Vec<char>, Vec<char>)>) -> Seq<(Seq<char>, Seq<char>)> {
    Seq::new(pairs.len(), |i: int| (pairs[i].0@, pairs[i].1@))
}

/// The dependency between modules that one import between files makes: the
/// importing file's module needs the imported file's module, where both files
/// belong to a module and the two modules differ.
pub open spec fn module_edge_of(
    edge: (Seq<char>, Seq<char>),
    modules_dir: Seq<char>,
    all: Seq<Seq<char>>,
) -> Option<(Seq<char>, Seq<char>)> {
    match (module_of_path(edge.0, modules_dir, all), module_of_path(edge.1, modules_dir, all)) {
        (Some(a), Some(b)) => if a != b {
            Some((a, b))
        } else {
            None
        },
        _ => None,
    }
}

/// The dependencies between modules that the imports between files make, in
/// the order of the imports.
pub open spec fn module_graph_of(
    edges: Seq<(Seq<char>, Seq<char>)>,
    modules_dir: Seq<char>,
    all: Seq<Seq<char>>,
) -> Seq<(Seq<char>, Seq<char>)>
    decreases edges.len(),
{
    if edges.len() == 0 {
        Seq::empty()
    } else {
        let rest = module_graph_of(edges.drop_last(), modules_dir, all);
        match module_edge_of(edges.last(), modules_dir, all) {
            Some(e) => rest.push(e),
            None => rest,
        }
    }
}

/// The dependencies between modules: each pair says that its first module
/// needs its second.
pub struct ModuleGraph {
    edges: Vec<(Vec<char>, Vec<char>)>,
}

impl View for ModuleGraph {
    type V = Seq<(Seq<char>, Seq<char>)>;

    closed spec fn view(&self) -> Seq<(Seq<char>, Seq<char>)> {
        pair_views(self.edges@)
    }
}

impl ModuleGraph {
    /// The dependencies between modules that the imports between files make.
    pub fn from_edges(edges: &[DependencyEdge], modules_dir: &str, all_module_names: &[String])
        -> (g: ModuleGraph)
        ensures
            g@ == module_graph_of(
                edge_views(edges@),
                modules_dir@,
                string_views(all_module_names@),
            ),
    {
        let all = to_char_lists(all_module_names);
        let dir = to_chars(modules_dir);
        let mut out: Vec<(Vec<char>, Vec<char>)> = Vec::new();
        let mut i: usize = 0;
        while i < edges.len()
            invariant
                i <= edges.len(),
                views(all@) == string_views(all_module_names@),
                dir@ == modules_dir@,
                pair_views(out@) == module_graph_of(
                    edge_views(edges@).take(i as int),
                    dir@,
                    views(all@),
                ),
            decreases edges.len() - i,
        {
            let ghost before = pair_views(out@);
            assert(edge_views(edges@).take(i + 1).drop_last() =~= edge_views(edges@).take(
                i as int,
            ));
            let a = module_of(&to_chars(edges[i].source.as_str()), &dir, &all);
            let b = module_of(&to_chars(edges[i].target.as_str()), &dir, &all);
            match (a, b) {
                (Some(a), Some(b)) => {
                    if !chars_eq(&a, &b) {
                        out.push((a, b));
                        assert(pair_views(out@) =~= before.push((a@, b@)));
                    }
                },
                _ => {},
            }
            i += 1;
        }
        assert(edge_views(edges@).take(edges.len() as int) =~= edge_views(edges@));
        ModuleGraph { edges: out }
    }

    /// Whether module `a` needs module `b`.
    pub fn depends(&self, a: &Vec<char>, b: &Vec<char>) -> (r: bool)
        ensures
            r == self@.contains((a@, b@)),
    {
        let mut i: usize = 0;
        while i < self.edges.len()
            invariant
                i <= self.edges.len(),
                forall|k: int| 0 <= k < i ==> self@[k] != (a@, b@),
            decreases self.edges.len() - i,
        {
            if chars_eq(&self.edges[i].0, a) && chars_eq(&self.edges[i].1, b) {
                assert(self@[i as int] == (a@, b@));
                return true;
            }
            i += 1;
        }
        false
    }
}

// ---------------------------------------------------------------------------
// The closure of a selection
// ---------------------------------------------------------------------------
/// The list `acc` followed by the modules of `all` that `m` needs and that
/// are not yet listed, in the order of `all`.
pub open spec fn expand_of(
    g: Seq<(Seq<char>, Seq<char>)>,
    all: Seq<Seq<char>>,
    acc: Seq<Seq<char>>,
    m: Seq<char>,
) -> Seq<Seq<char>>
    decreases all.len(),
{
    if all.len() == 0 {
        acc
    } else {
        let prev = expand_of(g, all.drop_last(), acc, m);
        if g.contains((m, all.last())) && !prev.contains(all.last()) {
            prev.push(all.last())
        } else {
            prev
        }
    }
}

/// How many entries of `all` are not listed in `acc`.
pub open spec fn missing_count(all: Seq<Seq<char>>, acc: Seq<Seq<char>>) -> nat
    decreases all.len(),
{
    if all.len() == 0 {
        0
    } else {
        missing_count(all.drop_last(), acc) + if acc.contains(all.last()) {
            0nat
        } else {
            1nat
        }
    }
}

/// The list that a breadth-first walk makes of `acc`: the modules from
/// position `head` on are visited in order, and each visit appends the
/// modules that the visited one needs and that are not yet listed.
pub open spec fn bfs_of(
    g: Seq<(Seq<char>, Seq<char>)>,
    all: Seq<Seq<char>>,
    acc: Seq<Seq<char>>,
    head: int,
) -> Seq<Seq<char>>
    decreases missing_count(all, acc), acc.len() - head,
{
    if head < 0 || head >= acc.len() {
        acc
    } else {
        proof {
            lemma_expand(g, all, all, acc, acc[head]);
        }
        bfs_of(g, all, expand_of(g, all, acc, acc[head]), head + 1)
    }
}

/// The closure of `selected`: the selected modules, each once and in the
/// order given, followed by the modules that they need, directly or through
/// others, in the order in which a breadth-first walk finds them. Among the
/// modules that one module needs, the order of `all` decides.
pub open spec fn closure_of(
    selected: Seq<Seq<char>>,
    all: Seq<Seq<char>>,
    g: Seq<(Seq<char>, Seq<char>)>,
) -> Seq<Seq<char>> {
    bfs_of(g, all, dedup_of(selected), 0)
}

/// Whether every module that one of the first `head` entries of `acc` needs
/// is listed in `acc`.
pub open spec fn processed(
    g: Seq<(Seq<char>, Seq<char>)>,
    all: Seq<Seq<char>>,
    acc: Seq<Seq<char>>,
    head: int,
) -> bool {
    forall|i: int, n: Seq<char>|
        0 <= i < head && i < acc.len() && all.contains(n) && #[trigger] g.contains((acc[i], n))
            ==> acc.contains(n)
}

/// Whether `acc` lists every module of `all` that one of its entries needs.
pub open spec fn closed(g: Seq<(Seq<char>, Seq<char>)>, all: Seq<Seq<char>>, acc: Seq<Seq<char>>)
    -> bool {
    processed(g, all, acc, acc.len() as int)
}

/// Listing one more module leaves no more entries of `all` unlisted, and
/// fewer where the module is an entry of `all` that was not listed.
pub proof fn lemma_missing_push(all: Seq<Seq<char>>, acc: Seq<Seq<char>>, n: Seq<char>)
    ensures
        missing_count(all, acc.push(n)) <= missing_count(all, acc),
        all.contains(n) && !acc.contains(n) ==> missing_count(all, acc.push(n)) < missing_count(
            all,
            acc,
        ),
    decreases all.len(),
{
    if all.len() > 0 {
        lemma_missing_push(all.drop_last(), acc, n);
        lemma_push_contains(acc, n);
        if all.contains(n) && !acc.contains(n) {
            let i = choose|i: int| 0 <= i < all.len() && all[i] == n;
            if i < all.len() - 1 {
                assert(all.drop_last()[i] == n);
            }
        }
    }
}

/// What one visit does to the list: the list stays a prefix, gains exactly
/// the needed modules of `part`, keeps its entries distinct, and each gain
/// lowers the number of entries of `all` that are not listed.
pub proof fn lemma_expand(
    g: Seq<(Seq<char>, Seq<char>)>,
    all: Seq<Seq<char>>,
    part: Seq<Seq<char>>,
    acc: Seq<Seq<char>>,
    m: Seq<char>,
)
    requires
        forall|x: Seq<char>| part.contains(x) ==> all.contains(x),
    ensures
        acc.len() <= expand_of(g, part, acc, m).len(),
        expand_of(g, part, acc, m).take(acc.len() as int) == acc,
        missing_count(all, expand_of(g, part, acc, m)) + (expand_of(g, part, acc, m).len()
            - acc.len()) <= missing_count(all, acc),
        forall|x: Seq<char>| #[trigger]
            expand_of(g, part, acc, m).contains(x) <==> (acc.contains(x) || (part.contains(x)
                && g.contains((m, x)))),
        acc.no_duplicates() ==> expand_of(g, part, acc, m).no_duplicates(),
    decreases part.len(),
{
    if part.len() == 0 {
        assert(acc.take(acc.len() as int) =~= acc);
    } else {
        let init = part.drop_last();
        let n = part.last();
        assert forall|x: Seq<char>| init.contains(x) implies all.contains(x) by {
            let i = choose|i: int| 0 <= i < init.len() && init[i] == x;
            assert(part[i] == x);
        }
        lemma_expand(g, all, init, acc, m);
        let prev = expand_of(g, init, acc, m);
        let e = expand_of(g, part, acc, m);
        assert(part[part.len() - 1] == n);
        assert(part.contains(n));
        assert forall|x: Seq<char>| part.contains(x) <==> (init.contains(x) || x == n) by {
            if init.contains(x) {
                let i = choose|i: int| 0 <= i < init.len() && init[i] == x;
                assert(part[i] == x);
            }
            if part.contains(x) {
                let i = choose|i: int| 0 <= i < part.len() && part[i] == x;
                if i < part.len() - 1 {
                    assert(init[i] == x);
                }
            }
        }
        lemma_push_contains(prev, n);
        if g.contains((m, n)) && !prev.contains(n) {
            lemma_missing_push(all, prev, n);
            assert(e.take(acc.len() as int) =~= prev.take(acc.len() as int));
            if acc.no_duplicates() {
                assert(e.no_duplicates());
            }
        }
    }
}

/// The walk leaves a list that is closed, keeps the list it began with as a
/// prefix, and keeps the entries distinct.
pub proof fn lemma_bfs(
    g: Seq<(Seq<char>, Seq<char>)>,
    all: Seq<Seq<char>>,
    acc: Seq<Seq<char>>,
    head: int,
)
    requires
        0 <= head <= acc.len(),
        processed(g, all, acc, head),
        acc.no_duplicates(),
    ensures
        closed(g, all, bfs_of(g, all, acc, head)),
        bfs_of(g, all, acc, head).no_duplicates(),
        acc.len() <= bfs_of(g, all, acc, head).len(),
        bfs_of(g, all, acc, head).take(acc.len() as int) == acc,
    decreases missing_count(all, acc), acc.len() - head,
{
    if head >= acc.len() {
        assert(acc.take(acc.len() as int) =~= acc);
    } else {
        let m = acc[head];
        let e = expand_of(g, all, acc, m);
        lemma_expand(g, all, all, acc, m);
        assert(processed(g, all, e, head + 1)) by {
            assert forall|i: int, n: Seq<char>|
                0 <= i < head + 1 && i < e.len() && all.contains(n) && #[trigger] g.contains(
                    (e[i], n),
                ) implies e.contains(n) by {
                assert(e[i] == e.take(acc.len() as int)[i]);
                if i < head {
                    assert(acc.contains(n));
                }
            }
        }
        lemma_bfs(g, all, e, head + 1);
        let r = bfs_of(g, all, e, head + 1);
        assert(r.take(acc.len() as int) =~= r.take(e.len() as int).take(acc.len() as int));
    }
}

/// A visit adds nothing where every needed module is listed already.
pub proof fn lemma_expand_fixed(
    g: Seq<(Seq<char>, Seq<char>)>,
    part: Seq<Seq<char>>,
    acc: Seq<Seq<char>>,
    m: Seq<char>,
)
    requires
        forall|n: Seq<char>| part.contains(n) && g.contains((m, n)) ==> acc.contains(n),
    ensures
        expand_of(g, part, acc, m) == acc,
    decreases part.len(),
{
    if part.len() > 0 {
        let init = part.drop_last();
        assert forall|n: Seq<char>| init.contains(n) && g.contains((m, n)) implies acc.contains(
            n,
        ) by {
            let i = choose|i: int| 0 <= i < init.len() && init[i] == n;
            assert(part[i] == n);
        }
        lemma_expand_fixed(g, init, acc, m);
        assert(part[part.len() - 1] == part.last());
    }
}

/// The walk leaves a closed list as it is.
pub proof fn lemma_bfs_fixed(
    g: Seq<(Seq<char>, Seq<char>)>,
    all: Seq<Seq<char>>,
    acc: Seq<Seq<char>>,
    head: int,
)
    requires
        0 <= head <= acc.len(),
        closed(g, all, acc),
    ensures
        bfs_of(g, all, acc, head) == acc,
    decreases acc.len() - head,
{
    if head < acc.len() {
        lemma_expand_fixed(g, all, acc, acc[head]);
        lemma_bfs_fixed(g, all, acc, head + 1);
    }
}

/// The closure holds every selected module.
pub proof fn lemma_closure_superset(
    selected: Seq<Seq<char>>,
    all: Seq<Seq<char>>,
    g: Seq<(Seq<char>, Seq<char>)>,
    m: Seq<char>,
)
    requires
        selected.contains(m),
    ensures
        closure_of(selected, all, g).contains(m),
{
    let start = dedup_of(selected);
    lemma_dedup(selected);
    lemma_bfs(g, all, start, 0);
    let r = closure_of(selected, all, g);
    assert(dedup_of(selected).contains(m));
    let i = choose|i: int| 0 <= i < start.len() && start[i] == m;
    assert(r.take(start.len() as int)[i] == m);
    assert(r[i] == m);
}

/// The closure lists no module twice, and it lists every module of `all`
/// that one of its modules needs.
pub proof fn lemma_closure_closed(
    selected: Seq<Seq<char>>,
    all: Seq<Seq<char>>,
    g: Seq<(Seq<char>, Seq<char>)>,
)
    ensures
        closure_of(selected, all, g).no_duplicates(),
        closed(g, all, closure_of(selected, all, g)),
{
    lemma_dedup(selected);
    lemma_bfs(g, all, dedup_of(selected), 0);
}

/// Whether the set `x` holds every module of `all` that one of its members
/// needs.
pub open spec fn is_closed_set(
    g: Seq<(Seq<char>, Seq<char>)>,
    all: Seq<Seq<char>>,
    x: Set<Seq<char>>,
) -> bool {
    forall|a: Seq<char>, b: Seq<char>|
        x.contains(a) && all.contains(b) && #[trigger] g.contains((a, b)) ==> x.contains(b)
}

proof fn lemma_bfs_within(
    g: Seq<(Seq<char>, Seq<char>)>,
    all: Seq<Seq<char>>,
    acc: Seq<Seq<char>>,
    head: int,
    x: Set<Seq<char>>,
)
    requires
        0 <= head <= acc.len(),
        is_closed_set(g, all, x),
        forall|m: Seq<char>| acc.contains(m) ==> x.contains(m),
    ensures
        forall|m: Seq<char>| bfs_of(g, all, acc, head).contains(m) ==> x.contains(m),
    decreases missing_count(all, acc), acc.len() - head,
{
    if head < acc.len() {
        let m = acc[head];
        let e = expand_of(g, all, acc, m);
        lemma_expand(g, all, all, acc, m);
        assert(acc.contains(m));
        assert forall|n: Seq<char>| e.contains(n) implies x.contains(n) by {
            if !acc.contains(n) {
                assert(g.contains((m, n)));
            }
        }
        lemma_bfs_within(g, all, e, head + 1, x);
    }
}

/// The closure is the least list of its kind: every set that holds the
/// selected modules, and every module of `all` that one of its members
/// needs, holds the whole closure. So the closure holds no module that the
/// selection does not need.
pub proof fn lemma_closure_least(
    selected: Seq<Seq<char>>,
    all: Seq<Seq<char>>,
    g: Seq<(Seq<char>, Seq<char>)>,
    x: Set<Seq<char>>,
)
    requires
        is_closed_set(g, all, x),
        forall|m: Seq<char>| selected.contains(m) ==> x.contains(m),
    ensures
        forall|m: Seq<char>| closure_of(selected, all, g).contains(m) ==> x.contains(m),
{
    lemma_dedup(selected);
    lemma_bfs_within(g, all, dedup_of(selected), 0, x);
}

/// Taking the closure of a closure changes nothing.
pub proof fn lemma_closure_idempotent(
    selected: Seq<Seq<char>>,
    all: Seq<Seq<char>>,
    g: Seq<(Seq<char>, Seq<char>)>,
)
    ensures
        closure_of(closure_of(selected, all, g), all, g) == closure_of(selected, all, g),
{
    let c = closure_of(selected, all, g);
    lemma_closure_closed(selected, all, g);
    lemma_dedup(c);
    lemma_bfs_fixed(g, all, c, 0);
}

// ---------------------------------------------------------------------------
// Resolving
// ---------------------------------------------------------------------------
/// A selection together with the modules that it needs.
#[derive(Debug, Clone, PartialEq, Eq)]
pub struct DependencyClosure {
    /// The selected modules, each once and in the order given, followed by
    /// the modules that were added.
    pub modules: Vec<String>,
    /// The modules that were added because a listed module needs them, in
    /// the order in which they were found.
    pub auto_added: Vec<String>,
    /// The selected modules that are not among the existing ones. They stay
    /// listed in `modules`, so that the caller can report them.
    pub missing: Vec<String>,
}

/// The names of `names` that are not among `all`, in order.
pub open spec fn not_among_of(names: Seq<Seq<char>>, all: Seq<Seq<char>>) -> Seq<Seq<char>>
    decreases names.len(),
{
    if names.len() == 0 {
        Seq::empty()
    } else {
        let rest = not_among_of(names.drop_last(), all);
        if all.contains(names.last()) {
            rest
        } else {
            rest.push(names.last())
        }
    }
}

/// The closure of `selected` under the dependencies that `edges` make.
pub open spec fn resolve_of(
    edges: Seq<(Seq<char>, Seq<char>)>,
    modules_dir: Seq<char>,
    selected: Seq<Seq<char>>,
    all: Seq<Seq<char>>,
) -> Seq<Seq<char>> {
    closure_of(selected, all, module_graph_of(edges, modules_dir, all))
}

fn not_among(names: &Vec<Vec<char>>, all: &Vec<Vec<char>>) -> (out: Vec<Vec<char>>)
    ensures
        views(out@) == not_among_of(views(names@), views(all@)),
{
    let mut out: Vec<Vec<char>> = Vec::new();
    let mut i: usize = 0;
    while i < names.len()
        invariant
            i <= names.len(),
            views(out@) == not_among_of(views(names@).take(i as int), views(all@)),
        decreases names.len() - i,
    {
        let ghost before = views(out@);
        assert(views(names@).take(i + 1).drop_last() =~= views(names@).take(i as int));
        if !list_contains(all, &names[i]) {
            out.push(copy_chars(&names[i]));
            assert(views(out@) =~= before.push(names@[i as int]@));
        }
        i += 1;
    }
    assert(views(names@).take(names.len() as int) =~= views(names@));
    out
}

fn sublist(v: &Vec<Vec<char>>, a: usize, b: usize) -> (out: Vec<Vec<char>>)
    requires
        a <= b <= v.len(),
    ensures
        views(out@) == views(v@).subrange(a as int, b as int),
{
    let mut out: Vec<Vec<char>> = Vec::new();
    let mut i: usize = a;
    while i < b
        invariant
            a <= i <= b <= v.len(),
            out.len() == i - a,
            forall|k: int| 0 <= k < i - a ==> out@[k]@ == v@[a + k]@,
        decreases b - i,
    {
        out.push(copy_chars(&v[i]));
        i += 1;
    }
    assert(views(out@) =~= views(v@).subrange(a as int, b as int));
    out
}

/// Appends to `acc` the modules of `all` that `m` needs and that are not yet
/// listed, in the order of `all`.
fn expand(g: &ModuleGraph, all: &Vec<Vec<char>>, acc: &mut Vec<Vec<char>>, m: &Vec<char>)
    ensures
        views(final(acc)@) == expand_of(g@, views(all@), views(old(acc)@), m@),
{
    let mut k: usize = 0;
    while k < all.len()
        invariant
            k <= all.len(),
            views(acc@) == expand_of(g@, views(all@).take(k as int), views(old(acc)@), m@),
        decreases all.len() - k,
    {
        let ghost before = views(acc@);
        assert(views(all@).take(k + 1).drop_last() =~= views(all@).take(k as int));
        if g.depends(m, &all[k]) && !list_contains(acc, &all[k]) {
            acc.push(copy_chars(&all[k]));
            assert(views(acc@) =~= before.push(all@[k as int]@));
        }
        k += 1;
    }
    assert(views(all@).take(all.len() as int) =~= views(all@));
}

/// The closure of `selected`.
pub fn close_selection(g: &ModuleGraph, all: &Vec<Vec<char>>, selected: &Vec<Vec<char>>) -> (acc:
    Vec<Vec<char>>)
    ensures
        views(acc@) == closure_of(views(selected@), views(all@), g@),
{
    let mut acc = dedup(selected);
    let mut head: usize = 0;
    while head < acc.len()
        invariant
            head <= acc.len(),
            bfs_of(g@, views(all@), views(acc@), head as int) == closure_of(
                views(selected@),
                views(all@),
                g@,
            ),
        decreases missing_count(views(all@), views(acc@)), acc.len() - head,
    {
        let m = copy_chars(&acc[head]);
        proof {
            lemma_expand(g@, views(all@), views(all@), views(acc@), m@);
        }
        expand(g, all, &mut acc, &m);
        head += 1;
    }
    acc
}

/// Expands a selection by the modules that it needs.
///
/// The imports between files are folded into dependencies between modules;
/// imports inside one module, and imports of files outside every module,
/// count for nothing. The selection is then closed under those dependencies
/// by a breadth-first walk. The result lists every selected module, also
/// those that do not exist, which are reported in `missing`.
pub fn resolve_module_dependencies(
    edges: &[DependencyEdge],
    modules_dir: &str,
    selected_modules: &[String],
    all_module_names: &[String],
) -> (r: DependencyClosure)
    ensures
        string_views(r.modules@) == resolve_of(
            edge_views(edges@),
            modules_dir@,
            string_views(selected_modules@),
            string_views(all_module_names@),
        ),
        string_views(r.auto_added@) == string_views(r.modules@).subrange(
            dedup_of(string_views(selected_modules@)).len() as int,
            r.modules@.len() as int,
        ),
        dedup_of(string_views(selected_modules@)).len() <= r.modules@.len(),
        string_views(r.missing@) == not_among_of(
            dedup_of(string_views(selected_modules@)),
            string_views(all_module_names@),
        ),
        forall|m: Seq<char>|
            string_views(selected_modules@).contains(m) ==> string_views(r.modules@).contains(m),
{
    let all = to_char_lists(all_module_names);
    let selected = to_char_lists(selected_modules);
    let g = ModuleGraph::from_edges(edges, modules_dir, all_module_names);
    let start = dedup(&selected);
    let acc = close_selection(&g, &all, &selected);
    proof {
        lemma_dedup(views(selected@));
        lemma_bfs(g@, views(all@), views(start@), 0);
        assert forall|m: Seq<char>| views(selected@).contains(m) implies views(acc@).contains(
            m,
        ) by {
            lemma_closure_superset(views(selected@), views(all@), g@, m);
        }
    }
    let added = sublist(&acc, start.len(), acc.len());
    let missing = not_among(&start, &all);
    let modules = to_strings(&acc);
    DependencyClosure { modules, auto_added: to_strings(&added), missing: to_strings(&missing) }
}

/// A closure holds every selected module, whatever the imports are.
pub proof fn lemma_resolve_superset(
    edges: Seq<(Seq<char>, Seq<char>)>,
    modules_dir: Seq<char>,
    selected: Seq<Seq<char>>,
    all: Seq<Seq<char>>,
    m: Seq<char>,
)
    requires
        selected.contains(m),
    ensures
        resolve_of(edges, modules_dir, selected, all).contains(m),
{
    lemma_closure_superset(selected, all, module_graph_of(edges, modules_dir, all), m);
}

/// Resolving a closure again gives the same closure.
pub proof fn lemma_resolve_idempotent(
    edges: Seq<(Seq<char>, Seq<char>)>,
    modules_dir: Seq<char>,
    selected: Seq<Seq<char>>,
    all: Seq<Seq<char>>,
)
    ensures
        resolve_of(edges, modules_dir, resolve_of(edges, modules_dir, selected, all), all)
            == resolve_of(edges, modules_dir, selected, all),
{
    lemma_closure_idempotent(selected, all, module_graph_of(edges, modules_dir, all));
}

/// The files of a project and the imports between them, as a graph: every
/// file is a node, and every import an edge, in the order given.
pub fn dependency_graph(file_paths: Vec<String>, edges: &[DependencyEdge]) -> (g:
    crate::models::DependencyGraph)
    ensures
        g.nodes == file_paths,
        g.edges@.len() == edges@.len(),
        forall|i: int|
            0 <= i < edges@.len() ==> (#[trigger] g.edges@[i]).source@ == edges@[i].source@
                && g.edges@[i].target@ == edges@[i].target@,
{
    let mut out: Vec<crate::models::DepEdge> = Vec::new();
    let mut i: usize = 0;
    while i < edges.len()
        invariant
            i <= edges.len(),
            out@.len() == i,
            forall|k: int|
                0 <= k < i ==> (#[trigger] out@[k]).source@ == edges@[k].source@ && out@[k].target@
                    == edges@[k].target@,
        decreases edges.len() - i,
    {
        out.push(
            crate::models::DepEdge {
                source: edges[i].source.clone(),
                target: edges[i].target.clone(),
            },
        );
        i += 1;
    }
    crate::models::DependencyGraph { nodes: file_paths, edges: out }
}

} // verus!
