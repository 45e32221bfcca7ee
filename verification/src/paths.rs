//! Unix paths as text: their components, their order, file names and
//! extensions, and which files hold prompts.
use vstd::prelude::*;

use crate::text::{
    ascii_lower_seq, chars_of, char_views, eq_ignore_ascii_case, runs, same_chars_ignore_ascii_case, split_runs,
    RunKind,
};

verus! {

broadcast use vstd::multiset::group_multiset_axioms;

// ---------------------------------------------------------------------------
// Components
// ---------------------------------------------------------------------------

/// Rank of the root directory component.
pub const ROOT_DIR: u8 = 1;

/// Rank of the leading `.` component.
pub const CUR_DIR: u8 = 2;

/// Rank of a `..` component.
pub const PARENT_DIR: u8 = 3;

/// Rank of a named component.
pub const NORMAL: u8 = 4;

/// One component of a path: its kind (`ROOT_DIR`, `CUR_DIR`, `PARENT_DIR`
/// or `NORMAL`, in the order in which components compare) and, for a named
/// component, its name.
pub struct PathComponent {
    pub rank: u8,
    pub name: Vec<char>,
}

impl View for PathComponent {
    type V = (int, Seq<char>);

    open spec fn view(&self) -> (int, Seq<char>) {
        (self.rank as int, self.name@)
    }
}

pub open spec fn component_views(v: Seq<PathComponent>) -> Seq<(int, Seq<char>)> {
    v.map_values(|c: PathComponent| c@)
}

/// The component a piece between slashes stands for: none for `.`, the
/// parent directory for `..`, else a named component.
pub open spec fn piece_components(p: Seq<char>) -> Seq<(int, Seq<char>)> {
    if p == seq!['.'] {
        seq![]
    } else if p == seq!['.', '.'] {
        seq![(PARENT_DIR as int, Seq::<char>::empty())]
    } else {
        seq![(NORMAL as int, p)]
    }
}

pub open spec fn pieces_components(ps: Seq<Seq<char>>) -> Seq<(int, Seq<char>)>
    decreases ps.len(),
{
    if ps.len() == 0 {
        seq![]
    } else {
        pieces_components(ps.drop_last()) + piece_components(ps.last())
    }
}

/// The components of path `s`: the root directory when it starts with a
/// slash, the current directory when it starts with a `.` piece, then one
/// component for each non-empty piece between slashes other than `.`.
pub open spec fn path_components(s: Seq<char>) -> Seq<(int, Seq<char>)> {
    let ps = runs(s, RunKind::PathPart);
    if s.len() > 0 && s[0] == '/' {
        seq![(ROOT_DIR as int, Seq::<char>::empty())] + pieces_components(ps)
    } else if ps.len() > 0 && ps[0] == seq!['.'] {
        seq![(CUR_DIR as int, Seq::<char>::empty())] + pieces_components(ps.drop_first())
    } else {
        pieces_components(ps)
    }
}

fn is_single_dot(p: &Vec<char>) -> (r: bool)
    ensures
        r == (p@ == seq!['.']),
{
    let r = p.len() == 1 && p[0] == '.';
    if r {
        assert(p@ =~= seq!['.']);
    }
    r
}

fn is_double_dot(p: &Vec<char>) -> (r: bool)
    ensures
        r == (p@ == seq!['.', '.']),
{
    let r = p.len() == 2 && p[0] == '.' && p[1] == '.';
    if r {
        assert(p@ =~= seq!['.', '.']);
    }
    r
}

fn copy_chars(p: &Vec<char>) -> (r: Vec<char>)
    ensures
        r@ == p@,
{
    let mut r: Vec<char> = Vec::new();
    let mut i: usize = 0;
    while i < p.len()
        invariant
            i <= p.len(),
            r@ == p@.take(i as int),
        decreases p.len() - i,
    {
        r.push(p[i]);
        assert(p@.take(i + 1) =~= p@.take(i as int).push(p@[i as int]));
        i = i + 1;
    }
    assert(p@.take(p.len() as int) =~= p@);
    r
}

/// The components of the path `s`.
pub fn components_of(s: &Vec<char>) -> (r: Vec<PathComponent>)
    ensures
        component_views(r@) == path_components(s@),
{
    let ps = split_runs(s, RunKind::PathPart);
    let ghost pv = char_views(ps@);
    let mut out: Vec<PathComponent> = Vec::new();
    let mut start: usize = 0;
    if s.len() > 0 && s[0] == '/' {
        out.push(PathComponent { rank: ROOT_DIR, name: Vec::new() });
    } else if ps.len() > 0 && is_single_dot(&ps[0]) {
        out.push(PathComponent { rank: CUR_DIR, name: Vec::new() });
        start = 1;
    }
    let ghost prefix = component_views(out@);
    assert(pv.subrange(start as int, start as int) =~= Seq::<Seq<char>>::empty());
    let mut i: usize = start;
    while i < ps.len()
        invariant
            start <= i <= ps.len(),
            pv == char_views(ps@),
            component_views(out@) == prefix + pieces_components(pv.subrange(start as int, i as int)),
        decreases ps.len() - i,
    {
        let ghost before = component_views(out@);
        assert(pv.subrange(start as int, i + 1).drop_last() =~= pv.subrange(start as int, i as int));
        if is_single_dot(&ps[i]) {
            assert(piece_components(pv[i as int]) =~= Seq::<(int, Seq<char>)>::empty());
        } else if is_double_dot(&ps[i]) {
            out.push(PathComponent { rank: PARENT_DIR, name: Vec::new() });
        } else {
            out.push(PathComponent { rank: NORMAL, name: copy_chars(&ps[i]) });
        }
        assert(component_views(out@) =~= before + piece_components(pv[i as int]));
        i = i + 1;
    }
    assert(pv.subrange(start as int, ps.len() as int) =~= if start == 0 {
        pv
    } else {
        pv.drop_first()
    });
    out
}

// ---------------------------------------------------------------------------
// Order
// ---------------------------------------------------------------------------

/// Lexicographic comparison of `a` and `b` by the element comparison `order`
/// (-1, 0 or 1); a proper prefix comes first.
pub open spec fn lex_compare<T>(a: Seq<T>, b: Seq<T>, order: spec_fn(T, T) -> int) -> int
    decreases a.len(),
{
    if a.len() == 0 {
        if b.len() == 0 {
            0
        } else {
            -1
        }
    } else if b.len() == 0 {
        1
    } else if order(a[0], b[0]) != 0 {
        order(a[0], b[0])
    } else {
        lex_compare(a.drop_first(), b.drop_first(), order)
    }
}

/// `order` is antisymmetric: swapping the arguments negates the result.
pub open spec fn antisymmetric_order<T>(order: spec_fn(T, T) -> int) -> bool {
    forall|x: T, y: T| #[trigger] order(x, y) == -order(y, x)
}

/// `order` is a total order: antisymmetric, transitive, and level only on
/// equal elements.
pub open spec fn total_order<T>(order: spec_fn(T, T) -> int) -> bool {
    &&& antisymmetric_order(order)
    &&& forall|x: T, y: T| #[trigger] order(x, y) == 0 ==> x == y
    &&& forall|x: T, y: T, z: T|
        #[trigger] order(x, y) <= 0 && #[trigger] order(y, z) <= 0 ==> order(x, z) <= 0
}

pub proof fn lemma_lex_antisymmetric<T>(a: Seq<T>, b: Seq<T>, order: spec_fn(T, T) -> int)
    requires
        antisymmetric_order(order),
    ensures
        lex_compare(a, b, order) == -lex_compare(b, a, order),
    decreases a.len(),
{
    if a.len() > 0 && b.len() > 0 {
        assert(order(a[0], b[0]) == -order(b[0], a[0]));
        lemma_lex_antisymmetric(a.drop_first(), b.drop_first(), order);
    }
}

pub proof fn lemma_lex_level_equal<T>(a: Seq<T>, b: Seq<T>, order: spec_fn(T, T) -> int)
    requires
        total_order(order),
        lex_compare(a, b, order) == 0,
    ensures
        a == b,
    decreases a.len(),
{
    if a.len() > 0 && b.len() > 0 {
        assert(order(a[0], b[0]) == 0);
        lemma_lex_level_equal(a.drop_first(), b.drop_first(), order);
        assert(a =~= seq![a[0]] + a.drop_first());
        assert(b =~= seq![b[0]] + b.drop_first());
    }
}

pub proof fn lemma_lex_transitive<T>(a: Seq<T>, b: Seq<T>, c: Seq<T>, order: spec_fn(T, T) -> int)
    requires
        total_order(order),
        lex_compare(a, b, order) <= 0,
        lex_compare(b, c, order) <= 0,
    ensures
        lex_compare(a, c, order) <= 0,
    decreases a.len(),
{
    if a.len() > 0 && b.len() > 0 && c.len() > 0 {
        let o1 = order(a[0], b[0]);
        let o2 = order(b[0], c[0]);
        assert(o1 <= 0 && o2 <= 0 ==> order(a[0], c[0]) <= 0);
        if o1 == 0 && o2 == 0 {
            assert(a[0] == b[0] && b[0] == c[0]);
            assert(order(a[0], c[0]) == -order(c[0], a[0]));
            lemma_lex_transitive(a.drop_first(), b.drop_first(), c.drop_first(), order);
        } else if order(a[0], c[0]) == 0 {
            assert(a[0] == c[0]);
            assert(order(a[0], b[0]) == -order(b[0], c[0]));
        }
    }
}

/// Characters compare by their code points (which is the byte order of
/// their UTF-8 encodings).
pub open spec fn char_compare(x: char, y: char) -> int {
    if (x as int) < (y as int) {
        -1
    } else if (x as int) > (y as int) {
        1
    } else {
        0
    }
}

pub open spec fn char_order() -> spec_fn(char, char) -> int {
    |x: char, y: char| char_compare(x, y)
}

/// Components compare by kind, then named components by name.
pub open spec fn component_compare(x: (int, Seq<char>), y: (int, Seq<char>)) -> int {
    if x.0 < y.0 {
        -1
    } else if x.0 > y.0 {
        1
    } else {
        lex_compare(x.1, y.1, char_order())
    }
}

pub open spec fn component_order() -> spec_fn((int, Seq<char>), (int, Seq<char>)) -> int {
    |x: (int, Seq<char>), y: (int, Seq<char>)| component_compare(x, y)
}

/// The order of paths: lexicographic on their components.
pub open spec fn path_compare(a: Seq<char>, b: Seq<char>) -> int {
    lex_compare(path_components(a), path_components(b), component_order())
}

/// `a` comes before `b`, or level with it, in path order.
pub open spec fn path_le(a: Seq<char>, b: Seq<char>) -> bool {
    path_compare(a, b) <= 0
}

pub proof fn lemma_char_order_total()
    ensures
        total_order(char_order()),
{
    assert forall|x: char, y: char| #[trigger] char_order()(x, y) == 0 implies x == y by {
        assert((x as int) == (y as int));
    }
}

pub proof fn lemma_component_order_total()
    ensures
        total_order(component_order()),
{
    lemma_char_order_total();
    assert forall|x: (int, Seq<char>), y: (int, Seq<char>)| #[trigger] component_order()(x, y)
        == -component_order()(y, x) by {
        lemma_lex_antisymmetric(x.1, y.1, char_order());
    }
    assert forall|x: (int, Seq<char>), y: (int, Seq<char>)| #[trigger] component_order()(x, y)
        == 0 implies x == y by {
        lemma_lex_level_equal(x.1, y.1, char_order());
    }
    assert forall|x: (int, Seq<char>), y: (int, Seq<char>), z: (int, Seq<char>)|
        #[trigger] component_order()(x, y) <= 0 && #[trigger] component_order()(y, z) <= 0 implies component_order()(x, z) <= 0 by {
        if x.0 == y.0 && y.0 == z.0 {
            lemma_lex_transitive(x.1, y.1, z.1, char_order());
        }
    }
}

/// Path order is antisymmetric.
pub proof fn lemma_path_compare_antisymmetric(a: Seq<char>, b: Seq<char>)
    ensures
        path_compare(a, b) == -path_compare(b, a),
{
    lemma_component_order_total();
    lemma_lex_antisymmetric(path_components(a), path_components(b), component_order());
}

/// Any two paths are ordered one way or the other.
pub proof fn law_path_order_total(a: Seq<char>, b: Seq<char>)
    ensures
        path_le(a, b) || path_le(b, a),
{
    lemma_path_compare_antisymmetric(a, b);
}

/// Path order is transitive.
pub proof fn lemma_path_le_transitive(a: Seq<char>, b: Seq<char>, c: Seq<char>)
    requires
        path_le(a, b),
        path_le(b, c),
    ensures
        path_le(a, c),
{
    lemma_component_order_total();
    lemma_lex_transitive(path_components(a), path_components(b), path_components(c), component_order());
}

fn compare_names(a: &Vec<char>, b: &Vec<char>) -> (r: i8)
    ensures
        r as int == lex_compare(a@, b@, char_order()),
{
    let mut i: usize = 0;
    assert(a@.skip(0) =~= a@ && b@.skip(0) =~= b@);
    while i < a.len() && i < b.len()
        invariant
            i <= a.len(),
            i <= b.len(),
            lex_compare(a@, b@, char_order()) == lex_compare(a@.skip(i as int), b@.skip(i as int), char_order()),
        decreases a.len() - i,
    {
        let x = a[i];
        let y = b[i];
        if x < y {
            return -1;
        }
        if x > y {
            return 1;
        }
        assert(a@.skip(i as int).drop_first() =~= a@.skip(i + 1));
        assert(b@.skip(i as int).drop_first() =~= b@.skip(i + 1));
        i = i + 1;
    }
    if i < a.len() {
        1
    } else if i < b.len() {
        -1
    } else {
        0
    }
}

fn compare_component(x: &PathComponent, y: &PathComponent) -> (r: i8)
    ensures
        r as int == component_compare(x@, y@),
{
    if x.rank < y.rank {
        -1
    } else if x.rank > y.rank {
        1
    } else {
        compare_names(&x.name, &y.name)
    }
}

/// Compares two component lists in path order.
pub fn compare_components(a: &Vec<PathComponent>, b: &Vec<PathComponent>) -> (r: i8)
    ensures
        r as int == lex_compare(component_views(a@), component_views(b@), component_order()),
{
    let ghost av = component_views(a@);
    let ghost bv = component_views(b@);
    let mut i: usize = 0;
    assert(av.skip(0) =~= av && bv.skip(0) =~= bv);
    while i < a.len() && i < b.len()
        invariant
            i <= a.len(),
            i <= b.len(),
            av == component_views(a@),
            bv == component_views(b@),
            lex_compare(av, bv, component_order()) == lex_compare(av.skip(i as int), bv.skip(i as int), component_order()),
        decreases a.len() - i,
    {
        let c = compare_component(&a[i], &b[i]);
        assert(av.skip(i as int)[0] == a@[i as int]@);
        assert(bv.skip(i as int)[0] == b@[i as int]@);
        if c != 0 {
            return c;
        }
        assert(av.skip(i as int).drop_first() =~= av.skip(i + 1));
        assert(bv.skip(i as int).drop_first() =~= bv.skip(i + 1));
        i = i + 1;
    }
    if i < a.len() {
        1
    } else if i < b.len() {
        -1
    } else {
        0
    }
}

/// Compares two paths in path order.
pub fn compare_paths(a: &str, b: &str) -> (r: i8)
    ensures
        r as int == path_compare(a@, b@),
{
    let ka = components_of(&chars_of(a));
    let kb = components_of(&chars_of(b));
    compare_components(&ka, &kb)
}

proof fn lemma_multiset_insert<T>(s: Seq<T>, j: int, x: T)
    requires
        0 <= j <= s.len(),
    ensures
        s.insert(j, x).to_multiset() =~= s.to_multiset().insert(x),
{
    broadcast use vstd::seq_lib::group_to_multiset_ensures;

    let t = s.insert(j, x);
    assert(t.remove(j) =~= s);
    assert(t.to_multiset().count(x) > 0) by {
        assert(t[j] == x);
        assert(t.contains(x));
    }
}

/// Whether a path has the components of `p` (is level with it in path
/// order).
pub open spec fn same_place(p: Seq<char>) -> spec_fn(String) -> bool {
    |x: String| path_components(x@) == path_components(p)
}

/// Inserting `item` into sorted `before` at `j`, before the first path that
/// comes strictly after it, puts it after every path level with it.
proof fn lemma_insert_after_level(before: Seq<String>, j: int, item: String, q: Seq<char>)
    requires
        0 <= j <= before.len(),
        j < before.len() ==> !path_le(before[j]@, item@),
        forall|a: int, b: int| 0 <= a < b < before.len() ==> path_le(#[trigger] before[a]@, #[trigger] before[b]@),
    ensures
        before.insert(j, item).filter(same_place(q)) == (if same_place(q)(item) {
            before.filter(same_place(q)).push(item)
        } else {
            before.filter(same_place(q))
        }),
{
    let f = same_place(q);
    let head = before.take(j);
    let tail = before.skip(j);
    assert(before =~= head + tail);
    assert(before.insert(j, item) =~= head.push(item) + tail);
    Seq::filter_distributes_over_add(head, tail, f);
    Seq::filter_distributes_over_add(head.push(item), tail, f);
    head.lemma_filter_push(item, f);
    if f(item) {
        assert forall|k: int| 0 <= k < tail.len() implies !f(#[trigger] tail[k]) by {
            if f(tail[k]) {
                assert(tail[k] == before[j + k]);
                lemma_component_order_total();
                lemma_lex_antisymmetric(path_components(item@), path_components(item@), component_order());
                if k > 0 {
                    assert(path_le(before[j]@, before[j + k]@));
                }
            }
        }
        tail.lemma_all_neg_filter_empty(f);
        assert(tail.filter(f) =~= Seq::<String>::empty());
        assert(head.filter(f) + tail.filter(f) =~= head.filter(f));
        assert(head.filter(f).push(item) + tail.filter(f) =~= head.filter(f).push(item));
    }
}

/// `paths` in path order: a rearrangement of `paths` in which each path
/// comes before or level with every later one. Paths level with each other
/// keep their order.
pub fn sort_paths(paths: &Vec<String>) -> (r: Vec<String>)
    ensures
        r@.to_multiset() == paths@.to_multiset(),
        forall|i: int, j: int| 0 <= i < j < r@.len() ==> path_le(#[trigger] r@[i]@, #[trigger] r@[j]@),
        forall|q: Seq<char>| #[trigger] r@.filter(same_place(q)) == paths@.filter(same_place(q)),
{
    broadcast use vstd::seq_lib::group_to_multiset_ensures;

    let mut sorted: Vec<String> = Vec::new();
    let mut keys: Vec<Vec<PathComponent>> = Vec::new();
    let mut n: usize = 0;
    assert(paths@.take(0) =~= Seq::<String>::empty());
    while n < paths.len()
        invariant
            n <= paths.len(),
            keys@.len() == sorted@.len(),
            forall|k: int| 0 <= k < keys@.len() ==> component_views(#[trigger] keys@[k]@) == path_components(sorted@[k]@),
            sorted@.to_multiset() == paths@.take(n as int).to_multiset(),
            forall|i: int, j: int| 0 <= i < j < sorted@.len() ==> path_le(#[trigger] sorted@[i]@, #[trigger] sorted@[j]@),
            forall|q: Seq<char>| #[trigger] sorted@.filter(same_place(q)) == paths@.take(n as int).filter(same_place(q)),
        decreases paths.len() - n,
    {
        let p = paths[n].clone();
        let key = components_of(&chars_of(p.as_str()));
        let mut j: usize = 0;
        while j < keys.len() && compare_components(&keys[j], &key) <= 0
            invariant
                j <= keys.len(),
                keys@.len() == sorted@.len(),
                forall|k: int| 0 <= k < keys@.len() ==> component_views(#[trigger] keys@[k]@) == path_components(sorted@[k]@),
                component_views(key@) == path_components(p@),
                forall|k: int| 0 <= k < j ==> path_le(#[trigger] sorted@[k]@, p@),
            decreases keys.len() - j,
        {
            j = j + 1;
        }
        let ghost before = sorted@;
        let ghost item = p;
        proof {
            assert forall|q: Seq<char>| #[trigger] before.insert(j as int, item).filter(same_place(q))
                == paths@.take(n + 1).filter(same_place(q)) by {
                lemma_insert_after_level(before, j as int, item, q);
                assert(paths@.take(n + 1) =~= paths@.take(n as int).push(item));
                paths@.take(n as int).lemma_filter_push(item, same_place(q));
            }
        }
        sorted.insert(j, p);
        keys.insert(j, key);
        proof {
            lemma_multiset_insert(before, j as int, item);
            assert(item == paths@[n as int]);
            assert(paths@.take(n + 1) =~= paths@.take(n as int).push(paths@[n as int]));
            vstd::seq_lib::to_multiset_build(paths@.take(n as int), item);
            assert(sorted@ == before.insert(j as int, item));
            assert forall|a: int, b: int| 0 <= a < b < sorted@.len() implies path_le(
                #[trigger] sorted@[a]@,
                #[trigger] sorted@[b]@,
            ) by {
                if b == j {
                    assert(sorted@[a] == before[a]);
                } else if a == j {
                    assert(sorted@[b] == before[b - 1]);
                    assert(!path_le(before[j as int]@, item@));
                    lemma_path_compare_antisymmetric(before[j as int]@, item@);
                    if b - 1 > j {
                        assert(path_le(before[j as int]@, before[b - 1]@));
                        lemma_path_le_transitive(item@, before[j as int]@, before[b - 1]@);
                    }
                } else if b < j {
                    assert(sorted@[a] == before[a] && sorted@[b] == before[b]);
                } else if a < j {
                    assert(sorted@[a] == before[a] && sorted@[b] == before[b - 1]);
                } else {
                    assert(sorted@[a] == before[a - 1] && sorted@[b] == before[b - 1]);
                }
            }
        }
        n = n + 1;
    }
    assert(paths@.take(paths.len() as int) =~= paths@);
    sorted
}

// ---------------------------------------------------------------------------
// File names and extensions
// ---------------------------------------------------------------------------

/// The last component of path `s` when it is a named one.
pub open spec fn file_name(s: Seq<char>) -> Option<Seq<char>> {
    let cs = path_components(s);
    if cs.len() > 0 && cs.last().0 == NORMAL as int {
        Some(cs.last().1)
    } else {
        None
    }
}

/// Index of the last `c` in `s`, or -1.
pub open spec fn last_index_of(s: Seq<char>, c: char) -> int
    decreases s.len(),
{
    if s.len() == 0 {
        -1
    } else if s.last() == c {
        s.len() - 1
    } else {
        last_index_of(s.drop_last(), c)
    }
}

/// The extension of a file name: what follows its last `.`, when that `.`
/// is not its first character.
pub open spec fn extension(name: Seq<char>) -> Option<Seq<char>> {
    let k = last_index_of(name, '.');
    if k > 0 {
        Some(name.subrange(k + 1, name.len() as int))
    } else {
        None
    }
}

/// Whether path `s` names a prompt file: its file name has the extension
/// `prompt`, in any ASCII case.
pub open spec fn is_prompt_path(s: Seq<char>) -> bool {
    match file_name(s) {
        Some(n) => match extension(n) {
            Some(e) => eq_ignore_ascii_case(e, "prompt"@),
            None => false,
        },
        None => false,
    }
}

/// Whether a path names a prompt file depends on its file name alone: two
/// paths with the same file name, in whatever directories and however
/// written (`./d/a.prompt`, `d/a.prompt`), are alike.
pub proof fn law_prompt_path_depends_on_file_name(a: Seq<char>, b: Seq<char>)
    requires
        file_name(a) == file_name(b),
    ensures
        is_prompt_path(a) == is_prompt_path(b),
{
}

/// The last `c` of `s` is at `k` when `s[k]` is `c` and no `c` follows.
proof fn lemma_last_index_at(s: Seq<char>, c: char, k: int)
    requires
        0 <= k < s.len(),
        s[k] == c,
        forall|i: int| k < i < s.len() ==> s[i] != c,
    ensures
        last_index_of(s, c) == k,
    decreases s.len(),
{
    if s.len() - 1 != k {
        lemma_last_index_at(s.drop_last(), c, k);
    }
}

/// A path names a prompt file exactly when its file name has at least
/// eight characters and ends in `.prompt`, the `prompt` in any ASCII case
/// (so that something stands before the dot).
pub proof fn law_prompt_path_by_suffix(s: Seq<char>)
    ensures
        is_prompt_path(s) <==> (file_name(s) matches Some(n) && n.len() >= 8 && n[n.len() - 7] == '.'
            && eq_ignore_ascii_case(n.subrange(n.len() - 6, n.len() as int), "prompt"@)),
{
    reveal_strlit("prompt");
    if let Some(n) = file_name(s) {
        let len = n.len() as int;
        let k = last_index_of(n, '.');
        lemma_last_index_bounds(n, '.');
        if is_prompt_path(s) {
            let e = n.subrange(k + 1, len);
            assert(ascii_lower_seq(e).len() == ascii_lower_seq("prompt"@).len());
            assert(e.len() == 6);
        }
        if len >= 8 && n[len - 7] == '.' && eq_ignore_ascii_case(n.subrange(len - 6, len), "prompt"@) {
            let tail = n.subrange(len - 6, len);
            assert forall|i: int| len - 7 < i < len implies n[i] != '.' by {
                assert(tail[i - (len - 6)] == n[i]);
                assert(ascii_lower_seq(tail)[i - (len - 6)] == ascii_lower_seq("prompt"@)[i - (len - 6)]);
            }
            lemma_last_index_at(n, '.', len - 7);
            assert(n.subrange(k + 1, len) =~= tail);
        }
    }
}

proof fn lemma_last_index_bounds(s: Seq<char>, c: char)
    ensures
        -1 <= last_index_of(s, c) < s.len(),
        last_index_of(s, c) >= 0 ==> s[last_index_of(s, c)] == c,
    decreases s.len(),
{
    if s.len() > 0 && s.last() != c {
        lemma_last_index_bounds(s.drop_last(), c);
    }
}

fn last_dot(s: &Vec<char>) -> (r: Option<usize>)
    ensures
        r is None <==> last_index_of(s@, '.') == -1,
        r matches Some(k) ==> k as int == last_index_of(s@, '.'),
{
    let mut j: usize = s.len();
    assert(s@.take(s.len() as int) =~= s@);
    while j > 0
        invariant
            j <= s.len(),
            last_index_of(s@, '.') == last_index_of(s@.take(j as int), '.'),
        decreases j,
    {
        if s[j - 1] == '.' {
            return Some(j - 1);
        }
        assert(s@.take(j as int).drop_last() =~= s@.take(j - 1));
        j = j - 1;
    }
    None
}

/// The file name of a path given as bytes, as `Path::file_name` finds it on
/// Unix: trailing slashes and `.` components are passed over; the last
/// remaining component is the file name unless it is `..`; there is none
/// when nothing remains (an empty path, `/` or `.`).
pub open spec fn byte_file_name(p: Seq<u8>) -> Option<Seq<u8>>
    decreases p.len(),
{
    if p.len() == 0 {
        None
    } else if p.last() == 47u8 {
        byte_file_name(p.drop_last())
    } else {
        let k = last_byte_index(p, 47u8);
        let piece = p.subrange(k + 1, p.len() as int);
        if piece == seq![46u8] {
            if k < 0 {
                None
            } else {
                proof {
                    lemma_last_byte_index_bounds(p, 47u8);
                }
                byte_file_name(p.subrange(0, k))
            }
        } else if piece == seq![46u8, 46u8] {
            None
        } else {
            Some(piece)
        }
    }
}

/// Index of the last `b` in `s`, or -1.
pub open spec fn last_byte_index(s: Seq<u8>, b: u8) -> int
    decreases s.len(),
{
    if s.len() == 0 {
        -1
    } else if s.last() == b {
        s.len() - 1
    } else {
        last_byte_index(s.drop_last(), b)
    }
}

pub proof fn lemma_last_byte_index_bounds(s: Seq<u8>, b: u8)
    ensures
        -1 <= last_byte_index(s, b) < s.len(),
        last_byte_index(s, b) >= 0 ==> s[last_byte_index(s, b)] == b,
    decreases s.len(),
{
    if s.len() > 0 && s.last() != b {
        lemma_last_byte_index_bounds(s.drop_last(), b);
    }
}

proof fn lemma_last_byte_index_after_slash(q: Seq<u8>, p: Seq<u8>)
    ensures
        last_byte_index(q + seq![47u8] + p, 47u8) == (if last_byte_index(p, 47u8) >= 0 {
            q.len() + 1 + last_byte_index(p, 47u8)
        } else {
            q.len() as int
        }),
    decreases p.len(),
{
    let whole = q + seq![47u8] + p;
    if p.len() == 0 {
        assert(whole.last() == 47u8);
    } else {
        assert(whole.drop_last() =~= q + seq![47u8] + p.drop_last());
        assert(whole.last() == p.last());
        lemma_last_byte_index_after_slash(q, p.drop_last());
    }
}

/// The directories before a path's last component do not change its file
/// name: when `p` has a file name, so does any path that leads to `p`
/// through a slash (`q/p`), and it is the same.
pub proof fn law_byte_file_name_ignores_directories(q: Seq<u8>, p: Seq<u8>)
    requires
        byte_file_name(p) is Some,
    ensures
        byte_file_name(q + seq![47u8] + p) == byte_file_name(p),
    decreases p.len(),
{
    let whole = q + seq![47u8] + p;
    if p.last() == 47u8 {
        assert(whole.last() == 47u8);
        assert(whole.drop_last() =~= q + seq![47u8] + p.drop_last());
        law_byte_file_name_ignores_directories(q, p.drop_last());
    } else {
        assert(whole.last() == p.last());
        lemma_last_byte_index_after_slash(q, p);
        lemma_last_byte_index_bounds(p, 47u8);
        let k = last_byte_index(p, 47u8);
        let kw = last_byte_index(whole, 47u8);
        assert(whole.subrange(kw + 1, whole.len() as int) =~= p.subrange(k + 1, p.len() as int));
        if p.subrange(k + 1, p.len() as int) == seq![46u8] {
            assert(k >= 0);
            assert(whole.subrange(0, kw) =~= q + seq![47u8] + p.subrange(0, k));
            law_byte_file_name_ignores_directories(q, p.subrange(0, k));
        }
    }
}

proof fn lemma_no_slash_index(p: Seq<u8>)
    requires
        forall|i: int| 0 <= i < p.len() ==> p[i] != 47u8,
    ensures
        last_byte_index(p, 47u8) == -1,
    decreases p.len(),
{
    if p.len() > 0 {
        lemma_no_slash_index(p.drop_last());
    }
}

/// A plain name (not empty, without `/`, and neither `.` nor `..`) is its
/// own file name.
pub proof fn law_plain_name_is_its_file_name(name: Seq<u8>)
    requires
        name.len() > 0,
        forall|i: int| 0 <= i < name.len() ==> name[i] != 47u8,
        name != seq![46u8],
        name != seq![46u8, 46u8],
    ensures
        byte_file_name(name) == Some(name),
{
    lemma_no_slash_index(name);
    assert(name.subrange(0, name.len() as int) =~= name);
}

fn last_slash_before(p: &Vec<u8>, end: usize) -> (k: Option<usize>)
    requires
        end <= p@.len(),
    ensures
        k is None ==> last_byte_index(p@.take(end as int), 47u8) == -1,
        k matches Some(i) ==> i as int == last_byte_index(p@.take(end as int), 47u8),
{
    let mut j: usize = end;
    while j > 0
        invariant
            j <= end <= p@.len(),
            last_byte_index(p@.take(end as int), 47u8) == last_byte_index(p@.take(j as int), 47u8),
        decreases j,
    {
        if p[j - 1] == 47u8 {
            return Some(j - 1);
        }
        assert(p@.take(j as int).drop_last() =~= p@.take(j - 1));
        j = j - 1;
    }
    None
}

/// The file name of the path `p`, given as bytes (see `byte_file_name`).
pub fn file_name_bytes(p: &Vec<u8>) -> (r: Option<Vec<u8>>)
    ensures
        r is None <==> byte_file_name(p@) is None,
        r matches Some(n) ==> byte_file_name(p@) == Some(n@),
{
    let mut end: usize = p.len();
    assert(p@.take(end as int) =~= p@);
    loop
        invariant
            end <= p@.len(),
            byte_file_name(p@) == byte_file_name(p@.take(end as int)),
        decreases end,
    {
        let ghost q = p@.take(end as int);
        if end == 0 {
            return None;
        }
        if p[end - 1] == 47u8 {
            assert(q.drop_last() =~= p@.take(end - 1));
            end = end - 1;
            continue;
        }
        let slash = last_slash_before(p, end);
        proof {
            lemma_last_byte_index_bounds(q, 47u8);
        }
        let start: usize = match slash {
            Some(k) => k + 1,
            None => 0,
        };
        let ghost k: int = start - 1;
        let mut piece: Vec<u8> = Vec::new();
        let mut i: usize = start;
        while i < end
            invariant
                start <= i <= end <= p@.len(),
                piece@ == p@.subrange(start as int, i as int),
            decreases end - i,
        {
            piece.push(p[i]);
            assert(p@.subrange(start as int, i + 1) =~= p@.subrange(start as int, i as int).push(p@[i as int]));
            i = i + 1;
        }
        assert(piece@ =~= q.subrange(k + 1, q.len() as int));
        if piece.len() == 1 && piece[0] == 46u8 {
            assert(piece@ =~= seq![46u8]);
            match slash {
                None => {
                    return None;
                },
                Some(kk) => {
                    assert(q.subrange(0, k) =~= p@.take(kk as int));
                    end = kk;
                },
            }
        } else if piece.len() == 2 && piece[0] == 46u8 && piece[1] == 46u8 {
            assert(piece@ =~= seq![46u8, 46u8]);
            return None;
        } else {
            assert(piece@ != seq![46u8]);
            assert(piece@ != seq![46u8, 46u8]);
            return Some(piece);
        }
    }
}

/// The file name of `path`: its last component, when that is a named one.
pub fn file_name_of(path: &str) -> (r: Option<String>)
    ensures
        r is None <==> file_name(path@) is None,
        r matches Some(n) ==> file_name(path@) == Some(n@),
{
    let comps = components_of(&chars_of(path));
    let n = comps.len();
    if n == 0 || comps[n - 1].rank != NORMAL {
        return None;
    }
    assert(component_views(comps@).last() == comps@[n - 1]@);
    Some(crate::text::string_from_chars(&comps[n - 1].name))
}

/// Whether `path` names a prompt file (extension `prompt`, any ASCII case).
pub fn is_prompt_file(path: &str) -> (r: bool)
    ensures
        r == is_prompt_path(path@),
{
    let comps = components_of(&chars_of(path));
    let n = comps.len();
    if n == 0 || comps[n - 1].rank != NORMAL {
        return false;
    }
    assert(component_views(comps@).last() == comps@[n - 1]@);
    let name = &comps[n - 1].name;
    proof {
        lemma_last_index_bounds(name@, '.');
    }
    match last_dot(name) {
        Some(k) => {
            if k == 0 {
                return false;
            }
            let mut ext: Vec<char> = Vec::new();
            let mut i: usize = k + 1;
            while i < name.len()
                invariant
                    k + 1 <= i <= name.len(),
                    ext@ == name@.subrange(k + 1, i as int),
                decreases name.len() - i,
            {
                ext.push(name[i]);
                assert(name@.subrange(k + 1, i + 1) =~= name@.subrange(k + 1, i as int).push(name@[i as int]));
                i = i + 1;
            }
            let want = chars_of("prompt");
            same_chars_ignore_ascii_case(&ext, &want)
        },
        None => false,
    }
}

} // verus!
