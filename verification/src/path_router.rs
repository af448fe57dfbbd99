//! Path-based routing of event handlers.
//!
//! Event keys are hierarchical paths whose components are separated by
//! colons: `core:player:connected` is the path `core` / `player` /
//! `connected`. The router keeps, for every registered path, its handlers in
//! registration order. When a lookup fails, the router can list registered
//! paths that resemble the wanted one: paths sharing a component with it,
//! those on the wanted path itself first (shortest first), then the others by
//! how many leading components they share with it (most first), and among
//! equals in the order of a depth-first walk of the path tree.

use crate::events::chars_of;
use vstd::prelude::*;

verus! {

/// The colon-separated components of an event path (at least one, possibly
/// empty).
pub open spec fn spec_components(s: Seq<char>) -> Seq<Seq<char>>
    decreases s.len(),
{
    if s.len() == 0 {
        seq![Seq::<char>::empty()]
    } else {
        let rest = spec_components(s.drop_last());
        if s.last() == ':' {
            rest.push(Seq::<char>::empty())
        } else {
            rest.update(rest.len() - 1, rest.last().push(s.last()))
        }
    }
}

/// Joins components with colons; undoes [`spec_components`].
pub open spec fn spec_join(parts: Seq<Seq<char>>) -> Seq<char>
    decreases parts.len(),
{
    if parts.len() <= 1 {
        if parts.len() == 1 {
            parts[0]
        } else {
            Seq::empty()
        }
    } else {
        spec_join(parts.drop_last()) + seq![':'] + parts.last()
    }
}

proof fn lemma_components_nonempty(s: Seq<char>)
    ensures
        spec_components(s).len() >= 1,
    decreases s.len(),
{
    if s.len() > 0 {
        lemma_components_nonempty(s.drop_last());
    }
}

/// Splitting a path into its components and joining them with colons again
/// gives the path back.
pub proof fn law_components_round_trip(s: Seq<char>)
    ensures
        spec_join(spec_components(s)) == s,
    decreases s.len(),
{
    if s.len() > 0 {
        let init = s.drop_last();
        law_components_round_trip(init);
        lemma_components_nonempty(init);
        let rest = spec_components(init);
        if s.last() == ':' {
            assert(rest.push(Seq::<char>::empty()).drop_last() =~= rest);
            assert(spec_join(rest) + seq![':'] + Seq::<char>::empty() =~= s);
        } else {
            let up = rest.update(rest.len() - 1, rest.last().push(s.last()));
            if rest.len() == 1 {
                assert(up[0] =~= rest[0].push(s.last()));
                assert(spec_join(rest) == rest[0]);
                assert(up[0] =~= s);
            } else {
                assert(up.drop_last() =~= rest.drop_last());
                assert(spec_join(up) == spec_join(rest.drop_last()) + seq![':'] + rest.last().push(s.last()));
                assert(spec_join(rest) == spec_join(rest.drop_last()) + seq![':'] + rest.last());
                assert(spec_join(up) =~= spec_join(rest).push(s.last()));
                assert(s =~= init.push(s.last()));
            }
        }
    } else {
        assert(spec_components(s) =~= seq![Seq::<char>::empty()]);
    }
}

/// Different paths have different components.
proof fn lemma_components_injective(a: Seq<char>, b: Seq<char>)
    requires
        spec_components(a) == spec_components(b),
    ensures
        a == b,
{
    law_components_round_trip(a);
    law_components_round_trip(b);
}

/// Number of leading components that two component lists share.
pub open spec fn spec_common_prefix(a: Seq<Seq<char>>, b: Seq<Seq<char>>) -> nat
    decreases a.len(),
{
    if a.len() == 0 || b.len() == 0 || a[0] != b[0] {
        0
    } else {
        1 + spec_common_prefix(a.drop_first(), b.drop_first())
    }
}

/// Whether two component lists have a component in common.
pub open spec fn spec_shares_component(a: Seq<Seq<char>>, b: Seq<Seq<char>>) -> bool {
    exists|i: int, j: int| 0 <= i < a.len() && 0 <= j < b.len() && #[trigger] a[i] == #[trigger] b[j]
}

/// Strict lexicographic order of character sequences by code point, a
/// proper prefix first.
pub open spec fn spec_chars_less(a: Seq<char>, b: Seq<char>) -> bool
    decreases a.len(),
{
    if a.len() == 0 {
        b.len() > 0
    } else if b.len() == 0 {
        false
    } else if a[0] != b[0] {
        a[0] < b[0]
    } else {
        spec_chars_less(a.drop_first(), b.drop_first())
    }
}

/// Strict lexicographic order of component lists, a proper prefix first.
pub open spec fn spec_components_less(a: Seq<Seq<char>>, b: Seq<Seq<char>>) -> bool
    decreases a.len(),
{
    if a.len() == 0 {
        b.len() > 0
    } else if b.len() == 0 {
        false
    } else if a[0] != b[0] {
        spec_chars_less(a[0], b[0])
    } else {
        spec_components_less(a.drop_first(), b.drop_first())
    }
}

/// Whether a path with components `p` is reported before one with
/// components `q` when paths like `target` are wanted.
pub open spec fn spec_reported_before(p: Seq<Seq<char>>, q: Seq<Seq<char>>, target: Seq<Seq<char>>) -> bool {
    let lp = spec_common_prefix(p, target);
    let lq = spec_common_prefix(q, target);
    let on_p = lp == p.len();
    let on_q = lq == q.len();
    if on_p && on_q {
        p.len() < q.len()
    } else if on_p {
        true
    } else if on_q {
        false
    } else if lp != lq {
        lp > lq
    } else {
        spec_components_less(p, q)
    }
}

proof fn lemma_chars_less_order(a: Seq<char>, b: Seq<char>, c: Seq<char>)
    ensures
        !spec_chars_less(a, a),
        spec_chars_less(a, b) && spec_chars_less(b, c) ==> spec_chars_less(a, c),
        a != b ==> spec_chars_less(a, b) || spec_chars_less(b, a),
        spec_chars_less(a, b) ==> !spec_chars_less(b, a),
    decreases a.len(),
{
    if a.len() > 0 {
        lemma_chars_less_order(a.drop_first(), b.drop_first(), c.drop_first());
        if b.len() > 0 && a[0] == b[0] && a.drop_first() == b.drop_first() {
            assert(a =~= seq![a[0]] + a.drop_first());
            assert(b =~= seq![b[0]] + b.drop_first());
        }
        if a.len() > 0 && b.len() > 0 && c.len() > 0 && a[0] == b[0] && b[0] == c[0] {
            lemma_chars_less_order(a.drop_first(), b.drop_first(), c.drop_first());
        }
    } else {
        if b.len() == 0 {
            assert(a =~= b);
        }
    }
}

proof fn lemma_components_less_order(a: Seq<Seq<char>>, b: Seq<Seq<char>>, c: Seq<Seq<char>>)
    ensures
        !spec_components_less(a, a),
        spec_components_less(a, b) && spec_components_less(b, c) ==> spec_components_less(a, c),
        a != b ==> spec_components_less(a, b) || spec_components_less(b, a),
        spec_components_less(a, b) ==> !spec_components_less(b, a),
    decreases a.len(),
{
    if a.len() > 0 {
        lemma_components_less_order(a.drop_first(), b.drop_first(), c.drop_first());
        if b.len() > 0 {
            lemma_chars_less_order(a[0], b[0], a[0]);
            if c.len() > 0 {
                lemma_chars_less_order(a[0], b[0], c[0]);
                lemma_chars_less_order(b[0], c[0], a[0]);
                lemma_chars_less_order(a[0], c[0], b[0]);
            }
            if a[0] == b[0] && a.drop_first() == b.drop_first() {
                assert(a =~= seq![a[0]] + a.drop_first());
                assert(b =~= seq![b[0]] + b.drop_first());
            }
        }
        lemma_chars_less_order(a[0], a[0], a[0]);
    } else {
        if b.len() == 0 {
            assert(a =~= b);
        }
    }
}

/// The order in which similar paths are reported is a strict total order:
/// no path comes before itself, the order is transitive, and of two
/// different paths one comes before the other.
pub proof fn law_reported_order_is_total(p: Seq<Seq<char>>, q: Seq<Seq<char>>, r: Seq<Seq<char>>, t: Seq<Seq<char>>)
    ensures
        !spec_reported_before(p, p, t),
        spec_reported_before(p, q, t) && spec_reported_before(q, r, t) ==> spec_reported_before(p, r, t),
        p != q ==> spec_reported_before(p, q, t) || spec_reported_before(q, p, t),
{
    lemma_components_less_order(p, q, r);
    lemma_components_less_order(p, p, p);
    if spec_common_prefix(p, t) == p.len() && spec_common_prefix(q, t) == q.len() && p.len() == q.len() {
        lemma_chain_unique_by_length(p, q, t);
    }
}

/// Two different prefixes of one component list differ in length.
proof fn lemma_chain_unique_by_length(p: Seq<Seq<char>>, q: Seq<Seq<char>>, t: Seq<Seq<char>>)
    requires
        spec_common_prefix(p, t) == p.len(),
        spec_common_prefix(q, t) == q.len(),
        p.len() == q.len(),
    ensures
        p == q,
    decreases p.len(),
{
    if p.len() > 0 {
        lemma_chain_unique_by_length(p.drop_first(), q.drop_first(), t.drop_first());
        assert(p =~= seq![p[0]] + p.drop_first());
        assert(q =~= seq![q[0]] + q.drop_first());
    } else {
        assert(p =~= q);
    }
}


/// The character sequences of a list of character vectors.
pub open spec fn spec_part_views(parts: Seq<Vec<char>>) -> Seq<Seq<char>> {
    parts.map_values(|v: Vec<char>| v@)
}

/// Splits an event path into its colon-separated components.
fn split_components(path: &str) -> (parts: Vec<Vec<char>>)
    ensures
        spec_part_views(parts@) == spec_components(path@),
{
    let chars = chars_of(path);
    let mut parts: Vec<Vec<char>> = Vec::new();
    parts.push(Vec::new());
    let mut i: usize = 0;
    proof {
        assert(chars@.take(0) =~= Seq::<char>::empty());
        assert(spec_part_views(parts@) =~= seq![Seq::<char>::empty()]);
    }
    while i < chars.len()
        invariant
            i <= chars@.len(),
            chars@ == path@,
            spec_part_views(parts@) == spec_components(chars@.take(i as int)),
        decreases chars@.len() - i,
    {
        let c = chars[i];
        let ghost before = spec_part_views(parts@);
        proof {
            lemma_components_nonempty(chars@.take(i as int));
            assert(chars@.take(i + 1).drop_last() =~= chars@.take(i as int));
            assert(chars@.take(i + 1).last() == c);
        }
        if c == ':' {
            parts.push(Vec::new());
            proof {
                assert(spec_part_views(parts@) =~= before.push(Seq::<char>::empty()));
            }
        } else {
            let last_index = parts.len() - 1;
            let mut last = parts.remove(last_index);
            last.push(c);
            parts.push(last);
            proof {
                assert(spec_part_views(parts@) =~= before.update(before.len() - 1, before.last().push(c)));
            }
        }
        i = i + 1;
    }
    proof {
        assert(chars@.take(chars@.len() as int) =~= chars@);
    }
    parts
}

/// Whether two character vectors hold the same characters.
fn chars_equal(a: &Vec<char>, b: &Vec<char>) -> (r: bool)
    ensures
        r == (a@ == b@),
{
    if a.len() != b.len() {
        return false;
    }
    let mut i: usize = 0;
    while i < a.len()
        invariant
            i <= a@.len(),
            a@.len() == b@.len(),
            a@.take(i as int) == b@.take(i as int),
        decreases a@.len() - i,
    {
        if a[i] != b[i] {
            return false;
        }
        proof {
            assert(a@.take(i + 1) =~= a@.take(i as int).push(a@[i as int]));
            assert(b@.take(i + 1) =~= b@.take(i as int).push(b@[i as int]));
        }
        i = i + 1;
    }
    proof {
        assert(a@.take(a@.len() as int) =~= a@);
        assert(b@.take(b@.len() as int) =~= b@);
    }
    true
}

proof fn lemma_chars_less_skip(a: Seq<char>, b: Seq<char>, i: int)
    requires
        0 <= i < a.len(),
        i < b.len(),
        a[i] == b[i],
    ensures
        spec_chars_less(a.skip(i), b.skip(i)) == spec_chars_less(a.skip(i + 1), b.skip(i + 1)),
{
    assert(a.skip(i).drop_first() =~= a.skip(i + 1));
    assert(b.skip(i).drop_first() =~= b.skip(i + 1));
}

/// Compares two character vectors in the order [`spec_chars_less`].
fn chars_less(a: &Vec<char>, b: &Vec<char>) -> (r: bool)
    ensures
        r == spec_chars_less(a@, b@),
{
    let mut i: usize = 0;
    proof {
        assert(a@.skip(0) =~= a@);
        assert(b@.skip(0) =~= b@);
    }
    while i < a.len() && i < b.len()
        invariant
            i <= a@.len(),
            i <= b@.len(),
            spec_chars_less(a@, b@) == spec_chars_less(a@.skip(i as int), b@.skip(i as int)),
        decreases a@.len() - i,
    {
        if a[i] != b[i] {
            return a[i] < b[i];
        }
        proof {
            lemma_chars_less_skip(a@, b@, i as int);
        }
        i = i + 1;
    }
    a.len() - i == 0 && b.len() - i > 0
}

proof fn lemma_components_less_skip(a: Seq<Seq<char>>, b: Seq<Seq<char>>, i: int)
    requires
        0 <= i < a.len(),
        i < b.len(),
        a[i] == b[i],
    ensures
        spec_components_less(a.skip(i), b.skip(i)) == spec_components_less(a.skip(i + 1), b.skip(i + 1)),
{
    assert(a.skip(i).drop_first() =~= a.skip(i + 1));
    assert(b.skip(i).drop_first() =~= b.skip(i + 1));
}

/// Compares two component lists in the order [`spec_components_less`].
fn components_less(a: &Vec<Vec<char>>, b: &Vec<Vec<char>>) -> (r: bool)
    ensures
        r == spec_components_less(spec_part_views(a@), spec_part_views(b@)),
{
    let ghost av = spec_part_views(a@);
    let ghost bv = spec_part_views(b@);
    let mut i: usize = 0;
    proof {
        assert(av.skip(0) =~= av);
        assert(bv.skip(0) =~= bv);
    }
    while i < a.len() && i < b.len()
        invariant
            i <= a@.len(),
            i <= b@.len(),
            av == spec_part_views(a@),
            bv == spec_part_views(b@),
            spec_components_less(av, bv) == spec_components_less(av.skip(i as int), bv.skip(i as int)),
        decreases a@.len() - i,
    {
        if !chars_equal(&a[i], &b[i]) {
            proof {
                assert(av.skip(i as int)[0] == a@[i as int]@);
                assert(bv.skip(i as int)[0] == b@[i as int]@);
            }
            return chars_less(&a[i], &b[i]);
        }
        proof {
            lemma_components_less_skip(av, bv, i as int);
        }
        i = i + 1;
    }
    a.len() - i == 0 && b.len() - i > 0
}

proof fn lemma_common_prefix_skip(a: Seq<Seq<char>>, b: Seq<Seq<char>>, i: int)
    requires
        0 <= i < a.len(),
        i < b.len(),
        a[i] == b[i],
    ensures
        spec_common_prefix(a.skip(i), b.skip(i)) == 1 + spec_common_prefix(a.skip(i + 1), b.skip(i + 1)),
{
    assert(a.skip(i).drop_first() =~= a.skip(i + 1));
    assert(b.skip(i).drop_first() =~= b.skip(i + 1));
}

/// Counts the leading components that two component lists share.
fn common_prefix(a: &Vec<Vec<char>>, b: &Vec<Vec<char>>) -> (n: usize)
    ensures
        n == spec_common_prefix(spec_part_views(a@), spec_part_views(b@)),
{
    let ghost av = spec_part_views(a@);
    let ghost bv = spec_part_views(b@);
    let mut i: usize = 0;
    proof {
        assert(av.skip(0) =~= av);
        assert(bv.skip(0) =~= bv);
    }
    while i < a.len() && i < b.len()
        invariant
            i <= a@.len(),
            i <= b@.len(),
            av == spec_part_views(a@),
            bv == spec_part_views(b@),
            spec_common_prefix(av, bv) == i + spec_common_prefix(av.skip(i as int), bv.skip(i as int)),
        decreases a@.len() - i,
    {
        if !chars_equal(&a[i], &b[i]) {
            proof {
                assert(av.skip(i as int)[0] == a@[i as int]@);
                assert(bv.skip(i as int)[0] == b@[i as int]@);
            }
            return i;
        }
        proof {
            lemma_common_prefix_skip(av, bv, i as int);
        }
        i = i + 1;
    }
    proof {
        if i == a@.len() {
            assert(av.skip(i as int).len() == 0);
        } else {
            assert(bv.skip(i as int).len() == 0);
        }
    }
    i
}

/// Whether two component lists have a component in common.
fn shares_component(a: &Vec<Vec<char>>, b: &Vec<Vec<char>>) -> (r: bool)
    ensures
        r == spec_shares_component(spec_part_views(a@), spec_part_views(b@)),
{
    let ghost av = spec_part_views(a@);
    let ghost bv = spec_part_views(b@);
    let mut i: usize = 0;
    while i < a.len()
        invariant
            i <= a@.len(),
            av == spec_part_views(a@),
            bv == spec_part_views(b@),
            forall|x: int, y: int| 0 <= x < i && 0 <= y < bv.len() ==> av[x] != bv[y],
        decreases a@.len() - i,
    {
        let mut j: usize = 0;
        while j < b.len()
            invariant
                i < a@.len(),
                j <= b@.len(),
                av == spec_part_views(a@),
                bv == spec_part_views(b@),
                forall|x: int, y: int| 0 <= x < i && 0 <= y < bv.len() ==> av[x] != bv[y],
                forall|y: int| 0 <= y < j ==> av[i as int] != bv[y],
            decreases b@.len() - j,
        {
            if chars_equal(&a[i], &b[j]) {
                proof {
                    assert(av[i as int] == bv[j as int]);
                }
                return true;
            }
            j = j + 1;
        }
        i = i + 1;
    }
    false
}


/// Total number of handlers in a list of handler lists.
pub open spec fn spec_handler_count<H>(handlers: Seq<Seq<H>>) -> nat
    decreases handlers.len(),
{
    if handlers.len() == 0 {
        0
    } else {
        spec_handler_count(handlers.drop_last()) + handlers.last().len()
    }
}

proof fn lemma_handler_count_update<H>(hs: Seq<Seq<H>>, i: int, h: H)
    requires
        0 <= i < hs.len(),
    ensures
        spec_handler_count(hs.update(i, hs[i].push(h))) == spec_handler_count(hs) + 1,
    decreases hs.len(),
{
    let up = hs.update(i, hs[i].push(h));
    if i == hs.len() - 1 {
        assert(up.drop_last() =~= hs.drop_last());
    } else {
        lemma_handler_count_update(hs.drop_last(), i, h);
        assert(up.drop_last() =~= hs.drop_last().update(i, hs.drop_last()[i].push(h)));
    }
}

pub(crate) proof fn lemma_index_of_unique<A>(s: Seq<A>, j: int)
    requires
        s.no_duplicates(),
        0 <= j < s.len(),
    ensures
        s.index_of(s[j]) == j,
        s.contains(s[j]),
{
    assert(0 <= j < s.len() && s[j] == s[j]);
    let k = s.index_of(s[j]);
    assert(0 <= k < s.len() && s[k] == s[j]);
}

/// Router of event handlers by hierarchical path; see the module
/// documentation.
pub struct PathRouter<H> {
    paths: Vec<String>,
    handlers: Vec<Vec<H>>,
    handler_total: usize,
}

impl<H> PathRouter<H> {
    /// The registered paths, in order of first registration.
    pub closed spec fn paths(&self) -> Seq<Seq<char>> {
        self.paths@.map_values(|s: String| s@)
    }

    /// The handlers of each registered path, in the order of [`Self::paths`].
    pub closed spec fn handler_lists(&self) -> Seq<Seq<H>> {
        self.handlers@.map_values(|v: Vec<H>| v@)
    }

    /// Number of handlers registered across all paths.
    pub open spec fn handler_total(&self) -> nat {
        spec_handler_count(self.handler_lists())
    }

    /// The handlers registered at a path, if any were.
    pub open spec fn lookup(&self, path: Seq<char>) -> Option<Seq<H>> {
        if self.paths().contains(path) {
            Some(self.handler_lists()[self.paths().index_of(path)])
        } else {
            None
        }
    }

    /// Every registered path is listed once, with at least one handler, and
    /// the handler count is the total of the lists.
    pub closed spec fn wf(&self) -> bool {
        &&& self.paths@.len() == self.handlers@.len()
        &&& self.paths().no_duplicates()
        &&& forall|i: int| 0 <= i < self.handlers@.len() ==> #[trigger] self.handlers@[i]@.len() > 0
        &&& self.handler_total == spec_handler_count(self.handler_lists())
    }

    /// Creates a router with no path registered.
    pub fn new() -> (r: Self)
        ensures
            r.wf(),
            r.paths() == Seq::<Seq<char>>::empty(),
            forall|p: Seq<char>| #[trigger] r.lookup(p) is None,
            r.handler_total() == 0,
    {
        let r = PathRouter { paths: Vec::new(), handlers: Vec::new(), handler_total: 0 };
        assert(r.paths() =~= Seq::<Seq<char>>::empty());
        assert(r.handler_lists() =~= Seq::<Seq<H>>::empty());
        r
    }

    /// Index of a registered path, if it is registered.
    fn position_of(&self, path: &String) -> (r: Option<usize>)
        requires
            self.paths().no_duplicates(),
        ensures
            r is None <==> !self.paths().contains(path@),
            r matches Some(i) ==> i < self.paths().len() && i == self.paths().index_of(path@),
    {
        let mut i: usize = 0;
        while i < self.paths.len()
            invariant
                i <= self.paths@.len(),
                self.paths().no_duplicates(),
                forall|j: int| 0 <= j < i ==> self.paths()[j] != path@,
            decreases self.paths@.len() - i,
        {
            if self.paths[i] == *path {
                proof {
                    assert(self.paths()[i as int] == path@);
                    assert(self.paths().contains(path@));
                    assert(self.paths()[self.paths().index_of(path@)] == path@);
                }
                return Some(i);
            }
            i = i + 1;
        }
        proof {
            if self.paths().contains(path@) {
                let j = choose|j: int| 0 <= j < self.paths().len() && self.paths()[j] == path@;
                assert(false);
            }
        }
        None
    }

    /// Registers a handler at a path, after the handlers already there.
    pub fn register_handler(&mut self, path: &str, handler: H)
        requires
            old(self).wf(),
            old(self).handler_total() < usize::MAX,
        ensures
            final(self).wf(),
            final(self).handler_total() == old(self).handler_total() + 1,
            final(self).paths() == if old(self).paths().contains(path@) {
                old(self).paths()
            } else {
                old(self).paths().push(path@)
            },
            final(self).lookup(path@) == Some(
                match old(self).lookup(path@) {
                    Some(hs) => hs.push(handler),
                    None => seq![handler],
                },
            ),
            forall|q: Seq<char>| q != path@ ==> #[trigger] final(self).lookup(q) == old(self).lookup(q),
    {
        let key = path.to_owned();
        self.handler_total = self.handler_total + 1;
        match self.position_of(&key) {
            Some(i) => {
                let ghost old_lists = self.handler_lists();
                let mut list = self.handlers.remove(i);
                list.push(handler);
                self.handlers.insert(i, list);
                proof {
                    let ps = self.paths();
                    assert(self.handler_lists() =~= old_lists.update(i as int, old_lists[i as int].push(handler)));
                    lemma_handler_count_update(old_lists, i as int, handler);
                    assert forall|q: Seq<char>| q != path@ implies #[trigger] self.lookup(q) == old(self).lookup(q) by {
                        if ps.contains(q) {
                            let j = ps.index_of(q);
                            assert(0 <= j < ps.len() && ps[j] == q);
                            assert(j != i);
                            assert(self.handler_lists()[j] == old_lists[j]);
                        }
                    }
                }
            },
            None => {
                let ghost old_paths = self.paths();
                let ghost old_lists = self.handler_lists();
                let mut list: Vec<H> = Vec::new();
                list.push(handler);
                self.paths.push(key);
                self.handlers.push(list);
                proof {
                    let ps = self.paths();
                    assert(ps =~= old_paths.push(path@));
                    assert(self.handler_lists() =~= old_lists.push(seq![handler]));
                    assert(self.handler_lists().drop_last() =~= old_lists);
                    assert(ps.no_duplicates()) by {
                        assert forall|a: int, b: int| 0 <= a < b < ps.len() implies ps[a] != ps[b] by {
                            if b == ps.len() - 1 {
                                assert(old_paths.contains(old_paths[a]) || a >= old_paths.len());
                            }
                        }
                    }
                    lemma_index_of_unique(ps, old_paths.len() as int);
                    assert forall|q: Seq<char>| q != path@ implies #[trigger] self.lookup(q) == old(self).lookup(q) by {
                        if old_paths.contains(q) {
                            let j = old_paths.index_of(q);
                            assert(0 <= j < old_paths.len() && old_paths[j] == q);
                            lemma_index_of_unique(old_paths, j);
                            lemma_index_of_unique(ps, j);
                            assert(ps.contains(q));
                            assert(ps.index_of(q) == j);
                            assert(self.handler_lists()[j] == old_lists[j]);
                        } else {
                            if ps.contains(q) {
                                let j = choose|j: int| 0 <= j < ps.len() && ps[j] == q;
                                if j < old_paths.len() {
                                    assert(old_paths[j] == q);
                                }
                            }
                        }
                    }
                }
            },
        }
    }
}


/// Whether a registered path resembles a wanted one: it is not empty and
/// shares a component with it.
pub open spec fn spec_is_similar(path: Seq<char>, target: Seq<char>) -> bool {
    path.len() > 0 && spec_shares_component(spec_components(path), spec_components(target))
}

/// Whether path `p` is reported before path `q` among the paths that
/// resemble `target`.
pub open spec fn spec_path_before(p: Seq<char>, q: Seq<char>, target: Seq<char>) -> bool {
    spec_reported_before(spec_components(p), spec_components(q), spec_components(target))
}

/// Compares two candidate component lists, given how many leading
/// components each shares with the wanted path.
fn reported_before(p: &Vec<Vec<char>>, lp: usize, q: &Vec<Vec<char>>, lq: usize, Ghost(t): Ghost<Seq<Seq<char>>>) -> (r: bool)
    requires
        lp == spec_common_prefix(spec_part_views(p@), t),
        lq == spec_common_prefix(spec_part_views(q@), t),
    ensures
        r == spec_reported_before(spec_part_views(p@), spec_part_views(q@), t),
{
    let on_p = lp == p.len();
    let on_q = lq == q.len();
    if on_p && on_q {
        p.len() < q.len()
    } else if on_p {
        true
    } else if on_q {
        false
    } else if lp != lq {
        lp > lq
    } else {
        components_less(p, q)
    }
}

impl<H> PathRouter<H> {
    /// The handlers registered at a path, if any.
    pub fn find_handlers(&self, path: &str) -> (r: Option<&Vec<H>>)
        requires
            self.wf(),
        ensures
            r is None <==> self.lookup(path@) is None,
            r matches Some(v) ==> self.lookup(path@) == Some(v@),
    {
        let key = path.to_owned();
        match self.position_of(&key) {
            Some(i) => Some(&self.handlers[i]),
            None => None,
        }
    }

    /// Whether handlers are registered at a path.
    pub fn path_exists(&self, path: &str) -> (b: bool)
        requires
            self.wf(),
        ensures
            b == self.lookup(path@) is Some,
    {
        self.find_handlers(path).is_some()
    }

    /// Number of handlers registered at a path (0 for an unknown path).
    pub fn handler_count_for_path(&self, path: &str) -> (n: usize)
        requires
            self.wf(),
        ensures
            n == match self.lookup(path@) {
                Some(hs) => hs.len(),
                None => 0,
            },
    {
        match self.find_handlers(path) {
            Some(handlers) => handlers.len(),
            None => 0,
        }
    }

    /// Total number of registered handlers across all paths.
    pub fn total_handlers(&self) -> (n: usize)
        requires
            self.wf(),
        ensures
            n == self.handler_total(),
    {
        self.handler_total
    }

    /// Every registered path except the empty one, in registration order.
    pub fn get_all_paths(&self) -> (v: Vec<String>)
        requires
            self.wf(),
        ensures
            v@.map_values(|s: String| s@) == self.paths().filter(|p: Seq<char>| p.len() > 0),
    {
        let mut v: Vec<String> = Vec::new();
        let mut i: usize = 0;
        proof {
            reveal(Seq::filter);
            assert(self.paths().take(0) =~= Seq::<Seq<char>>::empty());
            assert(v@.map_values(|s: String| s@) =~= Seq::<Seq<char>>::empty());
        }
        while i < self.paths.len()
            invariant
                i <= self.paths@.len(),
                v@.map_values(|s: String| s@) == self.paths().take(i as int).filter(|p: Seq<char>| p.len() > 0),
            decreases self.paths@.len() - i,
        {
            let ghost before = v@.map_values(|s: String| s@);
            proof {
                reveal(Seq::filter);
                assert(self.paths().take(i + 1).drop_last() =~= self.paths().take(i as int));
                assert(self.paths().take(i + 1).last() == self.paths@[i as int]@);
            }
            if !self.paths[i].as_str().is_empty() {
                let path = self.paths[i].clone();
                v.push(path);
                proof {
                    assert(v@.map_values(|s: String| s@) =~= before.push(self.paths@[i as int]@));
                }
            }
            i = i + 1;
        }
        proof {
            assert(self.paths().take(self.paths().len() as int) =~= self.paths());
        }
        v
    }
}

impl<H> Default for PathRouter<H> {
    /// A router with no path registered.
    fn default() -> (r: Self)
        ensures
            r.wf(),
            r.paths() == Seq::<Seq<char>>::empty(),
            r.handler_total() == 0,
    {
        Self::new()
    }
}


/// The character sequences of a list of strings.
pub open spec fn spec_string_views(v: Seq<String>) -> Seq<Seq<char>> {
    v.map_values(|s: String| s@)
}

/// Candidates for a similarity search: their paths, components and how many
/// leading components each shares with the wanted path.
struct Candidates {
    paths: Vec<String>,
    parts: Vec<Vec<Vec<char>>>,
    common: Vec<usize>,
}

impl Candidates {
    spec fn wf(&self, t: Seq<Seq<char>>) -> bool {
        &&& self.paths@.len() == self.parts@.len()
        &&& self.paths@.len() == self.common@.len()
        &&& spec_string_views(self.paths@).no_duplicates()
        &&& forall|k: int|
            0 <= k < self.parts@.len() ==> spec_part_views(#[trigger] self.parts@[k]@) == spec_components(
                self.paths@[k]@,
            )
        &&& forall|k: int|
            0 <= k < self.common@.len() ==> #[trigger] self.common@[k] == spec_common_prefix(
                spec_part_views(self.parts@[k]@),
                t,
            )
    }
}

impl<H> PathRouter<H> {
    /// The registered paths that resemble `target`, in registration order,
    /// with their components.
    fn similar_candidates(&self, target: &str, tparts: &Vec<Vec<char>>) -> (c: Candidates)
        requires
            self.wf(),
            spec_part_views(tparts@) == spec_components(target@),
        ensures
            c.wf(spec_components(target@)),
            spec_string_views(c.paths@) == self.paths().filter(|p: Seq<char>| spec_is_similar(p, target@)),
    {
        let ghost t = spec_components(target@);
        let ghost pred = |p: Seq<char>| spec_is_similar(p, target@);
        let mut c = Candidates { paths: Vec::new(), parts: Vec::new(), common: Vec::new() };
        let mut i: usize = 0;
        proof {
            reveal(Seq::filter);
            assert(self.paths().take(0) =~= Seq::<Seq<char>>::empty());
            assert(spec_string_views(c.paths@) =~= Seq::<Seq<char>>::empty());
        }
        while i < self.paths.len()
            invariant
                i <= self.paths@.len(),
                self.wf(),
                spec_part_views(tparts@) == t,
                t == spec_components(target@),
                pred == (|p: Seq<char>| spec_is_similar(p, target@)),
                c.wf(t),
                spec_string_views(c.paths@) == self.paths().take(i as int).filter(pred),
                forall|k: int| 0 <= k < c.paths@.len() ==> self.paths().take(i as int).contains(#[trigger] c.paths@[k]@),
            decreases self.paths@.len() - i,
        {
            let ghost before = spec_string_views(c.paths@);
            let ghost path_i = self.paths@[i as int]@;
            proof {
                reveal(Seq::filter);
                assert(self.paths().take(i + 1).drop_last() =~= self.paths().take(i as int));
                assert(self.paths().take(i + 1).last() == path_i);
            }
            let parts = split_components(self.paths[i].as_str());
            let similar = !self.paths[i].as_str().is_empty() && shares_component(&parts, tparts);
            if similar {
                let common = common_prefix(&parts, tparts);
                let path = self.paths[i].clone();
                c.paths.push(path);
                c.parts.push(parts);
                c.common.push(common);
                proof {
                    assert(spec_string_views(c.paths@) =~= before.push(path_i));
                    assert(!before.contains(path_i)) by {
                        if before.contains(path_i) {
                            let k = choose|k: int| 0 <= k < before.len() && before[k] == path_i;
                            assert(self.paths().take(i as int).contains(path_i));
                            let j = choose|j: int| 0 <= j < i && self.paths().take(i as int)[j] == path_i;
                            assert(self.paths()[j] == self.paths()[i as int]);
                        }
                    }
                    assert(spec_string_views(c.paths@).no_duplicates()) by {
                        let sv = spec_string_views(c.paths@);
                        assert forall|a: int, b: int| 0 <= a < b < sv.len() implies sv[a] != sv[b] by {
                            if b == sv.len() - 1 {
                                assert(before[a] == sv[a]);
                            } else {
                                assert(before[a] == sv[a] && before[b] == sv[b]);
                            }
                        }
                    }
                }
            }
            proof {
                assert forall|k: int| 0 <= k < c.paths@.len() implies self.paths().take(i + 1).contains(
                    #[trigger] c.paths@[k]@,
                ) by {
                    if k < before.len() {
                        assert(self.paths().take(i as int).contains(c.paths@[k]@));
                        let j = choose|j: int| 0 <= j < i && self.paths().take(i as int)[j] == c.paths@[k]@;
                        assert(self.paths().take(i + 1)[j] == c.paths@[k]@);
                    } else {
                        assert(self.paths().take(i + 1)[i as int] == c.paths@[k]@);
                    }
                }
            }
            i = i + 1;
        }
        proof {
            assert(self.paths().take(self.paths().len() as int) =~= self.paths());
        }
        c
    }

    /// Registered paths resembling `target_path`, at most `max_results` of
    /// them, in reporting order: a resembling path is one that is not empty
    /// and shares a component with the wanted path; paths on the wanted path
    /// come first, shortest first; then the others, those sharing more
    /// leading components first, and among equals in component order.
    pub fn find_similar_paths(&self, target_path: &str, max_results: usize) -> (v: Vec<String>)
        requires
            self.wf(),
        ensures
            ({
                let cands = self.paths().filter(|p: Seq<char>| spec_is_similar(p, target_path@));
                let found = spec_string_views(v@);
                &&& found.len() == vstd::math::min(max_results as int, cands.len() as int)
                &&& forall|i: int| 0 <= i < found.len() ==> cands.contains(#[trigger] found[i])
                &&& forall|i: int, j: int|
                    0 <= i < j < found.len() ==> spec_path_before(found[i], found[j], target_path@)
                &&& forall|i: int, c: Seq<char>|
                    0 <= i < found.len() && cands.contains(c) && !found.contains(c) ==> #[trigger] spec_path_before(
                        found[i],
                        c,
                        target_path@,
                    )
            }),
    {
        let tparts = split_components(target_path);
        let ghost t = spec_components(target_path@);
        let c = self.similar_candidates(target_path, &tparts);
        let ghost cands = spec_string_views(c.paths@);
        let n = c.paths.len();
        let limit: usize = if max_results < n {
            max_results
        } else {
            n
        };
        let mut remaining: Vec<usize> = Vec::new();
        let mut k: usize = 0;
        while k < n
            invariant
                k <= n,
                n == c.paths@.len(),
                remaining@ == Seq::new(k as nat, |j: int| j as usize),
            decreases n - k,
        {
            remaining.push(k);
            k = k + 1;
            assert(remaining@ =~= Seq::new(k as nat, |j: int| j as usize));
        }
        let mut v: Vec<String> = Vec::new();
        let ghost mut chosen: Seq<int> = Seq::empty();
        let mut round: usize = 0;
        proof {
            assert forall|j: int| 0 <= j < n implies chosen.contains(j) || remaining@.contains(j as usize) by {
                assert(remaining@[j] == j as usize);
            }
        }
        while round < limit
            invariant
                round <= limit,
                limit == vstd::math::min(max_results as int, n as int),
                n == c.paths@.len(),
                t == spec_components(target_path@),
                c.wf(t),
                cands == spec_string_views(c.paths@),
                v@.len() == round,
                chosen.len() == round,
                remaining@.len() == n - round,
                forall|q: int| 0 <= q < remaining@.len() ==> #[trigger] remaining@[q] < n,
                forall|x: int, y: int| 0 <= x < y < remaining@.len() ==> remaining@[x] != remaining@[y],
                forall|r: int| 0 <= r < round ==> 0 <= #[trigger] chosen[r] < n && v@[r]@ == cands[chosen[r]],
                forall|j: int| 0 <= j < n ==> chosen.contains(j) || remaining@.contains(j as usize),
                forall|a: int, b: int| 0 <= a < b < round ==> spec_path_before(v@[a]@, v@[b]@, target_path@),
                forall|a: int, q: int|
                    0 <= a < round && 0 <= q < remaining@.len() ==> spec_path_before(
                        v@[a]@,
                        cands[remaining@[q] as int],
                        target_path@,
                    ),
            decreases limit - round,
        {
            let mut best: usize = 0;
            let mut q: usize = 1;
            while q < remaining.len()
                invariant
                    1 <= q <= remaining@.len(),
                    best < q,
                    n == c.paths@.len(),
                    t == spec_components(target_path@),
                    c.wf(t),
                    cands == spec_string_views(c.paths@),
                    forall|x: int| 0 <= x < remaining@.len() ==> #[trigger] remaining@[x] < n,
                    forall|x: int| 0 <= x < remaining@.len() ==> remaining@[x] == #[trigger] remaining@[x],
                    forall|x: int, y: int| 0 <= x < y < remaining@.len() ==> remaining@[x] != remaining@[y],
                    forall|x: int|
                        0 <= x < q && x != best ==> spec_path_before(
                            cands[remaining@[best as int] as int],
                            cands[#[trigger] remaining@[x] as int],
                            target_path@,
                        ),
                decreases remaining@.len() - q,
            {
                let a = remaining[q];
                let b = remaining[best];
                let earlier = reported_before(&c.parts[a], c.common[a], &c.parts[b], c.common[b], Ghost(t));
                proof {
                    let ca = cands[a as int];
                    let cb = cands[b as int];
                    assert(spec_part_views(c.parts@[a as int]@) == spec_components(ca));
                    assert(spec_part_views(c.parts@[b as int]@) == spec_components(cb));
                    assert(earlier == spec_path_before(ca, cb, target_path@));
                    assert(a != b);
                    assert(ca != cb) by {
                        assert(cands.no_duplicates());
                    }
                    if spec_components(ca) == spec_components(cb) {
                        lemma_components_injective(ca, cb);
                    }
                    law_reported_order_is_total(spec_components(ca), spec_components(cb), spec_components(ca), t);
                    if earlier {
                        assert forall|x: int| 0 <= x < q + 1 && x != q implies spec_path_before(
                            ca,
                            cands[#[trigger] remaining@[x] as int],
                            target_path@,
                        ) by {
                            if x != best {
                                law_reported_order_is_total(
                                    spec_components(ca),
                                    spec_components(cb),
                                    spec_components(cands[remaining@[x] as int]),
                                    t,
                                );
                            }
                        }
                    } else {
                        assert(spec_path_before(cb, ca, target_path@));
                    }
                }
                if earlier {
                    best = q;
                }
                q = q + 1;
            }
            let ghost old_remaining = remaining@;
            let pick = remaining.remove(best);
            let path = c.paths[pick].clone();
            v.push(path);
            proof {
                assert(v@[round as int]@ == cands[pick as int]);
                assert(pick == old_remaining[best as int]);
                assert forall|a: int, b: int| 0 <= a < b < round + 1 implies spec_path_before(
                    v@[a]@,
                    v@[b]@,
                    target_path@,
                ) by {
                    if b == round {
                        assert(spec_path_before(v@[a]@, cands[old_remaining[best as int] as int], target_path@));
                    }
                }
                let old_chosen = chosen;
                chosen = chosen.push(pick as int);
                assert forall|j: int| 0 <= j < n implies chosen.contains(j) || remaining@.contains(j as usize) by {
                    if old_chosen.contains(j) {
                        let r = choose|r: int| 0 <= r < old_chosen.len() && old_chosen[r] == j;
                        assert(chosen[r] == j);
                    } else if j == pick as int {
                        assert(chosen[chosen.len() - 1] == j);
                    } else {
                        let x = choose|x: int| 0 <= x < old_remaining.len() && old_remaining[x] == j as usize;
                        if x < best {
                            assert(remaining@[x] == j as usize);
                        } else {
                            assert(x != best);
                            assert(remaining@[x - 1] == j as usize);
                        }
                    }
                }
            }
            round = round + 1;
        }
        proof {
            let found = spec_string_views(v@);
            assert(found.len() == round);
            assert(cands == self.paths().filter(|p: Seq<char>| spec_is_similar(p, target_path@)));
            assert forall|i: int| 0 <= i < found.len() implies cands.contains(#[trigger] found[i]) by {
                assert(found[i] == v@[i]@);
                assert(cands[chosen[i]] == found[i]);
            }
            assert forall|i: int, j: int| 0 <= i < j < found.len() implies spec_path_before(found[i], found[j], target_path@) by {
                assert(found[i] == v@[i]@);
                assert(found[j] == v@[j]@);
            }
            assert forall|i: int, cc: Seq<char>|
                0 <= i < spec_string_views(v@).len() && cands.contains(cc) && !spec_string_views(v@).contains(cc)
                    implies #[trigger] spec_path_before(spec_string_views(v@)[i], cc, target_path@) by {
                let j = choose|j: int| 0 <= j < cands.len() && cands[j] == cc;
                if chosen.contains(j) {
                    let r = choose|r: int| 0 <= r < chosen.len() && chosen[r] == j;
                    assert(spec_string_views(v@)[r] == cc);
                    assert(false);
                } else {
                    assert(remaining@.contains(j as usize));
                    let qq = choose|qq: int| 0 <= qq < remaining@.len() && remaining@[qq] == j as usize;
                    assert(v@[i]@ == spec_string_views(v@)[i]);
                }
            }
        }
        v
    }
}

} // verus!
