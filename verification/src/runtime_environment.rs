//! The Python environment of a runtime: which plugins it holds, which
//! dependencies it installs, and the hash that names it.
use vstd::prelude::*;
use crate::json::{JsonMember, JsonValue, JsonView, json_members};
use crate::models::{PluginDependency, PluginRegistry, PluginRuntime, PluginType, PluginView};
use crate::runtime_bootstrap::{contains_plugin_id, has_plugin_id};
use crate::text::{blank, is_blank, to_chars};

verus! {

broadcast use vstd::std_specs::vec::group_vec_axioms;

/// The order of texts by their characters' code points, first difference
/// first; a text comes before every longer text it begins.
pub open spec fn text_lt(a: Seq<char>, b: Seq<char>) -> bool
    decreases a.len(),
{
    if b.len() == 0 {
        false
    } else if a.len() == 0 {
        true
    } else if a[0] != b[0] {
        a[0] < b[0]
    } else {
        text_lt(a.drop_first(), b.drop_first())
    }
}

/// No text comes before itself.
pub proof fn lemma_text_lt_irreflexive(a: Seq<char>)
    ensures
        !text_lt(a, a),
    decreases a.len(),
{
    if a.len() > 0 {
        lemma_text_lt_irreflexive(a.drop_first());
    }
}

/// Of two texts, at most one comes before the other.
pub proof fn lemma_text_lt_asymmetric(a: Seq<char>, b: Seq<char>)
    ensures
        !(text_lt(a, b) && text_lt(b, a)),
    decreases a.len(),
{
    if a.len() > 0 && b.len() > 0 && a[0] == b[0] {
        lemma_text_lt_asymmetric(a.drop_first(), b.drop_first());
    }
}

/// The order is transitive.
pub proof fn lemma_text_lt_transitive(a: Seq<char>, b: Seq<char>, c: Seq<char>)
    requires
        text_lt(a, b),
        text_lt(b, c),
    ensures
        text_lt(a, c),
    decreases a.len(),
{
    if a.len() > 0 && b.len() > 0 && c.len() > 0 && a[0] == b[0] && b[0] == c[0] {
        lemma_text_lt_transitive(a.drop_first(), b.drop_first(), c.drop_first());
    }
}

/// Of two different texts, one comes before the other.
pub proof fn lemma_text_lt_total(a: Seq<char>, b: Seq<char>)
    requires
        a != b,
    ensures
        text_lt(a, b) || text_lt(b, a),
    decreases a.len(),
{
    if a.len() > 0 && b.len() > 0 {
        if a[0] == b[0] {
            if a.drop_first() == b.drop_first() {
                assert(a =~= seq![a[0]] + a.drop_first());
                assert(b =~= seq![b[0]] + b.drop_first());
            }
            lemma_text_lt_total(a.drop_first(), b.drop_first());
        }
    } else if a.len() == 0 && b.len() == 0 {
        assert(a =~= b);
    }
}

/// Texts that agree on their first `i` characters compare as what follows.
proof fn lemma_text_lt_skip(a: Seq<char>, b: Seq<char>, i: int)
    requires
        0 <= i <= a.len(),
        i <= b.len(),
        a.take(i) == b.take(i),
    ensures
        text_lt(a, b) == text_lt(a.skip(i), b.skip(i)),
    decreases i,
{
    if i > 0 {
        assert(a[0] == a.take(i)[0]);
        assert(b[0] == b.take(i)[0]);
        assert(a.drop_first().take(i - 1) =~= a.take(i).drop_first());
        assert(b.drop_first().take(i - 1) =~= b.take(i).drop_first());
        lemma_text_lt_skip(a.drop_first(), b.drop_first(), i - 1);
        assert(a.drop_first().skip(i - 1) =~= a.skip(i));
        assert(b.drop_first().skip(i - 1) =~= b.skip(i));
    } else {
        assert(a.skip(0) =~= a);
        assert(b.skip(0) =~= b);
    }
}

/// Whether `a` comes before `b`.
pub fn text_less(a: &str, b: &str) -> (r: bool)
    ensures
        r == text_lt(a@, b@),
{
    let x = to_chars(a);
    let y = to_chars(b);
    let mut i: usize = 0;
    while i < x.len() && i < y.len() && x[i] == y[i]
        invariant
            i <= x.len(),
            i <= y.len(),
            x@ == a@,
            y@ == b@,
            x@.take(i as int) =~= y@.take(i as int),
        decreases x.len() - i,
    {
        assert(x@.take(i + 1) =~= x@.take(i as int).push(x@[i as int]));
        assert(y@.take(i + 1) =~= y@.take(i as int).push(y@[i as int]));
        i += 1;
    }
    proof {
        lemma_text_lt_skip(a@, b@, i as int);
    }
    let ghost xs = x@.skip(i as int);
    let ghost ys = y@.skip(i as int);
    if i == y.len() {
        assert(ys.len() == 0);
        false
    } else if i == x.len() {
        assert(xs.len() == 0 && ys.len() > 0);
        true
    } else {
        assert(xs[0] == x@[i as int] && ys[0] == y@[i as int]);
        x[i] < y[i]
    }
}

/// Whether the texts of `s` come in strictly increasing order.
pub open spec fn strictly_sorted(s: Seq<Seq<char>>) -> bool {
    forall|i: int, j: int| 0 <= i < j < s.len() ==> text_lt(#[trigger] s[i], #[trigger] s[j])
}

/// Two strictly increasing sequences of texts that hold the same texts are one.
pub proof fn lemma_sorted_unique(a: Seq<Seq<char>>, b: Seq<Seq<char>>)
    requires
        strictly_sorted(a),
        strictly_sorted(b),
        forall|t: Seq<char>| a.contains(t) <==> b.contains(t),
    ensures
        a == b,
    decreases a.len() + b.len(),
{
    if a.len() == 0 || b.len() == 0 {
        if a.len() > 0 {
            assert(a.contains(a[0]));
        }
        if b.len() > 0 {
            assert(b.contains(b[0]));
        }
        assert(a =~= b);
    } else {
        assert(a.contains(a[0]));
        assert(b.contains(b[0]));
        let ia = choose|i: int| 0 <= i < b.len() && b[i] == a[0];
        let ib = choose|i: int| 0 <= i < a.len() && a[i] == b[0];
        if ia > 0 {
            assert(text_lt(b[0], b[ia]));
            if ib > 0 {
                assert(text_lt(a[0], a[ib]));
                lemma_text_lt_asymmetric(a[0], b[0]);
            } else {
                lemma_text_lt_irreflexive(a[0]);
            }
        }
        assert(a[0] == b[0]);
        let a1 = a.drop_first();
        let b1 = b.drop_first();
        assert forall|t: Seq<char>| a1.contains(t) <==> b1.contains(t) by {
            if a1.contains(t) {
                let k = choose|k: int| 0 <= k < a1.len() && a1[k] == t;
                assert(a.contains(t) && a[k + 1] == t);
                assert(text_lt(a[0], t));
                let m = choose|m: int| 0 <= m < b.len() && b[m] == t;
                if m == 0 {
                    lemma_text_lt_irreflexive(t);
                }
                assert(b1[m - 1] == t);
            }
            if b1.contains(t) {
                let k = choose|k: int| 0 <= k < b1.len() && b1[k] == t;
                assert(b.contains(t) && b[k + 1] == t);
                assert(text_lt(b[0], t));
                let m = choose|m: int| 0 <= m < a.len() && a[m] == t;
                if m == 0 {
                    lemma_text_lt_irreflexive(t);
                }
                assert(a1[m - 1] == t);
            }
        }
        lemma_sorted_unique(a1, b1);
        assert(a =~= seq![a[0]] + a1);
        assert(b =~= seq![b[0]] + b1);
    }
}

/// Adds `x` to the strictly increasing texts `v` in its place, unless it is there.
pub fn insert_sorted_text(v: &mut Vec<String>, x: String)
    requires
        strictly_sorted(old(v).deep_view()),
    ensures
        strictly_sorted(final(v).deep_view()),
        forall|t: Seq<char>| final(v).deep_view().contains(t) <==> (old(v).deep_view().contains(t) || t == x@),
{
    let ghost s = v.deep_view();
    let mut i: usize = 0;
    while i < v.len() && text_less(v[i].as_str(), x.as_str())
        invariant
            i <= v.len(),
            s == v.deep_view(),
            strictly_sorted(s),
            forall|k: int| 0 <= k < i ==> text_lt(#[trigger] s[k], x@),
        decreases v.len() - i,
    {
        i += 1;
    }
    if i < v.len() && v[i] == x {
        assert(s[i as int] == x@);
        return;
    }
    proof {
        if i < s.len() {
            lemma_text_lt_total(s[i as int], x@);
            assert(text_lt(x@, s[i as int]));
            assert forall|k: int| i < k < s.len() implies text_lt(x@, #[trigger] s[k]) by {
                lemma_text_lt_transitive(x@, s[i as int], s[k]);
            }
        }
    }
    let ghost xv = x@;
    v.insert(i, x);
    let ghost t = v.deep_view();
    assert(t =~= s.insert(i as int, xv));
    assert forall|a: int, b: int| 0 <= a < b < t.len() implies text_lt(#[trigger] t[a], #[trigger] t[b]) by {
        if b < i {
        } else if b == i {
        } else if a < i {
            assert(t[b] == s[b - 1]);
            if b - 1 == i {
            } else {
                lemma_text_lt_transitive(s[a], xv, s[b - 1]);
            }
        } else if a == i {
            assert(t[b] == s[b - 1]);
        } else {
            assert(t[a] == s[a - 1] && t[b] == s[b - 1]);
        }
    }
    assert forall|q: Seq<char>| t.contains(q) <==> (s.contains(q) || q == xv) by {
        if t.contains(q) {
            let k = choose|k: int| 0 <= k < t.len() && t[k] == q;
            if k < i {
                assert(s[k] == q);
            } else if k > i {
                assert(s[k - 1] == q);
            }
        }
        if s.contains(q) {
            let k = choose|k: int| 0 <= k < s.len() && s[k] == q;
            if k < i {
                assert(t[k] == q);
            } else {
                assert(t[k + 1] == q);
            }
        }
        if q == xv {
            assert(t[i as int] == q);
        }
    }
}

/// The plugins with the first of each id kept, in order.
pub open spec fn deduped(ps: Seq<PluginView>) -> Seq<PluginView>
    decreases ps.len(),
{
    if ps.len() == 0 {
        Seq::empty()
    } else {
        let prev = deduped(ps.drop_last());
        if has_plugin_id(prev, ps.last().id) {
            prev
        } else {
            prev.push(ps.last())
        }
    }
}

/// The plugins with only the first of each id kept, in order.
pub fn dedupe_runtime_plugins(runtime_plugins: Vec<PluginRegistry>) -> (r: Vec<PluginRegistry>)
    ensures
        r.deep_view() == deduped(runtime_plugins.deep_view()),
{
    let ghost ps = runtime_plugins.deep_view();
    let mut out: Vec<PluginRegistry> = Vec::new();
    let mut i: usize = 0;
    assert(ps.take(0) =~= Seq::<PluginView>::empty());
    assert(out.deep_view() =~= Seq::<PluginView>::empty());
    while i < runtime_plugins.len()
        invariant
            i <= runtime_plugins.len(),
            ps == runtime_plugins.deep_view(),
            out.deep_view() == deduped(ps.take(i as int)),
        decreases runtime_plugins.len() - i,
    {
        let p = &runtime_plugins[i];
        assert(ps.take(i + 1).drop_last() =~= ps.take(i as int));
        assert(ps.take(i + 1).last() == p.deep_view());
        if !contains_plugin_id(&out, &p.id) {
            let ghost before = out.deep_view();
            out.push(p.clone());
            assert(out.deep_view() =~= before.push(p.deep_view()));
        }
        i += 1;
    }
    assert(ps.take(runtime_plugins.len() as int) =~= ps);
    out
}

/// The dependencies of the plugins, in order, as name and version.
pub open spec fn all_dependencies(ps: Seq<PluginView>) -> Seq<(Seq<char>, Seq<char>)>
    decreases ps.len(),
{
    if ps.len() == 0 {
        Seq::empty()
    } else {
        all_dependencies(ps.drop_last()) + ps.last().dependencies
    }
}

/// What pip installs for a dependency: its name, pinned to its version when it has one.
pub open spec fn dependency_spec(d: (Seq<char>, Seq<char>)) -> Seq<char> {
    if blank(d.1) {
        d.0
    } else {
        d.0 + "=="@ + d.1
    }
}

/// What pip installs for a dependency.
pub fn dependency_spec_text(d: &PluginDependency) -> (r: String)
    ensures
        r@ == dependency_spec(d.deep_view()),
{
    if is_blank(d.version.as_str()) {
        d.name.clone()
    } else {
        let mut s = d.name.clone();
        s.append("==");
        s.append(d.version.as_str());
        s
    }
}

/// Whether `t` is what pip installs for some dependency of the plugins.
pub open spec fn is_dependency_spec(ps: Seq<PluginView>, t: Seq<char>) -> bool {
    exists|k: int| 0 <= k < all_dependencies(ps).len() && dependency_spec(#[trigger] all_dependencies(ps)[k]) == t
}

/// What pip installs for the dependencies of the plugins: each once, in
/// increasing order.
pub fn collect_dependency_specs(runtime_plugins: &Vec<PluginRegistry>) -> (r: Vec<String>)
    ensures
        strictly_sorted(r.deep_view()),
        forall|t: Seq<char>| r.deep_view().contains(t) <==> is_dependency_spec(runtime_plugins.deep_view(), t),
{
    let ghost ps = runtime_plugins.deep_view();
    let mut out: Vec<String> = Vec::new();
    let mut i: usize = 0;
    assert(ps.take(0) =~= Seq::<PluginView>::empty());
    while i < runtime_plugins.len()
        invariant
            i <= runtime_plugins.len(),
            ps == runtime_plugins.deep_view(),
            strictly_sorted(out.deep_view()),
            forall|t: Seq<char>| out.deep_view().contains(t) <==> is_dependency_spec(ps.take(i as int), t),
        decreases runtime_plugins.len() - i,
    {
        let deps = &runtime_plugins[i].dependencies;
        let ghost done = all_dependencies(ps.take(i as int));
        assert(ps.take(i + 1).drop_last() =~= ps.take(i as int));
        assert(ps.take(i + 1).last() == runtime_plugins[i as int].deep_view());
        assert(all_dependencies(ps.take(i + 1)) == done + deps.deep_view());
        assert forall|t: Seq<char>| out.deep_view().contains(t) <==>
            exists|k: int| 0 <= k < done.len() + 0 && dependency_spec(#[trigger] (done + deps.deep_view())[k]) == t by {
            if is_dependency_spec(ps.take(i as int), t) {
                let k = choose|k: int| 0 <= k < done.len() && dependency_spec(#[trigger] done[k]) == t;
                assert((done + deps.deep_view())[k] == done[k]);
            }
            if exists|k: int| 0 <= k < done.len() + 0 && dependency_spec(#[trigger] (done + deps.deep_view())[k]) == t {
                let k = choose|k: int| 0 <= k < done.len() + 0 && dependency_spec(#[trigger] (done + deps.deep_view())[k]) == t;
                assert((done + deps.deep_view())[k] == done[k]);
            }
        }
        let mut j: usize = 0;
        while j < deps.len()
            invariant
                j <= deps.len(),
                strictly_sorted(out.deep_view()),
                forall|t: Seq<char>| out.deep_view().contains(t) <==>
                    exists|k: int| 0 <= k < done.len() + j && dependency_spec(#[trigger] (done + deps.deep_view())[k]) == t,
            decreases deps.len() - j,
        {
            let spec_text = dependency_spec_text(&deps[j]);
            let ghost before = out.deep_view();
            insert_sorted_text(&mut out, spec_text);
            proof {
                let all = done + deps.deep_view();
                assert(all[done.len() + j] == deps@[j as int].deep_view());
                assert forall|t: Seq<char>| out.deep_view().contains(t) <==>
                    exists|k: int| 0 <= k < done.len() + j + 1 && dependency_spec(#[trigger] all[k]) == t by {
                    if out.deep_view().contains(t) && !before.contains(t) {
                        assert(dependency_spec(all[done.len() + j]) == t);
                    }
                    if exists|k: int| 0 <= k < done.len() + j + 1 && dependency_spec(#[trigger] all[k]) == t {
                        let k = choose|k: int| 0 <= k < done.len() + j + 1 && dependency_spec(#[trigger] all[k]) == t;
                        if k < done.len() + j {
                            assert(before.contains(t));
                        }
                    }
                }
            }
            j += 1;
        }
        proof {
            let all = done + deps.deep_view();
            assert forall|t: Seq<char>| out.deep_view().contains(t) <==> is_dependency_spec(ps.take(i + 1), t) by {
                if exists|k: int| 0 <= k < done.len() + deps.len() && dependency_spec(#[trigger] all[k]) == t {
                    let k = choose|k: int| 0 <= k < done.len() + deps.len() && dependency_spec(#[trigger] all[k]) == t;
                    assert(dependency_spec(all_dependencies(ps.take(i + 1))[k]) == t);
                }
                if is_dependency_spec(ps.take(i + 1), t) {
                    let k = choose|k: int| 0 <= k < all_dependencies(ps.take(i + 1)).len()
                        && dependency_spec(#[trigger] all_dependencies(ps.take(i + 1))[k]) == t;
                    assert(dependency_spec(all[k]) == t);
                }
            }
        }
        i += 1;
    }
    assert(ps.take(runtime_plugins.len() as int) =~= ps);
    out
}

/// The order of dependencies by name, then by version.
pub open spec fn pair_lt(a: (Seq<char>, Seq<char>), b: (Seq<char>, Seq<char>)) -> bool {
    text_lt(a.0, b.0) || (a.0 == b.0 && text_lt(a.1, b.1))
}

proof fn lemma_pair_lt_irreflexive(a: (Seq<char>, Seq<char>))
    ensures
        !pair_lt(a, a),
{
    lemma_text_lt_irreflexive(a.0);
    lemma_text_lt_irreflexive(a.1);
}

proof fn lemma_pair_lt_asymmetric(a: (Seq<char>, Seq<char>), b: (Seq<char>, Seq<char>))
    ensures
        !(pair_lt(a, b) && pair_lt(b, a)),
{
    lemma_text_lt_asymmetric(a.0, b.0);
    lemma_text_lt_asymmetric(a.1, b.1);
    lemma_text_lt_irreflexive(a.0);
}

proof fn lemma_pair_lt_transitive(a: (Seq<char>, Seq<char>), b: (Seq<char>, Seq<char>), c: (Seq<char>, Seq<char>))
    requires
        pair_lt(a, b),
        pair_lt(b, c),
    ensures
        pair_lt(a, c),
{
    if text_lt(a.0, b.0) && text_lt(b.0, c.0) {
        lemma_text_lt_transitive(a.0, b.0, c.0);
    } else if text_lt(a.1, b.1) && text_lt(b.1, c.1) && a.0 == b.0 && b.0 == c.0 {
        lemma_text_lt_transitive(a.1, b.1, c.1);
    }
}

proof fn lemma_pair_lt_total(a: (Seq<char>, Seq<char>), b: (Seq<char>, Seq<char>))
    requires
        a != b,
    ensures
        pair_lt(a, b) || pair_lt(b, a),
{
    if a.0 != b.0 {
        lemma_text_lt_total(a.0, b.0);
    } else {
        lemma_text_lt_total(a.1, b.1);
    }
}

/// Whether the dependencies come in strictly increasing order.
pub open spec fn pairs_sorted(s: Seq<(Seq<char>, Seq<char>)>) -> bool {
    forall|i: int, j: int| 0 <= i < j < s.len() ==> pair_lt(#[trigger] s[i], #[trigger] s[j])
}

/// Two strictly increasing sequences of dependencies that hold the same ones are one.
pub proof fn lemma_pairs_sorted_unique(a: Seq<(Seq<char>, Seq<char>)>, b: Seq<(Seq<char>, Seq<char>)>)
    requires
        pairs_sorted(a),
        pairs_sorted(b),
        forall|t: (Seq<char>, Seq<char>)| a.contains(t) <==> b.contains(t),
    ensures
        a == b,
    decreases a.len() + b.len(),
{
    if a.len() == 0 || b.len() == 0 {
        if a.len() > 0 {
            assert(a.contains(a[0]));
        }
        if b.len() > 0 {
            assert(b.contains(b[0]));
        }
        assert(a =~= b);
    } else {
        assert(a.contains(a[0]));
        assert(b.contains(b[0]));
        let ia = choose|i: int| 0 <= i < b.len() && b[i] == a[0];
        let ib = choose|i: int| 0 <= i < a.len() && a[i] == b[0];
        if ia > 0 {
            assert(pair_lt(b[0], b[ia]));
            if ib > 0 {
                assert(pair_lt(a[0], a[ib]));
                lemma_pair_lt_asymmetric(a[0], b[0]);
            } else {
                lemma_pair_lt_irreflexive(a[0]);
            }
        }
        assert(a[0] == b[0]);
        let a1 = a.drop_first();
        let b1 = b.drop_first();
        assert forall|t: (Seq<char>, Seq<char>)| a1.contains(t) <==> b1.contains(t) by {
            if a1.contains(t) {
                let k = choose|k: int| 0 <= k < a1.len() && a1[k] == t;
                assert(a.contains(t) && a[k + 1] == t);
                assert(pair_lt(a[0], t));
                let m = choose|m: int| 0 <= m < b.len() && b[m] == t;
                if m == 0 {
                    lemma_pair_lt_irreflexive(t);
                }
                assert(b1[m - 1] == t);
            }
            if b1.contains(t) {
                let k = choose|k: int| 0 <= k < b1.len() && b1[k] == t;
                assert(b.contains(t) && b[k + 1] == t);
                assert(pair_lt(b[0], t));
                let m = choose|m: int| 0 <= m < a.len() && a[m] == t;
                if m == 0 {
                    lemma_pair_lt_irreflexive(t);
                }
                assert(a1[m - 1] == t);
            }
        }
        lemma_pairs_sorted_unique(a1, b1);
        assert(a =~= seq![a[0]] + a1);
        assert(b =~= seq![b[0]] + b1);
    }
}

/// Whether dependency `a` comes before `b`.
pub fn dependency_less(a: &PluginDependency, b: &PluginDependency) -> (r: bool)
    ensures
        r == pair_lt(a.deep_view(), b.deep_view()),
{
    if text_less(a.name.as_str(), b.name.as_str()) {
        true
    } else if a.name == b.name {
        text_less(a.version.as_str(), b.version.as_str())
    } else {
        false
    }
}

/// Adds `x` to the strictly increasing dependencies `v` in its place, unless it is there.
pub fn insert_sorted_dependency(v: &mut Vec<PluginDependency>, x: PluginDependency)
    requires
        pairs_sorted(old(v).deep_view()),
    ensures
        pairs_sorted(final(v).deep_view()),
        forall|t: (Seq<char>, Seq<char>)| final(v).deep_view().contains(t) <==> (old(v).deep_view().contains(t) || t == x.deep_view()),
{
    let ghost s = v.deep_view();
    let ghost xv = x.deep_view();
    let mut i: usize = 0;
    while i < v.len() && dependency_less(&v[i], &x)
        invariant
            i <= v.len(),
            s == v.deep_view(),
            xv == x.deep_view(),
            pairs_sorted(s),
            forall|k: int| 0 <= k < i ==> pair_lt(#[trigger] s[k], xv),
        decreases v.len() - i,
    {
        i += 1;
    }
    if i < v.len() && v[i].name == x.name && v[i].version == x.version {
        assert(s[i as int] == xv);
        return;
    }
    proof {
        if i < s.len() {
            lemma_pair_lt_total(s[i as int], xv);
            assert forall|k: int| i < k < s.len() implies pair_lt(xv, #[trigger] s[k]) by {
                lemma_pair_lt_transitive(xv, s[i as int], s[k]);
            }
        }
    }
    v.insert(i, x);
    let ghost t = v.deep_view();
    assert(t =~= s.insert(i as int, xv));
    assert forall|a: int, b: int| 0 <= a < b < t.len() implies pair_lt(#[trigger] t[a], #[trigger] t[b]) by {
        if b < i {
        } else if b == i {
        } else if a < i {
            assert(t[b] == s[b - 1]);
            if b - 1 != i {
                lemma_pair_lt_transitive(s[a], xv, s[b - 1]);
            }
        } else if a == i {
            assert(t[b] == s[b - 1]);
        } else {
            assert(t[a] == s[a - 1] && t[b] == s[b - 1]);
        }
    }
    assert forall|q: (Seq<char>, Seq<char>)| t.contains(q) <==> (s.contains(q) || q == xv) by {
        if t.contains(q) {
            let k = choose|k: int| 0 <= k < t.len() && t[k] == q;
            if k < i {
                assert(s[k] == q);
            } else if k > i {
                assert(s[k - 1] == q);
            }
        }
        if s.contains(q) {
            let k = choose|k: int| 0 <= k < s.len() && s[k] == q;
            if k < i {
                assert(t[k] == q);
            } else {
                assert(t[k + 1] == q);
            }
        }
        if q == xv {
            assert(t[i as int] == q);
        }
    }
}

/// The dependencies of the plugins, each once, in increasing order.
pub fn sorted_dependencies(runtime_plugins: &Vec<PluginRegistry>) -> (r: Vec<PluginDependency>)
    ensures
        pairs_sorted(r.deep_view()),
        forall|t: (Seq<char>, Seq<char>)| r.deep_view().contains(t) <==> all_dependencies(runtime_plugins.deep_view()).contains(t),
{
    let ghost ps = runtime_plugins.deep_view();
    let mut out: Vec<PluginDependency> = Vec::new();
    let mut i: usize = 0;
    assert(ps.take(0) =~= Seq::<PluginView>::empty());
    while i < runtime_plugins.len()
        invariant
            i <= runtime_plugins.len(),
            ps == runtime_plugins.deep_view(),
            pairs_sorted(out.deep_view()),
            forall|t: (Seq<char>, Seq<char>)| out.deep_view().contains(t) <==> all_dependencies(ps.take(i as int)).contains(t),
        decreases runtime_plugins.len() - i,
    {
        let deps = &runtime_plugins[i].dependencies;
        let ghost done = all_dependencies(ps.take(i as int));
        assert(ps.take(i + 1).drop_last() =~= ps.take(i as int));
        assert(ps.take(i + 1).last() == runtime_plugins[i as int].deep_view());
        assert(all_dependencies(ps.take(i + 1)) == done + deps.deep_view());
        let mut j: usize = 0;
        assert(done + deps.deep_view().take(0) =~= done);
        while j < deps.len()
            invariant
                j <= deps.len(),
                pairs_sorted(out.deep_view()),
                forall|t: (Seq<char>, Seq<char>)| out.deep_view().contains(t) <==> (done + deps.deep_view().take(j as int)).contains(t),
            decreases deps.len() - j,
        {
            let d = deps[j].clone();
            let ghost before = out.deep_view();
            insert_sorted_dependency(&mut out, d);
            proof {
                let prev = done + deps.deep_view().take(j as int);
                let x = deps@[j as int].deep_view();
                let next = prev.push(x);
                assert(done + deps.deep_view().take(j + 1) =~= next);
                assert forall|t: (Seq<char>, Seq<char>)| next.contains(t) <==> (prev.contains(t) || t == x) by {
                    if next.contains(t) {
                        let k = choose|k: int| 0 <= k < next.len() && next[k] == t;
                        if k < prev.len() {
                            assert(prev[k] == t);
                        }
                    }
                    if prev.contains(t) {
                        let k = choose|k: int| 0 <= k < prev.len() && prev[k] == t;
                        assert(next[k] == t);
                    }
                    if t == x {
                        assert(next[prev.len() as int] == t);
                    }
                }
            }
            j += 1;
        }
        assert(deps.deep_view().take(deps.len() as int) =~= deps.deep_view());
        i += 1;
    }
    assert(ps.take(runtime_plugins.len() as int) =~= ps);
    out
}

/// The lines that name the plugins of an environment.
pub open spec fn plugin_lines(ps: Seq<PluginView>) -> Seq<char>
    decreases ps.len(),
{
    if ps.len() == 0 {
        Seq::empty()
    } else {
        plugin_lines(ps.drop_last()) + "plugin="@ + ps.last().id + "|"@ + ps.last().entry_class + "\n"@
    }
}

/// The lines that name the dependencies of an environment.
pub open spec fn dependency_lines(ds: Seq<(Seq<char>, Seq<char>)>) -> Seq<char>
    decreases ds.len(),
{
    if ds.len() == 0 {
        Seq::empty()
    } else {
        dependency_lines(ds.drop_last()) + ds.last().0 + "="@ + ds.last().1 + "\n"@
    }
}

/// The text an environment's hash is computed from: its format, its plugins in
/// order, and its dependencies `ds`.
pub open spec fn env_material(ps: Seq<PluginView>, ds: Seq<(Seq<char>, Seq<char>)>) -> Seq<char> {
    "runtime=python\nformat=v2\n"@ + plugin_lines(ps) + dependency_lines(ds)
}

/// The UTF-8 encoding of a character.
pub open spec fn utf8_char(c: char) -> Seq<u8> {
    let n = c as u32;
    if n < 0x80 {
        seq![n as u8]
    } else if n < 0x800 {
        seq![(0xC0 + n / 64) as u8, (0x80 + n % 64) as u8]
    } else if n < 0x10000 {
        seq![(0xE0 + n / 4096) as u8, (0x80 + (n / 64) % 64) as u8, (0x80 + n % 64) as u8]
    } else {
        seq![(0xF0 + n / 262144) as u8, (0x80 + (n / 4096) % 64) as u8, (0x80 + (n / 64) % 64) as u8, (0x80 + n % 64) as u8]
    }
}

/// The UTF-8 encoding of a text.
pub open spec fn utf8(s: Seq<char>) -> Seq<u8>
    decreases s.len(),
{
    if s.len() == 0 {
        Seq::empty()
    } else {
        utf8(s.drop_last()) + utf8_char(s.last())
    }
}

/// The UTF-8 encoding of a character.
pub fn encode_char(c: char) -> (r: Vec<u8>)
    ensures
        r@ == utf8_char(c),
{
    let n = c as u32;
    assert(n <= 0x10FFFF);
    let mut r: Vec<u8> = Vec::new();
    if n < 0x80 {
        r.push(n as u8);
    } else if n < 0x800 {
        r.push((0xC0 + n / 64) as u8);
        r.push((0x80 + n % 64) as u8);
    } else if n < 0x10000 {
        r.push((0xE0 + n / 4096) as u8);
        r.push((0x80 + (n / 64) % 64) as u8);
        r.push((0x80 + n % 64) as u8);
    } else {
        r.push((0xF0 + n / 262144) as u8);
        r.push((0x80 + (n / 4096) % 64) as u8);
        r.push((0x80 + (n / 64) % 64) as u8);
        r.push((0x80 + n % 64) as u8);
    }
    assert(r@ =~= utf8_char(c));
    r
}

/// The UTF-8 encoding of a text.
pub fn utf8_bytes(s: &str) -> (r: Vec<u8>)
    ensures
        r@ == utf8(s@),
{
    let chars = to_chars(s);
    let mut out: Vec<u8> = Vec::new();
    let mut i: usize = 0;
    assert(chars@.take(0) =~= Seq::<char>::empty());
    assert(out@ =~= Seq::<u8>::empty());
    while i < chars.len()
        invariant
            i <= chars.len(),
            chars@ == s@,
            out@ == utf8(chars@.take(i as int)),
        decreases chars.len() - i,
    {
        let bytes = encode_char(chars[i]);
        assert(chars@.take(i + 1).drop_last() =~= chars@.take(i as int));
        let ghost before = out@;
        let mut j: usize = 0;
        while j < bytes.len()
            invariant
                j <= bytes.len(),
                out@ == before + bytes@.take(j as int),
            decreases bytes.len() - j,
        {
            out.push(bytes[j]);
            assert(before + bytes@.take(j + 1) =~= (before + bytes@.take(j as int)).push(bytes@[j as int]));
            j += 1;
        }
        assert(bytes@.take(bytes.len() as int) =~= bytes@);
        i += 1;
    }
    assert(chars@.take(chars.len() as int) =~= chars@);
    out
}

/// The FNV-1a offset basis and prime of 64 bits.
pub const FNV_OFFSET: u64 = 0xcbf2_9ce4_8422_2325u64;
pub const FNV_PRIME: u64 = 0x0100_0000_01b3u64;

/// FNV-1a of 64 bits, from `h`, over `bytes`.
pub open spec fn fnv_fold(h: u64, bytes: Seq<u8>) -> u64
    decreases bytes.len(),
{
    if bytes.len() == 0 {
        h
    } else {
        (fnv_fold(h, bytes.drop_last()) ^ (bytes.last() as u64)).wrapping_mul(FNV_PRIME)
    }
}

/// The FNV-1a hash of 64 bits of `data`.
pub fn fnv1a_64(data: &Vec<u8>) -> (r: u64)
    ensures
        r == fnv_fold(FNV_OFFSET, data@),
{
    let mut hash: u64 = FNV_OFFSET;
    let mut i: usize = 0;
    assert(data@.take(0) =~= Seq::<u8>::empty());
    while i < data.len()
        invariant
            i <= data.len(),
            hash == fnv_fold(FNV_OFFSET, data@.take(i as int)),
        decreases data.len() - i,
    {
        assert(data@.take(i + 1).drop_last() =~= data@.take(i as int));
        hash = (hash ^ (data[i] as u64)).wrapping_mul(FNV_PRIME);
        i += 1;
    }
    assert(data@.take(data.len() as int) =~= data@);
    hash
}

/// The lowercase hexadecimal digit of `d`.
pub open spec fn hex_char(d: nat) -> char {
    if d == 0 { '0' } else if d == 1 { '1' } else if d == 2 { '2' } else if d == 3 { '3' }
    else if d == 4 { '4' } else if d == 5 { '5' } else if d == 6 { '6' } else if d == 7 { '7' }
    else if d == 8 { '8' } else if d == 9 { '9' } else if d == 10 { 'a' } else if d == 11 { 'b' }
    else if d == 12 { 'c' } else if d == 13 { 'd' } else if d == 14 { 'e' } else { 'f' }
}

/// The last `n` hexadecimal digits of `x`, most significant first.
pub open spec fn hex_digits(x: nat, n: nat) -> Seq<char>
    decreases n,
{
    if n == 0 {
        Seq::empty()
    } else {
        hex_digits(x / 16, (n - 1) as nat).push(hex_char(x % 16))
    }
}

fn hex_digit_char(d: u64) -> (r: char)
    requires
        d < 16,
    ensures
        r == hex_char(d as nat),
{
    if d == 0 { '0' } else if d == 1 { '1' } else if d == 2 { '2' } else if d == 3 { '3' }
    else if d == 4 { '4' } else if d == 5 { '5' } else if d == 6 { '6' } else if d == 7 { '7' }
    else if d == 8 { '8' } else if d == 9 { '9' } else if d == 10 { 'a' } else if d == 11 { 'b' }
    else if d == 12 { 'c' } else if d == 13 { 'd' } else if d == 14 { 'e' } else { 'f' }
}

/// The last `n` hexadecimal digits of `x`, most significant first.
pub fn hex_text(x: u64, n: u64) -> (r: String)
    ensures
        r@ == hex_digits(x as nat, n as nat),
    decreases n,
{
    if n == 0 {
        let r = String::new();
        assert(r@ =~= Seq::<char>::empty());
        r
    } else {
        let mut r = hex_text(x / 16, n - 1);
        r.push(hex_digit_char(x % 16));
        r
    }
}

/// The name of the environment of plugins `ps` whose sorted, distinct
/// dependencies are `ds`: FNV-1a of 64 bits of the UTF-8 of its material, in 16
/// lowercase hexadecimal digits.
pub open spec fn env_hash_of(ps: Seq<PluginView>, ds: Seq<(Seq<char>, Seq<char>)>) -> Seq<char> {
    hex_digits(fnv_fold(FNV_OFFSET, utf8(env_material(ps, ds))) as nat, 16)
}

/// Whether every character of `s` is a lower-case hexadecimal digit.
pub open spec fn lower_hex(s: Seq<char>) -> bool {
    forall|i: int| 0 <= i < s.len() ==> ('0' <= #[trigger] s[i] && s[i] <= '9') || ('a' <= s[i] && s[i] <= 'f')
}

/// `hex_digits` gives `n` lower-case hexadecimal digits.
pub proof fn lemma_hex_digits(x: nat, n: nat)
    ensures
        hex_digits(x, n).len() == n,
        lower_hex(hex_digits(x, n)),
    decreases n,
{
    if n > 0 {
        lemma_hex_digits(x / 16, (n - 1) as nat);
        let prev = hex_digits(x / 16, (n - 1) as nat);
        let d = x % 16;
        assert(lower_hex(hex_digits(x, n))) by {
            assert forall|i: int| 0 <= i < hex_digits(x, n).len() implies
                ('0' <= #[trigger] hex_digits(x, n)[i] && hex_digits(x, n)[i] <= '9')
                || ('a' <= hex_digits(x, n)[i] && hex_digits(x, n)[i] <= 'f') by {
                if i < prev.len() {
                    assert(hex_digits(x, n)[i] == prev[i]);
                } else {
                    assert(hex_digits(x, n)[i] == hex_char(d));
                }
            }
        }
    }
}

/// The lines of plugins with the same ids and entry classes, in the same order,
/// are the same.
pub proof fn lemma_plugin_lines_keys(ps: Seq<PluginView>, qs: Seq<PluginView>)
    requires
        ps.len() == qs.len(),
        forall|i: int| 0 <= i < ps.len() ==> (#[trigger] ps[i]).id == qs[i].id && ps[i].entry_class == qs[i].entry_class,
    ensures
        plugin_lines(ps) == plugin_lines(qs),
    decreases ps.len(),
{
    if ps.len() > 0 {
        lemma_plugin_lines_keys(ps.drop_last(), qs.drop_last());
        assert(ps.last() == ps[ps.len() - 1]);
    }
}

/// The name of the Python environment of the plugins: 16 lower-case
/// hexadecimal digits.
pub fn compute_env_hash(runtime_plugins: &Vec<PluginRegistry>) -> (r: String)
    ensures
        exists|ds: Seq<(Seq<char>, Seq<char>)>| pairs_sorted(ds)
            && (forall|t: (Seq<char>, Seq<char>)| ds.contains(t) <==> all_dependencies(runtime_plugins.deep_view()).contains(t))
            && r@ == env_hash_of(runtime_plugins.deep_view(), ds),
        r@.len() == 16,
        lower_hex(r@),
{
    let ghost ps = runtime_plugins.deep_view();
    let deps = sorted_dependencies(runtime_plugins);
    let ghost ds = deps.deep_view();
    let mut material = String::from_str("runtime=python\nformat=v2\n");
    let mut i: usize = 0;
    assert(ps.take(0) =~= Seq::<PluginView>::empty());
    while i < runtime_plugins.len()
        invariant
            i <= runtime_plugins.len(),
            ps == runtime_plugins.deep_view(),
            material@ == "runtime=python\nformat=v2\n"@ + plugin_lines(ps.take(i as int)),
        decreases runtime_plugins.len() - i,
    {
        let p = &runtime_plugins[i];
        assert(ps.take(i + 1).drop_last() =~= ps.take(i as int));
        assert(ps.take(i + 1).last() == p.deep_view());
        material.append("plugin=");
        material.append(p.id.as_str());
        material.append("|");
        material.append(p.entry_class.as_str());
        material.append("\n");
        assert(material@ =~= "runtime=python\nformat=v2\n"@ + plugin_lines(ps.take(i + 1)));
        i += 1;
    }
    assert(ps.take(runtime_plugins.len() as int) =~= ps);
    let ghost head = material@;
    let mut j: usize = 0;
    assert(ds.take(0) =~= Seq::<(Seq<char>, Seq<char>)>::empty());
    assert(head + dependency_lines(ds.take(0)) =~= head);
    while j < deps.len()
        invariant
            j <= deps.len(),
            ds == deps.deep_view(),
            material@ == head + dependency_lines(ds.take(j as int)),
        decreases deps.len() - j,
    {
        let d = &deps[j];
        assert(ds.take(j + 1).drop_last() =~= ds.take(j as int));
        assert(ds.take(j + 1).last() == d.deep_view());
        material.append(d.name.as_str());
        material.append("=");
        material.append(d.version.as_str());
        material.append("\n");
        assert(material@ =~= head + dependency_lines(ds.take(j + 1)));
        j += 1;
    }
    assert(ds.take(deps.len() as int) =~= ds);
    assert(material@ =~= env_material(ps, ds));
    let bytes = utf8_bytes(material.as_str());
    let hash = fnv1a_64(&bytes);
    proof { lemma_hex_digits(hash as nat, 16); }
    hex_text(hash, 16)
}

/// The name a plugin kind has in stored JSON.
pub open spec fn plugin_type_name(t: PluginType) -> Seq<char> {
    match t {
        PluginType::Driver => "driver"@,
        PluginType::Controller => "controller"@,
    }
}

/// The name a plugin runtime has in stored JSON.
pub open spec fn plugin_runtime_name(r: PluginRuntime) -> Seq<char> {
    match r {
        PluginRuntime::Python => "python"@,
        PluginRuntime::RustNative => "rust_native"@,
    }
}

/// What an environment's metadata says of a plugin.
pub open spec fn plugin_metadata(p: PluginView) -> JsonView {
    JsonView::Object(seq![
        ("id"@, JsonView::String(p.id)),
        ("name"@, JsonView::String(p.name)),
        ("type"@, JsonView::String(plugin_type_name(p.plugin_type))),
        ("runtime"@, JsonView::String(plugin_runtime_name(p.runtime))),
        ("entry_class"@, JsonView::String(p.entry_class)),
    ])
}

/// What an environment's metadata says of a dependency of plugin `plugin_id`.
pub open spec fn dependency_metadata(plugin_id: Seq<char>, d: (Seq<char>, Seq<char>)) -> JsonView {
    JsonView::Object(seq![
        ("plugin_id"@, JsonView::String(plugin_id)),
        ("name"@, JsonView::String(d.0)),
        ("version"@, JsonView::String(d.1)),
    ])
}

/// What an environment's metadata says of the dependencies of one plugin.
pub open spec fn plugin_dependencies_metadata(p: PluginView) -> Seq<JsonView> {
    Seq::new(p.dependencies.len(), |k: int| dependency_metadata(p.id, p.dependencies[k]))
}

/// What an environment's metadata says of the dependencies of the plugins, in order.
pub open spec fn dependencies_metadata(ps: Seq<PluginView>) -> Seq<JsonView>
    decreases ps.len(),
{
    if ps.len() == 0 {
        Seq::empty()
    } else {
        dependencies_metadata(ps.drop_last()) + plugin_dependencies_metadata(ps.last())
    }
}

/// The metadata of the environment `env_hash` of the plugins: its hash, its
/// runtime, its plugins and their dependencies.
pub open spec fn environment_metadata_view(env_hash: Seq<char>, ps: Seq<PluginView>) -> JsonView {
    JsonView::Object(seq![
        ("env_hash"@, JsonView::String(env_hash)),
        ("runtime"@, JsonView::String("python"@)),
        ("plugins"@, JsonView::Array(Seq::new(ps.len(), |i: int| plugin_metadata(ps[i])))),
        ("dependencies"@, JsonView::Array(dependencies_metadata(ps))),
    ])
}

fn text_value(s: &str) -> (r: JsonValue)
    ensures
        r.deep_view() == JsonView::String(s@),
{
    JsonValue::String(String::from_str(s))
}

fn member_of_text(key: &str, value: &str) -> (r: JsonMember)
    ensures
        r.key@ == key@,
        r.value.deep_view() == JsonView::String(value@),
{
    JsonMember { key: String::from_str(key), value: text_value(value) }
}

fn object_of(members: Vec<JsonMember>) -> (r: JsonValue)
    ensures
        r.deep_view() == JsonView::Object(json_members(&members)),
{
    let r = JsonValue::Object(members);
    assert(r.deep_view()->Object_0 =~= json_members(&members));
    r
}

fn array_of(items: Vec<JsonValue>) -> (r: JsonValue)
    ensures
        r.deep_view() == JsonView::Array(Seq::new(items.len() as nat, |i: int| items@[i].deep_view())),
{
    let ghost v = Seq::new(items.len() as nat, |i: int| items@[i].deep_view());
    let r = JsonValue::Array(items);
    assert(r.deep_view()->Array_0 =~= v);
    r
}

fn plugin_type_text(t: PluginType) -> (r: &'static str)
    ensures
        r@ == plugin_type_name(t),
{
    match t {
        PluginType::Driver => "driver",
        PluginType::Controller => "controller",
    }
}

fn plugin_runtime_text(r: PluginRuntime) -> (s: &'static str)
    ensures
        s@ == plugin_runtime_name(r),
{
    match r {
        PluginRuntime::Python => "python",
        PluginRuntime::RustNative => "rust_native",
    }
}

/// The metadata of the environment `env_hash` of the plugins.
pub fn environment_metadata(env_hash: &str, runtime_plugins: &Vec<PluginRegistry>) -> (r: JsonValue)
    ensures
        r.deep_view() == environment_metadata_view(env_hash@, runtime_plugins.deep_view()),
{
    let ghost ps = runtime_plugins.deep_view();
    let mut plugins: Vec<JsonValue> = Vec::new();
    let mut deps: Vec<JsonValue> = Vec::new();
    let mut i: usize = 0;
    assert(ps.take(0) =~= Seq::<PluginView>::empty());
    while i < runtime_plugins.len()
        invariant
            i <= runtime_plugins.len(),
            ps == runtime_plugins.deep_view(),
            plugins.len() == i,
            forall|k: int| 0 <= k < i ==> (#[trigger] plugins@[k]).deep_view() == plugin_metadata(ps[k]),
            Seq::new(deps.len() as nat, |k: int| deps@[k].deep_view()) == dependencies_metadata(ps.take(i as int)),
        decreases runtime_plugins.len() - i,
    {
        let p = &runtime_plugins[i];
        assert(ps[i as int] == p.deep_view());
        let mut members: Vec<JsonMember> = Vec::new();
        members.push(member_of_text("id", p.id.as_str()));
        members.push(member_of_text("name", p.name.as_str()));
        members.push(member_of_text("type", plugin_type_text(p.plugin_type)));
        members.push(member_of_text("runtime", plugin_runtime_text(p.runtime)));
        members.push(member_of_text("entry_class", p.entry_class.as_str()));
        let entry = object_of(members);
        assert(entry.deep_view() == plugin_metadata(ps[i as int])) by {
            assert(json_members(&members) =~= plugin_metadata(ps[i as int])->Object_0);
        }
        plugins.push(entry);
        let ghost before = Seq::new(deps.len() as nat, |k: int| deps@[k].deep_view());
        let ghost start = deps.len();
        let mut j: usize = 0;
        while j < p.dependencies.len()
            invariant
                j <= p.dependencies.len(),
                deps.len() == start + j,
                forall|k: int| 0 <= k < start ==> (#[trigger] deps@[k]).deep_view() == before[k],
                forall|k: int| start <= k < start + j ==> (#[trigger] deps@[k]).deep_view()
                    == dependency_metadata(p.id@, p.dependencies@[k - start].deep_view()),
            decreases p.dependencies.len() - j,
        {
            let d = &p.dependencies[j];
            let mut dm: Vec<JsonMember> = Vec::new();
            dm.push(member_of_text("plugin_id", p.id.as_str()));
            dm.push(member_of_text("name", d.name.as_str()));
            dm.push(member_of_text("version", d.version.as_str()));
            let item = object_of(dm);
            assert(item.deep_view() == dependency_metadata(p.id@, d.deep_view())) by {
                assert(json_members(&dm) =~= dependency_metadata(p.id@, d.deep_view())->Object_0);
            }
            deps.push(item);
            j += 1;
        }
        assert(ps.take(i + 1).drop_last() =~= ps.take(i as int));
        assert(ps.take(i + 1).last() == p.deep_view());
        assert(before =~= dependencies_metadata(ps.take(i as int)));
        assert(before.len() == start);
        assert forall|k: int| 0 <= k < deps.len() implies (#[trigger] deps@[k]).deep_view()
            == (dependencies_metadata(ps.take(i as int)) + plugin_dependencies_metadata(p.deep_view()))[k] by {
            if k < start {
                assert(deps@[k].deep_view() == before[k]);
            } else {
                assert(p.deep_view().dependencies[k - start] == p.dependencies@[k - start].deep_view());
            }
        }
        assert(Seq::new(deps.len() as nat, |k: int| deps@[k].deep_view())
            =~= dependencies_metadata(ps.take(i as int)) + plugin_dependencies_metadata(p.deep_view()));
        i += 1;
    }
    assert(ps.take(runtime_plugins.len() as int) =~= ps);
    let plugins_value = array_of(plugins);
    let deps_value = array_of(deps);
    let mut members: Vec<JsonMember> = Vec::new();
    members.push(member_of_text("env_hash", env_hash));
    members.push(member_of_text("runtime", "python"));
    members.push(JsonMember { key: String::from_str("plugins"), value: plugins_value });
    members.push(JsonMember { key: String::from_str("dependencies"), value: deps_value });
    let r = object_of(members);
    assert(json_members(&members) =~= environment_metadata_view(env_hash@, ps)->Object_0) by {
        assert(members@[2].value.deep_view()->Array_0 =~= Seq::new(ps.len(), |k: int| plugin_metadata(ps[k])));
    }
    r
}

/// Whether a file must be written: when it is missing (`None`) or holds other
/// contents.
pub fn needs_write(existing: &Option<String>, contents: &str) -> (r: bool)
    ensures
        r == match existing {
            Some(e) => e@ != contents@,
            None => true,
        },
{
    match existing {
        Some(e) => {
            let c = String::from_str(contents);
            !(*e == c)
        },
        None => true,
    }
}

} // verus!
