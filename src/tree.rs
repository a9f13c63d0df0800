//! The destination tree of layer materialization, as the set of paths it
//! holds, and the layering of an image's layers onto it.
use vstd::prelude::*;
use vstd::string::StrSliceExecFns;
use vstd::string::StringExecFns;

use crate::image::{
    base_part, is_whiteout, is_whiteout_name, whiteout_of, whiteout_view, whiteouts_of, Unpacker, Whiteout,
};
use crate::image_config::strs;
use crate::paths::{prefixed, prefixed_destination};

verus! {

/// `p` is `d` or lies below it.
pub open spec fn under(p: Seq<char>, d: Seq<char>) -> bool {
    p == d || (p.len() > d.len() && p.take(d.len() as int) == d && p[d.len() as int] == '/')
}

/// The tree after one removal: a directory with all below it, or one path.
pub open spec fn remove_one(t: Set<Seq<char>>, w: (bool, Seq<char>)) -> Set<Seq<char>> {
    if w.0 {
        t.filter(|p: Seq<char>| !under(p, w.1))
    } else {
        t.remove(w.1)
    }
}

/// The tree after the removals `ws`, in order.
pub open spec fn remove_all(t: Set<Seq<char>>, ws: Seq<(bool, Seq<char>)>) -> Set<Seq<char>>
    decreases ws.len(),
{
    if ws.len() == 0 {
        t
    } else {
        remove_one(remove_all(t, ws.drop_last()), ws.last())
    }
}

/// The paths a layer's entries create under `dest`: those of every entry
/// that is not a whiteout.
pub open spec fn extracted(dest: Seq<char>, entries: Seq<Seq<char>>) -> Set<Seq<char>> {
    Set::new(
        |p: Seq<char>|
            exists|i: int|
                0 <= i < entries.len() && !is_whiteout_name(base_part(entries[i])) && p == prefixed(
                    dest,
                    entries[i],
                ),
    )
}

/// One layer applied to the tree: its whiteouts remove their targets, then
/// its other entries are extracted.
pub open spec fn layer_step(t: Set<Seq<char>>, dest: Seq<char>, entries: Seq<Seq<char>>) -> Set<
    Seq<char>,
> {
    remove_all(t, whiteouts_of(dest, entries)).union(extracted(dest, entries))
}

/// The layers applied one at a time, in order.
pub open spec fn layered(t: Set<Seq<char>>, dest: Seq<char>, layers: Seq<Seq<Seq<char>>>) -> Set<
    Seq<char>,
>
    decreases layers.len(),
{
    if layers.len() == 0 {
        t
    } else {
        layer_step(layered(t, dest, layers.drop_last()), dest, layers.last())
    }
}

/// The paths present in a destination directory.
pub struct Tree {
    paths: Vec<String>,
}

impl Tree {
    pub closed spec fn view(&self) -> Set<Seq<char>> {
        Set::new(|p: Seq<char>| strs(self.paths@).contains(p))
    }

    pub fn new() -> (r: Tree)
        ensures
            r.view() == Set::<Seq<char>>::empty(),
    {
        let r = Tree { paths: Vec::new() };
        assert(r.view() =~= Set::<Seq<char>>::empty());
        r
    }

    /// Whether `p` is present.
    pub fn contains(&self, p: &str) -> (r: bool)
        ensures
            r == self.view().contains(p@),
    {
        let mut i: usize = 0;
        while i < self.paths.len()
            invariant
                i <= self.paths@.len(),
                forall|j: int| 0 <= j < i ==> self.paths@[j]@ != p@,
            decreases self.paths@.len() - i,
        {
            let q = String::from_str(p);
            if self.paths[i] == q {
                assert(strs(self.paths@)[i as int] == p@);
                return true;
            }
            i = i + 1;
        }
        assert forall|j: int| 0 <= j < strs(self.paths@).len() implies strs(self.paths@)[j] != p@ by {
            assert(strs(self.paths@)[j] == self.paths@[j]@);
        }
        false
    }

    /// Adds `p`.
    pub fn add(&mut self, p: String)
        ensures
            final(self).view() == old(self).view().insert(p@),
    {
        let ghost o = strs(self.paths@);
        let ghost v = p@;
        self.paths.push(p);
        assert(strs(self.paths@) =~= o.push(v));
        assert forall|q: Seq<char>| #[trigger] self.view().contains(q) == old(self).view().insert(v).contains(q) by {
            let n = strs(self.paths@);
            if o.contains(q) {
                let j = choose|j: int| 0 <= j < o.len() && o[j] == q;
                assert(n[j] == q);
            }
            if q == v {
                assert(n[o.len() as int] == q);
            }
            if n.contains(q) && q != v {
                let j = choose|j: int| 0 <= j < n.len() && n[j] == q;
                assert(o[j] == q);
            }
        }
        assert(self.view() =~= old(self).view().insert(v));
    }

    /// Applies one removal.
    pub fn remove(&mut self, w: &Whiteout)
        ensures
            final(self).view() == remove_one(old(self).view(), whiteout_view(*w)),
    {
        let ghost o = strs(self.paths@);
        let (dir, target) = match w {
            Whiteout::RemoveDir(d) => (true, d.as_str()),
            Whiteout::RemoveFile(f) => (false, f.as_str()),
        };
        let mut kept: Vec<String> = Vec::new();
        let mut i: usize = 0;
        while i < self.paths.len()
            invariant
                i <= self.paths@.len(),
                o == strs(self.paths@),
                forall|p: Seq<char>|
                    strs(kept@).contains(p) <==> (exists|j: int|
                        0 <= j < i && o[j] == p && !gone(dir, target@, p)),
            decreases self.paths@.len() - i,
        {
            let x = &self.paths[i];
            let drop = if dir {
                is_under(x.as_str(), target)
            } else {
                *x == String::from_str(target)
            };
            let ghost ko = strs(kept@);
            if !drop {
                kept.push(x.clone());
                assert(strs(kept@) =~= ko.push(o[i as int]));
            }
            assert forall|p: Seq<char>|
                strs(kept@).contains(p) <==> (exists|j: int|
                    0 <= j < i + 1 && o[j] == p && !gone(dir, target@, p)) by {
                if strs(kept@).contains(p) {
                    if ko.contains(p) {
                        let j = choose|j: int| 0 <= j < i && o[j] == p && !gone(dir, target@, p);
                    } else {
                        assert(o[i as int] == p);
                    }
                }
                if exists|j: int| 0 <= j < i + 1 && o[j] == p && !gone(dir, target@, p) {
                    let j = choose|j: int| 0 <= j < i + 1 && o[j] == p && !gone(dir, target@, p);
                    if j < i {
                        assert(ko.contains(p));
                        let k = choose|k: int| 0 <= k < ko.len() && ko[k] == p;
                        assert(strs(kept@)[k] == p);
                    } else {
                        assert(strs(kept@)[strs(kept@).len() - 1] == p);
                    }
                }
            }
            i = i + 1;
        }
        self.paths = kept;
        assert(self.view() =~= remove_one(old(self).view(), whiteout_view(*w))) by {
            assert forall|p: Seq<char>| #[trigger] self.view().contains(p) == remove_one(old(self).view(), whiteout_view(*w)).contains(p) by {
                if exists|j: int| 0 <= j < o.len() && o[j] == p && !gone(dir, target@, p) {
                    let j = choose|j: int| 0 <= j < o.len() && o[j] == p && !gone(dir, target@, p);
                    assert(old(self).view().contains(p));
                }
                if old(self).view().contains(p) && !gone(dir, target@, p) {
                    let j = choose|j: int| 0 <= j < o.len() && o[j] == p;
                }
            }
        }
    }
}


/// `p` goes with the removal of `target` (a directory when `dir`).
pub open spec fn gone(dir: bool, target: Seq<char>, p: Seq<char>) -> bool {
    if dir {
        under(p, target)
    } else {
        p == target
    }
}

fn is_under(p: &str, d: &str) -> (r: bool)
    ensures
        r == under(p@, d@),
{
    let n = p.unicode_len();
    let m = d.unicode_len();
    if n < m {
        return false;
    }
    let mut i: usize = 0;
    while i < m
        invariant
            i <= m <= n,
            n == p@.len(),
            m == d@.len(),
            forall|j: int| 0 <= j < i ==> p@[j] == d@[j],
        decreases m - i,
    {
        if p.get_char(i) != d.get_char(i) {
            assert(p@ != d@);
            assert(p@.take(m as int)[i as int] != d@[i as int]);
            return false;
        }
        i = i + 1;
    }
    assert(p@.take(m as int) =~= d@);
    if n == m {
        assert(p@ =~= d@);
        return true;
    }
    p.get_char(m) == '/'
}

pub open spec fn layers_view(layers: Seq<Vec<String>>) -> Seq<Seq<Seq<char>>> {
    layers.map_values(|l: Vec<String>| strs(l@))
}

impl Unpacker {
    /// Applies one layer, given by its entries, to the destination tree:
    /// first the removals its whiteouts ask for, then its other entries.
    pub fn apply_layer(&self, tree: &mut Tree, entries: &Vec<String>)
        ensures
            final(tree).view() == layer_step(old(tree).view(), self.spec_destination(), strs(entries@)),
    {
        let ghost t0 = tree.view();
        let ghost dest = self.spec_destination();
        let ghost es = strs(entries@);
        let ws = self.handle_whiteouts(entries);
        let ghost wv = ws@.map_values(|w: Whiteout| whiteout_view(w));
        let mut k: usize = 0;
        assert(wv.take(0) =~= Seq::<(bool, Seq<char>)>::empty());
        while k < ws.len()
            invariant
                k <= ws@.len(),
                wv == ws@.map_values(|w: Whiteout| whiteout_view(w)),
                wv == whiteouts_of(dest, es),
                tree.view() == remove_all(t0, wv.take(k as int)),
            decreases ws@.len() - k,
        {
            tree.remove(&ws[k]);
            assert(wv.take(k as int + 1).drop_last() =~= wv.take(k as int));
            assert(wv.take(k as int + 1).last() == whiteout_view(ws@[k as int]));
            k = k + 1;
        }
        assert(wv.take(k as int) =~= wv);
        let ghost removed = tree.view();
        let mut i: usize = 0;
        assert(extracted(dest, es.take(0)) =~= Set::<Seq<char>>::empty());
        assert(removed.union(Set::<Seq<char>>::empty()) =~= removed);
        while i < entries.len()
            invariant
                i <= entries@.len(),
                es == strs(entries@),
                dest == self.spec_destination(),
                tree.view() == removed.union(extracted(dest, es.take(i as int))),
            decreases entries@.len() - i,
        {
            let ghost before = extracted(dest, es.take(i as int));
            let ghost e = es[i as int];
            assert(e == entries@[i as int]@);
            if !is_whiteout(entries[i].as_str()) {
                tree.add(prefixed_destination(self.destination().as_str(), entries[i].as_str()));
                assert(extracted(dest, es.take(i as int + 1)) =~= before.insert(prefixed(dest, e))) by {
                    assert forall|p: Seq<char>| #[trigger] extracted(dest, es.take(i as int + 1)).contains(p)
                        == before.insert(prefixed(dest, e)).contains(p) by {
                        let s1 = es.take(i as int + 1);
                        if extracted(dest, s1).contains(p) {
                            let j = choose|j: int| 0 <= j < s1.len() && !is_whiteout_name(base_part(s1[j])) && p == prefixed(dest, s1[j]);
                            if j < i {
                                assert(es.take(i as int)[j] == s1[j]);
                            }
                        }
                        if before.contains(p) {
                            let j = choose|j: int| 0 <= j < i && !is_whiteout_name(base_part(es.take(i as int)[j])) && p == prefixed(dest, es.take(i as int)[j]);
                            assert(s1[j] == es.take(i as int)[j]);
                        }
                        if p == prefixed(dest, e) {
                            assert(s1[i as int] == e);
                        }
                    }
                }
                assert(tree.view() =~= removed.union(extracted(dest, es.take(i as int + 1))));
            } else {
                assert(extracted(dest, es.take(i as int + 1)) =~= before) by {
                    assert forall|p: Seq<char>| #[trigger] extracted(dest, es.take(i as int + 1)).contains(p)
                        == before.contains(p) by {
                        let s1 = es.take(i as int + 1);
                        if extracted(dest, s1).contains(p) {
                            let j = choose|j: int| 0 <= j < s1.len() && !is_whiteout_name(base_part(s1[j])) && p == prefixed(dest, s1[j]);
                            assert(j != i);
                            assert(es.take(i as int)[j] == s1[j]);
                        }
                        if before.contains(p) {
                            let j = choose|j: int| 0 <= j < i && !is_whiteout_name(base_part(es.take(i as int)[j])) && p == prefixed(dest, es.take(i as int)[j]);
                            assert(s1[j] == es.take(i as int)[j]);
                        }
                    }
                }
            }
            i = i + 1;
        }
        assert(es.take(i as int) =~= es);
    }

    /// Applies an image's layers to the destination tree, one at a time
    /// in order.
    pub fn unpack_layers(&self, tree: &mut Tree, layers: &Vec<Vec<String>>)
        ensures
            final(tree).view() == layered(old(tree).view(), self.spec_destination(), layers_view(layers@)),
    {
        let ghost t0 = tree.view();
        let ghost ls = layers_view(layers@);
        let mut i: usize = 0;
        assert(ls.take(0) =~= Seq::<Seq<Seq<char>>>::empty());
        while i < layers.len()
            invariant
                i <= layers@.len(),
                ls == layers_view(layers@),
                tree.view() == layered(t0, self.spec_destination(), ls.take(i as int)),
            decreases layers@.len() - i,
        {
            self.apply_layer(tree, &layers[i]);
            assert(ls.take(i as int + 1).drop_last() =~= ls.take(i as int));
            assert(ls.take(i as int + 1).last() == strs(layers@[i as int]@));
            i = i + 1;
        }
        assert(ls.take(i as int) =~= ls);
    }
}

/// The removal `w` takes `p` away.
pub open spec fn removes(w: Option<(bool, Seq<char>)>, p: Seq<char>) -> bool {
    match w {
        Some(x) => gone(x.0, x.1, p),
        None => false,
    }
}

proof fn lemma_remove_all_gone(t: Set<Seq<char>>, ws: Seq<(bool, Seq<char>)>, i: int, p: Seq<char>)
    requires
        0 <= i < ws.len(),
        gone(ws[i].0, ws[i].1, p),
    ensures
        !remove_all(t, ws).contains(p),
    decreases ws.len(),
{
    if i < ws.len() - 1 {
        assert(ws.drop_last()[i] == ws[i]);
        lemma_remove_all_gone(t, ws.drop_last(), i, p);
    }
}

proof fn lemma_remove_all_subset(t: Set<Seq<char>>, ws: Seq<(bool, Seq<char>)>, p: Seq<char>)
    ensures
        remove_all(t, ws).contains(p) ==> t.contains(p),
    decreases ws.len(),
{
    if ws.len() > 0 {
        lemma_remove_all_subset(t, ws.drop_last(), p);
    }
}

proof fn lemma_whiteout_listed(dest: Seq<char>, entries: Seq<Seq<char>>, i: int)
    requires
        0 <= i < entries.len(),
        whiteout_of(dest, entries[i]) is Some,
    ensures
        exists|j: int|
            0 <= j < whiteouts_of(dest, entries).len() && whiteouts_of(dest, entries)[j]
                == whiteout_of(dest, entries[i])->0,
    decreases entries.len(),
{
    let r = whiteouts_of(dest, entries.drop_last());
    if i == entries.len() - 1 {
        assert(whiteouts_of(dest, entries)[r.len() as int] == whiteout_of(dest, entries[i])->0);
    } else {
        assert(entries.drop_last()[i] == entries[i]);
        lemma_whiteout_listed(dest, entries.drop_last(), i);
        let j = choose|j: int| 0 <= j < r.len() && r[j] == whiteout_of(dest, entries[i])->0;
        assert(whiteouts_of(dest, entries)[j] == r[j]);
    }
}

/// A whiteout entry of a layer takes its target (`.wh.<name>`: the sibling
/// `<name>`; the opaque marker: its directory with all below it) out of the
/// tree; only an entry of the same layer that creates the path again
/// brings it back. The whiteout's own path is not extracted either: it is
/// absent afterwards unless it was there before or another entry creates it.
pub proof fn lemma_whiteout_removes_target(
    t: Set<Seq<char>>,
    dest: Seq<char>,
    entries: Seq<Seq<char>>,
    i: int,
)
    requires
        0 <= i < entries.len(),
        whiteout_of(dest, entries[i]) is Some,
    ensures
        forall|p: Seq<char>|
            removes(whiteout_of(dest, entries[i]), p)
                && !extracted(dest, entries).contains(p) ==> !layer_step(t, dest, entries).contains(p),
        ({
            let own = prefixed(dest, entries[i]);
            (!t.contains(own) && !extracted(dest, entries).contains(own)) ==> !layer_step(
                t,
                dest,
                entries,
            ).contains(own)
        }),
        !extracted(dest, entries).contains(prefixed(dest, entries[i])) || exists|j: int|
            0 <= j < entries.len() && !is_whiteout_name(base_part(entries[j])) && prefixed(
                dest,
                entries[j],
            ) == prefixed(dest, entries[i]),
{
    let ws = whiteouts_of(dest, entries);
    lemma_whiteout_listed(dest, entries, i);
    let j = choose|j: int| 0 <= j < ws.len() && ws[j] == whiteout_of(dest, entries[i])->0;
    assert forall|p: Seq<char>|
        removes(whiteout_of(dest, entries[i]), p)
            && !extracted(dest, entries).contains(p) implies !layer_step(t, dest, entries).contains(p) by {
        lemma_remove_all_gone(t, ws, j, p);
    }
    lemma_remove_all_subset(t, ws, prefixed(dest, entries[i]));
}

/// Unpacking layers `a` and then layers `b` is unpacking `a + b`: the
/// layers go onto the tree one at a time, each after the one before.
pub proof fn lemma_layered_concat(
    t: Set<Seq<char>>,
    dest: Seq<char>,
    a: Seq<Seq<Seq<char>>>,
    b: Seq<Seq<Seq<char>>>,
)
    ensures
        layered(t, dest, a + b) == layered(layered(t, dest, a), dest, b),
    decreases b.len(),
{
    if b.len() == 0 {
        assert(a + b =~= a);
    } else {
        assert((a + b).drop_last() =~= a + b.drop_last());
        assert((a + b).last() == b.last());
        lemma_layered_concat(t, dest, a, b.drop_last());
    }
}

} // verus!
