//! Placing paths taken from a runtime configuration under a container's
//! root filesystem.
use vstd::prelude::*;
use vstd::string::StrSliceExecFns;
use vstd::string::StringExecFns;

use crate::text::{lemma_split_nonempty, split};

verus! {

/// A path component that names an entry: not empty, `.` or `..`.
pub open spec fn is_normal(c: Seq<char>) -> bool {
    c.len() > 0 && c != seq!['.'] && c != seq!['.', '.']
}

/// `base` with `c` appended as its last component.
pub open spec fn push_component(base: Seq<char>, c: Seq<char>) -> Seq<char> {
    if base.len() == 0 || base.last() == '/' {
        base + c
    } else {
        base + seq!['/'] + c
    }
}

/// `base` with the normal components among `comps` appended in order.
pub open spec fn push_normal(base: Seq<char>, comps: Seq<Seq<char>>) -> Seq<char>
    decreases comps.len(),
{
    if comps.len() == 0 {
        base
    } else {
        let b = push_normal(base, comps.drop_last());
        if is_normal(comps.last()) {
            push_component(b, comps.last())
        } else {
            b
        }
    }
}

/// `destination` placed under `rootfs`: only its normal components are kept,
/// so `..`, `.` and a leading `/` cannot lead out of `rootfs`.
pub open spec fn prefixed(rootfs: Seq<char>, destination: Seq<char>) -> Seq<char> {
    push_normal(rootfs, split(destination, '/'))
}

/// Whatever is appended, the result starts with `base`.
pub proof fn lemma_push_normal_extends(base: Seq<char>, comps: Seq<Seq<char>>)
    ensures
        push_normal(base, comps).len() >= base.len(),
        push_normal(base, comps).take(base.len() as int) == base,
    decreases comps.len(),
{
    if comps.len() > 0 {
        let b = push_normal(base, comps.drop_last());
        lemma_push_normal_extends(base, comps.drop_last());
        if is_normal(comps.last()) {
            let r = push_component(b, comps.last());
            assert(r.take(b.len() as int) =~= b);
            assert(r.take(base.len() as int) =~= b.take(base.len() as int));
        }
    }
}

fn is_normal_str(c: &str) -> (r: bool)
    ensures
        r == is_normal(c@),
{
    let n = c.unicode_len();
    if n == 0 {
        return false;
    }
    if n == 1 {
        let a = c.get_char(0);
        assert(c@ == seq!['.'] ==> c@[0] == '.');
        if a == '.' {
            assert(c@ =~= seq!['.']);
        }
        return a != '.';
    }
    if n == 2 {
        let a = c.get_char(0);
        let b = c.get_char(1);
        assert(c@ == seq!['.', '.'] ==> c@[0] == '.' && c@[1] == '.');
        if a == '.' && b == '.' {
            assert(c@ =~= seq!['.', '.']);
        }
        return !(a == '.' && b == '.');
    }
    true
}

fn append_component(out: &mut String, c: &str)
    ensures
        final(out)@ == push_component(old(out)@, c@),
{
    let n = out.as_str().unicode_len();
    if n == 0 {
        out.append(c);
    } else if out.as_str().get_char(n - 1) == '/' {
        out.append(c);
    } else {
        out.append("/");
        proof {
            reveal_strlit("/");
        }
        out.append(c);
        assert(final(out)@ =~= old(out)@ + seq!['/'] + c@);
    }
}

/// Places a configuration path under the container's root filesystem,
/// dropping `..`, `.` and separators so the result stays inside it.
pub fn prefixed_destination(rootfs: &str, destination: &str) -> (r: String)
    ensures
        r@ == prefixed(rootfs@, destination@),
{
    let mut out = String::from_str(rootfs);
    let n = destination.unicode_len();
    let ghost d = destination@;
    let ghost mut segs: Seq<Seq<char>> = seq![];
    let mut start: usize = 0;
    let mut i: usize = 0;
    assert(d.take(0) =~= Seq::<char>::empty());
    while i < n
        invariant
            n == d.len(),
            d == destination@,
            start <= i <= n,
            split(d.take(i as int), '/') == segs.push(d.subrange(start as int, i as int)),
            out@ == push_normal(rootfs@, segs),
        decreases n - i,
    {
        let ghost prev = d.take(i as int);
        assert(d.take(i as int + 1).drop_last() =~= prev);
        proof {
            lemma_split_nonempty(prev, '/');
        }
        if destination.get_char(i) == '/' {
            let seg = destination.substring_char(start, i);
            let ghost cur = d.subrange(start as int, i as int);
            if is_normal_str(seg) {
                append_component(&mut out, seg);
            }
            let ghost old_segs = segs;
            proof {
                segs = segs.push(cur);
            }
            assert(segs.drop_last() =~= old_segs);
            assert(segs.last() == cur);
            assert(push_normal(rootfs@, segs) == if is_normal(cur) { push_component(push_normal(rootfs@, segs.drop_last()), cur) } else { push_normal(rootfs@, segs.drop_last()) });
            start = i + 1;
            assert(d.subrange(start as int, i as int + 1) =~= Seq::<char>::empty());
            assert(split(d.take(i as int + 1), '/') =~= segs.push(Seq::<char>::empty()));
        } else {
            assert(d.subrange(start as int, i as int + 1) =~= d.subrange(start as int, i as int).push(d[i as int]));
            assert(split(d.take(i as int + 1), '/') =~= segs.push(d.subrange(start as int, i as int + 1)));
        }
        i = i + 1;
    }
    assert(d.take(n as int) =~= d);
    let seg = destination.substring_char(start, n);
    let ghost cur = d.subrange(start as int, n as int);
    if is_normal_str(seg) {
        append_component(&mut out, seg);
    }
    let ghost all = segs.push(cur);
    assert(all.drop_last() =~= segs);
    out
}

/// A path placed under `rootfs` stays inside it: it starts with `rootfs`,
/// so under an absolute `rootfs` it is absolute too.
pub proof fn lemma_prefixed_inside(rootfs: Seq<char>, destination: Seq<char>)
    ensures
        prefixed(rootfs, destination).len() >= rootfs.len(),
        prefixed(rootfs, destination).take(rootfs.len() as int) == rootfs,
        rootfs.len() > 0 && rootfs[0] == '/' ==> prefixed(rootfs, destination)[0] == '/',
{
    lemma_push_normal_extends(rootfs, split(destination, '/'));
    if rootfs.len() > 0 {
        assert(prefixed(rootfs, destination)[0] == prefixed(rootfs, destination).take(rootfs.len() as int)[0]);
    }
}

} // verus!
