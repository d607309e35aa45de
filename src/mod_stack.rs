//! Reordering the mod stack of an instance. The stack keeps `base` first and
//! `overwrite` last, every name once, and a name-to-position cache that is
//! rebuilt after every change.
use vstd::prelude::*;
use crate::game_instance::{resolve_path, GameIdentifier, GameInstance, GameInstanceConfig, GameInstancePaths, CaseFoldingConfig, DownloadsConfig, InstanceExecutable};
use crate::instance_mod::{deletion_allowed, is_anchor_name, remove_all, version_path, InstanceMod, ModInfo};
use crate::text::{push_path, push_path_str};

verus! {

/// No two entries share a name.
pub open spec fn names_unique(mods: Seq<InstanceMod>) -> bool {
    forall|i: int, j: int| 0 <= i < j < mods.len() ==> (#[trigger] mods[i]).name@ != (#[trigger] mods[j]).name@
}

/// The stack invariant: at least the two anchors, `base` first, `overwrite`
/// last, unique names, positions that fit in `u32`.
pub open spec fn stack_wf(mods: Seq<InstanceMod>) -> bool {
    &&& 2 <= mods.len() <= u32::MAX
    &&& mods[0].name@ == "base"@
    &&& mods.last().name@ == "overwrite"@
    &&& names_unique(mods)
}

/// Each entry's name with its position.
pub open spec fn index_cache(mods: Seq<InstanceMod>) -> Seq<(Seq<char>, u32)> {
    Seq::new(mods.len(), |i: int| (mods[i].name@, i as u32))
}

/// Position of the first entry named `name`, or -1.
pub open spec fn find_name(mods: Seq<InstanceMod>, name: Seq<char>) -> int
    decreases mods.len(),
{
    if mods.len() == 0 {
        -1
    } else if mods[0].name@ == name {
        0
    } else {
        let r = find_name(mods.drop_first(), name);
        if r < 0 {
            -1
        } else {
            r + 1
        }
    }
}

/// The entry at `i` taken out and put back at `j`.
pub open spec fn moved(mods: Seq<InstanceMod>, i: int, j: int) -> Seq<InstanceMod> {
    mods.remove(i).insert(j, mods[i])
}

/// `base` put first, then `overwrite` put last.
pub open spec fn reseated(mods: Seq<InstanceMod>) -> Seq<InstanceMod> {
    let b = find_name(mods, "base"@);
    let s1 = moved(mods, b, 0);
    let o = find_name(s1, "overwrite"@);
    s1.remove(o).push(s1[o])
}

/// Where a single move puts the entry: position 0 counts as 1, the last
/// position as the one before it, and nothing past the end.
pub open spec fn clamped_target(len: int, target: int) -> int {
    let t0 = if target == 0 {
        1
    } else {
        target
    };
    let t1 = if t0 == len - 1 {
        len - 2
    } else {
        t0
    };
    if t1 > len - 1 {
        len - 1
    } else {
        t1
    }
}

/// The stack after moving the entry at `index` to `target`.
pub open spec fn move_result(mods: Seq<InstanceMod>, index: int, target: int) -> Seq<InstanceMod> {
    if mods.len() < 2 || index == target {
        mods
    } else {
        reseated(moved(mods, index, clamped_target(mods.len() as int, target)))
    }
}

impl GameInstance {
    /// The stack invariant, with the cache up to date.
    pub open spec fn wf(&self) -> bool {
        &&& stack_wf(self.mods@)
        &&& self.mods_indexes.deep_view() == index_cache(self.mods@)
    }
}

pub proof fn lemma_find_name(mods: Seq<InstanceMod>, name: Seq<char>, k: int)
    requires
        0 <= k < mods.len(),
        mods[k].name@ == name,
    ensures
        0 <= find_name(mods, name) <= k,
        mods[find_name(mods, name)].name@ == name,
        names_unique(mods) ==> find_name(mods, name) == k,
    decreases mods.len(),
{
    if mods[0].name@ != name {
        lemma_find_name(mods.drop_first(), name, k - 1);
    }
}

/// Position in `mods` of the entry at `k` of `moved(mods, i, j)`.
pub open spec fn moved_source(i: int, j: int, k: int) -> int {
    if k == j {
        i
    } else {
        let t = if k < j {
            k
        } else {
            k - 1
        };
        if t < i {
            t
        } else {
            t + 1
        }
    }
}

/// Position in `moved(mods, i, j)` of the entry at `m` of `mods`.
pub open spec fn moved_dest(i: int, j: int, m: int) -> int {
    if m == i {
        j
    } else {
        let t = if m < i {
            m
        } else {
            m - 1
        };
        if t < j {
            t
        } else {
            t + 1
        }
    }
}

pub proof fn lemma_moved(mods: Seq<InstanceMod>, i: int, j: int)
    requires
        0 <= i < mods.len(),
        0 <= j < mods.len(),
    ensures
        moved(mods, i, j).len() == mods.len(),
        forall|k: int| 0 <= k < mods.len() ==> 0 <= #[trigger] moved_source(i, j, k) < mods.len()
            && moved(mods, i, j)[k] == mods[moved_source(i, j, k)],
        forall|m: int| 0 <= m < mods.len() ==> 0 <= #[trigger] moved_dest(i, j, m) < mods.len()
            && moved(mods, i, j)[moved_dest(i, j, m)] == mods[m],
        names_unique(mods) ==> names_unique(moved(mods, i, j)),
{
    let r = moved(mods, i, j);
    assert forall|a: int, b: int| 0 <= a < b < r.len() && names_unique(mods) implies (#[trigger] r[a]).name@
        != (#[trigger] r[b]).name@ by {
        let sa = moved_source(i, j, a);
        let sb = moved_source(i, j, b);
        assert(sa != sb);
        if sa < sb {
            assert(mods[sa].name@ != mods[sb].name@);
        } else {
            assert(mods[sb].name@ != mods[sa].name@);
        }
    }
}

proof fn lemma_reseated_wf(mods: Seq<InstanceMod>, pb: int, po: int)
    requires
        2 <= mods.len() <= u32::MAX,
        names_unique(mods),
        0 <= pb < mods.len() && mods[pb].name@ == "base"@,
        0 <= po < mods.len() && mods[po].name@ == "overwrite"@,
    ensures
        stack_wf(reseated(mods)),
        reseated(mods).len() == mods.len(),
{
    lemma_find_name(mods, "base"@, pb);
    let b = find_name(mods, "base"@);
    lemma_moved(mods, b, 0);
    let s1 = moved(mods, b, 0);
    lemma_find_name(s1, "overwrite"@, moved_dest(b, 0, po));
    let o = find_name(s1, "overwrite"@);
    assert(s1[0].name@ == "base"@);
    reveal_strlit("base");
    reveal_strlit("overwrite");
    assert("base"@[0] != "overwrite"@[0]);
    assert("base"@ != "overwrite"@);
    assert(s1[o].name@ == "overwrite"@);
    assert(o != 0);
    let s2 = s1.remove(o).push(s1[o]);
    assert(s2 =~= moved(s1, o, s1.len() - 1));
    lemma_moved(s1, o, s1.len() - 1);
}

proof fn lemma_batch_position(mods: Seq<InstanceMod>, indexes: Seq<u32>, target: int, k: int)
    requires
        stack_wf(mods),
        0 <= target,
        0 <= k < batch_picked(mods, indexes, mods.len() as int).len(),
    ensures
        ({
            let f = batch_result(mods, indexes, target);
            let p = find_name(f, batch_picked(mods, indexes, mods.len() as int)[k].name@);
            0 <= p < f.len() && p <= u32::MAX && f[p] == batch_picked(mods, indexes, mods.len() as int)[k]
        }),
{
    let len = mods.len() as int;
    lemma_batch_split(mods, indexes, len);
    lemma_batch_order_wf(mods, indexes, target);
    let picked = batch_picked(mods, indexes, len);
    let rest = batch_rest(mods, indexes, len);
    let t = batch_target(len, target, rest.len() as int);
    let mid = batch_order(mods, indexes, target);
    assert(mid[t + k] == picked[k]);
    let pb = choose|q: int| 0 <= q < mid.len() && (#[trigger] mid[q]).name@ == "base"@;
    let po = choose|q: int| 0 <= q < mid.len() && (#[trigger] mid[q]).name@ == "overwrite"@;
    lemma_reseat_dest(mid, pb, po, t + k);
    lemma_reseated_wf(mid, pb, po);
    let f = reseated(mid);
    lemma_find_name(f, picked[k].name@, reseat_dest(mid, t + k));
}

impl GameInstance {
    /// Rebuilds the name-to-position cache from the stack.
    pub fn rebuild_mods_order(&mut self)
        requires
            old(self).mods@.len() <= u32::MAX,
        ensures
            final(self).mods == old(self).mods,
            final(self).config == old(self).config,
            final(self).mods_indexes.deep_view() == index_cache(final(self).mods@),
    {
        let mut cache: Vec<(String, u32)> = Vec::new();
        let mut i: usize = 0;
        while i < self.mods.len()
            invariant
                i <= self.mods.len() <= u32::MAX,
                cache@.len() == i,
                cache.deep_view() == index_cache(self.mods@).subrange(0, i as int),
            decreases self.mods.len() - i,
        {
            let entry = (self.mods[i].name.clone(), i as u32);
            let ghost expected = index_cache(self.mods@)[i as int];
            assert(entry.deep_view() == expected);
            let ghost before = cache@;
            cache.push(entry);
            assert(cache@[i as int].deep_view() == expected);
            assert(cache.deep_view()[i as int] == expected);
            i = i + 1;
            assert(cache.deep_view() =~= index_cache(self.mods@).subrange(0, i as int));
        }
        assert(index_cache(self.mods@).subrange(0, i as int) =~= index_cache(self.mods@));
        self.mods_indexes = cache;
    }

    fn position_of(&self, name: &str) -> (r: usize)
        requires
            exists|k: int| 0 <= k < self.mods@.len() && (#[trigger] self.mods@[k]).name@ == name@,
        ensures
            r == find_name(self.mods@, name@),
            r < self.mods@.len(),
            self.mods@[r as int].name@ == name@,
    {
        let ghost k = choose|k: int| 0 <= k < self.mods@.len() && (#[trigger] self.mods@[k]).name@ == name@;
        proof {
            lemma_find_name(self.mods@, name@, k);
        }
        let target = String::from_str(name);
        let mut i: usize = 0;
        while i < self.mods.len()
            invariant
                i <= self.mods.len(),
                0 <= find_name(self.mods@, name@) < self.mods@.len(),
                target@ == name@,
                forall|m: int| 0 <= m < i ==> self.mods@[m].name@ != name@,
            decreases self.mods.len() - i,
        {
            if self.mods[i].name == target {
                proof {
                    lemma_find_name(self.mods@, name@, i as int);
                }
                return i;
            }
            i = i + 1;
        }
        proof {
            let f = find_name(self.mods@, name@);
            assert(self.mods@[f].name@ == name@);
        }
        0
    }

    /// Puts `base` first and `overwrite` last, keeping the order of the rest.
    pub fn reseat_static_mods(&mut self)
        requires
            exists|k: int| 0 <= k < old(self).mods@.len() && (#[trigger] old(self).mods@[k]).name@ == "base"@,
            exists|k: int| 0 <= k < old(self).mods@.len() && (#[trigger] old(self).mods@[k]).name@ == "overwrite"@,
        ensures
            final(self).mods@ == reseated(old(self).mods@),
            final(self).config == old(self).config,
            final(self).mods_indexes == old(self).mods_indexes,
    {
        let ghost s = self.mods@;
        let b = self.position_of("base");
        let base = self.mods.remove(b);
        self.mods.insert(0, base);
        proof {
            let pb = b as int;
            lemma_moved(s, pb, 0);
            let ko = choose|k: int| 0 <= k < s.len() && (#[trigger] s[k]).name@ == "overwrite"@;
            assert(self.mods@[moved_dest(pb, 0, ko)].name@ == "overwrite"@);
        }
        let o = self.position_of("overwrite");
        let entry = self.mods.remove(o);
        self.mods.push(entry);
    }

    /// Moves the entry at `mod_index` to `target_index`, clamped so that the
    /// anchors keep their places; nothing happens on a stack of fewer than two
    /// entries or when the two positions are equal.
    pub fn move_mod_by_index(&mut self, mod_index: u32, target_index: u32)
        requires
            old(self).wf(),
            mod_index < old(self).mods@.len() || mod_index == target_index,
        ensures
            final(self).wf(),
            final(self).mods@ == move_result(old(self).mods@, mod_index as int, target_index as int),
            final(self).config == old(self).config,
    {
        let len = self.mods.len();
        if len < 2 || mod_index == target_index {
            return;
        }
        let ghost s = self.mods@;
        let mut target = target_index;
        if target == 0 {
            target = 1;
        }
        if target as usize == len - 1 {
            target = (len - 2) as u32;
        }
        let entry = self.mods.remove(mod_index as usize);
        if target as usize > self.mods.len() {
            target = self.mods.len() as u32;
        }
        self.mods.insert(target as usize, entry);
        proof {
            let t = clamped_target(s.len() as int, target_index as int);
            assert(target == t);
            lemma_moved(s, mod_index as int, t);
            let m = moved(s, mod_index as int, t);
            assert(self.mods@ == m);
            let last = s.len() - 1;
            assert(m[moved_dest(mod_index as int, t, 0)].name@ == "base"@);
            assert(m[moved_dest(mod_index as int, t, last)].name@ == "overwrite"@);
            lemma_reseated_wf(m, moved_dest(mod_index as int, t, 0), moved_dest(mod_index as int, t, last));
        }
        self.reseat_static_mods();
        self.rebuild_mods_order();
    }
}

proof fn lemma_reseated_identity(mods: Seq<InstanceMod>)
    requires
        stack_wf(mods),
    ensures
        reseated(mods) == mods,
{
    lemma_find_name(mods, "base"@, 0);
    let s1 = moved(mods, 0, 0);
    assert(s1 =~= mods);
    let last = mods.len() - 1;
    lemma_find_name(mods, "overwrite"@, last);
    assert(mods.remove(last).push(mods[last]) =~= mods);
}

/// Moving an entry other than the anchors to position 0 puts it at 1, and
/// moving it to the last position puts it just before `overwrite`.
pub proof fn lemma_move_to_ends_clamps(mods: Seq<InstanceMod>, index: int)
    requires
        stack_wf(mods),
        1 <= index <= mods.len() - 2,
    ensures
        move_result(mods, index, 0)[1] == mods[index],
        move_result(mods, index, mods.len() - 1)[mods.len() - 2] == mods[index],
{
    let len = mods.len() as int;
    let t0 = clamped_target(len, 0);
    let t1 = clamped_target(len, len - 1);
    assert(t0 == 1);
    assert(t1 == len - 2);
    lemma_moved(mods, index, t0);
    lemma_moved(mods, index, t1);
    let m0 = moved(mods, index, t0);
    let m1 = moved(mods, index, t1);
    assert(moved_dest(index, t0, 0) == 0);
    assert(moved_dest(index, t0, len - 1) == len - 1);
    assert(moved_dest(index, t1, 0) == 0);
    assert(moved_dest(index, t1, len - 1) == len - 1);
    assert(m0[0] == mods[0]);
    assert(m0[len - 1] == mods[len - 1]);
    assert(m1[0] == mods[0]);
    assert(m1[len - 1] == mods[len - 1]);
    lemma_reseated_identity(m0);
    lemma_reseated_identity(m1);
    assert(moved_dest(index, t0, index) == 1);
    assert(moved_dest(index, t1, index) == len - 2);
}

/// Position `k` takes part in a batch move: it is listed, it lies in the
/// stack, and it is not the last position.
pub open spec fn in_batch(indexes: Seq<u32>, len: int, k: int) -> bool {
    0 <= k < len - 1 && indexes.contains(k as u32)
}

/// The entries among the first `n` that take part in the batch, in stack order.
pub open spec fn batch_picked(mods: Seq<InstanceMod>, indexes: Seq<u32>, n: int) -> Seq<InstanceMod>
    decreases n,
{
    if n <= 0 {
        Seq::empty()
    } else {
        let p = batch_picked(mods, indexes, n - 1);
        if in_batch(indexes, mods.len() as int, n - 1) {
            p.push(mods[n - 1])
        } else {
            p
        }
    }
}

/// The entries among the first `n` that stay, in stack order.
pub open spec fn batch_rest(mods: Seq<InstanceMod>, indexes: Seq<u32>, n: int) -> Seq<InstanceMod>
    decreases n,
{
    if n <= 0 {
        Seq::empty()
    } else {
        let p = batch_rest(mods, indexes, n - 1);
        if !in_batch(indexes, mods.len() as int, n - 1) {
            p.push(mods[n - 1])
        } else {
            p
        }
    }
}

/// Where the moved entries go among the staying ones: the last position
/// counts as the one before it, and nothing past the end.
pub open spec fn batch_target(len: int, target: int, rest_len: int) -> int {
    let t = if target == len - 1 {
        target - 1
    } else {
        target
    };
    if t > rest_len {
        rest_len
    } else {
        t
    }
}

/// The stack with the batch taken out and put back, in its own order, at the target.
pub open spec fn batch_order(mods: Seq<InstanceMod>, indexes: Seq<u32>, target: int) -> Seq<InstanceMod> {
    let picked = batch_picked(mods, indexes, mods.len() as int);
    let rest = batch_rest(mods, indexes, mods.len() as int);
    let t = batch_target(mods.len() as int, target, rest.len() as int);
    rest.subrange(0, t) + picked + rest.subrange(t, rest.len() as int)
}

/// The stack after a batch move, anchors re-seated.
pub open spec fn batch_result(mods: Seq<InstanceMod>, indexes: Seq<u32>, target: int) -> Seq<InstanceMod> {
    if mods.len() < 2 {
        mods
    } else {
        reseated(batch_order(mods, indexes, target))
    }
}

/// The positions of the moved entries in the final stack, in their order.
pub open spec fn batch_positions(mods: Seq<InstanceMod>, indexes: Seq<u32>, target: int) -> Seq<u32> {
    let picked = batch_picked(mods, indexes, mods.len() as int);
    Seq::new(picked.len(), |k: int| find_name(batch_result(mods, indexes, target), picked[k].name@) as u32)
}

/// Where the entry at `m` of `mods` stands once the anchors are re-seated.
pub open spec fn reseat_dest(mods: Seq<InstanceMod>, m: int) -> int {
    let b = find_name(mods, "base"@);
    let s1 = moved(mods, b, 0);
    let o = find_name(s1, "overwrite"@);
    moved_dest(o, mods.len() - 1, moved_dest(b, 0, m))
}

proof fn lemma_reseat_dest(mods: Seq<InstanceMod>, pb: int, po: int, m: int)
    requires
        2 <= mods.len() <= u32::MAX,
        names_unique(mods),
        0 <= pb < mods.len() && mods[pb].name@ == "base"@,
        0 <= po < mods.len() && mods[po].name@ == "overwrite"@,
        0 <= m < mods.len(),
    ensures
        0 <= reseat_dest(mods, m) < mods.len(),
        reseated(mods)[reseat_dest(mods, m)] == mods[m],
{
    lemma_find_name(mods, "base"@, pb);
    let b = find_name(mods, "base"@);
    lemma_moved(mods, b, 0);
    let s1 = moved(mods, b, 0);
    lemma_find_name(s1, "overwrite"@, moved_dest(b, 0, po));
    let o = find_name(s1, "overwrite"@);
    assert(s1.remove(o).push(s1[o]) =~= moved(s1, o, s1.len() - 1));
    lemma_moved(s1, o, s1.len() - 1);
}

/// Positions in `mods` of the entries of `batch_picked`.
pub open spec fn picked_positions(mods: Seq<InstanceMod>, indexes: Seq<u32>, n: int) -> Seq<int>
    decreases n,
{
    if n <= 0 {
        Seq::empty()
    } else {
        let p = picked_positions(mods, indexes, n - 1);
        if in_batch(indexes, mods.len() as int, n - 1) {
            p.push(n - 1)
        } else {
            p
        }
    }
}

/// Positions in `mods` of the entries of `batch_rest`.
pub open spec fn rest_positions(mods: Seq<InstanceMod>, indexes: Seq<u32>, n: int) -> Seq<int>
    decreases n,
{
    if n <= 0 {
        Seq::empty()
    } else {
        let p = rest_positions(mods, indexes, n - 1);
        if !in_batch(indexes, mods.len() as int, n - 1) {
            p.push(n - 1)
        } else {
            p
        }
    }
}

proof fn lemma_batch_split(mods: Seq<InstanceMod>, indexes: Seq<u32>, n: int)
    requires
        0 <= n <= mods.len(),
    ensures
        ({
            let p = batch_picked(mods, indexes, n);
            let pi = picked_positions(mods, indexes, n);
            let r = batch_rest(mods, indexes, n);
            let ri = rest_positions(mods, indexes, n);
            &&& p.len() == pi.len()
            &&& r.len() == ri.len()
            &&& p.len() + r.len() == n
            &&& forall|k: int| 0 <= k < p.len() ==> 0 <= #[trigger] pi[k] < n && p[k] == mods[pi[k]]
                && in_batch(indexes, mods.len() as int, pi[k])
            &&& forall|k: int| 0 <= k < r.len() ==> 0 <= #[trigger] ri[k] < n && r[k] == mods[ri[k]]
                && !in_batch(indexes, mods.len() as int, ri[k])
            &&& forall|a: int, b: int| 0 <= a < b < p.len() ==> #[trigger] pi[a] < #[trigger] pi[b]
            &&& forall|a: int, b: int| 0 <= a < b < r.len() ==> #[trigger] ri[a] < #[trigger] ri[b]
            &&& n >= 1 && in_batch(indexes, mods.len() as int, 0) ==> p.len() >= 1 && pi[0] == 0
            &&& n >= 1 && !in_batch(indexes, mods.len() as int, 0) ==> r.len() >= 1 && ri[0] == 0
            &&& n >= 1 && !in_batch(indexes, mods.len() as int, n - 1) ==> r.len() >= 1 && ri[r.len() - 1] == n - 1
        }),
    decreases n,
{
    if n > 0 {
        lemma_batch_split(mods, indexes, n - 1);
    }
}

proof fn lemma_batch_order_wf(mods: Seq<InstanceMod>, indexes: Seq<u32>, target: int)
    requires
        stack_wf(mods),
        0 <= target,
    ensures
        stack_wf(reseated(batch_order(mods, indexes, target))),
        names_unique(batch_order(mods, indexes, target)),
        batch_order(mods, indexes, target).len() == mods.len(),
        exists|k: int| 0 <= k < batch_order(mods, indexes, target).len() && (#[trigger] batch_order(mods, indexes, target)[k]).name@ == "base"@,
        exists|k: int| 0 <= k < batch_order(mods, indexes, target).len() && (#[trigger] batch_order(mods, indexes, target)[k]).name@ == "overwrite"@,
{
    let len = mods.len() as int;
    lemma_batch_split(mods, indexes, len);
    let p = batch_picked(mods, indexes, len);
    let pi = picked_positions(mods, indexes, len);
    let r = batch_rest(mods, indexes, len);
    let ri = rest_positions(mods, indexes, len);
    let t = batch_target(len, target, r.len() as int);
    let mid = batch_order(mods, indexes, target);
    let pl = p.len() as int;
    assert(mid.len() == len);
    let src = |k: int|
        if k < t {
            ri[k]
        } else if k < t + pl {
            pi[k - t]
        } else {
            ri[k - pl]
        };
    assert forall|k: int| 0 <= k < len implies 0 <= #[trigger] src(k) < len && mid[k] == mods[src(k)] by {
        if k < t {
        } else if k < t + pl {
            assert(mid[k] == p[k - t]);
        } else {
            assert(mid[k] == r[k - pl]);
        }
    }
    assert forall|a: int, b: int| 0 <= a < b < mid.len() implies (#[trigger] mid[a]).name@ != (#[trigger] mid[b]).name@ by {
        let sa = src(a);
        let sb = src(b);
        if a < t || a >= t + pl {
            if b < t || b >= t + pl {
                let ia = if a < t { a } else { a - pl };
                let ib = if b < t { b } else { b - pl };
                assert(ri[ia] < ri[ib]);
            } else {
                assert(!in_batch(indexes, len, sa));
                assert(in_batch(indexes, len, sb));
            }
        } else {
            if b < t || b >= t + pl {
                assert(in_batch(indexes, len, sa));
                assert(!in_batch(indexes, len, sb));
            } else {
                assert(pi[a - t] < pi[b - t]);
            }
        }
        assert(sa != sb);
        if sa < sb {
            assert(mods[sa].name@ != mods[sb].name@);
        } else {
            assert(mods[sb].name@ != mods[sa].name@);
        }
    }
    let pb = if in_batch(indexes, len, 0) {
        t
    } else if t > 0 {
        0
    } else {
        pl
    };
    assert(src(pb) == 0);
    let rl = r.len() as int;
    let po = if rl - 1 < t {
        rl - 1
    } else {
        rl - 1 + pl
    };
    assert(src(po) == len - 1);
    assert(mid[pb].name@ == "base"@);
    assert(mid[po].name@ == "overwrite"@);
    lemma_reseated_wf(mid, pb, po);
}

fn lists_index(indexes: &Vec<u32>, k: u32) -> (r: bool)
    ensures
        r == indexes@.contains(k),
{
    let mut i: usize = 0;
    while i < indexes.len()
        invariant
            i <= indexes.len(),
            forall|m: int| 0 <= m < i ==> indexes@[m] != k,
        decreases indexes.len() - i,
    {
        if indexes[i] == k {
            return true;
        }
        i = i + 1;
    }
    false
}

impl GameInstance {
    /// Moves the listed entries, in their stack order, to `target_index`; the
    /// last position is never moved, and a target at the last position counts
    /// as the one before it. Returns the positions at which they were put.
    pub fn move_mods_by_indexes(&mut self, indexes: Vec<u32>, target_index: u32) -> (r: Vec<u32>)
        requires
            old(self).wf(),
        ensures
            final(self).wf(),
            final(self).mods@ == batch_result(old(self).mods@, indexes@, target_index as int),
            r@ == batch_positions(old(self).mods@, indexes@, target_index as int),
            r@.len() == batch_picked(old(self).mods@, indexes@, old(self).mods@.len() as int).len(),
            forall|k: int| 0 <= k < r@.len() ==> r@[k] < final(self).mods@.len() && final(self).mods@[r@[k] as int]
                == batch_picked(old(self).mods@, indexes@, old(self).mods@.len() as int)[k],
            final(self).config == old(self).config,
    {
        let len = self.mods.len();
        let ghost s = self.mods@;
        let mut source: Vec<InstanceMod> = Vec::new();
        std::mem::swap(&mut source, &mut self.mods);
        let mut picked: Vec<InstanceMod> = Vec::new();
        let mut rest: Vec<InstanceMod> = Vec::new();
        let mut k: usize = 0;
        assert(source@.subrange(0, len as int) =~= s);
        while k < len
            invariant
                k <= len == s.len(),
                source@ == s.subrange(k as int, len as int),
                picked@ == batch_picked(s, indexes@, k as int),
                rest@ == batch_rest(s, indexes@, k as int),
            decreases len - k,
        {
            let entry = source.remove(0);
            if k < len - 1 && lists_index(&indexes, k as u32) {
                picked.push(entry);
            } else {
                rest.push(entry);
            }
            k = k + 1;
            assert(source@ =~= s.subrange(k as int, len as int));
        }
        proof {
            lemma_batch_split(s, indexes@, len as int);
        }
        let mut t: u32 = if target_index as usize == len - 1 {
            target_index - 1
        } else {
            target_index
        };
        if t as usize > rest.len() {
            t = rest.len() as u32;
        }
        let count = picked.len();
        let ghost pk = picked@;
        let ghost rs = rest@;
        let mut names: Vec<String> = Vec::new();
        let mut q: usize = 0;
        while q < picked.len()
            invariant
                q <= picked@.len(),
                picked@ == pk,
                names@.len() == q,
                forall|k: int| 0 <= k < q ==> (#[trigger] names@[k])@ == pk[k].name@,
            decreases picked.len() - q,
        {
            names.push(picked[q].name.clone());
            q = q + 1;
        }
        let mut tail = rest.split_off(t as usize);
        rest.append(&mut picked);
        rest.append(&mut tail);
        let ghost mid = batch_order(s, indexes@, target_index as int);
        assert(rest@ =~= mid);
        self.mods = rest;
        proof {
            lemma_batch_order_wf(s, indexes@, target_index as int);
        }
        self.reseat_static_mods();
        self.rebuild_mods_order();
        let mut positions: Vec<u32> = Vec::new();
        let mut j: usize = 0;
        while j < count
            invariant
                j <= count == pk.len() == names@.len(),
                forall|k: int| 0 <= k < count ==> (#[trigger] names@[k])@ == pk[k].name@,
                pk == batch_picked(s, indexes@, len as int),
                len == s.len(),
                stack_wf(s),
                self.mods@ == batch_result(s, indexes@, target_index as int),
                self.wf(),
                self.config == old(self).config,
                s == old(self).mods@,
                positions@ == batch_positions(s, indexes@, target_index as int).subrange(0, j as int),
            decreases count - j,
        {
            proof {
                lemma_batch_position(s, indexes@, target_index as int, j as int);
            }
            let found = self.get_mod_by_name(names[j].clone());
            let p = found.unwrap();
            positions.push(p as u32);
            j = j + 1;
            assert(positions@ =~= batch_positions(s, indexes@, target_index as int).subrange(0, j as int));
        }
        proof {
            assert(positions@ =~= batch_positions(s, indexes@, target_index as int));
            assert forall|k: int| 0 <= k < positions@.len() implies positions@[k] < self.mods@.len()
                && self.mods@[positions@[k] as int] == pk[k] by {
                lemma_batch_position(s, indexes@, target_index as int, k);
            }
        }
        positions
    }
}

proof fn lemma_batch_same_selection(mods: Seq<InstanceMod>, a: Seq<u32>, b: Seq<u32>, n: int)
    requires
        forall|k: int| in_batch(a, mods.len() as int, k) == in_batch(b, mods.len() as int, k),
    ensures
        batch_picked(mods, a, n) == batch_picked(mods, b, n),
        batch_rest(mods, a, n) == batch_rest(mods, b, n),
    decreases n,
{
    if n > 0 {
        lemma_batch_same_selection(mods, a, b, n - 1);
        assert(in_batch(a, mods.len() as int, n - 1) == in_batch(b, mods.len() as int, n - 1));
    }
}

/// A batch move that lists the last position behaves exactly as the same
/// move without it.
pub proof fn lemma_batch_ignores_last_index(
    mods: Seq<InstanceMod>,
    indexes: Seq<u32>,
    without_last: Seq<u32>,
    target: int,
)
    requires
        2 <= mods.len() <= u32::MAX,
        forall|x: u32| #[trigger] without_last.contains(x) <==> (indexes.contains(x) && x != (mods.len() - 1) as u32),
    ensures
        batch_result(mods, indexes, target) == batch_result(mods, without_last, target),
        batch_positions(mods, indexes, target) == batch_positions(mods, without_last, target),
{
    let len = mods.len() as int;
    assert forall|k: int| in_batch(indexes, len, k) == in_batch(without_last, len, k) by {
        if 0 <= k < len - 1 {
            assert(without_last.contains(k as u32) <==> indexes.contains(k as u32));
        }
    }
    lemma_batch_same_selection(mods, indexes, without_last, len);
}

/// Failures of the mod stack operations.
#[derive(Debug, Clone)]
pub enum ModStackError {
    DuplicateName(String),
    ModNotFound(String),
    ReservedEntry(String),
    EmptyName,
    VersionError(String),
}

/// Positions of the enabled entries among the first `n`, ascending.
pub open spec fn enabled_positions(mods: Seq<InstanceMod>, n: int) -> Seq<usize>
    decreases n,
{
    if n <= 0 {
        Seq::empty()
    } else if mods[n - 1].enabled {
        enabled_positions(mods, n - 1).push((n - 1) as usize)
    } else {
        enabled_positions(mods, n - 1)
    }
}

/// The position of the entry named `name`, if any.
pub open spec fn lookup(mods: Seq<InstanceMod>, name: Seq<char>) -> Option<usize> {
    if find_name(mods, name) >= 0 {
        Some(find_name(mods, name) as usize)
    } else {
        None
    }
}

proof fn lemma_find_name_absent(mods: Seq<InstanceMod>, name: Seq<char>)
    requires
        forall|k: int| 0 <= k < mods.len() ==> (#[trigger] mods[k]).name@ != name,
    ensures
        find_name(mods, name) == -1,
    decreases mods.len(),
{
    if mods.len() > 0 {
        assert(mods[0].name@ != name);
        assert forall|k: int| 0 <= k < mods.drop_first().len() implies (#[trigger] mods.drop_first()[k]).name@ != name by {
            assert(mods.drop_first()[k] == mods[k + 1]);
        }
        lemma_find_name_absent(mods.drop_first(), name);
    }
}

proof fn lemma_update_keeps_wf(mods: Seq<InstanceMod>, pos: int, entry: InstanceMod)
    requires
        stack_wf(mods),
        0 <= pos < mods.len(),
        entry.name@ == mods[pos].name@,
    ensures
        stack_wf(mods.update(pos, entry)),
{
    let u = mods.update(pos, entry);
    assert forall|i: int, j: int| 0 <= i < j < u.len() implies (#[trigger] u[i]).name@ != (#[trigger] u[j]).name@ by {
        assert(mods[i].name@ != mods[j].name@);
    }
}

impl GameInstance {
    /// The position of the entry named `mod_name`, if any.
    pub fn get_mod_by_name(&self, mod_name: String) -> (r: Option<usize>)
        ensures
            r == lookup(self.mods@, mod_name@),
            r is None <==> find_name(self.mods@, mod_name@) < 0,
            r matches Some(p) ==> p < self.mods@.len() && self.mods@[p as int].name@ == mod_name@
                && p as int == find_name(self.mods@, mod_name@),
    {
        let mut i: usize = 0;
        while i < self.mods.len()
            invariant
                i <= self.mods.len(),
                forall|m: int| 0 <= m < i ==> (#[trigger] self.mods@[m]).name@ != mod_name@,
            decreases self.mods.len() - i,
        {
            if self.mods[i].name == mod_name {
                proof {
                    lemma_find_name(self.mods@, mod_name@, i as int);
                }
                return Some(i);
            }
            i = i + 1;
        }
        proof {
            lemma_find_name_absent(self.mods@, mod_name@);
        }
        None
    }

    /// Positions of the enabled entries, in stack order.
    pub fn get_enabled_mods(&self) -> (r: Vec<usize>)
        ensures
            r@ == enabled_positions(self.mods@, self.mods@.len() as int),
    {
        let mut r: Vec<usize> = Vec::new();
        let mut i: usize = 0;
        while i < self.mods.len()
            invariant
                i <= self.mods.len(),
                r@ == enabled_positions(self.mods@, i as int),
            decreases self.mods.len() - i,
        {
            if self.mods[i].enabled {
                r.push(i);
            }
            i = i + 1;
        }
        r
    }

    /// Adds a new entry just before `overwrite`; a name already in the stack
    /// is refused.
    pub fn insert_mod(&mut self, entry: InstanceMod) -> (r: Result<(), ModStackError>)
        requires
            old(self).wf(),
            old(self).mods@.len() < u32::MAX,
        ensures
            final(self).wf(),
            final(self).config == old(self).config,
            r is Err <==> lookup(old(self).mods@, entry.name@) is Some,
            r matches Err(e) ==> e is DuplicateName && *final(self) == *old(self),
            r is Ok ==> final(self).mods@ == old(self).mods@.insert(old(self).mods@.len() - 1, entry),
    {
        if self.get_mod_by_name(entry.name.clone()).is_some() {
            return Err(ModStackError::DuplicateName(entry.name.clone()));
        }
        let ghost s = self.mods@;
        proof {
            assert forall|k: int| 0 <= k < s.len() implies (#[trigger] s[k]).name@ != entry.name@ by {
                if s[k].name@ == entry.name@ {
                    lemma_find_name(s, entry.name@, k);
                }
            }
        }
        let at = self.mods.len() - 1;
        self.mods.insert(at, entry);
        proof {
            let u = self.mods@;
            assert forall|i: int, j: int| 0 <= i < j < u.len() implies (#[trigger] u[i]).name@ != (#[trigger] u[j]).name@ by {
                if i != at && j != at {
                    let si = if i < at { i } else { i - 1 };
                    let sj = if j < at { j } else { j - 1 };
                    assert(s[si].name@ != s[sj].name@);
                }
            }
        }
        self.rebuild_mods_order();
        Ok(())
    }

    /// Removes the entry named `mod_name`; the anchors cannot be removed.
    pub fn delete_mod(&mut self, mod_name: String) -> (r: Result<(), ModStackError>)
        requires
            old(self).wf(),
        ensures
            final(self).wf(),
            final(self).config == old(self).config,
            is_anchor_name(mod_name@) ==> r matches Err(ModStackError::ReservedEntry(_)),
            !is_anchor_name(mod_name@) && lookup(old(self).mods@, mod_name@) is None ==> r matches Err(ModStackError::ModNotFound(_)),
            r is Err ==> *final(self) == *old(self),
            r is Ok <==> !is_anchor_name(mod_name@) && lookup(old(self).mods@, mod_name@) is Some,
            r is Ok ==> final(self).mods@ == old(self).mods@.remove(find_name(old(self).mods@, mod_name@)),
    {
        if mod_name == String::from_str("base") || mod_name == String::from_str("overwrite") {
            return Err(ModStackError::ReservedEntry(mod_name));
        }
        let pos = match self.get_mod_by_name(mod_name.clone()) {
            Some(p) => p,
            None => return Err(ModStackError::ModNotFound(mod_name)),
        };
        let ghost s = self.mods@;
        proof {
            reveal_strlit("base");
            reveal_strlit("overwrite");
            assert(pos != 0);
            assert(pos != s.len() - 1);
        }
        self.mods.remove(pos);
        proof {
            let u = self.mods@;
            assert(u =~= s.remove(pos as int));
            assert forall|i: int, j: int| 0 <= i < j < u.len() implies (#[trigger] u[i]).name@ != (#[trigger] u[j]).name@ by {
                let si = if i < pos { i } else { i + 1 };
                let sj = if j < pos { j } else { j + 1 };
                assert(s[si].name@ != s[sj].name@);
            }
        }
        self.rebuild_mods_order();
        Ok(())
    }

    /// Moves the entry named `mod_name`, found through the cache, as
    /// `move_mod_by_index` does.
    pub fn move_mod_by_name(&mut self, mod_name: String, target_index: u32) -> (r: Result<(), ModStackError>)
        requires
            old(self).wf(),
        ensures
            final(self).wf(),
            final(self).config == old(self).config,
            r is Ok <==> lookup(old(self).mods@, mod_name@) is Some,
            r is Err ==> *final(self) == *old(self),
            r is Ok ==> final(self).mods@ == move_result(
                old(self).mods@,
                find_name(old(self).mods@, mod_name@),
                target_index as int,
            ),
    {
        let mut i: usize = 0;
        assert(self.mods_indexes.deep_view().len() == self.mods_indexes@.len());
        while i < self.mods_indexes.len()
            invariant
                i <= self.mods_indexes@.len(),
                self.mods_indexes@.len() == self.mods@.len(),
                self.wf(),
                *self == *old(self),
                forall|m: int| 0 <= m < i ==> (#[trigger] self.mods@[m]).name@ != mod_name@,
            decreases self.mods_indexes.len() - i,
        {
            assert(self.mods_indexes.deep_view()[i as int] == self.mods_indexes@[i as int].deep_view());
            assert(self.mods_indexes.deep_view()[i as int] == index_cache(self.mods@)[i as int]);
            if self.mods_indexes[i].0 == mod_name {
                let index = self.mods_indexes[i].1;
                proof {
                    lemma_find_name(self.mods@, mod_name@, i as int);
                }
                self.move_mod_by_index(index, target_index);
                return Ok(());
            }
            i = i + 1;
        }
        proof {
            lemma_find_name_absent(self.mods@, mod_name@);
        }
        Err(ModStackError::ModNotFound(mod_name))
    }

    /// Enables or disables the entry named `mod_name`.
    pub fn set_mod_enabled(&mut self, mod_name: String, enabled: bool) -> (r: Result<(), ModStackError>)
        requires
            old(self).wf(),
        ensures
            final(self).wf(),
            final(self).config == old(self).config,
            r is Ok <==> lookup(old(self).mods@, mod_name@) is Some,
            r is Err ==> *final(self) == *old(self),
            r is Ok ==> ({
                let p = find_name(old(self).mods@, mod_name@);
                final(self).mods@ == old(self).mods@.update(p, InstanceMod { enabled, ..old(self).mods@[p] })
            }),
    {
        let pos = match self.get_mod_by_name(mod_name.clone()) {
            Some(p) => p,
            None => return Err(ModStackError::ModNotFound(mod_name)),
        };
        let ghost s = self.mods@;
        let mut entry = self.mods.remove(pos);
        entry.set_enabled(enabled);
        self.mods.insert(pos, entry);
        proof {
            assert(self.mods@ =~= s.update(pos as int, entry));
            lemma_update_keeps_wf(s, pos as int, entry);
        }
        self.rebuild_mods_order();
        Ok(())
    }

    /// Selects a version of the entry named `mod_name`.
    pub fn set_mod_active_version(&mut self, mod_name: String, version: String) -> (r: Result<(), ModStackError>)
        requires
            old(self).wf(),
        ensures
            final(self).wf(),
            final(self).config == old(self).config,
            lookup(old(self).mods@, mod_name@) is None ==> r matches Err(ModStackError::ModNotFound(_)),
            r is Err ==> *final(self) == *old(self),
            r is Ok <==> ({
                let p = find_name(old(self).mods@, mod_name@);
                p >= 0 && old(self).mods@[p].versions.deep_view().contains(version@)
            }),
            r is Ok ==> ({
                let p = find_name(old(self).mods@, mod_name@);
                final(self).mods@ == old(self).mods@.update(
                    p,
                    InstanceMod { selected_version_identifier: version, ..old(self).mods@[p] },
                )
            }),
    {
        let pos = match self.get_mod_by_name(mod_name.clone()) {
            Some(p) => p,
            None => return Err(ModStackError::ModNotFound(mod_name)),
        };
        if !self.mods[pos].has_version(version.clone()) {
            return Err(ModStackError::VersionError(String::from_str("Version not found!")));
        }
        let ghost s = self.mods@;
        let mut entry = self.mods.remove(pos);
        let _ = entry.set_active_version(version);
        self.mods.insert(pos, entry);
        proof {
            assert(self.mods@ =~= s.update(pos as int, entry));
            lemma_update_keeps_wf(s, pos as int, entry);
        }
        self.rebuild_mods_order();
        Ok(())
    }

    /// Replaces the configuration.
    pub fn update_config(&mut self, config: GameInstanceConfig)
        ensures
            final(self).config == config,
            final(self).mods == old(self).mods,
            final(self).mods_indexes == old(self).mods_indexes,
    {
        self.config = config;
    }

    /// Replaces the list of executables.
    pub fn set_executables(&mut self, executables: Vec<InstanceExecutable>)
        ensures
            final(self).config == (GameInstanceConfig { executables, ..old(self).config }),
            final(self).mods == old(self).mods,
            final(self).mods_indexes == old(self).mods_indexes,
    {
        self.config.executables = executables;
    }
}

/// The entry for a reserved name, pointing at `path`.
fn anchor_entry(name: &str, path: String) -> (r: InstanceMod)
    ensures
        r.name@ == name@,
        r.absolute_path == path,
        r.enabled,
        r.versions@.len() == 0,
        r.selected_version_identifier@ == "0.0.0"@,
{
    InstanceMod {
        name: String::from_str(name),
        enabled: true,
        absolute_path: path,
        versions: Vec::new(),
        selected_version_identifier: String::from_str("0.0.0"),
        info: ModInfo::default(),
    }
}

impl GameInstance {
    /// A new instance whose stack holds only `base`, on the deployment folder,
    /// and `overwrite`, in the mods folder.
    pub fn new(name: String, paths: GameInstancePaths) -> (r: Self)
        ensures
            r.wf(),
            r.config.name == name,
            r.config.paths == paths,
            r.config.steam_id is None,
            r.config.vfs_config is None,
            r.config.executables@.len() == 0,
            r.config.game_identifier == GameIdentifier::Generic,
            r.mods@.len() == 2,
            r.mods@[0].absolute_path@ == resolve_path(paths, paths.deployment.mods@),
            r.mods@[1].absolute_path@ == resolve_path(
                paths,
                push_path(resolve_path(paths, paths.internal.mods@), "overwrite"@),
            ),
    {
        let mut instance = GameInstance {
            config: GameInstanceConfig {
                name,
                steam_id: None,
                paths,
                vfs_config: None,
                executables: Vec::new(),
                game_identifier: GameIdentifier::default(),
                folding_config: CaseFoldingConfig::default(),
                downloads_config: DownloadsConfig::default(),
            },
            mods: Vec::new(),
            mods_indexes: Vec::new(),
        };
        let base_path = instance.get_deployment_mods_absolute_path();
        let overwrite_path = instance.parse_path_variables(instance.overwrite_relative_path());
        instance.mods.push(anchor_entry("base", base_path));
        instance.mods.push(anchor_entry("overwrite", overwrite_path));
        proof {
            reveal_strlit("base");
            reveal_strlit("overwrite");
        }
        instance.rebuild_mods_order();
        instance
    }

    /// Creates a mod in the mods folder and adds it just before `overwrite`;
    /// returns its position.
    pub fn create_empty_mod(&mut self, name: String, version: Option<String>) -> (r: Result<usize, ModStackError>)
        requires
            old(self).wf(),
            old(self).mods@.len() < u32::MAX,
        ensures
            final(self).wf(),
            final(self).config == old(self).config,
            r is Err <==> lookup(old(self).mods@, name@) is Some,
            r matches Err(e) ==> e is DuplicateName && *final(self) == *old(self),
            r matches Ok(p) ==> ({
                let m = final(self).mods@[p as int];
                &&& p == old(self).mods@.len() - 1
                &&& final(self).mods@.len() == old(self).mods@.len() + 1
                &&& final(self).mods@ == old(self).mods@.insert(p as int, m)
                &&& m.name == name
                &&& m.enabled
                &&& m.absolute_path@ == push_path(
                    resolve_path(old(self).config.paths, old(self).config.paths.internal.mods@),
                    name@,
                )
                &&& match version {
                    Some(v) => m.versions.deep_view() == seq![v@] && m.selected_version_identifier@ == v@,
                    None => m.versions@.len() == 0,
                }
            }),
    {
        let mods_path = self.get_mods_absolute_path();
        let entry = InstanceMod::new(mods_path, name, version, ModInfo::default());
        let at = self.mods.len() - 1;
        match self.insert_mod(entry) {
            Ok(()) => Ok(at),
            Err(e) => Err(e),
        }
    }

    /// Adds a version to the mod named `name`, creating the mod first when
    /// the stack has none of that name, records its info and selects the
    /// version; returns the mod's position.
    pub fn create_mod_version(&mut self, name: String, version: String, info: ModInfo) -> (r: Result<usize, ModStackError>)
        requires
            old(self).wf(),
            old(self).mods@.len() < u32::MAX,
        ensures
            final(self).wf(),
            final(self).config == old(self).config,
            name@.len() == 0 ==> r matches Err(ModStackError::EmptyName),
            r is Err ==> *final(self) == *old(self),
            r is Ok <==> name@.len() > 0 && (lookup(old(self).mods@, name@) matches Some(p)
                ==> !old(self).mods@[p as int].versions.deep_view().contains(version@)),
            r matches Ok(p) ==> ({
                let m = final(self).mods@[p as int];
                &&& p < final(self).mods@.len()
                &&& m.name@ == name@
                &&& m.info == info
                &&& m.selected_version_identifier == version
                &&& m.versions.deep_view().last() == version@
                &&& (lookup(old(self).mods@, name@) matches Some(q) ==> p == q
                    && m.versions@ == old(self).mods@[q as int].versions@.push(version)
                    && final(self).mods@ == old(self).mods@.update(q as int, m))
                &&& (lookup(old(self).mods@, name@) is None ==> p == old(self).mods@.len() - 1
                    && m.versions.deep_view() == seq![version@]
                    && final(self).mods@.len() == old(self).mods@.len() + 1)
            }),
    {
        if name.unicode_len() == 0 {
            return Err(ModStackError::EmptyName);
        }
        let pos = match self.get_mod_by_name(name.clone()) {
            Some(p) => {
                if self.mods[p].has_version(version.clone()) {
                    return Err(ModStackError::VersionError(String::from_str("Version already exists!")));
                }
                p
            },
            None => match self.create_empty_mod(name, None) {
                Ok(p) => p,
                Err(e) => return Err(e),
            },
        };
        let ghost s = self.mods@;
        let mut entry = self.mods.remove(pos);
        entry.info = info;
        let added = entry.add_version(version);
        proof {
            assert(added is Ok);
            if lookup(old(self).mods@, s[pos as int].name@) is None {
                assert(entry.versions.deep_view() =~= seq![entry.selected_version_identifier@]);
            }
        }
        self.mods.insert(pos, entry);
        proof {
            assert(self.mods@ =~= s.update(pos as int, entry));
            lemma_update_keeps_wf(s, pos as int, entry);
        }
        self.rebuild_mods_order();
        Ok(pos)
    }

    /// Drops a version of the mod named `mod_name`, or, without a version,
    /// designates the whole mod folder; returns the folder to remove.
    pub fn delete_mod_version(&mut self, mod_name: String, mod_version: Option<String>) -> (r: Result<String, ModStackError>)
        requires
            old(self).wf(),
        ensures
            final(self).wf(),
            final(self).config == old(self).config,
            lookup(old(self).mods@, mod_name@) is None ==> (r matches Err(ModStackError::ModNotFound(_)))
                && *final(self) == *old(self),
            lookup(old(self).mods@, mod_name@) matches Some(p) ==> ({
                let m = old(self).mods@[p as int];
                match mod_version {
                    Some(v) => {
                        &&& !m.versions.deep_view().contains(v@) ==> r is Err && *final(self) == *old(self)
                        &&& m.versions.deep_view().contains(v@) ==> {
                            &&& final(self).mods@.len() == old(self).mods@.len()
                            &&& final(self).mods@[p as int].versions.deep_view() == remove_all(m.versions.deep_view(), v@)
                            &&& (r is Ok <==> deletion_allowed(version_path(m, v@), push_path(m.absolute_path@, "versions"@)))
                            &&& (r matches Ok(f) ==> f@ == version_path(m, v@))
                        }
                    },
                    None => {
                        &&& *final(self) == *old(self)
                        &&& (r is Ok <==> deletion_allowed(
                            m.absolute_path@,
                            resolve_path(old(self).config.paths, old(self).config.paths.internal.mods@),
                        ))
                        &&& (r matches Ok(f) ==> f@ == m.absolute_path@)
                    },
                }
            }),
    {
        let mods_path = self.get_mods_absolute_path();
        let pos = match self.get_mod_by_name(mod_name.clone()) {
            Some(p) => p,
            None => return Err(ModStackError::ModNotFound(mod_name)),
        };
        match mod_version {
            Some(v) => {
                if !self.mods[pos].has_version(v.clone()) {
                    return Err(ModStackError::VersionError(String::from_str("Cannot delete inexistent version.")));
                }
                let ghost s = self.mods@;
                let mut entry = self.mods.remove(pos);
                let result = entry.delete_version(v);
                self.mods.insert(pos, entry);
                proof {
                    assert(self.mods@ =~= s.update(pos as int, entry));
                    lemma_update_keeps_wf(s, pos as int, entry);
                }
                self.rebuild_mods_order();
                match result {
                    Ok(folder) => Ok(folder),
                    Err(e) => Err(ModStackError::VersionError(e)),
                }
            },
            None => match self.mods[pos].delete_mod(mods_path) {
                Ok(folder) => Ok(folder),
                Err(e) => Err(ModStackError::VersionError(e)),
            },
        }
    }

    /// The folder to open for the mod named `mod_name`: the game folder for
    /// `base`, its folder in the mods folder otherwise.
    pub fn open_mod_folder(&self, mod_name: String) -> (r: String)
        ensures
            mod_name@ == "base"@ ==> r@ == self.config.paths.game@,
            mod_name@ != "base"@ ==> r@ == push_path(
                resolve_path(self.config.paths, self.config.paths.internal.mods@),
                mod_name@,
            ),
    {
        if mod_name == String::from_str("base") {
            return self.get_game_absolute_path();
        }
        let mods_path = self.get_mods_absolute_path();
        push_path_str(mods_path.as_str(), mod_name.as_str())
    }
}

proof fn lemma_moved_multiset(mods: Seq<InstanceMod>, i: int, j: int)
    requires
        0 <= i < mods.len(),
        0 <= j < mods.len(),
    ensures
        moved(mods, i, j).to_multiset() == mods.to_multiset(),
{
    broadcast use vstd::seq_lib::group_to_multiset_ensures, vstd::multiset::group_multiset_axioms;

    let r = mods.remove(i);
    assert(r.to_multiset() == mods.to_multiset().remove(mods[i]));
    assert(r.insert(j, mods[i]).to_multiset() == r.to_multiset().insert(mods[i]));
    assert(mods.contains(mods[i]));
    assert(mods.to_multiset().remove(mods[i]).insert(mods[i]) =~= mods.to_multiset());
}

proof fn lemma_reseated_multiset(mods: Seq<InstanceMod>, pb: int, po: int)
    requires
        2 <= mods.len() <= u32::MAX,
        names_unique(mods),
        0 <= pb < mods.len() && mods[pb].name@ == "base"@,
        0 <= po < mods.len() && mods[po].name@ == "overwrite"@,
    ensures
        reseated(mods).to_multiset() == mods.to_multiset(),
{
    lemma_find_name(mods, "base"@, pb);
    let b = find_name(mods, "base"@);
    lemma_moved(mods, b, 0);
    lemma_moved_multiset(mods, b, 0);
    let s1 = moved(mods, b, 0);
    lemma_find_name(s1, "overwrite"@, moved_dest(b, 0, po));
    let o = find_name(s1, "overwrite"@);
    assert(s1.remove(o).push(s1[o]) =~= moved(s1, o, s1.len() - 1));
    lemma_moved_multiset(s1, o, s1.len() - 1);
}

proof fn lemma_split_multiset(mods: Seq<InstanceMod>, indexes: Seq<u32>, n: int)
    requires
        0 <= n <= mods.len(),
    ensures
        batch_picked(mods, indexes, n).to_multiset().add(batch_rest(mods, indexes, n).to_multiset())
            == mods.subrange(0, n).to_multiset(),
    decreases n,
{
    broadcast use vstd::seq_lib::group_to_multiset_ensures, vstd::multiset::group_multiset_axioms;

    if n > 0 {
        lemma_split_multiset(mods, indexes, n - 1);
        assert(mods.subrange(0, n) =~= mods.subrange(0, n - 1).push(mods[n - 1]));
        let p = batch_picked(mods, indexes, n - 1);
        let r = batch_rest(mods, indexes, n - 1);
        if in_batch(indexes, mods.len() as int, n - 1) {
            assert(p.push(mods[n - 1]).to_multiset().add(r.to_multiset()) =~= p.to_multiset().add(
                r.to_multiset(),
            ).insert(mods[n - 1]));
        } else {
            assert(p.to_multiset().add(r.push(mods[n - 1]).to_multiset()) =~= p.to_multiset().add(
                r.to_multiset(),
            ).insert(mods[n - 1]));
        }
    } else {
        assert(mods.subrange(0, 0) =~= Seq::<InstanceMod>::empty());
        assert(batch_picked(mods, indexes, 0).to_multiset().add(batch_rest(mods, indexes, 0).to_multiset())
            =~= vstd::multiset::Multiset::empty());
    }
}

/// Moving one entry or a batch keeps every entry of the stack, each as many
/// times as before, and keeps `base` first and `overwrite` last.
pub proof fn lemma_reorders_keep_entries_and_anchors(
    mods: Seq<InstanceMod>,
    index: int,
    target: int,
    indexes: Seq<u32>,
)
    requires
        stack_wf(mods),
        0 <= index < mods.len(),
        0 <= target,
    ensures
        move_result(mods, index, target).to_multiset() == mods.to_multiset(),
        stack_wf(move_result(mods, index, target)),
        batch_result(mods, indexes, target).to_multiset() == mods.to_multiset(),
        stack_wf(batch_result(mods, indexes, target)),
{
    broadcast use vstd::seq_lib::group_to_multiset_ensures, vstd::multiset::group_multiset_axioms;

    let len = mods.len() as int;
    if index != target {
        let t = clamped_target(len, target);
        lemma_moved(mods, index, t);
        lemma_moved_multiset(mods, index, t);
        let m = moved(mods, index, t);
        let pb = moved_dest(index, t, 0);
        let po = moved_dest(index, t, len - 1);
        lemma_reseated_wf(m, pb, po);
        lemma_reseated_multiset(m, pb, po);
    }
    lemma_batch_split(mods, indexes, len);
    lemma_batch_order_wf(mods, indexes, target);
    lemma_split_multiset(mods, indexes, len);
    let picked = batch_picked(mods, indexes, len);
    let rest = batch_rest(mods, indexes, len);
    let t = batch_target(len, target, rest.len() as int);
    let mid = batch_order(mods, indexes, target);
    let r0 = rest.subrange(0, t);
    let r1 = rest.subrange(t, rest.len() as int);
    vstd::seq_lib::lemma_multiset_commutative(r0 + picked, r1);
    vstd::seq_lib::lemma_multiset_commutative(r0, picked);
    vstd::seq_lib::lemma_multiset_commutative(r0, r1);
    assert(r0 + r1 =~= rest);
    assert(mods.subrange(0, len) =~= mods);
    assert(mid.to_multiset() =~= mods.to_multiset());
    let pb = choose|q: int| 0 <= q < mid.len() && (#[trigger] mid[q]).name@ == "base"@;
    let po = choose|q: int| 0 <= q < mid.len() && (#[trigger] mid[q]).name@ == "overwrite"@;
    lemma_reseated_multiset(mid, pb, po);
}

} // verus!
