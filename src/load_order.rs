//! Rebuilding the mod stack from the mods found on disk, in the order that the
//! previous name-to-position cache recorded.
use vstd::prelude::*;
use crate::game_instance::{resolve_path, GameInstance};
use crate::instance_mod::{is_anchor_name, InstanceMod, ModInfo};
use crate::mod_stack::{stack_wf, index_cache, names_unique};
use crate::mount_plan::overwrite_of;

verus! {

/// The position that `cache` records for `name`, or `u32::MAX` when it has none.
pub open spec fn cache_key(cache: Seq<(Seq<char>, u32)>, name: Seq<char>) -> u32
    decreases cache.len(),
{
    if cache.len() == 0 {
        u32::MAX
    } else if cache[0].0 == name {
        cache[0].1
    } else {
        cache_key(cache.drop_first(), name)
    }
}

/// Where a stable insertion puts an entry with key `key`: before the first
/// entry with a larger key.
pub open spec fn insert_position(cache: Seq<(Seq<char>, u32)>, sorted: Seq<InstanceMod>, key: u32) -> int
    decreases sorted.len(),
{
    if sorted.len() == 0 {
        0
    } else if cache_key(cache, sorted[0].name@) > key {
        0
    } else {
        1 + insert_position(cache, sorted.drop_first(), key)
    }
}

/// The entries sorted by their recorded position, stably; unknown names last.
pub open spec fn sorted_by_cache(cache: Seq<(Seq<char>, u32)>, mods: Seq<InstanceMod>) -> Seq<InstanceMod>
    decreases mods.len(),
{
    if mods.len() == 0 {
        mods
    } else {
        let rest = sorted_by_cache(cache, mods.drop_last());
        rest.insert(insert_position(cache, rest, cache_key(cache, mods.last().name@)), mods.last())
    }
}

/// The name occurs among the entries.
pub open spec fn has_name(mods: Seq<InstanceMod>, name: Seq<char>) -> bool {
    exists|k: int| 0 <= k < mods.len() && (#[trigger] mods[k]).name@ == name
}

/// The loaded entries that can join the stack: not an anchor, and the first
/// with its name.
pub open spec fn accepted(mods: Seq<InstanceMod>) -> Seq<InstanceMod>
    decreases mods.len(),
{
    if mods.len() == 0 {
        mods
    } else {
        let prev = accepted(mods.drop_last());
        if is_anchor_name(mods.last().name@) || has_name(prev, mods.last().name@) {
            prev
        } else {
            prev.push(mods.last())
        }
    }
}

fn key_of(cache: &Vec<(String, u32)>, name: &String) -> (r: u32)
    ensures
        r == cache_key(cache.deep_view(), name@),
{
    let mut i: usize = 0;
    assert(cache.deep_view().subrange(0, cache@.len() as int) =~= cache.deep_view());
    while i < cache.len()
        invariant
            i <= cache@.len(),
            cache.deep_view().len() == cache@.len(),
            cache_key(cache.deep_view(), name@) == cache_key(cache.deep_view().subrange(i as int, cache@.len() as int), name@),
        decreases cache.len() - i,
    {
        let ghost rest = cache.deep_view().subrange(i as int, cache@.len() as int);
        assert(rest.drop_first() =~= cache.deep_view().subrange(i + 1, cache@.len() as int));
        assert(rest[0] == cache@[i as int].deep_view());
        if cache[i].0 == *name {
            return cache[i].1;
        }
        i = i + 1;
    }
    u32::MAX
}

fn position_for(cache: &Vec<(String, u32)>, sorted: &Vec<InstanceMod>, key: u32) -> (r: usize)
    ensures
        r == insert_position(cache.deep_view(), sorted@, key),
        r <= sorted@.len(),
{
    let mut i: usize = 0;
    assert(sorted@.subrange(0, sorted@.len() as int) =~= sorted@);
    while i < sorted.len()
        invariant
            i <= sorted@.len(),
            insert_position(cache.deep_view(), sorted@, key) == i + insert_position(
                cache.deep_view(),
                sorted@.subrange(i as int, sorted@.len() as int),
                key,
            ),
        decreases sorted.len() - i,
    {
        let ghost rest = sorted@.subrange(i as int, sorted@.len() as int);
        assert(rest.drop_first() =~= sorted@.subrange(i + 1, sorted@.len() as int));
        if key_of(cache, &sorted[i].name) > key {
            return i;
        }
        i = i + 1;
    }
    proof {
        assert(sorted@.subrange(i as int, sorted@.len() as int).len() == 0);
        lemma_insert_position_bound(cache.deep_view(), sorted@, key);
    }
    i
}

proof fn lemma_insert_position_bound(cache: Seq<(Seq<char>, u32)>, sorted: Seq<InstanceMod>, key: u32)
    ensures
        0 <= insert_position(cache, sorted, key) <= sorted.len(),
    decreases sorted.len(),
{
    if sorted.len() > 0 {
        lemma_insert_position_bound(cache, sorted.drop_first(), key);
    }
}

fn named(mods: &Vec<InstanceMod>, name: &String) -> (r: bool)
    ensures
        r == has_name(mods@, name@),
{
    let mut i: usize = 0;
    while i < mods.len()
        invariant
            i <= mods@.len(),
            forall|k: int| 0 <= k < i ==> (#[trigger] mods@[k]).name@ != name@,
        decreases mods.len() - i,
    {
        if mods[i].name == *name {
            return true;
        }
        i = i + 1;
    }
    false
}

impl GameInstance {
    /// Replaces the stack with the mods found on disk: sorted by the positions
    /// that the current cache records (stably, unknown names last), between a
    /// fresh `base` entry and a fresh `overwrite` entry. Entries named like an
    /// anchor, or like an entry before them, are left out; their names are
    /// returned.
    pub fn load_mods(&mut self, loaded: Vec<InstanceMod>) -> (rejected: Vec<String>)
        requires
            loaded@.len() + 2 <= u32::MAX,
        ensures
            final(self).wf(),
            final(self).config == old(self).config,
            final(self).mods@.len() == accepted(loaded@).len() + 2,
            final(self).mods@.subrange(1, final(self).mods@.len() - 1) == sorted_by_cache(
                old(self).mods_indexes.deep_view(),
                accepted(loaded@),
            ),
            final(self).mods@[0].absolute_path@ == resolve_path(old(self).config.paths, old(self).config.paths.deployment.mods@),
            final(self).mods@[final(self).mods@.len() - 1].absolute_path@ == overwrite_of(old(self).config.paths),
            rejected@.len() + accepted(loaded@).len() == loaded@.len(),
    {
        let ghost cache = self.mods_indexes.deep_view();
        let mut source = loaded;
        let ghost all = source@;
        let mut kept: Vec<InstanceMod> = Vec::new();
        let mut rejected: Vec<String> = Vec::new();
        let mut i: usize = 0;
        let n = source.len();
        assert(all.subrange(0, 0) =~= Seq::<InstanceMod>::empty());
        while source.len() > 0
            invariant
                i + source@.len() == n == all.len(),
                source@ == all.subrange(i as int, n as int),
                kept@ == accepted(all.subrange(0, i as int)),
                rejected@.len() + kept@.len() == i,
            decreases source@.len(),
        {
            let entry = source.remove(0);
            assert(all.subrange(0, i + 1).drop_last() =~= all.subrange(0, i as int));
            let anchor = entry.name == String::from_str("base") || entry.name == String::from_str("overwrite");
            if anchor || named(&kept, &entry.name) {
                rejected.push(entry.name);
            } else {
                kept.push(entry);
            }
            i = i + 1;
            assert(source@ =~= all.subrange(i as int, n as int));
        }
        assert(all.subrange(0, n as int) =~= all);
        proof {
            lemma_accepted_unique(all);
        }
        let mut sorted: Vec<InstanceMod> = Vec::new();
        let mut j: usize = 0;
        let ghost ks = kept@;
        while kept.len() > 0
            invariant
                j + kept@.len() == ks.len(),
                ks.len() <= n,
                kept@ == ks.subrange(j as int, ks.len() as int),
                sorted@ == sorted_by_cache(cache, ks.subrange(0, j as int)),
                sorted@.len() == j,
                cache == self.mods_indexes.deep_view(),
                forall|a: int, b: int| 0 <= a < b < ks.len() ==> (#[trigger] ks[a]).name@ != (#[trigger] ks[b]).name@,
                forall|k: int| 0 <= k < ks.len() ==> !is_anchor_name((#[trigger] ks[k]).name@),
                names_unique(sorted@),
                forall|k: int| 0 <= k < sorted@.len() ==> has_name(ks.subrange(0, j as int), (#[trigger] sorted@[k]).name@),
            decreases kept@.len(),
        {
            let entry = kept.remove(0);
            let key = key_of(&self.mods_indexes, &entry.name);
            let at = position_for(&self.mods_indexes, &sorted, key);
            let ghost before = sorted@;
            sorted.insert(at, entry);
            proof {
                let pre = ks.subrange(0, j + 1);
                assert(pre.drop_last() =~= ks.subrange(0, j as int));
                assert(pre.last() == entry);
                assert forall|k: int| 0 <= k < before.len() implies (#[trigger] before[k]).name@ != entry.name@ by {
                    let w = choose|w: int| 0 <= w < j && (#[trigger] ks.subrange(0, j as int)[w]).name@ == before[k].name@;
                    assert(ks[w].name@ != ks[j as int].name@);
                }
                assert forall|a: int, b: int| 0 <= a < b < sorted@.len() implies (#[trigger] sorted@[a]).name@ != (#[trigger] sorted@[b]).name@ by {
                    let sa = if a < at { a } else if a == at { -1 } else { a - 1 };
                    let sb = if b < at { b } else if b == at { -1 } else { b - 1 };
                    if sa >= 0 && sb >= 0 {
                        assert(before[sa].name@ != before[sb].name@);
                    }
                }
                assert forall|k: int| 0 <= k < sorted@.len() implies has_name(pre, (#[trigger] sorted@[k]).name@) by {
                    if k == at {
                        assert(pre[j as int].name@ == entry.name@);
                    } else {
                        let s = if k < at { k } else { k - 1 };
                        let w = choose|w: int| 0 <= w < j && (#[trigger] ks.subrange(0, j as int)[w]).name@ == before[s].name@;
                        assert(pre[w] == ks.subrange(0, j as int)[w]);
                    }
                }
            }
            j = j + 1;
            assert(kept@ =~= ks.subrange(j as int, ks.len() as int));
        }
        assert(ks.subrange(0, j as int) =~= ks);
        let base_path = self.get_deployment_mods_absolute_path();
        let overwrite_path = self.parse_path_variables(self.overwrite_relative_path());
        let mut mods: Vec<InstanceMod> = Vec::new();
        mods.push(InstanceMod {
            name: String::from_str("base"),
            enabled: true,
            absolute_path: base_path,
            versions: Vec::new(),
            selected_version_identifier: String::from_str("0.0.0"),
            info: ModInfo::default(),
        });
        let ghost middle = sorted@;
        mods.append(&mut sorted);
        mods.push(InstanceMod {
            name: String::from_str("overwrite"),
            enabled: true,
            absolute_path: overwrite_path,
            versions: Vec::new(),
            selected_version_identifier: String::from_str("0.0.0"),
            info: ModInfo::default(),
        });
        proof {
            reveal_strlit("base");
            reveal_strlit("overwrite");
            let m = mods@;
            assert(m.subrange(1, m.len() - 1) =~= middle);
            assert forall|a: int, b: int| 0 <= a < b < m.len() implies (#[trigger] m[a]).name@ != (#[trigger] m[b]).name@ by {
                if 0 < a && b < m.len() - 1 {
                    assert(middle[a - 1].name@ != middle[b - 1].name@);
                } else if a == 0 && b < m.len() - 1 {
                    let w = choose|w: int| 0 <= w < ks.len() && (#[trigger] ks[w]).name@ == middle[b - 1].name@;
                    assert(!is_anchor_name(ks[w].name@));
                } else if a > 0 {
                    let w = choose|w: int| 0 <= w < ks.len() && (#[trigger] ks[w]).name@ == middle[a - 1].name@;
                    assert(!is_anchor_name(ks[w].name@));
                }
            }
        }
        self.mods = mods;
        self.rebuild_mods_order();
        rejected
    }
}

proof fn lemma_accepted_unique(mods: Seq<InstanceMod>)
    ensures
        forall|a: int, b: int| 0 <= a < b < accepted(mods).len() ==> (#[trigger] accepted(mods)[a]).name@ != (#[trigger] accepted(mods)[b]).name@,
        forall|k: int| 0 <= k < accepted(mods).len() ==> !is_anchor_name((#[trigger] accepted(mods)[k]).name@),
        accepted(mods).len() <= mods.len(),
    decreases mods.len(),
{
    if mods.len() > 0 {
        lemma_accepted_unique(mods.drop_last());
        let prev = accepted(mods.drop_last());
        if !(is_anchor_name(mods.last().name@) || has_name(prev, mods.last().name@)) {
            let cur = accepted(mods);
            assert forall|a: int, b: int| 0 <= a < b < cur.len() implies (#[trigger] cur[a]).name@ != (#[trigger] cur[b]).name@ by {
                if b == cur.len() - 1 {
                    assert(cur[a] == prev[a]);
                } else {
                    assert(cur[a] == prev[a] && cur[b] == prev[b]);
                }
            }
            assert forall|k: int| 0 <= k < cur.len() implies !is_anchor_name((#[trigger] cur[k]).name@) by {
                if k < prev.len() {
                    assert(cur[k] == prev[k]);
                }
            }
        }
    }
}

} // verus!
