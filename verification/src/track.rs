//! What a bind group uses, and how.

use crate::flags::{BufferUses, TextureUses};
use crate::storage::{BufferId, Id, SamplerId, Storage, TextureId, TextureViewId};
use crate::texture_view::TextureSelector;
use vstd::prelude::*;

verus! {

/// A buffer, and how a binding uses it.
#[derive(Clone, Copy, Debug, PartialEq, Eq, Structural)]
pub struct BufferUse {
    pub id: BufferId,
    pub usage: BufferUses,
}

/// A texture, the part of it that a binding uses, and how.
#[derive(Debug, PartialEq, Eq)]
pub struct TextureUse {
    pub id: TextureId,
    /// The mip levels and array layers used; all of them if left out.
    pub selector: Option<TextureSelector>,
    pub usage: TextureUses,
}

/// Everything a bind group uses: each buffer and texture with the access that its
/// binding needs, and each texture view and sampler.
#[derive(Debug, PartialEq, Eq)]
pub struct BindGroupStates {
    pub buffers: Vec<BufferUse>,
    pub textures: Vec<TextureUse>,
    pub views: Vec<TextureViewId>,
    pub samplers: Vec<SamplerId>,
}

/// Whether `ids` go strictly up.
pub open spec fn spec_strictly_sorted(ids: Seq<Id>) -> bool {
    forall|i: int, j: int| 0 <= i < j < ids.len() ==> ids[i] < ids[j]
}

/// Puts `id` into sorted `ids`, unless it is there already.
fn insert_id(ids: &mut Vec<Id>, id: Id)
    requires
        spec_strictly_sorted(old(ids)@),
    ensures
        spec_strictly_sorted(final(ids)@),
        final(ids)@.to_set() == old(ids)@.to_set().insert(id),
{
    let ghost before = ids@;
    let mut i: usize = 0;
    while i < ids.len() && ids[i] < id
        invariant
            i <= ids@.len(),
            ids@ == before,
            forall|j: int| 0 <= j < i ==> before[j] < id,
        decreases ids@.len() - i,
    {
        i += 1;
    }
    if i < ids.len() && ids[i] == id {
        assert(before.to_set().insert(id) =~= before.to_set()) by {
            assert(before.contains(before[i as int]));
        }
    } else {
        ids.insert(i, id);
        assert forall|a: int, b: int| 0 <= a < b < ids@.len() implies ids@[a] < ids@[b] by {
            if b < i {
            } else if b == i {
            } else if a < i {
                assert(ids@[b] == before[b - 1]);
            } else if a == i {
                assert(ids@[b] == before[b - 1]);
            } else {
                assert(ids@[a] == before[a - 1] && ids@[b] == before[b - 1]);
            }
        }
        assert(ids@.to_set() =~= before.to_set().insert(id)) by {
            assert forall|x: Id| #[trigger]
                ids@.to_set().contains(x) <==> before.to_set().insert(id).contains(x) by {
                if ids@.contains(x) {
                    let k = choose|k: int| 0 <= k < ids@.len() && ids@[k] == x;
                    if k < i {
                        assert(before[k] == x);
                    } else if k > i {
                        assert(before[k - 1] == x);
                    }
                }
                if before.contains(x) {
                    let k = choose|k: int| 0 <= k < before.len() && before[k] == x;
                    if k < i {
                        assert(ids@[k] == x);
                    } else {
                        assert(ids@[k + 1] == x);
                    }
                }
                if x == id {
                    assert(ids@[i as int] == x);
                }
            }
        }
    }
}

/// The same identities, each once, going up.
fn sort_and_dedup(ids: &mut Vec<Id>)
    ensures
        spec_strictly_sorted(final(ids)@),
        final(ids)@.to_set() == old(ids)@.to_set(),
{
    let ghost before = ids@;
    let mut sorted: Vec<Id> = Vec::new();
    let mut i: usize = 0;
    assert(sorted@.to_set() =~= before.take(0).to_set());
    while i < ids.len()
        invariant
            i <= ids@.len(),
            ids@ == before,
            spec_strictly_sorted(sorted@),
            sorted@.to_set() == before.take(i as int).to_set(),
        decreases ids@.len() - i,
    {
        insert_id(&mut sorted, ids[i]);
        i += 1;
        proof {
            lemma_take_one_more(before, i as int);
        }
    }
    assert(before.take(i as int) =~= before);
    *ids = sorted;
}

/// Whether the buffers used stand in the order of their identities.
pub open spec fn spec_buffers_sorted(uses: Seq<BufferUse>) -> bool {
    forall|i: int, j: int| 0 <= i <= j < uses.len() ==> uses[i].id <= uses[j].id
}

/// Whether the textures used stand in the order of their identities.
pub open spec fn spec_textures_sorted(uses: Seq<TextureUse>) -> bool {
    forall|i: int, j: int| 0 <= i <= j < uses.len() ==> uses[i].id <= uses[j].id
}

/// Whether two uses of textures are the same: of the same texture, of the same part of
/// it, and in the same way.
fn same_texture_use(a: &TextureUse, b: &TextureUse) -> (r: bool)
    ensures
        r == (*a == *b),
{
    let same_selector = match (&a.selector, &b.selector) {
        (None, None) => true,
        (Some(x), Some(y)) => x.mips.start == y.mips.start && x.mips.end == y.mips.end
            && x.layers.start == y.layers.start && x.layers.end == y.layers.end,
        _ => false,
    };
    a.id == b.id && a.usage.bits == b.usage.bits && same_selector
}

/// The same uses, each once, in the order of the identities of their buffers.
fn sort_buffers(uses: &mut Vec<BufferUse>)
    ensures
        spec_buffers_sorted(final(uses)@),
        final(uses)@.no_duplicates(),
        final(uses)@.to_set() == old(uses)@.to_set(),
{
    let ghost before = uses@;
    let mut sorted: Vec<BufferUse> = Vec::new();
    let mut i: usize = 0;
    assert(sorted@.to_set() =~= before.take(0).to_set());
    while i < uses.len()
        invariant
            i <= uses@.len(),
            uses@ == before,
            spec_buffers_sorted(sorted@),
            sorted@.no_duplicates(),
            sorted@.to_set() == before.take(i as int).to_set(),
        decreases uses@.len() - i,
    {
        let item = uses[i];
        let ghost placed = sorted@;
        let mut at: usize = 0;
        while at < sorted.len() && sorted[at].id < item.id
            invariant
                at <= sorted@.len(),
                sorted@ == placed,
                forall|k: int| 0 <= k < at ==> placed[k].id < item.id,
            decreases sorted@.len() - at,
        {
            at += 1;
        }
        let mut k: usize = at;
        let mut found = false;
        while !found && k < sorted.len() && sorted[k].id == item.id
            invariant
                at <= k <= sorted@.len(),
                sorted@ == placed,
                found ==> placed.contains(item),
                !found ==> forall|j: int| at <= j < k ==> placed[j] != item,
                forall|j: int| at <= j < k ==> placed[j].id == item.id,
            decreases sorted@.len() - k + if found { 0int } else { 1int },
        {
            if sorted[k].usage.bits == item.usage.bits {
                found = true;
                assert(placed[k as int] == item);
            } else {
                k += 1;
            }
        }
        if !found {
            assert forall|j: int| 0 <= j < placed.len() implies placed[j] != item by {
                if j >= k {
                    assert(placed[k as int].id <= placed[j].id);
                }
            }
            sorted.insert(at, item);
            assert forall|a: int, b: int| 0 <= a <= b < sorted@.len() implies sorted@[a].id
                <= sorted@[b].id by {
                if a < at && b > at {
                    assert(sorted@[b] == placed[b - 1]);
                } else if a > at {
                    assert(sorted@[a] == placed[a - 1] && sorted@[b] == placed[b - 1]);
                } else if a == at && b > at {
                    assert(sorted@[b] == placed[b - 1]);
                    assert(placed[at as int].id <= placed[b - 1].id);
                }
            }
            assert forall|a: int, b: int|
                0 <= a < sorted@.len() && 0 <= b < sorted@.len() && a != b implies sorted@[a]
                != sorted@[b] by {
                let back_a = if a < at { a } else { a - 1 };
                let back_b = if b < at { b } else { b - 1 };
                if a != at && b != at {
                    assert(sorted@[a] == placed[back_a] && sorted@[b] == placed[back_b]);
                } else if a == at {
                    assert(sorted@[b] == placed[back_b]);
                } else {
                    assert(sorted@[a] == placed[back_a]);
                }
            }
            assert(sorted@.to_set() =~= placed.to_set().insert(item)) by {
                assert forall|x: BufferUse| #[trigger]
                    sorted@.to_set().contains(x) <==> placed.to_set().insert(item).contains(x) by {
                    if sorted@.contains(x) {
                        let n = choose|n: int| 0 <= n < sorted@.len() && sorted@[n] == x;
                        if n < at {
                            assert(placed[n] == x);
                        } else if n > at {
                            assert(placed[n - 1] == x);
                        }
                    }
                    if placed.contains(x) {
                        let n = choose|n: int| 0 <= n < placed.len() && placed[n] == x;
                        if n < at {
                            assert(sorted@[n] == x);
                        } else {
                            assert(sorted@[n + 1] == x);
                        }
                    }
                    if x == item {
                        assert(sorted@[at as int] == x);
                    }
                }
            }
        } else {
            assert(placed.to_set().insert(item) =~= placed.to_set());
        }
        i += 1;
        proof {
            lemma_take_one_more(before, i as int);
        }
    }
    assert(before.take(i as int) =~= before);
    *uses = sorted;
}

/// The same uses, each once, in the order of the identities of their textures.
fn sort_textures(uses: &mut Vec<TextureUse>)
    ensures
        spec_textures_sorted(final(uses)@),
        final(uses)@.no_duplicates(),
        final(uses)@.to_set() == old(uses)@.to_set(),
{
    let ghost before = uses@;
    let mut sorted: Vec<TextureUse> = Vec::new();
    assert(sorted@.to_set().union(uses@.to_set()) =~= before.to_set());
    while uses.len() > 0
        invariant
            spec_textures_sorted(sorted@),
            sorted@.no_duplicates(),
            sorted@.to_set().union(uses@.to_set()) == before.to_set(),
        decreases uses@.len(),
    {
        let ghost rest = uses@;
        let ghost placed = sorted@;
        let item = uses.pop().unwrap();
        assert(rest.to_set() =~= uses@.to_set().insert(item)) by {
            assert(rest =~= uses@.push(item));
            assert forall|x: TextureUse| #[trigger]
                rest.to_set().contains(x) <==> uses@.to_set().insert(item).contains(x) by {
                if rest.contains(x) {
                    let n = choose|n: int| 0 <= n < rest.len() && rest[n] == x;
                    if n < uses@.len() {
                        assert(uses@[n] == x);
                    }
                }
                if uses@.contains(x) {
                    let n = choose|n: int| 0 <= n < uses@.len() && uses@[n] == x;
                    assert(rest[n] == x);
                }
                if x == item {
                    assert(rest[rest.len() - 1] == x);
                }
            }
        }
        let mut at: usize = 0;
        while at < sorted.len() && sorted[at].id < item.id
            invariant
                at <= sorted@.len(),
                sorted@ == placed,
                forall|k: int| 0 <= k < at ==> placed[k].id < item.id,
            decreases sorted@.len() - at,
        {
            at += 1;
        }
        let mut k: usize = at;
        let mut found = false;
        while !found && k < sorted.len() && sorted[k].id == item.id
            invariant
                at <= k <= sorted@.len(),
                sorted@ == placed,
                found ==> placed.contains(item),
                !found ==> forall|j: int| at <= j < k ==> placed[j] != item,
                forall|j: int| at <= j < k ==> placed[j].id == item.id,
            decreases sorted@.len() - k + if found { 0int } else { 1int },
        {
            if same_texture_use(&sorted[k], &item) {
                found = true;
                assert(placed[k as int] == item);
            } else {
                k += 1;
            }
        }
        if !found {
            assert forall|j: int| 0 <= j < placed.len() implies placed[j] != item by {
                if j >= k {
                    assert(placed[k as int].id <= placed[j].id);
                }
            }
            sorted.insert(at, item);
            assert forall|a: int, b: int| 0 <= a <= b < sorted@.len() implies sorted@[a].id
                <= sorted@[b].id by {
                if a < at && b > at {
                    assert(sorted@[b] == placed[b - 1]);
                } else if a > at {
                    assert(sorted@[a] == placed[a - 1] && sorted@[b] == placed[b - 1]);
                } else if a == at && b > at {
                    assert(sorted@[b] == placed[b - 1]);
                    assert(placed[at as int].id <= placed[b - 1].id);
                }
            }
            assert forall|a: int, b: int|
                0 <= a < sorted@.len() && 0 <= b < sorted@.len() && a != b implies sorted@[a]
                != sorted@[b] by {
                let back_a = if a < at { a } else { a - 1 };
                let back_b = if b < at { b } else { b - 1 };
                if a != at && b != at {
                    assert(sorted@[a] == placed[back_a] && sorted@[b] == placed[back_b]);
                } else if a == at {
                    assert(sorted@[b] == placed[back_b]);
                } else {
                    assert(sorted@[a] == placed[back_a]);
                }
            }
            assert(sorted@.to_set() =~= placed.to_set().insert(item)) by {
                assert forall|x: TextureUse| #[trigger]
                    sorted@.to_set().contains(x) <==> placed.to_set().insert(item).contains(x) by {
                    if sorted@.contains(x) {
                        let n = choose|n: int| 0 <= n < sorted@.len() && sorted@[n] == x;
                        if n < at {
                            assert(placed[n] == x);
                        } else if n > at {
                            assert(placed[n - 1] == x);
                        }
                    }
                    if placed.contains(x) {
                        let n = choose|n: int| 0 <= n < placed.len() && placed[n] == x;
                        if n < at {
                            assert(sorted@[n] == x);
                        } else {
                            assert(sorted@[n + 1] == x);
                        }
                    }
                    if x == item {
                        assert(sorted@[at as int] == x);
                    }
                }
            }
        } else {
            assert(placed.to_set().insert(item) =~= placed.to_set());
        }
        assert(sorted@.to_set().union(uses@.to_set()) =~= placed.to_set().union(rest.to_set()));
    }
    assert(uses@.to_set() =~= Set::<TextureUse>::empty()) by {
        assert forall|x: TextureUse| !uses@.contains(x) by {}
    }
    assert(sorted@.to_set().union(Set::<TextureUse>::empty()) =~= sorted@.to_set());
    *uses = sorted;
}

/// What the first `n` items of a list hold is what the first `n - 1` hold and the item
/// after them.
proof fn lemma_take_one_more<T>(items: Seq<T>, n: int)
    requires
        0 < n <= items.len(),
    ensures
        items.take(n).to_set() == items.take(n - 1).to_set().insert(items[n - 1]),
{
    let longer = items.take(n);
    let shorter = items.take(n - 1);
    assert forall|x: T| #[trigger]
        longer.to_set().contains(x) <==> shorter.to_set().insert(items[n - 1]).contains(x) by {
        if longer.contains(x) {
            let k = choose|k: int| 0 <= k < longer.len() && longer[k] == x;
            if k < n - 1 {
                assert(shorter[k] == x);
            }
        }
        if shorter.contains(x) {
            let k = choose|k: int| 0 <= k < shorter.len() && shorter[k] == x;
            assert(longer[k] == x);
        }
        if x == items[n - 1] {
            assert(longer[n - 1] == x);
        }
    }
    assert(longer.to_set() =~= shorter.to_set().insert(items[n - 1]));
}

impl BindGroupStates {
    /// The record of a bind group that uses nothing yet.
    pub fn new() -> (r: Self)
        ensures
            r.buffers@.len() == 0,
            r.textures@.len() == 0,
            r.views@.len() == 0,
            r.samplers@.len() == 0,
    {
        BindGroupStates {
            buffers: Vec::new(),
            textures: Vec::new(),
            views: Vec::new(),
            samplers: Vec::new(),
        }
    }

    /// Records that a binding uses the buffer at `id` as `usage`, and hands the buffer
    /// back. Nothing is recorded if the table has no buffer there.
    pub fn add_buffer<'a, B>(&mut self, storage: &'a Storage<B>, id: BufferId, usage: BufferUses) -> (r:
        Option<&'a B>)
        ensures
            r == match storage.spec_get(id) {
                Some(buffer) => Some(&buffer),
                None => None,
            },
            final(self).buffers@ == if storage.spec_get(id) is Some {
                old(self).buffers@.push(BufferUse { id, usage })
            } else {
                old(self).buffers@
            },
            final(self).textures == old(self).textures,
            final(self).views == old(self).views,
            final(self).samplers == old(self).samplers,
    {
        match storage.get(id) {
            Some(buffer) => {
                self.buffers.push(BufferUse { id, usage });
                Some(buffer)
            },
            None => None,
        }
    }

    /// Records that a binding uses part of the texture at `id` as `usage`, and hands the
    /// texture back. Nothing is recorded if the table has no texture there.
    pub fn add_texture<'a, T>(
        &mut self,
        storage: &'a Storage<T>,
        id: TextureId,
        selector: Option<TextureSelector>,
        usage: TextureUses,
    ) -> (r: Option<&'a T>)
        ensures
            r == match storage.spec_get(id) {
                Some(texture) => Some(&texture),
                None => None,
            },
            final(self).textures@ == if storage.spec_get(id) is Some {
                old(self).textures@.push(TextureUse { id, selector, usage })
            } else {
                old(self).textures@
            },
            final(self).buffers == old(self).buffers,
            final(self).views == old(self).views,
            final(self).samplers == old(self).samplers,
    {
        match storage.get(id) {
            Some(texture) => {
                self.textures.push(TextureUse { id, selector, usage });
                Some(texture)
            },
            None => None,
        }
    }

    /// Records that a binding uses the texture view at `id`, and hands the view back.
    /// Nothing is recorded if the table has no view there.
    pub fn add_view<'a, V>(&mut self, storage: &'a Storage<V>, id: TextureViewId) -> (r: Option<
        &'a V,
    >)
        ensures
            r == match storage.spec_get(id) {
                Some(view) => Some(&view),
                None => None,
            },
            final(self).views@ == if storage.spec_get(id) is Some {
                old(self).views@.push(id)
            } else {
                old(self).views@
            },
            final(self).buffers == old(self).buffers,
            final(self).textures == old(self).textures,
            final(self).samplers == old(self).samplers,
    {
        match storage.get(id) {
            Some(view) => {
                self.views.push(id);
                Some(view)
            },
            None => None,
        }
    }

    /// Records that a binding uses the sampler at `id`, and hands the sampler back.
    /// Nothing is recorded if the table has no sampler there.
    pub fn add_sampler<'a, S>(&mut self, storage: &'a Storage<S>, id: SamplerId) -> (r: Option<
        &'a S,
    >)
        ensures
            r == match storage.spec_get(id) {
                Some(sampler) => Some(&sampler),
                None => None,
            },
            final(self).samplers@ == if storage.spec_get(id) is Some {
                old(self).samplers@.push(id)
            } else {
                old(self).samplers@
            },
            final(self).buffers == old(self).buffers,
            final(self).textures == old(self).textures,
            final(self).views == old(self).views,
    {
        match storage.get(id) {
            Some(sampler) => {
                self.samplers.push(id);
                Some(sampler)
            },
            None => None,
        }
    }

    /// Compacts the record once every binding is in it. What is used stays the same,
    /// but each use of a buffer or a texture, and each texture view and sampler, is there
    /// once, and each list is in the order of the identities of what is used. Two uses
    /// of one buffer or texture that differ, in the access or in the part, are both kept.
    pub fn optimize(&mut self)
        ensures
            spec_buffers_sorted(final(self).buffers@),
            final(self).buffers@.no_duplicates(),
            final(self).buffers@.to_set() == old(self).buffers@.to_set(),
            spec_textures_sorted(final(self).textures@),
            final(self).textures@.no_duplicates(),
            final(self).textures@.to_set() == old(self).textures@.to_set(),
            spec_strictly_sorted(final(self).views@),
            final(self).views@.to_set() == old(self).views@.to_set(),
            spec_strictly_sorted(final(self).samplers@),
            final(self).samplers@.to_set() == old(self).samplers@.to_set(),
    {
        sort_buffers(&mut self.buffers);
        sort_textures(&mut self.textures);
        sort_and_dedup(&mut self.views);
        sort_and_dedup(&mut self.samplers);
    }
}

} // verus!
