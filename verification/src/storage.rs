//! Tables of resources by identity.

use vstd::prelude::*;

verus! {

/// The identity of a resource in the table of its kind.
pub type Id = u64;

pub type BufferId = Id;

pub type TextureId = Id;

pub type TextureViewId = Id;

pub type SamplerId = Id;

pub type BindGroupLayoutId = Id;

pub type BindGroupId = Id;

pub type PipelineLayoutId = Id;

pub type ShaderModuleId = Id;

pub type DeviceId = Id;

/// The index of a submission to the queue of a device. Indices go up by one with each
/// submission.
pub type SubmissionIndex = u64;

/// What a table holds at one identity.
#[derive(Debug, PartialEq)]
pub enum Element<T> {
    /// Nothing.
    Vacant,
    /// A resource.
    Occupied(T),
    /// The mark left where a resource failed to be created, with a word on what it was
    /// to be.
    Error(&'static str),
}

/// A table of resources of one kind, by identity.
#[derive(Debug, PartialEq)]
pub struct Storage<T> {
    map: Vec<Element<T>>,
}

impl<T> View for Storage<T> {
    type V = Seq<Element<T>>;

    closed spec fn view(&self) -> Seq<Element<T>> {
        self.map@
    }
}

/// The resource that `elements` hold at `id`, if they hold one there.
pub open spec fn spec_resource_at<T>(elements: Seq<Element<T>>, id: Id) -> Option<T> {
    if id < elements.len() {
        match elements[id as int] {
            Element::Occupied(value) => Some(value),
            _ => None,
        }
    } else {
        None
    }
}

/// `elements` with `element` at `id`, and nothing at the identities that had to be added
/// to get there.
pub open spec fn spec_with_element<T>(elements: Seq<Element<T>>, id: Id, element: Element<T>) -> Seq<
    Element<T>,
> {
    if id < elements.len() {
        elements.update(id as int, element)
    } else {
        Seq::new(
            (id + 1) as nat,
            |i: int|
                if i < elements.len() {
                    elements[i]
                } else if i == id {
                    element
                } else {
                    Element::Vacant
                },
        )
    }
}

impl<T> Storage<T> {
    /// The table that holds nothing.
    pub fn new() -> (r: Self)
        ensures
            r@ == Seq::<Element<T>>::empty(),
    {
        Storage { map: Vec::new() }
    }

    /// One more than the largest identity that was ever filled.
    pub fn len(&self) -> (r: usize)
        ensures
            r == self@.len(),
    {
        self.map.len()
    }

    pub open spec fn spec_get(&self, id: Id) -> Option<T> {
        spec_resource_at(self@, id)
    }

    /// The resource at `id`, if there is one.
    pub fn get(&self, id: Id) -> (r: Option<&T>)
        ensures
            r == match self.spec_get(id) {
                Some(value) => Some(&value),
                None => None,
            },
    {
        if id >= self.map.len() as u64 {
            return None;
        }
        match &self.map[id as usize] {
            Element::Occupied(value) => Some(value),
            _ => None,
        }
    }

    /// Whether there is a resource at `id`.
    pub fn contains(&self, id: Id) -> (r: bool)
        ensures
            r == self.spec_get(id) is Some,
    {
        self.get(id).is_some()
    }

    /// Puts `element` at `id`, whatever was there.
    fn put(&mut self, id: Id, element: Element<T>)
        requires
            id < usize::MAX,
        ensures
            final(self)@ == spec_with_element(old(self)@, id, element),
    {
        let ghost before = self.map@;
        if id < self.map.len() as u64 {
            self.map.set(id as usize, element);
        } else {
            while (self.map.len() as u64) < id
                invariant
                    before.len() <= self.map@.len() <= id < usize::MAX,
                    forall|i: int| 0 <= i < before.len() ==> self.map@[i] == before[i],
                    forall|i: int|
                        before.len() <= i < self.map@.len() ==> self.map@[i] == Element::<
                            T,
                        >::Vacant,
                decreases id - self.map@.len(),
            {
                self.map.push(Element::Vacant);
            }
            self.map.push(element);
            assert(self.map@ =~= spec_with_element(before, id, element));
        }
    }

    /// Puts a resource at `id`, in place of whatever was there.
    pub fn force_replace(&mut self, id: Id, value: T)
        requires
            id < usize::MAX,
        ensures
            final(self)@ == spec_with_element(old(self)@, id, Element::Occupied(value)),
            final(self).spec_get(id) == Some(value),
    {
        self.put(id, Element::Occupied(value));
    }

    /// Marks `id` as the place of a resource that failed to be created.
    pub fn insert_error(&mut self, id: Id, label: &'static str)
        requires
            id < usize::MAX,
        ensures
            final(self)@ == spec_with_element(old(self)@, id, Element::Error(label)),
            final(self).spec_get(id) is None,
    {
        self.put(id, Element::Error(label));
    }
}

/// Putting something at one identity changes nothing at another.
pub proof fn lemma_with_element_elsewhere<T>(
    elements: Seq<Element<T>>,
    id: Id,
    element: Element<T>,
    other: Id,
)
    requires
        other != id,
    ensures
        spec_resource_at(spec_with_element(elements, id, element), other) == spec_resource_at(
            elements,
            other,
        ),
{
}

/// What every resource carries: a label for debugging, the identity the device gave it,
/// and the index of the last submission that used it.
#[derive(Debug, PartialEq, Eq)]
pub struct ResourceInfo {
    pub label: String,
    pub id: Option<Id>,
    pub submission_index: SubmissionIndex,
}

impl ResourceInfo {
    /// The block of a resource that has just been created: it has no identity yet, and no
    /// submission has used it.
    pub fn new(label: String) -> (r: Self)
        ensures
            r.label == label,
            r.id is None,
            r.submission_index == 0,
    {
        ResourceInfo { label, id: None, submission_index: 0 }
    }
}

impl<T> Storage<T> {
    /// Takes out the resource at `id`, if there is one, and leaves nothing there.
    pub fn take(&mut self, id: Id) -> (r: Option<T>)
        ensures
            r == old(self).spec_get(id),
            final(self)@ == if old(self).spec_get(id) is Some {
                old(self)@.update(id as int, Element::Vacant)
            } else {
                old(self)@
            },
    {
        if id >= self.map.len() as u64 {
            return None;
        }
        let occupied = match &self.map[id as usize] {
            Element::Occupied(_) => true,
            _ => false,
        };
        if !occupied {
            return None;
        }
        let ghost before = self.map@;
        self.map.push(Element::Vacant);
        let taken = self.map.swap_remove(id as usize);
        assert(self.map@ =~= before.update(id as int, Element::Vacant));
        match taken {
            Element::Occupied(value) => Some(value),
            _ => None,
        }
    }
}

} // verus!
