//! A minimal entity store: entities are indices, and each entity may carry
//! one component of type `C`.
use vstd::prelude::*;

verus! {

pub struct Ecs<C> {
    entity_count: usize,
    component_vec: Option<Vec<Option<C>>>,
}

impl<C> Ecs<C> {
    /// Number of entities created so far.
    pub closed spec fn count(&self) -> nat {
        self.entity_count as nat
    }

    /// The component of each entity, `None` where it has none.
    pub closed spec fn components(&self) -> Seq<Option<C>> {
        match self.component_vec {
            Some(v) => v@,
            None => Seq::new(self.entity_count as nat, |i: int| None),
        }
    }

    pub closed spec fn wf(&self) -> bool {
        self.component_vec matches Some(v) ==> v.len() == self.entity_count
    }

    /// A store with no entities.
    pub fn new() -> (r: Ecs<C>)
        ensures
            r.wf(),
            r.count() == 0,
            r.components() == Seq::<Option<C>>::empty(),
    {
        let r = Ecs { entity_count: 0, component_vec: None };
        assert(r.components() =~= Seq::<Option<C>>::empty());
        r
    }

    /// Creates an entity without a component and returns its index.
    pub fn new_entity(&mut self) -> (r: usize)
        requires
            old(self).wf(),
            old(self).count() < usize::MAX,
        ensures
            final(self).wf(),
            r == old(self).count(),
            final(self).count() == old(self).count() + 1,
            final(self).components() == old(self).components().push(None),
    {
        let entity_id = self.entity_count;
        match &mut self.component_vec {
            Some(v) => v.push(None),
            None => {},
        }
        self.entity_count = self.entity_count + 1;
        assert(self.components() =~= old(self).components().push(None));
        entity_id
    }

    /// Gives entity `entity_id` the component `component`, replacing any it had.
    pub fn add_component_to_entity(&mut self, entity_id: usize, component: C)
        requires
            old(self).wf(),
            entity_id < old(self).count(),
        ensures
            final(self).wf(),
            final(self).count() == old(self).count(),
            final(self).components() == old(self).components().update(entity_id as int, Some(component)),
    {
        match &mut self.component_vec {
            Some(v) => {
                v.set(entity_id, Some(component));
                assert(self.components() =~= old(self).components().update(entity_id as int, Some(component)));
                return ;
            },
            None => {},
        }
        let mut new_component_vec: Vec<Option<C>> = Vec::with_capacity(self.entity_count);
        let mut i: usize = 0;
        while i < self.entity_count
            invariant
                i <= self.entity_count,
                self.entity_count == old(self).entity_count,
                self.component_vec is None,
                new_component_vec@ == Seq::new(i as nat, |k: int| None::<C>),
            decreases self.entity_count - i,
        {
            new_component_vec.push(None);
            assert(new_component_vec@ =~= Seq::new((i + 1) as nat, |k: int| None::<C>));
            i = i + 1;
        }
        new_component_vec.set(entity_id, Some(component));
        self.component_vec = Some(new_component_vec);
        assert(self.components() =~= old(self).components().update(entity_id as int, Some(component)));
    }

    /// The component column, once any entity has been given a component.
    pub fn borrow_component_vec(&self) -> (r: Option<&Vec<Option<C>>>)
        requires
            self.wf(),
        ensures
            r matches Some(v) ==> v@ == self.components(),
            r is None ==> forall|i: int| 0 <= i < self.count() ==> #[trigger] self.components()[i] is None,
    {
        match &self.component_vec {
            Some(v) => Some(v),
            None => None,
        }
    }
}

} // verus!
