use vstd::prelude::*;
use crate::model::Model;
use crate::repository::Repository;
use crate::rid::RID;

verus! {

/// A reference to the entity with a given identifier in a repository.
pub struct Reference<'d, T> {
    uuid: RID,
    data: &'d Repository<T>,
}

impl<'d, T: Model> Reference<'d, T> {
    pub closed spec fn target(&self) -> Seq<char> {
        self.uuid@
    }

    pub closed spec fn entities(&self) -> Seq<T> {
        self.data@
    }

    pub fn new(uuid: RID, data: &'d Repository<T>) -> (r: Reference<'d, T>)
        ensures
            r.target() == uuid@,
            r.entities() == data@,
    {
        Reference { uuid, data }
    }

    /// The first entity, in insertion order, whose identifier is the target;
    /// `None` when there is none.
    pub fn get(&self) -> (r: Option<&'d T>)
        ensures
            match r {
                Some(e) => exists|i: int|
                    0 <= i < self.entities().len() && self.entities()[i] == *e
                        && e.id_spec() == self.target() && forall|j: int|
                        0 <= j < i ==> (#[trigger] self.entities()[j]).id_spec() != self.target(),
                None => forall|j: int|
                    0 <= j < self.entities().len() ==> (#[trigger] self.entities()[j]).id_spec()
                        != self.target(),
            },
    {
        let all: &'d Vec<T> = self.data.get_all();
        let mut i: usize = 0;
        while i < all.len()
            invariant
                0 <= i <= all@.len(),
                all@ == self.entities(),
                forall|j: int| 0 <= j < i ==> (#[trigger] all@[j]).id_spec() != self.target(),
            decreases all@.len() - i,
        {
            let e: &'d T = &all[i];
            if *e.rid() == self.uuid {
                return Some(e);
            }
            i = i + 1;
        }
        None
    }
}

/// A one-to-one link from an entity of one repository to an entity of
/// another.
pub struct OneToOne<'d, F, T> {
    pub from: Reference<'d, F>,
    pub to: Reference<'d, T>,
}

impl<'d, F: Model, T: Model> OneToOne<'d, F, T> {
    pub fn new(
        from: RID,
        to: RID,
        from_data: &'d Repository<F>,
        to_data: &'d Repository<T>,
    ) -> (r: OneToOne<'d, F, T>)
        ensures
            r.from.target() == from@,
            r.from.entities() == from_data@,
            r.to.target() == to@,
            r.to.entities() == to_data@,
    {
        OneToOne { from: Reference::new(from, from_data), to: Reference::new(to, to_data) }
    }
}

} // verus!
