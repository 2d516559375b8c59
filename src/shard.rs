use vstd::prelude::*;
use crate::model::{InsertUserModel, QueryParams, User, UserQueryParams};
use crate::repository::{limited, matching, Repository};
use crate::rid::RID;

verus! {

/// The separator between a shard's identity and a minted token.
pub open spec fn scoped_id(shard: Seq<char>, token: Seq<char>) -> Seq<char> {
    shard + seq![':'] + token
}

/// The identifiers of `users`, in their order.
pub open spec fn ids_of(users: Seq<User>) -> Seq<Seq<char>> {
    users.map_values(|u: User| u.id@)
}

/// Whether `ids` holds an identifier of the form that `shard` mints: its
/// identity, the separator, and a 36-character token. Only then can a minted
/// identifier collide with a held one.
pub open spec fn holds_minted_form(ids: Seq<Seq<char>>, shard: Seq<char>) -> bool {
    exists|token: Seq<char>| token.len() == 36 && ids.contains(scoped_id(shard, token))
}

/// A shard that holds no identifier, as a new one, holds none of the minted
/// form: its first insert cannot be refused.
pub proof fn lemma_no_ids_no_minted_form(shard: Seq<char>)
    ensures
        !holds_minted_form(Seq::<Seq<char>>::empty(), shard),
{
}

/// Why an insert was refused.
#[derive(Debug, Clone, Copy, PartialEq, Eq)]
pub enum InsertError {
    /// The identifier is already held by an entity of this shard.
    DuplicateId,
}

/// Relies on `uuid::Uuid::new_v4`, written out by the UUID's `Display`
/// impl: a random version-4 UUID in hyphenated form, which is 36
/// characters long. Nothing is promised of its value.
#[verifier::external_body]
fn random_token() -> (r: String)
    ensures
        r@.len() == 36,
{
    uuid::Uuid::new_v4().to_string()
}

/// A shard: a fixed identity and one repository per entity type.
///
/// Every identifier that it holds is distinct, and the document count is the
/// number of entities held.
pub struct DB {
    id: RID,
    document_count: usize,
    users: Repository<User>,
}

impl DB {
    /// The shard's identity.
    pub closed spec fn shard_id(&self) -> Seq<char> {
        self.id@
    }

    /// The users held, in insertion order.
    pub closed spec fn users_view(&self) -> Seq<User> {
        self.users@
    }

    pub closed spec fn count(&self) -> nat {
        self.document_count as nat
    }

    pub open spec fn ids(&self) -> Seq<Seq<char>> {
        ids_of(self.users_view())
    }

    pub open spec fn wf(&self) -> bool {
        &&& self.ids().no_duplicates()
        &&& self.count() == self.users_view().len()
    }

    /// An empty shard with the given identity.
    pub fn new(id: &str) -> (r: DB)
        ensures
            r.wf(),
            r.shard_id() == id@,
            r.users_view() == Seq::<User>::empty(),
    {
        DB { id: RID::new(id), document_count: 0, users: Repository::new() }
    }

    /// A line naming the shard.
    pub fn info_string(&self) -> (r: String)
        ensures
            r@ == "Shard: "@ + self.shard_id(),
    {
        let s = String::from_str("Shard: ");
        s.concat(self.id.as_str())
    }

    /// How many entities the shard holds.
    pub fn get_document_count(&self) -> (r: usize)
        ensures
            r == self.count(),
    {
        self.document_count
    }

    /// The users repository.
    pub fn users(&self) -> (r: &Repository<User>)
        ensures
            r@ == self.users_view(),
    {
        &self.users
    }

    /// Whether some held user has the identifier `id`.
    pub fn holds_id(&self, id: &RID) -> (r: bool)
        ensures
            r == self.ids().contains(id@),
    {
        let mut i: usize = 0;
        let all = self.users.get_all();
        while i < all.len()
            invariant
                0 <= i <= all@.len(),
                all@ == self.users_view(),
                forall|j: int| 0 <= j < i ==> all@[j].id@ != id@,
            decreases all@.len() - i,
        {
            if all[i].id == *id {
                proof {
                    assert(self.ids()[i as int] == id@);
                }
                return true;
            }
            i = i + 1;
        }
        proof {
            if self.ids().contains(id@) {
                let k = choose|k: int| 0 <= k < self.ids().len() && self.ids()[k] == id@;
                assert(all@[k].id@ == id@);
            }
        }
        false
    }

    /// A fresh identifier: a random token prefixed by the shard's identity.
    /// It is not checked against the identifiers already held.
    pub fn generate_id(&self) -> (r: RID)
        ensures
            exists|token: Seq<char>| token.len() == 36 && r@ == scoped_id(self.shard_id(), token),
    {
        let token = random_token();
        let mut s = self.id.to_string();
        s.append(":");
        s.append(token.as_str());
        proof {
            reveal_strlit(":");
            assert(s@ == scoped_id(self.shard_id(), token@));
        }
        RID::new(s.as_str())
    }

    /// Adds `user` under its own identifier, taken verbatim.
    ///
    /// Refused, with the shard unchanged, when that identifier is already held.
    pub fn load_user(&mut self, user: User) -> (r: Result<RID, InsertError>)
        requires
            old(self).wf(),
        ensures
            final(self).wf(),
            final(self).shard_id() == old(self).shard_id(),
            old(self).ids().contains(user.id@) ==> r == Err::<RID, InsertError>(
                InsertError::DuplicateId,
            ) && final(self).users_view() == old(self).users_view(),
            !old(self).ids().contains(user.id@) ==> r is Ok && r->Ok_0@ == user.id@
                && final(self).users_view() == old(self).users_view().push(user),
    {
        if self.holds_id(&user.id) {
            return Err(InsertError::DuplicateId);
        }
        let rid = user.id.clone();
        self.users.insert_one(user);
        self.document_count = self.users.len();
        proof {
            assert(self.ids() == old(self).ids().push(user.id@));
            assert forall|i: int, j: int|
                0 <= i < self.ids().len() && 0 <= j < self.ids().len() && i != j implies self.ids()[i]
                != self.ids()[j] by {
                if i < old(self).ids().len() && j < old(self).ids().len() {
                } else if i < old(self).ids().len() {
                    assert(old(self).ids().contains(self.ids()[i]));
                } else {
                    assert(old(self).ids().contains(self.ids()[j]));
                }
            }
        }
        Ok(rid)
    }

    /// Adds a user made of `data` under a freshly minted identifier, which
    /// is returned.
    ///
    /// The minted identifier is distinct from every identifier the shard
    /// already holds: a token that collides is refused, with the shard
    /// unchanged. So the insert succeeds whenever the shard holds no
    /// identifier of the minted form, as on a new shard.
    pub fn insert_user(&mut self, data: InsertUserModel) -> (r: Result<RID, InsertError>)
        requires
            old(self).wf(),
        ensures
            final(self).wf(),
            final(self).shard_id() == old(self).shard_id(),
            match r {
                Ok(rid) => {
                    &&& exists|token: Seq<char>|
                        token.len() == 36 && rid@ == scoped_id(old(self).shard_id(), token)
                    &&& !old(self).ids().contains(rid@)
                    &&& final(self).ids() == old(self).ids().push(rid@)
                    &&& final(self).users_view().len() == old(self).users_view().len() + 1
                    &&& final(self).users_view().drop_last() == old(self).users_view()
                    &&& data.makes(final(self).users_view().last(), rid@)
                },
                Err(e) => {
                    &&& e == InsertError::DuplicateId
                    &&& final(self).users_view() == old(self).users_view()
                    &&& holds_minted_form(old(self).ids(), old(self).shard_id())
                },
            },
    {
        let rid = self.generate_id();
        let user = data.into_model(rid);
        self.load_user(user)
    }

    /// The users that match `query`, in insertion order, cut to the first
    /// `params.limit` of them after the whole scan.
    pub fn get_user(&self, query: &UserQueryParams, params: &QueryParams) -> (r: Vec<&User>)
        ensures
            r@.unref() == limited(matching(self.users_view(), *query), params.limit),
    {
        self.users.find(query, params.limit)
    }
}

} // verus!
