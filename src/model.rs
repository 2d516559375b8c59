use vstd::prelude::*;
use crate::repository::matching;
use crate::rid::RID;

verus! {

/// An entity type that can be queried by example.
///
/// Its `Criteria` mirrors the entity's fields, each either unset (a
/// wildcard) or holding the one value that the field must equal.
pub trait Model: Sized {
    type Criteria;

    /// The text of the entity's identifier.
    spec fn id_spec(&self) -> Seq<char>;

    fn rid(&self) -> (r: &RID)
        ensures
            r@ == self.id_spec(),
    ;

    /// Whether the entity satisfies every constraint that the criteria set.
    spec fn matches_spec(&self, criteria: &Self::Criteria) -> bool;

    fn matches_criteria(&self, criteria: &Self::Criteria) -> (r: bool)
        ensures
            r == self.matches_spec(criteria),
    ;
}

/// An unset field accepts any value; a set one accepts exactly its own value.
pub open spec fn field_accepts(constraint: Option<Seq<char>>, value: Seq<char>) -> bool {
    match constraint {
        None => true,
        Some(expected) => expected == value,
    }
}

pub open spec fn opt_view(o: Option<String>) -> Option<Seq<char>> {
    match o {
        None => None,
        Some(s) => Some(s@),
    }
}

pub open spec fn opt_rid_view(o: Option<RID>) -> Option<Seq<char>> {
    match o {
        None => None,
        Some(r) => Some(r@),
    }
}

fn check_field(constraint: &Option<String>, value: &String) -> (r: bool)
    ensures
        r == field_accepts(opt_view(*constraint), value@),
{
    match constraint {
        None => true,
        Some(expected) => *expected == *value,
    }
}

/// A person record, the entity type that shards hold.
#[derive(Debug)]
pub struct User {
    pub id: RID,
    pub first_name: String,
    pub last_name: String,
    pub country: String,
    pub address: String,
    pub city: String,
}

impl User {
    pub fn new(
        id: RID,
        first_name: String,
        last_name: String,
        country: String,
        address: String,
        city: String,
    ) -> (r: User)
        ensures
            r == (User { id, first_name, last_name, country, address, city }),
    {
        User { id, first_name, last_name, country, address, city }
    }
}

impl Clone for User {
    fn clone(&self) -> (r: User)
        ensures
            r.id@ == self.id@,
            r.first_name == self.first_name,
            r.last_name == self.last_name,
            r.country == self.country,
            r.address == self.address,
            r.city == self.city,
    {
        User {
            id: self.id.clone(),
            first_name: self.first_name.clone(),
            last_name: self.last_name.clone(),
            country: self.country.clone(),
            address: self.address.clone(),
            city: self.city.clone(),
        }
    }
}

/// Query-by-example criteria for `User`: one optional value per field.
#[derive(Debug)]
pub struct UserQueryParams {
    pub id: Option<RID>,
    pub first_name: Option<String>,
    pub last_name: Option<String>,
    pub country: Option<String>,
    pub address: Option<String>,
    pub city: Option<String>,
}

impl UserQueryParams {
    /// Whether no field is set.
    pub open spec fn is_unset(&self) -> bool {
        &&& self.id is None
        &&& self.first_name is None
        &&& self.last_name is None
        &&& self.country is None
        &&& self.address is None
        &&& self.city is None
    }

    /// Criteria with every field unset: they match every user.
    pub fn default() -> (r: UserQueryParams)
        ensures
            r.is_unset(),
    {
        UserQueryParams {
            id: None,
            first_name: None,
            last_name: None,
            country: None,
            address: None,
            city: None,
        }
    }

    pub fn builder() -> (r: UserQueryParamsBuilder)
        ensures
            r@.is_unset(),
    {
        UserQueryParamsBuilder::new()
    }
}

impl Model for User {
    type Criteria = UserQueryParams;

    open spec fn id_spec(&self) -> Seq<char> {
        self.id@
    }

    fn rid(&self) -> (r: &RID) {
        &self.id
    }

    open spec fn matches_spec(&self, q: &UserQueryParams) -> bool {
        &&& field_accepts(opt_rid_view(q.id), self.id@)
        &&& field_accepts(opt_view(q.first_name), self.first_name@)
        &&& field_accepts(opt_view(q.last_name), self.last_name@)
        &&& field_accepts(opt_view(q.country), self.country@)
        &&& field_accepts(opt_view(q.address), self.address@)
        &&& field_accepts(opt_view(q.city), self.city@)
    }

    fn matches_criteria(&self, query: &UserQueryParams) -> (r: bool) {
        let id_ok = match &query.id {
            None => true,
            Some(expected) => *expected == self.id,
        };
        id_ok && check_field(&query.first_name, &self.first_name) && check_field(
            &query.last_name,
            &self.last_name,
        ) && check_field(&query.country, &self.country) && check_field(
            &query.address,
            &self.address,
        ) && check_field(&query.city, &self.city)
    }
}

/// Criteria with no field set match every user.
pub proof fn lemma_unset_criteria_match_all(u: User, criteria: UserQueryParams)
    requires
        criteria.is_unset(),
    ensures
        u.matches_spec(&criteria),
{
}

/// An unset criteria matches every entity: the users that it selects are all
/// the users held, in insertion order.
pub proof fn lemma_unset_criteria_select_all(users: Seq<User>, criteria: UserQueryParams)
    requires
        criteria.is_unset(),
    ensures
        matching(users, criteria) == users,
    decreases users.len(),
{
    if users.len() == 0 {
        reveal(Seq::filter);
    } else {
        lemma_unset_criteria_select_all(users.drop_last(), criteria);
        assert(users == users.drop_last().push(users.last()));
        users.drop_last().lemma_filter_push(users.last(), |e: User| e.matches_spec(&criteria));
    }
}

/// Builds `UserQueryParams` one field at a time.
pub struct UserQueryParamsBuilder(UserQueryParams);

impl View for UserQueryParamsBuilder {
    type V = UserQueryParams;

    closed spec fn view(&self) -> UserQueryParams {
        self.0
    }
}

impl UserQueryParamsBuilder {
    pub fn new() -> (r: UserQueryParamsBuilder)
        ensures
            r@.is_unset(),
    {
        UserQueryParamsBuilder(UserQueryParams::default())
    }

    /// The finished criteria.
    pub fn wrap(self) -> (r: UserQueryParams)
        ensures
            r == self@,
    {
        self.0
    }

    pub fn id(self, value: RID) -> (r: UserQueryParamsBuilder)
        ensures
            r@ == (UserQueryParams { id: Some(value), ..self@ }),
    {
        let mut q = self.0;
        q.id = Some(value);
        UserQueryParamsBuilder(q)
    }

    pub fn first_name(self, value: String) -> (r: UserQueryParamsBuilder)
        ensures
            r@ == (UserQueryParams { first_name: Some(value), ..self@ }),
    {
        let mut q = self.0;
        q.first_name = Some(value);
        UserQueryParamsBuilder(q)
    }

    pub fn last_name(self, value: String) -> (r: UserQueryParamsBuilder)
        ensures
            r@ == (UserQueryParams { last_name: Some(value), ..self@ }),
    {
        let mut q = self.0;
        q.last_name = Some(value);
        UserQueryParamsBuilder(q)
    }

    pub fn country(self, value: String) -> (r: UserQueryParamsBuilder)
        ensures
            r@ == (UserQueryParams { country: Some(value), ..self@ }),
    {
        let mut q = self.0;
        q.country = Some(value);
        UserQueryParamsBuilder(q)
    }

    pub fn address(self, value: String) -> (r: UserQueryParamsBuilder)
        ensures
            r@ == (UserQueryParams { address: Some(value), ..self@ }),
    {
        let mut q = self.0;
        q.address = Some(value);
        UserQueryParamsBuilder(q)
    }

    pub fn city(self, value: String) -> (r: UserQueryParamsBuilder)
        ensures
            r@ == (UserQueryParams { city: Some(value), ..self@ }),
    {
        let mut q = self.0;
        q.city = Some(value);
        UserQueryParamsBuilder(q)
    }
}

/// The fields of a `User` without its identifier, as an insert supplies them.
#[derive(Debug)]
pub struct InsertUserModel {
    pub first_name: String,
    pub last_name: String,
    pub country: String,
    pub address: String,
    pub city: String,
}

impl InsertUserModel {
    /// The user that these fields make under the given identifier.
    pub open spec fn with_id(self, id: RID) -> User {
        User {
            id,
            first_name: self.first_name,
            last_name: self.last_name,
            country: self.country,
            address: self.address,
            city: self.city,
        }
    }

    /// Whether `u` is the user that these fields make under an identifier
    /// whose text is `id`.
    pub open spec fn makes(self, u: User, id: Seq<char>) -> bool {
        &&& u.id@ == id
        &&& u.first_name == self.first_name
        &&& u.last_name == self.last_name
        &&& u.country == self.country
        &&& u.address == self.address
        &&& u.city == self.city
    }

    pub fn into_model(self, id: RID) -> (r: User)
        ensures
            r == self.with_id(id),
    {
        User {
            id,
            first_name: self.first_name,
            last_name: self.last_name,
            country: self.country,
            address: self.address,
            city: self.city,
        }
    }
}

/// Parameters that a read takes besides the criteria.
#[derive(Debug, Clone, Copy, PartialEq, Eq)]
pub struct QueryParams {
    /// At most this many rows, counted on each shard separately.
    pub limit: Option<usize>,
}

} // verus!
