use vstd::prelude::*;

verus! {

pub const JOIN_TABLE__FILM_ACTOR: &'static str = "film_actor";

pub const JOIN_TABLE__FILM_ACTOR__FILM_ID: &'static str = "film_id";

pub const JOIN_TABLE__FILM_ACTOR__ACTOR_ID: &'static str = "actor_id";

pub const JOIN_TABLE__FILM_CATEGORY: &'static str = "film_category";

pub const JOIN_TABLE__FILM_CATEGORY__FILM_ID: &'static str = "film_id";

pub const JOIN_TABLE__FILM_CATEGORY__CATEGORY_ID: &'static str = "category_id";

} // verus!
