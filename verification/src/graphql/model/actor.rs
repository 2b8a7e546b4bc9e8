use vstd::prelude::*;
use crate::graphql::filter::InputFilter;
use crate::graphql::filter::TypeInfo;
use crate::graphql::filter::eq;
use crate::graphql::filter::grown;
use crate::graphql::filter::is_in;
use crate::graphql::filter::is_not_in;
use crate::graphql::filter::join_table_on;
use crate::graphql::filter::comparison;
use crate::graphql::filter::join_table_shape;
use crate::graphql::filter::lemma_merge_grows;
use crate::graphql::filter::lemma_new_group_shape;
use crate::graphql::filter::neq;
use crate::graphql::loader::DecodeError;
use crate::graphql::loader::FromRow;
use crate::graphql::loader::Row;
use crate::graphql::loader::WithId;
use crate::graphql::loader::same_text;
use crate::graphql::model::film::Film;
use crate::graphql::model::film::FilmFilter;
use crate::graphql::model::join_tables::JOIN_TABLE__FILM_ACTOR;
use crate::graphql::model::join_tables::JOIN_TABLE__FILM_ACTOR__ACTOR_ID;
use crate::graphql::model::join_tables::JOIN_TABLE__FILM_ACTOR__FILM_ID;
use crate::query::filter_group::FilterGroup;
use crate::query::ops::Combinator;
use crate::query::ops::Operation;
use crate::query::shape::FilterShape;
use crate::query::shape::GroupShape;
use crate::query::table_filter::TableFilter;

verus! {

/// An actor.
#[derive(Debug, Clone, PartialEq)]
pub struct Actor {
    pub actor_id: i32,
    pub first_name: String,
    pub last_name: String,
}

/// An actor, the texts as characters.
pub struct ActorView {
    pub actor_id: i32,
    pub first_name: Seq<char>,
    pub last_name: Seq<char>,
}

impl View for Actor {
    type V = ActorView;

    open spec fn view(&self) -> ActorView {
        ActorView {
            actor_id: self.actor_id,
            first_name: self.first_name@,
            last_name: self.last_name@,
        }
    }
}

impl Default for Actor {
    fn default() -> (r: Self)
        ensures
            r@ == Actor::blank(),
    {
        Actor { actor_id: 0, first_name: String::new(), last_name: String::new() }
    }
}

impl Actor {
    pub const COLUMN_FIRST_NAME: &'static str = "first_name";

    pub const COLUMN_LAST_NAME: &'static str = "last_name";

    pub const COLUMN_ACTOR_ID: &'static str = "actor_id";

    /// The record of which no column has been read.
    pub open spec fn blank() -> ActorView {
        ActorView { actor_id: 0, first_name: Seq::empty(), last_name: Seq::empty() }
    }

    /// `v` after the column named `column` of `row` has been read into it:
    /// a column that the record does not know changes nothing.
    pub open spec fn assigned(v: ActorView, row: &Row, column: Seq<char>) -> Result<
        ActorView,
        DecodeError,
    > {
        if column == Self::COLUMN_ACTOR_ID@ {
            match row.int_at(column) {
                Ok(n) => Ok(ActorView { actor_id: n, ..v }),
                Err(e) => Err(e),
            }
        } else if column == Self::COLUMN_FIRST_NAME@ {
            match row.text_at(column) {
                Ok(s) => Ok(ActorView { first_name: s, ..v }),
                Err(e) => Err(e),
            }
        } else if column == Self::COLUMN_LAST_NAME@ {
            match row.text_at(column) {
                Ok(s) => Ok(ActorView { last_name: s, ..v }),
                Err(e) => Err(e),
            }
        } else {
            Ok(v)
        }
    }

    /// The record after the first `n` columns of `row` have been read, one
    /// after the other.
    pub open spec fn decoded_first(row: &Row, n: nat) -> Result<ActorView, DecodeError>
        decreases n,
    {
        if n == 0 || n > row.columns@.len() {
            Ok(Self::blank())
        } else {
            match Self::decoded_first(row, (n - 1) as nat) {
                Ok(v) => Self::assigned(v, row, row.columns@[n - 1].name@),
                Err(e) => Err(e),
            }
        }
    }

    /// Reads the column named `name` of `row` into the record.
    fn assign(&mut self, row: &Row, name: &str) -> (r: Result<(), DecodeError>)
        ensures
            match r {
                Ok(_) => Actor::assigned(old(self)@, row, name@) == Ok::<ActorView, DecodeError>(
                    final(self)@,
                ),
                Err(e) => Actor::assigned(old(self)@, row, name@) == Err::<ActorView, DecodeError>(
                    e,
                ),
            },
    {
        if same_text(name, Actor::COLUMN_ACTOR_ID) {
            match row.try_get_int(name) {
                Ok(n) => {
                    self.actor_id = n;
                    Ok(())
                },
                Err(e) => Err(e),
            }
        } else if same_text(name, Actor::COLUMN_FIRST_NAME) {
            match row.try_get_text(name) {
                Ok(s) => {
                    self.first_name = s;
                    Ok(())
                },
                Err(e) => Err(e),
            }
        } else if same_text(name, Actor::COLUMN_LAST_NAME) {
            match row.try_get_text(name) {
                Ok(s) => {
                    self.last_name = s;
                    Ok(())
                },
                Err(e) => Err(e),
            }
        } else {
            Ok(())
        }
    }
}

impl TypeInfo for Actor {
    open spec fn field_column(field: Seq<char>) -> Option<Seq<char>> {
        if field == "firstName"@ {
            Some(Actor::COLUMN_FIRST_NAME@)
        } else if field == "lastName"@ {
            Some(Actor::COLUMN_LAST_NAME@)
        } else if field == "films"@ {
            Some(Actor::COLUMN_ACTOR_ID@)
        } else {
            None
        }
    }

    fn column_of(field: &str) -> (r: Option<&'static str>) {
        if same_text(field, "firstName") {
            Some(Actor::COLUMN_FIRST_NAME)
        } else if same_text(field, "lastName") {
            Some(Actor::COLUMN_LAST_NAME)
        } else if same_text(field, "films") {
            Some(Actor::COLUMN_ACTOR_ID)
        } else {
            None
        }
    }
}

impl WithId<i32> for Actor {
    open spec fn spec_id(&self) -> i32 {
        self.actor_id
    }

    fn id(&self) -> (r: &i32) {
        &self.actor_id
    }
}

impl FromRow for Actor {
    open spec fn decoded(row: &Row) -> Result<ActorView, DecodeError> {
        Actor::decoded_first(row, row.columns@.len())
    }

    open spec fn reads(column: Seq<char>) -> bool {
        column == Actor::COLUMN_ACTOR_ID@
            || column == Actor::COLUMN_FIRST_NAME@
            || column == Actor::COLUMN_LAST_NAME@
    }

    fn reads_column(column: &str) -> (r: bool) {
        same_text(column, Actor::COLUMN_ACTOR_ID)
            || same_text(column, Actor::COLUMN_FIRST_NAME)
            || same_text(column, Actor::COLUMN_LAST_NAME)
    }

    fn from_row(row: &Row) -> (r: Result<Self, DecodeError>) {
        let mut result = Actor::default();
        let columns = row.columns();
        let mut i: usize = 0;
        while i < columns.len()
            invariant
                0 <= i <= columns@.len(),
                columns@ == row.columns@,
                Actor::decoded_first(row, i as nat) == Ok::<ActorView, DecodeError>(result@),
            decreases columns@.len() - i,
        {
            match result.assign(row, columns[i].name()) {
                Ok(_) => {},
                Err(e) => {
                    proof {
                        lemma_error_stays(row, (i + 1) as nat, e);
                    }
                    return Err(e);
                },
            }
            i += 1;
        }
        Ok(result)
    }
}

/// A column that the record does not read changes nothing.
pub proof fn lemma_skipped_column_changes_nothing(v: ActorView, row: &Row, column: Seq<char>)
    requires
        !Actor::reads(column),
    ensures
        Actor::assigned(v, row, column) == Ok::<ActorView, DecodeError>(v),
{
}

/// An error in one of the first `n` columns is the error of the row.
pub proof fn lemma_error_stays(row: &Row, n: nat, e: DecodeError)
    requires
        n <= row.columns@.len(),
        Actor::decoded_first(row, n) == Err::<ActorView, DecodeError>(e),
    ensures
        Actor::decoded_first(row, row.columns@.len()) == Err::<ActorView, DecodeError>(e),
    decreases row.columns@.len() - n,
{
    if n < row.columns@.len() {
        lemma_error_stays(row, n + 1, e);
    }
}

/// What is asked of an actor.
#[derive(Debug)]
pub struct ActorFilter {
    pub and: Option<Vec<ActorFilter>>,
    pub or: Option<Vec<ActorFilter>>,
    pub film: Option<Box<FilmFilter>>,
    pub first_name_eq: Option<String>,
    pub first_name_in: Option<Vec<String>>,
    pub first_name_not_eq: Option<String>,
    pub first_name_not_in: Option<Vec<String>>,
    pub last_name_eq: Option<String>,
    pub last_name_in: Option<Vec<String>>,
    pub last_name_not_eq: Option<String>,
    pub last_name_not_in: Option<Vec<String>>,
}

impl Default for ActorFilter {
    fn default() -> (r: Self)
        ensures
            r.and is None,
            r.or is None,
            r.film is None,
            r.first_name_eq is None,
            r.first_name_in is None,
            r.first_name_not_eq is None,
            r.first_name_not_in is None,
            r.last_name_eq is None,
            r.last_name_in is None,
            r.last_name_not_eq is None,
            r.last_name_not_in is None,
    {
        ActorFilter {
            and: None,
            or: None,
            film: None,
            first_name_eq: None,
            first_name_in: None,
            first_name_not_eq: None,
            first_name_not_in: None,
            last_name_eq: None,
            last_name_in: None,
            last_name_not_eq: None,
            last_name_not_in: None,
        }
    }
}

impl ActorFilter {
    /// The inputs of the `and` list, where `all` is set, or else of the
    /// `or` list.
    pub open spec fn inputs(&self, all: bool) -> Option<Vec<ActorFilter>> {
        if all {
            self.and
        } else {
            self.or
        }
    }

    /// What a group that says `into` says after the input has added its
    /// predicates to it: to the group itself where it joins by `And`,
    /// else to a group of their own, which is merged into it.
    pub open spec fn collect_shape(&self, into: GroupShape) -> GroupShape
        decreases self, 3nat, 0nat,
    {
        if into.combinator == Combinator::And {
            self.fill_shape(into)
        } else {
            into.merged(self.fill_shape(GroupShape::empty(Combinator::And)))
        }
    }

    /// What a group that says `into` says after the first `n` inputs of
    /// the `and` list, where `all` is set, or else of the `or` list, have
    /// added their predicates to it, one after the other.
    pub open spec fn list_shape(&self, all: bool, n: nat, into: GroupShape) -> GroupShape
        decreases self, 0nat, n,
    {
        match self.inputs(all) {
            Some(list) => if n == 0 || n > list@.len() {
                into
            } else {
                list@[n - 1].collect_shape(self.list_shape(all, (n - 1) as nat, into))
            },
            None => into,
        }
    }

    /// What a group that says `into` says after the `and` list, where
    /// `all` is set, or else the `or` list, has been added to it: to the
    /// group itself where it joins by the connective of the list, else to
    /// a group of their own, which is merged into it.
    pub open spec fn fill_list_shape(&self, all: bool, into: GroupShape) -> GroupShape
        decreases self, 1nat, 0nat,
    {
        let combinator = if all {
            Combinator::And
        } else {
            Combinator::Or
        };
        match self.inputs(all) {
            Some(list) => if into.combinator == combinator {
                self.list_shape(all, list@.len(), into)
            } else {
                into.merged(self.list_shape(all, list@.len(), GroupShape::empty(combinator)))
            },
            None => into,
        }
    }

    /// What a group that says `into` says after the comparisons of the first name have been
    /// added to it.
    pub open spec fn fill_first_name_shape(&self, into: GroupShape) -> GroupShape {
        into
            .with_filter_if(comparison(Operation::Eq, Actor::COLUMN_FIRST_NAME@, self.first_name_eq))
            .with_filter_if(comparison(Operation::Neq, Actor::COLUMN_FIRST_NAME@, self.first_name_not_eq))
            .with_filter_if(comparison(Operation::In, Actor::COLUMN_FIRST_NAME@, self.first_name_in))
            .with_filter_if(comparison(Operation::NotIn, Actor::COLUMN_FIRST_NAME@, self.first_name_not_in))
    }

    /// What a group that says `into` says after the comparisons of the last name have been
    /// added to it.
    pub open spec fn fill_last_name_shape(&self, into: GroupShape) -> GroupShape {
        into
            .with_filter_if(comparison(Operation::Eq, Actor::COLUMN_LAST_NAME@, self.last_name_eq))
            .with_filter_if(comparison(Operation::Neq, Actor::COLUMN_LAST_NAME@, self.last_name_not_eq))
            .with_filter_if(comparison(Operation::In, Actor::COLUMN_LAST_NAME@, self.last_name_in))
            .with_filter_if(comparison(Operation::NotIn, Actor::COLUMN_LAST_NAME@, self.last_name_not_in))
    }

    /// The join to the films that the actor plays in, where they are asked for.
    pub open spec fn film_join(&self) -> Option<FilterShape>
        decreases self, 1nat, 0nat,
    {
        match self.film {
            Some(child) => Some(
                join_table_shape(
                    "film"@,
                    child.collect_shape(GroupShape::empty(Combinator::And)),
                    JOIN_TABLE__FILM_ACTOR@,
                    JOIN_TABLE__FILM_ACTOR__ACTOR_ID@,
                    JOIN_TABLE__FILM_ACTOR__FILM_ID@,
                    Actor::COLUMN_ACTOR_ID@,
                    Film::COLUMN_FILM_ID@,
                ),
            ),
            None => None,
        }
    }

    /// What a group that says `into` says after that join has been added
    /// to it.
    pub open spec fn fill_relations_shape(&self, into: GroupShape) -> GroupShape
        decreases self, 1nat, 1nat,
    {
        into.with_filter_if(self.film_join())
    }

    /// What a group that says `into` says after the input has added to it
    /// what it asks for: first what its `and` list and its `or` list
    /// collect, then its comparisons, then its joins.
    pub open spec fn fill_shape(&self, into: GroupShape) -> GroupShape
        decreases self, 2nat, 0nat,
    {
        self.fill_relations_shape(
            self.fill_last_name_shape(self.fill_first_name_shape(self.fill_list_shape(false, self.fill_list_shape(true, into)))),
        )
    }

    /// Adds the predicates of this input to `collector`, as what must hold
    /// all at once: into `collector` itself where it joins by `And`, else
    /// into a group of their own, which is merged into it.
    pub fn collect<'f>(&'f self, collector: &mut FilterGroup<'f>)
        ensures
            grown(*old(collector), *final(collector)),
            final(collector).shape() == self.collect_shape(old(collector).shape()),
        decreases self, 3nat,
    {
        if collector.combinator() == Combinator::And {
            self.fill(collector);
        } else {
            let mut g = FilterGroup::new(Combinator::And);
            proof {
                lemma_new_group_shape(g);
            }
            self.fill(&mut g);
            collector.add_group(g);
            proof {
                lemma_merge_grows(*old(collector), g, *collector);
            }
        }
    }

    /// Adds to `g` what each input of the `and` list collects, where `all`
    /// is set, or else of the `or` list: into `g` itself where it joins by
    /// the connective of the list, else into a group of their own, which
    /// is merged into it.
    fn fill_list<'f>(&'f self, g: &mut FilterGroup<'f>, all: bool)
        ensures
            grown(*old(g), *final(g)),
            final(g).shape() == self.fill_list_shape(all, old(g).shape()),
        decreases self, 1nat,
    {
        let combinator = if all {
            Combinator::And
        } else {
            Combinator::Or
        };
        let inputs = if all {
            &self.and
        } else {
            &self.or
        };
        match inputs {
            Some(list) => {
                if g.combinator() == combinator {
                    let mut i: usize = 0;
                    while i < list.len()
                        invariant
                            0 <= i <= list@.len(),
                            *inputs == Some(*list),
                            *inputs == self.inputs(all),
                            grown(*old(g), *g),
                            g.shape() == self.list_shape(all, i as nat, old(g).shape()),
                        decreases list@.len() - i,
                    {
                        proof {
                            assert(*list == inputs->0);
                            assert(decreases_to!(self => *inputs));
                            assert(decreases_to!(*inputs => inputs->0));
                            assert(decreases_to!(*list => list[i as int]));
                        }
                        list[i].collect(g);
                        i += 1;
                    }
                } else {
                    let mut c = FilterGroup::new(combinator);
                    proof {
                        lemma_new_group_shape(c);
                    }
                    let mut i: usize = 0;
                    while i < list.len()
                        invariant
                            0 <= i <= list@.len(),
                            *inputs == Some(*list),
                            *inputs == self.inputs(all),
                            c.combinator == combinator,
                            c.wf(),
                            c.shape() == self.list_shape(
                                all,
                                i as nat,
                                GroupShape::empty(combinator),
                            ),
                        decreases list@.len() - i,
                    {
                        proof {
                            assert(*list == inputs->0);
                            assert(decreases_to!(self => *inputs));
                            assert(decreases_to!(*inputs => inputs->0));
                            assert(decreases_to!(*list => list[i as int]));
                        }
                        list[i].collect(&mut c);
                        i += 1;
                    }
                    g.add_group(c);
                    proof {
                        lemma_merge_grows(*old(g), c, *g);
                    }
                }
            },
            None => {},
        }
    }

    /// Adds to `g` the comparisons of the first name.
    fn fill_first_name<'f>(&'f self, g: &mut FilterGroup<'f>)
        ensures
            grown(*old(g), *final(g)),
            final(g).shape() == self.fill_first_name_shape(old(g).shape()),
    {
        eq(g, Actor::COLUMN_FIRST_NAME, &self.first_name_eq);
        neq(g, Actor::COLUMN_FIRST_NAME, &self.first_name_not_eq);
        is_in(g, Actor::COLUMN_FIRST_NAME, &self.first_name_in);
        is_not_in(g, Actor::COLUMN_FIRST_NAME, &self.first_name_not_in);
    }

    /// Adds to `g` the comparisons of the last name.
    fn fill_last_name<'f>(&'f self, g: &mut FilterGroup<'f>)
        ensures
            grown(*old(g), *final(g)),
            final(g).shape() == self.fill_last_name_shape(old(g).shape()),
    {
        eq(g, Actor::COLUMN_LAST_NAME, &self.last_name_eq);
        neq(g, Actor::COLUMN_LAST_NAME, &self.last_name_not_eq);
        is_in(g, Actor::COLUMN_LAST_NAME, &self.last_name_in);
        is_not_in(g, Actor::COLUMN_LAST_NAME, &self.last_name_not_in);
    }

    /// Adds to `g` the join to the films that the actor plays in.
    fn fill_relations<'f>(&'f self, g: &mut FilterGroup<'f>)
        ensures
            grown(*old(g), *final(g)),
            final(g).shape() == self.fill_relations_shape(old(g).shape()),
        decreases self, 1nat,
    {
        match &self.film {
            Some(child) => {
                let mut tf = TableFilter::new("film");
                proof {
                    lemma_new_group_shape(tf.filters);
                }
                child.collect(tf.filter_group_mut());
                join_table_on(
                    g,
                    tf,
                    JOIN_TABLE__FILM_ACTOR,
                    JOIN_TABLE__FILM_ACTOR__ACTOR_ID,
                    JOIN_TABLE__FILM_ACTOR__FILM_ID,
                    Actor::COLUMN_ACTOR_ID,
                    Film::COLUMN_FILM_ID,
                );
            },
            None => {},
        }
    }

    /// Adds to `g` what the input asks for: first what its `and` list and
    /// its `or` list collect, then its comparisons, then its joins.
    fn fill<'f>(&'f self, g: &mut FilterGroup<'f>)
        ensures
            grown(*old(g), *final(g)),
            final(g).shape() == self.fill_shape(old(g).shape()),
        decreases self, 2nat,
    {
        self.fill_list(g, true);
        self.fill_list(g, false);
        self.fill_first_name(g);
        self.fill_last_name(g);
        self.fill_relations(g);
    }
}

impl InputFilter for ActorFilter {
    open spec fn table_name_spec() -> Seq<char> {
        "actor"@
    }

    fn table_name() -> (r: &'static str) {
        "actor"
    }

    open spec fn or_list(&self) -> Option<Seq<Self>> {
        match self.or {
            Some(list) => Some(list@),
            None => None,
        }
    }

    open spec fn and_list(&self) -> Option<Seq<Self>> {
        match self.and {
            Some(list) => Some(list@),
            None => None,
        }
    }

    fn or_filters(&self) -> (r: Option<&[Self]>) {
        match &self.or {
            Some(list) => Some(list.as_slice()),
            None => None,
        }
    }

    fn and_filters(&self) -> (r: Option<&[Self]>) {
        match &self.and {
            Some(list) => Some(list.as_slice()),
            None => None,
        }
    }

    open spec fn collected(&self, into: GroupShape) -> GroupShape {
        self.collect_shape(into)
    }

    fn collect_into<'f>(&'f self, collector: &mut FilterGroup<'f>) {
        self.collect(collector)
    }
}

} // verus!
