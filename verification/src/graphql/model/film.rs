use vstd::prelude::*;
use crate::graphql::filter::InputFilter;
use crate::graphql::filter::TypeInfo;
use crate::graphql::filter::contains;
use crate::graphql::filter::eq;
use crate::graphql::filter::grown;
use crate::graphql::filter::gt;
use crate::graphql::filter::gte;
use crate::graphql::filter::is_in;
use crate::graphql::filter::is_not_in;
use crate::graphql::filter::join_column;
use crate::graphql::filter::join_column_shape;
use crate::graphql::filter::join_table;
use crate::graphql::filter::join_table_on;
use crate::graphql::filter::comparison;
use crate::graphql::filter::join_table_shape;
use crate::graphql::filter::lemma_merge_grows;
use crate::graphql::filter::lemma_new_group_shape;
use crate::graphql::filter::lt;
use crate::graphql::filter::lte;
use crate::graphql::filter::neq;
use crate::graphql::loader::DecodeError;
use crate::graphql::loader::FromRow;
use crate::graphql::loader::Row;
use crate::graphql::loader::WithId;
use crate::graphql::loader::same_text;
use crate::graphql::model::actor::Actor;
use crate::graphql::model::actor::ActorFilter;
use crate::graphql::model::category::Category;
use crate::graphql::model::category::CategoryFilter;
use crate::graphql::model::join_tables::JOIN_TABLE__FILM_ACTOR;
use crate::graphql::model::join_tables::JOIN_TABLE__FILM_ACTOR__ACTOR_ID;
use crate::graphql::model::join_tables::JOIN_TABLE__FILM_ACTOR__FILM_ID;
use crate::graphql::model::join_tables::JOIN_TABLE__FILM_CATEGORY;
use crate::graphql::model::join_tables::JOIN_TABLE__FILM_CATEGORY__CATEGORY_ID;
use crate::graphql::model::join_tables::JOIN_TABLE__FILM_CATEGORY__FILM_ID;
use crate::graphql::model::language::Language;
use crate::graphql::model::language::LanguageFilter;
use crate::query::filter_group::FilterGroup;
use crate::query::ops::Combinator;
use crate::query::ops::Operation;
use crate::query::shape::FilterShape;
use crate::query::shape::GroupShape;
use crate::query::table_filter::TableFilter;

verus! {

/// A film.
#[derive(Debug, Clone, PartialEq)]
pub struct Film {
    pub film_id: i32,
    pub language_id: i32,
    pub original_language_id: Option<i32>,
    pub title: String,
    pub description: String,
    pub length: i16,
}

/// A film, the texts as characters.
pub struct FilmView {
    pub film_id: i32,
    pub language_id: i32,
    pub original_language_id: Option<i32>,
    pub title: Seq<char>,
    pub description: Seq<char>,
    pub length: i16,
}

impl View for Film {
    type V = FilmView;

    open spec fn view(&self) -> FilmView {
        FilmView {
            film_id: self.film_id,
            language_id: self.language_id,
            original_language_id: self.original_language_id,
            title: self.title@,
            description: self.description@,
            length: self.length,
        }
    }
}

impl Default for Film {
    fn default() -> (r: Self)
        ensures
            r@ == Film::blank(),
    {
        Film {
            film_id: 0,
            language_id: 0,
            original_language_id: None,
            title: String::new(),
            description: String::new(),
            length: 0,
        }
    }
}

impl Film {
    pub const COLUMN_TITLE: &'static str = "title";

    pub const COLUMN_LENGTH: &'static str = "length";

    pub const COLUMN_LANG_ID: &'static str = "language_id";

    pub const COLUMN_DESCRIPTION: &'static str = "description";

    pub const COLUMN_FILM_ID: &'static str = "film_id";

    pub const COLUMN_LANGUAGE_ID: &'static str = "language_id";

    pub const COLUMN_ORIG_LANG_ID: &'static str = "original_language_id";

    /// The record of which no column has been read.
    pub open spec fn blank() -> FilmView {
        FilmView {
            film_id: 0,
            language_id: 0,
            original_language_id: None,
            title: Seq::empty(),
            description: Seq::empty(),
            length: 0,
        }
    }

    /// `v` after the column named `column` of `row` has been read into it:
    /// a column that the record does not know changes nothing.
    pub open spec fn assigned(v: FilmView, row: &Row, column: Seq<char>) -> Result<
        FilmView,
        DecodeError,
    > {
        if column == Self::COLUMN_TITLE@ {
            match row.text_at(column) {
                Ok(s) => Ok(FilmView { title: s, ..v }),
                Err(e) => Err(e),
            }
        } else if column == Self::COLUMN_DESCRIPTION@ {
            match row.text_at(column) {
                Ok(s) => Ok(FilmView { description: s, ..v }),
                Err(e) => Err(e),
            }
        } else if column == Self::COLUMN_LENGTH@ {
            match row.small_int_at(column) {
                Ok(n) => Ok(FilmView { length: n, ..v }),
                Err(e) => Err(e),
            }
        } else if column == Self::COLUMN_FILM_ID@ {
            match row.int_at(column) {
                Ok(n) => Ok(FilmView { film_id: n, ..v }),
                Err(e) => Err(e),
            }
        } else if column == Self::COLUMN_LANG_ID@ {
            match row.int_at(column) {
                Ok(n) => Ok(FilmView { language_id: n, ..v }),
                Err(e) => Err(e),
            }
        } else if column == Self::COLUMN_ORIG_LANG_ID@ {
            match row.opt_int_at(column) {
                Ok(n) => Ok(FilmView { original_language_id: n, ..v }),
                Err(e) => Err(e),
            }
        } else {
            Ok(v)
        }
    }

    /// The record after the first `n` columns of `row` have been read, one
    /// after the other.
    pub open spec fn decoded_first(row: &Row, n: nat) -> Result<FilmView, DecodeError>
        decreases n,
    {
        if n == 0 || n > row.columns@.len() {
            Ok(Self::blank())
        } else {
            match Self::decoded_first(row, (n - 1) as nat) {
                Ok(v) => Self::assigned(v, row, row.columns@[n - 1].name@),
                Err(e) => Err(e),
            }
        }
    }

    /// Reads the column named `name` of `row` into the record.
    fn assign(&mut self, row: &Row, name: &str) -> (r: Result<(), DecodeError>)
        ensures
            match r {
                Ok(_) => Film::assigned(old(self)@, row, name@) == Ok::<FilmView, DecodeError>(
                    final(self)@,
                ),
                Err(e) => Film::assigned(old(self)@, row, name@) == Err::<FilmView, DecodeError>(e),
            },
    {
        if same_text(name, Film::COLUMN_TITLE) {
            match row.try_get_text(name) {
                Ok(s) => {
                    self.title = s;
                    Ok(())
                },
                Err(e) => Err(e),
            }
        } else if same_text(name, Film::COLUMN_DESCRIPTION) {
            match row.try_get_text(name) {
                Ok(s) => {
                    self.description = s;
                    Ok(())
                },
                Err(e) => Err(e),
            }
        } else if same_text(name, Film::COLUMN_LENGTH) {
            match row.try_get_small_int(name) {
                Ok(n) => {
                    self.length = n;
                    Ok(())
                },
                Err(e) => Err(e),
            }
        } else if same_text(name, Film::COLUMN_FILM_ID) {
            match row.try_get_int(name) {
                Ok(n) => {
                    self.film_id = n;
                    Ok(())
                },
                Err(e) => Err(e),
            }
        } else if same_text(name, Film::COLUMN_LANG_ID) {
            match row.try_get_int(name) {
                Ok(n) => {
                    self.language_id = n;
                    Ok(())
                },
                Err(e) => Err(e),
            }
        } else if same_text(name, Film::COLUMN_ORIG_LANG_ID) {
            match row.try_get_opt_int(name) {
                Ok(n) => {
                    self.original_language_id = n;
                    Ok(())
                },
                Err(e) => Err(e),
            }
        } else {
            Ok(())
        }
    }
}

impl TypeInfo for Film {
    open spec fn field_column(field: Seq<char>) -> Option<Seq<char>> {
        if field == "title"@ {
            Some(Film::COLUMN_TITLE@)
        } else if field == "description"@ {
            Some(Film::COLUMN_DESCRIPTION@)
        } else if field == "length"@ {
            Some(Film::COLUMN_LENGTH@)
        } else if field == "actors"@ {
            Some(Film::COLUMN_FILM_ID@)
        } else if field == "categories"@ {
            Some(Film::COLUMN_FILM_ID@)
        } else if field == "language"@ {
            Some(Film::COLUMN_LANGUAGE_ID@)
        } else if field == "originalLanguage"@ {
            Some(Film::COLUMN_ORIG_LANG_ID@)
        } else {
            None
        }
    }

    fn column_of(field: &str) -> (r: Option<&'static str>) {
        if same_text(field, "title") {
            Some(Film::COLUMN_TITLE)
        } else if same_text(field, "description") {
            Some(Film::COLUMN_DESCRIPTION)
        } else if same_text(field, "length") {
            Some(Film::COLUMN_LENGTH)
        } else if same_text(field, "actors") {
            Some(Film::COLUMN_FILM_ID)
        } else if same_text(field, "categories") {
            Some(Film::COLUMN_FILM_ID)
        } else if same_text(field, "language") {
            Some(Film::COLUMN_LANGUAGE_ID)
        } else if same_text(field, "originalLanguage") {
            Some(Film::COLUMN_ORIG_LANG_ID)
        } else {
            None
        }
    }
}

impl WithId<i32> for Film {
    open spec fn spec_id(&self) -> i32 {
        self.film_id
    }

    fn id(&self) -> (r: &i32) {
        &self.film_id
    }
}

impl FromRow for Film {
    open spec fn decoded(row: &Row) -> Result<FilmView, DecodeError> {
        Film::decoded_first(row, row.columns@.len())
    }

    open spec fn reads(column: Seq<char>) -> bool {
        column == Film::COLUMN_TITLE@
            || column == Film::COLUMN_DESCRIPTION@
            || column == Film::COLUMN_LENGTH@
            || column == Film::COLUMN_FILM_ID@
            || column == Film::COLUMN_LANG_ID@
            || column == Film::COLUMN_ORIG_LANG_ID@
    }

    fn reads_column(column: &str) -> (r: bool) {
        same_text(column, Film::COLUMN_TITLE)
            || same_text(column, Film::COLUMN_DESCRIPTION)
            || same_text(column, Film::COLUMN_LENGTH)
            || same_text(column, Film::COLUMN_FILM_ID)
            || same_text(column, Film::COLUMN_LANG_ID)
            || same_text(column, Film::COLUMN_ORIG_LANG_ID)
    }

    fn from_row(row: &Row) -> (r: Result<Self, DecodeError>) {
        let mut result = Film::default();
        let columns = row.columns();
        let mut i: usize = 0;
        while i < columns.len()
            invariant
                0 <= i <= columns@.len(),
                columns@ == row.columns@,
                Film::decoded_first(row, i as nat) == Ok::<FilmView, DecodeError>(result@),
            decreases columns@.len() - i,
        {
            match result.assign(row, columns[i].name()) {
                Ok(_) => {},
                Err(e) => {
                    proof {
                        lemma_error_stays(row, (i + 1) as nat, e);
                    }
                    return Err(e);
                },
            }
            i += 1;
        }
        Ok(result)
    }
}

/// A column that the record does not read changes nothing.
pub proof fn lemma_skipped_column_changes_nothing(v: FilmView, row: &Row, column: Seq<char>)
    requires
        !Film::reads(column),
    ensures
        Film::assigned(v, row, column) == Ok::<FilmView, DecodeError>(v),
{
}

/// An error in one of the first `n` columns is the error of the row.
pub proof fn lemma_error_stays(row: &Row, n: nat, e: DecodeError)
    requires
        n <= row.columns@.len(),
        Film::decoded_first(row, n) == Err::<FilmView, DecodeError>(e),
    ensures
        Film::decoded_first(row, row.columns@.len()) == Err::<FilmView, DecodeError>(e),
    decreases row.columns@.len() - n,
{
    if n < row.columns@.len() {
        lemma_error_stays(row, n + 1, e);
    }
}

/// What is asked of a film.
#[derive(Debug)]
pub struct FilmFilter {
    pub and: Option<Vec<FilmFilter>>,
    pub or: Option<Vec<FilmFilter>>,
    pub actor: Option<Box<ActorFilter>>,
    pub category: Option<Box<CategoryFilter>>,
    pub language: Option<Box<LanguageFilter>>,
    pub original_language: Option<Box<LanguageFilter>>,
    pub title_eq: Option<String>,
    pub title_not_eq: Option<String>,
    pub title_in: Option<Vec<String>>,
    pub title_not_in: Option<Vec<String>>,
    pub title_contains: Option<String>,
    pub length_eq: Option<i16>,
    pub length_gt: Option<i16>,
    pub length_gte: Option<i16>,
    pub length_lt: Option<i16>,
    pub length_lte: Option<i16>,
}

impl Default for FilmFilter {
    fn default() -> (r: Self)
        ensures
            r.and is None,
            r.or is None,
            r.actor is None,
            r.category is None,
            r.language is None,
            r.original_language is None,
            r.title_eq is None,
            r.title_not_eq is None,
            r.title_in is None,
            r.title_not_in is None,
            r.title_contains is None,
            r.length_eq is None,
            r.length_gt is None,
            r.length_gte is None,
            r.length_lt is None,
            r.length_lte is None,
    {
        FilmFilter {
            and: None,
            or: None,
            actor: None,
            category: None,
            language: None,
            original_language: None,
            title_eq: None,
            title_not_eq: None,
            title_in: None,
            title_not_in: None,
            title_contains: None,
            length_eq: None,
            length_gt: None,
            length_gte: None,
            length_lt: None,
            length_lte: None,
        }
    }
}

impl FilmFilter {
    /// The inputs of the `and` list, where `all` is set, or else of the
    /// `or` list.
    pub open spec fn inputs(&self, all: bool) -> Option<Vec<FilmFilter>> {
        if all {
            self.and
        } else {
            self.or
        }
    }

    /// What a group that says `into` says after the input has added its
    /// predicates to it: to the group itself where it joins by `And`,
    /// else to a group of their own, which is merged into it.
    pub open spec fn collect_shape(&self, into: GroupShape) -> GroupShape
        decreases self, 3nat, 0nat,
    {
        if into.combinator == Combinator::And {
            self.fill_shape(into)
        } else {
            into.merged(self.fill_shape(GroupShape::empty(Combinator::And)))
        }
    }

    /// What a group that says `into` says after the first `n` inputs of
    /// the `and` list, where `all` is set, or else of the `or` list, have
    /// added their predicates to it, one after the other.
    pub open spec fn list_shape(&self, all: bool, n: nat, into: GroupShape) -> GroupShape
        decreases self, 0nat, n,
    {
        match self.inputs(all) {
            Some(list) => if n == 0 || n > list@.len() {
                into
            } else {
                list@[n - 1].collect_shape(self.list_shape(all, (n - 1) as nat, into))
            },
            None => into,
        }
    }

    /// What a group that says `into` says after the `and` list, where
    /// `all` is set, or else the `or` list, has been added to it: to the
    /// group itself where it joins by the connective of the list, else to
    /// a group of their own, which is merged into it.
    pub open spec fn fill_list_shape(&self, all: bool, into: GroupShape) -> GroupShape
        decreases self, 1nat, 0nat,
    {
        let combinator = if all {
            Combinator::And
        } else {
            Combinator::Or
        };
        match self.inputs(all) {
            Some(list) => if into.combinator == combinator {
                self.list_shape(all, list@.len(), into)
            } else {
                into.merged(self.list_shape(all, list@.len(), GroupShape::empty(combinator)))
            },
            None => into,
        }
    }

    /// What a group that says `into` says after the comparisons of the title have been
    /// added to it.
    pub open spec fn fill_title_shape(&self, into: GroupShape) -> GroupShape {
        into
            .with_filter_if(comparison(Operation::Eq, Film::COLUMN_TITLE@, self.title_eq))
            .with_filter_if(comparison(Operation::Neq, Film::COLUMN_TITLE@, self.title_not_eq))
            .with_filter_if(comparison(Operation::In, Film::COLUMN_TITLE@, self.title_in))
            .with_filter_if(comparison(Operation::NotIn, Film::COLUMN_TITLE@, self.title_not_in))
            .with_filter_if(comparison(Operation::Contains, Film::COLUMN_TITLE@, self.title_contains))
    }

    /// What a group that says `into` says after the comparisons of the length have been
    /// added to it.
    pub open spec fn fill_length_shape(&self, into: GroupShape) -> GroupShape {
        into
            .with_filter_if(comparison(Operation::Eq, Film::COLUMN_LENGTH@, self.length_eq))
            .with_filter_if(comparison(Operation::Lt, Film::COLUMN_LENGTH@, self.length_lt))
            .with_filter_if(comparison(Operation::Lte, Film::COLUMN_LENGTH@, self.length_lte))
            .with_filter_if(comparison(Operation::Gt, Film::COLUMN_LENGTH@, self.length_gt))
            .with_filter_if(comparison(Operation::Gte, Film::COLUMN_LENGTH@, self.length_gte))
    }

    /// The join to the language in `language`, where one is asked for,
    /// over the column `column` of the film.
    pub open spec fn language_join(
        language: Option<Box<LanguageFilter>>,
        column: Seq<char>,
    ) -> Option<FilterShape> {
        match language {
            Some(child) => Some(
                join_column_shape(
                    "language"@,
                    child.collect_shape(GroupShape::empty(Combinator::And)),
                    column,
                    Language::LANGUAGE_ID@,
                ),
            ),
            None => None,
        }
    }

    /// The join to the categories of the film, where they are asked for.
    pub open spec fn category_join(&self) -> Option<FilterShape> {
        match self.category {
            Some(child) => Some(
                join_table_shape(
                    "category"@,
                    child.collect_shape(GroupShape::empty(Combinator::And)),
                    JOIN_TABLE__FILM_CATEGORY@,
                    JOIN_TABLE__FILM_CATEGORY__FILM_ID@,
                    JOIN_TABLE__FILM_CATEGORY__CATEGORY_ID@,
                    Film::COLUMN_FILM_ID@,
                    Category::COLUMN_CATEGORY_ID@,
                ),
            ),
            None => None,
        }
    }

    /// What a group that says `into` says after the joins to the language
    /// and to the original language have been added to it.
    pub open spec fn fill_languages_shape(&self, into: GroupShape) -> GroupShape {
        into.with_filter_if(Self::language_join(self.language, Film::COLUMN_LANG_ID@)).with_filter_if(
            Self::language_join(self.original_language, Film::COLUMN_ORIG_LANG_ID@),
        )
    }

    /// What a group that says `into` says after the join to the categories
    /// of the film has been added to it.
    pub open spec fn fill_categories_shape(&self, into: GroupShape) -> GroupShape {
        into.with_filter_if(self.category_join())
    }

    /// The join to the actors that play in the film, where they are asked for.
    pub open spec fn actor_join(&self) -> Option<FilterShape>
        decreases self, 1nat, 0nat,
    {
        match self.actor {
            Some(child) => Some(
                join_table_shape(
                    "actor"@,
                    child.collect_shape(GroupShape::empty(Combinator::And)),
                    JOIN_TABLE__FILM_ACTOR@,
                    JOIN_TABLE__FILM_ACTOR__FILM_ID@,
                    JOIN_TABLE__FILM_ACTOR__ACTOR_ID@,
                    Film::COLUMN_FILM_ID@,
                    Actor::COLUMN_ACTOR_ID@,
                ),
            ),
            None => None,
        }
    }

    /// What a group that says `into` says after that join has been added
    /// to it.
    pub open spec fn fill_relations_shape(&self, into: GroupShape) -> GroupShape
        decreases self, 1nat, 1nat,
    {
        into.with_filter_if(self.actor_join())
    }

    /// What a group that says `into` says after the input has added to it
    /// what it asks for: first what its `and` list and its `or` list
    /// collect, then its comparisons, then its joins.
    pub open spec fn fill_shape(&self, into: GroupShape) -> GroupShape
        decreases self, 2nat, 0nat,
    {
        self.fill_relations_shape(
            self.fill_categories_shape(self.fill_languages_shape(self.fill_length_shape(self.fill_title_shape(self.fill_list_shape(false, self.fill_list_shape(true, into)))))),
        )
    }

    /// Adds the predicates of this input to `collector`, as what must hold
    /// all at once: into `collector` itself where it joins by `And`, else
    /// into a group of their own, which is merged into it.
    pub fn collect<'f>(&'f self, collector: &mut FilterGroup<'f>)
        ensures
            grown(*old(collector), *final(collector)),
            final(collector).shape() == self.collect_shape(old(collector).shape()),
        decreases self, 3nat,
    {
        if collector.combinator() == Combinator::And {
            self.fill(collector);
        } else {
            let mut g = FilterGroup::new(Combinator::And);
            proof {
                lemma_new_group_shape(g);
            }
            self.fill(&mut g);
            collector.add_group(g);
            proof {
                lemma_merge_grows(*old(collector), g, *collector);
            }
        }
    }

    /// Adds to `g` what each input of the `and` list collects, where `all`
    /// is set, or else of the `or` list: into `g` itself where it joins by
    /// the connective of the list, else into a group of their own, which
    /// is merged into it.
    fn fill_list<'f>(&'f self, g: &mut FilterGroup<'f>, all: bool)
        ensures
            grown(*old(g), *final(g)),
            final(g).shape() == self.fill_list_shape(all, old(g).shape()),
        decreases self, 1nat,
    {
        let combinator = if all {
            Combinator::And
        } else {
            Combinator::Or
        };
        let inputs = if all {
            &self.and
        } else {
            &self.or
        };
        match inputs {
            Some(list) => {
                if g.combinator() == combinator {
                    let mut i: usize = 0;
                    while i < list.len()
                        invariant
                            0 <= i <= list@.len(),
                            *inputs == Some(*list),
                            *inputs == self.inputs(all),
                            grown(*old(g), *g),
                            g.shape() == self.list_shape(all, i as nat, old(g).shape()),
                        decreases list@.len() - i,
                    {
                        proof {
                            assert(*list == inputs->0);
                            assert(decreases_to!(self => *inputs));
                            assert(decreases_to!(*inputs => inputs->0));
                            assert(decreases_to!(*list => list[i as int]));
                        }
                        list[i].collect(g);
                        i += 1;
                    }
                } else {
                    let mut c = FilterGroup::new(combinator);
                    proof {
                        lemma_new_group_shape(c);
                    }
                    let mut i: usize = 0;
                    while i < list.len()
                        invariant
                            0 <= i <= list@.len(),
                            *inputs == Some(*list),
                            *inputs == self.inputs(all),
                            c.combinator == combinator,
                            c.wf(),
                            c.shape() == self.list_shape(
                                all,
                                i as nat,
                                GroupShape::empty(combinator),
                            ),
                        decreases list@.len() - i,
                    {
                        proof {
                            assert(*list == inputs->0);
                            assert(decreases_to!(self => *inputs));
                            assert(decreases_to!(*inputs => inputs->0));
                            assert(decreases_to!(*list => list[i as int]));
                        }
                        list[i].collect(&mut c);
                        i += 1;
                    }
                    g.add_group(c);
                    proof {
                        lemma_merge_grows(*old(g), c, *g);
                    }
                }
            },
            None => {},
        }
    }

    /// Adds to `g` the comparisons of the title.
    fn fill_title<'f>(&'f self, g: &mut FilterGroup<'f>)
        ensures
            grown(*old(g), *final(g)),
            final(g).shape() == self.fill_title_shape(old(g).shape()),
    {
        eq(g, Film::COLUMN_TITLE, &self.title_eq);
        neq(g, Film::COLUMN_TITLE, &self.title_not_eq);
        is_in(g, Film::COLUMN_TITLE, &self.title_in);
        is_not_in(g, Film::COLUMN_TITLE, &self.title_not_in);
        contains(g, Film::COLUMN_TITLE, &self.title_contains);
    }

    /// Adds to `g` the comparisons of the length.
    fn fill_length<'f>(&'f self, g: &mut FilterGroup<'f>)
        ensures
            grown(*old(g), *final(g)),
            final(g).shape() == self.fill_length_shape(old(g).shape()),
    {
        eq(g, Film::COLUMN_LENGTH, &self.length_eq);
        lt(g, Film::COLUMN_LENGTH, &self.length_lt);
        lte(g, Film::COLUMN_LENGTH, &self.length_lte);
        gt(g, Film::COLUMN_LENGTH, &self.length_gt);
        gte(g, Film::COLUMN_LENGTH, &self.length_gte);
    }

    /// Adds to `g` the joins to the language and to the original language.
    fn fill_languages<'f>(&'f self, g: &mut FilterGroup<'f>)
        ensures
            grown(*old(g), *final(g)),
            final(g).shape() == self.fill_languages_shape(old(g).shape()),
    {
        join_column(g, &self.language, Film::COLUMN_LANG_ID, Language::LANGUAGE_ID);
        join_column(g, &self.original_language, Film::COLUMN_ORIG_LANG_ID, Language::LANGUAGE_ID);
    }

    /// Adds to `g` the join to the categories of the film.
    fn fill_categories<'f>(&'f self, g: &mut FilterGroup<'f>)
        ensures
            grown(*old(g), *final(g)),
            final(g).shape() == self.fill_categories_shape(old(g).shape()),
    {
        join_table(
            g,
            &self.category,
            JOIN_TABLE__FILM_CATEGORY,
            JOIN_TABLE__FILM_CATEGORY__FILM_ID,
            JOIN_TABLE__FILM_CATEGORY__CATEGORY_ID,
            Film::COLUMN_FILM_ID,
            Category::COLUMN_CATEGORY_ID,
        );
    }

    /// Adds to `g` the join to the actors that play in the film.
    fn fill_relations<'f>(&'f self, g: &mut FilterGroup<'f>)
        ensures
            grown(*old(g), *final(g)),
            final(g).shape() == self.fill_relations_shape(old(g).shape()),
        decreases self, 1nat,
    {
        match &self.actor {
            Some(child) => {
                let mut tf = TableFilter::new("actor");
                proof {
                    lemma_new_group_shape(tf.filters);
                }
                child.collect(tf.filter_group_mut());
                join_table_on(
                    g,
                    tf,
                    JOIN_TABLE__FILM_ACTOR,
                    JOIN_TABLE__FILM_ACTOR__FILM_ID,
                    JOIN_TABLE__FILM_ACTOR__ACTOR_ID,
                    Film::COLUMN_FILM_ID,
                    Actor::COLUMN_ACTOR_ID,
                );
            },
            None => {},
        }
    }

    /// Adds to `g` what the input asks for: first what its `and` list and
    /// its `or` list collect, then its comparisons, then its joins.
    fn fill<'f>(&'f self, g: &mut FilterGroup<'f>)
        ensures
            grown(*old(g), *final(g)),
            final(g).shape() == self.fill_shape(old(g).shape()),
        decreases self, 2nat,
    {
        self.fill_list(g, true);
        self.fill_list(g, false);
        self.fill_title(g);
        self.fill_length(g);
        self.fill_languages(g);
        self.fill_categories(g);
        self.fill_relations(g);
    }
}

impl InputFilter for FilmFilter {
    open spec fn table_name_spec() -> Seq<char> {
        "film"@
    }

    fn table_name() -> (r: &'static str) {
        "film"
    }

    open spec fn or_list(&self) -> Option<Seq<Self>> {
        match self.or {
            Some(list) => Some(list@),
            None => None,
        }
    }

    open spec fn and_list(&self) -> Option<Seq<Self>> {
        match self.and {
            Some(list) => Some(list@),
            None => None,
        }
    }

    fn or_filters(&self) -> (r: Option<&[Self]>) {
        match &self.or {
            Some(list) => Some(list.as_slice()),
            None => None,
        }
    }

    fn and_filters(&self) -> (r: Option<&[Self]>) {
        match &self.and {
            Some(list) => Some(list.as_slice()),
            None => None,
        }
    }

    open spec fn collected(&self, into: GroupShape) -> GroupShape {
        self.collect_shape(into)
    }

    fn collect_into<'f>(&'f self, collector: &mut FilterGroup<'f>) {
        self.collect(collector)
    }
}

} // verus!
