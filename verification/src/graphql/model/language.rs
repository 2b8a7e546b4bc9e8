use vstd::prelude::*;
use crate::graphql::filter::InputFilter;
use crate::graphql::filter::TypeInfo;
use crate::graphql::filter::contains;
use crate::graphql::filter::eq;
use crate::graphql::filter::grown;
use crate::graphql::filter::is_in;
use crate::graphql::filter::is_not_in;
use crate::graphql::filter::comparison;
use crate::graphql::filter::lemma_merge_grows;
use crate::graphql::filter::lemma_new_group_shape;
use crate::graphql::filter::neq;
use crate::graphql::loader::DecodeError;
use crate::graphql::loader::FromRow;
use crate::graphql::loader::Row;
use crate::graphql::loader::WithId;
use crate::graphql::loader::same_text;
use crate::query::filter_group::FilterGroup;
use crate::query::ops::Combinator;
use crate::query::ops::Operation;
use crate::query::shape::GroupShape;

verus! {

/// A language that a film is in.
#[derive(Debug, Clone, PartialEq)]
pub struct Language {
    pub language_id: i32,
    pub name: String,
}

/// A language, its text as characters.
pub struct LanguageView {
    pub language_id: i32,
    pub name: Seq<char>,
}

impl View for Language {
    type V = LanguageView;

    open spec fn view(&self) -> LanguageView {
        LanguageView { language_id: self.language_id, name: self.name@ }
    }
}

impl Default for Language {
    fn default() -> (r: Self)
        ensures
            r@ == Language::blank(),
    {
        Language { language_id: 0, name: String::new() }
    }
}

impl Language {
    pub const COLUMN_NAME: &'static str = "name";

    pub const LANGUAGE_ID: &'static str = "language_id";

    /// The record of which no column has been read.
    pub open spec fn blank() -> LanguageView {
        LanguageView { language_id: 0, name: Seq::empty() }
    }

    /// `v` after the column named `column` of `row` has been read into it:
    /// a column that the record does not know changes nothing.
    pub open spec fn assigned(v: LanguageView, row: &Row, column: Seq<char>) -> Result<
        LanguageView,
        DecodeError,
    > {
        if column == Self::COLUMN_NAME@ {
            match row.text_at(column) {
                Ok(s) => Ok(LanguageView { name: s, ..v }),
                Err(e) => Err(e),
            }
        } else if column == Self::LANGUAGE_ID@ {
            match row.int_at(column) {
                Ok(n) => Ok(LanguageView { language_id: n, ..v }),
                Err(e) => Err(e),
            }
        } else {
            Ok(v)
        }
    }

    /// The record after the first `n` columns of `row` have been read, one
    /// after the other.
    pub open spec fn decoded_first(row: &Row, n: nat) -> Result<LanguageView, DecodeError>
        decreases n,
    {
        if n == 0 || n > row.columns@.len() {
            Ok(Self::blank())
        } else {
            match Self::decoded_first(row, (n - 1) as nat) {
                Ok(v) => Self::assigned(v, row, row.columns@[n - 1].name@),
                Err(e) => Err(e),
            }
        }
    }
}

impl TypeInfo for Language {
    open spec fn field_column(field: Seq<char>) -> Option<Seq<char>> {
        if field == "name"@ {
            Some(Language::COLUMN_NAME@)
        } else {
            None
        }
    }

    fn column_of(field: &str) -> (r: Option<&'static str>) {
        if same_text(field, "name") {
            Some(Language::COLUMN_NAME)
        } else {
            None
        }
    }
}

impl WithId<i32> for Language {
    open spec fn spec_id(&self) -> i32 {
        self.language_id
    }

    fn id(&self) -> (r: &i32) {
        &self.language_id
    }
}

impl FromRow for Language {
    open spec fn decoded(row: &Row) -> Result<LanguageView, DecodeError> {
        Language::decoded_first(row, row.columns@.len())
    }

    open spec fn reads(column: Seq<char>) -> bool {
        column == Language::COLUMN_NAME@
            || column == Language::LANGUAGE_ID@
    }

    fn reads_column(column: &str) -> (r: bool) {
        same_text(column, Language::COLUMN_NAME)
            || same_text(column, Language::LANGUAGE_ID)
    }

    fn from_row(row: &Row) -> (r: Result<Self, DecodeError>) {
        let mut result = Language::default();
        let columns = row.columns();
        let mut i: usize = 0;
        while i < columns.len()
            invariant
                0 <= i <= columns@.len(),
                columns@ == row.columns@,
                Language::decoded_first(row, i as nat) == Ok::<LanguageView, DecodeError>(result@),
            decreases columns@.len() - i,
        {
            let name = columns[i].name();
            if same_text(name, Language::COLUMN_NAME) {
                match row.try_get_text(name) {
                    Ok(s) => {
                        result.name = s;
                    },
                    Err(e) => {
                        assert(Language::decoded_first(row, (i + 1) as nat) == Err::<
                            LanguageView,
                            DecodeError,
                        >(e));
                        proof {
                            lemma_error_stays(row, (i + 1) as nat, e);
                        }
                        return Err(e);
                    },
                }
            } else if same_text(name, Language::LANGUAGE_ID) {
                match row.try_get_int(name) {
                    Ok(n) => {
                        result.language_id = n;
                    },
                    Err(e) => {
                        assert(Language::decoded_first(row, (i + 1) as nat) == Err::<
                            LanguageView,
                            DecodeError,
                        >(e));
                        proof {
                            lemma_error_stays(row, (i + 1) as nat, e);
                        }
                        return Err(e);
                    },
                }
            }
            i += 1;
        }
        Ok(result)
    }
}

/// A column that the record does not read changes nothing.
pub proof fn lemma_skipped_column_changes_nothing(v: LanguageView, row: &Row, column: Seq<char>)
    requires
        !Language::reads(column),
    ensures
        Language::assigned(v, row, column) == Ok::<LanguageView, DecodeError>(v),
{
}

/// An error in one of the first `n` columns is the error of the row.
pub proof fn lemma_error_stays(row: &Row, n: nat, e: DecodeError)
    requires
        n <= row.columns@.len(),
        Language::decoded_first(row, n) == Err::<LanguageView, DecodeError>(e),
    ensures
        Language::decoded_first(row, row.columns@.len()) == Err::<LanguageView, DecodeError>(e),
    decreases row.columns@.len() - n,
{
    if n < row.columns@.len() {
        lemma_error_stays(row, n + 1, e);
    }
}

/// What is asked of a language.
#[derive(Debug, Clone, Default)]
pub struct LanguageFilter {
    pub name_eq: Option<String>,
    pub name_in: Option<Vec<String>>,
    pub name_not_eq: Option<String>,
    pub name_not_in: Option<Vec<String>>,
    pub name_contains: Option<String>,
}

impl LanguageFilter {
    /// What a group that says `into` says after the comparisons that the
    /// input asks for have been added to it.
    pub open spec fn fill_shape(&self, into: GroupShape) -> GroupShape {
        into
            .with_filter_if(comparison(Operation::Eq, Language::COLUMN_NAME@, self.name_eq))
            .with_filter_if(comparison(Operation::Neq, Language::COLUMN_NAME@, self.name_not_eq))
            .with_filter_if(comparison(Operation::In, Language::COLUMN_NAME@, self.name_in))
            .with_filter_if(comparison(Operation::NotIn, Language::COLUMN_NAME@, self.name_not_in))
            .with_filter_if(comparison(Operation::Contains, Language::COLUMN_NAME@, self.name_contains))
    }

    /// What a group that says `into` says after the input has added its
    /// predicates to it: to the group itself where it joins by `And`,
    /// else to a group of their own, which is merged into it.
    pub open spec fn collect_shape(&self, into: GroupShape) -> GroupShape {
        if into.combinator == Combinator::And {
            self.fill_shape(into)
        } else {
            into.merged(self.fill_shape(GroupShape::empty(Combinator::And)))
        }
    }

    /// Adds the comparisons that the input asks for to `g`.
    pub fn fill<'f>(&'f self, g: &mut FilterGroup<'f>)
        ensures
            grown(*old(g), *final(g)),
            final(g).groups == old(g).groups,
            final(g).shape() == self.fill_shape(old(g).shape()),
    {
        eq(g, Language::COLUMN_NAME, &self.name_eq);
        neq(g, Language::COLUMN_NAME, &self.name_not_eq);
        is_in(g, Language::COLUMN_NAME, &self.name_in);
        is_not_in(g, Language::COLUMN_NAME, &self.name_not_in);
        contains(g, Language::COLUMN_NAME, &self.name_contains);
    }
}

impl InputFilter for LanguageFilter {
    open spec fn table_name_spec() -> Seq<char> {
        "language"@
    }

    fn table_name() -> (r: &'static str) {
        "language"
    }

    open spec fn or_list(&self) -> Option<Seq<Self>> {
        None
    }

    open spec fn and_list(&self) -> Option<Seq<Self>> {
        None
    }

    fn or_filters(&self) -> (r: Option<&[Self]>) {
        None
    }

    fn and_filters(&self) -> (r: Option<&[Self]>) {
        None
    }

    open spec fn collected(&self, into: GroupShape) -> GroupShape {
        self.collect_shape(into)
    }

    fn collect_into<'f>(&'f self, collector: &mut FilterGroup<'f>) {
        if collector.combinator() == Combinator::And {
            self.fill(collector);
        } else {
            let mut g = FilterGroup::new(Combinator::And);
            proof {
                lemma_new_group_shape(g);
            }
            self.fill(&mut g);
            collector.add_group(g);
            proof {
                lemma_merge_grows(*old(collector), g, *collector);
            }
        }
    }
}

} // verus!
