use vstd::prelude::*;
use crate::graphql::filter::InputFilter;
use crate::graphql::filter::TypeInfo;
use crate::graphql::filter::eq;
use crate::graphql::filter::grown;
use crate::graphql::filter::is_in;
use crate::graphql::filter::is_not_in;
use crate::graphql::filter::comparison;
use crate::graphql::filter::lemma_merge_grows;
use crate::graphql::filter::lemma_new_group_shape;
use crate::graphql::filter::neq;
use crate::graphql::loader::DecodeError;
use crate::graphql::loader::FromRow;
use crate::graphql::loader::Row;
use crate::graphql::loader::WithId;
use crate::graphql::loader::same_text;
use crate::query::filter_group::FilterGroup;
use crate::query::ops::Combinator;
use crate::query::ops::Operation;
use crate::query::shape::GroupShape;

verus! {

/// A category that films are sorted under.
#[derive(Debug, Clone, PartialEq)]
pub struct Category {
    pub category_id: i32,
    pub name: String,
}

/// A category, its text as characters.
pub struct CategoryView {
    pub category_id: i32,
    pub name: Seq<char>,
}

impl View for Category {
    type V = CategoryView;

    open spec fn view(&self) -> CategoryView {
        CategoryView { category_id: self.category_id, name: self.name@ }
    }
}

impl Default for Category {
    fn default() -> (r: Self)
        ensures
            r@ == Category::blank(),
    {
        Category { category_id: 0, name: String::new() }
    }
}

impl Category {
    pub const COLUMN_NAME: &'static str = "name";

    pub const COLUMN_CATEGORY_ID: &'static str = "category_id";

    /// The record of which no column has been read.
    pub open spec fn blank() -> CategoryView {
        CategoryView { category_id: 0, name: Seq::empty() }
    }

    /// `v` after the column named `column` of `row` has been read into it:
    /// a column that the record does not know changes nothing.
    pub open spec fn assigned(v: CategoryView, row: &Row, column: Seq<char>) -> Result<
        CategoryView,
        DecodeError,
    > {
        if column == Self::COLUMN_NAME@ {
            match row.text_at(column) {
                Ok(s) => Ok(CategoryView { name: s, ..v }),
                Err(e) => Err(e),
            }
        } else if column == Self::COLUMN_CATEGORY_ID@ {
            match row.int_at(column) {
                Ok(n) => Ok(CategoryView { category_id: n, ..v }),
                Err(e) => Err(e),
            }
        } else {
            Ok(v)
        }
    }

    /// The record after the first `n` columns of `row` have been read, one
    /// after the other.
    pub open spec fn decoded_first(row: &Row, n: nat) -> Result<CategoryView, DecodeError>
        decreases n,
    {
        if n == 0 || n > row.columns@.len() {
            Ok(Self::blank())
        } else {
            match Self::decoded_first(row, (n - 1) as nat) {
                Ok(v) => Self::assigned(v, row, row.columns@[n - 1].name@),
                Err(e) => Err(e),
            }
        }
    }
}

impl TypeInfo for Category {
    open spec fn field_column(field: Seq<char>) -> Option<Seq<char>> {
        if field == "name"@ {
            Some(Category::COLUMN_NAME@)
        } else {
            None
        }
    }

    fn column_of(field: &str) -> (r: Option<&'static str>) {
        if same_text(field, "name") {
            Some(Category::COLUMN_NAME)
        } else {
            None
        }
    }
}

impl WithId<i32> for Category {
    open spec fn spec_id(&self) -> i32 {
        self.category_id
    }

    fn id(&self) -> (r: &i32) {
        &self.category_id
    }
}

impl FromRow for Category {
    open spec fn decoded(row: &Row) -> Result<CategoryView, DecodeError> {
        Category::decoded_first(row, row.columns@.len())
    }

    open spec fn reads(column: Seq<char>) -> bool {
        column == Category::COLUMN_NAME@
            || column == Category::COLUMN_CATEGORY_ID@
    }

    fn reads_column(column: &str) -> (r: bool) {
        same_text(column, Category::COLUMN_NAME)
            || same_text(column, Category::COLUMN_CATEGORY_ID)
    }

    fn from_row(row: &Row) -> (r: Result<Self, DecodeError>) {
        let mut result = Category::default();
        let columns = row.columns();
        let mut i: usize = 0;
        while i < columns.len()
            invariant
                0 <= i <= columns@.len(),
                columns@ == row.columns@,
                Category::decoded_first(row, i as nat) == Ok::<CategoryView, DecodeError>(result@),
            decreases columns@.len() - i,
        {
            let name = columns[i].name();
            if same_text(name, Category::COLUMN_NAME) {
                match row.try_get_text(name) {
                    Ok(s) => {
                        result.name = s;
                    },
                    Err(e) => {
                        assert(Category::decoded_first(row, (i + 1) as nat) == Err::<
                            CategoryView,
                            DecodeError,
                        >(e));
                        proof {
                            lemma_error_stays(row, (i + 1) as nat, e);
                        }
                        return Err(e);
                    },
                }
            } else if same_text(name, Category::COLUMN_CATEGORY_ID) {
                match row.try_get_int(name) {
                    Ok(n) => {
                        result.category_id = n;
                    },
                    Err(e) => {
                        assert(Category::decoded_first(row, (i + 1) as nat) == Err::<
                            CategoryView,
                            DecodeError,
                        >(e));
                        proof {
                            lemma_error_stays(row, (i + 1) as nat, e);
                        }
                        return Err(e);
                    },
                }
            }
            i += 1;
        }
        Ok(result)
    }
}

/// A column that the record does not read changes nothing.
pub proof fn lemma_skipped_column_changes_nothing(v: CategoryView, row: &Row, column: Seq<char>)
    requires
        !Category::reads(column),
    ensures
        Category::assigned(v, row, column) == Ok::<CategoryView, DecodeError>(v),
{
}

/// An error in one of the first `n` columns is the error of the row.
pub proof fn lemma_error_stays(row: &Row, n: nat, e: DecodeError)
    requires
        n <= row.columns@.len(),
        Category::decoded_first(row, n) == Err::<CategoryView, DecodeError>(e),
    ensures
        Category::decoded_first(row, row.columns@.len()) == Err::<CategoryView, DecodeError>(e),
    decreases row.columns@.len() - n,
{
    if n < row.columns@.len() {
        lemma_error_stays(row, n + 1, e);
    }
}

/// What is asked of a category.
#[derive(Debug, Clone, Default)]
pub struct CategoryFilter {
    pub name_eq: Option<String>,
    pub name_in: Option<Vec<String>>,
    pub name_not_eq: Option<String>,
    pub name_not_in: Option<Vec<String>>,
}

impl CategoryFilter {
    /// What a group that says `into` says after the comparisons that the
    /// input asks for have been added to it.
    pub open spec fn fill_shape(&self, into: GroupShape) -> GroupShape {
        into
            .with_filter_if(comparison(Operation::Eq, Category::COLUMN_NAME@, self.name_eq))
            .with_filter_if(comparison(Operation::Neq, Category::COLUMN_NAME@, self.name_not_eq))
            .with_filter_if(comparison(Operation::In, Category::COLUMN_NAME@, self.name_in))
            .with_filter_if(comparison(Operation::NotIn, Category::COLUMN_NAME@, self.name_not_in))
    }

    /// What a group that says `into` says after the input has added its
    /// predicates to it: to the group itself where it joins by `And`,
    /// else to a group of their own, which is merged into it.
    pub open spec fn collect_shape(&self, into: GroupShape) -> GroupShape {
        if into.combinator == Combinator::And {
            self.fill_shape(into)
        } else {
            into.merged(self.fill_shape(GroupShape::empty(Combinator::And)))
        }
    }

    /// Adds the comparisons that the input asks for to `g`.
    pub fn fill<'f>(&'f self, g: &mut FilterGroup<'f>)
        ensures
            grown(*old(g), *final(g)),
            final(g).groups == old(g).groups,
            final(g).shape() == self.fill_shape(old(g).shape()),
    {
        eq(g, Category::COLUMN_NAME, &self.name_eq);
        neq(g, Category::COLUMN_NAME, &self.name_not_eq);
        is_in(g, Category::COLUMN_NAME, &self.name_in);
        is_not_in(g, Category::COLUMN_NAME, &self.name_not_in);
    }
}

impl InputFilter for CategoryFilter {
    open spec fn table_name_spec() -> Seq<char> {
        "category"@
    }

    fn table_name() -> (r: &'static str) {
        "category"
    }

    open spec fn or_list(&self) -> Option<Seq<Self>> {
        None
    }

    open spec fn and_list(&self) -> Option<Seq<Self>> {
        None
    }

    fn or_filters(&self) -> (r: Option<&[Self]>) {
        None
    }

    fn and_filters(&self) -> (r: Option<&[Self]>) {
        None
    }

    open spec fn collected(&self, into: GroupShape) -> GroupShape {
        self.collect_shape(into)
    }

    fn collect_into<'f>(&'f self, collector: &mut FilterGroup<'f>) {
        if collector.combinator() == Combinator::And {
            self.fill(collector);
        } else {
            let mut g = FilterGroup::new(Combinator::And);
            proof {
                lemma_new_group_shape(g);
            }
            self.fill(&mut g);
            collector.add_group(g);
            proof {
                lemma_merge_grows(*old(collector), g, *collector);
            }
        }
    }
}

} // verus!
