use vstd::prelude::*;
use crate::query::filter_group::FilterGroup;
use crate::query::filter_type::FilterType;
use crate::query::join_column_filter::JoinColumnFilter;
use crate::query::join_table_filter::JoinTableFilter;
use crate::query::joined_table::JoinedTable;
use crate::query::ops::Combinator;
use crate::query::ops::Operation;
use crate::query::table_filter::TableFilter;
use crate::query::value::SqlValue;
use crate::query::value_filter::ValueFilter;

verus! {

/// One piece of a statement's text.
pub enum Token {
    /// Text that stands in the statement as it is: a keyword, punctuation
    /// or an identifier.
    Text(Seq<char>),
    /// The alias of the table with this number.
    Alias(nat),
    /// The placeholder with this number, counted from 1.
    Param(nat),
}

/// The decimal digit `d`, for `d` below ten.
pub open spec fn digit_text(d: nat) -> Seq<char> {
    if d == 0 {
        "0"@
    } else if d == 1 {
        "1"@
    } else if d == 2 {
        "2"@
    } else if d == 3 {
        "3"@
    } else if d == 4 {
        "4"@
    } else if d == 5 {
        "5"@
    } else if d == 6 {
        "6"@
    } else if d == 7 {
        "7"@
    } else if d == 8 {
        "8"@
    } else {
        "9"@
    }
}

/// `n` in decimal digits, without leading zeros.
pub open spec fn decimal_text(n: nat) -> Seq<char>
    decreases n,
{
    if n < 10 {
        digit_text(n)
    } else {
        decimal_text(n / 10) + digit_text(n % 10)
    }
}

impl Token {
    /// The characters that the piece contributes to the statement.
    pub open spec fn text(self) -> Seq<char> {
        match self {
            Token::Text(s) => s,
            Token::Alias(n) => "T"@ + decimal_text(n),
            Token::Param(k) => "$"@ + decimal_text(k),
        }
    }
}

/// The text of a sequence of pieces: their texts, one after the other.
pub open spec fn text_of(tokens: Seq<Token>) -> Seq<char>
    decreases tokens.len(),
{
    if tokens.len() == 0 {
        Seq::empty()
    } else {
        text_of(tokens.drop_last()) + tokens.last().text()
    }
}

/// The numbers of the placeholders among the pieces, in the order in which
/// they stand.
pub open spec fn placeholders(tokens: Seq<Token>) -> Seq<nat>
    decreases tokens.len(),
{
    if tokens.len() == 0 {
        Seq::empty()
    } else {
        match tokens.last() {
            Token::Param(k) => placeholders(tokens.drop_last()).push(k),
            _ => placeholders(tokens.drop_last()),
        }
    }
}

/// The numbers from `first` on, `count` of them.
pub open spec fn counting_from(first: nat, count: nat) -> Seq<nat> {
    Seq::new(count, |i: int| (first + i) as nat)
}

/// The text of a piece that holds the characters of `s`.
pub open spec fn lit(s: &str) -> Token {
    Token::Text(s@)
}

// ---------------------------------------------------------------------
// What a filter tree needs: table aliases and bound values.
// ---------------------------------------------------------------------

/// The number of table aliases that rendering `f` allocates: one for a
/// join over a column, two for a join over a junction table, and those of
/// the nested filter.
pub open spec fn filter_tables(f: FilterType) -> nat
    decreases f, 0nat, 0nat,
{
    match f {
        FilterType::ValueFilter(_) => 0,
        FilterType::JoinColumnFilter(j) => 1 + group_tables(j.filter.filters),
        FilterType::JoinTableFilter(j) => 2 + group_tables(j.child_table_filter.filters),
    }
}

/// The aliases that the first `n` of `filters` allocate.
pub open spec fn filters_tables(filters: Seq<FilterType>, n: nat) -> nat
    decreases filters, 0nat, n,
{
    if n == 0 || n > filters.len() {
        0
    } else {
        filters_tables(filters, (n - 1) as nat) + filter_tables(filters[n - 1])
    }
}

/// The aliases that the first `n` of `groups` allocate.
pub open spec fn groups_tables(groups: Seq<FilterGroup>, n: nat) -> nat
    decreases groups, 0nat, n,
{
    if n == 0 || n > groups.len() {
        0
    } else {
        groups_tables(groups, (n - 1) as nat) + group_tables(groups[n - 1])
    }
}

/// The aliases that rendering `g` allocates.
pub open spec fn group_tables(g: FilterGroup) -> nat
    decreases g, 1nat, 0nat,
{
    filters_tables(g.filters@, g.filters@.len()) + groups_tables(g.groups@, g.groups@.len())
}

/// The values that rendering `f` binds, in the order of their
/// placeholders.
pub open spec fn filter_values<'f>(f: FilterType<'f>) -> Seq<SqlValue<'f>>
    decreases f, 0nat, 0nat,
{
    match f {
        FilterType::ValueFilter(v) => if v.operation.binds_value() {
            seq![v.value]
        } else {
            Seq::empty()
        },
        FilterType::JoinColumnFilter(j) => group_values(j.filter.filters),
        FilterType::JoinTableFilter(j) => group_values(j.child_table_filter.filters),
    }
}

/// The values that the first `n` of `filters` bind.
pub open spec fn filters_values<'f>(filters: Seq<FilterType<'f>>, n: nat) -> Seq<SqlValue<'f>>
    decreases filters, 0nat, n,
{
    if n == 0 || n > filters.len() {
        Seq::empty()
    } else {
        filters_values(filters, (n - 1) as nat) + filter_values(filters[n - 1])
    }
}

/// The values that the first `n` of `groups` bind.
pub open spec fn groups_values<'f>(groups: Seq<FilterGroup<'f>>, n: nat) -> Seq<SqlValue<'f>>
    decreases groups, 0nat, n,
{
    if n == 0 || n > groups.len() {
        Seq::empty()
    } else {
        groups_values(groups, (n - 1) as nat) + group_values(groups[n - 1])
    }
}

/// The values that rendering `g` binds: those of its filters, then those
/// of its nested groups.
pub open spec fn group_values<'f>(g: FilterGroup<'f>) -> Seq<SqlValue<'f>>
    decreases g, 1nat, 0nat,
{
    filters_values(g.filters@, g.filters@.len()) + groups_values(g.groups@, g.groups@.len())
}

// ---------------------------------------------------------------------
// The pieces of a rendered filter tree.
//
// `current` is the alias of the table whose columns the predicates name,
// `next` the number of the first alias that is still free, and `bound`
// the number of values that the statement has bound so far.
// ---------------------------------------------------------------------

impl Combinator {
    /// The connective between two predicates, with a space on either side.
    pub open spec fn separator(self) -> Seq<char> {
        match self {
            Combinator::And => " AND "@,
            Combinator::Or => " OR "@,
        }
    }
}

/// The comparison of a column with placeholder `k`; the two null tests
/// name no placeholder.
pub open spec fn operation_tokens(op: Operation, k: nat) -> Seq<Token> {
    match op {
        Operation::Eq => seq![lit("= "), Token::Param(k)],
        Operation::Neq => seq![lit("<> "), Token::Param(k)],
        Operation::Lt => seq![lit("< "), Token::Param(k)],
        Operation::Gt => seq![lit("> "), Token::Param(k)],
        Operation::Lte => seq![lit("<= "), Token::Param(k)],
        Operation::Gte => seq![lit(">= "), Token::Param(k)],
        Operation::In => seq![lit("= ANY ("), Token::Param(k), lit(")")],
        Operation::NotIn => seq![lit("<> ANY ("), Token::Param(k), lit(")")],
        Operation::IsNull => seq![lit("IS NULL")],
        Operation::IsNotNull => seq![lit("IS NOT NULL")],
        Operation::Contains => seq![lit("LIKE '%' || "), Token::Param(k), lit(" || '%'")],
    }
}

/// `<current>.<column> <comparison>`, the comparison with the next free
/// placeholder.
pub open spec fn value_filter_tokens(v: ValueFilter, current: nat, bound: nat) -> Seq<Token> {
    seq![Token::Alias(current), lit("."), Token::Text(v.column@), lit(" ")] + operation_tokens(
        v.operation,
        bound + 1,
    )
}

/// The head of the subquery of a join over a column: the child table under
/// the alias `next`, tied to the current table.
pub open spec fn join_column_head(j: JoinColumnFilter, current: nat, next: nat) -> Seq<Token> {
    seq![
        lit("EXISTS(SELECT TRUE FROM "),
        Token::Text(j.filter.table@),
        lit(" AS "),
        Token::Alias(next),
        lit(" WHERE "),
        Token::Alias(next),
        lit("."),
        Token::Text(j.child_column@),
        lit(" = "),
        Token::Alias(current),
        lit("."),
        Token::Text(j.parent_column@),
    ]
}

/// The first half of the head of the subquery of a join over a junction
/// table: the junction table under the alias `next`, joined to the child
/// table under the alias after it.
pub open spec fn join_table_from(j: JoinTableFilter, next: nat) -> Seq<Token> {
    seq![
        lit("EXISTS(SELECT TRUE FROM "),
        Token::Text(j.join_table@),
        lit(" AS "),
        Token::Alias(next),
        lit(" INNER JOIN "),
        Token::Text(j.child_table_filter.table@),
        lit(" AS "),
        Token::Alias(next + 1),
        lit(" ON "),
        Token::Alias(next + 1),
        lit("."),
        Token::Text(j.child_table_join_col@),
        lit(" = "),
        Token::Alias(next),
        lit("."),
        Token::Text(j.join_table_child_col@),
    ]
}

/// The second half of that head: the junction table tied to the current
/// table.
pub open spec fn join_table_where(j: JoinTableFilter, current: nat, next: nat) -> Seq<Token> {
    seq![
        lit(" WHERE "),
        Token::Alias(next),
        lit("."),
        Token::Text(j.join_table_parent_col@),
        lit(" = "),
        Token::Alias(current),
        lit("."),
        Token::Text(j.parent_table_join_col@),
    ]
}

/// One predicate.
pub open spec fn filter_tokens(f: FilterType, current: nat, next: nat, bound: nat) -> Seq<Token>
    decreases f, 0nat, 0nat,
{
    match f {
        FilterType::ValueFilter(v) => value_filter_tokens(v, current, bound),
        FilterType::JoinColumnFilter(j) => join_column_head(j, current, next) + (if j.filter.filters.is_empty_spec() {
            Seq::empty()
        } else {
            seq![lit(" AND ")] + group_tokens(j.filter.filters, next, next + 1, bound)
        }) + seq![lit(")")],
        FilterType::JoinTableFilter(j) => join_table_from(j, next) + join_table_where(
            j,
            current,
            next,
        ) + (if j.child_table_filter.filters.is_empty_spec() {
            Seq::empty()
        } else {
            seq![lit(" AND ")] + group_tokens(
                j.child_table_filter.filters,
                next + 1,
                next + 2,
                bound,
            )
        }) + seq![lit(")")],
    }
}

/// The first `n` of `filters`, the connective between each two.
pub open spec fn filters_tokens(
    combinator: Combinator,
    filters: Seq<FilterType>,
    n: nat,
    current: nat,
    next: nat,
    bound: nat,
) -> Seq<Token>
    decreases filters, 0nat, n,
{
    if n == 0 || n > filters.len() {
        Seq::empty()
    } else {
        filters_tokens(combinator, filters, (n - 1) as nat, current, next, bound) + (if n > 1 {
            seq![Token::Text(combinator.separator())]
        } else {
            Seq::empty()
        }) + filter_tokens(
            filters[n - 1],
            current,
            next + filters_tables(filters, (n - 1) as nat),
            bound + filters_values(filters, (n - 1) as nat).len(),
        )
    }
}

/// The first `n` of `groups`, the connective between each two, and before
/// the first where it comes `after_filters`.
pub open spec fn groups_tokens(
    combinator: Combinator,
    groups: Seq<FilterGroup>,
    n: nat,
    after_filters: bool,
    current: nat,
    next: nat,
    bound: nat,
) -> Seq<Token>
    decreases groups, 0nat, n,
{
    if n == 0 || n > groups.len() {
        Seq::empty()
    } else {
        groups_tokens(combinator, groups, (n - 1) as nat, after_filters, current, next, bound) + (
        if n > 1 || after_filters {
            seq![Token::Text(combinator.separator())]
        } else {
            Seq::empty()
        }) + group_tokens(
            groups[n - 1],
            current,
            next + groups_tables(groups, (n - 1) as nat),
            bound + groups_values(groups, (n - 1) as nat).len(),
        )
    }
}

/// The opening or closing bracket of a group with `children` children: a
/// group is bracketed where it has more than one.
pub open spec fn bracket(children: nat, s: &str) -> Seq<Token> {
    if children > 1 {
        seq![lit(s)]
    } else {
        Seq::empty()
    }
}

/// A group: its filters, then its nested groups, joined by its connective.
pub open spec fn group_tokens(g: FilterGroup, current: nat, next: nat, bound: nat) -> Seq<Token>
    decreases g, 1nat, 0nat,
{
    bracket(g.child_count(), "(") + filters_tokens(
        g.combinator,
        g.filters@,
        g.filters@.len(),
        current,
        next,
        bound,
    ) + groups_tokens(
        g.combinator,
        g.groups@,
        g.groups@.len(),
        g.filters@.len() > 0,
        current,
        next + filters_tables(g.filters@, g.filters@.len()),
        bound + filters_values(g.filters@, g.filters@.len()).len(),
    ) + bracket(g.child_count(), ")")
}

// ---------------------------------------------------------------------
// The whole statement.
// ---------------------------------------------------------------------

/// The first `n` of the selected columns, each under the primary alias.
pub open spec fn select_tokens(select: Seq<&str>, n: nat) -> Seq<Token>
    decreases n,
{
    if n == 0 || n > select.len() {
        Seq::empty()
    } else {
        select_tokens(select, (n - 1) as nat) + (if n > 1 {
            seq![lit(", ")]
        } else {
            Seq::empty()
        }) + seq![Token::Alias(0), lit("."), Token::Text(select[n - 1]@)]
    }
}

/// What is selected: the columns, or every column where none is named.
pub open spec fn selection_tokens(select: Seq<&str>) -> Seq<Token> {
    if select.len() == 0 {
        seq![Token::Alias(0), lit(".*")]
    } else {
        select_tokens(select, select.len())
    }
}

/// The table under the primary alias; with a junction table, that table
/// first, under the name `J`, and the data table joined to it.
pub open spec fn from_tokens(joined: Option<JoinedTable>, table: &str) -> Seq<Token> {
    match joined {
        None => seq![Token::Text(table@), lit(" AS "), Token::Alias(0)],
        Some(j) => seq![
            Token::Text(j.join_table@),
            lit(" AS J INNER JOIN "),
            Token::Text(table@),
            lit(" AS "),
            Token::Alias(0),
            lit(" ON J."),
            Token::Text(j.join_table_join_col@),
            lit(" = "),
            Token::Alias(0),
            lit("."),
            Token::Text(j.data_table_join_col@),
        ],
    }
}

/// The predicate that binds the junction table's filter column to
/// placeholder `k`.
pub open spec fn binding_tokens(j: JoinedTable, k: nat) -> Seq<Token> {
    seq![lit("J."), Token::Text(j.join_table_filter_col@), lit(" = "), Token::Param(k)]
}

/// The condition: nothing where there is neither a predicate nor a
/// junction table; else the filter tree, then the junction table's binding,
/// with `AND` between them where both are there.
pub open spec fn where_tokens(joined: Option<JoinedTable>, g: FilterGroup) -> Seq<Token> {
    (if !g.is_empty_spec() || joined is Some {
        seq![lit(" WHERE ")]
    } else {
        Seq::empty()
    }) + group_tokens(g, 0, 1, 0) + (match joined {
        None => Seq::empty(),
        Some(j) => (if !g.is_empty_spec() {
            seq![lit(" AND ")]
        } else {
            Seq::empty()
        }) + binding_tokens(j, group_values(g).len() + 1),
    })
}

/// The pieces of the statement that selects `select` from the rows of
/// `filter`'s table that pass the filter, entered through `joined` where
/// there is one.
pub open spec fn statement_tokens(
    joined: Option<JoinedTable>,
    filter: TableFilter,
    select: Seq<&str>,
) -> Seq<Token> {
    seq![lit("SELECT ")] + selection_tokens(select) + seq![lit(" FROM ")] + from_tokens(
        joined,
        filter.table,
    ) + where_tokens(joined, filter.filters)
}

/// The values that the statement binds: those of the filter tree, then the
/// one that the junction table's filter column is bound to.
pub open spec fn statement_values<'f>(
    joined: Option<JoinedTable<'f>>,
    filter: TableFilter<'f>,
) -> Seq<SqlValue<'f>> {
    group_values(filter.filters) + (match joined {
        None => Seq::empty(),
        Some(j) => seq![j.join_table_filter_col_val],
    })
}

} // verus!
