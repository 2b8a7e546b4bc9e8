use vstd::prelude::*;
use crate::query::filter_group::FilterGroup;
use crate::query::filter_type::FilterType;
use crate::query::joined_table::JoinedTable;
use crate::query::ops::Combinator;
use crate::query::render::Token;
use crate::query::render::binding_tokens;
use crate::query::render::bracket;
use crate::query::render::counting_from;
use crate::query::render::filter_tokens;
use crate::query::render::filter_values;
use crate::query::render::filters_tokens;
use crate::query::render::filters_values;
use crate::query::render::from_tokens;
use crate::query::render::group_tables;
use crate::query::render::group_tokens;
use crate::query::render::group_values;
use crate::query::render::groups_tokens;
use crate::query::render::groups_values;
use crate::query::render::join_column_head;
use crate::query::render::join_table_from;
use crate::query::render::join_table_where;
use crate::query::render::lit;
use crate::query::render::operation_tokens;
use crate::query::render::placeholders;
use crate::query::render::select_tokens;
use crate::query::render::selection_tokens;
use crate::query::render::statement_tokens;
use crate::query::render::statement_values;
use crate::query::render::text_of;
use crate::query::render::value_filter_tokens;
use crate::query::render::where_tokens;
use crate::query::render::filter_tables;
use crate::query::render::filters_tables;
use crate::query::render::groups_tables;
use crate::query::shape::ValueShape;
use crate::query::shape::filter_shapes;
use crate::query::shape::group_shapes;
use crate::query::shape::lemma_filter_shapes;
use crate::query::shape::lemma_group_shapes;
use crate::query::value::SqlValue;
use crate::query::table_filter::TableFilter;
use crate::query::value_filter::ValueFilter;

verus! {

// ---------------------------------------------------------------------
// Pieces and their text.
// ---------------------------------------------------------------------

/// The text of two runs of pieces, one after the other, is the text of the
/// first and then the text of the second.
pub proof fn lemma_text_of_concat(a: Seq<Token>, b: Seq<Token>)
    ensures
        text_of(a + b) == text_of(a) + text_of(b),
    decreases b.len(),
{
    if b.len() == 0 {
        assert(a + b =~= a);
        assert(text_of(a) + text_of(b) =~= text_of(a));
    } else {
        lemma_text_of_concat(a, b.drop_last());
        assert((a + b).drop_last() =~= a + b.drop_last());
        assert((a + b).last() == b.last());
        assert(text_of(a + b) =~= text_of(a) + text_of(b));
    }
}

/// The placeholders of two runs of pieces, one after the other, are those
/// of the first and then those of the second.
pub proof fn lemma_placeholders_concat(a: Seq<Token>, b: Seq<Token>)
    ensures
        placeholders(a + b) == placeholders(a) + placeholders(b),
    decreases b.len(),
{
    if b.len() == 0 {
        assert(a + b =~= a);
        assert(placeholders(a) + placeholders(b) =~= placeholders(a));
    } else {
        lemma_placeholders_concat(a, b.drop_last());
        assert((a + b).drop_last() =~= a + b.drop_last());
        assert((a + b).last() == b.last());
        assert(placeholders(a + b) =~= placeholders(a) + placeholders(b));
    }
}

/// Pieces among which no placeholder stands have no placeholders.
pub proof fn lemma_placeholders_none(tokens: Seq<Token>)
    requires
        forall|i: int| 0 <= i < tokens.len() ==> !(#[trigger] tokens[i] is Param),
    ensures
        placeholders(tokens) == Seq::<nat>::empty(),
    decreases tokens.len(),
{
    if tokens.len() > 0 {
        lemma_placeholders_none(tokens.drop_last());
    }
}

/// One placeholder alone.
pub proof fn lemma_placeholders_one(k: nat)
    ensures
        placeholders(seq![Token::Param(k)]) == seq![k],
{
    let one = seq![Token::Param(k)];
    assert(one.drop_last() =~= Seq::<Token>::empty());
    assert(placeholders(one.drop_last()) =~= Seq::<nat>::empty());
    assert(placeholders(one) =~= seq![k]);
}

/// A run of numbers, continued where it ends, is one run.
pub proof fn lemma_counting_continues(first: nat, count: nat, more: nat)
    ensures
        counting_from(first, count) + counting_from(first + count, more) == counting_from(
            first,
            count + more,
        ),
{
    assert(counting_from(first, count) + counting_from(first + count, more) =~= counting_from(
        first,
        count + more,
    ));
}

// ---------------------------------------------------------------------
// Placeholders and bound values go side by side.
// ---------------------------------------------------------------------

/// A comparison names the placeholder that it is given, once, where it
/// binds a value, and none where it binds none.
pub proof fn lemma_value_filter_placeholders(v: ValueFilter, current: nat, bound: nat)
    ensures
        placeholders(value_filter_tokens(v, current, bound)) == counting_from(
            bound + 1,
            filter_values(FilterType::ValueFilter(v)).len(),
        ),
{
    let k = bound + 1;
    let front = seq![Token::Alias(current), lit("."), Token::Text(v.column@), lit(" ")];
    let op = operation_tokens(v.operation, k);
    lemma_placeholders_none(front);
    lemma_placeholders_concat(front, op);
    lemma_placeholders_one(k);
    if v.operation.binds_value() {
        let a = op.take(1);
        let b = op.skip(1).take(1);
        let c = op.skip(2);
        assert(op =~= a + b + c);
        assert(b =~= seq![Token::Param(k)]);
        lemma_placeholders_none(a);
        lemma_placeholders_none(c);
        lemma_placeholders_concat(a, b);
        lemma_placeholders_concat(a + b, c);
        assert(placeholders(op) =~= seq![k]);
        assert(counting_from(k, 1) =~= seq![k]);
    } else {
        lemma_placeholders_none(op);
        assert(counting_from(k, 0) =~= Seq::<nat>::empty());
    }
    assert(placeholders(front + op) =~= placeholders(op));
}

/// The placeholders of a rendered predicate count up from the first free
/// number, one for each value that the predicate binds.
pub proof fn lemma_filter_placeholders(f: FilterType, current: nat, next: nat, bound: nat)
    ensures
        placeholders(filter_tokens(f, current, next, bound)) == counting_from(
            bound + 1,
            filter_values(f).len(),
        ),
    decreases f, 0nat, 0nat,
{
    match f {
        FilterType::ValueFilter(v) => {
            lemma_value_filter_placeholders(v, current, bound);
        },
        FilterType::JoinColumnFilter(j) => {
            let head = join_column_head(j, current, next);
            let inner = j.filter.filters;
            let nested = if inner.is_empty_spec() {
                Seq::<Token>::empty()
            } else {
                seq![lit(" AND ")] + group_tokens(inner, next, next + 1, bound)
            };
            let close = seq![lit(")")];
            lemma_placeholders_none(head);
            lemma_placeholders_none(close);
            lemma_placeholders_none(seq![lit(" AND ")]);
            lemma_group_placeholders(inner, next, next + 1, bound);
            if inner.is_empty_spec() {
                lemma_empty_group_renders_nothing(inner, next, next + 1, bound);
            }
            lemma_placeholders_concat(seq![lit(" AND ")], group_tokens(inner, next, next + 1, bound));
            lemma_placeholders_concat(head, nested);
            lemma_placeholders_concat(head + nested, close);
            assert(placeholders(nested) =~= counting_from(bound + 1, group_values(inner).len()));
            assert(placeholders(head + nested + close) =~= placeholders(nested));
        },
        FilterType::JoinTableFilter(j) => {
            let from = join_table_from(j, next);
            let tie = join_table_where(j, current, next);
            let inner = j.child_table_filter.filters;
            let nested = if inner.is_empty_spec() {
                Seq::<Token>::empty()
            } else {
                seq![lit(" AND ")] + group_tokens(inner, next + 1, next + 2, bound)
            };
            let close = seq![lit(")")];
            lemma_placeholders_none(from);
            lemma_placeholders_none(tie);
            lemma_placeholders_none(close);
            lemma_placeholders_none(seq![lit(" AND ")]);
            lemma_group_placeholders(inner, next + 1, next + 2, bound);
            if inner.is_empty_spec() {
                lemma_empty_group_renders_nothing(inner, next + 1, next + 2, bound);
            }
            lemma_placeholders_concat(
                seq![lit(" AND ")],
                group_tokens(inner, next + 1, next + 2, bound),
            );
            lemma_placeholders_concat(from, tie);
            lemma_placeholders_concat(from + tie, nested);
            lemma_placeholders_concat(from + tie + nested, close);
            assert(placeholders(nested) =~= counting_from(bound + 1, group_values(inner).len()));
            assert(placeholders(from + tie + nested + close) =~= placeholders(nested));
        },
    }
}

/// The same of the first `n` of `filters`.
pub proof fn lemma_filters_placeholders(
    combinator: Combinator,
    filters: Seq<FilterType>,
    n: nat,
    current: nat,
    next: nat,
    bound: nat,
)
    ensures
        placeholders(filters_tokens(combinator, filters, n, current, next, bound))
            == counting_from(bound + 1, filters_values(filters, n).len()),
    decreases filters, 0nat, n,
{
    if n == 0 || n > filters.len() {
        assert(counting_from(bound + 1, 0) =~= Seq::<nat>::empty());
    } else {
        let m = (n - 1) as nat;
        let done = filters_tokens(combinator, filters, m, current, next, bound);
        let sep = if n > 1 {
            seq![Token::Text(combinator.separator())]
        } else {
            Seq::<Token>::empty()
        };
        let one = filter_tokens(
            filters[n - 1],
            current,
            next + filters_tables(filters, m),
            bound + filters_values(filters, m).len(),
        );
        lemma_filters_placeholders(combinator, filters, m, current, next, bound);
        lemma_filter_placeholders(
            filters[n - 1],
            current,
            next + filters_tables(filters, m),
            bound + filters_values(filters, m).len(),
        );
        lemma_placeholders_none(sep);
        lemma_placeholders_concat(done, sep);
        lemma_placeholders_concat(done + sep, one);
        lemma_counting_continues(
            bound + 1,
            filters_values(filters, m).len(),
            filter_values(filters[n - 1]).len(),
        );
        assert(placeholders(done + sep) =~= placeholders(done));
    }
}

/// The same of the first `n` of `groups`.
pub proof fn lemma_groups_placeholders(
    combinator: Combinator,
    groups: Seq<FilterGroup>,
    n: nat,
    after_filters: bool,
    current: nat,
    next: nat,
    bound: nat,
)
    ensures
        placeholders(groups_tokens(combinator, groups, n, after_filters, current, next, bound))
            == counting_from(bound + 1, groups_values(groups, n).len()),
    decreases groups, 0nat, n,
{
    if n == 0 || n > groups.len() {
        assert(counting_from(bound + 1, 0) =~= Seq::<nat>::empty());
    } else {
        let m = (n - 1) as nat;
        let done = groups_tokens(combinator, groups, m, after_filters, current, next, bound);
        let sep = if n > 1 || after_filters {
            seq![Token::Text(combinator.separator())]
        } else {
            Seq::<Token>::empty()
        };
        let one = group_tokens(
            groups[n - 1],
            current,
            next + groups_tables(groups, m),
            bound + groups_values(groups, m).len(),
        );
        lemma_groups_placeholders(combinator, groups, m, after_filters, current, next, bound);
        lemma_group_placeholders(
            groups[n - 1],
            current,
            next + groups_tables(groups, m),
            bound + groups_values(groups, m).len(),
        );
        lemma_placeholders_none(sep);
        lemma_placeholders_concat(done, sep);
        lemma_placeholders_concat(done + sep, one);
        lemma_counting_continues(
            bound + 1,
            groups_values(groups, m).len(),
            group_values(groups[n - 1]).len(),
        );
        assert(placeholders(done + sep) =~= placeholders(done));
    }
}

/// The same of a group.
pub proof fn lemma_group_placeholders(g: FilterGroup, current: nat, next: nat, bound: nat)
    ensures
        placeholders(group_tokens(g, current, next, bound)) == counting_from(
            bound + 1,
            group_values(g).len(),
        ),
    decreases g, 1nat, 0nat,
{
    let open = bracket(g.child_count(), "(");
    let close = bracket(g.child_count(), ")");
    let nf = g.filters@.len();
    let ng = g.groups@.len();
    let tables = filters_tables(g.filters@, nf);
    let values = filters_values(g.filters@, nf).len();
    let fs = filters_tokens(g.combinator, g.filters@, nf, current, next, bound);
    let gs = groups_tokens(
        g.combinator,
        g.groups@,
        ng,
        nf > 0,
        current,
        next + tables,
        bound + values,
    );
    lemma_filters_placeholders(g.combinator, g.filters@, nf, current, next, bound);
    lemma_groups_placeholders(
        g.combinator,
        g.groups@,
        ng,
        nf > 0,
        current,
        next + tables,
        bound + values,
    );
    lemma_placeholders_none(open);
    lemma_placeholders_none(close);
    lemma_placeholders_concat(open, fs);
    lemma_placeholders_concat(open + fs, gs);
    lemma_placeholders_concat(open + fs + gs, close);
    lemma_counting_continues(bound + 1, values, groups_values(g.groups@, ng).len());
    assert(placeholders(open + fs) =~= placeholders(fs));
    assert(placeholders(open + fs + gs + close) =~= placeholders(fs) + placeholders(gs));
}

/// An empty group renders as nothing, binds nothing and needs no alias.
pub proof fn lemma_empty_group_renders_nothing(
    g: FilterGroup,
    current: nat,
    next: nat,
    bound: nat,
)
    requires
        g.is_empty_spec(),
    ensures
        group_tokens(g, current, next, bound) == Seq::<Token>::empty(),
        group_values(g) == Seq::<SqlValue>::empty(),
        group_tables(g) == 0,
{
    assert(filters_values(g.filters@, 0) =~= Seq::empty());
    assert(groups_values(g.groups@, 0) =~= Seq::empty());
    assert(group_values(g) =~= Seq::empty());
    assert(filters_tokens(g.combinator, g.filters@, 0, current, next, bound) =~= Seq::empty());
    assert(groups_tokens(g.combinator, g.groups@, 0, false, current, next, bound)
        =~= Seq::empty());
    assert(group_tokens(g, current, next, bound) =~= Seq::<Token>::empty());
}

/// The selected columns name no placeholder.
pub proof fn lemma_select_placeholders(select: Seq<&str>, n: nat)
    ensures
        placeholders(select_tokens(select, n)) == Seq::<nat>::empty(),
    decreases n,
{
    if n == 0 || n > select.len() {
    } else {
        let done = select_tokens(select, (n - 1) as nat);
        let sep = if n > 1 {
            seq![lit(", ")]
        } else {
            Seq::<Token>::empty()
        };
        let one = seq![Token::Alias(0), lit("."), Token::Text(select[n - 1]@)];
        lemma_select_placeholders(select, (n - 1) as nat);
        lemma_placeholders_none(sep);
        lemma_placeholders_none(one);
        lemma_placeholders_concat(done, sep);
        lemma_placeholders_concat(done + sep, one);
        assert(placeholders(done + sep + one) =~= Seq::<nat>::empty());
    }
}

/// The placeholders of a statement are the numbers from 1 to the number of
/// values that it binds, each once, in the order in which they stand in the
/// text.
pub proof fn law_placeholders_align(
    joined: Option<JoinedTable>,
    filter: TableFilter,
    select: Seq<&str>,
)
    ensures
        placeholders(statement_tokens(joined, filter, select)) == counting_from(
            1,
            statement_values(joined, filter).len(),
        ),
{
    let g = filter.filters;
    let select_kw = seq![lit("SELECT ")];
    let selection = selection_tokens(select);
    let from_kw = seq![lit(" FROM ")];
    let from = from_tokens(joined, filter.table);
    let condition = where_tokens(joined, g);
    lemma_placeholders_none(select_kw);
    lemma_placeholders_none(from_kw);
    lemma_placeholders_none(from);
    lemma_select_placeholders(select, select.len());
    if select.len() == 0 {
        lemma_placeholders_none(selection);
    }
    lemma_placeholders_concat(select_kw, selection);
    lemma_placeholders_concat(select_kw + selection, from_kw);
    lemma_placeholders_concat(select_kw + selection + from_kw, from);
    lemma_placeholders_concat(select_kw + selection + from_kw + from, condition);
    assert(placeholders(select_kw + selection + from_kw + from) =~= Seq::<nat>::empty());
    let opening = if !g.is_empty_spec() || joined is Some {
        seq![lit(" WHERE ")]
    } else {
        Seq::<Token>::empty()
    };
    let tree = group_tokens(g, 0, 1, 0);
    let n = group_values(g).len();
    lemma_placeholders_none(opening);
    lemma_group_placeholders(g, 0, 1, 0);
    lemma_placeholders_concat(opening, tree);
    match joined {
        None => {
            let last = Seq::<Token>::empty();
            lemma_placeholders_concat(opening + tree, last);
            assert(placeholders(opening + tree + last) =~= counting_from(1, n));
            assert(statement_values(joined, filter) =~= group_values(g));
        },
        Some(j) => {
            let glue = if !g.is_empty_spec() {
                seq![lit(" AND ")]
            } else {
                Seq::<Token>::empty()
            };
            let binding = binding_tokens(j, n + 1);
            let front = binding.take(3);
            let param = seq![Token::Param(n + 1)];
            assert(binding =~= front + param);
            lemma_placeholders_none(glue);
            lemma_placeholders_none(front);
            lemma_placeholders_one(n + 1);
            lemma_placeholders_concat(front, param);
            lemma_placeholders_concat(glue, binding);
            lemma_placeholders_concat(opening + tree, glue + binding);
            assert(placeholders(binding) =~= seq![n + 1]);
            assert(counting_from(1, n) + seq![n + 1] =~= counting_from(1, n + 1));
            assert(placeholders(opening + tree + (glue + binding)) =~= counting_from(1, n + 1));
        },
    }
    assert(placeholders(condition) =~= counting_from(1, statement_values(joined, filter).len()));
}

/// A null test binds no value and names no placeholder.
pub proof fn law_null_tests_bind_nothing(v: ValueFilter, current: nat, bound: nat)
    requires
        !v.operation.binds_value(),
    ensures
        filter_values(FilterType::ValueFilter(v)).len() == 0,
        placeholders(value_filter_tokens(v, current, bound)) == Seq::<nat>::empty(),
{
    lemma_value_filter_placeholders(v, current, bound);
    assert(counting_from(bound + 1, 0) =~= Seq::<nat>::empty());
}

// ---------------------------------------------------------------------
// The binding of the junction table.
// ---------------------------------------------------------------------

/// A statement that is entered through a junction table ends with the
/// binding of that table's filter column, whose placeholder is the last
/// and stands for the last value. Before the binding stands `AND` where
/// the filter holds a predicate, and `WHERE` itself where it holds none.
pub proof fn law_binding_comes_last(j: JoinedTable, filter: TableFilter, select: Seq<&str>)
    ensures
        ({
            let tokens = statement_tokens(Some(j), filter, select);
            let values = statement_values(Some(j), filter);
            &&& values.len() == group_values(filter.filters).len() + 1
            &&& values.last() == j.join_table_filter_col_val
            &&& tokens.len() >= 5
            &&& tokens.skip(tokens.len() - 4) == binding_tokens(j, values.len())
            &&& tokens[tokens.len() - 5] == (if filter.filters.is_empty_spec() {
                lit(" WHERE ")
            } else {
                lit(" AND ")
            })
            &&& text_of(tokens) == text_of(tokens.take(tokens.len() - 4)) + text_of(
                binding_tokens(j, values.len()),
            )
        }),
{
    let g = filter.filters;
    let tokens = statement_tokens(Some(j), filter, select);
    let values = statement_values(Some(j), filter);
    let binding = binding_tokens(j, group_values(g).len() + 1);
    let glue = if !g.is_empty_spec() {
        seq![lit(" AND ")]
    } else {
        Seq::<Token>::empty()
    };
    let opening = seq![lit(" WHERE ")];
    let tree = group_tokens(g, 0, 1, 0);
    let front = seq![lit("SELECT ")] + selection_tokens(select) + seq![lit(" FROM ")]
        + from_tokens(Some(j), filter.table);
    if g.is_empty_spec() {
        lemma_empty_group_renders_nothing(g, 0, 1, 0);
    }
    assert(where_tokens(Some(j), g) =~= opening + tree + (glue + binding));
    let before = front + opening + tree + glue;
    assert(tokens =~= before + binding);
    assert(before.len() >= 1);
    assert(before.last() == if g.is_empty_spec() {
        lit(" WHERE ")
    } else {
        lit(" AND ")
    });
    assert(tokens.skip(tokens.len() - 4) =~= binding);
    assert(tokens.take(tokens.len() - 4) =~= before);
    lemma_text_of_concat(before, binding);
    assert(values =~= group_values(g).push(j.join_table_filter_col_val));
}

// ---------------------------------------------------------------------
// Merging and rendering.
// ---------------------------------------------------------------------

/// A statement reads of the root group its connective and the two lists
/// that it holds, and nothing else: filters of one table whose root groups
/// agree in these give the same statement.
pub proof fn lemma_statement_reads_the_lists(
    joined: Option<JoinedTable>,
    a: TableFilter,
    b: TableFilter,
    select: Seq<&str>,
)
    requires
        a.table@ == b.table@,
        a.filters.combinator == b.filters.combinator,
        a.filters.filters@ == b.filters.filters@,
        a.filters.groups@ == b.filters.groups@,
    ensures
        statement_tokens(joined, a, select) == statement_tokens(joined, b, select),
        statement_values(joined, a) == statement_values(joined, b),
{
}

/// A group of one filter alone renders as that filter, without brackets.
pub proof fn law_single_filter_unbracketed(g: FilterGroup, current: nat, next: nat, bound: nat)
    requires
        g.filters@.len() == 1,
        g.groups@.len() == 0,
    ensures
        group_tokens(g, current, next, bound) == filter_tokens(g.filters@[0], current, next, bound),
{
    let c = g.combinator;
    assert(filters_tokens(c, g.filters@, 0, current, next, bound) =~= Seq::<Token>::empty());
    assert(filters_values(g.filters@, 0) =~= Seq::empty());
    assert(filters_tables(g.filters@, 0) == 0);
    assert(filters_tokens(c, g.filters@, 1, current, next, bound) =~= filter_tokens(
        g.filters@[0],
        current,
        next,
        bound,
    ));
    assert(groups_tokens(
        c,
        g.groups@,
        0,
        true,
        current,
        next + filters_tables(g.filters@, 1),
        bound + filters_values(g.filters@, 1).len(),
    ) =~= Seq::<Token>::empty());
    assert(group_tokens(g, current, next, bound) =~= filter_tokens(
        g.filters@[0],
        current,
        next,
        bound,
    ));
}

/// Merging a group of one filter into the root of a table's filter gives
/// the statement that adding the filter itself gives, text and values.
pub proof fn law_singleton_collapse(
    joined: Option<JoinedTable>,
    select: Seq<&str>,
    base: TableFilter,
    child: FilterGroup,
    merged: TableFilter,
    direct: TableFilter,
)
    requires
        child.filters@.len() == 1,
        child.groups@.len() == 0,
        merged.table@ == base.table@,
        merged.filters.combinator == base.filters.combinator,
        merged.filters.filters@ == base.filters.filters@ + FilterGroup::merged_filters(
            base.filters.combinator,
            child,
        ),
        merged.filters.groups@ == base.filters.groups@ + FilterGroup::merged_groups(
            base.filters.combinator,
            child,
        ),
        direct.table@ == base.table@,
        direct.filters.combinator == base.filters.combinator,
        direct.filters.filters@ == base.filters.filters@.push(child.filters@[0]),
        direct.filters.groups@ == base.filters.groups@,
    ensures
        text_of(statement_tokens(joined, merged, select)) == text_of(
            statement_tokens(joined, direct, select),
        ),
        statement_values(joined, merged) == statement_values(joined, direct),
{
    FilterGroup::law_singleton_merge(base.filters.combinator, child);
    assert(merged.filters.filters@ =~= direct.filters.filters@);
    assert(merged.filters.groups@ =~= direct.filters.groups@);
    lemma_statement_reads_the_lists(joined, merged, direct, select);
}

/// Two groups of one filter each, merged one after the other into the root
/// of a table's filter, give the statement that adding the two filters one
/// after the other gives, text and values.
pub proof fn law_merged_singletons_render_as_direct(
    joined: Option<JoinedTable>,
    select: Seq<&str>,
    base: TableFilter,
    first: FilterGroup,
    second: FilterGroup,
    merged: TableFilter,
    direct: TableFilter,
)
    requires
        first.filters@.len() == 1,
        first.groups@.len() == 0,
        second.filters@.len() == 1,
        second.groups@.len() == 0,
        merged.table@ == base.table@,
        merged.filters.combinator == base.filters.combinator,
        merged.filters.filters@ == base.filters.filters@ + FilterGroup::merged_filters(
            base.filters.combinator,
            first,
        ) + FilterGroup::merged_filters(base.filters.combinator, second),
        merged.filters.groups@ == base.filters.groups@ + FilterGroup::merged_groups(
            base.filters.combinator,
            first,
        ) + FilterGroup::merged_groups(base.filters.combinator, second),
        direct.table@ == base.table@,
        direct.filters.combinator == base.filters.combinator,
        direct.filters.filters@ == base.filters.filters@.push(first.filters@[0]).push(
            second.filters@[0],
        ),
        direct.filters.groups@ == base.filters.groups@,
    ensures
        text_of(statement_tokens(joined, merged, select)) == text_of(
            statement_tokens(joined, direct, select),
        ),
        statement_values(joined, merged) == statement_values(joined, direct),
{
    FilterGroup::law_merge_of_two_singletons(
        base.filters.combinator,
        base.filters.filters@,
        base.filters.groups@,
        first,
        second,
    );
    lemma_statement_reads_the_lists(joined, merged, direct, select);
}

// ---------------------------------------------------------------------
// What a filter says decides how it renders.
// ---------------------------------------------------------------------

/// What each of `values` holds.
pub open spec fn value_shapes(values: Seq<SqlValue>) -> Seq<ValueShape> {
    Seq::new(values.len(), |i: int| values[i].shape())
}

/// Two predicates that say the same render as the same pieces, need as
/// many aliases and bind values that hold the same.
pub proof fn lemma_filter_renders_by_shape(
    a: FilterType,
    b: FilterType,
    current: nat,
    next: nat,
    bound: nat,
)
    requires
        a.shape() == b.shape(),
    ensures
        filter_tokens(a, current, next, bound) == filter_tokens(b, current, next, bound),
        filter_tables(a) == filter_tables(b),
        value_shapes(filter_values(a)) == value_shapes(filter_values(b)),
    decreases a, 0nat, 0nat,
{
    match a {
        FilterType::ValueFilter(va) => {
            let vb = b->ValueFilter_0;
            assert(value_shapes(filter_values(a)) =~= value_shapes(filter_values(b)));
        },
        FilterType::JoinColumnFilter(ja) => {
            let jb = b->JoinColumnFilter_0;
            let ga = ja.filter.filters;
            let gb = jb.filter.filters;
            lemma_group_renders_by_shape(ga, gb, next, next + 1, bound);
            lemma_filter_shapes(ga.filters@, ga.filters@.len());
            lemma_filter_shapes(gb.filters@, gb.filters@.len());
            lemma_group_shapes(ga.groups@, ga.groups@.len());
            lemma_group_shapes(gb.groups@, gb.groups@.len());
        },
        FilterType::JoinTableFilter(ja) => {
            let jb = b->JoinTableFilter_0;
            let ga = ja.child_table_filter.filters;
            let gb = jb.child_table_filter.filters;
            lemma_group_renders_by_shape(ga, gb, next + 1, next + 2, bound);
            lemma_filter_shapes(ga.filters@, ga.filters@.len());
            lemma_filter_shapes(gb.filters@, gb.filters@.len());
            lemma_group_shapes(ga.groups@, ga.groups@.len());
            lemma_group_shapes(gb.groups@, gb.groups@.len());
        },
    }
}

/// The same of the first `n` of two lists of predicates that say the same.
pub proof fn lemma_filters_render_by_shape(
    combinator: Combinator,
    a: Seq<FilterType>,
    b: Seq<FilterType>,
    n: nat,
    current: nat,
    next: nat,
    bound: nat,
)
    requires
        a.len() == b.len(),
        forall|i: int| 0 <= i < a.len() ==> (#[trigger] a[i]).shape() == b[i].shape(),
    ensures
        filters_tokens(combinator, a, n, current, next, bound) == filters_tokens(
            combinator,
            b,
            n,
            current,
            next,
            bound,
        ),
        filters_tables(a, n) == filters_tables(b, n),
        value_shapes(filters_values(a, n)) == value_shapes(filters_values(b, n)),
    decreases a, 0nat, n,
{
    if n == 0 || n > a.len() {
        assert(value_shapes(filters_values(a, n)) =~= value_shapes(filters_values(b, n)));
    } else {
        let m = (n - 1) as nat;
        lemma_filters_render_by_shape(combinator, a, b, m, current, next, bound);
        assert(a[n - 1].shape() == b[n - 1].shape());
        assert(filters_values(a, m).len() == value_shapes(filters_values(a, m)).len());
        assert(filters_values(b, m).len() == value_shapes(filters_values(b, m)).len());
        lemma_filter_renders_by_shape(
            a[n - 1],
            b[n - 1],
            current,
            next + filters_tables(a, m),
            bound + filters_values(a, m).len(),
        );
        lemma_value_shapes_concat(filters_values(a, m), filter_values(a[n - 1]));
        lemma_value_shapes_concat(filters_values(b, m), filter_values(b[n - 1]));
    }
}

/// The same of the first `n` of two lists of groups that say the same.
pub proof fn lemma_groups_render_by_shape(
    combinator: Combinator,
    a: Seq<FilterGroup>,
    b: Seq<FilterGroup>,
    n: nat,
    after_filters: bool,
    current: nat,
    next: nat,
    bound: nat,
)
    requires
        a.len() == b.len(),
        forall|i: int| 0 <= i < a.len() ==> (#[trigger] a[i]).shape() == b[i].shape(),
    ensures
        groups_tokens(combinator, a, n, after_filters, current, next, bound) == groups_tokens(
            combinator,
            b,
            n,
            after_filters,
            current,
            next,
            bound,
        ),
        groups_tables(a, n) == groups_tables(b, n),
        value_shapes(groups_values(a, n)) == value_shapes(groups_values(b, n)),
    decreases a, 0nat, n,
{
    if n == 0 || n > a.len() {
        assert(value_shapes(groups_values(a, n)) =~= value_shapes(groups_values(b, n)));
    } else {
        let m = (n - 1) as nat;
        lemma_groups_render_by_shape(combinator, a, b, m, after_filters, current, next, bound);
        assert(a[n - 1].shape() == b[n - 1].shape());
        assert(groups_values(a, m).len() == value_shapes(groups_values(a, m)).len());
        assert(groups_values(b, m).len() == value_shapes(groups_values(b, m)).len());
        lemma_group_renders_by_shape(
            a[n - 1],
            b[n - 1],
            current,
            next + groups_tables(a, m),
            bound + groups_values(a, m).len(),
        );
        lemma_value_shapes_concat(groups_values(a, m), group_values(a[n - 1]));
        lemma_value_shapes_concat(groups_values(b, m), group_values(b[n - 1]));
    }
}

/// The same of two groups that say the same.
pub proof fn lemma_group_renders_by_shape(
    a: FilterGroup,
    b: FilterGroup,
    current: nat,
    next: nat,
    bound: nat,
)
    requires
        a.shape() == b.shape(),
    ensures
        group_tokens(a, current, next, bound) == group_tokens(b, current, next, bound),
        group_tables(a) == group_tables(b),
        value_shapes(group_values(a)) == value_shapes(group_values(b)),
    decreases a, 1nat, 0nat,
{
    let nf = a.filters@.len();
    let ng = a.groups@.len();
    lemma_filter_shapes(a.filters@, nf);
    lemma_filter_shapes(b.filters@, b.filters@.len());
    lemma_group_shapes(a.groups@, ng);
    lemma_group_shapes(b.groups@, b.groups@.len());
    assert(nf == b.filters@.len());
    assert(ng == b.groups@.len());
    assert forall|i: int| 0 <= i < nf implies (#[trigger] a.filters@[i]).shape()
        == b.filters@[i].shape() by {
        assert(filter_shapes(a.filters@, nf)[i] == a.filters@[i].shape());
        assert(filter_shapes(b.filters@, nf)[i] == b.filters@[i].shape());
        assert(a.shape().filters[i] == b.shape().filters[i]);
    }
    assert forall|i: int| 0 <= i < ng implies (#[trigger] a.groups@[i]).shape()
        == b.groups@[i].shape() by {
        assert(group_shapes(a.groups@, ng)[i] == a.groups@[i].shape());
        assert(group_shapes(b.groups@, ng)[i] == b.groups@[i].shape());
        assert(a.shape().groups[i] == b.shape().groups[i]);
    }
    lemma_filters_render_by_shape(a.combinator, a.filters@, b.filters@, nf, current, next, bound);
    assert(filters_values(a.filters@, nf).len() == value_shapes(
        filters_values(a.filters@, nf),
    ).len());
    assert(filters_values(b.filters@, nf).len() == value_shapes(
        filters_values(b.filters@, nf),
    ).len());
    lemma_groups_render_by_shape(
        a.combinator,
        a.groups@,
        b.groups@,
        ng,
        nf > 0,
        current,
        next + filters_tables(a.filters@, nf),
        bound + filters_values(a.filters@, nf).len(),
    );
    lemma_value_shapes_concat(filters_values(a.filters@, nf), groups_values(a.groups@, ng));
    lemma_value_shapes_concat(filters_values(b.filters@, nf), groups_values(b.groups@, ng));
}

/// What values hold, one run behind the other.
pub proof fn lemma_value_shapes_concat(a: Seq<SqlValue>, b: Seq<SqlValue>)
    ensures
        value_shapes(a + b) == value_shapes(a) + value_shapes(b),
{
    assert(value_shapes(a + b) =~= value_shapes(a) + value_shapes(b));
}

/// What a filter says decides its statement: two filters of one table
/// whose root groups say the same give the same text, and bind values that
/// hold the same, in the same order.
pub proof fn law_shape_decides_statement(
    joined: Option<JoinedTable>,
    a: TableFilter,
    b: TableFilter,
    select: Seq<&str>,
)
    requires
        a.table@ == b.table@,
        a.filters.shape() == b.filters.shape(),
    ensures
        text_of(statement_tokens(joined, a, select)) == text_of(
            statement_tokens(joined, b, select),
        ),
        value_shapes(statement_values(joined, a)) == value_shapes(statement_values(joined, b)),
{
    lemma_group_renders_by_shape(a.filters, b.filters, 0, 1, 0);
    lemma_filter_shapes(a.filters.filters@, a.filters.filters@.len());
    lemma_filter_shapes(b.filters.filters@, b.filters.filters@.len());
    lemma_group_shapes(a.filters.groups@, a.filters.groups@.len());
    lemma_group_shapes(b.filters.groups@, b.filters.groups@.len());
    assert(group_values(a.filters).len() == value_shapes(group_values(a.filters)).len());
    assert(group_values(b.filters).len() == value_shapes(group_values(b.filters)).len());
    let last = match joined {
        None => Seq::<SqlValue>::empty(),
        Some(j) => seq![j.join_table_filter_col_val],
    };
    lemma_value_shapes_concat(group_values(a.filters), last);
    lemma_value_shapes_concat(group_values(b.filters), last);
    assert(statement_tokens(joined, a, select) == statement_tokens(joined, b, select));
}

} // verus!
