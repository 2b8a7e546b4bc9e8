use vstd::prelude::*;
use vstd::string::StringExecFns;
use crate::query::filter_group::FilterGroup;
use crate::query::filter_type::FilterType;
use crate::query::join_column_filter::JoinColumnFilter;
use crate::query::join_table_filter::JoinTableFilter;
use crate::query::joined_table::JoinedTable;
use crate::query::ops::Combinator;
use crate::query::ops::Operation;
use crate::query::render::Token;
use crate::query::render::digit_text;
use crate::query::render::decimal_text;
use crate::query::render::text_of;
use crate::query::render::lit;
use crate::query::render::filter_tables;
use crate::query::render::filters_tables;
use crate::query::render::groups_tables;
use crate::query::render::group_tables;
use crate::query::render::filter_values;
use crate::query::render::filters_values;
use crate::query::render::groups_values;
use crate::query::render::group_values;
use crate::query::render::value_filter_tokens;
use crate::query::render::join_column_head;
use crate::query::render::join_table_from;
use crate::query::render::join_table_where;
use crate::query::render::filter_tokens;
use crate::query::render::filters_tokens;
use crate::query::render::groups_tokens;
use crate::query::render::bracket;
use crate::query::render::group_tokens;
use crate::query::render::select_tokens;
use crate::query::render::selection_tokens;
use crate::query::render::from_tokens;
use crate::query::render::binding_tokens;
use crate::query::render::where_tokens;
use crate::query::render::statement_tokens;
use crate::query::render::statement_values;
use crate::query::table_filter::TableFilter;
use crate::query::value::SqlValue;
use crate::query::value_filter::ValueFilter;

verus! {

/// The text of the decimal digit `d`.
fn digit_str(d: u64) -> (s: &'static str)
    requires
        d < 10,
    ensures
        s@ == digit_text(d as nat),
{
    if d == 0 {
        "0"
    } else if d == 1 {
        "1"
    } else if d == 2 {
        "2"
    } else if d == 3 {
        "3"
    } else if d == 4 {
        "4"
    } else if d == 5 {
        "5"
    } else if d == 6 {
        "6"
    } else if d == 7 {
        "7"
    } else if d == 8 {
        "8"
    } else {
        "9"
    }
}

/// Appends `n` in decimal digits to `out`.
pub fn push_decimal(out: &mut String, n: u64)
    ensures
        final(out)@ == old(out)@ + decimal_text(n as nat),
    decreases n,
{
    if n >= 10 {
        push_decimal(out, n / 10);
    }
    out.append(digit_str(n % 10));
    assert(out@ =~= old(out)@ + decimal_text(n as nat));
}

impl Combinator {
    /// The connective between two predicates, with a space on either side.
    pub fn separator_str(&self) -> (s: &'static str)
        ensures
            s@ == self.separator(),
    {
        match self {
            Combinator::And => " AND ",
            Combinator::Or => " OR ",
        }
    }
}

/// Renders one filter tree as one statement. It numbers the table aliases
/// as it meets the tables, keeps the aliases of the tables that it is
/// inside of, the innermost last, and collects the text and the bound
/// values side by side.
pub struct SqlVisitor<'v> {
    joined_table: Option<JoinedTable<'v>>,
    next_table: u32,
    current_table: Vec<u32>,
    query: String,
    params: Vec<SqlValue<'v>>,
    emitted: Ghost<Seq<Token>>,
}

impl<'v> SqlVisitor<'v> {
    /// The junction table through which the statement enters its table.
    pub closed spec fn joined(&self) -> Option<JoinedTable<'v>> {
        self.joined_table
    }

    /// Nothing has been rendered yet.
    pub closed spec fn is_fresh(&self) -> bool {
        &&& self.next_table == 0
        &&& self.current_table@.len() == 0
        &&& self.query@ == Seq::<char>::empty()
        &&& self.params@.len() == 0
        &&& self.emitted@ == Seq::<Token>::empty()
    }

    /// The text is the text of the pieces emitted so far.
    spec fn wf(&self) -> bool {
        self.query@ == text_of(self.emitted@)
    }

    /// The alias of the table that the rendering is inside of.
    spec fn current(&self) -> nat {
        self.current_table@.last() as nat
    }

    /// From `pre` to `post` the pieces `tokens` were emitted, `tables`
    /// aliases were allocated and `values` were bound; the tables that the
    /// rendering is inside of are the same.
    spec fn advanced(
        pre: SqlVisitor<'v>,
        post: SqlVisitor<'v>,
        tokens: Seq<Token>,
        tables: nat,
        values: Seq<SqlValue<'v>>,
    ) -> bool {
        &&& post.wf()
        &&& post.joined_table == pre.joined_table
        &&& post.current_table@ == pre.current_table@
        &&& post.next_table == pre.next_table + tables
        &&& post.params@ == pre.params@ + values
        &&& post.emitted@ == pre.emitted@ + tokens
    }

    pub fn new() -> (r: Self)
        ensures
            r.is_fresh(),
            r.joined() is None,
    {
        Self {
            joined_table: None,
            next_table: 0,
            current_table: Vec::new(),
            query: String::new(),
            params: Vec::new(),
            emitted: Ghost(Seq::empty()),
        }
    }

    pub fn with_joined_table(joined_table: JoinedTable<'v>) -> (r: Self)
        ensures
            r.is_fresh(),
            r.joined() == Some(joined_table),
    {
        Self {
            joined_table: Some(joined_table),
            next_table: 0,
            current_table: Vec::new(),
            query: String::new(),
            params: Vec::new(),
            emitted: Ghost(Seq::empty()),
        }
    }

    /// Renders the statement that selects the columns `select`, or every
    /// column where none is named, from the rows of `filter`'s table that
    /// pass the filter. Returns its text and the values that it binds:
    /// placeholder `k` stands for the value at index `k - 1`.
    ///
    /// The tables are numbered from 0 in the order in which the text names
    /// them, so the filter may need no more aliases than a `u32` counts.
    pub fn translate(self, filter: &TableFilter<'v>, select: &[&str]) -> (out: (
        String,
        Vec<SqlValue<'v>>,
    ))
        requires
            self.is_fresh(),
            group_tables(filter.filters) < u32::MAX,
        ensures
            out.0@ == text_of(statement_tokens(self.joined(), *filter, select@)),
            out.1@ == statement_values(self.joined(), *filter),
    {
        let mut this = self;
        let ghost joined = this.joined_table;
        let current_table_id = this.push_new_table();
        assert(text_of(Seq::<Token>::empty()) =~= Seq::<char>::empty());
        assert(this.current_table@ =~= seq![0u32]);
        this.emit("SELECT ");
        this.write_selection(select);
        this.emit(" FROM ");
        this.write_from(filter.table_name());
        let ghost from = seq![lit("SELECT ")] + selection_tokens(select@) + seq![lit(" FROM ")]
            + from_tokens(joined, filter.table);
        assert(this.emitted@ =~= from);
        assert(this.params@ =~= Seq::<SqlValue<'v>>::empty());
        this.write_condition(filter.filter_group());
        proof {
            assert(this.emitted@ =~= statement_tokens(joined, *filter, select@));
            assert(this.params@ =~= statement_values(joined, *filter));
        }
        (this.query, this.params)
    }

    /// Renders what is selected, under the primary alias.
    fn write_selection(&mut self, select: &[&str])
        requires
            old(self).wf(),
        ensures
            Self::advanced(*old(self), *final(self), selection_tokens(select@), 0, Seq::empty()),
    {
        let ghost pre = *self;
        if select.len() == 0 {
            self.emit_alias(0);
            self.emit(".*");
            assert(self.emitted@ =~= pre.emitted@ + selection_tokens(select@));
        } else {
            let mut idx: usize = 0;
            assert(self.emitted@ =~= pre.emitted@ + select_tokens(select@, 0));
            while idx < select.len()
                invariant
                    0 <= idx <= select.len(),
                    self.wf(),
                    self.joined_table == pre.joined_table,
                    self.next_table == pre.next_table,
                    self.current_table@ == pre.current_table@,
                    self.params@ == pre.params@,
                    self.emitted@ == pre.emitted@ + select_tokens(select@, idx as nat),
                decreases select.len() - idx,
            {
                let ghost done = select_tokens(select@, idx as nat);
                if idx > 0 {
                    self.emit(", ");
                }
                self.emit_column(0, select[idx]);
                proof {
                    let sep = if idx > 0 {
                        seq![lit(", ")]
                    } else {
                        Seq::<Token>::empty()
                    };
                    assert(self.emitted@ =~= pre.emitted@ + (done + sep + seq![
                        Token::Alias(0),
                        lit("."),
                        Token::Text(select@[idx as int]@),
                    ]));
                    assert(self.params@ =~= pre.params@);
                }
                idx += 1;
            }
        }
        assert(self.params@ =~= pre.params@ + Seq::empty());
    }

    /// Renders the table under the primary alias, behind the junction
    /// table where the statement is entered through one.
    fn write_from(&mut self, table: &str)
        requires
            old(self).wf(),
        ensures
            Self::advanced(
                *old(self),
                *final(self),
                from_tokens(old(self).joined_table, table),
                0,
                Seq::empty(),
            ),
    {
        let ghost pre = *self;
        match self.joined_table {
            Some(j) => {
                self.emit(j.join_table);
                self.emit(" AS J INNER JOIN ");
                self.emit(table);
                self.emit(" AS ");
                self.emit_alias(0);
                self.emit(" ON J.");
                self.emit(j.join_table_join_col);
                self.emit(" = ");
                self.emit_column(0, j.data_table_join_col);
            },
            None => {
                self.emit(table);
                self.emit(" AS ");
                self.emit_alias(0);
            },
        }
        assert(self.emitted@ =~= pre.emitted@ + from_tokens(pre.joined_table, table));
        assert(self.params@ =~= pre.params@ + Seq::empty());
    }

    /// Renders the condition of the statement: the filter tree, then the
    /// binding of the junction table.
    fn write_condition(&mut self, g: &FilterGroup<'v>)
        requires
            old(self).wf(),
            old(self).current_table@ == seq![0u32],
            old(self).next_table == 1,
            old(self).params@.len() == 0,
            group_tables(*g) < u32::MAX,
        ensures
            final(self).wf(),
            final(self).emitted@ == old(self).emitted@ + where_tokens(old(self).joined_table, *g),
            final(self).params@ == group_values(*g) + (match old(self).joined_table {
                None => Seq::empty(),
                Some(j) => seq![j.join_table_filter_col_val],
            }),
    {
        let ghost pre = *self;
        let ghost joined = pre.joined_table;
        let has_filter = !g.is_empty();
        if has_filter || self.joined_table.is_some() {
            self.emit(" WHERE ");
        }
        let ghost opening = if has_filter || joined is Some {
            seq![lit(" WHERE ")]
        } else {
            Seq::<Token>::empty()
        };
        assert(self.emitted@ =~= pre.emitted@ + opening);
        assert(self.params@ =~= Seq::<SqlValue<'v>>::empty());
        let ghost tree = group_tokens(*g, 0, 1, 0);
        if has_filter {
            self.on_filter_group(g);
        } else {
            assert(tree =~= Seq::<Token>::empty()) by {
                assert(filters_tokens(g.combinator, g.filters@, 0, 0, 1, 0) =~= Seq::<
                    Token,
                >::empty());
                assert(filters_values(g.filters@, 0) =~= Seq::empty());
                assert(groups_tokens(g.combinator, g.groups@, 0, false, 0, 1, 0) =~= Seq::<
                    Token,
                >::empty());
            }
            assert(group_values(*g) =~= Seq::empty()) by {
                assert(filters_values(g.filters@, 0) =~= Seq::empty());
                assert(groups_values(g.groups@, 0) =~= Seq::empty());
            }
        }
        assert(self.emitted@ =~= pre.emitted@ + (opening + tree));
        assert(self.params@ =~= group_values(*g));
        let ghost mid = *self;
        match self.joined_table {
            Some(j) => {
                if has_filter {
                    self.emit(" AND ");
                }
                let ghost glue = if has_filter {
                    seq![lit(" AND ")]
                } else {
                    Seq::<Token>::empty()
                };
                assert(self.emitted@ =~= mid.emitted@ + glue);
                let ghost at_glue = *self;
                self.emit("J.");
                self.emit(j.join_table_filter_col);
                self.emit(" = ");
                self.emit_param(j.join_table_filter_col_val);
                proof {
                    let binding = binding_tokens(j, group_values(*g).len() + 1);
                    assert(self.emitted@ =~= at_glue.emitted@ + binding);
                    assert(self.emitted@ =~= pre.emitted@ + (opening + tree + (glue + binding)));
                    assert(self.params@ =~= group_values(*g) + seq![j.join_table_filter_col_val]);
                }
            },
            None => {
                assert(self.emitted@ =~= pre.emitted@ + (opening + tree + Seq::<Token>::empty()));
                assert(self.params@ =~= group_values(*g) + Seq::empty());
            },
        }
    }

    /// Whether `filter` needs no more table aliases than `translate` can
    /// number.
    pub fn can_translate(filter: &TableFilter<'v>) -> (ok: bool)
        ensures
            ok == (group_tables(filter.filters) < u32::MAX),
    {
        match count_group_tables(filter.filter_group(), u32::MAX - 1) {
            Some(_) => true,
            None => false,
        }
    }

    /// Emits `s` as it is.
    fn emit(&mut self, s: &str)
        requires
            old(self).wf(),
        ensures
            Self::advanced(*old(self), *final(self), seq![Token::Text(s@)], 0, Seq::empty()),
    {
        self.query.append(s);
        proof {
            let t = Token::Text(s@);
            assert(self.emitted@.push(t).drop_last() =~= self.emitted@);
            self.emitted@ = self.emitted@.push(t);
            assert(self.emitted@ =~= old(self).emitted@ + seq![t]);
            assert(self.params@ =~= old(self).params@ + Seq::empty());
        }
    }

    /// Emits the alias of table `id`.
    fn emit_alias(&mut self, id: u32)
        requires
            old(self).wf(),
        ensures
            Self::advanced(
                *old(self),
                *final(self),
                seq![Token::Alias(id as nat)],
                0,
                Seq::empty(),
            ),
    {
        self.query.append("T");
        push_decimal(&mut self.query, id as u64);
        proof {
            let t = Token::Alias(id as nat);
            assert(self.emitted@.push(t).drop_last() =~= self.emitted@);
            assert(self.query@ =~= old(self).query@ + t.text());
            self.emitted@ = self.emitted@.push(t);
            assert(self.emitted@ =~= old(self).emitted@ + seq![t]);
            assert(self.params@ =~= old(self).params@ + Seq::empty());
        }
    }

    /// Binds `p` and returns the number of its placeholder.
    fn add_param(&mut self, p: SqlValue<'v>) -> (k: usize)
        ensures
            final(self).params@ == old(self).params@.push(p),
            k == old(self).params@.len() + 1,
            final(self).joined_table == old(self).joined_table,
            final(self).next_table == old(self).next_table,
            final(self).current_table == old(self).current_table,
            final(self).query == old(self).query,
            final(self).emitted == old(self).emitted,
    {
        self.params.push(p);
        self.params.len()
    }

    /// Binds `p` and emits its placeholder.
    fn emit_param(&mut self, p: SqlValue<'v>)
        requires
            old(self).wf(),
        ensures
            Self::advanced(
                *old(self),
                *final(self),
                seq![Token::Param((old(self).params@.len() + 1) as nat)],
                0,
                seq![p],
            ),
    {
        let k = self.add_param(p);
        self.query.append("$");
        push_decimal(&mut self.query, k as u64);
        proof {
            let t = Token::Param(k as nat);
            assert(self.emitted@.push(t).drop_last() =~= self.emitted@);
            assert(self.query@ =~= old(self).query@ + t.text());
            self.emitted@ = self.emitted@.push(t);
            assert(self.emitted@ =~= old(self).emitted@ + seq![t]);
            assert(self.params@ =~= old(self).params@ + seq![p]);
        }
    }

    /// Emits `<alias>.<column>`.
    fn emit_column(&mut self, id: u32, column: &str)
        requires
            old(self).wf(),
        ensures
            Self::advanced(
                *old(self),
                *final(self),
                seq![Token::Alias(id as nat), lit("."), Token::Text(column@)],
                0,
                Seq::empty(),
            ),
    {
        self.emit_alias(id);
        self.emit(".");
        self.emit(column);
        proof {
            assert(self.emitted@ =~= old(self).emitted@ + seq![
                Token::Alias(id as nat),
                lit("."),
                Token::Text(column@),
            ]);
            assert(self.params@ =~= old(self).params@ + Seq::empty());
        }
    }

    /// Allocates the next alias and enters its table.
    fn push_new_table(&mut self) -> (id: u32)
        requires
            old(self).next_table < u32::MAX,
        ensures
            id == old(self).next_table,
            final(self).next_table == old(self).next_table + 1,
            final(self).current_table@ == old(self).current_table@.push(id),
            final(self).joined_table == old(self).joined_table,
            final(self).query == old(self).query,
            final(self).params == old(self).params,
            final(self).emitted == old(self).emitted,
    {
        self.current_table.push(self.next_table);
        self.next_table += 1;
        self.next_table - 1
    }

    /// Leaves the innermost table.
    fn pop_old_table(&mut self)
        requires
            old(self).current_table@.len() > 0,
        ensures
            final(self).current_table@ == old(self).current_table@.drop_last(),
            final(self).next_table == old(self).next_table,
            final(self).joined_table == old(self).joined_table,
            final(self).query == old(self).query,
            final(self).params == old(self).params,
            final(self).emitted == old(self).emitted,
    {
        self.current_table.pop();
    }

    /// The alias of the innermost table.
    fn current_table_id(&self) -> (id: u32)
        requires
            self.current_table@.len() > 0,
        ensures
            id == self.current(),
    {
        self.current_table[self.current_table.len() - 1]
    }

    /// Renders a comparison of a column of the innermost table.
    fn on_value_filter(&mut self, f: &ValueFilter<'v>)
        requires
            old(self).wf(),
            old(self).current_table@.len() > 0,
        ensures
            Self::advanced(
                *old(self),
                *final(self),
                value_filter_tokens(*f, old(self).current(), old(self).params@.len()),
                0,
                filter_values(FilterType::ValueFilter(*f)),
            ),
    {
        let current_table_id = self.current_table_id();
        self.emit_column(current_table_id, f.column());
        self.emit(" ");
        let val = f.value();
        match f.operation() {
            Operation::Eq => {
                self.emit("= ");
                self.emit_param(val);
            },
            Operation::Neq => {
                self.emit("<> ");
                self.emit_param(val);
            },
            Operation::Lt => {
                self.emit("< ");
                self.emit_param(val);
            },
            Operation::Gt => {
                self.emit("> ");
                self.emit_param(val);
            },
            Operation::Lte => {
                self.emit("<= ");
                self.emit_param(val);
            },
            Operation::Gte => {
                self.emit(">= ");
                self.emit_param(val);
            },
            Operation::In => {
                self.emit("= ANY (");
                self.emit_param(val);
                self.emit(")");
            },
            Operation::NotIn => {
                self.emit("<> ANY (");
                self.emit_param(val);
                self.emit(")");
            },
            Operation::IsNull => {
                self.emit("IS NULL");
            },
            Operation::IsNotNull => {
                self.emit("IS NOT NULL");
            },
            Operation::Contains => {
                self.emit("LIKE '%' || ");
                self.emit_param(val);
                self.emit(" || '%'");
            },
        }
        proof {
            assert(self.emitted@ =~= old(self).emitted@ + value_filter_tokens(
                *f,
                old(self).current(),
                old(self).params@.len(),
            ));
            assert(self.params@ =~= old(self).params@ + filter_values(
                FilterType::ValueFilter(*f),
            ));
        }
    }

    /// Two stretches of rendering, one after the other, are one stretch.
    proof fn lemma_advanced_chain(
        a: SqlVisitor<'v>,
        b: SqlVisitor<'v>,
        c: SqlVisitor<'v>,
        t1: Seq<Token>,
        n1: nat,
        v1: Seq<SqlValue<'v>>,
        t2: Seq<Token>,
        n2: nat,
        v2: Seq<SqlValue<'v>>,
    )
        requires
            Self::advanced(a, b, t1, n1, v1),
            Self::advanced(b, c, t2, n2, v2),
        ensures
            Self::advanced(a, c, t1 + t2, n1 + n2, v1 + v2),
    {
        assert(c.params@ =~= a.params@ + (v1 + v2));
        assert(c.emitted@ =~= a.emitted@ + (t1 + t2));
    }

    /// Renders one predicate.
    fn on_filter_type(&mut self, f: &FilterType<'v>)
        requires
            old(self).wf(),
            old(self).current_table@.len() > 0,
            old(self).next_table + filter_tables(*f) <= u32::MAX,
        ensures
            Self::advanced(
                *old(self),
                *final(self),
                filter_tokens(
                    *f,
                    old(self).current(),
                    old(self).next_table as nat,
                    old(self).params@.len(),
                ),
                filter_tables(*f),
                filter_values(*f),
            ),
        decreases f, 0nat,
    {
        match f {
            FilterType::ValueFilter(x) => self.on_value_filter(x),
            FilterType::JoinColumnFilter(x) => self.on_join_column_filter(x),
            FilterType::JoinTableFilter(x) => self.on_join_table_filter(x),
        }
    }

    /// Renders the root group of a table's filter.
    fn on_table_filter(&mut self, f: &TableFilter<'v>)
        requires
            old(self).wf(),
            old(self).current_table@.len() > 0,
            old(self).next_table + group_tables(f.filters) <= u32::MAX,
        ensures
            Self::advanced(
                *old(self),
                *final(self),
                group_tokens(
                    f.filters,
                    old(self).current(),
                    old(self).next_table as nat,
                    old(self).params@.len(),
                ),
                group_tables(f.filters),
                group_values(f.filters),
            ),
        decreases f, 0nat,
    {
        self.on_filter_group(f.filter_group());
    }

    /// Renders a join over a column as a subquery under a new alias,
    /// inside of which the nested filter is rendered.
    fn on_join_column_filter(&mut self, f: &JoinColumnFilter<'v>)
        requires
            old(self).wf(),
            old(self).current_table@.len() > 0,
            old(self).next_table + filter_tables(FilterType::JoinColumnFilter(*f)) <= u32::MAX,
        ensures
            Self::advanced(
                *old(self),
                *final(self),
                filter_tokens(
                    FilterType::JoinColumnFilter(*f),
                    old(self).current(),
                    old(self).next_table as nat,
                    old(self).params@.len(),
                ),
                filter_tables(FilterType::JoinColumnFilter(*f)),
                filter_values(FilterType::JoinColumnFilter(*f)),
            ),
        decreases f, 0nat,
    {
        let ghost pre = *self;
        let parent_table_id = self.current_table_id();
        let child_table_id = self.push_new_table();
        self.emit("EXISTS(SELECT TRUE FROM ");
        self.emit(f.filter().table_name());
        self.emit(" AS ");
        self.emit_alias(child_table_id);
        self.emit(" WHERE ");
        self.emit_column(child_table_id, f.child_column());
        self.emit(" = ");
        self.emit_column(parent_table_id, f.parent_column());
        let ghost head = join_column_head(*f, pre.current(), pre.next_table as nat);
        assert(self.emitted@ =~= pre.emitted@ + head);
        assert(self.params@ =~= pre.params@);
        if !f.filter().filter_group().is_empty() {
            self.emit(" AND ");
            self.on_table_filter(f.filter());
            assert(self.emitted@ =~= pre.emitted@ + (head + (seq![lit(" AND ")] + group_tokens(
                f.filter.filters,
                pre.next_table as nat,
                pre.next_table as nat + 1,
                pre.params@.len(),
            ))));
        } else {
            assert(self.emitted@ =~= pre.emitted@ + (head + Seq::empty()));
            assert(group_values(f.filter.filters) =~= Seq::empty()) by {
                assert(filters_values(f.filter.filters.filters@, 0) =~= Seq::empty());
                assert(groups_values(f.filter.filters.groups@, 0) =~= Seq::empty());
            }
            assert(group_tables(f.filter.filters) == 0);
        }
        self.emit(")");
        self.pop_old_table();
        proof {
            assert(self.current_table@ =~= pre.current_table@);
            assert(self.emitted@ =~= pre.emitted@ + filter_tokens(
                FilterType::JoinColumnFilter(*f),
                pre.current(),
                pre.next_table as nat,
                pre.params@.len(),
            ));
            assert(self.params@ =~= pre.params@ + filter_values(
                FilterType::JoinColumnFilter(*f),
            ));
        }
    }

    /// Renders a join over a junction table as a subquery that joins the
    /// junction table, under a new alias, to the child table, under the
    /// alias after it, inside of which the nested filter is rendered.
    fn on_join_table_filter(&mut self, f: &JoinTableFilter<'v>)
        requires
            old(self).wf(),
            old(self).current_table@.len() > 0,
            old(self).next_table + filter_tables(FilterType::JoinTableFilter(*f)) <= u32::MAX,
        ensures
            Self::advanced(
                *old(self),
                *final(self),
                filter_tokens(
                    FilterType::JoinTableFilter(*f),
                    old(self).current(),
                    old(self).next_table as nat,
                    old(self).params@.len(),
                ),
                filter_tables(FilterType::JoinTableFilter(*f)),
                filter_values(FilterType::JoinTableFilter(*f)),
            ),
        decreases f, 0nat,
    {
        let ghost pre = *self;
        let parent_table_id = self.current_table_id();
        let join_table_id = self.push_new_table();
        let child_table_id = self.push_new_table();
        self.emit("EXISTS(SELECT TRUE FROM ");
        self.emit(f.join_table());
        self.emit(" AS ");
        self.emit_alias(join_table_id);
        self.emit(" INNER JOIN ");
        self.emit(f.filter().table_name());
        self.emit(" AS ");
        self.emit_alias(child_table_id);
        self.emit(" ON ");
        self.emit_column(child_table_id, f.child_table_join_col());
        self.emit(" = ");
        self.emit_column(join_table_id, f.join_table_child_col());
        let ghost from = join_table_from(*f, pre.next_table as nat);
        assert(self.emitted@ =~= pre.emitted@ + from);
        self.emit(" WHERE ");
        self.emit_column(join_table_id, f.join_table_parent_col());
        self.emit(" = ");
        self.emit_column(parent_table_id, f.parent_table_join_col());
        let ghost head = from + join_table_where(*f, pre.current(), pre.next_table as nat);
        assert(self.emitted@ =~= pre.emitted@ + head);
        assert(self.params@ =~= pre.params@);
        if !f.filter().filter_group().is_empty() {
            self.emit(" AND ");
            self.on_table_filter(f.filter());
            assert(self.emitted@ =~= pre.emitted@ + (head + (seq![lit(" AND ")] + group_tokens(
                f.child_table_filter.filters,
                pre.next_table as nat + 1,
                pre.next_table as nat + 2,
                pre.params@.len(),
            ))));
        } else {
            assert(self.emitted@ =~= pre.emitted@ + (head + Seq::empty()));
            assert(group_values(f.child_table_filter.filters) =~= Seq::empty()) by {
                assert(filters_values(f.child_table_filter.filters.filters@, 0) =~= Seq::empty());
                assert(groups_values(f.child_table_filter.filters.groups@, 0) =~= Seq::empty());
            }
            assert(group_tables(f.child_table_filter.filters) == 0);
        }
        self.emit(")");
        self.pop_old_table();
        self.pop_old_table();
        proof {
            assert(self.current_table@ =~= pre.current_table@);
            assert(self.emitted@ =~= pre.emitted@ + filter_tokens(
                FilterType::JoinTableFilter(*f),
                pre.current(),
                pre.next_table as nat,
                pre.params@.len(),
            ));
            assert(self.params@ =~= pre.params@ + filter_values(
                FilterType::JoinTableFilter(*f),
            ));
        }
    }

    /// Renders a group: its filters, then its nested groups, the
    /// connective between each two, in brackets where there is more than
    /// one of them.
    fn on_filter_group(&mut self, f: &FilterGroup<'v>)
        requires
            old(self).wf(),
            old(self).current_table@.len() > 0,
            old(self).next_table + group_tables(*f) <= u32::MAX,
        ensures
            Self::advanced(
                *old(self),
                *final(self),
                group_tokens(
                    *f,
                    old(self).current(),
                    old(self).next_table as nat,
                    old(self).params@.len(),
                ),
                group_tables(*f),
                group_values(*f),
            ),
        decreases f, 1nat,
    {
        let ghost pre = *self;
        let ghost current = pre.current();
        let ghost next = pre.next_table as nat;
        let ghost bound = pre.params@.len();
        let filters = f.filters();
        let groups = f.groups();
        let nf = filters.len();
        let ng = groups.len();
        let write_brackets = nf > 1 || ng > 1 || (nf == 1 && ng == 1);
        if write_brackets {
            self.emit("(");
        }
        let ghost open = bracket(f.child_count(), "(");
        assert(self.emitted@ =~= pre.emitted@ + open);
        assert(self.params@ =~= pre.params@ + filters_values(f.filters@, 0));
        let mut i: usize = 0;
        while i < nf
            invariant
                0 <= i <= nf,
                nf == f.filters@.len(),
                filters@ == f.filters@,
                pre.current_table@.len() > 0,
                current == pre.current(),
                next == pre.next_table,
                bound == pre.params@.len(),
                pre.next_table + group_tables(*f) <= u32::MAX,
                Self::advanced(
                    pre,
                    *self,
                    open + filters_tokens(f.combinator, f.filters@, i as nat, current, next, bound),
                    filters_tables(f.filters@, i as nat),
                    filters_values(f.filters@, i as nat),
                ),
            decreases nf - i,
        {
            let ghost before = *self;
            let ghost done = filters_tokens(f.combinator, f.filters@, i as nat, current, next, bound);
            if i > 0 {
                self.emit(f.combinator().separator_str());
            }
            let ghost sep = if i > 0 {
                seq![Token::Text(f.combinator.separator())]
            } else {
                Seq::<Token>::empty()
            };
            proof {
                lemma_filters_tables_monotone(f.filters@, (i + 1) as nat, nf as nat);
                assert(self.emitted@ =~= pre.emitted@ + (open + done + sep));
                assert(self.params@ =~= before.params@);
            }
            self.on_filter_type(&filters[i]);
            proof {
                let one = filter_tokens(
                    f.filters@[i as int],
                    current,
                    next + filters_tables(f.filters@, i as nat),
                    bound + filters_values(f.filters@, i as nat).len(),
                );
                assert(self.emitted@ =~= pre.emitted@ + (open + (done + sep + one)));
                assert(self.params@ =~= pre.params@ + (filters_values(f.filters@, i as nat)
                    + filter_values(f.filters@[i as int])));
            }
            i += 1;
        }
        let ghost all_filters = open + filters_tokens(
            f.combinator,
            f.filters@,
            nf as nat,
            current,
            next,
            bound,
        );
        let ghost next_g = next + filters_tables(f.filters@, nf as nat);
        let ghost bound_g = bound + filters_values(f.filters@, nf as nat).len();
        assert(self.emitted@ =~= pre.emitted@ + (all_filters + groups_tokens(
            f.combinator,
            f.groups@,
            0,
            nf > 0,
            current,
            next_g,
            bound_g,
        )));
        assert(self.params@ =~= pre.params@ + (filters_values(f.filters@, nf as nat)
            + groups_values(f.groups@, 0)));
        let mut k: usize = 0;
        while k < ng
            invariant
                0 <= k <= ng,
                ng == f.groups@.len(),
                nf == f.filters@.len(),
                groups@ == f.groups@,
                pre.current_table@.len() > 0,
                current == pre.current(),
                next == pre.next_table,
                bound == pre.params@.len(),
                next_g == next + filters_tables(f.filters@, nf as nat),
                bound_g == bound + filters_values(f.filters@, nf as nat).len(),
                pre.next_table + group_tables(*f) <= u32::MAX,
                Self::advanced(
                    pre,
                    *self,
                    all_filters + groups_tokens(
                        f.combinator,
                        f.groups@,
                        k as nat,
                        nf > 0,
                        current,
                        next_g,
                        bound_g,
                    ),
                    filters_tables(f.filters@, nf as nat) + groups_tables(f.groups@, k as nat),
                    filters_values(f.filters@, nf as nat) + groups_values(f.groups@, k as nat),
                ),
            decreases ng - k,
        {
            let ghost before = *self;
            let ghost done = groups_tokens(
                f.combinator,
                f.groups@,
                k as nat,
                nf > 0,
                current,
                next_g,
                bound_g,
            );
            if k > 0 || nf > 0 {
                self.emit(f.combinator().separator_str());
            }
            let ghost sep = if k > 0 || nf > 0 {
                seq![Token::Text(f.combinator.separator())]
            } else {
                Seq::<Token>::empty()
            };
            proof {
                lemma_groups_tables_monotone(f.groups@, (k + 1) as nat, ng as nat);
                assert(self.emitted@ =~= pre.emitted@ + (all_filters + done + sep));
                assert(self.params@ =~= before.params@);
            }
            self.on_filter_group(&groups[k]);
            proof {
                let one = group_tokens(
                    f.groups@[k as int],
                    current,
                    next_g + groups_tables(f.groups@, k as nat),
                    bound_g + groups_values(f.groups@, k as nat).len(),
                );
                assert(self.emitted@ =~= pre.emitted@ + (all_filters + (done + sep + one)));
                assert(self.params@ =~= pre.params@ + (filters_values(f.filters@, nf as nat) + (
                groups_values(f.groups@, k as nat) + group_values(f.groups@[k as int]))));
            }
            k += 1;
        }
        if write_brackets {
            self.emit(")");
        }
        proof {
            assert(self.emitted@ =~= pre.emitted@ + group_tokens(*f, current, next, bound));
            assert(self.params@ =~= pre.params@ + group_values(*f));
        }
    }
}

impl<'v> Default for SqlVisitor<'v> {
    fn default() -> (r: Self)
        ensures
            r.is_fresh(),
            r.joined() is None,
    {
        SqlVisitor::new()
    }
}

/// Renders the statement that selects the columns `select`, or every
/// column where none is named, from the rows of `filter`'s table that pass
/// the filter, entered through `joined` where there is one. Returns its
/// text and the values that it binds, or nothing where the filter needs
/// more table aliases than a `u32` counts.
pub fn compile<'f>(
    filter: &TableFilter<'f>,
    select: &[&str],
    joined: Option<JoinedTable<'f>>,
) -> (r: Option<(String, Vec<SqlValue<'f>>)>)
    ensures
        match r {
            Some(out) => {
                &&& group_tables(filter.filters) < u32::MAX
                &&& out.0@ == text_of(statement_tokens(joined, *filter, select@))
                &&& out.1@ == statement_values(joined, *filter)
            },
            None => group_tables(filter.filters) >= u32::MAX,
        },
{
    if !SqlVisitor::can_translate(filter) {
        return None;
    }
    let visitor = match joined {
        None => SqlVisitor::new(),
        Some(j) => SqlVisitor::with_joined_table(j),
    };
    Some(visitor.translate(filter, select))
}

/// The number of aliases that `f` allocates, where it is at most `limit`.
fn count_filter_tables(f: &FilterType, limit: u32) -> (r: Option<u32>)
    ensures
        match r {
            Some(n) => n == filter_tables(*f) && n <= limit,
            None => filter_tables(*f) > limit,
        },
    decreases f, 0nat,
{
    match f {
        FilterType::ValueFilter(_) => Some(0),
        FilterType::JoinColumnFilter(j) => {
            if limit < 1 {
                None
            } else {
                match count_group_tables(j.filter().filter_group(), limit - 1) {
                    Some(n) => Some(n + 1),
                    None => None,
                }
            }
        },
        FilterType::JoinTableFilter(j) => {
            if limit < 2 {
                None
            } else {
                match count_group_tables(j.filter().filter_group(), limit - 2) {
                    Some(n) => Some(n + 2),
                    None => None,
                }
            }
        },
    }
}

/// The number of aliases that `g` allocates, where it is at most `limit`.
fn count_group_tables(g: &FilterGroup, limit: u32) -> (r: Option<u32>)
    ensures
        match r {
            Some(n) => n == group_tables(*g) && n <= limit,
            None => group_tables(*g) > limit,
        },
    decreases g, 1nat,
{
    let filters = g.filters();
    let groups = g.groups();
    let mut total: u32 = 0;
    let mut i: usize = 0;
    while i < filters.len()
        invariant
            0 <= i <= filters.len(),
            filters@ == g.filters@,
            total == filters_tables(g.filters@, i as nat),
            total <= limit,
        decreases filters.len() - i,
    {
        proof {
            lemma_filters_tables_monotone(g.filters@, (i + 1) as nat, g.filters@.len());
        }
        match count_filter_tables(&filters[i], limit - total) {
            Some(n) => {
                total = total + n;
            },
            None => {
                return None;
            },
        }
        i += 1;
    }
    let mut k: usize = 0;
    while k < groups.len()
        invariant
            0 <= k <= groups.len(),
            groups@ == g.groups@,
            filters@ == g.filters@,
            total == filters_tables(g.filters@, g.filters@.len()) + groups_tables(
                g.groups@,
                k as nat,
            ),
            total <= limit,
        decreases groups.len() - k,
    {
        proof {
            lemma_groups_tables_monotone(g.groups@, (k + 1) as nat, g.groups@.len());
        }
        match count_group_tables(&groups[k], limit - total) {
            Some(n) => {
                total = total + n;
            },
            None => {
                return None;
            },
        }
        k += 1;
    }
    Some(total)
}

/// The aliases that the first `n` of `filters` allocate are among those
/// that the first `m` allocate, for `n` up to `m`.
pub proof fn lemma_filters_tables_monotone(filters: Seq<FilterType>, n: nat, m: nat)
    requires
        n <= m <= filters.len(),
    ensures
        filters_tables(filters, n) <= filters_tables(filters, m),
    decreases m,
{
    if n < m {
        lemma_filters_tables_monotone(filters, n, (m - 1) as nat);
    }
}

/// The aliases that the first `n` of `groups` allocate are among those
/// that the first `m` allocate, for `n` up to `m`.
pub proof fn lemma_groups_tables_monotone(groups: Seq<FilterGroup>, n: nat, m: nat)
    requires
        n <= m <= groups.len(),
    ensures
        groups_tables(groups, n) <= groups_tables(groups, m),
    decreases m,
{
    if n < m {
        lemma_groups_tables_monotone(groups, n, (m - 1) as nat);
    }
}

} // verus!
