use std::collections::HashMap;
use vstd::prelude::*;
use vstd::std_specs::hash::group_hash_axioms;

verus! {

broadcast use group_hash_axioms;

/// Whether `a` and `b` hold the same characters: the equality of string
/// slices of the standard library, which compares them character by
/// character.
#[verifier::external_body]
pub(crate) fn same_text(a: &str, b: &str) -> (r: bool)
    ensures
        r == (a@ == b@),
{
    a.eq(b)
}

/// `a` and `b` are the same character, or the same letter of the ASCII
/// alphabet in upper and in lower case.
pub open spec fn same_letter(a: char, b: char) -> bool {
    ||| a == b
    ||| ('A' <= a && a <= 'Z' && (b as int) == (a as int) + 32)
    ||| ('A' <= b && b <= 'Z' && (a as int) == (b as int) + 32)
}

/// `a` and `b` hold the same characters but for the case of the letters of
/// the ASCII alphabet.
pub open spec fn same_but_for_case(a: Seq<char>, b: Seq<char>) -> bool {
    &&& a.len() == b.len()
    &&& forall|i: int| 0 <= i < a.len() ==> same_letter(#[trigger] a[i], b[i])
}

/// Whether `a` and `b` hold the same characters but for the case of the
/// letters of the ASCII alphabet: `str::eq_ignore_ascii_case` of the
/// standard library, which compares the two after it has put the ASCII
/// letters of both into lower case.
#[verifier::external_body]
pub(crate) fn same_text_but_for_case(a: &str, b: &str) -> (r: bool)
    ensures
        r == same_but_for_case(a@, b@),
{
    a.eq_ignore_ascii_case(b)
}

/// Why a row could not be decoded.
#[derive(Debug, Clone, Copy, PartialEq, Eq, Structural)]
pub enum DecodeError {
    /// The row has no column of the name that was asked for.
    ColumnNotFound,
    /// The column holds a value of another type than the one asked for.
    WrongType,
    /// The column holds no value, and one was asked for.
    UnexpectedNull,
}

/// The value of one column of a result row.
#[derive(Debug, Clone, PartialEq)]
pub enum Cell {
    Null,
    Bool(bool),
    SmallInt(i16),
    Int(i32),
    BigInt(i64),
    Text(String),
    /// A value of a type that no record reads.
    Other,
}

impl Cell {
    /// The cell read as a 32-bit integer.
    pub open spec fn int_spec(self) -> Result<i32, DecodeError> {
        match self {
            Cell::Int(v) => Ok(v),
            Cell::Null => Err(DecodeError::UnexpectedNull),
            _ => Err(DecodeError::WrongType),
        }
    }

    /// The cell read as a 32-bit integer that may be missing.
    pub open spec fn opt_int_spec(self) -> Result<Option<i32>, DecodeError> {
        match self {
            Cell::Int(v) => Ok(Some(v)),
            Cell::Null => Ok(None),
            _ => Err(DecodeError::WrongType),
        }
    }

    /// The cell read as a 16-bit integer.
    pub open spec fn small_int_spec(self) -> Result<i16, DecodeError> {
        match self {
            Cell::SmallInt(v) => Ok(v),
            Cell::Null => Err(DecodeError::UnexpectedNull),
            _ => Err(DecodeError::WrongType),
        }
    }

    /// The cell read as text.
    pub open spec fn text_spec(self) -> Result<Seq<char>, DecodeError> {
        match self {
            Cell::Text(s) => Ok(s@),
            Cell::Null => Err(DecodeError::UnexpectedNull),
            _ => Err(DecodeError::WrongType),
        }
    }

    pub fn as_int(&self) -> (r: Result<i32, DecodeError>)
        ensures
            r == self.int_spec(),
    {
        match self {
            Cell::Int(v) => Ok(*v),
            Cell::Null => Err(DecodeError::UnexpectedNull),
            _ => Err(DecodeError::WrongType),
        }
    }

    pub fn as_opt_int(&self) -> (r: Result<Option<i32>, DecodeError>)
        ensures
            r == self.opt_int_spec(),
    {
        match self {
            Cell::Int(v) => Ok(Some(*v)),
            Cell::Null => Ok(None),
            _ => Err(DecodeError::WrongType),
        }
    }

    pub fn as_small_int(&self) -> (r: Result<i16, DecodeError>)
        ensures
            r == self.small_int_spec(),
    {
        match self {
            Cell::SmallInt(v) => Ok(*v),
            Cell::Null => Err(DecodeError::UnexpectedNull),
            _ => Err(DecodeError::WrongType),
        }
    }

    pub fn as_text(&self) -> (r: Result<String, DecodeError>)
        ensures
            match r {
                Ok(s) => self.text_spec() == Ok::<Seq<char>, DecodeError>(s@),
                Err(e) => self.text_spec() == Err::<Seq<char>, DecodeError>(e),
            },
    {
        match self {
            Cell::Text(s) => Ok(s.clone()),
            Cell::Null => Err(DecodeError::UnexpectedNull),
            _ => Err(DecodeError::WrongType),
        }
    }
}

/// One column of a result row: its name and its value.
#[derive(Debug, Clone, PartialEq)]
pub struct Column {
    pub name: String,
    pub value: Cell,
}

impl Column {
    pub fn new(name: String, value: Cell) -> (r: Self)
        ensures
            r.name == name,
            r.value == value,
    {
        Self { name, value }
    }

    pub fn name(&self) -> (r: &str)
        ensures
            r@ == self.name@,
    {
        self.name.as_str()
    }
}

/// The index of the first of `columns`, from `start` on, that is named
/// `name`.
pub open spec fn find_from(columns: Seq<Column>, name: Seq<char>, start: nat) -> Option<int>
    decreases columns.len() - start,
{
    if start >= columns.len() {
        None
    } else if columns[start as int].name@ == name {
        Some(start as int)
    } else {
        find_from(columns, name, start + 1)
    }
}

/// The index of the first of `columns`, from `start` on, whose name is
/// `name` but for the case of its letters.
pub open spec fn find_like_from(columns: Seq<Column>, name: Seq<char>, start: nat) -> Option<int>
    decreases columns.len() - start,
{
    if start >= columns.len() {
        None
    } else if same_but_for_case(columns[start as int].name@, name) {
        Some(start as int)
    } else {
        find_like_from(columns, name, start + 1)
    }
}

/// The index of the column that the name `name` stands for: the first
/// that is named `name`, or else the first that is named so but for the
/// case of its letters.
pub open spec fn find_column(columns: Seq<Column>, name: Seq<char>) -> Option<int> {
    match find_from(columns, name, 0) {
        Some(i) => Some(i),
        None => find_like_from(columns, name, 0),
    }
}

/// A result row: the columns that the statement returned, in its order.
#[derive(Debug, Clone, PartialEq)]
pub struct Row {
    pub columns: Vec<Column>,
}

impl Row {
    /// The value of the column that the name `name` stands for.
    pub open spec fn cell(&self, name: Seq<char>) -> Option<Cell> {
        match find_column(self.columns@, name) {
            Some(i) => Some(self.columns@[i].value),
            None => None,
        }
    }

    /// The column `name` read as a 32-bit integer.
    pub open spec fn int_at(&self, name: Seq<char>) -> Result<i32, DecodeError> {
        match self.cell(name) {
            Some(c) => c.int_spec(),
            None => Err(DecodeError::ColumnNotFound),
        }
    }

    /// The column `name` read as a 32-bit integer that may be missing.
    pub open spec fn opt_int_at(&self, name: Seq<char>) -> Result<Option<i32>, DecodeError> {
        match self.cell(name) {
            Some(c) => c.opt_int_spec(),
            None => Err(DecodeError::ColumnNotFound),
        }
    }

    /// The column `name` read as a 16-bit integer.
    pub open spec fn small_int_at(&self, name: Seq<char>) -> Result<i16, DecodeError> {
        match self.cell(name) {
            Some(c) => c.small_int_spec(),
            None => Err(DecodeError::ColumnNotFound),
        }
    }

    /// The column `name` read as text.
    pub open spec fn text_at(&self, name: Seq<char>) -> Result<Seq<char>, DecodeError> {
        match self.cell(name) {
            Some(c) => c.text_spec(),
            None => Err(DecodeError::ColumnNotFound),
        }
    }

    pub fn new(columns: Vec<Column>) -> (r: Self)
        ensures
            r.columns == columns,
    {
        Self { columns }
    }

    pub fn columns(&self) -> (r: &[Column])
        ensures
            r@ == self.columns@,
    {
        self.columns.as_slice()
    }

    /// The value of the column that the name `name` stands for: the first
    /// that is named `name`, or else the first that is named so but for
    /// the case of its letters.
    pub fn get(&self, name: &str) -> (r: Option<&Cell>)
        ensures
            match r {
                Some(c) => self.cell(name@) == Some(*c),
                None => self.cell(name@) is None,
            },
    {
        let mut i: usize = 0;
        while i < self.columns.len()
            invariant
                0 <= i <= self.columns@.len(),
                find_from(self.columns@, name@, 0) == find_from(self.columns@, name@, i as nat),
            decreases self.columns@.len() - i,
        {
            if same_text(self.columns[i].name(), name) {
                return Some(&self.columns[i].value);
            }
            i += 1;
        }
        let mut k: usize = 0;
        while k < self.columns.len()
            invariant
                0 <= k <= self.columns@.len(),
                find_from(self.columns@, name@, 0) is None,
                find_like_from(self.columns@, name@, 0) == find_like_from(
                    self.columns@,
                    name@,
                    k as nat,
                ),
            decreases self.columns@.len() - k,
        {
            if same_text_but_for_case(self.columns[k].name(), name) {
                return Some(&self.columns[k].value);
            }
            k += 1;
        }
        None
    }

    pub fn try_get_int(&self, name: &str) -> (r: Result<i32, DecodeError>)
        ensures
            r == self.int_at(name@),
    {
        match self.get(name) {
            Some(c) => c.as_int(),
            None => Err(DecodeError::ColumnNotFound),
        }
    }

    pub fn try_get_opt_int(&self, name: &str) -> (r: Result<Option<i32>, DecodeError>)
        ensures
            r == self.opt_int_at(name@),
    {
        match self.get(name) {
            Some(c) => c.as_opt_int(),
            None => Err(DecodeError::ColumnNotFound),
        }
    }

    pub fn try_get_small_int(&self, name: &str) -> (r: Result<i16, DecodeError>)
        ensures
            r == self.small_int_at(name@),
    {
        match self.get(name) {
            Some(c) => c.as_small_int(),
            None => Err(DecodeError::ColumnNotFound),
        }
    }

    pub fn try_get_text(&self, name: &str) -> (r: Result<String, DecodeError>)
        ensures
            match r {
                Ok(s) => self.text_at(name@) == Ok::<Seq<char>, DecodeError>(s@),
                Err(e) => self.text_at(name@) == Err::<Seq<char>, DecodeError>(e),
            },
    {
        match self.get(name) {
            Some(c) => c.as_text(),
            None => Err(DecodeError::ColumnNotFound),
        }
    }
}

/// A record that is decoded from a result row.
pub trait FromRow: Sized + View {
    /// What `row` decodes to.
    spec fn decoded(row: &Row) -> Result<Self::V, DecodeError>;

    /// Whether the record reads a column named `column`. A column that it
    /// does not read is skipped when a row is decoded.
    spec fn reads(column: Seq<char>) -> bool;

    fn reads_column(column: &str) -> (r: bool)
        ensures
            r == Self::reads(column@),
    ;

    fn from_row(row: &Row) -> (r: Result<Self, DecodeError>)
        ensures
            match r {
                Ok(v) => Self::decoded(row) == Ok::<Self::V, DecodeError>(v@),
                Err(e) => Self::decoded(row) == Err::<Self::V, DecodeError>(e),
            },
    ;
}

/// The column that holds the value of a row of bare values.
pub const KEY_VALUE: &'static str = "__value";

/// The column that says to which key a row of a grouped result belongs.
pub const KEY_BULK_LOAD: &'static str = "__loader_key";

impl FromRow for i32 {
    open spec fn decoded(row: &Row) -> Result<i32, DecodeError> {
        row.int_at(KEY_VALUE@)
    }

    /// A bare value is read from its column by name; it skips none.
    open spec fn reads(column: Seq<char>) -> bool {
        true
    }

    fn reads_column(column: &str) -> (r: bool) {
        true
    }

    fn from_row(row: &Row) -> (r: Result<Self, DecodeError>) {
        row.try_get_int(KEY_VALUE)
    }
}

/// The names of those of the first `n` columns of `row` that a record of
/// type `T` does not read, in the order of the columns.
pub open spec fn skipped_first<T: FromRow>(row: &Row, n: nat) -> Seq<Seq<char>>
    decreases n,
{
    if n == 0 || n > row.columns@.len() {
        Seq::empty()
    } else if T::reads(row.columns@[n - 1].name@) {
        skipped_first::<T>(row, (n - 1) as nat)
    } else {
        skipped_first::<T>(row, (n - 1) as nat).push(row.columns@[n - 1].name@)
    }
}

/// The names of each of `names`.
pub open spec fn names_of(names: Seq<&str>) -> Seq<Seq<char>> {
    Seq::new(names.len(), |i: int| names[i]@)
}

/// The names of the columns of `row` that decoding a record of type `T`
/// skips, in the order of the columns. Such a column is no error: what a
/// statement returns may be more than a record reads.
pub fn skipped_columns<'a, T: FromRow>(row: &'a Row) -> (names: Vec<&'a str>)
    ensures
        names_of(names@) == skipped_first::<T>(row, row.columns@.len()),
{
    let mut names: Vec<&'a str> = Vec::new();
    let mut i: usize = 0;
    assert(names_of(names@) =~= skipped_first::<T>(row, 0));
    while i < row.columns.len()
        invariant
            0 <= i <= row.columns@.len(),
            names_of(names@) == skipped_first::<T>(row, i as nat),
        decreases row.columns@.len() - i,
    {
        let ghost before = names@;
        let name = row.columns[i].name();
        if !T::reads_column(name) {
            names.push(name);
            assert(names_of(names@) =~= names_of(before).push(name@));
        }
        i += 1;
    }
    names
}

/// A record that has an identity.
pub trait WithId<ID> {
    /// The identity of the record.
    spec fn spec_id(&self) -> ID;

    fn id(&self) -> (r: &ID)
        ensures
            *r == self.spec_id(),
    ;
}

/// `records` are what `rows` decode to, row by row.
pub open spec fn decodes_to<T: FromRow>(rows: Seq<Row>, records: Seq<T>) -> bool {
    &&& records.len() == rows.len()
    &&& forall|i: int|
        0 <= i < rows.len() ==> T::decoded(&rows[i]) == Ok::<T::V, DecodeError>(
            (#[trigger] records[i])@,
        )
}

/// The row at `i` is the first of `rows` that fails to decode, and fails
/// with `e`.
pub open spec fn fails_first_at<T: FromRow>(rows: Seq<Row>, i: int, e: DecodeError) -> bool {
    &&& 0 <= i < rows.len()
    &&& T::decoded(&rows[i]) == Err::<T::V, DecodeError>(e)
    &&& forall|j: int| 0 <= j < i ==> (#[trigger] T::decoded(&rows[j])) is Ok
}

/// Decodes `rows` in their order. The first row that fails to decode fails
/// the whole load, with its error.
pub fn load<T: FromRow>(rows: &[Row]) -> (r: Result<Vec<T>, DecodeError>)
    ensures
        match r {
            Ok(records) => decodes_to(rows@, records@),
            Err(e) => exists|i: int| fails_first_at::<T>(rows@, i, e),
        },
{
    let mut result: Vec<T> = Vec::new();
    let mut i: usize = 0;
    while i < rows.len()
        invariant
            0 <= i <= rows@.len(),
            result@.len() == i,
            forall|j: int|
                0 <= j < i ==> T::decoded(&rows@[j]) == Ok::<T::V, DecodeError>(
                    (#[trigger] result@[j])@,
                ),
        decreases rows@.len() - i,
    {
        match T::from_row(&rows[i]) {
            Ok(value) => {
                result.push(value);
            },
            Err(e) => {
                assert(fails_first_at::<T>(rows@, i as int, e)) by {
                    assert forall|j: int| 0 <= j < i implies (#[trigger] T::decoded(
                        &rows@[j],
                    )) is Ok by {
                        assert(T::decoded(&rows@[j]) == Ok::<T::V, DecodeError>(result@[j]@));
                    }
                }
                return Err(e);
            },
        }
        i += 1;
    }
    Ok(result)
}

/// The records by their identity: of two with one identity, the later.
pub open spec fn indexed<T: WithId<i32>>(records: Seq<T>) -> Map<i32, T>
    decreases records.len(),
{
    if records.len() == 0 {
        Map::empty()
    } else {
        indexed(records.drop_last()).insert(records.last().spec_id(), records.last())
    }
}

/// Indexes `records` by their identity. Of two records with one identity
/// the later replaces the earlier.
pub fn index_by_id<T: WithId<i32>>(records: Vec<T>) -> (m: HashMap<i32, T>)
    ensures
        m@ == indexed(records@),
{
    let mut result: HashMap<i32, T> = HashMap::new();
    for record in it: records
        invariant
            it.seq() == records@,
            result@ == indexed(records@.take(it.index())),
    {
        let key = *record.id();
        proof {
            let before = records@.take(it.index());
            let after = records@.take(it.index() + 1);
            assert(after.drop_last() =~= before);
            assert(after.last() == record);
        }
        result.insert(key, record);
    }
    assert(records@.take(records@.len() as int) =~= records@);
    result
}

/// Decodes `rows` and indexes the records by their identity. A key of
/// which no row tells is not in the map.
pub fn load_one_by_key<T: WithId<i32> + FromRow>(rows: &[Row]) -> (r: Result<
    HashMap<i32, T>,
    DecodeError,
>)
    ensures
        match r {
            Ok(m) => exists|records: Seq<T>|
                decodes_to(rows@, records) && m@ == #[trigger] indexed(records),
            Err(e) => exists|i: int| fails_first_at::<T>(rows@, i, e),
        },
{
    match load::<T>(rows) {
        Ok(records) => {
            let ghost decoded = records@;
            let m = index_by_id(records);
            assert(decodes_to(rows@, decoded) && m@ == indexed(decoded));
            Ok(m)
        },
        Err(e) => Err(e),
    }
}

/// The keys of an index are the identities of its records: a key of which
/// no record tells is not in it.
pub proof fn law_index_keys<T: WithId<i32>>(records: Seq<T>, key: i32)
    ensures
        indexed(records).contains_key(key) <==> exists|i: int|
            0 <= i < records.len() && (#[trigger] records[i]).spec_id() == key,
    decreases records.len(),
{
    if records.len() > 0 {
        let front = records.drop_last();
        let n = records.len() - 1;
        law_index_keys(front, key);
        if records[n].spec_id() == key {
        } else if indexed(front).contains_key(key) {
            let i = choose|i: int| 0 <= i < front.len() && (#[trigger] front[i]).spec_id() == key;
            assert(records[i].spec_id() == key);
        } else {
            assert forall|i: int| 0 <= i < records.len() implies (#[trigger] records[i]).spec_id()
                != key by {
                if i < n {
                    assert(front[i].spec_id() != key);
                }
            }
        }
    }
}

/// A record after which none has its identity is the one that its identity
/// leads to.
pub proof fn law_index_last_wins<T: WithId<i32>>(records: Seq<T>, i: int)
    requires
        0 <= i < records.len(),
        forall|j: int|
            i < j < records.len() ==> (#[trigger] records[j]).spec_id() != records[i].spec_id(),
    ensures
        indexed(records).contains_key(records[i].spec_id()),
        indexed(records)[records[i].spec_id()] == records[i],
    decreases records.len(),
{
    let n = records.len() - 1;
    if i < n {
        let front = records.drop_last();
        assert(front[i] == records[i]);
        assert(records[n].spec_id() != records[i].spec_id());
        assert forall|j: int| i < j < front.len() implies (#[trigger] front[j]).spec_id()
            != front[i].spec_id() by {
            assert(records[j].spec_id() != records[i].spec_id());
        }
        law_index_last_wins(front, i);
    }
}

/// The values of the pairs whose key is `key`, in the order of the pairs.
pub open spec fn values_of<T>(pairs: Seq<(i32, T)>, key: i32) -> Seq<T>
    decreases pairs.len(),
{
    if pairs.len() == 0 {
        Seq::empty()
    } else if pairs.last().0 == key {
        values_of(pairs.drop_last(), key).push(pairs.last().1)
    } else {
        values_of(pairs.drop_last(), key)
    }
}

/// `m` groups `pairs`: its keys are the keys of the pairs, and each leads
/// to the values of its pairs, in their order.
pub open spec fn groups_pairs<T>(m: Map<i32, Vec<T>>, pairs: Seq<(i32, T)>) -> bool {
    forall|key: i32|
        #![trigger m.contains_key(key)]
        #![trigger values_of(pairs, key)]
        {
            &&& m.contains_key(key) <==> values_of(pairs, key).len() > 0
            &&& m.contains_key(key) ==> m[key]@ == values_of(pairs, key)
        }
}

/// Groups the values of `pairs` by their keys. The values of one key stay
/// in the order of the pairs.
pub fn group_by_key<T>(pairs: Vec<(i32, T)>) -> (m: HashMap<i32, Vec<T>>)
    ensures
        groups_pairs(m@, pairs@),
{
    let mut result: HashMap<i32, Vec<T>> = HashMap::new();
    assert(groups_pairs(result@, pairs@.take(0)));
    for pair in it: pairs
        invariant
            it.seq() == pairs@,
            groups_pairs(result@, pairs@.take(it.index())),
    {
        let ghost before = pairs@.take(it.index());
        let ghost after = pairs@.take(it.index() + 1);
        let ghost old_map = result@;
        let (key, value) = pair;
        proof {
            assert(after.drop_last() =~= before);
            assert(after.last() == pair);
        }
        let mut list: Vec<T> = match result.remove(&key) {
            Some(list) => list,
            None => Vec::new(),
        };
        assert(list@ =~= values_of(before, key)) by {
            assert(old_map.contains_key(key) ==> old_map[key]@ == values_of(before, key));
        }
        list.push(value);
        result.insert(key, list);
        proof {
            assert forall|k: i32|
                #![trigger result@.contains_key(k)]
                #![trigger values_of(after, k)]
                {
                    &&& result@.contains_key(k) <==> values_of(after, k).len() > 0
                    &&& result@.contains_key(k) ==> result@[k]@ == values_of(after, k)
                } by {
                if k != key {
                    assert(old_map.contains_key(k) <==> values_of(before, k).len() > 0);
                    assert(old_map.contains_key(k) ==> old_map[k]@ == values_of(before, k));
                }
            }
        }
    }
    assert(pairs@.take(pairs@.len() as int) =~= pairs@);
    result
}

/// What the row says of its key and its value.
pub open spec fn keyed<T: FromRow>(row: &Row) -> Result<(i32, T::V), DecodeError> {
    match row.int_at(KEY_BULK_LOAD@) {
        Err(e) => Err(e),
        Ok(key) => match T::decoded(row) {
            Err(e) => Err(e),
            Ok(v) => Ok((key, v)),
        },
    }
}

/// `pairs` are what `rows` say of their keys and values, row by row.
pub open spec fn keyed_as<T: FromRow>(rows: Seq<Row>, pairs: Seq<(i32, T)>) -> bool {
    &&& pairs.len() == rows.len()
    &&& forall|i: int|
        0 <= i < rows.len() ==> keyed::<T>(&rows[i]) == Ok::<(i32, T::V), DecodeError>(
            ((#[trigger] pairs[i]).0, pairs[i].1@),
        )
}

/// The row at `i` is the first of `rows` whose key or value fails to
/// decode, and fails with `e`.
pub open spec fn keyed_fails_first_at<T: FromRow>(rows: Seq<Row>, i: int, e: DecodeError) -> bool {
    &&& 0 <= i < rows.len()
    &&& keyed::<T>(&rows[i]) == Err::<(i32, T::V), DecodeError>(e)
    &&& forall|j: int| 0 <= j < i ==> (#[trigger] keyed::<T>(&rows[j])) is Ok
}

/// Decodes of each of `rows` the key, from the loader key column, and then
/// the value. The first row that fails fails the whole load.
pub fn load_keyed<T: FromRow>(rows: &[Row]) -> (r: Result<Vec<(i32, T)>, DecodeError>)
    ensures
        match r {
            Ok(pairs) => keyed_as(rows@, pairs@),
            Err(e) => exists|i: int| keyed_fails_first_at::<T>(rows@, i, e),
        },
{
    let mut result: Vec<(i32, T)> = Vec::new();
    let mut i: usize = 0;
    while i < rows.len()
        invariant
            0 <= i <= rows@.len(),
            result@.len() == i,
            forall|j: int|
                0 <= j < i ==> keyed::<T>(&rows@[j]) == Ok::<(i32, T::V), DecodeError>(
                    ((#[trigger] result@[j]).0, result@[j].1@),
                ),
        decreases rows@.len() - i,
    {
        let ghost done = result@;
        let key = match rows[i].try_get_int(KEY_BULK_LOAD) {
            Ok(key) => key,
            Err(e) => {
                assert(keyed_fails_first_at::<T>(rows@, i as int, e)) by {
                    assert forall|j: int| 0 <= j < i implies (#[trigger] keyed::<T>(
                        &rows@[j],
                    )) is Ok by {
                        assert(keyed::<T>(&rows@[j]) == Ok::<(i32, T::V), DecodeError>(
                            (done[j].0, done[j].1@),
                        ));
                    }
                }
                return Err(e);
            },
        };
        match T::from_row(&rows[i]) {
            Ok(value) => {
                result.push((key, value));
            },
            Err(e) => {
                assert(keyed_fails_first_at::<T>(rows@, i as int, e)) by {
                    assert forall|j: int| 0 <= j < i implies (#[trigger] keyed::<T>(
                        &rows@[j],
                    )) is Ok by {
                        assert(keyed::<T>(&rows@[j]) == Ok::<(i32, T::V), DecodeError>(
                            (done[j].0, done[j].1@),
                        ));
                    }
                }
                return Err(e);
            },
        }
        i += 1;
    }
    Ok(result)
}

/// Decodes `rows` and groups the values by the keys of their rows. The
/// values of one key stay in the order of the rows; a key of which no row
/// tells is not in the map.
pub fn load_many_by_key<T: FromRow>(rows: &[Row]) -> (r: Result<HashMap<i32, Vec<T>>, DecodeError>)
    ensures
        r matches Ok(m) ==> exists|pairs: Seq<(i32, T)>|
            keyed_as(rows@, pairs) && #[trigger] groups_pairs(m@, pairs),
        r matches Err(e) ==> exists|i: int| keyed_fails_first_at::<T>(rows@, i, e),
{
    match load_keyed::<T>(rows) {
        Ok(pairs) => {
            let ghost decoded = pairs@;
            let r: Result<HashMap<i32, Vec<T>>, DecodeError> = Ok(group_by_key(pairs));
            assert(r matches Ok(m) ==> keyed_as::<T>(rows@, decoded) && groups_pairs(
                m@,
                decoded,
            ));
            r
        },
        Err(e) => Err(e),
    }
}

} // verus!
