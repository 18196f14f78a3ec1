//! Relational rows as plain values, and the typed column reads that the
//! entity mappers are built from.

use vstd::prelude::*;

verus! {

/// One column value of a relational row.
#[derive(Debug)]
pub enum Value {
    Null,
    Int(i32),
    Text(String),
    /// A decimal number, counted in hundredths (`49.99` is `4999`).
    Hundredths(i64),
}

/// What a [`Value`] holds, as a mathematical value.
pub enum ValueModel {
    Null,
    Int(i32),
    Text(Seq<char>),
    Hundredths(i64),
}

impl View for Value {
    type V = ValueModel;

    open spec fn view(&self) -> ValueModel {
        match self {
            Value::Null => ValueModel::Null,
            Value::Int(v) => ValueModel::Int(*v),
            Value::Text(s) => ValueModel::Text(s@),
            Value::Hundredths(v) => ValueModel::Hundredths(*v),
        }
    }
}

/// A named column of a row.
#[derive(Debug)]
pub struct Column {
    pub name: String,
    pub value: Value,
}

/// One row of a query result: its columns, in order.
#[derive(Debug)]
pub struct Row {
    pub columns: Vec<Column>,
}

impl View for Row {
    type V = Seq<(Seq<char>, ValueModel)>;

    open spec fn view(&self) -> Seq<(Seq<char>, ValueModel)> {
        self.columns@.map_values(|c: Column| (c.name@, c.value@))
    }
}

/// Why a row could not be read as an entity.
#[derive(Debug)]
pub enum MappingError {
    /// The row has no column of this name.
    MissingColumn(String),
    /// The column holds a value of another type than the entity needs.
    WrongType(String),
}

/// What a [`MappingError`] says, as a mathematical value.
pub enum MappingFault {
    MissingColumn(Seq<char>),
    WrongType(Seq<char>),
}

impl View for MappingError {
    type V = MappingFault;

    open spec fn view(&self) -> MappingFault {
        match self {
            MappingError::MissingColumn(n) => MappingFault::MissingColumn(n@),
            MappingError::WrongType(n) => MappingFault::WrongType(n@),
        }
    }
}

/// The value of the first column named `name` at position `i` or later.
pub open spec fn lookup_from(cols: Seq<(Seq<char>, ValueModel)>, name: Seq<char>, i: int) -> Option<
    ValueModel,
>
    decreases cols.len() - i,
{
    if 0 <= i < cols.len() {
        if cols[i].0 == name {
            Some(cols[i].1)
        } else {
            lookup_from(cols, name, i + 1)
        }
    } else {
        None
    }
}

/// The value of the first column named `name`, if the row has one.
pub open spec fn lookup(cols: Seq<(Seq<char>, ValueModel)>, name: Seq<char>) -> Option<ValueModel> {
    lookup_from(cols, name, 0)
}

/// Reading an `i32` column.
pub open spec fn int_column(cols: Seq<(Seq<char>, ValueModel)>, name: Seq<char>) -> Result<
    i32,
    MappingFault,
> {
    match lookup(cols, name) {
        None => Err(MappingFault::MissingColumn(name)),
        Some(ValueModel::Int(v)) => Ok(v),
        Some(_) => Err(MappingFault::WrongType(name)),
    }
}

/// Reading a nullable `i32` column.
pub open spec fn opt_int_column(cols: Seq<(Seq<char>, ValueModel)>, name: Seq<char>) -> Result<
    Option<i32>,
    MappingFault,
> {
    match lookup(cols, name) {
        None => Err(MappingFault::MissingColumn(name)),
        Some(ValueModel::Null) => Ok(None),
        Some(ValueModel::Int(v)) => Ok(Some(v)),
        Some(_) => Err(MappingFault::WrongType(name)),
    }
}

/// Reading a text column.
pub open spec fn text_column(cols: Seq<(Seq<char>, ValueModel)>, name: Seq<char>) -> Result<
    Seq<char>,
    MappingFault,
> {
    match lookup(cols, name) {
        None => Err(MappingFault::MissingColumn(name)),
        Some(ValueModel::Text(s)) => Ok(s),
        Some(_) => Err(MappingFault::WrongType(name)),
    }
}

/// Reading a decimal column, in hundredths.
pub open spec fn hundredths_column(cols: Seq<(Seq<char>, ValueModel)>, name: Seq<char>) -> Result<
    i64,
    MappingFault,
> {
    match lookup(cols, name) {
        None => Err(MappingFault::MissingColumn(name)),
        Some(ValueModel::Hundredths(v)) => Ok(v),
        Some(_) => Err(MappingFault::WrongType(name)),
    }
}

/// Whether two texts hold the same characters.
pub fn same_text(a: &str, b: &str) -> (r: bool)
    ensures
        r == (a@ == b@),
{
    let n = a.unicode_len();
    if n != b.unicode_len() {
        return false;
    }
    let mut i: usize = 0;
    while i < n
        invariant
            n == a@.len(),
            n == b@.len(),
            i <= n,
            a@.subrange(0, i as int) == b@.subrange(0, i as int),
        decreases n - i,
    {
        if a.get_char(i) != b.get_char(i) {
            return false;
        }
        assert(a@.subrange(0, i + 1) == a@.subrange(0, i as int).push(a@[i as int]));
        assert(b@.subrange(0, i + 1) == b@.subrange(0, i as int).push(b@[i as int]));
        i = i + 1;
    }
    assert(a@ == a@.subrange(0, n as int));
    assert(b@ == b@.subrange(0, n as int));
    true
}

impl MappingError {
    fn missing(name: &str) -> (r: MappingError)
        ensures
            r@ == MappingFault::MissingColumn(name@),
    {
        MappingError::MissingColumn(name.to_owned())
    }

    fn wrong_type(name: &str) -> (r: MappingError)
        ensures
            r@ == MappingFault::WrongType(name@),
    {
        MappingError::WrongType(name.to_owned())
    }
}

impl Row {
    /// The position of the first column named `name`.
    pub fn find(&self, name: &str) -> (r: Option<usize>)
        ensures
            match r {
                Some(i) => i < self@.len() && lookup(self@, name@) == Some(self@[i as int].1),
                None => lookup(self@, name@) == None::<ValueModel>,
            },
    {
        let n = self.columns.len();
        let mut i: usize = 0;
        while i < n
            invariant
                n == self@.len(),
                i <= n,
                lookup(self@, name@) == lookup_from(self@, name@, i as int),
            decreases n - i,
        {
            if same_text(self.columns[i].name.as_str(), name) {
                return Some(i);
            }
            i = i + 1;
        }
        None
    }

    /// Reads the `i32` column `name`.
    pub fn get_int(&self, name: &str) -> (r: Result<i32, MappingError>)
        ensures
            match r {
                Ok(v) => int_column(self@, name@) == Ok::<i32, MappingFault>(v),
                Err(e) => int_column(self@, name@) == Err::<i32, MappingFault>(e@),
            },
    {
        match self.find(name) {
            None => Err(MappingError::missing(name)),
            Some(i) => match &self.columns[i].value {
                Value::Int(v) => Ok(*v),
                _ => Err(MappingError::wrong_type(name)),
            },
        }
    }

    /// Reads the nullable `i32` column `name`.
    pub fn get_opt_int(&self, name: &str) -> (r: Result<Option<i32>, MappingError>)
        ensures
            match r {
                Ok(v) => opt_int_column(self@, name@) == Ok::<Option<i32>, MappingFault>(v),
                Err(e) => opt_int_column(self@, name@) == Err::<Option<i32>, MappingFault>(e@),
            },
    {
        match self.find(name) {
            None => Err(MappingError::missing(name)),
            Some(i) => match &self.columns[i].value {
                Value::Null => Ok(None),
                Value::Int(v) => Ok(Some(*v)),
                _ => Err(MappingError::wrong_type(name)),
            },
        }
    }

    /// Reads the text column `name`.
    pub fn get_text(&self, name: &str) -> (r: Result<String, MappingError>)
        ensures
            match r {
                Ok(s) => text_column(self@, name@) == Ok::<Seq<char>, MappingFault>(s@),
                Err(e) => text_column(self@, name@) == Err::<Seq<char>, MappingFault>(e@),
            },
    {
        match self.find(name) {
            None => Err(MappingError::missing(name)),
            Some(i) => match &self.columns[i].value {
                Value::Text(s) => Ok(s.clone()),
                _ => Err(MappingError::wrong_type(name)),
            },
        }
    }

    /// Reads the decimal column `name`, in hundredths.
    pub fn get_hundredths(&self, name: &str) -> (r: Result<i64, MappingError>)
        ensures
            match r {
                Ok(v) => hundredths_column(self@, name@) == Ok::<i64, MappingFault>(v),
                Err(e) => hundredths_column(self@, name@) == Err::<i64, MappingFault>(e@),
            },
    {
        match self.find(name) {
            None => Err(MappingError::missing(name)),
            Some(i) => match &self.columns[i].value {
                Value::Hundredths(v) => Ok(*v),
                _ => Err(MappingError::wrong_type(name)),
            },
        }
    }
}

} // verus!
