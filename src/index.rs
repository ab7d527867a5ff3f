use vstd::prelude::*;

verus! {

/// A row index of a `Matrix`, kept apart from column indices by its type.
#[derive(Debug, Clone, Copy, PartialEq, Eq, Structural, PartialOrd, Ord, Hash)]
pub struct Row {
    value: usize,
}

/// A column index of a `Matrix`, kept apart from row indices by its type.
#[derive(Debug, Clone, Copy, PartialEq, Eq, Structural, PartialOrd, Ord, Hash)]
pub struct Col {
    value: usize,
}

impl View for Row {
    type V = usize;

    closed spec fn view(&self) -> usize {
        self.value
    }
}

impl View for Col {
    type V = usize;

    closed spec fn view(&self) -> usize {
        self.value
    }
}

impl Row {
    pub fn new(value: usize) -> (r: Row)
        ensures
            r@ == value,
    {
        Row { value }
    }

    pub fn index(&self) -> (r: usize)
        ensures
            r == self@,
    {
        self.value
    }
}

impl Col {
    pub fn new(value: usize) -> (r: Col)
        ensures
            r@ == value,
    {
        Col { value }
    }

    pub fn index(&self) -> (r: usize)
        ensures
            r == self@,
    {
        self.value
    }
}

/// Reads a column index as the row of the same number (the diagonal of a square system).
impl From<Col> for Row {
    fn from(col: Col) -> (r: Row)
        ensures
            r@ == col@,
    {
        Row { value: col.value }
    }
}

impl vstd::std_specs::convert::FromSpecImpl<Col> for Row {
    open spec fn obeys_from_spec() -> bool {
        true
    }

    closed spec fn from_spec(col: Col) -> Row {
        Row { value: col.value }
    }
}

/// Reads a row index as the column of the same number (the diagonal of a square system).
impl From<Row> for Col {
    fn from(row: Row) -> (r: Col) {
        Col { value: row.value }
    }
}

impl vstd::std_specs::convert::FromSpecImpl<Row> for Col {
    open spec fn obeys_from_spec() -> bool {
        true
    }

    closed spec fn from_spec(row: Row) -> Col {
        Col { value: row.value }
    }
}

impl std::ops::Add<Row> for Row {
    type Output = Row;

    fn add(self, rhs: Row) -> (r: Row)
        ensures
            r@ == self@ + rhs@,
    {
        Row { value: self.value + rhs.value }
    }
}

impl vstd::std_specs::ops::AddSpecImpl<Row> for Row {
    open spec fn obeys_add_spec() -> bool {
        true
    }

    open spec fn add_req(self, rhs: Row) -> bool {
        self@ + rhs@ <= usize::MAX
    }

    closed spec fn add_spec(self, rhs: Row) -> Row {
        Row { value: (self.value + rhs.value) as usize }
    }
}

impl std::ops::Sub<Row> for Row {
    type Output = Row;

    fn sub(self, rhs: Row) -> (r: Row)
        ensures
            r@ == self@ - rhs@,
    {
        Row { value: self.value - rhs.value }
    }
}

impl vstd::std_specs::ops::SubSpecImpl<Row> for Row {
    open spec fn obeys_sub_spec() -> bool {
        true
    }

    open spec fn sub_req(self, rhs: Row) -> bool {
        rhs@ <= self@
    }

    closed spec fn sub_spec(self, rhs: Row) -> Row {
        Row { value: (self.value - rhs.value) as usize }
    }
}

impl std::ops::Add<usize> for Row {
    type Output = Row;

    fn add(self, rhs: usize) -> (r: Row)
        ensures
            r@ == self@ + rhs,
    {
        Row { value: self.value + rhs }
    }
}

impl vstd::std_specs::ops::AddSpecImpl<usize> for Row {
    open spec fn obeys_add_spec() -> bool {
        true
    }

    open spec fn add_req(self, rhs: usize) -> bool {
        self@ + rhs <= usize::MAX
    }

    closed spec fn add_spec(self, rhs: usize) -> Row {
        Row { value: (self.value + rhs) as usize }
    }
}

impl std::ops::Sub<usize> for Row {
    type Output = Row;

    fn sub(self, rhs: usize) -> (r: Row)
        ensures
            r@ == self@ - rhs,
    {
        Row { value: self.value - rhs }
    }
}

impl vstd::std_specs::ops::SubSpecImpl<usize> for Row {
    open spec fn obeys_sub_spec() -> bool {
        true
    }

    open spec fn sub_req(self, rhs: usize) -> bool {
        rhs <= self@
    }

    closed spec fn sub_spec(self, rhs: usize) -> Row {
        Row { value: (self.value - rhs) as usize }
    }
}

impl std::ops::Add<Col> for Col {
    type Output = Col;

    fn add(self, rhs: Col) -> (r: Col)
        ensures
            r@ == self@ + rhs@,
    {
        Col { value: self.value + rhs.value }
    }
}

impl vstd::std_specs::ops::AddSpecImpl<Col> for Col {
    open spec fn obeys_add_spec() -> bool {
        true
    }

    open spec fn add_req(self, rhs: Col) -> bool {
        self@ + rhs@ <= usize::MAX
    }

    closed spec fn add_spec(self, rhs: Col) -> Col {
        Col { value: (self.value + rhs.value) as usize }
    }
}

impl std::ops::Sub<Col> for Col {
    type Output = Col;

    fn sub(self, rhs: Col) -> (r: Col)
        ensures
            r@ == self@ - rhs@,
    {
        Col { value: self.value - rhs.value }
    }
}

impl vstd::std_specs::ops::SubSpecImpl<Col> for Col {
    open spec fn obeys_sub_spec() -> bool {
        true
    }

    open spec fn sub_req(self, rhs: Col) -> bool {
        rhs@ <= self@
    }

    closed spec fn sub_spec(self, rhs: Col) -> Col {
        Col { value: (self.value - rhs.value) as usize }
    }
}

impl std::ops::Add<usize> for Col {
    type Output = Col;

    fn add(self, rhs: usize) -> (r: Col)
        ensures
            r@ == self@ + rhs,
    {
        Col { value: self.value + rhs }
    }
}

impl vstd::std_specs::ops::AddSpecImpl<usize> for Col {
    open spec fn obeys_add_spec() -> bool {
        true
    }

    open spec fn add_req(self, rhs: usize) -> bool {
        self@ + rhs <= usize::MAX
    }

    closed spec fn add_spec(self, rhs: usize) -> Col {
        Col { value: (self.value + rhs) as usize }
    }
}

impl std::ops::Sub<usize> for Col {
    type Output = Col;

    fn sub(self, rhs: usize) -> (r: Col)
        ensures
            r@ == self@ - rhs,
    {
        Col { value: self.value - rhs }
    }
}

impl vstd::std_specs::ops::SubSpecImpl<usize> for Col {
    open spec fn obeys_sub_spec() -> bool {
        true
    }

    open spec fn sub_req(self, rhs: usize) -> bool {
        rhs <= self@
    }

    closed spec fn sub_spec(self, rhs: usize) -> Col {
        Col { value: (self.value - rhs) as usize }
    }
}

} // verus!
