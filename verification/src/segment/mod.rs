pub mod column_descriptor;
pub mod metadata;
pub mod name_order;
pub mod smoosh;
pub mod text;
pub mod version;

use crate::byte_order::be_i32;
use crate::column::{
    column_header, column_read, parse_column_header, read_column, ColumnData, ColumnValues,
};
use crate::error::{DruidSegmentError, ErrorKind};
use crate::segment::column_descriptor::{same_text, ColumnDescriptor, ValueType};
use crate::segment::metadata::{index_layout, IndexLayout, SegmentMetadata};
use crate::segment::smoosh::{located, IndexModel, SmooshReader};
use crate::segment::version::{read_version, version_checked};
use vstd::prelude::*;
use vstd::utf8::{decode_utf8, encode_utf8_decode_utf8};

verus! {

/// The logical type under which a column is handed to a query engine.
#[derive(Debug, Clone, Copy, PartialEq, Eq, Structural)]
pub enum LogicalType {
    /// Timestamp in milliseconds since the Unix epoch, without time zone.
    TimestampMillis,
    Utf8,
    Int64,
    Float32,
    Float64,
    /// Opaque bytes: the type of a complex column, which can be listed but
    /// not read.
    Binary,
}

/// One column of a schema. Every column is nullable.
#[derive(Debug, Clone)]
pub struct Field {
    pub name: String,
    pub data_type: LogicalType,
}

/// A set of decoded columns of equal length, with the schema of the
/// columns that were asked for.
#[derive(Debug)]
pub struct RecordBatch {
    pub fields: Vec<Field>,
    pub columns: Vec<ColumnData>,
}

/// The logical type of the column of that name and value type: `__time` is a
/// timestamp whatever its value type.
pub open spec fn logical_type(value_type: ValueType, name: Seq<char>) -> LogicalType {
    if name == "__time"@ {
        LogicalType::TimestampMillis
    } else {
        match value_type {
            ValueType::String => LogicalType::Utf8,
            ValueType::Long => LogicalType::Int64,
            ValueType::Float => LogicalType::Float32,
            ValueType::Double => LogicalType::Float64,
            ValueType::Complex => LogicalType::Binary,
        }
    }
}

/// The logical type of the column of that name with that descriptor.
pub fn druid_type_to_arrow(descriptor: &ColumnDescriptor, col_name: &str) -> (r: LogicalType)
    ensures
        r == logical_type(descriptor.value_type, col_name@),
{
    if same_text(col_name, "__time") {
        return LogicalType::TimestampMillis;
    }
    match descriptor.value_type {
        ValueType::String => LogicalType::Utf8,
        ValueType::Long => LogicalType::Int64,
        ValueType::Float => LogicalType::Float32,
        ValueType::Double => LogicalType::Float64,
        ValueType::Complex => LogicalType::Binary,
    }
}

/// What reading one column of an archive yields: its logical type and its values.
pub struct ColumnModel {
    pub name: Seq<char>,
    pub data_type: LogicalType,
    pub values: ColumnValues,
}

/// The column of that name, read from the archive.
pub open spec fn column_of(model: IndexModel, chunks: Seq<Seq<u8>>, name: Seq<char>) -> Result<
    ColumnModel,
    ErrorKind,
> {
    match located(model, chunks, name) {
        Err(kind) => Err(kind),
        Ok(bytes) => match column_read(name, bytes) {
            Err(kind) => Err(kind),
            Ok((layout, values)) => Ok(
                ColumnModel { name, data_type: logical_type(layout.value_type, name), values },
            ),
        },
    }
}

/// The first `k` of the named columns, read in order, or the error of the
/// first of them that cannot be read.
pub open spec fn columns_upto(
    model: IndexModel,
    chunks: Seq<Seq<u8>>,
    names: Seq<Seq<char>>,
    k: nat,
) -> Result<Seq<ColumnModel>, ErrorKind>
    decreases k,
{
    if k == 0 {
        Ok(Seq::empty())
    } else {
        match columns_upto(model, chunks, names, (k - 1) as nat) {
            Err(kind) => Err(kind),
            Ok(columns) => match column_of(model, chunks, names[k - 1]) {
                Err(kind) => Err(kind),
                Ok(column) => Ok(columns.push(column)),
            },
        }
    }
}

/// Whether columns can stand together in one batch: there is at least one,
/// and all have the same number of rows.
pub open spec fn same_length(columns: Seq<ColumnModel>) -> bool {
    columns.len() > 0 && forall|i: int|
        0 <= i < columns.len() ==> (#[trigger] columns[i]).values.len() == columns[0].values.len()
}

/// The batch of the named columns: all of them read in order. Columns that
/// cannot stand together in one batch are refused as the output builder
/// refuses them.
pub open spec fn batch_of(model: IndexModel, chunks: Seq<Seq<u8>>, names: Seq<Seq<char>>) -> Result<
    Seq<ColumnModel>,
    ErrorKind,
> {
    match columns_upto(model, chunks, names, names.len()) {
        Err(kind) => Err(kind),
        Ok(columns) => if same_length(columns) {
            Ok(columns)
        } else {
            Err(ErrorKind::ArrowError)
        },
    }
}

/// The number of rows of a segment: the length of its `__time` column.
pub open spec fn rows_of(model: IndexModel, chunks: Seq<Seq<u8>>) -> Result<nat, ErrorKind> {
    match column_of(model, chunks, "__time"@) {
        Err(kind) => Err(kind),
        Ok(column) => Ok(column.values.len()),
    }
}

/// The type of the column of that name, from its descriptor alone.
pub open spec fn field_of(model: IndexModel, chunks: Seq<Seq<u8>>, name: Seq<char>) -> Result<
    LogicalType,
    ErrorKind,
> {
    match located(model, chunks, name) {
        Err(kind) => Err(kind),
        Ok(bytes) => match column_header(bytes) {
            Err(kind) => Err(kind),
            Ok((layout, _)) => Ok(logical_type(layout.value_type, name)),
        },
    }
}

/// The types of the first `k` of the named columns, or the error of the
/// first whose descriptor cannot be read.
pub open spec fn schema_upto(
    model: IndexModel,
    chunks: Seq<Seq<u8>>,
    names: Seq<Seq<char>>,
    k: nat,
) -> Result<Seq<LogicalType>, ErrorKind>
    decreases k,
{
    if k == 0 {
        Ok(Seq::empty())
    } else {
        match schema_upto(model, chunks, names, (k - 1) as nat) {
            Err(kind) => Err(kind),
            Ok(types) => match field_of(model, chunks, names[k - 1]) {
                Err(kind) => Err(kind),
                Ok(data_type) => Ok(types.push(data_type)),
            },
        }
    }
}

/// The texts of a list of strings.
pub open spec fn names_of(names: Seq<String>) -> Seq<Seq<char>> {
    Seq::new(names.len(), |i: int| names[i]@)
}

/// The column names of an index, as text.
pub open spec fn column_names(layout: IndexLayout) -> Seq<Seq<char>> {
    Seq::new(layout.columns.len(), |i: int| decode_utf8(layout.columns[i]))
}

/// Whether a schema lists exactly the given names with the given types, in order.
pub open spec fn has_types(schema: Seq<Field>, names: Seq<Seq<char>>, types: Seq<LogicalType>)
    -> bool {
    &&& schema.len() == names.len() == types.len()
    &&& forall|i: int|
        0 <= i < schema.len() ==> (#[trigger] schema[i]).name@ == names[i] && schema[i].data_type
            == types[i]
}

/// What opening a segment finds, or why it is refused: the version marker
/// must hold 9, the archive must hold a well-formed `index.drd`, and every
/// column that the index lists must be a logical file with a descriptor
/// that can be read. The result is the index metadata and the type of each
/// listed column.
pub open spec fn opened(version_data: Seq<u8>, model: IndexModel, chunks: Seq<Seq<u8>>) -> Result<
    (IndexLayout, Seq<LogicalType>),
    ErrorKind,
> {
    match version_checked(version_data) {
        Err(kind) => Err(kind),
        Ok(_) => match located(model, chunks, "index.drd"@) {
            Err(kind) => Err(kind),
            Ok(bytes) => match index_layout(bytes) {
                Err(kind) => Err(kind),
                Ok(layout) => match schema_upto(
                    model,
                    chunks,
                    column_names(layout),
                    layout.columns.len(),
                ) {
                    Err(kind) => Err(kind),
                    Ok(types) => Ok((layout, types)),
                },
            },
        },
    }
}

/// A segment whose version marker holds a number other than 9 is not opened,
/// whatever its archive holds: it is refused as an invalid version that
/// names that number.
pub proof fn lemma_open_version_gate(version_data: Seq<u8>, model: IndexModel, chunks: Seq<Seq<u8>>)
    requires
        version_data.len() >= 4,
        be_i32(version_data, 0) != 9,
    ensures
        opened(version_data, model, chunks) == Err::<(IndexLayout, Seq<LogicalType>), ErrorKind>(
            ErrorKind::InvalidVersion(be_i32(version_data, 0) as i32),
        ),
{
}

/// Once a column is refused, every longer list of columns is refused alike.
pub proof fn lemma_column_refusal_persists(
    model: IndexModel,
    chunks: Seq<Seq<u8>>,
    names: Seq<Seq<char>>,
    k: nat,
    n: nat,
)
    requires
        k <= n,
        columns_upto(model, chunks, names, k) is Err,
    ensures
        columns_upto(model, chunks, names, n) == columns_upto(model, chunks, names, k),
    decreases n - k,
{
    if k < n {
        lemma_column_refusal_persists(model, chunks, names, k, (n - 1) as nat);
    }
}

/// Once a descriptor is refused, every longer schema is refused alike.
pub proof fn lemma_schema_refusal_persists(
    model: IndexModel,
    chunks: Seq<Seq<u8>>,
    names: Seq<Seq<char>>,
    k: nat,
    n: nat,
)
    requires
        k <= n,
        schema_upto(model, chunks, names, k) is Err,
    ensures
        schema_upto(model, chunks, names, n) == schema_upto(model, chunks, names, k),
    decreases n - k,
{
    if k < n {
        lemma_schema_refusal_persists(model, chunks, names, k, (n - 1) as nat);
    }
}

/// The columns that are read for a list of names are the columns of those
/// names, one for one and in order.
pub proof fn lemma_columns_in_order(
    model: IndexModel,
    chunks: Seq<Seq<u8>>,
    names: Seq<Seq<char>>,
    k: nat,
)
    requires
        columns_upto(model, chunks, names, k) is Ok,
    ensures
        columns_upto(model, chunks, names, k)->Ok_0.len() == k,
        forall|i: int|
            0 <= i < k ==> column_of(model, chunks, names[i]) == Ok::<ColumnModel, ErrorKind>(
                #[trigger] columns_upto(model, chunks, names, k)->Ok_0[i],
            ),
    decreases k,
{
    if k > 0 {
        lemma_columns_in_order(model, chunks, names, (k - 1) as nat);
    }
}

/// A batch is consistent with what was asked for and with the segment: it
/// has one column per name, in the order of the names and under those names;
/// all its columns have the same number of rows; and where `__time` is among
/// the names, that number is the segment's number of rows.
pub proof fn lemma_batch_consistent(model: IndexModel, chunks: Seq<Seq<u8>>, names: Seq<Seq<char>>)
    requires
        batch_of(model, chunks, names) is Ok,
    ensures
        batch_of(model, chunks, names)->Ok_0.len() == names.len(),
        forall|i: int|
            0 <= i < names.len() ==> (#[trigger] batch_of(model, chunks, names)->Ok_0[i]).name
                == names[i],
        forall|i: int, j: int|
            0 <= i < names.len() && 0 <= j < names.len() ==> (#[trigger] batch_of(
                model,
                chunks,
                names,
            )->Ok_0[i]).values.len() == (#[trigger] batch_of(
                model,
                chunks,
                names,
            )->Ok_0[j]).values.len(),
        forall|i: int|
            0 <= i < names.len() && #[trigger] names[i] == "__time"@ ==> rows_of(model, chunks)
                == Ok::<nat, ErrorKind>(batch_of(model, chunks, names)->Ok_0[0].values.len()),
{
    let columns = batch_of(model, chunks, names)->Ok_0;
    lemma_columns_in_order(model, chunks, names, names.len());
    assert forall|i: int, j: int| 0 <= i < names.len() && 0 <= j < names.len() implies (
    #[trigger] columns[i]).values.len() == (#[trigger] columns[j]).values.len() by {
        assert(columns[i].values.len() == columns[0].values.len());
        assert(columns[j].values.len() == columns[0].values.len());
    }
    assert forall|i: int| 0 <= i < names.len() && #[trigger] names[i] == "__time"@ implies rows_of(
        model,
        chunks,
    ) == Ok::<nat, ErrorKind>(columns[0].values.len()) by {
        assert(column_of(model, chunks, names[i]) == Ok::<ColumnModel, ErrorKind>(columns[i]));
        assert(columns[i].values.len() == columns[0].values.len());
    }
}

impl Field {
    /// Whether this field is the field of the given column.
    pub open spec fn describes(&self, column: ColumnModel) -> bool {
        self.name@ == column.name && self.data_type == column.data_type
    }
}

impl RecordBatch {
    /// Whether this batch holds exactly the given columns, in order.
    pub open spec fn holds(&self, columns: Seq<ColumnModel>) -> bool {
        &&& self.fields@.len() == columns.len()
        &&& self.columns@.len() == columns.len()
        &&& forall|i: int|
            0 <= i < columns.len() ==> (#[trigger] self.fields@[i]).describes(columns[i])
        &&& forall|i: int|
            0 <= i < columns.len() ==> (#[trigger] self.columns@[i]).holds(columns[i].values)
    }

    /// Number of rows: the length of the first column, zero without columns.
    pub fn num_rows(&self) -> (n: usize)
        ensures
            n == if self.columns@.len() > 0 {
                self.columns@[0].spec_len()
            } else {
                0
            },
    {
        if self.columns.len() > 0 {
            self.columns[0].len()
        } else {
            0
        }
    }
}

/// A column that holds given values has as many rows as they are.
pub proof fn lemma_holds_length(column: ColumnData, values: ColumnValues)
    requires
        column.holds(values),
    ensures
        column.spec_len() == values.len(),
{
}

/// Whether all columns have as many rows as the first.
fn equal_lengths(columns: &Vec<ColumnData>) -> (b: bool)
    ensures
        b <==> (columns@.len() > 0 && forall|i: int|
            0 <= i < columns@.len() ==> (#[trigger] columns@[i]).spec_len()
                == columns@[0].spec_len()),
{
    let n = columns.len();
    if n == 0 {
        return false;
    }
    let rows = columns[0].len();
    let mut i: usize = 1;
    while i < n
        invariant
            1 <= i <= n == columns@.len(),
            rows == columns@[0].spec_len(),
            forall|j: int| 0 <= j < i ==> (#[trigger] columns@[j]).spec_len() == rows,
        decreases n - i,
    {
        if columns[i].len() != rows {
            return false;
        }
        i = i + 1;
    }
    true
}

/// An opened segment: its archive, its index metadata and its schema.
pub struct DruidSegment<'a> {
    smoosh: SmooshReader<'a>,
    metadata: SegmentMetadata,
    schema: Vec<Field>,
}

impl<'a> DruidSegment<'a> {
    /// The archive that the segment was opened over.
    pub closed spec fn archive(&self) -> SmooshReader<'a> {
        self.smoosh
    }

    /// The archive's index.
    pub open spec fn index_model(&self) -> IndexModel {
        self.archive().index_model()
    }

    /// The contents of the archive's chunk files.
    pub open spec fn chunk_bytes(&self) -> Seq<Seq<u8>> {
        self.archive().chunk_bytes()
    }

    /// The metadata that was decoded when the segment was opened.
    pub closed spec fn spec_metadata(&self) -> SegmentMetadata {
        self.metadata
    }

    /// The schema that was assembled when the segment was opened.
    pub closed spec fn spec_schema(&self) -> Seq<Field> {
        self.schema@
    }

    /// Opens a segment from the contents of its version marker file and its
    /// archive: validates the version, decodes the index metadata and
    /// assembles the schema of the columns that the index lists.
    pub fn open(version_data: &[u8], smoosh: SmooshReader<'a>) -> (r: Result<
        Self,
        DruidSegmentError,
    >)
        ensures
            match opened(version_data@, smoosh.index_model(), smoosh.chunk_bytes()) {
                Ok((layout, types)) => r matches Ok(segment) && segment.archive() == smoosh
                    && segment.spec_metadata().matches_layout(layout) && has_types(
                    segment.spec_schema(),
                    column_names(layout),
                    types,
                ),
                Err(kind) => r matches Err(e) && e.spec_kind() == kind,
            },
    {
        match read_version(version_data) {
            Ok(_) => {},
            Err(e) => {
                return Err(e);
            },
        }
        let index_data = match smoosh.map_file("index.drd") {
            Ok(data) => data,
            Err(e) => {
                return Err(e);
            },
        };
        let metadata = match SegmentMetadata::from_bytes(index_data) {
            Ok(metadata) => metadata,
            Err(e) => {
                return Err(e);
            },
        };
        proof {
            let layout = index_layout(index_data@)->Ok_0;
            assert(names_of(metadata.columns@) =~= column_names(layout)) by {
                assert forall|i: int| 0 <= i < layout.columns.len() implies decode_utf8(
                    layout.columns[i],
                ) == metadata.columns@[i]@ by {
                    encode_utf8_decode_utf8(metadata.columns@[i]@);
                }
            }
        }
        let schema = match Self::build_schema(&smoosh, &metadata) {
            Ok(schema) => schema,
            Err(e) => {
                return Err(e);
            },
        };
        Ok(DruidSegment { smoosh, metadata, schema })
    }

    /// The schema of the columns that the index lists, in index order.
    fn build_schema(smoosh: &SmooshReader<'a>, metadata: &SegmentMetadata) -> (r: Result<
        Vec<Field>,
        DruidSegmentError,
    >)
        ensures
            match schema_upto(
                smoosh.index_model(),
                smoosh.chunk_bytes(),
                names_of(metadata.columns@),
                metadata.columns@.len(),
            ) {
                Ok(types) => r matches Ok(fields) && has_types(
                    fields@,
                    names_of(metadata.columns@),
                    types,
                ),
                Err(kind) => r matches Err(e) && e.spec_kind() == kind,
            },
    {
        let ghost model = smoosh.index_model();
        let ghost chunks = smoosh.chunk_bytes();
        let ghost names = names_of(metadata.columns@);
        let n = metadata.columns.len();
        let mut fields: Vec<Field> = Vec::with_capacity(n);
        let ghost mut types: Seq<LogicalType> = Seq::empty();
        let mut k: usize = 0;
        while k < n
            invariant
                k <= n == metadata.columns@.len(),
                model == smoosh.index_model(),
                chunks == smoosh.chunk_bytes(),
                names == names_of(metadata.columns@),
                schema_upto(model, chunks, names, k as nat) == Ok::<
                    Seq<LogicalType>,
                    ErrorKind,
                >(types),
                fields@.len() == k == types.len(),
                forall|i: int|
                    0 <= i < k ==> (#[trigger] fields@[i]).data_type == types[i] && fields@[i].name@
                        == names[i],
            decreases n - k,
        {
            let col_name = metadata.columns[k].as_str();
            let col_data = match smoosh.map_file(col_name) {
                Ok(data) => data,
                Err(e) => {
                    proof {
                        lemma_schema_refusal_persists(
                            model,
                            chunks,
                            names,
                            (k + 1) as nat,
                            n as nat,
                        );
                    }
                    return Err(e);
                },
            };
            let descriptor = match parse_column_header(col_data) {
                Ok((descriptor, _)) => descriptor,
                Err(e) => {
                    proof {
                        lemma_schema_refusal_persists(
                            model,
                            chunks,
                            names,
                            (k + 1) as nat,
                            n as nat,
                        );
                    }
                    return Err(e);
                },
            };
            let data_type = druid_type_to_arrow(&descriptor, col_name);
            proof {
                types = types.push(data_type);
            }
            fields.push(Field { name: col_name.to_owned(), data_type });
            k = k + 1;
        }
        Ok(fields)
    }

    /// The schema of the columns that the index lists.
    pub fn schema(&self) -> (r: &Vec<Field>)
        ensures
            r@ == self.spec_schema(),
    {
        &self.schema
    }

    /// The segment's index metadata.
    pub fn metadata(&self) -> (r: &SegmentMetadata)
        ensures
            *r == self.spec_metadata(),
    {
        &self.metadata
    }

    /// The archive, for direct access to its logical files.
    pub fn smoosh(&self) -> (r: &SmooshReader<'a>)
        ensures
            *r == self.archive(),
    {
        &self.smoosh
    }

    /// Reads the named columns, in the order given, into one batch. The
    /// names are names of logical files: a column need not be listed in the
    /// index. Columns of unequal length, and no column at all, are an
    /// `ArrowError`.
    pub fn read_columns(&self, columns: &[&str]) -> (r: Result<RecordBatch, DruidSegmentError>)
        ensures
            match batch_of(
                self.index_model(),
                self.chunk_bytes(),
                Seq::new(columns@.len(), |i: int| columns@[i]@),
            ) {
                Ok(models) => r matches Ok(batch) && batch.holds(models),
                Err(kind) => r matches Err(e) && e.spec_kind() == kind,
            },
    {
        read_batch(&self.smoosh, columns)
    }

    /// Reads every column that the index lists, in index order.
    pub fn read_all(&self) -> (r: Result<RecordBatch, DruidSegmentError>)
        ensures
            match batch_of(
                self.index_model(),
                self.chunk_bytes(),
                names_of(self.spec_metadata().columns@),
            ) {
                Ok(models) => r matches Ok(batch) && batch.holds(models),
                Err(kind) => r matches Err(e) && e.spec_kind() == kind,
            },
    {
        let n = self.metadata.columns.len();
        let mut col_names: Vec<&str> = Vec::with_capacity(n);
        let mut i: usize = 0;
        while i < n
            invariant
                i <= n == self.metadata.columns@.len(),
                col_names@.len() == i,
                forall|j: int| 0 <= j < i ==> (#[trigger] col_names@[j])@ == self.metadata.columns@[j]@,
            decreases n - i,
        {
            col_names.push(self.metadata.columns[i].as_str());
            i = i + 1;
        }
        assert(Seq::new(col_names@.len(), |i: int| col_names@[i]@) =~= names_of(
            self.spec_metadata().columns@,
        ));
        self.read_columns(col_names.as_slice())
    }

    /// The number of rows of the segment: the length of its `__time` column,
    /// which is decoded for the count.
    pub fn num_rows(&self) -> (r: Result<usize, DruidSegmentError>)
        ensures
            match rows_of(self.index_model(), self.chunk_bytes()) {
                Ok(rows) => r == Ok::<usize, DruidSegmentError>(rows as usize) && rows
                    <= usize::MAX,
                Err(kind) => r matches Err(e) && e.spec_kind() == kind,
            },
    {
        count_rows(&self.smoosh)
    }
}

/// Reads one column of an archive: its field and its values.
fn read_one(smoosh: &SmooshReader<'_>, name: &str) -> (r: Result<
    (Field, ColumnData),
    DruidSegmentError,
>)
    ensures
        match column_of(smoosh.index_model(), smoosh.chunk_bytes(), name@) {
            Ok(column) => r matches Ok((field, data)) && field.describes(column) && data.holds(
                column.values,
            ),
            Err(kind) => r matches Err(e) && e.spec_kind() == kind,
        },
{
    let col_data = match smoosh.map_file(name) {
        Ok(data) => data,
        Err(e) => {
            return Err(e);
        },
    };
    let (descriptor, data) = match read_column(name, col_data) {
        Ok(column) => column,
        Err(e) => {
            return Err(e);
        },
    };
    let data_type = druid_type_to_arrow(&descriptor, name);
    Ok((Field { name: name.to_owned(), data_type }, data))
}

/// Reads the named logical files of an archive as columns, in the order
/// given, into one batch. Columns of unequal length, and no column at all,
/// are an `ArrowError`.
pub fn read_batch(smoosh: &SmooshReader<'_>, columns: &[&str]) -> (r: Result<
    RecordBatch,
    DruidSegmentError,
>)
    ensures
        match batch_of(
            smoosh.index_model(),
            smoosh.chunk_bytes(),
            Seq::new(columns@.len(), |i: int| columns@[i]@),
        ) {
            Ok(models) => r matches Ok(batch) && batch.holds(models),
            Err(kind) => r matches Err(e) && e.spec_kind() == kind,
        },
{
    let ghost model = smoosh.index_model();
    let ghost chunks = smoosh.chunk_bytes();
    let ghost names = Seq::new(columns@.len(), |i: int| columns@[i]@);
    let n = columns.len();
    let mut fields: Vec<Field> = Vec::new();
    let mut arrays: Vec<ColumnData> = Vec::new();
    let ghost mut models: Seq<ColumnModel> = Seq::empty();
    let mut k: usize = 0;
    while k < n
        invariant
            k <= n == columns@.len() == names.len(),
            model == smoosh.index_model(),
            chunks == smoosh.chunk_bytes(),
            names == Seq::new(columns@.len(), |i: int| columns@[i]@),
            columns_upto(model, chunks, names, k as nat) == Ok::<Seq<ColumnModel>, ErrorKind>(
                models,
            ),
            models.len() == k == fields@.len() == arrays@.len(),
            forall|i: int| 0 <= i < k ==> (#[trigger] fields@[i]).describes(models[i]),
            forall|i: int| 0 <= i < k ==> (#[trigger] arrays@[i]).holds(models[i].values),
        decreases n - k,
    {
        match read_one(smoosh, columns[k]) {
            Ok((field, data)) => {
                proof {
                    models = models.push(column_of(model, chunks, names[k as int])->Ok_0);
                }
                fields.push(field);
                arrays.push(data);
            },
            Err(e) => {
                proof {
                    lemma_column_refusal_persists(model, chunks, names, (k + 1) as nat, n as nat);
                }
                return Err(e);
            },
        }
        k = k + 1;
    }
    proof {
        assert forall|i: int| 0 <= i < models.len() implies (#[trigger] arrays@[i]).spec_len()
            == models[i].values.len() by {
            lemma_holds_length(arrays@[i], models[i].values);
        }
    }
    let equal = equal_lengths(&arrays);
    proof {
        if equal {
            assert forall|i: int| 0 <= i < models.len() implies (#[trigger] models[i]).values.len()
                == models[0].values.len() by {
                assert(arrays@[i].spec_len() == arrays@[0].spec_len());
            }
        } else if same_length(models) {
            assert forall|i: int| 0 <= i < arrays@.len() implies (#[trigger] arrays@[i]).spec_len()
                == arrays@[0].spec_len() by {
                assert(models[i].values.len() == models[0].values.len());
            }
        }
    }
    if !equal {
        return Err(
            DruidSegmentError::ArrowError(
                "all columns in a record batch must have the same length".to_owned(),
            ),
        );
    }
    Ok(RecordBatch { fields, columns: arrays })
}

/// The number of rows of an archive's segment: the length of its `__time`
/// column, which is decoded for the count.
pub fn count_rows(smoosh: &SmooshReader<'_>) -> (r: Result<usize, DruidSegmentError>)
    ensures
        match rows_of(smoosh.index_model(), smoosh.chunk_bytes()) {
            Ok(rows) => r == Ok::<usize, DruidSegmentError>(rows as usize) && rows <= usize::MAX,
            Err(kind) => r matches Err(e) && e.spec_kind() == kind,
        },
{
    match read_one(smoosh, "__time") {
        Ok((_, data)) => {
            proof {
                lemma_holds_length(
                    data,
                    column_of(smoosh.index_model(), smoosh.chunk_bytes(), "__time"@)->Ok_0.values,
                );
            }
            Ok(data.len())
        },
        Err(e) => Err(e),
    }
}

} // verus!
