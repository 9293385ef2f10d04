//! Column metadata: the driver-facing column description, the model of the
//! protocol's type descriptors, and the fixed mapping to SQL type codes and
//! per-type size tables.

use vstd::prelude::*;

use crate::ascii::{ascii_bytes, bytes_eq, push_bytes, spec_ascii};

verus! {

/// Driver-facing description of one result-set column.
#[derive(PartialEq, Eq, Debug)]
pub struct ColumnInfo {
    /// UTF-8 column name.
    pub name: Vec<u8>,
    pub sql_type: i32,
    pub column_size: i64,
    pub decimal_digits: i32,
    pub nullable: i32,
}

/// Ghost image of a column description.
pub struct ColumnInfoView {
    pub name: Seq<u8>,
    pub sql_type: i32,
    pub column_size: i64,
    pub decimal_digits: i32,
    pub nullable: i32,
}

impl View for ColumnInfo {
    type V = ColumnInfoView;

    open spec fn view(&self) -> ColumnInfoView {
        ColumnInfoView {
            name: self.name@,
            sql_type: self.sql_type,
            column_size: self.column_size,
            decimal_digits: self.decimal_digits,
            nullable: self.nullable,
        }
    }
}

impl Clone for ColumnInfo {
    fn clone(&self) -> (r: Self)
        ensures
            r@ == self@,
    {
        let mut name: Vec<u8> = Vec::new();
        push_bytes(&mut name, self.name.as_slice());
        proof {
            assert(name@ =~= self.name@);
        }
        ColumnInfo {
            name,
            sql_type: self.sql_type,
            column_size: self.column_size,
            decimal_digits: self.decimal_digits,
            nullable: self.nullable,
        }
    }
}

/// The protocol's fixed-length wire types.
#[derive(Clone, Copy, PartialEq, Eq, Structural, Debug)]
pub enum FixedLenKind {
    Null,
    Bit,
    Int1,
    Int2,
    Int4,
    Int8,
    Float4,
    Float8,
    Datetime4,
    Datetime,
    Money4,
    Money,
}

/// The protocol's variable-length wire types.
#[derive(Clone, Copy, PartialEq, Eq, Structural, Debug)]
pub enum VarLenKind {
    Intn,
    Bitn,
    Floatn,
    Guid,
    NVarchar,
    NChar,
    BigVarChar,
    BigChar,
    BigVarBin,
    BigBinary,
    Datetimen,
    Daten,
    Timen,
    Datetime2,
    DatetimeOffsetn,
    Money,
    Text,
    NText,
    Image,
    Xml,
    Other,
}

/// Model of the protocol's type descriptor for one column.
#[derive(Clone, Copy, PartialEq, Eq, Structural, Debug)]
pub enum DataTypeDesc {
    FixedLen(FixedLenKind),
    VarLenSized(VarLenKind, u32),
    VarLenSizedPrecision { precision: u8, scale: u8 },
    Xml,
}

/// Display size of a fixed-length wire type.
pub open spec fn spec_fixed_size(ft: FixedLenKind) -> int {
    match ft {
        FixedLenKind::Null => 0,
        FixedLenKind::Bit => 1,
        FixedLenKind::Int1 => 3,
        FixedLenKind::Int2 => 5,
        FixedLenKind::Int4 => 10,
        FixedLenKind::Int8 => 19,
        FixedLenKind::Float4 => 24,
        FixedLenKind::Float8 => 53,
        FixedLenKind::Datetime4 => 16,
        FixedLenKind::Datetime => 23,
        FixedLenKind::Money4 => 10,
        FixedLenKind::Money => 19,
    }
}

/// Display size of a variable-length wire type with declared length `len`:
/// the standard per-type tables, with 0 meaning unbounded for `max`-declared
/// and LOB types.
pub open spec fn spec_varlen_size(vt: VarLenKind, len: int) -> int {
    match vt {
        VarLenKind::Intn => if len == 1 {
            3
        } else if len == 2 {
            5
        } else if len == 4 {
            10
        } else {
            19
        },
        VarLenKind::Bitn => 1,
        VarLenKind::Floatn => if len == 4 {
            24
        } else {
            53
        },
        VarLenKind::Guid => 36,
        VarLenKind::NVarchar | VarLenKind::NChar => if len > 4000 {
            0
        } else {
            len / 2
        },
        VarLenKind::BigVarChar | VarLenKind::BigChar => if len > 8000 {
            0
        } else {
            len
        },
        VarLenKind::BigVarBin | VarLenKind::BigBinary => if len > 8000 {
            0
        } else {
            len
        },
        VarLenKind::Datetimen => if len == 4 {
            16
        } else {
            23
        },
        VarLenKind::Daten => 10,
        VarLenKind::Timen => 8 + len,
        VarLenKind::Datetime2 => 19 + if len > 0 {
            1 + len
        } else {
            0
        },
        VarLenKind::DatetimeOffsetn => 26 + if len > 0 {
            1 + len
        } else {
            0
        },
        VarLenKind::Money => 19,
        VarLenKind::Text | VarLenKind::NText => 0,
        VarLenKind::Image => 0,
        VarLenKind::Xml => 0,
        VarLenKind::Other => len,
    }
}

/// Size, decimal digits and nullability of a column from its descriptor.
pub open spec fn spec_column_shape(ti: Option<DataTypeDesc>, nullable: Option<bool>) -> (
    int,
    int,
    bool,
) {
    let n = match nullable {
        Some(b) => b,
        None => true,
    };
    match ti {
        Some(DataTypeDesc::FixedLen(ft)) => (spec_fixed_size(ft), 0, n),
        Some(DataTypeDesc::VarLenSized(vt, len)) => (spec_varlen_size(vt, len as int), 0, n),
        Some(
            DataTypeDesc::VarLenSizedPrecision { precision, scale },
        ) => (precision as int, scale as int, n),
        Some(DataTypeDesc::Xml) => (0, 0, n),
        None => (0, 0, true),
    }
}

fn fixed_size(ft: FixedLenKind) -> (r: i64)
    ensures
        r as int == spec_fixed_size(ft),
{
    match ft {
        FixedLenKind::Null => 0,
        FixedLenKind::Bit => 1,
        FixedLenKind::Int1 => 3,
        FixedLenKind::Int2 => 5,
        FixedLenKind::Int4 => 10,
        FixedLenKind::Int8 => 19,
        FixedLenKind::Float4 => 24,
        FixedLenKind::Float8 => 53,
        FixedLenKind::Datetime4 => 16,
        FixedLenKind::Datetime => 23,
        FixedLenKind::Money4 => 10,
        FixedLenKind::Money => 19,
    }
}

fn varlen_size(vt: VarLenKind, len: u32) -> (r: i64)
    ensures
        r as int == spec_varlen_size(vt, len as int),
{
    let l: i64 = len as i64;
    match vt {
        VarLenKind::Intn => if len == 1 {
            3
        } else if len == 2 {
            5
        } else if len == 4 {
            10
        } else {
            19
        },
        VarLenKind::Bitn => 1,
        VarLenKind::Floatn => if len == 4 {
            24
        } else {
            53
        },
        VarLenKind::Guid => 36,
        VarLenKind::NVarchar | VarLenKind::NChar => if l > 4000 {
            0
        } else {
            l / 2
        },
        VarLenKind::BigVarChar | VarLenKind::BigChar => if l > 8000 {
            0
        } else {
            l
        },
        VarLenKind::BigVarBin | VarLenKind::BigBinary => if l > 8000 {
            0
        } else {
            l
        },
        VarLenKind::Datetimen => if len == 4 {
            16
        } else {
            23
        },
        VarLenKind::Daten => 10,
        VarLenKind::Timen => 8 + l,
        VarLenKind::Datetime2 => if l > 0 {
            20 + l
        } else {
            19
        },
        VarLenKind::DatetimeOffsetn => if l > 0 {
            27 + l
        } else {
            26
        },
        VarLenKind::Money => 19,
        VarLenKind::Text | VarLenKind::NText => 0,
        VarLenKind::Image => 0,
        VarLenKind::Xml => 0,
        VarLenKind::Other => l,
    }
}

/// Wire column description handed in by the decode layer: the column name,
/// the wire type's debug name, the type descriptor, and what the metadata
/// said about nullability.
pub struct ColumnDesc {
    pub name: Vec<u8>,
    pub wire_name: Vec<u8>,
    pub type_info: Option<DataTypeDesc>,
    pub nullable: Option<bool>,
}

/// Builds the driver-facing column description from a wire column: the SQL
/// type code comes from the fixed name table, size and digits from the
/// descriptor's size tables, nullability defaulting to nullable.
pub fn column_to_info(c: &ColumnDesc) -> (r: ColumnInfo)
    ensures
        r@.name == c.name@,
        r.sql_type as int == spec_sql_type_code(c.wire_name@),
        ({
            let (size, digits, n) = spec_column_shape(c.type_info, c.nullable);
            &&& r.column_size as int == size
            &&& r.decimal_digits as int == digits
            &&& r.nullable == (if n {
                1int
            } else {
                0int
            })
        }),
{
    let sql_type = column_type_to_sql_type(c.wire_name.as_slice());
    let nullable_flag: bool = match c.nullable {
        Some(b) => b,
        None => true,
    };
    let (column_size, decimal_digits, nullable): (i64, i32, bool) = match &c.type_info {
        Some(DataTypeDesc::FixedLen(ft)) => (fixed_size(*ft), 0, nullable_flag),
        Some(DataTypeDesc::VarLenSized(vt, len)) => (varlen_size(*vt, *len), 0, nullable_flag),
        Some(DataTypeDesc::VarLenSizedPrecision { precision, scale }) => (
            *precision as i64,
            *scale as i32,
            nullable_flag,
        ),
        Some(DataTypeDesc::Xml) => (0, 0, nullable_flag),
        None => (0, 0, true),
    };
    let mut name: Vec<u8> = Vec::new();
    push_bytes(&mut name, c.name.as_slice());
    proof {
        assert(name@ =~= c.name@);
    }
    ColumnInfo {
        name,
        sql_type,
        column_size,
        decimal_digits,
        nullable: if nullable {
            1
        } else {
            0
        },
    }
}

/// The fixed mapping from a wire type's debug name to its integer SQL type
/// code; unknown names map to the variable-character default 12.
pub open spec fn spec_sql_type_code(name: Seq<u8>) -> int {
    if name == spec_ascii("Int4") {
        4
    } else if name == spec_ascii("Int2") {
        5
    } else if name == spec_ascii("Int1") {
        -6
    } else if name == spec_ascii("Int8") || name == spec_ascii("Intn") {
        -5
    } else if name == spec_ascii("Float8") || name == spec_ascii("Floatn") {
        8
    } else if name == spec_ascii("Float4") {
        7
    } else if name == spec_ascii("Bit") || name == spec_ascii("Bitn") {
        -7
    } else if name == spec_ascii("BigVarChar") || name == spec_ascii("NVarchar") {
        -9
    } else if name == spec_ascii("BigChar") || name == spec_ascii("NChar") {
        -8
    } else if name == spec_ascii("Text") {
        -1
    } else if name == spec_ascii("NText") {
        -10
    } else if name == spec_ascii("BigBinary") {
        -2
    } else if name == spec_ascii("BigVarBin") {
        -3
    } else if name == spec_ascii("Image") {
        -4
    } else if name == spec_ascii("Decimaln") || name == spec_ascii("Numericn") || name
        == spec_ascii("Money") || name == spec_ascii("Money4") {
        3
    } else if name == spec_ascii("Datetime") || name == spec_ascii("Datetimen") || name
        == spec_ascii("Datetime4") || name == spec_ascii("Datetime2") {
        93
    } else if name == spec_ascii("Daten") {
        91
    } else if name == spec_ascii("Timen") {
        92
    } else if name == spec_ascii("DatetimeOffsetn") {
        -155
    } else if name == spec_ascii("Guid") {
        -11
    } else if name == spec_ascii("Xml") {
        -152
    } else if name == spec_ascii("SSVariant") {
        -150
    } else {
        12
    }
}

/// Maps a wire type's debug name to its integer SQL type code.
pub fn column_type_to_sql_type(wire_name: &[u8]) -> (r: i32)
    ensures
        r as int == spec_sql_type_code(wire_name@),
{
    proof {
        reveal_strlit("Int4");
        reveal_strlit("Int2");
        reveal_strlit("Int1");
        reveal_strlit("Int8");
        reveal_strlit("Intn");
        reveal_strlit("Float8");
        reveal_strlit("Floatn");
        reveal_strlit("Float4");
        reveal_strlit("Bit");
        reveal_strlit("Bitn");
        reveal_strlit("BigVarChar");
        reveal_strlit("NVarchar");
        reveal_strlit("BigChar");
        reveal_strlit("NChar");
        reveal_strlit("Text");
        reveal_strlit("NText");
        reveal_strlit("BigBinary");
        reveal_strlit("BigVarBin");
        reveal_strlit("Image");
        reveal_strlit("Decimaln");
        reveal_strlit("Numericn");
        reveal_strlit("Money");
        reveal_strlit("Money4");
        reveal_strlit("Datetime");
        reveal_strlit("Datetimen");
        reveal_strlit("Datetime4");
        reveal_strlit("Datetime2");
        reveal_strlit("Daten");
        reveal_strlit("Timen");
        reveal_strlit("DatetimeOffsetn");
        reveal_strlit("Guid");
        reveal_strlit("Xml");
        reveal_strlit("SSVariant");
    }
    if bytes_eq(wire_name, ascii_bytes("Int4").as_slice()) {
        4
    } else if bytes_eq(wire_name, ascii_bytes("Int2").as_slice()) {
        5
    } else if bytes_eq(wire_name, ascii_bytes("Int1").as_slice()) {
        -6
    } else if bytes_eq(wire_name, ascii_bytes("Int8").as_slice()) || bytes_eq(
        wire_name,
        ascii_bytes("Intn").as_slice(),
    ) {
        -5
    } else if bytes_eq(wire_name, ascii_bytes("Float8").as_slice()) || bytes_eq(
        wire_name,
        ascii_bytes("Floatn").as_slice(),
    ) {
        8
    } else if bytes_eq(wire_name, ascii_bytes("Float4").as_slice()) {
        7
    } else if bytes_eq(wire_name, ascii_bytes("Bit").as_slice()) || bytes_eq(
        wire_name,
        ascii_bytes("Bitn").as_slice(),
    ) {
        -7
    } else if bytes_eq(wire_name, ascii_bytes("BigVarChar").as_slice()) || bytes_eq(
        wire_name,
        ascii_bytes("NVarchar").as_slice(),
    ) {
        -9
    } else if bytes_eq(wire_name, ascii_bytes("BigChar").as_slice()) || bytes_eq(
        wire_name,
        ascii_bytes("NChar").as_slice(),
    ) {
        -8
    } else if bytes_eq(wire_name, ascii_bytes("Text").as_slice()) {
        -1
    } else if bytes_eq(wire_name, ascii_bytes("NText").as_slice()) {
        -10
    } else if bytes_eq(wire_name, ascii_bytes("BigBinary").as_slice()) {
        -2
    } else if bytes_eq(wire_name, ascii_bytes("BigVarBin").as_slice()) {
        -3
    } else if bytes_eq(wire_name, ascii_bytes("Image").as_slice()) {
        -4
    } else if bytes_eq(wire_name, ascii_bytes("Decimaln").as_slice()) || bytes_eq(
        wire_name,
        ascii_bytes("Numericn").as_slice(),
    ) || bytes_eq(wire_name, ascii_bytes("Money").as_slice()) || bytes_eq(
        wire_name,
        ascii_bytes("Money4").as_slice(),
    ) {
        3
    } else if bytes_eq(wire_name, ascii_bytes("Datetime").as_slice()) || bytes_eq(
        wire_name,
        ascii_bytes("Datetimen").as_slice(),
    ) || bytes_eq(wire_name, ascii_bytes("Datetime4").as_slice()) || bytes_eq(
        wire_name,
        ascii_bytes("Datetime2").as_slice(),
    ) {
        93
    } else if bytes_eq(wire_name, ascii_bytes("Daten").as_slice()) {
        91
    } else if bytes_eq(wire_name, ascii_bytes("Timen").as_slice()) {
        92
    } else if bytes_eq(wire_name, ascii_bytes("DatetimeOffsetn").as_slice()) {
        -155
    } else if bytes_eq(wire_name, ascii_bytes("Guid").as_slice()) {
        -11
    } else if bytes_eq(wire_name, ascii_bytes("Xml").as_slice()) {
        -152
    } else if bytes_eq(wire_name, ascii_bytes("SSVariant").as_slice()) {
        -150
    } else {
        12
    }
}

} // verus!
