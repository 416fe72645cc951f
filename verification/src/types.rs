//! What crosses the boundary between the database side and the user
//! interface: connection settings, catalog listings, pages of rows, and the
//! structure of a relation.

use vstd::prelude::*;

use crate::json::JsonValue;

verus! {

/// Where and as whom to connect.
#[derive(Clone, Debug, PartialEq, Eq)]
pub struct ConnectionConfig {
    pub host: String,
    pub port: String,
    pub database: String,
    pub username: String,
    pub password: String,
}

/// The outcome of a connection attempt, reported in-band.
#[derive(Clone, Debug, PartialEq, Eq)]
pub struct ConnectionResult {
    pub success: bool,
    pub message: String,
}

/// A table or view, by name and schema.
#[derive(Clone, Debug, PartialEq, Eq)]
pub struct TableInfo {
    pub name: String,
    pub schema: String,
}

/// One column of a foreign key and the column it references.
#[derive(Clone, Debug, PartialEq, Eq)]
pub struct ForeignKeyInfo {
    pub column_name: String,
    pub foreign_table_schema: String,
    pub foreign_table_name: String,
    pub foreign_column_name: String,
}

/// An index of a table.
#[derive(Clone, Debug, PartialEq, Eq)]
pub struct IndexInfo {
    pub index_name: String,
    pub table_schema: String,
    pub table_name: String,
    pub columns: Vec<String>,
    pub is_unique: bool,
    pub is_primary: bool,
    pub index_type: String,
    pub size_bytes: i64,
}

/// A database role.
#[derive(Clone, Debug, PartialEq, Eq)]
pub struct RoleInfo {
    pub role_name: String,
    pub is_superuser: bool,
    pub can_login: bool,
    pub can_create_db: bool,
    pub can_create_role: bool,
    pub connection_limit: i32,
    pub valid_until: Option<String>,
    pub member_of: Vec<String>,
}

/// The privileges a role holds on one table.
#[derive(Clone, Debug, PartialEq, Eq)]
pub struct TablePrivilege {
    pub grantee: String,
    pub table_schema: String,
    pub table_name: String,
    pub privileges: Vec<String>,
}

/// A sort direction.
#[derive(Clone, Copy, Debug, PartialEq, Eq, Structural)]
pub enum SortDirection {
    Asc,
    Desc,
}

impl SortDirection {
    /// Whether the direction is descending.
    pub fn is_descending(self) -> (r: bool)
        ensures
            r == (self == SortDirection::Desc),
    {
        matches!(self, SortDirection::Desc)
    }
}

impl Default for SortDirection {
    /// Ascending.
    fn default() -> (r: SortDirection)
        ensures
            r == SortDirection::Asc,
    {
        SortDirection::Asc
    }
}

/// A column to sort by and the direction.
#[derive(Clone, Debug, PartialEq, Eq)]
pub struct SortSpec {
    pub column: String,
    pub direction: SortDirection,
}

/// The model of a [`SortSpec`].
pub ghost struct SortView {
    pub column: Seq<char>,
    pub direction: SortDirection,
}

impl View for SortSpec {
    type V = SortView;

    open spec fn view(&self) -> SortView {
        SortView { column: self.column@, direction: self.direction }
    }
}

impl SortSpec {
    /// An independent copy.
    pub fn copy(&self) -> (r: SortSpec)
        ensures
            r@ == self@,
    {
        SortSpec { column: self.column.clone(), direction: self.direction }
    }
}

/// A page of rows.
#[derive(Clone, Debug, PartialEq, Eq)]
pub struct TableData {
    pub columns: Vec<String>,
    pub rows: Vec<Vec<JsonValue>>,
    pub total_rows: i64,
}

/// One row, with its column names.
#[derive(Clone, Debug, PartialEq, Eq)]
pub struct RowData {
    pub columns: Vec<String>,
    pub values: Vec<JsonValue>,
}

/// The kind of a relation.
#[derive(Clone, Copy, Debug, PartialEq, Eq, Structural)]
pub enum RelationKind {
    Table,
    PartitionedTable,
    View,
    MaterializedView,
    ForeignTable,
}

/// How an identity column generates its values.
#[derive(Clone, Copy, Debug, PartialEq, Eq, Structural)]
pub enum IdentityKind {
    Always,
    ByDefault,
}

/// How a generated column is stored.
#[derive(Clone, Copy, Debug, PartialEq, Eq, Structural)]
pub enum GeneratedKind {
    Stored,
    Virtual,
}

/// The kind of a constraint.
#[derive(Clone, Copy, Debug, PartialEq, Eq, Structural)]
pub enum ConstraintKind {
    PrimaryKey,
    Unique,
    ForeignKey,
    Check,
}

/// What a foreign key does when the referenced row changes.
#[derive(Clone, Copy, Debug, PartialEq, Eq, Structural)]
pub enum ForeignKeyAction {
    NoAction,
    Restrict,
    Cascade,
    SetNull,
    SetDefault,
}

/// A constraint, as it applies to one of its columns.
#[derive(Clone, Debug, PartialEq, Eq)]
pub struct ColumnConstraint {
    pub name: String,
    pub kind: ConstraintKind,
    pub definition: String,
    /// The column's 1-based position within the constraint's key, for
    /// primary keys, unique constraints and foreign keys.
    pub column_position: Option<i16>,
    pub source_columns: Vec<String>,
    pub target_schema: Option<String>,
    pub target_relation: Option<String>,
    pub target_columns: Vec<String>,
    pub on_update: Option<ForeignKeyAction>,
    pub on_delete: Option<ForeignKeyAction>,
}

/// A column of a relation, with the constraints that involve it.
#[derive(Clone, Debug, PartialEq, Eq)]
pub struct ColumnInfo {
    pub name: String,
    pub ordinal_position: i16,
    pub data_type: String,
    pub nullable: bool,
    pub collation: Option<String>,
    pub default_expression: Option<String>,
    pub identity: Option<IdentityKind>,
    pub generated: Option<GeneratedKind>,
    pub generation_expression: Option<String>,
    pub comment: Option<String>,
    pub constraints: Vec<ColumnConstraint>,
}

/// A relation and all of its visible columns.
#[derive(Clone, Debug, PartialEq, Eq)]
pub struct RelationStructure {
    pub schema: String,
    pub relation: String,
    pub relation_kind: RelationKind,
    pub columns: Vec<ColumnInfo>,
}

/// The view of an optional string.
pub open spec fn opt_view(o: Option<String>) -> Option<Seq<char>> {
    match o {
        Some(s) => Some(s@),
        None => None,
    }
}

/// The views of a vector of strings.
pub open spec fn strings_view(v: Vec<String>) -> Seq<Seq<char>> {
    v@.map_values(|s: String| s@)
}

/// The model of a [`ColumnConstraint`].
pub ghost struct ConstraintView {
    pub name: Seq<char>,
    pub kind: ConstraintKind,
    pub definition: Seq<char>,
    pub column_position: Option<i16>,
    pub source_columns: Seq<Seq<char>>,
    pub target_schema: Option<Seq<char>>,
    pub target_relation: Option<Seq<char>>,
    pub target_columns: Seq<Seq<char>>,
    pub on_update: Option<ForeignKeyAction>,
    pub on_delete: Option<ForeignKeyAction>,
}

impl View for ColumnConstraint {
    type V = ConstraintView;

    open spec fn view(&self) -> ConstraintView {
        ConstraintView {
            name: self.name@,
            kind: self.kind,
            definition: self.definition@,
            column_position: self.column_position,
            source_columns: strings_view(self.source_columns),
            target_schema: opt_view(self.target_schema),
            target_relation: opt_view(self.target_relation),
            target_columns: strings_view(self.target_columns),
            on_update: self.on_update,
            on_delete: self.on_delete,
        }
    }
}

/// The model of a [`ColumnInfo`].
pub ghost struct ColumnView {
    pub name: Seq<char>,
    pub ordinal_position: i16,
    pub data_type: Seq<char>,
    pub nullable: bool,
    pub collation: Option<Seq<char>>,
    pub default_expression: Option<Seq<char>>,
    pub identity: Option<IdentityKind>,
    pub generated: Option<GeneratedKind>,
    pub generation_expression: Option<Seq<char>>,
    pub comment: Option<Seq<char>>,
    pub constraints: Seq<ConstraintView>,
}

impl View for ColumnInfo {
    type V = ColumnView;

    open spec fn view(&self) -> ColumnView {
        ColumnView {
            name: self.name@,
            ordinal_position: self.ordinal_position,
            data_type: self.data_type@,
            nullable: self.nullable,
            collation: opt_view(self.collation),
            default_expression: opt_view(self.default_expression),
            identity: self.identity,
            generated: self.generated,
            generation_expression: opt_view(self.generation_expression),
            comment: opt_view(self.comment),
            constraints: self.constraints@.map_values(|c: ColumnConstraint| c@),
        }
    }
}

/// A copy of an optional string.
pub fn copy_opt(o: &Option<String>) -> (r: Option<String>)
    ensures
        opt_view(r) == opt_view(*o),
{
    match o {
        Some(s) => Some(s.clone()),
        None => None,
    }
}

/// A copy of a vector of strings.
pub fn copy_strings(v: &Vec<String>) -> (r: Vec<String>)
    ensures
        strings_view(r) == strings_view(*v),
{
    let mut r: Vec<String> = Vec::new();
    let mut i: usize = 0;
    while i < v.len()
        invariant
            i <= v@.len(),
            r@.len() == i,
            forall|j: int| 0 <= j < i ==> (#[trigger] r@[j])@ == v@[j]@,
        decreases v@.len() - i,
    {
        r.push(v[i].clone());
        i = i + 1;
    }
    assert(strings_view(r) =~= strings_view(*v));
    r
}

impl ColumnConstraint {
    /// A copy of the constraint with the given column position.
    pub fn with_position(&self, column_position: Option<i16>) -> (r: ColumnConstraint)
        ensures
            r@ == (ConstraintView { column_position, ..self@ }),
    {
        ColumnConstraint {
            name: self.name.clone(),
            kind: self.kind,
            definition: self.definition.clone(),
            column_position,
            source_columns: copy_strings(&self.source_columns),
            target_schema: copy_opt(&self.target_schema),
            target_relation: copy_opt(&self.target_relation),
            target_columns: copy_strings(&self.target_columns),
            on_update: self.on_update,
            on_delete: self.on_delete,
        }
    }
}

/// The model of a [`TableInfo`].
pub ghost struct TableView {
    pub name: Seq<char>,
    pub schema: Seq<char>,
}

impl View for TableInfo {
    type V = TableView;

    open spec fn view(&self) -> TableView {
        TableView { name: self.name@, schema: self.schema@ }
    }
}

impl TableInfo {
    /// An independent copy.
    pub fn copy(&self) -> (r: TableInfo)
        ensures
            r@ == self@,
    {
        TableInfo { name: self.name.clone(), schema: self.schema.clone() }
    }
}

/// The model of a [`ForeignKeyInfo`].
pub ghost struct ForeignKeyView {
    pub column_name: Seq<char>,
    pub foreign_table_schema: Seq<char>,
    pub foreign_table_name: Seq<char>,
    pub foreign_column_name: Seq<char>,
}

impl View for ForeignKeyInfo {
    type V = ForeignKeyView;

    open spec fn view(&self) -> ForeignKeyView {
        ForeignKeyView {
            column_name: self.column_name@,
            foreign_table_schema: self.foreign_table_schema@,
            foreign_table_name: self.foreign_table_name@,
            foreign_column_name: self.foreign_column_name@,
        }
    }
}

impl ForeignKeyInfo {
    /// An independent copy.
    pub fn copy(&self) -> (r: ForeignKeyInfo)
        ensures
            r@ == self@,
    {
        ForeignKeyInfo {
            column_name: self.column_name.clone(),
            foreign_table_schema: self.foreign_table_schema.clone(),
            foreign_table_name: self.foreign_table_name.clone(),
            foreign_column_name: self.foreign_column_name.clone(),
        }
    }
}

/// The model of an [`IndexInfo`].
pub ghost struct IndexView {
    pub index_name: Seq<char>,
    pub table_schema: Seq<char>,
    pub table_name: Seq<char>,
    pub columns: Seq<Seq<char>>,
    pub is_unique: bool,
    pub is_primary: bool,
    pub index_type: Seq<char>,
    pub size_bytes: i64,
}

impl View for IndexInfo {
    type V = IndexView;

    open spec fn view(&self) -> IndexView {
        IndexView {
            index_name: self.index_name@,
            table_schema: self.table_schema@,
            table_name: self.table_name@,
            columns: strings_view(self.columns),
            is_unique: self.is_unique,
            is_primary: self.is_primary,
            index_type: self.index_type@,
            size_bytes: self.size_bytes,
        }
    }
}

impl IndexInfo {
    /// An independent copy.
    pub fn copy(&self) -> (r: IndexInfo)
        ensures
            r@ == self@,
    {
        IndexInfo {
            index_name: self.index_name.clone(),
            table_schema: self.table_schema.clone(),
            table_name: self.table_name.clone(),
            columns: copy_strings(&self.columns),
            is_unique: self.is_unique,
            is_primary: self.is_primary,
            index_type: self.index_type.clone(),
            size_bytes: self.size_bytes,
        }
    }
}

/// The model of a [`RoleInfo`].
pub ghost struct RoleView {
    pub role_name: Seq<char>,
    pub is_superuser: bool,
    pub can_login: bool,
    pub can_create_db: bool,
    pub can_create_role: bool,
    pub connection_limit: i32,
    pub valid_until: Option<Seq<char>>,
    pub member_of: Seq<Seq<char>>,
}

impl View for RoleInfo {
    type V = RoleView;

    open spec fn view(&self) -> RoleView {
        RoleView {
            role_name: self.role_name@,
            is_superuser: self.is_superuser,
            can_login: self.can_login,
            can_create_db: self.can_create_db,
            can_create_role: self.can_create_role,
            connection_limit: self.connection_limit,
            valid_until: opt_view(self.valid_until),
            member_of: strings_view(self.member_of),
        }
    }
}

impl RoleInfo {
    /// An independent copy.
    pub fn copy(&self) -> (r: RoleInfo)
        ensures
            r@ == self@,
    {
        RoleInfo {
            role_name: self.role_name.clone(),
            is_superuser: self.is_superuser,
            can_login: self.can_login,
            can_create_db: self.can_create_db,
            can_create_role: self.can_create_role,
            connection_limit: self.connection_limit,
            valid_until: copy_opt(&self.valid_until),
            member_of: copy_strings(&self.member_of),
        }
    }
}

/// The model of a [`TablePrivilege`].
pub ghost struct PrivilegeView {
    pub grantee: Seq<char>,
    pub table_schema: Seq<char>,
    pub table_name: Seq<char>,
    pub privileges: Seq<Seq<char>>,
}

impl View for TablePrivilege {
    type V = PrivilegeView;

    open spec fn view(&self) -> PrivilegeView {
        PrivilegeView {
            grantee: self.grantee@,
            table_schema: self.table_schema@,
            table_name: self.table_name@,
            privileges: strings_view(self.privileges),
        }
    }
}

impl TablePrivilege {
    /// An independent copy.
    pub fn copy(&self) -> (r: TablePrivilege)
        ensures
            r@ == self@,
    {
        TablePrivilege {
            grantee: self.grantee.clone(),
            table_schema: self.table_schema.clone(),
            table_name: self.table_name.clone(),
            privileges: copy_strings(&self.privileges),
        }
    }
}

/// Values that can be copied with their model kept.
pub trait Duplicate: View + Sized {
    /// An independent copy.
    fn duplicate(&self) -> (r: Self)
        ensures
            r@ == self@,
    ;
}

impl Duplicate for TableInfo {
    fn duplicate(&self) -> (r: Self) {
        self.copy()
    }
}

impl Duplicate for ForeignKeyInfo {
    fn duplicate(&self) -> (r: Self) {
        self.copy()
    }
}

impl Duplicate for IndexInfo {
    fn duplicate(&self) -> (r: Self) {
        self.copy()
    }
}

impl Duplicate for RoleInfo {
    fn duplicate(&self) -> (r: Self) {
        self.copy()
    }
}

impl Duplicate for TablePrivilege {
    fn duplicate(&self) -> (r: Self) {
        self.copy()
    }
}

/// The models of a list.
pub open spec fn views<T: View>(v: Seq<T>) -> Seq<T::V> {
    v.map_values(|x: T| x@)
}

/// A copy of a list.
pub fn copy_all<T: Duplicate>(v: &Vec<T>) -> (r: Vec<T>)
    ensures
        views(r@) == views(v@),
{
    let mut r: Vec<T> = Vec::new();
    let mut i: usize = 0;
    while i < v.len()
        invariant
            i <= v@.len(),
            r@.len() == i,
            forall|j: int| 0 <= j < i ==> (#[trigger] r@[j])@ == v@[j]@,
        decreases v@.len() - i,
    {
        r.push(v[i].duplicate());
        i = i + 1;
    }
    assert(views(r@) =~= views(v@));
    r
}

} // verus!
