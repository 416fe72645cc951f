//! The structure of a relation: catalog codes mapped to their kinds, catalog
//! rows turned into columns, and each constraint attached to the columns it
//! involves.

use vstd::prelude::*;

use crate::text::str_eq;
use crate::types::{
    copy_opt, copy_strings, opt_view, strings_view, ColumnConstraint, ColumnInfo, ColumnView,
    ConstraintKind, ConstraintView, ForeignKeyAction, GeneratedKind, IdentityKind, RelationKind,
    RelationStructure,
};

verus! {

// ---------------------------------------------------------------------------
// Catalog codes
// ---------------------------------------------------------------------------

/// `pg_class.relkind` for the supported relation kinds.
pub open spec fn relation_kind_spec(value: Seq<char>) -> Option<RelationKind> {
    if value == "r"@ {
        Some(RelationKind::Table)
    } else if value == "p"@ {
        Some(RelationKind::PartitionedTable)
    } else if value == "v"@ {
        Some(RelationKind::View)
    } else if value == "m"@ {
        Some(RelationKind::MaterializedView)
    } else if value == "f"@ {
        Some(RelationKind::ForeignTable)
    } else {
        None
    }
}

/// `pg_attribute.attidentity`.
pub open spec fn identity_spec(value: Seq<char>) -> Option<IdentityKind> {
    if value == "a"@ {
        Some(IdentityKind::Always)
    } else if value == "d"@ {
        Some(IdentityKind::ByDefault)
    } else {
        None
    }
}

/// `pg_attribute.attgenerated`.
pub open spec fn generated_spec(value: Seq<char>) -> Option<GeneratedKind> {
    if value == "s"@ {
        Some(GeneratedKind::Stored)
    } else if value == "v"@ {
        Some(GeneratedKind::Virtual)
    } else {
        None
    }
}

/// `pg_constraint.contype` for the supported constraint kinds.
pub open spec fn constraint_kind_spec(value: Seq<char>) -> Option<ConstraintKind> {
    if value == "p"@ {
        Some(ConstraintKind::PrimaryKey)
    } else if value == "u"@ {
        Some(ConstraintKind::Unique)
    } else if value == "f"@ {
        Some(ConstraintKind::ForeignKey)
    } else if value == "c"@ {
        Some(ConstraintKind::Check)
    } else {
        None
    }
}

/// `pg_constraint.confupdtype` and `confdeltype`.
pub open spec fn foreign_key_action_spec(value: Seq<char>) -> Option<ForeignKeyAction> {
    if value == "a"@ {
        Some(ForeignKeyAction::NoAction)
    } else if value == "r"@ {
        Some(ForeignKeyAction::Restrict)
    } else if value == "c"@ {
        Some(ForeignKeyAction::Cascade)
    } else if value == "n"@ {
        Some(ForeignKeyAction::SetNull)
    } else if value == "d"@ {
        Some(ForeignKeyAction::SetDefault)
    } else {
        None
    }
}

/// The relation kind for a `relkind` code.
pub fn relation_kind_from_catalog(value: &str) -> (r: Option<RelationKind>)
    ensures
        r == relation_kind_spec(value@),
{
    if str_eq(value, "r") {
        Some(RelationKind::Table)
    } else if str_eq(value, "p") {
        Some(RelationKind::PartitionedTable)
    } else if str_eq(value, "v") {
        Some(RelationKind::View)
    } else if str_eq(value, "m") {
        Some(RelationKind::MaterializedView)
    } else if str_eq(value, "f") {
        Some(RelationKind::ForeignTable)
    } else {
        None
    }
}

/// The identity kind for an `attidentity` code.
pub fn identity_from_catalog(value: &str) -> (r: Option<IdentityKind>)
    ensures
        r == identity_spec(value@),
{
    if str_eq(value, "a") {
        Some(IdentityKind::Always)
    } else if str_eq(value, "d") {
        Some(IdentityKind::ByDefault)
    } else {
        None
    }
}

/// The generated kind for an `attgenerated` code.
pub fn generated_from_catalog(value: &str) -> (r: Option<GeneratedKind>)
    ensures
        r == generated_spec(value@),
{
    if str_eq(value, "s") {
        Some(GeneratedKind::Stored)
    } else if str_eq(value, "v") {
        Some(GeneratedKind::Virtual)
    } else {
        None
    }
}

/// The constraint kind for a `contype` code.
pub fn constraint_kind_from_catalog(value: &str) -> (r: Option<ConstraintKind>)
    ensures
        r == constraint_kind_spec(value@),
{
    if str_eq(value, "p") {
        Some(ConstraintKind::PrimaryKey)
    } else if str_eq(value, "u") {
        Some(ConstraintKind::Unique)
    } else if str_eq(value, "f") {
        Some(ConstraintKind::ForeignKey)
    } else if str_eq(value, "c") {
        Some(ConstraintKind::Check)
    } else {
        None
    }
}

/// The foreign-key action for a `confupdtype` or `confdeltype` code.
pub fn foreign_key_action_from_catalog(value: &str) -> (r: Option<ForeignKeyAction>)
    ensures
        r == foreign_key_action_spec(value@),
{
    if str_eq(value, "a") {
        Some(ForeignKeyAction::NoAction)
    } else if str_eq(value, "r") {
        Some(ForeignKeyAction::Restrict)
    } else if str_eq(value, "c") {
        Some(ForeignKeyAction::Cascade)
    } else if str_eq(value, "n") {
        Some(ForeignKeyAction::SetNull)
    } else if str_eq(value, "d") {
        Some(ForeignKeyAction::SetDefault)
    } else {
        None
    }
}

/// The message for a relation that is missing or of an unsupported kind.
pub open spec fn not_found_message(schema: Seq<char>, relation: Seq<char>) -> Seq<char> {
    "Relation "@ + schema + "."@ + relation + " was not found or is not supported"@
}

/// The message for a relation that is missing or of an unsupported kind.
pub fn relation_not_found(schema: &str, relation: &str) -> (r: String)
    ensures
        r@ == not_found_message(schema@, relation@),
{
    let mut r = String::new();
    r.append("Relation ");
    r.append(schema);
    r.append(".");
    r.append(relation);
    r.append(" was not found or is not supported");
    r
}

/// The relation kind for the `relkind` the catalog returned, refused where
/// it is not one of the supported kinds.
pub fn relation_kind_or_error(value: &str) -> (r: Result<RelationKind, String>)
    ensures
        match r {
            Ok(k) => relation_kind_spec(value@) == Some(k),
            Err(e) => relation_kind_spec(value@) is None
                && e@ == "PostgreSQL returned an unsupported relation kind"@,
        },
{
    match relation_kind_from_catalog(value) {
        Some(k) => Ok(k),
        None => {
            let mut e = String::new();
            e.append("PostgreSQL returned an unsupported relation kind");
            Err(e)
        },
    }
}

// ---------------------------------------------------------------------------
// Columns
// ---------------------------------------------------------------------------

/// One row of the column query.
#[derive(Clone, Debug, PartialEq, Eq)]
pub struct CatalogColumn {
    pub attnum: i16,
    pub name: String,
    pub data_type: String,
    pub nullable: bool,
    pub collation: Option<String>,
    pub expression: Option<String>,
    pub identity: String,
    pub generated: String,
    pub comment: Option<String>,
}

/// The column a catalog row describes, with no constraints yet. A default
/// expression is reported only for a column that is neither an identity nor
/// generated; a generated column's expression is its generation expression.
pub open spec fn column_spec(row: CatalogColumn) -> ColumnView {
    let identity = identity_spec(row.identity@);
    let generated = generated_spec(row.generated@);
    ColumnView {
        name: row.name@,
        ordinal_position: row.attnum,
        data_type: row.data_type@,
        nullable: row.nullable,
        collation: opt_view(row.collation),
        default_expression: if identity is None && generated is None {
            opt_view(row.expression)
        } else {
            None
        },
        identity,
        generated,
        generation_expression: if generated is Some {
            opt_view(row.expression)
        } else {
            None
        },
        comment: opt_view(row.comment),
        constraints: Seq::empty(),
    }
}

/// The column a catalog row describes; see [`column_spec`].
pub fn column_from_catalog(row: &CatalogColumn) -> (c: ColumnInfo)
    ensures
        c@ == column_spec(*row),
{
    let identity = identity_from_catalog(row.identity.as_str());
    let generated = generated_from_catalog(row.generated.as_str());
    let c = ColumnInfo {
        name: row.name.clone(),
        ordinal_position: row.attnum,
        data_type: row.data_type.clone(),
        nullable: row.nullable,
        collation: copy_opt(&row.collation),
        default_expression: if identity.is_none() && generated.is_none() {
            copy_opt(&row.expression)
        } else {
            None
        },
        identity,
        generated,
        generation_expression: if generated.is_some() {
            copy_opt(&row.expression)
        } else {
            None
        },
        comment: copy_opt(&row.comment),
        constraints: Vec::new(),
    };
    assert(c@.constraints =~= Seq::<ConstraintView>::empty());
    assert(c@ == column_spec(*row));
    c
}

// ---------------------------------------------------------------------------
// Constraints
// ---------------------------------------------------------------------------

/// One row of the constraint query.
#[derive(Clone, Debug, PartialEq, Eq)]
pub struct CatalogConstraint {
    pub name: String,
    pub contype: String,
    pub definition: String,
    pub source_columns: Vec<String>,
    pub target_schema: Option<String>,
    pub target_relation: Option<String>,
    pub target_columns: Vec<String>,
    pub on_update: String,
    pub on_delete: String,
}

/// The constraint a catalog row describes, before it is attached to a
/// column: `None` for an unsupported kind. Only a foreign key keeps its
/// target and its actions.
pub open spec fn constraint_spec(row: CatalogConstraint) -> Option<ConstraintView> {
    match constraint_kind_spec(row.contype@) {
        None => None,
        Some(kind) => {
            let fk = kind == ConstraintKind::ForeignKey;
            Some(
                ConstraintView {
                    name: row.name@,
                    kind,
                    definition: row.definition@,
                    column_position: None,
                    source_columns: strings_view(row.source_columns),
                    target_schema: if fk {
                        opt_view(row.target_schema)
                    } else {
                        None
                    },
                    target_relation: if fk {
                        opt_view(row.target_relation)
                    } else {
                        None
                    },
                    target_columns: if fk {
                        strings_view(row.target_columns)
                    } else {
                        Seq::empty()
                    },
                    on_update: if fk {
                        foreign_key_action_spec(row.on_update@)
                    } else {
                        None
                    },
                    on_delete: if fk {
                        foreign_key_action_spec(row.on_delete@)
                    } else {
                        None
                    },
                },
            )
        },
    }
}

/// The constraint a catalog row describes; see [`constraint_spec`].
pub fn constraint_from_catalog(row: &CatalogConstraint) -> (r: Option<ColumnConstraint>)
    ensures
        match r {
            Some(c) => constraint_spec(*row) == Some(c@),
            None => constraint_spec(*row) is None,
        },
{
    let kind = match constraint_kind_from_catalog(row.contype.as_str()) {
        Some(k) => k,
        None => {
            return None;
        },
    };
    let fk = kind == ConstraintKind::ForeignKey;
    let c = ColumnConstraint {
        name: row.name.clone(),
        kind,
        definition: row.definition.clone(),
        column_position: None,
        source_columns: copy_strings(&row.source_columns),
        target_schema: if fk {
            copy_opt(&row.target_schema)
        } else {
            None
        },
        target_relation: if fk {
            copy_opt(&row.target_relation)
        } else {
            None
        },
        target_columns: if fk {
            copy_strings(&row.target_columns)
        } else {
            Vec::new()
        },
        on_update: if fk {
            foreign_key_action_from_catalog(row.on_update.as_str())
        } else {
            None
        },
        on_delete: if fk {
            foreign_key_action_from_catalog(row.on_delete.as_str())
        } else {
            None
        },
    };
    assert(c@.target_columns =~= (if fk {
        strings_view(row.target_columns)
    } else {
        Seq::empty()
    }));
    Some(c)
}

/// Whether a constraint of this kind numbers its columns.
pub open spec fn has_column_position(kind: ConstraintKind) -> bool {
    kind == ConstraintKind::PrimaryKey || kind == ConstraintKind::Unique || kind
        == ConstraintKind::ForeignKey
}

/// The position recorded for the source column at `index`: `index + 1` for
/// a kind that numbers its columns, where it fits an `i16`.
pub open spec fn position_for(kind: ConstraintKind, index: int) -> Option<i16> {
    if has_column_position(kind) && index + 1 <= i16::MAX {
        Some((index + 1) as i16)
    } else {
        None
    }
}

/// The index of the first column named `name`.
pub open spec fn first_named(names: Seq<Seq<char>>, name: Seq<char>) -> Option<int>
    decreases names.len(),
{
    if names.len() == 0 {
        None
    } else if names[0] == name {
        Some(0)
    } else {
        match first_named(names.drop_first(), name) {
            Some(i) => Some(i + 1),
            None => None,
        }
    }
}

/// The copies of constraint `base` that column `j` receives from the first
/// `sources.len()` source columns: one for each source column whose first
/// match among `names` is column `j`, in source order.
pub open spec fn attachments(
    base: ConstraintView,
    names: Seq<Seq<char>>,
    j: int,
    sources: Seq<Seq<char>>,
) -> Seq<ConstraintView>
    decreases sources.len(),
{
    if sources.len() == 0 {
        Seq::empty()
    } else {
        let k = sources.len() - 1;
        attachments(base, names, j, sources.drop_last()) + if first_named(names, sources[k])
            == Some(j) {
            seq![ConstraintView { column_position: position_for(base.kind, k), ..base }]
        } else {
            Seq::empty()
        }
    }
}

/// Everything column `j` receives from the constraint rows, row by row.
pub open spec fn all_attachments(
    rows: Seq<CatalogConstraint>,
    names: Seq<Seq<char>>,
    j: int,
) -> Seq<ConstraintView>
    decreases rows.len(),
{
    if rows.len() == 0 {
        Seq::empty()
    } else {
        all_attachments(rows.drop_last(), names, j) + match constraint_spec(rows.last()) {
            Some(base) => attachments(base, names, j, base.source_columns),
            None => Seq::empty(),
        }
    }
}

/// Each copy of a constraint is the constraint itself, with the position of
/// the source column it was attached for.
proof fn lemma_attachments_shape(
    base: ConstraintView,
    names: Seq<Seq<char>>,
    j: int,
    sources: Seq<Seq<char>>,
)
    ensures
        forall|i: int|
            0 <= i < attachments(base, names, j, sources).len() ==> exists|k: int|
                0 <= k < sources.len() && first_named(names, sources[k]) == Some(j)
                    && #[trigger] attachments(base, names, j, sources)[i] == (ConstraintView {
                    column_position: position_for(base.kind, k),
                    ..base
                }),
        forall|k: int|
            0 <= k < sources.len() && first_named(names, #[trigger] sources[k]) == Some(j)
                ==> attachments(base, names, j, sources).contains(
                (ConstraintView { column_position: position_for(base.kind, k), ..base }),
            ),
    decreases sources.len(),
{
    if sources.len() > 0 {
        let n = sources.len() - 1;
        let rest = sources.drop_last();
        lemma_attachments_shape(base, names, j, rest);
        let a = attachments(base, names, j, rest);
        let all = attachments(base, names, j, sources);
        let copy = ConstraintView { column_position: position_for(base.kind, n), ..base };
        assert forall|i: int| 0 <= i < all.len() implies exists|k: int|
            0 <= k < sources.len() && first_named(names, sources[k]) == Some(j)
                && #[trigger] all[i] == (ConstraintView {
                column_position: position_for(base.kind, k),
                ..base
            }) by {
            if i < a.len() {
                assert(all[i] == a[i]);
                let k = choose|k: int|
                    0 <= k < rest.len() && first_named(names, rest[k]) == Some(j) && #[trigger] a[i]
                        == (ConstraintView { column_position: position_for(base.kind, k), ..base });
                assert(rest[k] == sources[k]);
            } else {
                assert(all[i] == copy);
            }
        }
        assert forall|k: int|
            0 <= k < sources.len() && first_named(names, #[trigger] sources[k]) == Some(j)
                implies all.contains(
                (ConstraintView { column_position: position_for(base.kind, k), ..base }),
            ) by {
            if k < n {
                assert(rest[k] == sources[k]);
                let x = ConstraintView { column_position: position_for(base.kind, k), ..base };
                assert(a.contains(x));
                let i = choose|i: int| 0 <= i < a.len() && a[i] == x;
                assert(all[i] == x);
            } else {
                assert(all[a.len() as int] == copy);
            }
        }
    }
}

/// A constraint that numbers its columns (primary key, unique, foreign key)
/// is attached to each of its source columns with that column's 1-based
/// position among them; a check constraint records no position. Every copy
/// is otherwise the constraint as read.
pub proof fn law_attached_positions(
    base: ConstraintView,
    names: Seq<Seq<char>>,
    j: int,
    sources: Seq<Seq<char>>,
)
    requires
        sources.len() <= i16::MAX,
    ensures
        base.kind == ConstraintKind::PrimaryKey || base.kind == ConstraintKind::Unique
            || base.kind == ConstraintKind::ForeignKey ==> forall|k: int|
            0 <= k < sources.len() && first_named(names, #[trigger] sources[k]) == Some(j)
                ==> attachments(base, names, j, sources).contains(
                (ConstraintView { column_position: Some((k + 1) as i16), ..base }),
            ),
        base.kind == ConstraintKind::PrimaryKey || base.kind == ConstraintKind::Unique
            || base.kind == ConstraintKind::ForeignKey ==> forall|i: int|
            0 <= i < attachments(base, names, j, sources).len() ==> exists|k: int|
                0 <= k < sources.len() && first_named(names, sources[k]) == Some(j)
                    && #[trigger] attachments(base, names, j, sources)[i] == (ConstraintView {
                    column_position: Some((k + 1) as i16),
                    ..base
                }),
        base.kind == ConstraintKind::Check ==> forall|i: int|
            0 <= i < attachments(base, names, j, sources).len() ==> #[trigger] attachments(
                base,
                names,
                j,
                sources,
            )[i] == (ConstraintView { column_position: None, ..base }),
{
    lemma_attachments_shape(base, names, j, sources);
}

/// The names of a list of columns.
pub open spec fn column_names(columns: Seq<ColumnInfo>) -> Seq<Seq<char>> {
    columns.map_values(|c: ColumnInfo| c.name@)
}

/// The index of the first column named `name`.
fn find_column(columns: &Vec<ColumnInfo>, name: &String) -> (r: Option<usize>)
    ensures
        match r {
            Some(j) => first_named(column_names(columns@), name@) == Some(j as int) && j
                < columns@.len(),
            None => first_named(column_names(columns@), name@) is None,
        },
{
    let ghost names = column_names(columns@);
    let mut i: usize = 0;
    while i < columns.len()
        invariant
            i <= columns@.len(),
            names == column_names(columns@),
            forall|k: int| 0 <= k < i ==> names[k] != name@,
        decreases columns@.len() - i,
    {
        if str_eq(columns[i].name.as_str(), name.as_str()) {
            proof {
                lemma_first_named_at(names, name@, i as int);
            }
            return Some(i);
        }
        i = i + 1;
    }
    proof {
        lemma_first_named_none(names, name@);
    }
    None
}

proof fn lemma_first_named_at(names: Seq<Seq<char>>, name: Seq<char>, i: int)
    requires
        0 <= i < names.len(),
        names[i] == name,
        forall|k: int| 0 <= k < i ==> names[k] != name,
    ensures
        first_named(names, name) == Some(i),
    decreases i,
{
    if i > 0 {
        lemma_first_named_at(names.drop_first(), name, i - 1);
    }
}

proof fn lemma_first_named_none(names: Seq<Seq<char>>, name: Seq<char>)
    requires
        forall|k: int| 0 <= k < names.len() ==> names[k] != name,
    ensures
        first_named(names, name) is None,
    decreases names.len(),
{
    if names.len() > 0 {
        lemma_first_named_none(names.drop_first(), name);
    }
}

/// Attaches each supported constraint to every column among its source
/// columns, in row order and then source order. A column receives a copy
/// that records its position within the key, for the kinds that number
/// their columns. Nothing else about the columns changes.
pub fn attach_constraints(columns: &mut Vec<ColumnInfo>, rows: &Vec<CatalogConstraint>)
    ensures
        final(columns)@.len() == old(columns)@.len(),
        forall|j: int|
            0 <= j < old(columns)@.len() ==> (#[trigger] final(columns)@[j])@ == (ColumnView {
                constraints: old(columns)@[j]@.constraints + all_attachments(
                    rows@,
                    column_names(old(columns)@),
                    j,
                ),
                ..old(columns)@[j]@
            }),
{
    let ghost start = columns@;
    let ghost names = column_names(columns@);
    let mut i: usize = 0;
    while i < rows.len()
        invariant
            i <= rows@.len(),
            columns@.len() == start.len(),
            names == column_names(start),
            column_names(columns@) == names,
            forall|j: int|
                0 <= j < start.len() ==> (#[trigger] columns@[j])@ == (ColumnView {
                    constraints: start[j]@.constraints + all_attachments(
                        rows@.take(i as int),
                        names,
                        j,
                    ),
                    ..start[j]@
                }),
        decreases rows@.len() - i,
    {
        proof {
            assert(rows@.take(i + 1).drop_last() =~= rows@.take(i as int));
        }
        match constraint_from_catalog(&rows[i]) {
            None => {
                assert forall|j: int| 0 <= j < start.len() implies (#[trigger] columns@[j])@
                    == (ColumnView {
                    constraints: start[j]@.constraints + all_attachments(
                        rows@.take(i + 1),
                        names,
                        j,
                    ),
                    ..start[j]@
                }) by {
                    assert(all_attachments(rows@.take(i + 1), names, j) =~= all_attachments(
                        rows@.take(i as int),
                        names,
                        j,
                    ));
                }
            },
            Some(base) => {
                let ghost before = columns@;
                let mut k: usize = 0;
                while k < base.source_columns.len()
                    invariant
                        k <= base.source_columns@.len(),
                        columns@.len() == start.len(),
                        column_names(columns@) == names,
                        names == column_names(start),
                        forall|j: int|
                            0 <= j < start.len() ==> (#[trigger] columns@[j])@ == (ColumnView {
                                constraints: before[j]@.constraints + attachments(
                                    base@,
                                    names,
                                    j,
                                    base@.source_columns.take(k as int),
                                ),
                                ..before[j]@
                            }),
                    decreases base.source_columns@.len() - k,
                {
                    let ghost prev = columns@;
                    proof {
                        assert(base@.source_columns.take(k + 1).drop_last() =~= base@.source_columns.take(
                            k as int,
                        ));
                        assert(base@.source_columns[k as int] == base.source_columns@[k as int]@);
                    }
                    match find_column(columns, &base.source_columns[k]) {
                        Some(idx) => {
                            let position: Option<i16> = if base.kind == ConstraintKind::PrimaryKey
                                || base.kind == ConstraintKind::Unique || base.kind
                                == ConstraintKind::ForeignKey {
                                if k < 32767 {
                                    Some((k + 1) as i16)
                                } else {
                                    None
                                }
                            } else {
                                None
                            };
                            let attached = base.with_position(position);
                            columns[idx].constraints.push(attached);
                            proof {
                                assert forall|j: int| 0 <= j < start.len() implies (
                                #[trigger] columns@[j])@ == (ColumnView {
                                    constraints: before[j]@.constraints + attachments(
                                        base@,
                                        names,
                                        j,
                                        base@.source_columns.take(k + 1),
                                    ),
                                    ..before[j]@
                                }) by {
                                    let src = base@.source_columns;
                                    assert(src.take(k + 1)[k as int] == src[k as int]);
                                    assert(first_named(names, src[k as int]) == Some(idx as int));
                                    if j == idx {
                                        assert(attachments(base@, names, j, src.take(k + 1))
                                            == attachments(base@, names, j, src.take(k as int))
                                            + seq![ConstraintView { column_position: position_for(base@.kind, k as int), ..base@ }]);
                                        assert(columns@[j].constraints@ == prev[j].constraints@.push(
                                            attached,
                                        ));
                                        assert(columns@[j]@.constraints =~= prev[j]@.constraints.push(
                                            attached@,
                                        ));
                                        assert(columns@[j]@.constraints =~= before[j]@.constraints
                                            + attachments(base@, names, j, src.take(k + 1)));
                                    } else {
                                        assert(attachments(base@, names, j, src.take(k + 1))
                                            =~= attachments(base@, names, j, src.take(k as int)));
                                        assert(columns@[j] == prev[j]);
                                    }
                                }
                                assert(column_names(columns@) =~= column_names(prev));
                            }
                        },
                        None => {
                            assert forall|j: int| 0 <= j < start.len() implies (
                            #[trigger] columns@[j])@ == (ColumnView {
                                constraints: before[j]@.constraints + attachments(
                                    base@,
                                    names,
                                    j,
                                    base@.source_columns.take(k + 1),
                                ),
                                ..before[j]@
                            }) by {
                                assert(attachments(
                                    base@,
                                    names,
                                    j,
                                    base@.source_columns.take(k + 1),
                                ) =~= attachments(
                                    base@,
                                    names,
                                    j,
                                    base@.source_columns.take(k as int),
                                ));
                            }
                        },
                    }
                    k = k + 1;
                }
                assert forall|j: int| 0 <= j < start.len() implies (#[trigger] columns@[j])@
                    == (ColumnView {
                    constraints: start[j]@.constraints + all_attachments(
                        rows@.take(i + 1),
                        names,
                        j,
                    ),
                    ..start[j]@
                }) by {
                    assert(base@.source_columns.take(base@.source_columns.len() as int)
                        =~= base@.source_columns);
                    assert(rows@.take(i + 1).last() == rows@[i as int]);
                    assert(start[j]@.constraints + all_attachments(rows@.take(i + 1), names, j)
                        =~= before[j]@.constraints + attachments(
                        base@,
                        names,
                        j,
                        base@.source_columns,
                    ));
                }
            },
        }
        i = i + 1;
    }
    assert(rows@.take(rows@.len() as int) =~= rows@);
}

/// The structure of a relation from its catalog rows: the columns in
/// attribute order, each carrying the constraints that involve it.
pub fn assemble_structure(
    schema: String,
    relation: String,
    relation_kind: RelationKind,
    column_rows: &Vec<CatalogColumn>,
    constraint_rows: &Vec<CatalogConstraint>,
) -> (r: RelationStructure)
    ensures
        r.schema@ == schema@,
        r.relation@ == relation@,
        r.relation_kind == relation_kind,
        r.columns@.len() == column_rows@.len(),
        forall|j: int|
            0 <= j < column_rows@.len() ==> (#[trigger] r.columns@[j])@ == (ColumnView {
                constraints: all_attachments(
                    constraint_rows@,
                    column_rows@.map_values(|c: CatalogColumn| c.name@),
                    j,
                ),
                ..column_spec(column_rows@[j])
            }),
{
    let mut columns: Vec<ColumnInfo> = Vec::new();
    let mut i: usize = 0;
    while i < column_rows.len()
        invariant
            i <= column_rows@.len(),
            columns@.len() == i,
            forall|j: int| 0 <= j < i ==> (#[trigger] columns@[j])@ == column_spec(column_rows@[j]),
        decreases column_rows@.len() - i,
    {
        columns.push(column_from_catalog(&column_rows[i]));
        i = i + 1;
    }
    let ghost names = column_names(columns@);
    assert(names =~= column_rows@.map_values(|c: CatalogColumn| c.name@));
    attach_constraints(&mut columns, constraint_rows);
    proof {
        assert forall|j: int| 0 <= j < column_rows@.len() implies (#[trigger] columns@[j])@ == (
        ColumnView {
            constraints: all_attachments(
                constraint_rows@,
                column_rows@.map_values(|c: CatalogColumn| c.name@),
                j,
            ),
            ..column_spec(column_rows@[j])
        }) by {
            assert(Seq::<ConstraintView>::empty() + all_attachments(constraint_rows@, names, j)
                =~= all_attachments(constraint_rows@, names, j));
        }
    }
    RelationStructure { schema, relation, relation_kind, columns }
}

} // verus!
