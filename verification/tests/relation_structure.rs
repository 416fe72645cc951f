use videre::pg::relation_structure::{
    constraint_kind_from_catalog, foreign_key_action_from_catalog, generated_from_catalog,
    identity_from_catalog, relation_kind_from_catalog,
};
use videre::types::{ConstraintKind, ForeignKeyAction, GeneratedKind, IdentityKind, RelationKind};

#[test]
fn maps_supported_relation_kinds() {
    assert_eq!(relation_kind_from_catalog("r"), Some(RelationKind::Table));
    assert_eq!(
        relation_kind_from_catalog("p"),
        Some(RelationKind::PartitionedTable)
    );
    assert_eq!(relation_kind_from_catalog("v"), Some(RelationKind::View));
    assert_eq!(
        relation_kind_from_catalog("m"),
        Some(RelationKind::MaterializedView)
    );
    assert_eq!(
        relation_kind_from_catalog("f"),
        Some(RelationKind::ForeignTable)
    );
    assert_eq!(relation_kind_from_catalog("S"), None);
}

#[test]
fn maps_identity_and_generated_states() {
    assert_eq!(identity_from_catalog("a"), Some(IdentityKind::Always));
    assert_eq!(identity_from_catalog("d"), Some(IdentityKind::ByDefault));
    assert_eq!(identity_from_catalog(""), None);
    assert_eq!(generated_from_catalog("s"), Some(GeneratedKind::Stored));
    assert_eq!(generated_from_catalog("v"), Some(GeneratedKind::Virtual));
    assert_eq!(generated_from_catalog(""), None);
}

#[test]
fn maps_supported_constraint_kinds() {
    assert_eq!(
        constraint_kind_from_catalog("p"),
        Some(ConstraintKind::PrimaryKey)
    );
    assert_eq!(
        constraint_kind_from_catalog("u"),
        Some(ConstraintKind::Unique)
    );
    assert_eq!(
        constraint_kind_from_catalog("f"),
        Some(ConstraintKind::ForeignKey)
    );
    assert_eq!(
        constraint_kind_from_catalog("c"),
        Some(ConstraintKind::Check)
    );
    assert_eq!(constraint_kind_from_catalog("x"), None);
}

#[test]
fn maps_foreign_key_actions() {
    assert_eq!(
        foreign_key_action_from_catalog("a"),
        Some(ForeignKeyAction::NoAction)
    );
    assert_eq!(
        foreign_key_action_from_catalog("r"),
        Some(ForeignKeyAction::Restrict)
    );
    assert_eq!(
        foreign_key_action_from_catalog("c"),
        Some(ForeignKeyAction::Cascade)
    );
    assert_eq!(
        foreign_key_action_from_catalog("n"),
        Some(ForeignKeyAction::SetNull)
    );
    assert_eq!(
        foreign_key_action_from_catalog("d"),
        Some(ForeignKeyAction::SetDefault)
    );
    assert_eq!(foreign_key_action_from_catalog("x"), None);
}

use videre::pg::relation_structure::{
    assemble_structure, column_from_catalog, constraint_from_catalog, relation_kind_or_error,
    relation_not_found, CatalogColumn, CatalogConstraint,
};

fn column_row(attnum: i16, name: &str, identity: &str, generated: &str, expr: Option<&str>) -> CatalogColumn {
    CatalogColumn {
        attnum,
        name: name.to_string(),
        data_type: "integer".to_string(),
        nullable: false,
        collation: None,
        expression: expr.map(|s| s.to_string()),
        identity: identity.to_string(),
        generated: generated.to_string(),
        comment: Some("A comment\nwith two lines".to_string()),
    }
}

fn constraint_row(name: &str, contype: &str, cols: &[&str]) -> CatalogConstraint {
    CatalogConstraint {
        name: name.to_string(),
        contype: contype.to_string(),
        definition: format!("DEF {name}"),
        source_columns: cols.iter().map(|s| s.to_string()).collect(),
        target_schema: Some("s".to_string()),
        target_relation: Some("t".to_string()),
        target_columns: vec!["id".to_string()],
        on_update: "c".to_string(),
        on_delete: "n".to_string(),
    }
}

#[test]
fn missing_relation_message_names_it() {
    assert_eq!(
        relation_not_found("public", "gods"),
        "Relation public.gods was not found or is not supported"
    );
    assert_eq!(relation_kind_or_error("v"), Ok(RelationKind::View));
    assert_eq!(
        relation_kind_or_error("S"),
        Err("PostgreSQL returned an unsupported relation kind".to_string())
    );
}

#[test]
fn default_expression_only_for_plain_columns() {
    let plain = column_from_catalog(&column_row(1, "a", "", "", Some("42")));
    assert_eq!(plain.default_expression.as_deref(), Some("42"));
    assert_eq!(plain.generation_expression, None);
    let ident = column_from_catalog(&column_row(2, "b", "a", "", Some("nextval")));
    assert_eq!(ident.identity, Some(IdentityKind::Always));
    assert_eq!(ident.default_expression, None);
    let gen = column_from_catalog(&column_row(3, "c", "", "s", Some("a * 2")));
    assert_eq!(gen.generated, Some(GeneratedKind::Stored));
    assert_eq!(gen.default_expression, None);
    assert_eq!(gen.generation_expression.as_deref(), Some("a * 2"));
    assert_eq!(gen.comment.as_deref(), Some("A comment\nwith two lines"));
}

#[test]
fn only_foreign_keys_keep_targets_and_actions() {
    let fk = constraint_from_catalog(&constraint_row("fk", "f", &["a"])).unwrap();
    assert_eq!(fk.kind, ConstraintKind::ForeignKey);
    assert_eq!(fk.target_relation.as_deref(), Some("t"));
    assert_eq!(fk.on_update, Some(ForeignKeyAction::Cascade));
    assert_eq!(fk.on_delete, Some(ForeignKeyAction::SetNull));
    let pk = constraint_from_catalog(&constraint_row("pk", "p", &["a"])).unwrap();
    assert_eq!(pk.target_relation, None);
    assert!(pk.target_columns.is_empty());
    assert_eq!(pk.on_update, None);
    assert!(constraint_from_catalog(&constraint_row("x", "x", &["a"])).is_none());
}

#[test]
fn composite_keys_attach_to_every_member_with_positions() {
    let columns = vec![
        column_row(1, "tenant", "", "", None),
        column_row(2, "Order ID", "", "", None),
        column_row(3, "label", "", "", None),
    ];
    let constraints = vec![
        constraint_row("pk", "p", &["tenant", "Order ID"]),
        constraint_row("chk", "c", &["label", "tenant"]),
        constraint_row("odd", "x", &["label"]),
        constraint_row("ghost", "u", &["missing"]),
    ];
    let s = assemble_structure(
        "videre_structure_test".to_string(),
        "Quoted Source".to_string(),
        RelationKind::Table,
        &columns,
        &constraints,
    );
    assert_eq!(s.columns.len(), 3);
    let tenant = &s.columns[0];
    assert_eq!(tenant.constraints.len(), 2);
    assert_eq!(tenant.constraints[0].name, "pk");
    assert_eq!(tenant.constraints[0].column_position, Some(1));
    assert_eq!(tenant.constraints[1].name, "chk");
    assert_eq!(tenant.constraints[1].column_position, None);
    let order = &s.columns[1];
    assert_eq!(order.constraints.len(), 1);
    assert_eq!(order.constraints[0].column_position, Some(2));
    let label = &s.columns[2];
    assert_eq!(label.constraints.len(), 1);
    assert_eq!(label.constraints[0].kind, ConstraintKind::Check);
}
