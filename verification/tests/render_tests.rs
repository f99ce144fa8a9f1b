use query_core::render::{
    parse_fragment, process_template, render_preview_features, render_test_datamodel,
    template_well_formed, ConnectorVersion, DatamodelFragment, IdFragment, M2mFragment,
    MySqlVersion, PlainRenderer, TestConfig,
};

fn strings(items: &[&str]) -> Vec<String> {
    items.iter().map(|s| String::from(*s)).collect()
}

#[test]
fn template_directives_are_replaced_in_place() {
    let template = String::from("model A {\n  #id(id Int @id)\n  name String\n}");
    let out = process_template(template, &PlainRenderer);
    assert_eq!(out, "model A {\n  id Int @id\n  name String\n}");
}

#[test]
fn template_without_directives_is_unchanged() {
    let template = String::from("model A {\n  id Int\n}");
    let out = process_template(template, &PlainRenderer);
    assert_eq!(out, "model A {\n  id Int\n}");
}

#[test]
fn several_directives_render_in_order() {
    let template = String::from("#id(a)\nmid\n#m2m(b)\n");
    let out = process_template(template, &PlainRenderer);
    assert_eq!(out, "a\nmid\nb\n");
}

#[test]
fn parse_fragment_reads_both_kinds() {
    match parse_fragment("#id(id Int @id)") {
        Some(DatamodelFragment::Id(IdFragment { args })) => assert_eq!(args, "id Int @id"),
        _ => panic!("id directive did not parse"),
    }
    match parse_fragment("#m2m(posts Post[])") {
        Some(DatamodelFragment::M2m(M2mFragment { args })) => assert_eq!(args, "posts Post[]"),
        _ => panic!("m2m directive did not parse"),
    }
}

#[test]
fn template_well_formed_accepts_exactly_parsable_templates() {
    assert!(template_well_formed("model A {\n  #id(id Int @id)\n}"));
    assert!(template_well_formed("no directives at all"));
    assert!(template_well_formed(""));
    assert!(!template_well_formed("model A {\n  #broken directive\n}"));
    assert!(!template_well_formed("#id(unclosed"));
}

#[test]
fn parse_fragment_rejects_malformed_directives() {
    assert!(parse_fragment("#other(x)").is_none());
    assert!(parse_fragment("#id(x").is_none());
    assert!(parse_fragment("plain text").is_none());
}

#[test]
fn a_directive_runs_to_the_end_of_its_line() {
    // everything after the `#` up to the line break belongs to the one
    // directive
    let template = String::from("#id(x)|#m2m(y)");
    let out = process_template(template, &PlainRenderer);
    assert_eq!(out, "x)|#m2m(y");
}

#[test]
fn preview_features_are_quoted_joined_and_filtered() {
    let out = render_preview_features(
        &strings(&["beta"]),
        &ConnectorVersion::Postgres,
        &strings(&["alpha", "beta", "gamma"]),
    );
    assert_eq!(out, "\"alpha\", \"gamma\"");
}

#[test]
fn old_mysql_versions_drop_relation_joins() {
    let features = strings(&["alpha", "relationJoins"]);
    let none = strings(&[]);
    let old = render_preview_features(
        &none,
        &ConnectorVersion::MySql(Some(MySqlVersion::V5_7)),
        &features,
    );
    assert_eq!(old, "\"alpha\"");
    let v8 = render_preview_features(
        &none,
        &ConnectorVersion::MySql(Some(MySqlVersion::V8)),
        &features,
    );
    assert_eq!(v8, "\"alpha\", \"relationJoins\"");
}

#[test]
fn is_mysql_distinguishes_families() {
    assert!(ConnectorVersion::MySql(None).is_mysql());
    assert!(!ConnectorVersion::Postgres.is_mysql());
}

#[test]
fn the_complete_datamodel_has_header_and_models() {
    let config = TestConfig {
        provider: String::from("postgresql"),
        connection_string: String::from("postgres://localhost/test_db"),
        relation_mode: String::from("foreignKeys"),
        version: ConnectorVersion::Postgres,
        preview_features: strings(&["alpha"]),
    };
    let out = render_test_datamodel(
        &config,
        String::from("model A {\n  #id(id Int @id)\n}"),
        &strings(&[]),
        None,
        &strings(&[]),
        &PlainRenderer,
    );
    let expected = "datasource test {\n    provider = \"postgresql\"\n    url = \"postgres://localhost/test_db\"\n    relationMode = \"foreignKeys\"\n}\n\ngenerator client {\n    provider = \"prisma-client-js\"\n    previewFeatures = [\"alpha\"]\n}\n\n\nmodel A {\n  id Int @id\n}";
    assert_eq!(out, expected);
}

#[test]
fn schemas_and_relation_mode_override_show_in_the_header() {
    let config = TestConfig {
        provider: String::from("postgresql"),
        connection_string: String::from("postgres://localhost/test_db"),
        relation_mode: String::from("foreignKeys"),
        version: ConnectorVersion::Postgres,
        preview_features: strings(&[]),
    };
    let out = render_test_datamodel(
        &config,
        String::from(""),
        &strings(&[]),
        Some(String::from("prisma")),
        &strings(&["one", "two"]),
        &PlainRenderer,
    );
    assert!(out.contains("relationMode = \"prisma\""));
    assert!(out.contains("    schemas = [\"one\", \"two\"]\n"));
}
