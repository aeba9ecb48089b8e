use oplog::entry::{derive_edges, Edge, OpId};
use oplog::errors::ErrKind;
use oplog::graph::GraphDrawer;
use oplog::settings::{get_node_template, GraphStyle};
use oplog::stream::AncestorStream;
use oplog::textfmt::{normalize, wrap_text};

fn id(v: u64) -> OpId {
    OpId { value: v }
}

#[test]
fn merge_opens_an_extra_column_until_it_closes() {
    // A merge entry has two direct edges; the width queried for entries drawn
    // after it reflects the additional open column until the branch closes.
    let mut drawer = GraphDrawer::new();
    let mut out = String::new();
    let glyph = "*".to_owned();
    let block = "m\n".to_owned();

    let merge_edges = derive_edges(&vec![id(10), id(20)]);
    let w_merge = drawer.width(id(1), &merge_edges);
    assert_eq!(w_merge, 2);
    drawer.add_node(&mut out, id(1), &merge_edges, &glyph, &block);

    // Both parents now hold a column, so the next row is wider.
    let first_parent_edges = derive_edges(&vec![]);
    let w_first = drawer.width(id(10), &first_parent_edges);
    assert_eq!(w_first, 4);
    drawer.add_node(&mut out, id(10), &first_parent_edges, &glyph, &block);

    // The drawn branch closed its column: the width shrinks again.
    let second_parent_edges = derive_edges(&vec![]);
    let w_second = drawer.width(id(20), &second_parent_edges);
    assert_eq!(w_second, 2);
    drawer.add_node(&mut out, id(20), &second_parent_edges, &glyph, &block);

    let drawn: Vec<u64> = drawer.take_drawn().iter().map(|d| d.value).collect();
    assert_eq!(drawn, vec![1, 10, 20]);
}

#[test]
fn merge_entry_has_one_direct_edge_per_parent() {
    let edges = derive_edges(&vec![id(10), id(20)]);
    assert_eq!(edges.len(), 2);
    assert!(matches!(edges[0], Edge::Direct(OpId { value: 10 })));
    assert!(matches!(edges[1], Edge::Direct(OpId { value: 20 })));
}

#[test]
fn strokes_precede_a_node_right_of_open_columns() {
    // With a column open left of the drawn node, its row starts with a
    // stroke for that column.
    let mut drawer = GraphDrawer::new();
    let mut out = String::new();
    let glyph = "o".to_owned();

    let root_edges = derive_edges(&vec![id(2), id(3)]);
    drawer.width(id(1), &root_edges);
    drawer.add_node(&mut out, id(1), &root_edges, &glyph, &"a\n".to_owned());

    // Columns are now [2, 3]; drawing 3 leaves 2 open on its left.
    let leaf_edges = derive_edges(&vec![]);
    drawer.width(id(3), &leaf_edges);
    drawer.add_node(&mut out, id(3), &leaf_edges, &glyph, &"b\n".to_owned());

    assert_eq!(out, "o a\n|o b\n");
}

#[test]
fn ascii_style_selects_the_ascii_builtin_node_template() {
    let cfg = config::Config::builder()
        .set_override("ui.graph.style", "ascii")
        .unwrap()
        .build()
        .unwrap();
    let style = GraphStyle::from_config(&cfg).unwrap();
    assert!(style.is_ascii());
    let plain = config::Config::builder().build().unwrap();
    assert_eq!(get_node_template(style, &plain).unwrap(), "builtin_op_log_node_ascii");
}

#[test]
fn default_style_selects_the_plain_builtin_node_template() {
    let cfg = config::Config::builder().build().unwrap();
    let style = GraphStyle::from_config(&cfg).unwrap();
    assert!(!style.is_ascii());
    assert_eq!(get_node_template(style, &cfg).unwrap(), "builtin_op_log_node");
}

#[test]
fn configured_node_template_overrides_the_builtins() {
    let cfg = config::Config::builder()
        .set_override("templates.op_log_node", "@")
        .unwrap()
        .build()
        .unwrap();
    assert_eq!(get_node_template(GraphStyle::Curved, &cfg).unwrap(), "@");
}

#[test]
fn unknown_style_name_is_a_configuration_error() {
    let cfg = config::Config::builder()
        .set_override("ui.graph.style", "fancy")
        .unwrap()
        .build()
        .unwrap();
    let err = GraphStyle::from_config(&cfg).unwrap_err();
    assert_eq!(err.kind_of(), ErrKind::Configuration);
}

#[test]
fn wrapping_respects_existing_newlines() {
    assert_eq!(wrap_text("ab\ncdef", 3), "ab\ncde\nf");
}

#[test]
fn wrapping_keeps_an_oversized_character_on_its_own_line() {
    assert_eq!(wrap_text("aaa", 1), "a\na\na");
}

#[test]
fn normalization_appends_a_missing_terminator() {
    assert_eq!(normalize("abc"), "abc\n");
    assert_eq!(normalize(""), "\n");
    assert_eq!(normalize("abc\n"), "abc\n");
    assert_eq!(normalize("abc\n\n\n"), "abc\n");
}

#[test]
fn a_stream_is_forward_only_and_meters_fetches() {
    let mut stream = AncestorStream::new(vec![
        Ok(oplog::entry::HistoryEntry { id: id(1), parents: vec![], payload: None }),
        Ok(oplog::entry::HistoryEntry { id: id(2), parents: vec![], payload: None }),
    ]);
    assert_eq!(stream.fetched(), 0);
    let first = stream.next().unwrap().unwrap();
    assert_eq!(first.id.value, 1);
    assert_eq!(stream.fetched(), 1);
    let second = stream.next().unwrap().unwrap();
    assert_eq!(second.id.value, 2);
    assert_eq!(stream.fetched(), 2);
    assert!(stream.next().is_none());
    assert_eq!(stream.fetched(), 2);
}

#[test]
fn unusable_template_setting_is_a_configuration_error() {
    // The setting resolves to a table, which does not convert to a string.
    let cfg = config::Config::builder()
        .add_source(config::File::from_str(
            "[templates.op_log]\nnested = 1",
            config::FileFormat::Toml,
        ))
        .build()
        .unwrap();
    let args = oplog::args::OperationLogArgs {
        limit: None,
        deprecated_limit: None,
        no_graph: true,
        template: None,
    };
    let err = oplog::settings::content_template_text(&args, &cfg).unwrap_err();
    assert_eq!(err.kind_of(), ErrKind::Configuration);
}
