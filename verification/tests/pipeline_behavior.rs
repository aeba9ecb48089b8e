use oplog::args::OperationLogArgs;
use oplog::entry::{HistoryEntry, OpId, StoreError};
use oplog::errors::{CommandError, ErrKind};
use oplog::pipeline::{cmd_op_log, do_op_log, Ui};
use oplog::stream::AncestorStream;

fn entry(id: u64, parents: &[u64], payload: Option<&str>) -> Result<HistoryEntry, StoreError> {
    Ok(HistoryEntry {
        id: OpId { value: id },
        parents: parents.iter().map(|p| OpId { value: *p }).collect(),
        payload: payload.map(|s| s.to_owned()),
    })
}

fn config_with(pairs: &[(&str, &str)]) -> config::Config {
    let mut builder = config::Config::builder();
    for (k, v) in pairs {
        builder = builder.set_override(*k, *v).unwrap();
    }
    builder.build().unwrap()
}

fn plain_args() -> OperationLogArgs {
    OperationLogArgs { limit: None, deprecated_limit: None, no_graph: false, template: None }
}

#[test]
fn flat_limit_truncates_and_stops_fetching() {
    // Three entries A -> B -> C, limit 2, flat mode: A and B rendered in
    // order, C never fetched from the store.
    let cfg = config_with(&[("templates.op_log", "%m")]);
    let mut args = plain_args();
    args.no_graph = true;
    args.limit = Some(2);
    let mut ui = Ui::new();
    let mut stream = AncestorStream::new(vec![
        entry(1, &[2], Some("A")),
        entry(2, &[3], Some("B")),
        entry(3, &[], Some("C")),
    ]);
    let report = do_op_log(&mut ui, &cfg, &mut stream, &args, 80).unwrap();
    assert_eq!(report.blocks.len(), 2);
    assert_eq!(report.blocks[0], "A\n");
    assert_eq!(report.blocks[1], "B\n");
    assert_eq!(ui.out, "A\nB\n");
    assert_eq!(stream.fetched(), 2);
    assert!(ui.warnings.is_empty());
}

#[test]
fn no_graph_with_zero_ancestors_is_empty_success() {
    let cfg = config_with(&[("templates.op_log", "%m")]);
    let mut args = plain_args();
    args.no_graph = true;
    let mut ui = Ui::new();
    let report = cmd_op_log(&mut ui, &cfg, vec![], &args, 80).unwrap();
    assert_eq!(report.blocks.len(), 0);
    assert_eq!(ui.out, "");
    assert!(ui.warnings.is_empty());
}

#[test]
fn current_limit_wins_and_suppresses_warning() {
    // Both flags given: truncation follows the current flag and the advisory
    // stays silent, since the deprecated flag is logically disabled.
    let cfg = config_with(&[("templates.op_log", "%m")]);
    let mut args = plain_args();
    args.no_graph = true;
    args.limit = Some(1);
    args.deprecated_limit = Some(3);
    let mut ui = Ui::new();
    let report = cmd_op_log(
        &mut ui,
        &cfg,
        vec![entry(1, &[2], Some("A")), entry(2, &[3], Some("B")), entry(3, &[], Some("C"))],
        &args,
        80,
    )
    .unwrap();
    assert_eq!(report.blocks.len(), 1);
    assert_eq!(ui.out, "A\n");
    assert!(ui.warnings.is_empty());
}

#[test]
fn deprecated_limit_alone_warns_and_truncates() {
    let cfg = config_with(&[("templates.op_log", "%m")]);
    let mut args = plain_args();
    args.no_graph = true;
    args.deprecated_limit = Some(2);
    let mut ui = Ui::new();
    let report = cmd_op_log(
        &mut ui,
        &cfg,
        vec![entry(1, &[2], Some("A")), entry(2, &[3], Some("B")), entry(3, &[], Some("C"))],
        &args,
        80,
    )
    .unwrap();
    assert_eq!(report.blocks.len(), 2);
    assert_eq!(ui.warnings.len(), 1);
    assert_eq!(ui.warnings[0], "The -l shorthand is deprecated, use -n instead.");
}

#[test]
fn missing_content_template_fails_before_store_access() {
    let cfg = config_with(&[]);
    let mut args = plain_args();
    args.no_graph = true;
    let mut ui = Ui::new();
    let mut stream = AncestorStream::new(vec![entry(1, &[], Some("A"))]);
    let err = do_op_log(&mut ui, &cfg, &mut stream, &args, 80).unwrap_err();
    assert_eq!(err.kind_of(), ErrKind::Configuration);
    assert_eq!(stream.fetched(), 0);
    assert_eq!(ui.out, "");
    assert!(ui.warnings.is_empty());
}

#[test]
fn trailing_terminators_normalize_to_exactly_one() {
    let cfg = config_with(&[("templates.op_log", "%m")]);
    let mut args = plain_args();
    args.no_graph = true;
    let mut ui = Ui::new();
    let report = cmd_op_log(
        &mut ui,
        &cfg,
        vec![entry(1, &[], Some("x\n\n\n")), entry(2, &[], Some("y"))],
        &args,
        80,
    )
    .unwrap();
    assert_eq!(report.blocks[0], "x\n");
    assert_eq!(report.blocks[1], "y\n");
}

#[test]
fn graph_mode_draws_in_stream_order() {
    let cfg = config_with(&[("templates.op_log", "%m"), ("templates.op_log_node", "*")]);
    let args = plain_args();
    let mut ui = Ui::new();
    let report = cmd_op_log(
        &mut ui,
        &cfg,
        vec![entry(1, &[2], Some("A")), entry(2, &[3], Some("B")), entry(3, &[], Some("C"))],
        &args,
        80,
    )
    .unwrap();
    let drawn: Vec<u64> = report.drawn.iter().map(|d| d.value).collect();
    assert_eq!(drawn, vec![1, 2, 3]);
    // Each next entry takes over column zero of its only child, so every row
    // starts with the glyph.
    assert_eq!(ui.out, "* A\n* B\n* C\n");
}

#[test]
fn render_failure_aborts_but_keeps_partial_output() {
    let cfg = config_with(&[("templates.op_log", "%m")]);
    let mut args = plain_args();
    args.no_graph = true;
    let mut ui = Ui::new();
    let mut stream = AncestorStream::new(vec![
        entry(1, &[], Some("A")),
        entry(2, &[], None),
        entry(3, &[], Some("C")),
    ]);
    let err = do_op_log(&mut ui, &cfg, &mut stream, &args, 80).unwrap_err();
    assert_eq!(err.kind_of(), ErrKind::TemplateRender);
    assert_eq!(ui.out, "A\n");
    assert_eq!(stream.fetched(), 2);
}

#[test]
fn store_failure_aborts_with_store_error() {
    let cfg = config_with(&[("templates.op_log", "%m")]);
    let mut args = plain_args();
    args.no_graph = true;
    let mut ui = Ui::new();
    let mut stream = AncestorStream::new(vec![
        entry(1, &[], Some("A")),
        Err(StoreError { message: "unreadable entry".to_owned() }),
        entry(3, &[], Some("C")),
    ]);
    let err = do_op_log(&mut ui, &cfg, &mut stream, &args, 80).unwrap_err();
    assert_eq!(err.kind_of(), ErrKind::Store);
    assert_eq!(ui.out, "A\n");
    assert_eq!(stream.fetched(), 2);
}

#[test]
fn bad_template_escape_is_a_compile_error() {
    let cfg = config_with(&[("templates.op_log", "%m")]);
    let mut args = plain_args();
    args.no_graph = true;
    args.template = Some("%z".to_owned());
    let mut ui = Ui::new();
    let mut stream = AncestorStream::new(vec![entry(1, &[], Some("A"))]);
    let err = do_op_log(&mut ui, &cfg, &mut stream, &args, 80).unwrap_err();
    assert_eq!(err.kind_of(), ErrKind::TemplateCompile);
    assert_eq!(stream.fetched(), 0);
}

#[test]
fn dangling_escape_is_a_compile_error() {
    let cfg = config_with(&[]);
    let mut args = plain_args();
    args.no_graph = true;
    args.template = Some("abc%".to_owned());
    let mut ui = Ui::new();
    let err = cmd_op_log(&mut ui, &cfg, vec![], &args, 80).unwrap_err();
    assert_eq!(err.kind_of(), ErrKind::TemplateCompile);
}

#[test]
fn template_override_beats_configuration() {
    let cfg = config_with(&[("templates.op_log", "%m")]);
    let mut args = plain_args();
    args.no_graph = true;
    args.template = Some("T".to_owned());
    let mut ui = Ui::new();
    let report =
        cmd_op_log(&mut ui, &cfg, vec![entry(1, &[], Some("A"))], &args, 80).unwrap();
    assert_eq!(report.blocks[0], "T\n");
}

#[test]
fn identifier_and_parents_render_as_fixed_width_hex() {
    let cfg = config_with(&[]);
    let mut args = plain_args();
    args.no_graph = true;
    args.template = Some("%i|%p".to_owned());
    let mut ui = Ui::new();
    let report =
        cmd_op_log(&mut ui, &cfg, vec![entry(255, &[1, 2], Some("A"))], &args, 80).unwrap();
    assert_eq!(
        report.blocks[0],
        "00000000000000ff|0000000000000001 0000000000000002\n"
    );
}

#[test]
fn narrow_width_wraps_rendered_content() {
    let cfg = config_with(&[("templates.op_log", "%m")]);
    let mut args = plain_args();
    args.no_graph = true;
    let mut ui = Ui::new();
    let report =
        cmd_op_log(&mut ui, &cfg, vec![entry(1, &[], Some("abcd"))], &args, 2).unwrap();
    assert_eq!(report.blocks[0], "ab\ncd\n");
}

#[test]
fn zero_width_passes_content_through() {
    let cfg = config_with(&[("templates.op_log", "%m")]);
    let mut args = plain_args();
    args.no_graph = true;
    let mut ui = Ui::new();
    let report =
        cmd_op_log(&mut ui, &cfg, vec![entry(1, &[], Some("abcd"))], &args, 0).unwrap();
    assert_eq!(report.blocks[0], "abcd\n");
}

#[test]
fn zero_limit_renders_nothing() {
    let cfg = config_with(&[("templates.op_log", "%m")]);
    let mut args = plain_args();
    args.no_graph = true;
    args.limit = Some(0);
    let mut ui = Ui::new();
    let mut stream = AncestorStream::new(vec![entry(1, &[], Some("A"))]);
    let report = do_op_log(&mut ui, &cfg, &mut stream, &args, 80).unwrap();
    assert_eq!(report.blocks.len(), 0);
    assert_eq!(stream.fetched(), 0);
    assert_eq!(ui.out, "");
}

#[test]
fn graph_mode_width_shrinks_usable_content_columns() {
    // In graph mode the first row commits two cells for the node's column, so
    // a total width of 4 leaves two columns for the content.
    let cfg = config_with(&[("templates.op_log", "%m"), ("templates.op_log_node", "*")]);
    let args = plain_args();
    let mut ui = Ui::new();
    let report =
        cmd_op_log(&mut ui, &cfg, vec![entry(1, &[], Some("abcd"))], &args, 4).unwrap();
    assert_eq!(report.blocks[0], "ab\ncd\n");
    assert_eq!(ui.out, "* ab\ncd\n");
}

#[test]
fn store_error_kind_matches_variant() {
    let cfg = config_with(&[("templates.op_log", "%m")]);
    let mut args = plain_args();
    args.no_graph = true;
    let mut ui = Ui::new();
    let err = cmd_op_log(
        &mut ui,
        &cfg,
        vec![Err(StoreError { message: "lost".to_owned() })],
        &args,
        80,
    )
    .unwrap_err();
    match err {
        CommandError::Store(se) => assert_eq!(se.message, "lost"),
        _ => panic!("a store failure must surface as a store error"),
    }
}
