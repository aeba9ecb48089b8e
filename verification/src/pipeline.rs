//! The log pipeline: resolves settings and limit flags, compiles both
//! templates up front, then walks the bounded ancestor stream and renders
//! each entry — through the graph drawer in graph mode, directly to the sink
//! in flat mode.

use vstd::prelude::*;
use crate::args::{spec_limit, spec_warns, resolve_limit, OperationLogArgs};
use crate::entry::{edges_of, derive_edges, HistoryEntry, OpId, StoreError};
use crate::errors::{CommandError, ErrKind};
use crate::graph::{next_cols, row_text, width_cells, GraphDrawer};
use crate::settings::{content_text_model, content_template_text, get_node_template, node_text_model, GraphStyle};
use crate::stream::AncestorStream;
use crate::template::{compile_template, parse_spec, render_spec, render_template, Part};
use crate::textfmt::{is_normal_block, normalize, normalize_spec, wrap_spec, wrap_text};

verus! {

/// The user-facing channels the pipeline writes: the output sink and the
/// warning channel. On an abort mid-stream, whatever was already written
/// stays — output is a stream, not a transaction.
pub struct Ui {
    pub out: String,
    pub warnings: Vec<String>,
}

impl Ui {
    /// Fresh channels with nothing written yet.
    pub fn new() -> (u: Ui)
        ensures
            u.out@ == Seq::<char>::empty(),
            u.warnings@ == Seq::<String>::empty(),
    {
        Ui { out: String::new(), warnings: Vec::new() }
    }
}

/// What one finished run reports besides its output: every rendered block in
/// order, and the identifiers handed to the drawer in drawing order (empty in
/// flat mode).
#[derive(Debug)]
pub struct LogReport {
    pub blocks: Vec<String>,
    pub drawn: Vec<OpId>,
}

/// The advisory sent when only the deprecated limit flag is used.
pub open spec fn deprecated_msg() -> Seq<char> {
    "The -l shorthand is deprecated, use -n instead."@
}

/// The warnings one run appends: the deprecation advisory, or nothing.
pub open spec fn warn_seq(args: OperationLogArgs) -> Seq<Seq<char>> {
    if spec_warns(args) {
        seq![deprecated_msg()]
    } else {
        Seq::<Seq<char>>::empty()
    }
}

/// The walk truncated to the resolved limit: the entries the pipeline is
/// allowed to fetch.
pub open spec fn capped_entries(
    entries: Seq<Result<HistoryEntry, StoreError>>,
    args: OperationLogArgs,
) -> Seq<Result<HistoryEntry, StoreError>> {
    if spec_limit(args) < entries.len() {
        entries.take(spec_limit(args))
    } else {
        entries
    }
}

/// The state of one run over a prefix of the (truncated) walk.
pub ghost struct RunModel {
    /// The drawer's open columns.
    pub cols: Seq<OpId>,
    /// Everything appended to the output sink.
    pub art: Seq<char>,
    /// The identifiers drawn, in drawing order.
    pub drawn: Seq<OpId>,
    /// The rendered blocks, in entry order.
    pub blocks: Seq<Seq<char>>,
    /// The failure that aborted the run, if one did.
    pub failed: Option<ErrKind>,
}

/// A run that has not processed any entry yet.
pub open spec fn run_init() -> RunModel {
    RunModel {
        cols: Seq::<OpId>::empty(),
        art: Seq::<char>::empty(),
        drawn: Seq::<OpId>::empty(),
        blocks: Seq::<Seq<char>>::empty(),
        failed: None,
    }
}

/// The content width an entry's block is wrapped to: in graph mode whatever
/// the graph row leaves of the total, re-derived per entry; in flat mode the
/// whole total.
pub open spec fn usable_width(total: nat, cols: Seq<OpId>, id: OpId, graph: bool) -> nat {
    if graph {
        let cw = width_cells(cols, id);
        if total > cw {
            (total - cw) as nat
        } else {
            0
        }
    } else {
        total
    }
}

/// How one entry of the walk advances a run: a store failure or a render
/// failure aborts it; otherwise the entry's block is rendered, wrapped,
/// normalized, and — in graph mode — drawn behind its glyph and edge strokes.
pub open spec fn run_step(
    prev: RunModel,
    item: Result<HistoryEntry, StoreError>,
    cparts: Seq<Part>,
    nparts: Seq<Part>,
    total: nat,
    graph: bool,
) -> RunModel {
    if prev.failed is Some {
        prev
    } else {
        match item {
            Err(_) => RunModel { failed: Some(ErrKind::Store), ..prev },
            Ok(e) => {
                let width = usable_width(total, prev.cols, e.id, graph);
                match render_spec(cparts, e) {
                    None => RunModel { failed: Some(ErrKind::TemplateRender), ..prev },
                    Some(text) => {
                        let block = normalize_spec(wrap_spec(text, width));
                        if graph {
                            match render_spec(nparts, e) {
                                None => RunModel { failed: Some(ErrKind::TemplateRender), ..prev },
                                Some(sym) => RunModel {
                                    cols: next_cols(prev.cols, e.id, edges_of(e.parents@)),
                                    art: prev.art + row_text(prev.cols, e.id, sym, block),
                                    drawn: prev.drawn.push(e.id),
                                    blocks: prev.blocks.push(block),
                                    failed: None,
                                },
                            }
                        } else {
                            RunModel {
                                art: prev.art + block,
                                blocks: prev.blocks.push(block),
                                ..prev
                            }
                        }
                    },
                }
            },
        }
    }
}

/// The run over a whole prefix of the walk.
pub open spec fn run_pipeline(
    entries: Seq<Result<HistoryEntry, StoreError>>,
    cparts: Seq<Part>,
    nparts: Seq<Part>,
    total: nat,
    graph: bool,
) -> RunModel
    decreases entries.len(),
{
    if entries.len() == 0 {
        run_init()
    } else {
        run_step(
            run_pipeline(entries.drop_last(), cparts, nparts, total, graph),
            entries.last(),
            cparts,
            nparts,
            total,
            graph,
        )
    }
}

/// How many entries a run pulled from the store: one per rendered block, plus
/// the entry it failed on.
pub open spec fn consumed(run: RunModel) -> int {
    run.blocks.len() + if run.failed is Some {
        1int
    } else {
        0int
    }
}

/// The identifiers of the walk's successful entries, in walk order.
pub open spec fn entry_ids(entries: Seq<Result<HistoryEntry, StoreError>>) -> Seq<OpId>
    decreases entries.len(),
{
    if entries.len() == 0 {
        Seq::<OpId>::empty()
    } else {
        match entries.last() {
            Ok(e) => entry_ids(entries.drop_last()).push(e.id),
            Err(_) => entry_ids(entries.drop_last()),
        }
    }
}

/// The failure one invocation returns, or nothing when it succeeds: the
/// settings and both templates are resolved and compiled before the first
/// entry is read, so their errors come first; only then can the walk itself
/// fail.
pub open spec fn op_log_error(
    c: config::Config,
    args: OperationLogArgs,
    entries: Seq<Result<HistoryEntry, StoreError>>,
    total: nat,
) -> Option<ErrKind> {
    match GraphStyle::from_config_model(c) {
        None => Some(ErrKind::Configuration),
        Some(style) => match content_text_model(args, c) {
            None => Some(ErrKind::Configuration),
            Some(ct) => match parse_spec(ct) {
                None => Some(ErrKind::TemplateCompile),
                Some(cp) => match node_text_model(c, style) {
                    None => Some(ErrKind::Configuration),
                    Some(nt) => match parse_spec(nt) {
                        None => Some(ErrKind::TemplateCompile),
                        Some(np) => run_pipeline(
                            capped_entries(entries, args),
                            cp,
                            np,
                            total,
                            !args.no_graph,
                        ).failed,
                    },
                },
            },
        },
    }
}

/// The run one invocation performs, once settings and templates resolved.
pub open spec fn run_of(
    c: config::Config,
    args: OperationLogArgs,
    entries: Seq<Result<HistoryEntry, StoreError>>,
    total: nat,
) -> RunModel {
    let style = GraphStyle::from_config_model(c)->0;
    let cp = parse_spec(content_text_model(args, c)->0)->0;
    let np = parse_spec(node_text_model(c, style)->0)->0;
    run_pipeline(capped_entries(entries, args), cp, np, total, !args.no_graph)
}

/// Law: once a run has failed, the entries after the failure change nothing —
/// the pipeline aborts on the first error.
pub proof fn lemma_run_frozen(
    entries: Seq<Result<HistoryEntry, StoreError>>,
    cparts: Seq<Part>,
    nparts: Seq<Part>,
    total: nat,
    graph: bool,
    k: int,
)
    requires
        0 <= k <= entries.len(),
        run_pipeline(entries.take(k), cparts, nparts, total, graph).failed is Some,
    ensures
        run_pipeline(entries, cparts, nparts, total, graph) == run_pipeline(
            entries.take(k),
            cparts,
            nparts,
            total,
            graph,
        ),
    decreases entries.len() - k,
{
    if k < entries.len() {
        assert(entries.take(k + 1).drop_last() =~= entries.take(k));
        assert(entries.take(k + 1).last() == entries[k]);
        lemma_run_frozen(entries, cparts, nparts, total, graph, k + 1);
    } else {
        assert(entries.take(k) =~= entries);
    }
}

/// Law: a run that does not fail renders exactly one block per entry of the
/// truncated walk, every block normalized to exactly one trailing terminator,
/// and — in graph mode — draws exactly the walk's identifiers in walk order.
pub proof fn lemma_run_counts(
    entries: Seq<Result<HistoryEntry, StoreError>>,
    cparts: Seq<Part>,
    nparts: Seq<Part>,
    total: nat,
    graph: bool,
)
    ensures
        ({
            let run = run_pipeline(entries, cparts, nparts, total, graph);
            &&& run.blocks.len() <= entries.len()
            &&& (run.failed is None ==> run.blocks.len() == entries.len())
            &&& (run.failed is None && graph ==> run.drawn == entry_ids(entries))
            &&& (!graph ==> run.drawn == Seq::<OpId>::empty())
            &&& forall|i: int|
                0 <= i < run.blocks.len() ==> is_normal_block(#[trigger] run.blocks[i])
        }),
    decreases entries.len(),
{
    if entries.len() > 0 {
        lemma_run_counts(entries.drop_last(), cparts, nparts, total, graph);
        let prev = run_pipeline(entries.drop_last(), cparts, nparts, total, graph);
        let run = run_pipeline(entries, cparts, nparts, total, graph);
        if prev.failed is None {
            match entries.last() {
                Ok(e) => {
                    let width = usable_width(total, prev.cols, e.id, graph);
                    match render_spec(cparts, e) {
                        Some(text) => {
                            crate::textfmt::lemma_normalize_is_normal(wrap_spec(text, width));
                        },
                        None => {},
                    }
                },
                Err(_) => {},
            }
        }
    }
}

/// Renders the history walk to the user-facing channels.
///
/// Success is owed exactly when the settings resolve, both templates compile,
/// and every entry within the limit is fetched and rendered without failure;
/// the first failure aborts the run with its kind, and whatever was already
/// written to the sink stays there.
pub fn do_op_log(
    ui: &mut Ui,
    config: &config::Config,
    stream: &mut AncestorStream,
    args: &OperationLogArgs,
    total_width: usize,
) -> (r: Result<LogReport, CommandError>)
    requires
        old(stream).wf(),
        old(stream).fetched_count() == 0,
    ensures
        final(stream).wf(),
        final(stream).entries() == old(stream).entries(),
        ({
            let entries = old(stream).entries();
            let ek = op_log_error(*config, *args, entries, total_width as nat);
            let run = run_of(*config, *args, entries, total_width as nat);
            &&& (r is Ok <==> ek is None)
            &&& match r {
                Ok(rep) => {
                    &&& rep.blocks.deep_view() == run.blocks
                    &&& rep.drawn@ == run.drawn
                    &&& final(ui).out@ == old(ui).out@ + run.art
                    &&& final(ui).warnings.deep_view() == old(ui).warnings.deep_view()
                        + warn_seq(*args)
                    &&& final(stream).fetched_count() == capped_entries(entries, *args).len()
                    &&& rep.blocks@.len() == (if spec_limit(*args) < entries.len() {
                        spec_limit(*args)
                    } else {
                        entries.len() as int
                    })
                    &&& forall|i: int|
                        0 <= i < rep.blocks.deep_view().len() ==> is_normal_block(
                            #[trigger] rep.blocks.deep_view()[i],
                        )
                    &&& (!args.no_graph ==> rep.drawn@ == entry_ids(capped_entries(entries, *args)))
                    &&& (args.no_graph ==> rep.drawn@ == Seq::<OpId>::empty())
                },
                Err(e) => {
                    &&& Some(e.kind()) == ek
                    &&& ((e.kind() == ErrKind::Configuration || e.kind()
                        == ErrKind::TemplateCompile) ==> {
                        &&& final(ui).out@ == old(ui).out@
                        &&& final(ui).warnings == old(ui).warnings
                        &&& final(stream).fetched_count() == 0
                    })
                    &&& ((e.kind() == ErrKind::TemplateRender || e.kind() == ErrKind::Store) ==> {
                        &&& final(ui).out@ == old(ui).out@ + run.art
                        &&& final(ui).warnings.deep_view() == old(ui).warnings.deep_view()
                            + warn_seq(*args)
                        &&& final(stream).fetched_count() == consumed(run)
                    })
                },
            }
        }),
{
    let ghost entries = old(stream).entries();
    let style = match GraphStyle::from_config(config) {
        Ok(s) => s,
        Err(e) => {
            return Err(e);
        },
    };
    let content_text = match content_template_text(args, config) {
        Ok(t) => t,
        Err(e) => {
            return Err(e);
        },
    };
    let template = match compile_template(content_text.as_str()) {
        Ok(t) => t,
        Err(e) => {
            return Err(e);
        },
    };
    let node_text = match get_node_template(style, config) {
        Ok(t) => t,
        Err(e) => {
            return Err(e);
        },
    };
    let node_template = match compile_template(node_text.as_str()) {
        Ok(t) => t,
        Err(e) => {
            return Err(e);
        },
    };
    if args.deprecated_limit.is_some() && args.limit.is_none() {
        ui.warnings.push("The -l shorthand is deprecated, use -n instead.".to_owned());
    }
    proof {
        assert(ui.warnings.deep_view() =~~= old(ui).warnings.deep_view() + warn_seq(*args));
    }
    let limit = resolve_limit(args);
    let ghost cp = template.parts@;
    let ghost np = node_template.parts@;
    let ghost tw = total_width as nat;
    let mut blocks: Vec<String> = Vec::new();
    let mut count: usize = 0;
    let mut done = false;
    if !args.no_graph {
        let mut drawer = GraphDrawer::new();
        proof {
            assert(entries.take(0) =~= Seq::<Result<HistoryEntry, StoreError>>::empty());
        }
        while !done && count < limit
            invariant
                stream.wf(),
                stream.entries() == entries,
                entries == old(stream).entries(),
                GraphStyle::from_config_model(*config) == Some(style),
                content_text_model(*args, *config) == Some(content_text@),
                parse_spec(content_text@) == Some(cp),
                node_text_model(*config, style) == Some(node_text@),
                parse_spec(node_text@) == Some(np),
                cp == template.parts@,
                np == node_template.parts@,
                tw == total_width as nat,
                limit as int == spec_limit(*args),
                count as int <= spec_limit(*args),
                count as int <= entries.len(),
                stream.fetched_count() == count as int,
                done ==> count as int == entries.len(),
                !args.no_graph,
                ui.warnings.deep_view() == old(ui).warnings.deep_view() + warn_seq(*args),
                ({
                    let run = run_pipeline(entries.take(count as int), cp, np, tw, true);
                    &&& run.failed is None
                    &&& drawer.cols() == run.cols
                    &&& drawer.drawn_ids() == run.drawn
                    &&& drawer.pending_id() is None
                    &&& blocks.deep_view() == run.blocks
                    &&& ui.out@ == old(ui).out@ + run.art
                    &&& count as int == run.blocks.len()
                }),
            decreases (limit - count) + (if done { 0int } else { 1int }),
        {
            let ghost prev = run_pipeline(entries.take(count as int), cp, np, tw, true);
            match stream.next() {
                None => {
                    done = true;
                },
                Some(Err(se)) => {
                    proof {
                        assert(entries.take(count + 1).drop_last() =~= entries.take(count as int));
                        assert(entries.take(count + 1).last() == entries[count as int]);
                    }
                    proof {
                        lemma_run_frozen(
                            capped_entries(entries, *args),
                            cp,
                            np,
                            tw,
                            true,
                            count + 1,
                        );
                        assert(capped_entries(entries, *args).take(count + 1) =~= entries.take(
                            count + 1,
                        ));
                    }
                    return Err(CommandError::Store(se));
                },
                Some(Ok(e)) => {
                    proof {
                        assert(entries.take(count + 1).drop_last() =~= entries.take(count as int));
                        assert(entries.take(count + 1).last() == entries[count as int]);
                    }
                    let edges = derive_edges(&e.parents);
                    let w = drawer.width(e.id, &edges);
                    let usable = if total_width > w {
                        total_width - w
                    } else {
                        0
                    };
                    let text = match render_template(&template, &e) {
                        Ok(t) => t,
                        Err(err) => {
                            proof {
                                lemma_run_frozen(
                                    capped_entries(entries, *args),
                                    cp,
                                    np,
                                    tw,
                                    true,
                                    count + 1,
                                );
                                assert(capped_entries(entries, *args).take(count + 1)
                                    =~= entries.take(count + 1));
                            }
                            return Err(err);
                        },
                    };
                    let wrapped = wrap_text(text.as_str(), usable);
                    let block = normalize(wrapped.as_str());
                    let sym = match render_template(&node_template, &e) {
                        Ok(s) => s,
                        Err(err) => {
                            proof {
                                lemma_run_frozen(
                                    capped_entries(entries, *args),
                                    cp,
                                    np,
                                    tw,
                                    true,
                                    count + 1,
                                );
                                assert(capped_entries(entries, *args).take(count + 1)
                                    =~= entries.take(count + 1));
                            }
                            return Err(err);
                        },
                    };
                    let ghost out_before = ui.out@;
                    drawer.add_node(&mut ui.out, e.id, &edges, &sym, &block);
                    blocks.push(block);
                    proof {
                        let run = run_pipeline(entries.take(count + 1), cp, np, tw, true);
                        assert(blocks.deep_view() =~~= run.blocks);
                        assert(ui.out@ =~= old(ui).out@ + run.art);
                    }
                    count = count + 1;
                },
            }
        }
        proof {
            if done {
                assert(entries.take(count as int) =~= capped_entries(entries, *args));
            } else {
                assert(entries.take(count as int) =~= capped_entries(entries, *args));
            }
            lemma_run_counts(capped_entries(entries, *args), cp, np, tw, true);
        }
        let drawn = drawer.take_drawn();
        Ok(LogReport { blocks, drawn })
    } else {
        proof {
            assert(entries.take(0) =~= Seq::<Result<HistoryEntry, StoreError>>::empty());
        }
        while !done && count < limit
            invariant
                stream.wf(),
                stream.entries() == entries,
                entries == old(stream).entries(),
                GraphStyle::from_config_model(*config) == Some(style),
                content_text_model(*args, *config) == Some(content_text@),
                parse_spec(content_text@) == Some(cp),
                node_text_model(*config, style) == Some(node_text@),
                parse_spec(node_text@) == Some(np),
                cp == template.parts@,
                np == node_template.parts@,
                tw == total_width as nat,
                limit as int == spec_limit(*args),
                count as int <= spec_limit(*args),
                count as int <= entries.len(),
                stream.fetched_count() == count as int,
                done ==> count as int == entries.len(),
                args.no_graph,
                ui.warnings.deep_view() == old(ui).warnings.deep_view() + warn_seq(*args),
                ({
                    let run = run_pipeline(entries.take(count as int), cp, np, tw, false);
                    &&& run.failed is None
                    &&& blocks.deep_view() == run.blocks
                    &&& ui.out@ == old(ui).out@ + run.art
                    &&& count as int == run.blocks.len()
                }),
            decreases (limit - count) + (if done { 0int } else { 1int }),
        {
            match stream.next() {
                None => {
                    done = true;
                },
                Some(Err(se)) => {
                    proof {
                        assert(entries.take(count + 1).drop_last() =~= entries.take(count as int));
                        assert(entries.take(count + 1).last() == entries[count as int]);
                    }
                    proof {
                        lemma_run_frozen(
                            capped_entries(entries, *args),
                            cp,
                            np,
                            tw,
                            false,
                            count + 1,
                        );
                        assert(capped_entries(entries, *args).take(count + 1) =~= entries.take(
                            count + 1,
                        ));
                    }
                    return Err(CommandError::Store(se));
                },
                Some(Ok(e)) => {
                    proof {
                        assert(entries.take(count + 1).drop_last() =~= entries.take(count as int));
                        assert(entries.take(count + 1).last() == entries[count as int]);
                    }
                    let text = match render_template(&template, &e) {
                        Ok(t) => t,
                        Err(err) => {
                            proof {
                                lemma_run_frozen(
                                    capped_entries(entries, *args),
                                    cp,
                                    np,
                                    tw,
                                    false,
                                    count + 1,
                                );
                                assert(capped_entries(entries, *args).take(count + 1)
                                    =~= entries.take(count + 1));
                            }
                            return Err(err);
                        },
                    };
                    let wrapped = wrap_text(text.as_str(), total_width);
                    let block = normalize(wrapped.as_str());
                    ui.out.append(block.as_str());
                    blocks.push(block);
                    proof {
                        let run = run_pipeline(entries.take(count + 1), cp, np, tw, false);
                        assert(blocks.deep_view() =~~= run.blocks);
                        assert(ui.out@ =~= old(ui).out@ + run.art);
                    }
                    count = count + 1;
                },
            }
        }
        proof {
            assert(entries.take(count as int) =~= capped_entries(entries, *args));
            lemma_run_counts(capped_entries(entries, *args), cp, np, tw, false);
        }
        Ok(LogReport { blocks, drawn: Vec::new() })
    }
}

/// Renders the history walk handed in by the store: the command boundary of
/// the library. The walk is wrapped in a fresh stream, truncated to the
/// resolved limit, and rendered as `do_op_log` does.
pub fn cmd_op_log(
    ui: &mut Ui,
    config: &config::Config,
    entries: Vec<Result<HistoryEntry, StoreError>>,
    args: &OperationLogArgs,
    total_width: usize,
) -> (r: Result<LogReport, CommandError>)
    ensures
        ({
            let ek = op_log_error(*config, *args, entries@, total_width as nat);
            let run = run_of(*config, *args, entries@, total_width as nat);
            &&& (r is Ok <==> ek is None)
            &&& match r {
                Ok(rep) => {
                    &&& rep.blocks.deep_view() == run.blocks
                    &&& rep.drawn@ == run.drawn
                    &&& final(ui).out@ == old(ui).out@ + run.art
                    &&& final(ui).warnings.deep_view() == old(ui).warnings.deep_view()
                        + warn_seq(*args)
                    &&& rep.blocks@.len() == (if spec_limit(*args) < entries@.len() {
                        spec_limit(*args)
                    } else {
                        entries@.len() as int
                    })
                    &&& (!args.no_graph ==> rep.drawn@ == entry_ids(
                        capped_entries(entries@, *args),
                    ))
                },
                Err(e) => Some(e.kind()) == ek,
            }
        }),
{
    let mut stream = AncestorStream::new(entries);
    do_op_log(ui, config, &mut stream, args, total_width)
}

} // verus!
