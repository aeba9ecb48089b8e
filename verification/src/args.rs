//! Command arguments of the log pipeline, and how the limit flags resolve.

use vstd::prelude::*;

verus! {

/// Show the operation log.
///
/// `limit` bounds how many entries are rendered; the deprecated short flag
/// `deprecated_limit` is honoured only when `limit` is absent, and using it
/// alone earns a one-time advisory warning. `no_graph` selects the flat list
/// over the ASCII graph, and `template` overrides the configured content
/// template.
pub struct OperationLogArgs {
    /// Limit number of operations to show.
    pub limit: Option<usize>,
    /// Deprecated spelling of `limit`; ignored whenever `limit` is given.
    pub deprecated_limit: Option<usize>,
    /// Don't show the graph, show a flat list of operations.
    pub no_graph: bool,
    /// Render each operation using the given template.
    pub template: Option<String>,
}

/// The number of entries the pipeline may render: `limit` if given, else the
/// deprecated flag, else no bound (the largest representable count).
pub open spec fn spec_limit(args: OperationLogArgs) -> int {
    match args.limit {
        Some(n) => n as int,
        None => match args.deprecated_limit {
            Some(n) => n as int,
            None => usize::MAX as int,
        },
    }
}

/// Whether the deprecated-flag advisory is owed: only when the deprecated
/// flag is present and the current flag is absent, since the deprecated flag
/// is logically disabled as soon as the current one appears.
pub open spec fn spec_warns(args: OperationLogArgs) -> bool {
    args.deprecated_limit is Some && args.limit is None
}

/// Resolves the two limit flags into the effective truncation bound.
pub fn resolve_limit(args: &OperationLogArgs) -> (r: usize)
    ensures
        r as int == spec_limit(*args),
{
    match args.limit {
        Some(n) => n,
        None => match args.deprecated_limit {
            Some(n) => n,
            None => usize::MAX,
        },
    }
}

} // verus!
