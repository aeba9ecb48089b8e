//! Configuration lookup and the settings the pipeline reads from it: the
//! graph style and the two template sources.
//!
//! The configuration itself lives in the `config` crate; this module reads it
//! through one trusted lookup and states everything else in terms of two
//! names for what the configuration holds.

use vstd::prelude::*;
use crate::args::OperationLogArgs;
use crate::errors::CommandError;

verus! {

#[verifier::external_type_specification]
#[verifier::external_body]
pub struct ExConfig(config::Config);

/// The keys this configuration resolves: every key whose lookup either finds
/// a value or fails on it. A key outside this set is simply absent, and
/// looking it up reports exactly that.
pub uninterp spec fn config_keys(c: config::Config) -> Set<Seq<char>>;

/// The string-valued part of the configuration: each resolved key whose value
/// converts to a string, with that string.
pub uninterp spec fn config_strings(c: config::Config) -> Map<Seq<char>, Seq<char>>;

/// Relies on `config::Config::get_string`: a pure lookup in the in-memory
/// configuration. A missing key is reported as `ConfigError::NotFound` and
/// becomes `Ok(None)` here; any other failure concerns a key the
/// configuration does resolve, and carries its message.
#[verifier::external_body]
pub(crate) fn config_get_string(c: &config::Config, key: &str) -> (r: Result<
    Option<String>,
    String,
>)
    ensures
        match r {
            Ok(Some(s)) => config_keys(*c).contains(key@) && config_strings(*c).contains_key(key@)
                && s@ == config_strings(*c)[key@],
            Ok(None) => !config_keys(*c).contains(key@) && !config_strings(*c).contains_key(key@),
            Err(_) => config_keys(*c).contains(key@) && !config_strings(*c).contains_key(key@),
        },
{
    match c.get_string(key) {
        Ok(s) => Ok(Some(s)),
        Err(config::ConfigError::NotFound(_)) => Ok(None),
        Err(e) => Err(format!("{e}")),
    }
}

/// How the ASCII graph is drawn. Only whether the style is one of the two
/// plain-ASCII ones matters to this pipeline: it selects the default
/// node-symbol template.
#[derive(PartialEq, Eq, Structural, Clone, Copy, Debug)]
pub enum GraphStyle {
    Ascii,
    AsciiLarge,
    Curved,
    Square,
}

impl GraphStyle {
    pub open spec fn spec_is_ascii(self) -> bool {
        self == GraphStyle::Ascii || self == GraphStyle::AsciiLarge
    }

    /// Whether this is one of the plain-ASCII drawing styles.
    pub fn is_ascii(&self) -> (r: bool)
        ensures
            r == self.spec_is_ascii(),
    {
        match self {
            GraphStyle::Ascii => true,
            GraphStyle::AsciiLarge => true,
            _ => false,
        }
    }

    /// The style a setting's text names, if it names one.
    pub open spec fn of_name(s: Seq<char>) -> Option<GraphStyle> {
        if s == "ascii"@ {
            Some(GraphStyle::Ascii)
        } else if s == "ascii-large"@ {
            Some(GraphStyle::AsciiLarge)
        } else if s == "curved"@ {
            Some(GraphStyle::Curved)
        } else if s == "square"@ {
            Some(GraphStyle::Square)
        } else {
            None
        }
    }

    /// What reading `ui.graph.style` yields: the named style, the default
    /// (curved) when the setting is absent, or nothing when the setting is
    /// present but unusable.
    pub open spec fn from_config_model(c: config::Config) -> Option<GraphStyle> {
        if config_strings(c).contains_key("ui.graph.style"@) {
            GraphStyle::of_name(config_strings(c)["ui.graph.style"@])
        } else if config_keys(c).contains("ui.graph.style"@) {
            None
        } else {
            Some(GraphStyle::Curved)
        }
    }

    /// Reads the graph style from the configuration.
    pub fn from_config(c: &config::Config) -> (r: Result<GraphStyle, CommandError>)
        ensures
            match r {
                Ok(style) => GraphStyle::from_config_model(*c) == Some(style),
                Err(e) => GraphStyle::from_config_model(*c) is None && e.kind()
                    == crate::errors::ErrKind::Configuration,
            },
    {
        match config_get_string(c, "ui.graph.style") {
            Ok(Some(s)) => {
                if s == "ascii".to_owned() {
                    Ok(GraphStyle::Ascii)
                } else if s == "ascii-large".to_owned() {
                    Ok(GraphStyle::AsciiLarge)
                } else if s == "curved".to_owned() {
                    Ok(GraphStyle::Curved)
                } else if s == "square".to_owned() {
                    Ok(GraphStyle::Square)
                } else {
                    Err(CommandError::Configuration(s))
                }
            },
            Ok(None) => Ok(GraphStyle::Curved),
            Err(m) => Err(CommandError::Configuration(m)),
        }
    }
}

/// The text of the content template: the command-line override when given,
/// else the configured `templates.op_log`; nothing when that setting is
/// absent or unusable, which is a configuration error.
pub open spec fn content_text_model(args: OperationLogArgs, c: config::Config) -> Option<
    Seq<char>,
> {
    match args.template {
        Some(t) => Some(t@),
        None => if config_strings(c).contains_key("templates.op_log"@) {
            Some(config_strings(c)["templates.op_log"@])
        } else {
            None
        },
    }
}

/// Resolves the content template's source text.
pub fn content_template_text(args: &OperationLogArgs, c: &config::Config) -> (r: Result<
    String,
    CommandError,
>)
    ensures
        match r {
            Ok(s) => content_text_model(*args, *c) == Some(s@),
            Err(e) => content_text_model(*args, *c) is None && e.kind()
                == crate::errors::ErrKind::Configuration,
        },
{
    match &args.template {
        Some(t) => Ok(t.clone()),
        None => match config_get_string(c, "templates.op_log") {
            Ok(Some(s)) => Ok(s),
            Ok(None) => Err(
                CommandError::Configuration("templates.op_log is not configured".to_owned()),
            ),
            Err(m) => Err(CommandError::Configuration(m)),
        },
    }
}

/// The text of the node-symbol template: the configured
/// `templates.op_log_node` when present, else one of the two built-in names
/// selected by the drawing style; nothing when the setting is present but
/// unusable.
pub open spec fn node_text_model(c: config::Config, style: GraphStyle) -> Option<Seq<char>> {
    if config_strings(c).contains_key("templates.op_log_node"@) {
        Some(config_strings(c)["templates.op_log_node"@])
    } else if config_keys(c).contains("templates.op_log_node"@) {
        None
    } else if style.spec_is_ascii() {
        Some("builtin_op_log_node_ascii"@)
    } else {
        Some("builtin_op_log_node"@)
    }
}

/// Resolves the node-symbol template's source text.
pub fn get_node_template(style: GraphStyle, c: &config::Config) -> (r: Result<
    String,
    CommandError,
>)
    ensures
        match r {
            Ok(s) => node_text_model(*c, style) == Some(s@),
            Err(e) => node_text_model(*c, style) is None && e.kind()
                == crate::errors::ErrKind::Configuration,
        },
{
    match config_get_string(c, "templates.op_log_node") {
        Ok(Some(s)) => Ok(s),
        Ok(None) => {
            if style.is_ascii() {
                Ok("builtin_op_log_node_ascii".to_owned())
            } else {
                Ok("builtin_op_log_node".to_owned())
            }
        },
        Err(m) => Err(CommandError::Configuration(m)),
    }
}

} // verus!
