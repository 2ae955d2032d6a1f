//! The command-line arguments and how they combine with the configuration.
//!
//! Options given on the command line take precedence over the configuration
//! file, which takes precedence over the defaults.

use crate::config::settings::{opt_text, CaptureConfig};
use vstd::prelude::*;

verus! {

/// The command-line arguments.
#[derive(Debug, Clone)]
pub struct Cli {
    /// Subcommand.
    pub command: Option<Commands>,
    /// Interface name (default: the first usable one).
    pub interface: Option<String>,
    /// BPF filter expression.
    pub filter: Option<String>,
    /// Promiscuous mode.
    pub promiscuous: bool,
    /// Maximum packets (0: no limit).
    pub count: u64,
    /// Maximum duration in seconds (0: no limit).
    pub duration: u64,
}

/// Subcommands.
#[derive(Debug, Clone)]
pub enum Commands {
    /// List the interfaces.
    ListInterfaces,
    /// Capture packets.
    Capture {
        /// Interface name.
        interface: Option<String>,
        /// BPF filter expression.
        filter: Option<String>,
    },
}

/// What a capture run is asked for once command line and configuration are
/// combined.
#[derive(Debug, Clone)]
pub struct CaptureRequest {
    pub interface: Option<String>,
    pub filter: Option<String>,
    pub promiscuous: bool,
    pub count: u64,
    pub duration: u64,
}

/// What the program does.
#[derive(Debug, Clone)]
pub enum CliAction {
    /// List the interfaces.
    ListInterfaces,
    /// Capture as requested.
    Capture(CaptureRequest),
}

/// The text value of the interface and filter options that apply: those of
/// the `capture` subcommand where it is given, else the top-level ones.
pub open spec fn cli_names(cli: Cli) -> (Option<Seq<char>>, Option<Seq<char>>) {
    match cli.command {
        Some(Commands::Capture { interface, filter }) => (opt_text(interface), opt_text(filter)),
        _ => (opt_text(cli.interface), opt_text(cli.filter)),
    }
}

/// `req` is the capture that `cli` asks for over `config`: a name given on
/// the command line wins over the configured one; a limit given on the
/// command line (non-zero) wins over the configured one; promiscuous mode is
/// the configured one, which the command line cannot turn off.
pub open spec fn resolves_to(req: CaptureRequest, cli: Cli, config: CaptureConfig) -> bool {
    let names = cli_names(cli);
    &&& opt_text(req.interface) == (if names.0 is Some {
        names.0
    } else {
        opt_text(config.interface)
    })
    &&& opt_text(req.filter) == (if names.1 is Some {
        names.1
    } else {
        opt_text(config.filter)
    })
    &&& req.promiscuous == config.promiscuous
    &&& req.count == (if cli.count > 0 {
        cli.count
    } else {
        config.count
    })
    &&& req.duration == (if cli.duration > 0 {
        cli.duration
    } else {
        config.duration
    })
}

fn or_configured(given: Option<String>, configured: Option<String>) -> (r: Option<String>)
    ensures
        opt_text(r) == (if given is Some {
            opt_text(given)
        } else {
            opt_text(configured)
        }),
{
    match given {
        Some(s) => Some(s),
        None => configured,
    }
}

/// Decides what to run: the interface listing, or a capture whose options
/// combine the command line with the configured capture settings.
pub fn resolve_command(cli: Cli, config: CaptureConfig) -> (action: CliAction)
    ensures
        match cli.command {
            Some(Commands::ListInterfaces) => action is ListInterfaces,
            _ => action matches CliAction::Capture(req) && resolves_to(req, cli, config),
        },
{
    let (interface, filter) = match cli.command {
        Some(Commands::ListInterfaces) => {
            return CliAction::ListInterfaces;
        },
        Some(Commands::Capture { interface, filter }) => (interface, filter),
        None => (cli.interface, cli.filter),
    };
    let count = if cli.count > 0 {
        cli.count
    } else {
        config.count
    };
    let duration = if cli.duration > 0 {
        cli.duration
    } else {
        config.duration
    };
    CliAction::Capture(
        CaptureRequest {
            interface: or_configured(interface, config.interface),
            filter: or_configured(filter, config.filter),
            promiscuous: config.promiscuous,
            count,
            duration,
        },
    )
}

/// Command-line precedence: every option given on the command line is the
/// one the capture uses.
pub proof fn lemma_command_line_wins(req: CaptureRequest, cli: Cli, config: CaptureConfig)
    requires
        resolves_to(req, cli, config),
    ensures
        cli_names(cli).0 is Some ==> opt_text(req.interface) == cli_names(cli).0,
        cli_names(cli).1 is Some ==> opt_text(req.filter) == cli_names(cli).1,
        cli.count > 0 ==> req.count == cli.count,
        cli.duration > 0 ==> req.duration == cli.duration,
        cli_names(cli).0 is None ==> opt_text(req.interface) == opt_text(config.interface),
        cli.count == 0 ==> req.count == config.count,
{
}

} // verus!
