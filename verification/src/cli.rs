//! The commands and their arguments, as plain values.
use vstd::prelude::*;

use crate::store::Sensitivity;

verus! {

/// The command line: a command, or none to launch the browser.
pub struct Cli {
    pub command: Option<Command>,
}

/// A command of the command line.
pub enum Command {
    /// Set a config value (interactive if no arguments given).
    SetValue(SetArgs),
    /// Get a config value.
    Get(GetArgs),
    /// List config values.
    List(ListArgs),
    /// Remove a config item (values and metadata).
    Remove(RemoveArgs),
    /// Manage catalog metadata.
    Catalog(CatalogCommand),
    /// Manage encryption keys.
    Keys(KeysCommand),
    /// Assemble .env files from a topology.
    Assemble(AssembleArgs),
    /// Validate items (completeness and consistency).
    Validate,
    /// Import values from a dotenv or YAML file.
    Import(ImportArgs),
    /// Store-level configuration.
    Config(ConfigCommand),
    /// Summary of the store's health.
    Status,
    /// Set up keys, environments and topologies for a project.
    Init(InitArgs),
}

/// Arguments of `assemble`.
pub struct AssembleArgs {
    /// Topology name from topologies.yaml.
    pub topology: String,
    /// Assemble only this component.
    pub component: Option<String>,
    /// Continue on missing store values (writes empty value instead of erroring).
    pub allow_missing: bool,
    /// Print the output instead of writing files.
    pub dry_run: bool,
}

/// Arguments of `set`.
pub struct SetArgs {
    /// Config item ID (e.g., `paddle.api_key`).
    pub id: Option<String>,
    /// Environment(s).
    pub env: Vec<String>,
    /// Value to set.
    pub value: Option<String>,
    /// Encrypt as sensitive.
    pub sensitive: bool,
    /// Encrypt as secret.
    pub secret: bool,
}

/// Arguments of `get`.
pub struct GetArgs {
    /// Config item ID.
    pub id: String,
    /// Environment(s); none to show all.
    pub env: Vec<String>,
    /// Reveal encrypted values as plaintext.
    pub reveal: bool,
}

/// Arguments of `list`.
pub struct ListArgs {
    /// Filter by tag (e.g., vendor:paddle).
    pub tag: Option<String>,
    /// Filter by environment(s).
    pub env: Vec<String>,
    /// Reveal encrypted values as plaintext.
    pub reveal: bool,
}

/// Arguments of `remove`.
pub struct RemoveArgs {
    /// Config item ID to remove.
    pub id: String,
}

/// The `catalog` subcommands.
pub enum CatalogCommand {
    /// Add or update catalog metadata for an item.
    Add(CatalogAddArgs),
    /// Remove an item entirely.
    Remove(CatalogRemoveArgs),
    /// List items with their catalog metadata.
    List(CatalogListArgs),
    /// Show full details of a catalog item.
    Show(CatalogShowArgs),
}

/// Arguments of `catalog add`.
pub struct CatalogAddArgs {
    /// Config item ID.
    pub id: String,
    /// Description of the config item.
    pub description: Option<String>,
    /// Sensitivity level.
    pub sensitivity: Option<Sensitivity>,
    /// Where to obtain this value.
    pub origin: Option<String>,
    /// Expected environment(s).
    pub env: Vec<String>,
    /// Tag(s) (e.g., vendor:paddle).
    pub tag: Vec<String>,
}

/// Arguments of `catalog remove`.
pub struct CatalogRemoveArgs {
    /// Config item ID to remove.
    pub id: String,
}

/// Arguments of `catalog list`.
pub struct CatalogListArgs {
    /// Filter by environment.
    pub env: Vec<String>,
    /// Filter by tag.
    pub tag: Option<String>,
    /// Filter by sensitivity level.
    pub sensitivity: Option<Sensitivity>,
}

/// Arguments of `catalog show`.
pub struct CatalogShowArgs {
    /// Config item ID.
    pub id: String,
}

/// The `keys` subcommands.
pub enum KeysCommand {
    /// Generate a new encryption key for this directory.
    Init,
    /// Show key status.
    Status,
    /// Export the encryption key (for sharing with team members).
    Export,
}

/// The input formats `import` reads.
#[derive(Debug, Clone, Copy, PartialEq, Eq, Structural)]
pub enum Format {
    Dotenv,
    Yaml,
}

/// Arguments of `import`.
pub struct ImportArgs {
    /// File to import, or `-` for standard input.
    pub path: String,
    /// Environment the values are stored under.
    pub env: String,
    /// Input format; detected from the file name when absent.
    pub format: Option<Format>,
    /// Encrypt all values as sensitive.
    pub sensitive: bool,
    /// Encrypt all values as secret.
    pub secret: bool,
    /// Keep values that already exist for the environment.
    pub skip_existing: bool,
    /// Report what would happen without writing.
    pub dry_run: bool,
}

/// The `config` subcommands.
pub enum ConfigCommand {
    /// Set the store's default environments (none clears them).
    SetDefaults(ConfigSetDefaultsArgs),
    /// Show the store's default environments.
    Show,
}

/// Arguments of `config set-defaults`.
pub struct ConfigSetDefaultsArgs {
    pub envs: Vec<String>,
}

/// Arguments of `init`.
pub struct InitArgs {
    /// Default environments; none to choose interactively.
    pub env: Vec<String>,
}

} // verus!
