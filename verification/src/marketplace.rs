//! The `marketplace` command: its arguments and what it reports.
use crate::text::{chars_of, push_str, string_of};
use vstd::prelude::*;

verus! {

/// The arguments of removing a marketplace.
#[derive(Debug)]
pub struct RemoveMarketplaceArgs {
    /// Configured marketplace name to remove.
    pub marketplace_name: String,
}

/// The subcommands of the `marketplace` command.
#[derive(Debug)]
pub enum MarketplaceSubcommand {
    Remove(RemoveMarketplaceArgs),
}

/// The `marketplace` command.
#[derive(Debug)]
pub struct MarketplaceCli {
    pub subcommand: MarketplaceSubcommand,
}

/// The lines printed after a marketplace was removed: its name, then its installed root when
/// one was removed.
pub fn removal_report(marketplace_name: &str, removed_installed_root: Option<&str>) -> (r: Vec<String>)
    ensures
        r@.len() >= 1,
        r@[0]@ == "Removed marketplace `"@ + marketplace_name@ + "`."@,
        match removed_installed_root {
            Some(root) => r@.len() == 2 && r@[1]@ == "Removed installed marketplace root: "@ + root@,
            None => r@.len() == 1,
        },
{
    let mut lines: Vec<String> = Vec::new();
    let mut first = chars_of("Removed marketplace `");
    push_str(&mut first, marketplace_name);
    push_str(&mut first, "`.");
    lines.push(string_of(first.as_slice()));
    match removed_installed_root {
        Some(root) => {
            let mut second = chars_of("Removed installed marketplace root: ");
            push_str(&mut second, root);
            lines.push(string_of(second.as_slice()));
        },
        None => {},
    }
    lines
}

} // verus!
