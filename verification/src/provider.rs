//! The provider of command and file resources: its schema, and the resources and data
//! sources it registers.

use vstd::prelude::*;

use crate::diagnostics::{one_more_error, Diagnostics};
use crate::schema::{plain_block, plain_block_of, Block, Schema};

verus! {

/// The machine on which a resource or data source does its work
#[derive(Debug, Clone, Copy, PartialEq, Eq)]
pub enum ConnectionKind {
    /// The machine that runs the provider
    Local,
    /// A machine reached over SSH
    Ssh,
}

/// What a registered resource or data source is
#[derive(Debug, Clone, Copy, PartialEq, Eq)]
pub enum Registered {
    /// Managed (or read) with commands
    Exec(ConnectionKind),
    /// A file, whose content is sensitive or not
    File { sensitive: bool, connection: ConnectionKind },
}

/// The provider of command and file resources
#[derive(Debug, Default, Clone, Copy)]
pub struct CmdProvider {}

/// The names under which the provider registers its resources, and also its data sources:
/// commands and files, plain or sensitive, on the local machine and over SSH
pub open spec fn registered(r: Seq<(String, Registered)>) -> bool {
    &&& r.len() == 6
    &&& r[0].0@ == "local_exec"@ && r[0].1 == Registered::Exec(ConnectionKind::Local)
    &&& r[1].0@ == "ssh_exec"@ && r[1].1 == Registered::Exec(ConnectionKind::Ssh)
    &&& r[2].0@ == "local_file"@ && r[2].1 == Registered::File { sensitive: false, connection: ConnectionKind::Local }
    &&& r[3].0@ == "ssh_file"@ && r[3].1 == Registered::File { sensitive: false, connection: ConnectionKind::Ssh }
    &&& r[4].0@ == "local_sensitive_file"@ && r[4].1 == Registered::File { sensitive: true, connection: ConnectionKind::Local }
    &&& r[5].0@ == "ssh_sensitive_file"@ && r[5].1 == Registered::File { sensitive: true, connection: ConnectionKind::Ssh }
}

/// The six kinds that the provider registers
fn registrations() -> (r: Vec<(String, Registered)>)
    ensures
        registered(r@),
{
    let mut r: Vec<(String, Registered)> = Vec::new();
    r.push(("local_exec".to_owned(), Registered::Exec(ConnectionKind::Local)));
    r.push(("ssh_exec".to_owned(), Registered::Exec(ConnectionKind::Ssh)));
    r.push(("local_file".to_owned(), Registered::File { sensitive: false, connection: ConnectionKind::Local }));
    r.push(("ssh_file".to_owned(), Registered::File { sensitive: false, connection: ConnectionKind::Ssh }));
    r.push(("local_sensitive_file".to_owned(), Registered::File { sensitive: true, connection: ConnectionKind::Local }));
    r.push(("ssh_sensitive_file".to_owned(), Registered::File { sensitive: true, connection: ConnectionKind::Ssh }));
    r
}

impl CmdProvider {
    /// The schema of the provider: an empty block described as `cmd`
    pub fn schema(&self) -> (r: Schema)
        ensures
            r.version == 1,
            plain_block(r.block, "cmd"@),
            r.block.attributes@.len() == 0,
            r.block.blocks@.len() == 0,
    {
        Schema { version: 1, block: plain_block_of(Vec::new(), Vec::new(), "cmd") }
    }

    /// The resources of the provider, by name (see [`registered`])
    pub fn get_resources(&self) -> (r: Vec<(String, Registered)>)
        ensures
            registered(r@),
    {
        registrations()
    }

    /// The data sources of the provider, by name (see [`registered`])
    pub fn get_data_sources(&self) -> (r: Vec<(String, Registered)>)
        ensures
            registered(r@),
    {
        registrations()
    }
}

/// The schema of the metadata of a provider that declares none: version 1, an empty block
/// described as `empty`
pub fn default_meta_schema() -> (r: Schema)
    ensures
        r.version == 1,
        plain_block(r.block, "empty"@),
        r.block.attributes@.len() == 0,
        r.block.blocks@.len() == 0,
{
    Schema { version: 1, block: Block::default() }
}

/// What a resource that cannot upgrade its state answers: the error "Upgrade is not
/// supported", and no state
pub fn upgrade_unsupported<T>(diags: &mut Diagnostics) -> (r: Option<T>)
    ensures
        r is None,
        one_more_error(old(diags)@, final(diags)@, "Upgrade is not supported"@, Seq::empty(), Seq::empty()),
{
    diags.root_error_short("Upgrade is not supported");
    None
}

} // verus!
