//! Overlay seams kept apart from the upstream surface: sandbox metadata
//! helpers, a light-weight event view, and the intro banner extension
//! point.

use vstd::prelude::*;
use crate::observer::{Event, EventMsg};
use vstd::string::StringExecFns;

verus! {

/// The sandbox modes the overlay distinguishes, reduced to what its logic
/// reads: whether writes are confined, and whether network access was
/// granted alongside workspace writes.
#[derive(Clone, Copy, Debug)]
pub enum SandboxPolicy {
    DangerFullAccess,
    ReadOnly,
    WorkspaceWrite { network_access: bool },
}

/// Extension trait for sandbox metadata, kept separate from the policy
/// type itself so the two can evolve apart.
pub trait SandboxPolicyExt {
    /// What the policy permits, as a predicate.
    spec fn network_access_spec(&self) -> bool;

    /// Whether the policy lets the sandboxed process reach the network.
    fn network_access_enabled(&self) -> (r: bool)
        ensures
            r == self.network_access_spec(),
    ;
}

impl SandboxPolicyExt for SandboxPolicy {
    open spec fn network_access_spec(&self) -> bool {
        match *self {
            SandboxPolicy::DangerFullAccess => true,
            SandboxPolicy::WorkspaceWrite { network_access } => network_access,
            SandboxPolicy::ReadOnly => false,
        }
    }

    fn network_access_enabled(&self) -> (r: bool) {
        matches!(
            self,
            SandboxPolicy::DangerFullAccess | SandboxPolicy::WorkspaceWrite {
                network_access: true,
            },
        )
    }
}

/// A borrowed view over one event, so overlays can attach metadata while
/// the original stays intact.
#[derive(Clone, Copy, Debug)]
pub struct EventView<'a> {
    pub id: &'a str,
    pub msg: &'a EventMsg,
}

impl<'a> EventView<'a> {
    /// A view over the given event.
    pub fn from_event(event: &'a Event) -> (r: Self)
        ensures
            r.id@ == event.id@,
            *r.msg == event.msg,
    {
        EventView { id: event.id.as_str(), msg: &event.msg }
    }
}

/// Extension point for branding: which lines the intro banner shows.
pub trait IntroBannerProvider {
    /// The banner's lines, as character sequences.
    spec fn banner_lines_spec(&self) -> Seq<Seq<char>>;

    /// The banner's lines, top to bottom.
    fn banner_lines(&self) -> (r: Vec<String>)
        ensures
            r@.map_values(|s: String| s@) == self.banner_lines_spec(),
    ;
}

/// The stock banner.
pub struct DefaultBanner;

impl IntroBannerProvider for DefaultBanner {
    open spec fn banner_lines_spec(&self) -> Seq<Seq<char>> {
        seq!["Welcome to Smarty"@]
    }

    fn banner_lines(&self) -> (r: Vec<String>) {
        let mut r: Vec<String> = Vec::new();
        r.push(String::from_str("Welcome to Smarty"));
        proof {
            assert(r@.map_values(|s: String| s@) =~= seq!["Welcome to Smarty"@]);
        }
        r
    }
}

} // verus!
