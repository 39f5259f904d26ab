//! The flake-input update checker's data model and its request-path
//! formatting: which revision range to ask a source forge to compare.
//! The network and command-line legs live with the callers; here is the
//! part that decides what to ask for.

use vstd::prelude::*;

use vstd::string::StringExecFns;

verus! {

/// Where a locked input comes from.
pub enum SourceType {
    GitHub,
    GitLab,
}

/// The `original` reference of a flake input: what was asked for.
pub struct Original {
    pub owner: String,
    pub _ref: Option<String>,
    pub repo: String,
    pub _type: SourceType,
}

/// The `locked` state of a flake input: what is pinned right now.
pub struct Locked {
    pub last_modified: u64,
    pub nar_hash: String,
    pub owner: String,
    pub repo: String,
    pub rev: String,
    pub _type: SourceType,
}

/// An update check against a source forge's compare endpoint, for one
/// locked input and its original reference.
pub struct Github<'a> {
    pub use_cli: bool,
    pub lock: &'a Locked,
    pub orig: &'a Original,
}

impl Github<'_> {
    /// The compare endpoint for this input: the locked revision against
    /// the requested reference, or against `HEAD` when none was named.
    pub fn generate_enpoint(&self) -> (r: String)
        ensures
            r@ == "repos/"@ + self.orig.owner@ + "/"@ + self.orig.repo@ + "/compare/"@
                + self.lock.rev@ + "..."@ + (match self.orig._ref {
                Some(rf) => rf@,
                None => "HEAD"@,
            }),
    {
        let mut out = String::new();
        out.append("repos/");
        out.append(self.orig.owner.as_str());
        out.append("/");
        out.append(self.orig.repo.as_str());
        out.append("/compare/");
        out.append(self.lock.rev.as_str());
        out.append("...");
        match &self.orig._ref {
            Some(rf) => out.append(rf.as_str()),
            None => out.append("HEAD"),
        }
        proof {
            assert(out@ =~= "repos/"@ + self.orig.owner@ + "/"@ + self.orig.repo@ + "/compare/"@
                + self.lock.rev@ + "..."@ + (match self.orig._ref {
                Some(rf) => rf@,
                None => "HEAD"@,
            }));
        }
        out
    }
}

} // verus!
