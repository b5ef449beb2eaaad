//! The asset handle registry: holds the single outstanding reference to the
//! requested scene asset and answers a poll-style "is it ready yet" query.
//!
//! Decoding happens off the critical path in the external asset-loading
//! collaborator: the caller that drives that collaborator hands the decoded
//! asset in through [`Registry::deliver`], and `poll` surfaces it. No error
//! is surfaced at this layer; a load failure is a permanently pending handle.

use vstd::prelude::*;

use crate::scene::{Handle, SceneAsset};

verus! {

/// The process-wide asset handle registry.
pub struct Registry {
    /// The handle of the single outstanding request, once issued.
    pub issued: Option<Handle>,
    /// The path the outstanding request named.
    pub path: Option<String>,
    /// The decoded asset, once the external loader has produced it.
    pub loaded: Option<SceneAsset>,
}

impl Registry {
    /// An empty registry: nothing requested, nothing loaded.
    pub fn new() -> (r: Registry)
        ensures
            r.issued is None,
            r.path is None,
            r.loaded is None,
    {
        Registry { issued: None, path: None, loaded: None }
    }

    /// Issue a load request for the asset at `path` and return immediately
    /// with a pending handle. The registry holds a single outstanding
    /// reference, so a request may be made only once.
    pub fn request(&mut self, path: String) -> (h: Handle)
        requires
            old(self).issued is None,
        ensures
            final(self).issued == Some(h),
            final(self).path == Some(path),
            final(self).loaded == old(self).loaded,
    {
        let h = Handle { id: 0 };
        self.issued = Some(h);
        self.path = Some(path);
        h
    }

    /// The path of the outstanding request, for the external loader to act
    /// on.
    pub fn requested_path(&self) -> (r: Option<&String>)
        ensures
            match r {
                Some(p) => self.path == Some(*p),
                None => self.path is None,
            },
    {
        self.path.as_ref()
    }

    /// Record the decoded asset the external loading collaborator produced
    /// for the outstanding request.
    pub fn deliver(&mut self, asset: SceneAsset)
        requires
            old(self).issued is Some,
        ensures
            final(self).loaded == Some(asset),
            final(self).issued == old(self).issued,
            final(self).path == old(self).path,
    {
        self.loaded = Some(asset);
    }

    /// Non-blocking poll: the decoded asset once it is available for `h`,
    /// `None` otherwise.
    pub fn poll(&self, h: &Handle) -> (r: Option<&SceneAsset>)
        ensures
            match r {
                Some(a) => self.issued == Some(*h) && self.loaded == Some(*a),
                None => !(self.issued == Some(*h) && self.loaded is Some),
            },
    {
        match &self.issued {
            Some(issued) => {
                if issued.id == h.id {
                    self.loaded.as_ref()
                } else {
                    None
                }
            },
            None => None,
        }
    }
}

} // verus!
