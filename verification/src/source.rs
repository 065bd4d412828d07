//! Download sources: joining a relative path onto the base address of a mirror.

use crate::text::optional_text;
use vstd::prelude::*;

verus! {

/// One file to synchronize: where a mirror keeps it, relative to the mirror's
/// base address; where the local store keeps it, relative to the store's root;
/// and the digest of its content.
#[derive(Debug, PartialEq, Eq)]
pub struct SyncTarget {
    pub remote: String,
    pub dest: String,
    pub sha1: String,
}

/// An instruction to fetch one file: from which address, to which path of the
/// local store (relative to its root), under which display name, and with
/// which digest to check the transfer against.
#[derive(Debug, PartialEq, Eq)]
pub struct DownloadParam {
    pub src: String,
    pub dest: String,
    pub filename: Option<String>,
    pub sha1: Option<String>,
}

/// What a `SyncTarget` stands for.
pub struct TargetView {
    pub remote: Seq<char>,
    pub dest: Seq<char>,
    pub sha1: Seq<char>,
}

/// What a `DownloadParam` stands for.
pub struct DownloadParamView {
    pub src: Seq<char>,
    pub dest: Seq<char>,
    pub filename: Option<Seq<char>>,
    pub sha1: Option<Seq<char>>,
}

impl View for SyncTarget {
    type V = TargetView;

    open spec fn view(&self) -> TargetView {
        TargetView { remote: self.remote@, dest: self.dest@, sha1: self.sha1@ }
    }
}

impl View for DownloadParam {
    type V = DownloadParamView;

    open spec fn view(&self) -> DownloadParamView {
        DownloadParamView {
            src: self.src@,
            dest: self.dest@,
            filename: optional_text(self.filename),
            sha1: optional_text(self.sha1),
        }
    }
}

/// The targets that a vector of targets stands for.
pub open spec fn target_views(targets: Seq<SyncTarget>) -> Seq<TargetView> {
    targets.map_values(|t: SyncTarget| t@)
}

/// The instructions that a vector of instructions stands for.
pub open spec fn param_views(params: Seq<DownloadParam>) -> Seq<DownloadParamView> {
    params.map_values(|p: DownloadParam| p@)
}

/// The address that the relative reference `reference` has below the address
/// `base`, in its normalized spelling; `None` where `base` is no absolute
/// address or `reference` cannot be resolved against it.
pub uninterp spec fn resolved_url(base: Seq<char>, reference: Seq<char>) -> Option<Seq<char>>;

/// The instruction that fetches `target` from `source`, the address it was
/// resolved to; none if it was resolved to no address. An instruction carries
/// no display name, and always the digest of the target.
pub open spec fn download_param(source: Option<Seq<char>>, target: TargetView) -> Option<
    DownloadParamView,
> {
    match source {
        Some(src) => Some(
            DownloadParamView { src, dest: target.dest, filename: None, sha1: Some(target.sha1) },
        ),
        None => None,
    }
}

/// The instruction that fetches `target` from the mirror at `base`, if the
/// target has an address there.
pub open spec fn fetch_for(base: Seq<char>, target: TargetView) -> Option<DownloadParamView> {
    download_param(resolved_url(base, target.remote), target)
}

/// Resolves `reference` against `base`.
///
/// Trusted: `url::Url::parse` reads `base` as an absolute address and
/// `url::Url::join` resolves `reference` against it. The result is the joined
/// address as `Url` spells it, and `None` if either call reports an error. Both
/// depend on their arguments alone.
#[verifier::external_body]
pub(crate) fn join_url(base: &str, reference: &str) -> (joined: Option<String>)
    ensures
        joined matches Some(address) ==> resolved_url(base@, reference@) == Some(address@),
        joined is None ==> resolved_url(base@, reference@) is None,
{
    match url::Url::parse(base) {
        Ok(parsed) => match parsed.join(reference) {
            Ok(joined) => Some(String::from(joined)),
            Err(_) => None,
        },
        Err(_) => None,
    }
}

impl Clone for SyncTarget {
    fn clone(&self) -> (copy: Self)
        ensures
            copy == *self,
    {
        SyncTarget {
            remote: self.remote.clone(),
            dest: self.dest.clone(),
            sha1: self.sha1.clone(),
        }
    }
}

impl SyncTarget {
    /// Whether `self` and `other` name the same file in the same places.
    pub fn same_as(&self, other: &SyncTarget) -> (same: bool)
        ensures
            same == (self@ == other@),
    {
        self.remote == other.remote && self.dest == other.dest && self.sha1 == other.sha1
    }
}

impl DownloadParam {
    /// The instruction that fetches `target` from `source`, the address that
    /// the target was resolved to; none if it was resolved to no address.
    pub fn for_target(source: Option<String>, target: &SyncTarget) -> (param: Option<DownloadParam>)
        ensures
            match param {
                Some(p) => download_param(optional_text(source), target@) == Some(p@),
                None => download_param(optional_text(source), target@) is None,
            },
    {
        match source {
            Some(src) => Some(
                DownloadParam {
                    src,
                    dest: target.dest.clone(),
                    filename: None,
                    sha1: Some(target.sha1.clone()),
                },
            ),
            None => None,
        }
    }

    /// The instruction that fetches `target` from the mirror at `base`, if the
    /// target has an address there.
    pub fn resolve(base: &str, target: &SyncTarget) -> (param: Option<DownloadParam>)
        ensures
            match param {
                Some(p) => fetch_for(base@, target@) == Some(p@),
                None => fetch_for(base@, target@) is None,
            },
    {
        DownloadParam::for_target(join_url(base, target.remote.as_str()), target)
    }
}

} // verus!
