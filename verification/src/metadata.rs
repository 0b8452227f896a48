//! Getting the metadata of one package: from the cache where it holds the
//! document, else from the index, whose answer is written back.
//!
//! A [`MetadataFetch`] decides; its caller looks into the cache, asks the
//! index and reports what came back.

use crate::client::{answered, describe, metadata_url, IndexReply, RegistryClient};
use crate::error::{CobraError, ErrorView};
use crate::installer::{metadata_cache_key, metadata_key};
use crate::package::{Package, PackageView};
use vstd::prelude::*;

verus! {

/// The step that a metadata request is in.
#[derive(Clone, Copy, Debug, PartialEq, Eq, Structural)]
pub enum FetchPhase {
    /// Nothing has been asked for yet.
    Created,
    /// The cache was asked for the document.
    LookingUp,
    /// The index was asked.
    Asking,
    /// The answer of the index is being written to the cache.
    Storing,
    /// The package is known.
    Done,
    /// The request has failed.
    Failed,
}

/// What a caller reports to a metadata request.
#[derive(Debug)]
pub enum FetchEvent {
    /// The request is to begin.
    Start,
    /// The cache holds a document, and it decodes to this package.
    Cached(Package),
    /// The cache holds no document, or one that does not decode.
    NotCached,
    /// The index has answered.
    Answered(IndexReply),
    /// The cache was written.
    Completed,
    /// The index could not be reached, or the cache could not be written.
    /// A cache that cannot store is no reason to fail: the request hands
    /// out its package all the same.
    Failed(CobraError),
}

/// What a metadata request asks its caller to do next.
#[derive(Debug)]
pub enum FetchAction {
    /// Look the key up in the cache and decode what it holds; report
    /// `Cached` or `NotCached`.
    LookUp { key: String },
    /// Ask the index at the address; report `Answered` or `Failed`.
    Ask { url: String },
    /// Encode the request's package and put it into the cache under the
    /// key; report `Completed`.
    Store { key: String },
    /// The request is over, with this result.
    Finish(Result<Package, CobraError>),
}

/// The mathematical value of a [`FetchAction`].
pub enum FetchActionView {
    LookUp { key: Seq<char> },
    Ask { url: Seq<char> },
    Store { key: Seq<char> },
    Finish(Result<PackageView, ErrorView>),
}

impl View for FetchAction {
    type V = FetchActionView;

    open spec fn view(&self) -> FetchActionView {
        match self {
            FetchAction::LookUp { key } => FetchActionView::LookUp { key: key@ },
            FetchAction::Ask { url } => FetchActionView::Ask { url: url@ },
            FetchAction::Store { key } => FetchActionView::Store { key: key@ },
            FetchAction::Finish(Ok(p)) => FetchActionView::Finish(Ok(p@)),
            FetchAction::Finish(Err(e)) => FetchActionView::Finish(Err(e@)),
        }
    }
}

/// What a report says, as far as a request looks at it.
pub enum FetchEventView {
    Start,
    Cached(PackageView),
    NotCached,
    /// The package that the answer describes, or why it describes none.
    Answered(Result<PackageView, ErrorView>),
    Completed,
    Failed(ErrorView),
}

/// The mathematical value of a [`MetadataFetch`].
pub struct FetchView {
    pub name: Seq<char>,
    pub url: Seq<char>,
    pub key: Seq<char>,
    pub use_cache: bool,
    pub phase: FetchPhase,
    /// The package, once the index has described it.
    pub package: Option<PackageView>,
}

impl FetchView {
    /// The request in another step.
    pub open spec fn at(self, phase: FetchPhase) -> FetchView {
        FetchView {
            name: self.name,
            url: self.url,
            key: self.key,
            use_cache: self.use_cache,
            phase,
            package: self.package,
        }
    }

    /// The request in another step, knowing its package.
    pub open spec fn knowing(self, phase: FetchPhase, package: PackageView) -> FetchView {
        FetchView {
            name: self.name,
            url: self.url,
            key: self.key,
            use_cache: self.use_cache,
            phase,
            package: Some(package),
        }
    }

    /// The failure of a request to which something was reported that its
    /// step does not wait for.
    pub open spec fn out_of_step() -> ErrorView {
        ErrorView::ResolutionFailed("metadata request received a report out of step"@)
    }

    /// What a report says to a request that asked for `name`.
    pub open spec fn reading(self, event: FetchEvent) -> FetchEventView {
        match event {
            FetchEvent::Start => FetchEventView::Start,
            FetchEvent::Cached(p) => FetchEventView::Cached(p@),
            FetchEvent::NotCached => FetchEventView::NotCached,
            FetchEvent::Answered(reply) => FetchEventView::Answered(answered(self.name, reply)),
            FetchEvent::Completed => FetchEventView::Completed,
            FetchEvent::Failed(e) => FetchEventView::Failed(e@),
        }
    }

    /// The step that a report takes the request to, and what the request
    /// asks for then.
    ///
    /// A request first looks into the cache, if there is one, and is over
    /// when the cache holds the package. Else it asks the index; what the
    /// index describes is written to the cache and handed out. A failure
    /// ends the request, and so does a report that the step does not wait
    /// for; a request that is over stays over.
    pub open spec fn step(self, event: FetchEventView) -> (FetchView, FetchActionView) {
        let derailed = (
            self.at(FetchPhase::Failed),
            FetchActionView::Finish(Err(Self::out_of_step())),
        );
        match self.phase {
            FetchPhase::Done | FetchPhase::Failed => (
                self,
                FetchActionView::Finish(Err(Self::out_of_step())),
            ),
            _ => match event {
                FetchEventView::Failed(e) => match (self.phase, self.package) {
                    (FetchPhase::Storing, Some(p)) => (
                        self.at(FetchPhase::Done),
                        FetchActionView::Finish(Ok(p)),
                    ),
                    _ => (self.at(FetchPhase::Failed), FetchActionView::Finish(Err(e))),
                },
                FetchEventView::Start => if self.phase != FetchPhase::Created {
                    derailed
                } else if self.use_cache {
                    (self.at(FetchPhase::LookingUp), FetchActionView::LookUp { key: self.key })
                } else {
                    (self.at(FetchPhase::Asking), FetchActionView::Ask { url: self.url })
                },
                FetchEventView::Cached(p) => if self.phase != FetchPhase::LookingUp {
                    derailed
                } else {
                    (self.knowing(FetchPhase::Done, p), FetchActionView::Finish(Ok(p)))
                },
                FetchEventView::NotCached => if self.phase != FetchPhase::LookingUp {
                    derailed
                } else {
                    (self.at(FetchPhase::Asking), FetchActionView::Ask { url: self.url })
                },
                FetchEventView::Answered(described) => if self.phase != FetchPhase::Asking {
                    derailed
                } else {
                    match described {
                        Err(e) => (self.at(FetchPhase::Failed), FetchActionView::Finish(Err(e))),
                        Ok(p) => if self.use_cache {
                            (
                                self.knowing(FetchPhase::Storing, p),
                                FetchActionView::Store { key: self.key },
                            )
                        } else {
                            (self.knowing(FetchPhase::Done, p), FetchActionView::Finish(Ok(p)))
                        },
                    }
                },
                FetchEventView::Completed => match (self.phase, self.package) {
                    (FetchPhase::Storing, Some(p)) => (
                        self.at(FetchPhase::Done),
                        FetchActionView::Finish(Ok(p)),
                    ),
                    _ => derailed,
                },
            },
        }
    }
}

/// A request hands out a package only as the cache held it or as the index
/// described it, and it asks the index only when the cache was not asked
/// or did not hold the package.
pub proof fn lemma_fetch_sources(fetch: FetchView, event: FetchEventView)
    ensures
        match fetch.step(event).1 {
            FetchActionView::Finish(Ok(p)) => (fetch.phase == FetchPhase::LookingUp && event
                == FetchEventView::Cached(p)) || (fetch.phase == FetchPhase::Asking && event
                == FetchEventView::Answered(Ok(p)) && !fetch.use_cache) || (fetch.phase
                == FetchPhase::Storing && fetch.package == Some(p)),
            FetchActionView::Ask { url } => url == fetch.url && ((fetch.phase
                == FetchPhase::Created && !fetch.use_cache) || (fetch.phase
                == FetchPhase::LookingUp && event == FetchEventView::NotCached)),
            FetchActionView::Store { key } => key == fetch.key && fetch.use_cache && fetch.phase
                == FetchPhase::Asking,
            _ => true,
        },
{
}

/// The request for the metadata of one package.
pub struct MetadataFetch {
    name: String,
    url: String,
    key: String,
    use_cache: bool,
    phase: FetchPhase,
    package: Option<Package>,
}

impl View for MetadataFetch {
    type V = FetchView;

    closed spec fn view(&self) -> FetchView {
        FetchView {
            name: self.name@,
            url: self.url@,
            key: self.key@,
            use_cache: self.use_cache,
            phase: self.phase,
            package: match self.package {
                Some(p) => Some(p@),
                None => None,
            },
        }
    }
}

fn out_of_step() -> (e: CobraError)
    ensures
        e@ == FetchView::out_of_step(),
{
    CobraError::ResolutionFailed(
        String::from_str("metadata request received a report out of step"),
    )
}

impl MetadataFetch {
    /// A request for the metadata of `name` under the constraint
    /// `version_spec` at the index of `client`, that has not begun.
    pub fn new(client: &RegistryClient, name: &str, version_spec: &str, use_cache: bool) -> (fetch:
        Self)
        ensures
            fetch@ == (FetchView {
                name: name@,
                url: metadata_url(client.base_url(), name@, version_spec@),
                key: metadata_key(name@, version_spec@),
                use_cache,
                phase: FetchPhase::Created,
                package: None,
            }),
    {
        let url = client.package_url(name, version_spec);
        let key = metadata_cache_key(name, version_spec);
        MetadataFetch {
            name: String::from_str(name),
            url,
            key,
            use_cache,
            phase: FetchPhase::Created,
            package: None,
        }
    }

    /// The step that the request is in.
    pub fn phase(&self) -> (phase: FetchPhase)
        ensures
            phase == self@.phase,
    {
        self.phase
    }

    /// The package of the request, once the index has described it.
    pub fn package(&self) -> (package: Option<&Package>)
        ensures
            match package {
                Some(p) => self@.package == Some(p@),
                None => self@.package is None,
            },
    {
        self.package.as_ref()
    }

    fn derail(&mut self) -> (action: FetchAction)
        ensures
            final(self)@ == old(self)@.at(FetchPhase::Failed),
            action@ == FetchActionView::Finish(Err(FetchView::out_of_step())),
    {
        self.phase = FetchPhase::Failed;
        FetchAction::Finish(Err(out_of_step()))
    }

    fn proceed(&mut self, phase: FetchPhase, action: FetchAction) -> (asked: FetchAction)
        ensures
            final(self)@ == old(self)@.at(phase),
            asked == action,
    {
        self.phase = phase;
        action
    }

    /// Takes a report and says what is to be done next.
    pub fn step(&mut self, event: FetchEvent) -> (action: FetchAction)
        ensures
            final(self)@ == old(self)@.step(old(self)@.reading(event)).0,
            action@ == old(self)@.step(old(self)@.reading(event)).1,
    {
        let phase = self.phase;
        match phase {
            FetchPhase::Done => {
                return FetchAction::Finish(Err(out_of_step()));
            },
            FetchPhase::Failed => {
                return FetchAction::Finish(Err(out_of_step()));
            },
            _ => {},
        }
        match event {
            FetchEvent::Failed(e) => {
                let known = match &self.package {
                    Some(p) => Some(p.clone()),
                    None => None,
                };
                match known {
                    Some(p) => {
                        if phase == FetchPhase::Storing {
                            self.proceed(FetchPhase::Done, FetchAction::Finish(Ok(p)))
                        } else {
                            self.phase = FetchPhase::Failed;
                            FetchAction::Finish(Err(e))
                        }
                    },
                    None => {
                        self.phase = FetchPhase::Failed;
                        FetchAction::Finish(Err(e))
                    },
                }
            },
            FetchEvent::Start => {
                if phase != FetchPhase::Created {
                    self.derail()
                } else if self.use_cache {
                    let key = self.key.clone();
                    self.proceed(FetchPhase::LookingUp, FetchAction::LookUp { key })
                } else {
                    let url = self.url.clone();
                    self.proceed(FetchPhase::Asking, FetchAction::Ask { url })
                }
            },
            FetchEvent::Cached(p) => {
                if phase != FetchPhase::LookingUp {
                    self.derail()
                } else {
                    self.package = Some(p.clone());
                    self.phase = FetchPhase::Done;
                    FetchAction::Finish(Ok(p))
                }
            },
            FetchEvent::NotCached => {
                if phase != FetchPhase::LookingUp {
                    self.derail()
                } else {
                    let url = self.url.clone();
                    self.proceed(FetchPhase::Asking, FetchAction::Ask { url })
                }
            },
            FetchEvent::Answered(reply) => {
                if phase != FetchPhase::Asking {
                    self.derail()
                } else {
                    match describe(self.name.as_str(), &reply) {
                        Err(e) => {
                            self.phase = FetchPhase::Failed;
                            FetchAction::Finish(Err(e))
                        },
                        Ok(p) => {
                            if self.use_cache {
                                self.package = Some(p);
                                self.phase = FetchPhase::Storing;
                                FetchAction::Store { key: self.key.clone() }
                            } else {
                                self.package = Some(p.clone());
                                self.phase = FetchPhase::Done;
                                FetchAction::Finish(Ok(p))
                            }
                        },
                    }
                }
            },
            FetchEvent::Completed => {
                if phase != FetchPhase::Storing {
                    return self.derail();
                }
                let known = match &self.package {
                    Some(p) => Some(p.clone()),
                    None => None,
                };
                match known {
                    Some(p) => self.proceed(FetchPhase::Done, FetchAction::Finish(Ok(p))),
                    None => self.derail(),
                }
            },
        }
    }
}

} // verus!
