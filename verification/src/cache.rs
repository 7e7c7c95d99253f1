//! The resource cache: one entry for each identity, at most one fetch under
//! way for each, and a fixed place on disk for what a fetch brings.

use vstd::prelude::*;
use vstd::string::StringExecFns;
use crate::keyed::KeyedStore;
use crate::model::Team;
use crate::navigator::{image_identity, picture_identity};

verus! {

/// Calls `directories::ProjectDirs::from` and then `cache_dir` on what it
/// returns. The answer depends on the machine and on the user's environment,
/// so nothing is claimed of it: `None` where there is no home directory, or
/// where the path is not valid Unicode.
#[verifier::external_body]
pub(crate) fn project_cache_dir(qualifier: &str, organization: &str, application: &str) -> (dir:
    Option<String>) {
    match directories::ProjectDirs::from(qualifier, organization, application) {
        Some(dirs) => match dirs.cache_dir().to_str() {
            Some(text) => Some(text.to_owned()),
            None => None,
        },
        None => None,
    }
}

/// The state of one cache entry.
#[derive(Clone, Copy, Debug, PartialEq, Eq, Structural)]
pub enum ResourceState {
    /// A fetch is under way.
    Pending,
    /// The payload is on disk. A resident entry never changes again.
    Resident,
    /// The last fetch failed; the next request tries again.
    Failed,
}

/// What a lookup tells the caller.
#[derive(Clone, Debug, PartialEq, Eq)]
pub enum Resolution {
    Resident { location: String },
    Pending,
    Absent,
}

/// A resolution with its location taken as a sequence of characters.
pub enum ResolutionView {
    Resident { location: Seq<char> },
    Pending,
    Absent,
}

impl View for Resolution {
    type V = ResolutionView;

    open spec fn view(&self) -> ResolutionView {
        match *self {
            Resolution::Resident { location } => ResolutionView::Resident { location: location@ },
            Resolution::Pending => ResolutionView::Pending,
            Resolution::Absent => ResolutionView::Absent,
        }
    }
}

/// A fetch to be started: the identity to ask for and the file to write.
#[derive(Clone, Debug, PartialEq, Eq)]
pub struct FetchRequest {
    pub identity: String,
    pub destination: String,
}

/// The answer to a request, and the fetch that it starts, if any.
#[derive(Clone, Debug, PartialEq, Eq)]
pub struct Resolved {
    pub resolution: Resolution,
    pub fetch: Option<FetchRequest>,
}

/// The file that holds the payload of `identity` below the cache directory
/// `root`.
pub open spec fn location_text(root: Seq<char>, identity: Seq<char>) -> Seq<char> {
    root + "/image-cache/"@ + identity + ".jpeg"@
}

/// Whether a request for `identity` starts a fetch: it does where the cache
/// has no entry, or one that failed.
pub open spec fn triggers_fetch(m: Map<Seq<char>, ResourceState>, identity: Seq<char>) -> bool {
    !m.contains_key(identity) || m[identity] == ResourceState::Failed
}

/// The entries after a request for `identity`.
pub open spec fn after_resolve(m: Map<Seq<char>, ResourceState>, identity: Seq<char>) -> Map<
    Seq<char>,
    ResourceState,
> {
    if triggers_fetch(m, identity) {
        m.insert(identity, ResourceState::Pending)
    } else {
        m
    }
}

/// The entries after a fetch for `identity` has ended, with the payload
/// stored or not.
pub open spec fn after_complete(
    m: Map<Seq<char>, ResourceState>,
    identity: Seq<char>,
    stored: bool,
) -> Map<Seq<char>, ResourceState> {
    if m.contains_key(identity) && m[identity] == ResourceState::Resident {
        m
    } else if stored {
        m.insert(identity, ResourceState::Resident)
    } else {
        m.insert(identity, ResourceState::Failed)
    }
}

/// What a lookup of `identity` shows.
pub open spec fn seen(m: Map<Seq<char>, ResourceState>, root: Seq<char>, identity: Seq<char>)
    -> ResolutionView {
    if !m.contains_key(identity) {
        ResolutionView::Absent
    } else {
        match m[identity] {
            ResourceState::Resident => ResolutionView::Resident {
                location: location_text(root, identity),
            },
            ResourceState::Pending => ResolutionView::Pending,
            ResourceState::Failed => ResolutionView::Absent,
        }
    }
}

/// How many fetches `count` requests for `identity` in a row start.
pub open spec fn fetches_started(m: Map<Seq<char>, ResourceState>, identity: Seq<char>, count: nat)
    -> nat
    decreases count,
{
    if count == 0 {
        0
    } else {
        let first: nat = if triggers_fetch(m, identity) {
            1
        } else {
            0
        };
        first + fetches_started(after_resolve(m, identity), identity, (count - 1) as nat)
    }
}

/// The index of the cache: the state of each identity ever asked for, and
/// the directory below which payloads are kept.
pub struct ResourceCache {
    root: String,
    entries: KeyedStore<ResourceState>,
}

impl ResourceCache {
    /// The invariant of the index: no identity has two entries.
    pub closed spec fn wf(&self) -> bool {
        self.entries.wf()
    }

    /// The index as a map from identity to state.
    pub closed spec fn view(&self) -> Map<Seq<char>, ResourceState> {
        self.entries@
    }

    /// The cache directory.
    pub closed spec fn root(&self) -> Seq<char> {
        self.root@
    }

    /// An empty cache over the directory `root`.
    pub fn new(root: &str) -> (c: ResourceCache)
        ensures
            c.wf(),
            c.root() == root@,
            c@ == Map::<Seq<char>, ResourceState>::empty(),
    {
        ResourceCache { root: String::from_str(root), entries: KeyedStore::new() }
    }

    /// An empty cache over the cache directory that the system gives to the
    /// named application, where it gives one.
    pub fn for_application(qualifier: &str, organization: &str, application: &str) -> (r: Option<
        ResourceCache,
    >)
        ensures
            match r {
                Some(c) => c.wf() && c@ == Map::<Seq<char>, ResourceState>::empty(),
                None => true,
            },
    {
        ResourceCache::over_directory(project_cache_dir(qualifier, organization, application))
    }

    /// An empty cache over `dir`, where there is a directory; none where
    /// there is not.
    pub fn over_directory(dir: Option<String>) -> (r: Option<ResourceCache>)
        ensures
            match dir {
                Some(path) => match r {
                    Some(c) => {
                        &&& c.wf()
                        &&& c.root() == path@
                        &&& c@ == Map::<Seq<char>, ResourceState>::empty()
                    },
                    None => false,
                },
                None => r is None,
            },
    {
        match dir {
            Some(path) => Some(ResourceCache::new(path.as_str())),
            None => None,
        }
    }

    /// The file that holds, or will hold, the payload of `identity`.
    pub fn location(&self, identity: &str) -> (r: String)
        ensures
            r@ == location_text(self.root(), identity@),
    {
        let mut path = self.root.clone();
        path.append("/image-cache/");
        path.append(identity);
        path.append(".jpeg");
        path
    }

    /// Looks `identity` up without changing anything. A failed entry counts
    /// as absent.
    pub fn peek(&self, identity: &str) -> (r: Resolution)
        requires
            self.wf(),
        ensures
            r@ == seen(self@, self.root(), identity@),
    {
        match self.entries.get(identity) {
            Some(ResourceState::Resident) => Resolution::Resident {
                location: self.location(identity),
            },
            Some(ResourceState::Pending) => Resolution::Pending,
            Some(ResourceState::Failed) => Resolution::Absent,
            None => Resolution::Absent,
        }
    }

    /// Asks for `identity`. A resident entry answers with its location. An
    /// entry with a fetch under way answers pending and starts nothing. A
    /// missing or failed entry becomes pending, and the answer carries the
    /// one fetch to start.
    pub fn resolve(&mut self, identity: &str) -> (r: Resolved)
        requires
            old(self).wf(),
        ensures
            final(self).wf(),
            final(self).root() == old(self).root(),
            final(self)@ == after_resolve(old(self)@, identity@),
            r.resolution@ == seen(final(self)@, old(self).root(), identity@),
            !(r.resolution is Absent),
            match r.fetch {
                Some(request) => {
                    &&& triggers_fetch(old(self)@, identity@)
                    &&& request.identity@ == identity@
                    &&& request.destination@ == location_text(old(self).root(), identity@)
                },
                None => !triggers_fetch(old(self)@, identity@),
            },
    {
        match self.peek(identity) {
            Resolution::Absent => {
                self.entries.insert(identity, ResourceState::Pending);
                Resolved {
                    resolution: Resolution::Pending,
                    fetch: Some(
                        FetchRequest {
                            identity: String::from_str(identity),
                            destination: self.location(identity),
                        },
                    ),
                }
            },
            known => Resolved { resolution: known, fetch: None },
        }
    }

    /// Records how a fetch for `identity` ended: `stored` says whether the
    /// payload was written to its location. A resident entry stays as it is.
    pub fn complete(&mut self, identity: &str, stored: bool)
        requires
            old(self).wf(),
        ensures
            final(self).wf(),
            final(self).root() == old(self).root(),
            final(self)@ == after_complete(old(self)@, identity@, stored),
    {
        let resident = match self.entries.get(identity) {
            Some(ResourceState::Resident) => true,
            _ => false,
        };
        if !resident {
            let state = if stored {
                ResourceState::Resident
            } else {
                ResourceState::Failed
            };
            self.entries.insert(identity, state);
        }
    }

    /// The file in which a team's picture is kept.
    pub fn team_picture_location(&self, team: &Team) -> (r: String)
        ensures
            r@ == location_text(self.root(), picture_identity(*team)),
    {
        let identity = image_identity(team);
        self.location(identity.as_str())
    }
}

/// After a request for an identity, a further request for it starts no
/// fetch and changes nothing, until a fetch ends.
pub proof fn lemma_repeated_resolve_waits(m: Map<Seq<char>, ResourceState>, identity: Seq<char>)
    ensures
        !triggers_fetch(after_resolve(m, identity), identity),
        after_resolve(after_resolve(m, identity), identity) == after_resolve(m, identity),
{
}

/// Any number of requests for one identity in a row start at most one fetch,
/// and exactly one where the identity was missing or failed before the first.
pub proof fn lemma_one_fetch_per_identity(
    m: Map<Seq<char>, ResourceState>,
    identity: Seq<char>,
    count: nat,
)
    ensures
        fetches_started(m, identity, count) <= 1,
        count >= 1 && triggers_fetch(m, identity) ==> fetches_started(m, identity, count) == 1,
        !triggers_fetch(m, identity) ==> fetches_started(m, identity, count) == 0,
    decreases count,
{
    if count > 0 {
        lemma_repeated_resolve_waits(m, identity);
        lemma_one_fetch_per_identity(after_resolve(m, identity), identity, (count - 1) as nat);
    }
}

/// A request leaves the entries of other identities as they were, and a
/// resident entry stays resident through requests and completions.
pub proof fn lemma_resident_is_final(
    m: Map<Seq<char>, ResourceState>,
    identity: Seq<char>,
    other: Seq<char>,
    stored: bool,
)
    requires
        m.contains_key(identity),
        m[identity] == ResourceState::Resident,
    ensures
        after_resolve(m, other).contains_key(identity),
        after_resolve(m, other)[identity] == ResourceState::Resident,
        after_complete(m, other, stored).contains_key(identity),
        after_complete(m, other, stored)[identity] == ResourceState::Resident,
{
}

/// From any state of the index: a request for an identity that is not
/// resident leaves it pending, and once its fetch has ended with the payload
/// stored, a lookup shows it resident at its location and a further request
/// starts no fetch.
pub proof fn lemma_stored_fetch_makes_resident(
    m: Map<Seq<char>, ResourceState>,
    root: Seq<char>,
    identity: Seq<char>,
)
    requires
        !(m.contains_key(identity) && m[identity] == ResourceState::Resident),
    ensures
        seen(after_resolve(m, identity), root, identity) == ResolutionView::Pending,
        seen(after_complete(after_resolve(m, identity), identity, true), root, identity) == (
        ResolutionView::Resident { location: location_text(root, identity) }),
        !triggers_fetch(after_complete(after_resolve(m, identity), identity, true), identity),
{
}

} // verus!
