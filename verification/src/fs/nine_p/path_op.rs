//! Operations on paths: what to ask the server, one request at a time.
use crate::fs::nine_p::errors::{Error, ENOSYS, EOPNOTSUPP};
use crate::fs::nine_p::{Fid, GetattrMask, Qid, Rgetattr, SetAttr, SetattrMask, AT_REMOVEDIR};
use crate::text;
use vstd::prelude::*;

verus! {

/// What is to be done with a path.
#[derive(Clone, Copy, Debug, PartialEq, Eq, Structural)]
pub enum PathOpKind {
    /// Open a file, with 9P flags; create it first, with a mode.
    Open { lflags: u32, mode: u32, create: bool },
    Chmod { mode: u32 },
    Chown { user: Option<u16>, group: Option<u16> },
    FileStatus,
    Mkdir { mode: u32 },
    /// Remove a file or a directory.
    Remove { is_file: bool },
}

impl PathOpKind {
    /// The root cannot be created.
    pub open spec fn is_possible(self, components: Seq<Seq<char>>) -> bool {
        self is Open && self->create ==> components.len() > 0
    }
}

/// What an operation gives.
#[derive(Clone, Copy, Debug, PartialEq, Eq, Structural)]
pub enum Outcome {
    Opened { qid: Qid, fid: Fid },
    Attributes(Rgetattr),
    Done,
}

/// Where an operation is.
#[derive(Clone, Copy, Debug)]
pub enum Stage {
    /// Walking to the parent of the path.
    WalkToParent,
    /// Walking to the path.
    Walk,
    /// Acting on the fid that the walk to the parent gave.
    ActInParent { fid: Fid },
    /// Acting on the fid that the walk gave.
    Act { fid: Fid },
    /// Giving the fid back, after an action with an outcome.
    Release { fid: Fid, in_parent: bool, outcome: Result<Outcome, Error> },
    /// Finished.
    Finished { outcome: Result<Outcome, Error> },
}

/// What the server replied.
#[derive(Clone, Copy, Debug, PartialEq, Eq, Structural)]
pub enum Reply {
    /// The fid that a walk led to.
    Walked(Fid),
    Opened(Qid),
    Created { qid: Qid, fid: Fid },
    Attributes(Rgetattr),
    Done,
    Failed(Error),
}

/// What to ask the server.
#[derive(Debug)]
pub enum Request {
    /// Make a copy of a fid.
    CloneFid(Fid),
    /// Walk from a fid along names.
    Walk { from: Fid, names: Vec<String> },
    Open { fid: Fid, lflags: u32 },
    /// Create a file and open it.
    Create { dir: Fid, name: String, lflags: u32, mode: u32 },
    GetAttr { fid: Fid, wanted: u64 },
    SetAttr { fid: Fid, mask: u32, attr: SetAttr },
    Mkdir { dir: Fid, name: String, mode: u32 },
    UnlinkAt { dir: Fid, name: String, flags: u32 },
    Remove { fid: Fid },
    /// Give a fid back to the server.
    Clunk { fid: Fid },
    /// Forget a fid that the server has forgotten already.
    FreeFid { fid: Fid },
}

/// The value of a [`Request`].
pub enum RequestView {
    CloneFid(Fid),
    Walk { from: Fid, names: Seq<Seq<char>> },
    Open { fid: Fid, lflags: u32 },
    Create { dir: Fid, name: Seq<char>, lflags: u32, mode: u32 },
    GetAttr { fid: Fid, wanted: u64 },
    SetAttr { fid: Fid, mask: u32, attr: SetAttr },
    Mkdir { dir: Fid, name: Seq<char>, mode: u32 },
    UnlinkAt { dir: Fid, name: Seq<char>, flags: u32 },
    Remove { fid: Fid },
    Clunk { fid: Fid },
    FreeFid { fid: Fid },
}

impl View for Request {
    type V = RequestView;

    open spec fn view(&self) -> RequestView {
        match self {
            Request::CloneFid(fid) => RequestView::CloneFid(*fid),
            Request::Walk { from, names } => RequestView::Walk {
                from: *from,
                names: text::texts(names@),
            },
            Request::Open { fid, lflags } => RequestView::Open { fid: *fid, lflags: *lflags },
            Request::Create { dir, name, lflags, mode } => RequestView::Create {
                dir: *dir,
                name: name@,
                lflags: *lflags,
                mode: *mode,
            },
            Request::GetAttr { fid, wanted } => RequestView::GetAttr {
                fid: *fid,
                wanted: *wanted,
            },
            Request::SetAttr { fid, mask, attr } => RequestView::SetAttr {
                fid: *fid,
                mask: *mask,
                attr: *attr,
            },
            Request::Mkdir { dir, name, mode } => RequestView::Mkdir {
                dir: *dir,
                name: name@,
                mode: *mode,
            },
            Request::UnlinkAt { dir, name, flags } => RequestView::UnlinkAt {
                dir: *dir,
                name: name@,
                flags: *flags,
            },
            Request::Remove { fid } => RequestView::Remove { fid: *fid },
            Request::Clunk { fid } => RequestView::Clunk { fid: *fid },
            Request::FreeFid { fid } => RequestView::FreeFid { fid: *fid },
        }
    }
}

/// The value of a [`PathOp`].
#[verifier::ext_equal]
pub struct PathOpView {
    pub kind: PathOpKind,
    /// The components of the path.
    pub components: Seq<Seq<char>>,
    pub stage: Stage,
    /// Whether the server is believed to support `unlinkat`.
    pub unlinkat_supported: bool,
}

/// Whether an operation acts on the parent of its path.
pub open spec fn acts_in_parent(kind: PathOpKind, unlinkat_supported: bool) -> bool {
    match kind {
        PathOpKind::Open { create, .. } => create,
        PathOpKind::Mkdir { .. } => true,
        PathOpKind::Remove { .. } => unlinkat_supported,
        _ => false,
    }
}

/// An operation that has just begun.
pub open spec fn begun(
    kind: PathOpKind,
    components: Seq<Seq<char>>,
    unlinkat_supported: bool,
) -> PathOpView {
    PathOpView {
        kind,
        components,
        stage: if acts_in_parent(kind, unlinkat_supported) {
            if components.len() == 0 {
                Stage::Finished { outcome: Err(Error::InvalidPathname) }
            } else {
                Stage::WalkToParent
            }
        } else {
            Stage::Walk
        },
        unlinkat_supported,
    }
}

/// How to walk from the root along names. A walk to the root itself is a copy of its fid, unless
/// a file is to be opened there.
pub open spec fn walk_request(kind: PathOpKind, root: Fid, names: Seq<Seq<char>>) -> RequestView {
    if names.len() == 0 && !(kind is Open) {
        RequestView::CloneFid(root)
    } else {
        RequestView::Walk { from: root, names }
    }
}

/// The owner to set, and which of its parts.
pub open spec fn chown_request(fid: Fid, user: Option<u16>, group: Option<u16>) -> RequestView {
    RequestView::SetAttr {
        fid,
        mask: (if user is Some {
            SetattrMask::UID
        } else {
            0
        }) | (if group is Some {
            SetattrMask::GID
        } else {
            0
        }),
        attr: SetAttr {
            mode: 0,
            uid: if user is Some {
                user->Some_0 as u32
            } else {
                0
            },
            gid: if group is Some {
                group->Some_0 as u32
            } else {
                0
            },
            size: 0,
        },
    }
}

impl PathOpView {
    /// The last component of the path.
    pub open spec fn name(self) -> Seq<char> {
        self.components.last()
    }

    /// What to ask the server next.
    pub open spec fn request(self, root: Fid) -> Option<RequestView> {
        match self.stage {
            Stage::WalkToParent => Some(
                walk_request(self.kind, root, self.components.drop_last()),
            ),
            Stage::Walk => Some(walk_request(self.kind, root, self.components)),
            Stage::ActInParent { fid } => Some(
                match self.kind {
                    PathOpKind::Open { lflags, mode, .. } => RequestView::Create {
                        dir: fid,
                        name: self.name(),
                        lflags,
                        mode,
                    },
                    PathOpKind::Mkdir { mode } => RequestView::Mkdir {
                        dir: fid,
                        name: self.name(),
                        mode,
                    },
                    PathOpKind::Remove { is_file } => RequestView::UnlinkAt {
                        dir: fid,
                        name: self.name(),
                        flags: if is_file {
                            0
                        } else {
                            AT_REMOVEDIR
                        },
                    },
                    _ => RequestView::Clunk { fid },
                },
            ),
            Stage::Act { fid } => Some(
                match self.kind {
                    PathOpKind::Open { lflags, .. } => RequestView::Open { fid, lflags },
                    PathOpKind::Chmod { mode } => RequestView::SetAttr {
                        fid,
                        mask: SetattrMask::MODE,
                        attr: SetAttr { mode, uid: 0, gid: 0, size: 0 },
                    },
                    PathOpKind::Chown { user, group } => chown_request(fid, user, group),
                    PathOpKind::FileStatus => RequestView::GetAttr {
                        fid,
                        wanted: GetattrMask::ALL,
                    },
                    PathOpKind::Remove { .. } => RequestView::Remove { fid },
                    PathOpKind::Mkdir { .. } => RequestView::Clunk { fid },
                },
            ),
            Stage::Release { fid, in_parent, .. } => Some(
                if self.kind is Remove && !in_parent {
                    RequestView::FreeFid { fid }
                } else {
                    RequestView::Clunk { fid }
                },
            ),
            Stage::Finished { .. } => None,
        }
    }

    /// The operation in another stage.
    pub open spec fn at(self, stage: Stage) -> PathOpView {
        PathOpView { stage, ..self }
    }

    /// The operation after a reply to its request.
    pub open spec fn after(self, reply: Reply) -> PathOpView {
        match self.stage {
            Stage::WalkToParent => self.at(
                match reply {
                    Reply::Walked(fid) => Stage::ActInParent { fid },
                    _ => Stage::Finished { outcome: Err(failure(reply)) },
                },
            ),
            Stage::Walk => self.at(
                match reply {
                    Reply::Walked(fid) => Stage::Act { fid },
                    _ => Stage::Finished { outcome: Err(failure(reply)) },
                },
            ),
            Stage::ActInParent { fid } => self.at(
                if self.kind is Open {
                    Stage::Finished { outcome: outcome_of(self.kind, fid, reply) }
                } else {
                    Stage::Release {
                        fid,
                        in_parent: true,
                        outcome: outcome_of(self.kind, fid, reply),
                    }
                },
            ),
            Stage::Act { fid } => self.at(
                if self.kind is Open {
                    Stage::Finished { outcome: outcome_of(self.kind, fid, reply) }
                } else {
                    Stage::Release {
                        fid,
                        in_parent: false,
                        outcome: outcome_of(self.kind, fid, reply),
                    }
                },
            ),
            Stage::Release { in_parent, outcome, .. } => if self.kind is Remove && in_parent
                && is_unsupported(outcome) {
                // The server has no `unlinkat`: try again without it.
                PathOpView { unlinkat_supported: false, stage: Stage::Walk, ..self }
            } else {
                self.at(Stage::Finished { outcome })
            },
            Stage::Finished { .. } => self,
        }
    }
}

/// The error that a reply stands for, where it is not the one that was asked for.
pub open spec fn failure(reply: Reply) -> Error {
    match reply {
        Reply::Failed(e) => e,
        _ => Error::InvalidResponse,
    }
}

/// Whether an outcome says that the server does not support what it was asked for.
pub open spec fn is_unsupported(outcome: Result<Outcome, Error>) -> bool {
    outcome == Err::<Outcome, Error>(Error::Remote(ENOSYS)) || outcome == Err::<Outcome, Error>(
        Error::Remote(EOPNOTSUPP),
    )
}

/// The outcome that the reply to an action stands for.
pub open spec fn outcome_of(kind: PathOpKind, fid: Fid, reply: Reply) -> Result<Outcome, Error> {
    match (kind, reply) {
        (PathOpKind::Open { create: false, .. }, Reply::Opened(qid)) => Ok(
            Outcome::Opened { qid, fid },
        ),
        (PathOpKind::Open { create: true, .. }, Reply::Created { qid, fid }) => Ok(
            Outcome::Opened { qid, fid },
        ),
        (PathOpKind::FileStatus, Reply::Attributes(attr)) => Ok(Outcome::Attributes(attr)),
        (PathOpKind::Chmod { .. }, Reply::Done) => Ok(Outcome::Done),
        (PathOpKind::Chown { .. }, Reply::Done) => Ok(Outcome::Done),
        (PathOpKind::Mkdir { .. }, Reply::Done) => Ok(Outcome::Done),
        (PathOpKind::Remove { .. }, Reply::Done) => Ok(Outcome::Done),
        _ => Err(failure(reply)),
    }
}

/// An operation on a path.
#[derive(Debug)]
pub struct PathOp {
    kind: PathOpKind,
    components: Vec<String>,
    stage: Stage,
    unlinkat_supported: bool,
}

impl View for PathOp {
    type V = PathOpView;

    closed spec fn view(&self) -> PathOpView {
        PathOpView {
            kind: self.kind,
            components: text::texts(self.components@),
            stage: self.stage,
            unlinkat_supported: self.unlinkat_supported,
        }
    }
}

fn failure_in(reply: Reply) -> (r: Error)
    ensures
        r == failure(reply),
{
    match reply {
        Reply::Failed(e) => e,
        _ => Error::InvalidResponse,
    }
}

fn outcome_in(kind: PathOpKind, fid: Fid, reply: Reply) -> (r: Result<Outcome, Error>)
    ensures
        r == outcome_of(kind, fid, reply),
{
    match (kind, reply) {
        (PathOpKind::Open { create: false, .. }, Reply::Opened(qid)) => Ok(
            Outcome::Opened { qid, fid },
        ),
        (PathOpKind::Open { create: true, .. }, Reply::Created { qid, fid }) => Ok(
            Outcome::Opened { qid, fid },
        ),
        (PathOpKind::FileStatus, Reply::Attributes(attr)) => Ok(Outcome::Attributes(attr)),
        (PathOpKind::Chmod { .. }, Reply::Done) => Ok(Outcome::Done),
        (PathOpKind::Chown { .. }, Reply::Done) => Ok(Outcome::Done),
        (PathOpKind::Mkdir { .. }, Reply::Done) => Ok(Outcome::Done),
        (PathOpKind::Remove { .. }, Reply::Done) => Ok(Outcome::Done),
        _ => Err(failure_in(reply)),
    }
}

impl PathOp {
    /// Begin an operation.
    pub fn begin(kind: PathOpKind, components: Vec<String>, unlinkat_supported: bool) -> (r: Self)
        requires
            kind.is_possible(text::texts(components@)),
        ensures
            r@ == begun(kind, text::texts(components@), unlinkat_supported),
    {
        let in_parent = match kind {
            PathOpKind::Open { create, .. } => create,
            PathOpKind::Mkdir { .. } => true,
            PathOpKind::Remove { .. } => unlinkat_supported,
            _ => false,
        };
        let stage = if in_parent {
            if components.len() == 0 {
                Stage::Finished { outcome: Err(Error::InvalidPathname) }
            } else {
                Stage::WalkToParent
            }
        } else {
            Stage::Walk
        };
        PathOp { kind, components, stage, unlinkat_supported }
    }

    /// Whether the server is believed to support `unlinkat`.
    pub fn unlinkat_is_supported(&self) -> (r: bool)
        ensures
            r == self@.unlinkat_supported,
    {
        self.unlinkat_supported
    }

    /// Where the operation is.
    pub fn stage(&self) -> (r: Stage)
        ensures
            r == self@.stage,
    {
        self.stage
    }

    /// Walk to the first `n` components from the root.
    fn walk_to(&self, root: Fid, n: usize) -> (r: Request)
        requires
            n <= self@.components.len(),
        ensures
            r@ == walk_request(self@.kind, root, self@.components.take(n as int)),
    {
        let is_open = match self.kind {
            PathOpKind::Open { .. } => true,
            _ => false,
        };
        if n == 0 && !is_open {
            Request::CloneFid(root)
        } else {
            Request::Walk { from: root, names: text::copy_prefix(&self.components, n) }
        }
    }

    /// What to ask the server next, if the operation has not finished.
    pub fn request(&self, root: Fid) -> (r: Option<Request>)
        requires
            self@.stage is WalkToParent || self@.stage is ActInParent ==> self@.components.len() > 0,
        ensures
            match r {
                Some(request) => self@.request(root) == Some(request@),
                None => self@.request(root) is None,
            },
    {
        match self.stage {
            Stage::WalkToParent => {
                let n: usize = self.components.len() - 1;
                assert(self@.components.take(n as int) =~= self@.components.drop_last());
                Some(self.walk_to(root, n))
            },
            Stage::Walk => {
                let n: usize = self.components.len();
                assert(self@.components.take(n as int) =~= self@.components);
                Some(self.walk_to(root, n))
            },
            Stage::ActInParent { fid } => {
                let last: usize = self.components.len() - 1;
                let name = self.components[last].clone();
                assert(name@ == self@.name());
                Some(
                    match self.kind {
                        PathOpKind::Open { lflags, mode, .. } => Request::Create {
                            dir: fid,
                            name,
                            lflags,
                            mode,
                        },
                        PathOpKind::Mkdir { mode } => Request::Mkdir { dir: fid, name, mode },
                        PathOpKind::Remove { is_file } => Request::UnlinkAt {
                            dir: fid,
                            name,
                            flags: if is_file {
                                0
                            } else {
                                AT_REMOVEDIR
                            },
                        },
                        _ => Request::Clunk { fid },
                    },
                )
            },
            Stage::Act { fid } => Some(
                match self.kind {
                    PathOpKind::Open { lflags, .. } => Request::Open { fid, lflags },
                    PathOpKind::Chmod { mode } => Request::SetAttr {
                        fid,
                        mask: SetattrMask::MODE,
                        attr: SetAttr { mode, uid: 0, gid: 0, size: 0 },
                    },
                    PathOpKind::Chown { user, group } => {
                        let (uid_mask, uid): (u32, u32) = match user {
                            Some(u) => (SetattrMask::UID, u as u32),
                            None => (0, 0),
                        };
                        let (gid_mask, gid): (u32, u32) = match group {
                            Some(g) => (SetattrMask::GID, g as u32),
                            None => (0, 0),
                        };
                        Request::SetAttr {
                            fid,
                            mask: uid_mask | gid_mask,
                            attr: SetAttr { mode: 0, uid, gid, size: 0 },
                        }
                    },
                    PathOpKind::FileStatus => Request::GetAttr { fid, wanted: GetattrMask::ALL },
                    PathOpKind::Remove { .. } => Request::Remove { fid },
                    PathOpKind::Mkdir { .. } => Request::Clunk { fid },
                },
            ),
            Stage::Release { fid, in_parent, .. } => {
                let removed = match self.kind {
                    PathOpKind::Remove { .. } => !in_parent,
                    _ => false,
                };
                if removed {
                    Some(Request::FreeFid { fid })
                } else {
                    Some(Request::Clunk { fid })
                }
            },
            Stage::Finished { .. } => None,
        }
    }

    /// Take the reply of the server to the request.
    pub fn reply(&mut self, reply: Reply)
        ensures
            final(self)@ == old(self)@.after(reply),
    {
        let is_open = match self.kind {
            PathOpKind::Open { .. } => true,
            _ => false,
        };
        let is_remove = match self.kind {
            PathOpKind::Remove { .. } => true,
            _ => false,
        };
        match self.stage {
            Stage::WalkToParent => {
                self.stage = match reply {
                    Reply::Walked(fid) => Stage::ActInParent { fid },
                    _ => Stage::Finished { outcome: Err(failure_in(reply)) },
                };
            },
            Stage::Walk => {
                self.stage = match reply {
                    Reply::Walked(fid) => Stage::Act { fid },
                    _ => Stage::Finished { outcome: Err(failure_in(reply)) },
                };
            },
            Stage::ActInParent { fid } => {
                let outcome = outcome_in(self.kind, fid, reply);
                self.stage = if is_open {
                    Stage::Finished { outcome }
                } else {
                    Stage::Release { fid, in_parent: true, outcome }
                };
            },
            Stage::Act { fid } => {
                let outcome = outcome_in(self.kind, fid, reply);
                self.stage = if is_open {
                    Stage::Finished { outcome }
                } else {
                    Stage::Release { fid, in_parent: false, outcome }
                };
            },
            Stage::Release { in_parent, outcome, .. } => {
                let unsupported = match outcome {
                    Err(Error::Remote(errno)) => errno == ENOSYS || errno == EOPNOTSUPP,
                    _ => false,
                };
                if is_remove && in_parent && unsupported {
                    self.unlinkat_supported = false;
                    self.stage = Stage::Walk;
                } else {
                    self.stage = Stage::Finished { outcome };
                }
            },
            Stage::Finished { .. } => {},
        }
    }
}

/// Whether an operation has components where its stage needs them.
pub open spec fn is_sound(op: PathOpView) -> bool {
    op.stage is WalkToParent || op.stage is ActInParent ==> op.components.len() > 0
}

/// An operation that has begun can always be asked for its request, whatever the replies.
pub proof fn lemma_requests_are_possible(
    kind: PathOpKind,
    components: Seq<Seq<char>>,
    unlinkat_supported: bool,
    op: PathOpView,
    reply: Reply,
)
    requires
        kind.is_possible(components),
    ensures
        is_sound(begun(kind, components, unlinkat_supported)),
        is_sound(op) ==> is_sound(op.after(reply)),
{
}

/// A fid that a walk gave is given back after the action on it, whatever the outcome, except that
/// an open file keeps it.
pub proof fn lemma_fids_are_released(op: PathOpView, root: Fid, fid: Fid, reply: Reply)
    requires
        op.stage == (Stage::Act { fid }) || op.stage == (Stage::ActInParent { fid }),
        !(op.kind is Open),
    ensures
        op.after(reply).stage is Release,
        op.after(reply).request(root) == Some(RequestView::Clunk { fid }) || (op.kind is Remove
            && op.stage is Act && op.after(reply).request(root) == Some(
            RequestView::FreeFid { fid },
        )),
{
}

/// The outcome of an action is the outcome of the operation, whatever comes of giving back the
/// fid, unless the action was one that the server does not support.
pub proof fn lemma_outcome_is_kept(op: PathOpView, fid: Fid, reply: Reply, released: Reply)
    requires
        op.stage == (Stage::Act { fid }),
        !(op.kind is Open),
    ensures
        op.after(reply).after(released).stage == (Stage::Finished {
            outcome: outcome_of(op.kind, fid, reply),
        }),
{
}

/// Where the server does not support `unlinkat`, removing falls back to a walk to the path.
pub proof fn lemma_remove_falls_back(op: PathOpView, root: Fid, fid: Fid, errno: u32, released: Reply)
    requires
        op.stage == (Stage::ActInParent { fid }),
        op.kind is Remove,
        errno == ENOSYS || errno == EOPNOTSUPP,
    ensures
        op.after(Reply::Failed(Error::Remote(errno))).after(released) == (PathOpView {
            stage: Stage::Walk,
            unlinkat_supported: false,
            ..op
        }),
{
}

} // verus!
