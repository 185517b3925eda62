//! Moves one file: decides whether it is a duplicate, where it lands and by
//! which steps it gets there.
//!
//! A [`Mover`] never touches a file. It hands out one [`Request`] at a time,
//! is told the [`Reply`], and answers with the next request or with the
//! outcome. What it does in each situation is the function
//! [`MoverState::next`]; the laws that follow it are about whole moves.

use crate::index::DestinationIndex;
use crate::paths::{
    file_name, join, name_extension, name_stem, parent, path_file_name, path_join, path_parent,
    path_strip_prefix, split_name, strip_prefix,
};
use crate::text::{decimal_digits, decimal_string};
use vstd::prelude::*;
use vstd::string::StringExecFns;

verus! {

/// Something that a caller is asked to do to the file system.
#[derive(Debug, Clone, PartialEq, Eq)]
pub enum Request {
    /// Compute the fingerprint of the file at this path.
    Hash(String),
    /// Tell whether anything exists at this path.
    Exists(String),
    /// Create the directory at this path with every ancestor that is missing.
    CreateDirs(String),
    /// Rename the file `from` to `to`.
    Rename { from: String, to: String },
    /// Copy the bytes of the file `from` to `to`.
    Copy { from: String, to: String },
    /// Flush the file at this path to stable storage.
    Sync(String),
    /// Delete the file at this path.
    Remove(String),
}

/// A [`Request`] with its paths as sequences of characters.
pub enum RequestView {
    Hash(Seq<char>),
    Exists(Seq<char>),
    CreateDirs(Seq<char>),
    Rename { from: Seq<char>, to: Seq<char> },
    Copy { from: Seq<char>, to: Seq<char> },
    Sync(Seq<char>),
    Remove(Seq<char>),
}

impl View for Request {
    type V = RequestView;

    open spec fn view(&self) -> RequestView {
        match *self {
            Request::Hash(p) => RequestView::Hash(p@),
            Request::Exists(p) => RequestView::Exists(p@),
            Request::CreateDirs(p) => RequestView::CreateDirs(p@),
            Request::Rename { from, to } => RequestView::Rename { from: from@, to: to@ },
            Request::Copy { from, to } => RequestView::Copy { from: from@, to: to@ },
            Request::Sync(p) => RequestView::Sync(p@),
            Request::Remove(p) => RequestView::Remove(p@),
        }
    }
}

impl RequestView {
    /// Whether the request changes anything in the file system.
    pub open spec fn mutates(self) -> bool {
        !(self is Hash || self is Exists)
    }
}

/// What came of a [`Request`].
#[derive(Debug, Clone, PartialEq, Eq)]
pub enum Reply {
    /// The fingerprint asked for, or `None` where the file could not be read.
    Hash(Option<String>),
    /// Whether the path exists.
    Exists(bool),
    /// Whether the change asked for was made.
    Done(bool),
}

/// A [`Reply`] with its fingerprint as a sequence of characters.
pub enum ReplyView {
    Hash(Option<Seq<char>>),
    Exists(bool),
    Done(bool),
}

impl View for Reply {
    type V = ReplyView;

    open spec fn view(&self) -> ReplyView {
        match *self {
            Reply::Hash(Some(h)) => ReplyView::Hash(Some(h@)),
            Reply::Hash(None) => ReplyView::Hash(None),
            Reply::Exists(b) => ReplyView::Exists(b),
            Reply::Done(b) => ReplyView::Done(b),
        }
    }
}

/// The outcome of a move that did not fail.
#[derive(Debug, Clone, PartialEq, Eq)]
pub enum MoveResult {
    /// The file was moved. The path is where it went, which differs from the
    /// path asked for where that one was taken.
    Moved(String),
    /// The content is in the destination already. Nothing was changed.
    SkippedDuplicate,
}

/// A [`MoveResult`] with its path as a sequence of characters.
pub enum MoveResultView {
    Moved(Seq<char>),
    SkippedDuplicate,
}

impl View for MoveResult {
    type V = MoveResultView;

    open spec fn view(&self) -> MoveResultView {
        match *self {
            MoveResult::Moved(p) => MoveResultView::Moved(p@),
            MoveResult::SkippedDuplicate => MoveResultView::SkippedDuplicate,
        }
    }
}

/// What a [`Mover`] answers to a reply.
#[derive(Debug, Clone, PartialEq, Eq)]
pub enum MoveStep {
    /// The move goes on with this request.
    Ask(Request),
    /// The move is over and this came of it.
    Finished(MoveResult),
    /// The move is over and failed.
    Failed,
}

/// A [`MoveStep`] with its paths as sequences of characters.
pub enum MoveStepView {
    Ask(RequestView),
    Finished(MoveResultView),
    Failed,
}

impl View for MoveStep {
    type V = MoveStepView;

    open spec fn view(&self) -> MoveStepView {
        match *self {
            MoveStep::Ask(r) => MoveStepView::Ask(r@),
            MoveStep::Finished(r) => MoveStepView::Finished(r@),
            MoveStep::Failed => MoveStepView::Failed,
        }
    }
}

/// Which reply a [`Mover`] is waiting for.
#[derive(Debug, Clone, Copy, PartialEq, Eq)]
pub enum Stage {
    /// The fingerprint of the source.
    HashingSource,
    /// Whether the destination path is taken.
    ProbingDestination,
    /// The fingerprint of the file that holds the destination path.
    HashingDestination,
    /// Whether the numbered name on trial is taken.
    ProbingCandidate,
    /// The creation of the directory that the file goes into.
    CreatingParent,
    /// The rename of the source to the target.
    Renaming,
    /// The copy of the source to the target.
    Copying,
    /// The flush of the copy.
    Syncing,
    /// The removal of the source.
    Removing,
    /// None: the move is over.
    Done,
}

/// The path under `dest_root` that answers to `file` under `source_root`:
/// what is left of `file` after `source_root`, adjoined to `dest_root`. A
/// `file` that does not lie under `source_root` is adjoined whole.
pub open spec fn destination_of(
    source_root: Seq<char>,
    dest_root: Seq<char>,
    file: Seq<char>,
) -> Seq<char> {
    match path_strip_prefix(file, source_root) {
        Some(rest) => path_join(dest_root, rest),
        None => path_join(dest_root, file),
    }
}

/// Stem and extension of the last component of `path`, each empty where the
/// path has none.
pub open spec fn stem_and_extension(path: Seq<char>) -> (Seq<char>, Seq<char>) {
    match path_file_name(path) {
        Some(name) => (
            name_stem(name),
            match name_extension(name) {
                Some(ext) => ext,
                None => Seq::empty(),
            },
        ),
        None => (Seq::empty(), Seq::empty()),
    }
}

/// The file name made of `stem`, a hyphen, the decimal numeral of `number`
/// and, where `ext` is not empty, a dot and `ext`.
pub open spec fn numbered_name(stem: Seq<char>, ext: Seq<char>, number: nat) -> Seq<char> {
    let base = stem + seq!['-'] + decimal_digits(number);
    if ext.len() == 0 {
        base
    } else {
        base + seq!['.'] + ext
    }
}

/// The sibling of `dest` that carries `number`: in the directory of `dest`,
/// the name of `dest` with the number put before the extension. There is
/// none where `dest` has no directory above it.
pub open spec fn candidate(dest: Seq<char>, number: nat) -> Option<Seq<char>> {
    match path_parent(dest) {
        Some(dir) => Some(
            path_join(
                dir,
                numbered_name(stem_and_extension(dest).0, stem_and_extension(dest).1, number),
            ),
        ),
        None => None,
    }
}

/// Whether the sibling of `dest` with `number` is among the paths `present`.
pub open spec fn sibling_taken(dest: Seq<char>, present: Set<Seq<char>>, number: nat) -> bool {
    candidate(dest, number) matches Some(c) && present.contains(c)
}

/// What a [`Mover`] knows at a point of a move.
#[verifier::ext_equal]
pub struct MoverState {
    /// The reply awaited.
    pub stage: Stage,
    /// The file to move.
    pub source: Seq<char>,
    /// The path asked for.
    pub dest: Seq<char>,
    /// The fingerprint of the source, once it is known.
    pub hash: Seq<char>,
    /// The number of the name on trial or chosen; zero while the path asked
    /// for is on trial or chosen.
    pub number: nat,
    /// The path that the file is being moved to, once it is chosen.
    pub target: Seq<char>,
    /// The paths reported not to exist.
    pub absent: Set<Seq<char>>,
    /// The paths reported to exist.
    pub present: Set<Seq<char>>,
}

impl MoverState {
    /// The state in which a move of `source` to `dest` begins.
    pub open spec fn start(source: Seq<char>, dest: Seq<char>) -> MoverState {
        MoverState {
            stage: Stage::HashingSource,
            source,
            dest,
            hash: Seq::empty(),
            number: 0,
            target: Seq::empty(),
            absent: Set::empty(),
            present: Set::empty(),
        }
    }

    /// The state with the move over.
    pub open spec fn over(self) -> MoverState {
        MoverState { stage: Stage::Done, ..self }
    }

    /// Whether the target is chosen and the file is on its way there.
    pub open spec fn relocating(self) -> bool {
        self.stage is CreatingParent || self.stage is Renaming || self.stage is Copying
            || self.stage is Syncing || self.stage is Removing
    }

    /// Whether every name with a number below `self.number` was reported
    /// taken, and the path asked for as well.
    pub open spec fn lower_names_taken(self) -> bool {
        &&& self.present.contains(self.dest)
        &&& forall|j: nat|
            1 <= j < self.number ==> #[trigger] sibling_taken(self.dest, self.present, j)
    }

    /// What holds of every state that a move reaches.
    pub open spec fn wf(self) -> bool {
        &&& self.number <= u64::MAX
        &&& match self.stage {
            Stage::HashingSource | Stage::ProbingDestination => self.number == 0,
            Stage::HashingDestination => self.number == 0 && self.present.contains(self.dest),
            Stage::ProbingCandidate => {
                &&& self.number >= 1
                &&& candidate(self.dest, self.number) is Some
                &&& self.lower_names_taken()
            },
            Stage::CreatingParent | Stage::Renaming | Stage::Copying | Stage::Syncing
            | Stage::Removing => {
                &&& self.absent.contains(self.target)
                &&& if self.number == 0 {
                    self.target == self.dest
                } else {
                    &&& candidate(self.dest, self.number) == Some(self.target)
                    &&& self.lower_names_taken()
                }
            },
            Stage::Done => true,
        }
    }

    /// The request to rename the source to the target, and the state that
    /// awaits its reply.
    pub open spec fn relocate(self) -> (MoverState, MoveStepView) {
        (
            MoverState { stage: Stage::Renaming, ..self },
            MoveStepView::Ask(RequestView::Rename { from: self.source, to: self.target }),
        )
    }

    /// The choice of `target`, which was just reported free: the directory
    /// that it lies in is asked for first, and where it lies in none, the
    /// relocation begins at once.
    pub open spec fn settle(self, target: Seq<char>) -> (MoverState, MoveStepView) {
        let chosen = MoverState { target, absent: self.absent.insert(target), ..self };
        match path_parent(target) {
            Some(dir) => (
                MoverState { stage: Stage::CreatingParent, ..chosen },
                MoveStepView::Ask(RequestView::CreateDirs(dir)),
            ),
            None => chosen.relocate(),
        }
    }

    /// The trial of the name with `number`, or failure where the path asked
    /// for has no directory above it.
    pub open spec fn try_name(self, number: nat) -> (MoverState, MoveStepView) {
        match candidate(self.dest, number) {
            Some(c) => (
                MoverState { stage: Stage::ProbingCandidate, number, ..self },
                MoveStepView::Ask(RequestView::Exists(c)),
            ),
            None => (self.over(), MoveStepView::Failed),
        }
    }

    /// What the mover does on `reply`, with `index` holding the fingerprints
    /// of the destination: the state it goes to and the step it answers.
    ///
    /// A reply that is not of the kind awaited counts as the failure of what
    /// was asked.
    pub open spec fn next(self, reply: ReplyView, index: Set<Seq<char>>) -> (
        MoverState,
        MoveStepView,
    ) {
        match self.stage {
            Stage::HashingSource => match reply {
                ReplyView::Hash(Some(h)) => if index.contains(h) {
                    (
                        MoverState { hash: h, ..self.over() },
                        MoveStepView::Finished(MoveResultView::SkippedDuplicate),
                    )
                } else {
                    (
                        MoverState { stage: Stage::ProbingDestination, hash: h, ..self },
                        MoveStepView::Ask(RequestView::Exists(self.dest)),
                    )
                },
                _ => (self.over(), MoveStepView::Failed),
            },
            Stage::ProbingDestination => match reply {
                ReplyView::Exists(true) => (
                    MoverState {
                        stage: Stage::HashingDestination,
                        present: self.present.insert(self.dest),
                        ..self
                    },
                    MoveStepView::Ask(RequestView::Hash(self.dest)),
                ),
                ReplyView::Exists(false) => self.settle(self.dest),
                _ => (self.over(), MoveStepView::Failed),
            },
            Stage::HashingDestination => if reply == ReplyView::Hash(Some(self.hash)) {
                (self.over(), MoveStepView::Finished(MoveResultView::SkippedDuplicate))
            } else {
                self.try_name(1)
            },
            Stage::ProbingCandidate => match reply {
                ReplyView::Exists(taken) => match candidate(self.dest, self.number) {
                    Some(c) => if !taken {
                        self.settle(c)
                    } else if self.number < u64::MAX {
                        MoverState { present: self.present.insert(c), ..self }.try_name(
                            self.number + 1,
                        )
                    } else {
                        (self.over(), MoveStepView::Failed)
                    },
                    None => (self.over(), MoveStepView::Failed),
                },
                _ => (self.over(), MoveStepView::Failed),
            },
            Stage::CreatingParent => if reply == ReplyView::Done(true) {
                self.relocate()
            } else {
                (self.over(), MoveStepView::Failed)
            },
            Stage::Renaming => if reply == ReplyView::Done(true) {
                (self.over(), MoveStepView::Finished(MoveResultView::Moved(self.target)))
            } else {
                (
                    MoverState { stage: Stage::Copying, ..self },
                    MoveStepView::Ask(RequestView::Copy { from: self.source, to: self.target }),
                )
            },
            Stage::Copying => if reply == ReplyView::Done(true) {
                (
                    MoverState { stage: Stage::Syncing, ..self },
                    MoveStepView::Ask(RequestView::Sync(self.target)),
                )
            } else {
                (self.over(), MoveStepView::Failed)
            },
            Stage::Syncing => (
                MoverState { stage: Stage::Removing, ..self },
                MoveStepView::Ask(RequestView::Remove(self.source)),
            ),
            Stage::Removing => if reply == ReplyView::Done(true) {
                (self.over(), MoveStepView::Finished(MoveResultView::Moved(self.target)))
            } else {
                (self.over(), MoveStepView::Failed)
            },
            Stage::Done => (self, MoveStepView::Failed),
        }
    }
}

/// A move begins in a state of which `wf` holds, and every step keeps it.
/// Source and destination stay what they were, and what was reported of a
/// path stays on record.
pub proof fn law_moves_stay_well_formed(state: MoverState, reply: ReplyView, index: Set<Seq<char>>)
    requires
        state.wf(),
    ensures
        MoverState::start(state.source, state.dest).wf(),
        state.next(reply, index).0.wf(),
        state.next(reply, index).0.source == state.source,
        state.next(reply, index).0.dest == state.dest,
        state.absent.subset_of(state.next(reply, index).0.absent),
        state.present.subset_of(state.next(reply, index).0.present),
{
    let after = state.next(reply, index).0;
    if state.stage is ProbingCandidate && after.stage is ProbingCandidate {
        let c = candidate(state.dest, state.number)->0;
        assert forall|j: nat| 1 <= j < after.number implies #[trigger] sibling_taken(
            after.dest,
            after.present,
            j,
        ) by {
            if j == state.number {
                assert(after.present.contains(c));
            } else {
                assert(sibling_taken(state.dest, state.present, j));
            }
        }
    }
}

/// A file whose content the destination holds already is left where it is.
///
/// Where the fingerprint of the source is in the index, the move ends with
/// the first reply as a skipped duplicate. All that was asked by then is the
/// fingerprint of the source, so nothing was created, changed or removed.
pub proof fn law_known_content_is_skipped(
    source: Seq<char>,
    dest: Seq<char>,
    hash: Seq<char>,
    index: Set<Seq<char>>,
)
    requires
        index.contains(hash),
    ensures
        MoverState::start(source, dest).next(ReplyView::Hash(Some(hash)), index).1
            == MoveStepView::Finished(MoveResultView::SkippedDuplicate),
        MoverState::start(source, dest).next(ReplyView::Hash(Some(hash)), index).0.stage
            is Done,
{
}

/// A file only ever lands on a path that was reported free, and a taken
/// path gives way to the first free numbered sibling.
///
/// Where a step ends a move with `Moved(p)`, the path `p` was reported not
/// to exist. It is the path asked for, or else that path was reported taken
/// and `p` is its sibling with the number `state.number`, every sibling
/// with a smaller number having been reported taken as well.
pub proof fn law_moved_file_lands_on_free_path(
    state: MoverState,
    reply: ReplyView,
    index: Set<Seq<char>>,
    p: Seq<char>,
)
    requires
        state.wf(),
        state.next(reply, index).1 == MoveStepView::Finished(MoveResultView::Moved(p)),
    ensures
        state.absent.contains(p),
        p == state.dest || {
            &&& state.present.contains(state.dest)
            &&& state.number >= 1
            &&& candidate(state.dest, state.number) == Some(p)
            &&& forall|j: nat|
                1 <= j < state.number ==> #[trigger] sibling_taken(state.dest, state.present, j)
        },
{
}

/// No request of a move writes to any path but the target, and the target
/// was reported free.
///
/// Renaming and copying read from the source and write to the target, which
/// is among the paths reported not to exist. Flushing touches the target,
/// removing touches the source and comes only after the copy and its flush,
/// and the one directory created is the one that the target lies in. That
/// the target differs from every path reported taken is not stated here: it
/// holds where no path is reported both free and taken.
pub proof fn law_requests_spare_other_paths(
    state: MoverState,
    reply: ReplyView,
    index: Set<Seq<char>>,
)
    requires
        state.wf(),
    ensures
        ({
            let (after, step) = state.next(reply, index);
            match step {
                MoveStepView::Ask(RequestView::Rename { from, to }) => from == state.source && to
                    == after.target && after.absent.contains(to),
                MoveStepView::Ask(RequestView::Copy { from, to }) => from == state.source && to
                    == state.target && state.absent.contains(to) && state.stage is Renaming,
                MoveStepView::Ask(RequestView::Sync(path)) => path == state.target
                    && state.stage is Copying,
                MoveStepView::Ask(RequestView::Remove(path)) => path == state.source
                    && state.stage is Syncing,
                MoveStepView::Ask(RequestView::CreateDirs(dir)) => path_parent(after.target)
                    == Some(dir) && after.absent.contains(after.target),
                _ => true,
            }
        }),
{
}

/// A move in progress.
pub struct Mover {
    source: String,
    dest: String,
    stage: Stage,
    hash: String,
    number: u64,
    target: String,
    dir: String,
    stem: String,
    ext: String,
    absent: Ghost<Set<Seq<char>>>,
    present: Ghost<Set<Seq<char>>>,
}

impl View for Mover {
    type V = MoverState;

    closed spec fn view(&self) -> MoverState {
        MoverState {
            stage: self.stage,
            source: self.source@,
            dest: self.dest@,
            hash: self.hash@,
            number: self.number as nat,
            target: self.target@,
            absent: self.absent@,
            present: self.present@,
        }
    }
}

impl Mover {
    /// Whether the mover is in a state that a move reaches, with the parts
    /// of the path asked for at hand where names are on trial.
    pub closed spec fn wf(&self) -> bool {
        &&& self@.wf()
        &&& self.stage is ProbingCandidate ==> {
            &&& path_parent(self.dest@) == Some(self.dir@)
            &&& stem_and_extension(self.dest@) == (self.stem@, self.ext@)
        }
    }

    /// Begins the move of `source` to `dest`. The first request asks for
    /// the fingerprint of `source`.
    pub fn new(source: String, dest: String) -> (begun: (Mover, Request))
        ensures
            begun.0.wf(),
            begun.0@.wf(),
            begun.0@ == MoverState::start(source@, dest@),
            begun.1@ == RequestView::Hash(source@),
    {
        let first = Request::Hash(source.clone());
        let mover = Mover {
            source,
            dest,
            stage: Stage::HashingSource,
            hash: String::new(),
            number: 0,
            target: String::new(),
            dir: String::new(),
            stem: String::new(),
            ext: String::new(),
            absent: Ghost(Set::empty()),
            present: Ghost(Set::empty()),
        };
        (mover, first)
    }

    /// Takes the reply to the last request and answers with the next
    /// request or with the outcome, as [`MoverState::next`] says. The index
    /// is read while the fingerprint of the source is awaited.
    pub fn next(&mut self, reply: Reply, index: &DestinationIndex) -> (step: MoveStep)
        requires
            old(self).wf(),
        ensures
            final(self).wf(),
            final(self)@.wf(),
            final(self)@ == old(self)@.next(reply@, index@).0,
            step@ == old(self)@.next(reply@, index@).1,
    {
        proof {
            law_moves_stay_well_formed(self@, reply@, index@);
        }
        match self.stage {
            Stage::HashingSource => match reply {
                Reply::Hash(Some(h)) => {
                    let known = index.contains(&h);
                    self.hash = h;
                    if known {
                        self.stage = Stage::Done;
                        MoveStep::Finished(MoveResult::SkippedDuplicate)
                    } else {
                        self.stage = Stage::ProbingDestination;
                        MoveStep::Ask(Request::Exists(self.dest.clone()))
                    }
                },
                _ => self.fail(),
            },
            Stage::ProbingDestination => match reply {
                Reply::Exists(true) => {
                    self.present = Ghost(self.present@.insert(self.dest@));
                    self.stage = Stage::HashingDestination;
                    MoveStep::Ask(Request::Hash(self.dest.clone()))
                },
                Reply::Exists(false) => {
                    let target = self.dest.clone();
                    self.settle(target)
                },
                _ => self.fail(),
            },
            Stage::HashingDestination => {
                let same = match reply {
                    Reply::Hash(Some(h)) => h == self.hash,
                    _ => false,
                };
                if same {
                    self.stage = Stage::Done;
                    MoveStep::Finished(MoveResult::SkippedDuplicate)
                } else {
                    match parent(self.dest.as_str()) {
                        Some(dir) => {
                            let (stem, ext) = split_stem_ext(self.dest.as_str());
                            self.dir = dir;
                            self.stem = stem;
                            self.ext = ext;
                            self.try_name(1)
                        },
                        None => self.fail(),
                    }
                }
            },
            Stage::ProbingCandidate => match reply {
                Reply::Exists(taken) => {
                    let name = numbered_file_name(
                        self.stem.as_str(),
                        self.ext.as_str(),
                        self.number,
                    );
                    let tried = join(self.dir.as_str(), name.as_str());
                    if !taken {
                        self.settle(tried)
                    } else if self.number < u64::MAX {
                        self.present = Ghost(self.present@.insert(tried@));
                        let number = self.number + 1;
                        self.try_name(number)
                    } else {
                        self.fail()
                    }
                },
                _ => self.fail(),
            },
            Stage::CreatingParent => match reply {
                Reply::Done(true) => self.relocate(),
                _ => self.fail(),
            },
            Stage::Renaming => match reply {
                Reply::Done(true) => {
                    self.stage = Stage::Done;
                    MoveStep::Finished(MoveResult::Moved(self.target.clone()))
                },
                _ => {
                    self.stage = Stage::Copying;
                    MoveStep::Ask(
                        Request::Copy { from: self.source.clone(), to: self.target.clone() },
                    )
                },
            },
            Stage::Copying => match reply {
                Reply::Done(true) => {
                    self.stage = Stage::Syncing;
                    MoveStep::Ask(Request::Sync(self.target.clone()))
                },
                _ => self.fail(),
            },
            Stage::Syncing => {
                self.stage = Stage::Removing;
                MoveStep::Ask(Request::Remove(self.source.clone()))
            },
            Stage::Removing => match reply {
                Reply::Done(true) => {
                    self.stage = Stage::Done;
                    MoveStep::Finished(MoveResult::Moved(self.target.clone()))
                },
                _ => self.fail(),
            },
            Stage::Done => MoveStep::Failed,
        }
    }

    /// Ends the move as failed.
    fn fail(&mut self) -> (step: MoveStep)
        ensures
            final(self)@ == old(self)@.over(),
            step@ == MoveStepView::Failed,
    {
        self.stage = Stage::Done;
        MoveStep::Failed
    }

    /// Asks for the rename of the source to the target.
    fn relocate(&mut self) -> (step: MoveStep)
        ensures
            final(self)@ == old(self)@.relocate().0,
            step@ == old(self)@.relocate().1,
    {
        self.stage = Stage::Renaming;
        MoveStep::Ask(Request::Rename { from: self.source.clone(), to: self.target.clone() })
    }

    /// Chooses `target`, which was just reported free.
    fn settle(&mut self, target: String) -> (step: MoveStep)
        ensures
            final(self)@ == old(self)@.settle(target@).0,
            step@ == old(self)@.settle(target@).1,
    {
        self.absent = Ghost(self.absent@.insert(target@));
        let dir = parent(target.as_str());
        self.target = target;
        match dir {
            Some(dir) => {
                self.stage = Stage::CreatingParent;
                MoveStep::Ask(Request::CreateDirs(dir))
            },
            None => self.relocate(),
        }
    }

    /// Puts the name with `number` on trial.
    fn try_name(&mut self, number: u64) -> (step: MoveStep)
        requires
            path_parent(old(self).dest@) == Some(old(self).dir@),
            stem_and_extension(old(self).dest@) == (old(self).stem@, old(self).ext@),
        ensures
            final(self)@ == old(self)@.try_name(number as nat).0,
            step@ == old(self)@.try_name(number as nat).1,
            final(self).dir == old(self).dir,
            final(self).stem == old(self).stem,
            final(self).ext == old(self).ext,
    {
        let name = numbered_file_name(self.stem.as_str(), self.ext.as_str(), number);
        let path = join(self.dir.as_str(), name.as_str());
        self.number = number;
        self.stage = Stage::ProbingCandidate;
        MoveStep::Ask(Request::Exists(path))
    }
}

/// The path under `dest_root` that keeps the place which `file_path` has
/// under `source_root`: the part of `file_path` below `source_root`,
/// adjoined to `dest_root`. A `file_path` that does not lie under
/// `source_root` is adjoined as it is.
pub fn dest_path_for(source_root: &str, dest_root: &str, file_path: &str) -> (dest: String)
    ensures
        dest@ == destination_of(source_root@, dest_root@, file_path@),
{
    match strip_prefix(file_path, source_root) {
        Some(rest) => join(dest_root, rest.as_str()),
        None => join(dest_root, file_path),
    }
}

/// Stem and extension of the last component of `path`. Each is empty where
/// the path has none.
pub fn split_stem_ext(path: &str) -> (parts: (String, String))
    ensures
        (parts.0@, parts.1@) == stem_and_extension(path@),
{
    match file_name(path) {
        Some(name) => {
            let (stem, extension) = split_name(name.as_str());
            match extension {
                Some(ext) => (stem, ext),
                None => (stem, String::new()),
            }
        },
        None => (String::new(), String::new()),
    }
}

/// The file name that carries `number` between `stem` and `ext`: `stem`, a
/// hyphen, the number and, where `ext` is not empty, a dot and `ext`.
pub fn numbered_file_name(stem: &str, ext: &str, number: u64) -> (name: String)
    ensures
        name@ == numbered_name(stem@, ext@, number as nat),
{
    proof {
        reveal_strlit("-");
        reveal_strlit(".");
    }
    let mut name = String::from_str(stem);
    name.append("-");
    let numeral = decimal_string(number);
    name.append(numeral.as_str());
    if !ext.is_empty() {
        name.append(".");
        name.append(ext);
    }
    assert(name@ =~= numbered_name(stem@, ext@, number as nat));
    name
}

} // verus!
