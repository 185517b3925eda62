//! Runs a whole move: validates the suffixes, has the source scanned and the
//! destination indexed, moves the candidates one by one and keeps the count.
//!
//! An [`Engine`] never touches the file system and never waits. It hands out
//! one [`Command`] at a time together with the progress events to emit, is
//! told the [`Event`] and whether cancellation was requested, and answers
//! with the next command. What it does in each situation is the function
//! [`EngineState::next`]; the laws below it are about whole runs.

use crate::index::DestinationIndex;
use crate::mover::{
    dest_path_for, destination_of, law_moves_stay_well_formed, MoveResult, MoveResultView,
    MoveStep, MoveStepView, Mover, MoverState, Reply, ReplyView, Request, RequestView,
};
use crate::scanner::{
    candidates_among, entry_paths, images_among, lemma_selection_is_no_longer, list_images_under,
    scan_source_for_suffixes, texts, ImageEntry, TreeEntry,
};
use crate::suffix_parser::{parse_suffixes, suffixes_of};
use std::collections::HashSet;
use vstd::prelude::*;

verus! {

broadcast use vstd::std_specs::hash::group_hash_axioms;

/// The part of a run that a progress event belongs to.
#[derive(Clone, Copy, Debug, PartialEq, Eq)]
pub enum Phase {
    ScanningSource,
    IndexingDestination,
    Moving,
    Done,
}

/// How far a run has come, in percent, as the exact fraction
/// `base + span * done / total`.
#[derive(Clone, Copy, Debug, PartialEq, Eq)]
pub struct Percent {
    /// The percentage at which the current phase begins.
    pub base: u64,
    /// The share of the whole that the current phase covers.
    pub span: u64,
    /// The units of the current phase that are done.
    pub done: u64,
    /// The units of the current phase; never zero.
    pub total: u64,
}

impl Percent {
    /// The percentage `value`, with no fraction.
    pub open spec fn fixed(value: u64) -> Percent {
        Percent { base: value, span: 0, done: 0, total: 1 }
    }

    /// Whether the fraction is well defined and lies between 0 and 100.
    pub open spec fn in_range(self) -> bool {
        &&& self.total >= 1
        &&& self.done <= self.total
        &&& self.base + self.span <= 100
    }
}

/// The counters of a run.
#[derive(Clone, Copy, Debug, PartialEq, Eq)]
pub struct RunResult {
    /// The files that the scan selected.
    pub scanned: u64,
    /// The candidates: the same number, fixed when the scan ends.
    pub matched: u64,
    /// The files moved or, in a dry run, the files that would be moved.
    pub moved: u64,
    /// The files left alone because the destination holds their content.
    pub skipped_duplicates: u64,
    /// The files that could not be handled, or 1 where the run could not
    /// begin.
    pub errors: u64,
}

impl Default for RunResult {
    fn default() -> (result: RunResult)
        ensures
            result == (RunResult {
                scanned: 0,
                matched: 0,
                moved: 0,
                skipped_duplicates: 0,
                errors: 0,
            }),
    {
        RunResult { scanned: 0, matched: 0, moved: 0, skipped_duplicates: 0, errors: 0 }
    }
}

/// A snapshot of a run, to be shown to whoever watches it.
#[derive(Clone, Debug, PartialEq, Eq)]
pub struct ProgressEvent {
    pub phase: Phase,
    /// The file that is about to be handled, where there is one.
    pub current_file: Option<String>,
    pub scanned: u64,
    pub matched: u64,
    pub moved: u64,
    pub skipped_duplicates: u64,
    pub errors: u64,
    pub percent: Percent,
}

/// A [`ProgressEvent`] with its file as a sequence of characters and its
/// counters in one piece.
pub struct ProgressView {
    pub phase: Phase,
    pub current_file: Option<Seq<char>>,
    pub counters: RunResult,
    pub percent: Percent,
}

impl View for ProgressEvent {
    type V = ProgressView;

    open spec fn view(&self) -> ProgressView {
        ProgressView {
            phase: self.phase,
            current_file: match self.current_file {
                Some(file) => Some(file@),
                None => None,
            },
            counters: RunResult {
                scanned: self.scanned,
                matched: self.matched,
                moved: self.moved,
                skipped_duplicates: self.skipped_duplicates,
                errors: self.errors,
            },
            percent: self.percent,
        }
    }
}

/// What an [`Engine`] asks of its caller next.
#[derive(Debug)]
pub enum Command {
    /// Walk the tree under this directory without following links, pass
    /// over what cannot be read, and report every entry found.
    Walk(String),
    /// Carry out this request on the file system.
    File(Request),
    /// Nothing more: the run is over with these counters.
    Finish(RunResult),
}

/// A [`Command`] with its paths as sequences of characters.
pub enum CommandView {
    Walk(Seq<char>),
    File(RequestView),
    Finish(RunResult),
}

impl View for Command {
    type V = CommandView;

    open spec fn view(&self) -> CommandView {
        match *self {
            Command::Walk(dir) => CommandView::Walk(dir@),
            Command::File(request) => CommandView::File(request@),
            Command::Finish(result) => CommandView::Finish(result),
        }
    }
}

/// What came of a [`Command`].
pub enum Event {
    /// The entries that a walk found, or `None` where it could not be made.
    Walked(Option<Vec<TreeEntry>>),
    /// The reply to a request on the file system.
    File(Reply),
}

/// An [`Event`] with its contents as mathematical values.
pub enum EventView {
    Walked(Option<Seq<TreeEntry>>),
    File(ReplyView),
}

impl EventView {
    /// Whether the event can be held in memory: the entries of a walk are
    /// no more than `usize::MAX`.
    pub open spec fn fits(self) -> bool {
        self matches EventView::Walked(Some(entries)) ==> entries.len() <= usize::MAX
    }
}

impl View for Event {
    type V = EventView;

    open spec fn view(&self) -> EventView {
        match *self {
            Event::Walked(Some(entries)) => EventView::Walked(Some(entries@)),
            Event::Walked(None) => EventView::Walked(None),
            Event::File(reply) => EventView::File(reply@),
        }
    }
}

/// What an [`Engine`] answers: the events to emit, in order, and then the
/// command to carry out.
#[derive(Debug)]
pub struct Step {
    pub events: Vec<ProgressEvent>,
    pub command: Command,
}

/// The views of a list of progress events.
pub open spec fn event_views(events: Seq<ProgressEvent>) -> Seq<ProgressView> {
    Seq::new(events.len(), |i: int| events[i]@)
}

/// A [`Step`] with its contents as mathematical values.
pub struct StepView {
    pub events: Seq<ProgressView>,
    pub command: CommandView,
}

impl View for Step {
    type V = StepView;

    open spec fn view(&self) -> StepView {
        StepView {
            events: event_views(self.events@),
            command: self.command@,
        }
    }
}

/// What an [`Engine`] is waiting for.
#[derive(Clone, Copy, Debug, PartialEq, Eq)]
pub enum EngineStage {
    /// The creation of the destination root.
    CreatingDestination,
    /// The walk of the source tree.
    Scanning,
    /// The walk of the destination tree.
    Listing,
    /// The fingerprint of a file of the destination.
    Indexing,
    /// In a dry run, the fingerprint of a candidate.
    Classifying,
    /// The reply to a request of the move of a candidate.
    Relocating,
    /// The fingerprint of a candidate at the place it was moved to.
    Rehashing,
    /// Nothing: the run is over.
    Finished,
}

impl EngineStage {
    /// The place of the stage in the order of a run.
    pub open spec fn rank(self) -> nat {
        match self {
            EngineStage::CreatingDestination => 0,
            EngineStage::Scanning => 1,
            EngineStage::Listing => 2,
            EngineStage::Indexing => 3,
            EngineStage::Classifying => 4,
            EngineStage::Relocating => 4,
            EngineStage::Rehashing => 4,
            EngineStage::Finished => 5,
        }
    }
}

/// What an [`Engine`] knows at a point of a run.
#[verifier::ext_equal]
pub struct EngineState {
    /// What is awaited.
    pub stage: EngineStage,
    /// The root of the tree that files are taken from.
    pub source_dir: Seq<char>,
    /// The root of the tree that files are moved into.
    pub dest_dir: Seq<char>,
    /// The suffixes that select the candidates.
    pub suffixes: Set<u32>,
    /// Whether files are only classified and none is moved.
    pub dry_run: bool,
    /// The candidates that the scan selected, in the order of the scan.
    pub candidates: Seq<Seq<char>>,
    /// The image files found in the destination when the run began.
    pub dest_files: Seq<Seq<char>>,
    /// How many of `dest_files` have been dealt with.
    pub indexed: nat,
    /// How many of `candidates` have been dealt with.
    pub processed: nat,
    /// The fingerprints known to be in the destination.
    pub index: Set<Seq<char>>,
    pub moved: nat,
    pub skipped: nat,
    pub errors: nat,
    /// The move of the current candidate, while the stage is `Relocating`.
    pub mover: MoverState,
}

impl EngineState {
    /// How a run begins: where no suffix is given, with its end; in a dry
    /// run, which changes nothing, with the scan of the source; else with
    /// the creation of the destination root.
    pub open spec fn begin(
        source_dir: Seq<char>,
        dest_dir: Seq<char>,
        suffixes: Set<u32>,
        dry_run: bool,
    ) -> (EngineState, StepView) {
        let start = Self::start(source_dir, dest_dir, suffixes, dry_run);
        if suffixes.is_empty() {
            start.fatal()
        } else if dry_run {
            start.scan()
        } else {
            (
                start,
                StepView {
                    events: Seq::empty(),
                    command: CommandView::File(RequestView::CreateDirs(dest_dir)),
                },
            )
        }
    }

    /// The beginning of the scan: the event that tells of it, at 0 percent,
    /// and the command to walk the source tree.
    pub open spec fn scan(self) -> (EngineState, StepView) {
        (
            EngineState { stage: EngineStage::Scanning, ..self },
            StepView {
                events: seq![self.progress(Phase::ScanningSource, None, Percent::fixed(0))],
                command: CommandView::Walk(self.source_dir),
            },
        )
    }

    /// The state in which a run begins that passed the check of its
    /// suffixes.
    pub open spec fn start(
        source_dir: Seq<char>,
        dest_dir: Seq<char>,
        suffixes: Set<u32>,
        dry_run: bool,
    ) -> EngineState {
        EngineState {
            stage: EngineStage::CreatingDestination,
            source_dir,
            dest_dir,
            suffixes,
            dry_run,
            candidates: Seq::empty(),
            dest_files: Seq::empty(),
            indexed: 0,
            processed: 0,
            index: Set::empty(),
            moved: 0,
            skipped: 0,
            errors: 0,
            mover: MoverState::start(Seq::empty(), Seq::empty()),
        }
    }

    /// The counters as they stand.
    pub open spec fn result(self) -> RunResult {
        RunResult {
            scanned: self.candidates.len() as u64,
            matched: self.candidates.len() as u64,
            moved: self.moved as u64,
            skipped_duplicates: self.skipped as u64,
            errors: self.errors as u64,
        }
    }

    /// The progress event with the counters as they stand.
    pub open spec fn progress(
        self,
        phase: Phase,
        file: Option<Seq<char>>,
        percent: Percent,
    ) -> ProgressView {
        ProgressView { phase, current_file: file, counters: self.result(), percent }
    }

    /// The end of the run: after the events `before`, the last event tells
    /// that the run is done, and the command hands over the same counters.
    pub open spec fn finish(self, before: Seq<ProgressView>) -> (EngineState, StepView) {
        (
            EngineState { stage: EngineStage::Finished, ..self },
            StepView {
                events: before.push(self.progress(Phase::Done, None, Percent::fixed(100))),
                command: CommandView::Finish(self.result()),
            },
        )
    }

    /// The end of a run that cannot begin: one error and nothing else.
    pub open spec fn fatal(self) -> (EngineState, StepView) {
        EngineState { errors: 1, ..self }.finish(Seq::empty())
    }

    /// What follows once `processed` candidates are dealt with: the end,
    /// where cancellation was requested or no candidate is left; else the
    /// event that names the next candidate and the request for its
    /// fingerprint, with which a classification and a move alike begin.
    pub open spec fn begin_candidate(self, before: Seq<ProgressView>, cancelled: bool) -> (
        EngineState,
        StepView,
    ) {
        if cancelled || self.processed >= self.candidates.len() {
            self.finish(before)
        } else {
            let source = self.candidates[self.processed as int];
            let event = self.progress(
                Phase::Moving,
                Some(source),
                Percent {
                    base: 20,
                    span: 80,
                    done: self.processed as u64,
                    total: self.candidates.len() as u64,
                },
            );
            let step = StepView {
                events: before.push(event),
                command: CommandView::File(RequestView::Hash(source)),
            };
            if self.dry_run {
                (EngineState { stage: EngineStage::Classifying, ..self }, step)
            } else {
                (
                    EngineState {
                        stage: EngineStage::Relocating,
                        mover: MoverState::start(
                            source,
                            destination_of(self.source_dir, self.dest_dir, source),
                        ),
                        ..self
                    },
                    step,
                )
            }
        }
    }

    /// Whether an event is due before file `i` of `total` is indexed: for
    /// every fiftieth file and for the last.
    pub open spec fn reports_indexing(i: nat, total: nat) -> bool {
        i % 50 == 0 || i + 1 == total
    }

    /// What follows once `indexed` files of the destination are dealt with:
    /// the moving phase, where none is left; the end, where cancellation was
    /// requested; else the request for the fingerprint of the next file.
    pub open spec fn begin_index(self, cancelled: bool) -> (EngineState, StepView) {
        if self.indexed >= self.dest_files.len() {
            self.begin_candidate(
                seq![self.progress(Phase::Moving, None, Percent::fixed(20))],
                cancelled,
            )
        } else if cancelled {
            self.finish(Seq::empty())
        } else {
            let file = self.dest_files[self.indexed as int];
            let event = self.progress(
                Phase::IndexingDestination,
                Some(file),
                Percent {
                    base: 5,
                    span: 15,
                    done: self.indexed as u64,
                    total: self.dest_files.len() as u64,
                },
            );
            (
                EngineState { stage: EngineStage::Indexing, ..self },
                StepView {
                    events: if Self::reports_indexing(self.indexed, self.dest_files.len()) {
                        seq![event]
                    } else {
                        Seq::empty()
                    },
                    command: CommandView::File(RequestView::Hash(file)),
                },
            )
        }
    }

    /// The index with the fingerprint that `event` brings, if it brings one.
    pub open spec fn learn(self, event: EventView) -> Set<Seq<char>> {
        match event {
            EventView::File(ReplyView::Hash(Some(hash))) => self.index.insert(hash),
            _ => self.index,
        }
    }

    /// The state with the current candidate counted as moved.
    pub open spec fn count_moved(self) -> EngineState {
        EngineState { moved: self.moved + 1, processed: self.processed + 1, ..self }
    }

    /// The state with the current candidate counted as a duplicate.
    pub open spec fn count_skipped(self) -> EngineState {
        EngineState { skipped: self.skipped + 1, processed: self.processed + 1, ..self }
    }

    /// The state with the current candidate counted as failed.
    pub open spec fn count_failed(self) -> EngineState {
        EngineState { errors: self.errors + 1, processed: self.processed + 1, ..self }
    }

    /// What the engine does on `event`, with `cancelled` telling whether
    /// cancellation was requested when the event came in: the state it goes
    /// to and the step it answers.
    ///
    /// An event that is not of the kind awaited counts as the failure of
    /// what was asked.
    pub open spec fn next(self, event: EventView, cancelled: bool) -> (EngineState, StepView) {
        match self.stage {
            EngineStage::CreatingDestination => if event == EventView::File(ReplyView::Done(true)) {
                self.scan()
            } else {
                self.fatal()
            },
            EngineStage::Scanning => match event {
                EventView::Walked(Some(entries)) => {
                    let scanned = EngineState {
                        candidates: candidates_among(entries, self.suffixes),
                        ..self
                    };
                    let counted = scanned.progress(
                        Phase::IndexingDestination,
                        None,
                        Percent::fixed(5),
                    );
                    if cancelled {
                        scanned.finish(seq![counted])
                    } else {
                        (
                            EngineState { stage: EngineStage::Listing, ..scanned },
                            StepView {
                                events: seq![counted],
                                command: CommandView::Walk(self.dest_dir),
                            },
                        )
                    }
                },
                _ => self.fatal(),
            },
            EngineStage::Listing => EngineState {
                dest_files: match event {
                    EventView::Walked(Some(entries)) => images_among(entries),
                    _ => Seq::empty(),
                },
                indexed: 0,
                ..self
            }.begin_index(cancelled),
            EngineStage::Indexing => EngineState {
                index: self.learn(event),
                indexed: self.indexed + 1,
                ..self
            }.begin_index(cancelled),
            EngineStage::Classifying => match event {
                EventView::File(ReplyView::Hash(Some(hash))) => if self.index.contains(hash) {
                    self.count_skipped().begin_candidate(Seq::empty(), cancelled)
                } else {
                    self.count_moved().begin_candidate(Seq::empty(), cancelled)
                },
                _ => self.count_failed().begin_candidate(Seq::empty(), cancelled),
            },
            EngineStage::Relocating => match event {
                EventView::File(reply) => {
                    let moving = EngineState {
                        mover: self.mover.next(reply, self.index).0,
                        ..self
                    };
                    match self.mover.next(reply, self.index).1 {
                        MoveStepView::Ask(request) => (
                            moving,
                            StepView { events: Seq::empty(), command: CommandView::File(request) },
                        ),
                        MoveStepView::Finished(MoveResultView::Moved(path)) => (
                            EngineState { stage: EngineStage::Rehashing, ..moving.count_moved() },
                            StepView {
                                events: Seq::empty(),
                                command: CommandView::File(RequestView::Hash(path)),
                            },
                        ),
                        MoveStepView::Finished(MoveResultView::SkippedDuplicate) =>
                            moving.count_skipped().begin_candidate(Seq::empty(), cancelled),
                        MoveStepView::Failed => moving.count_failed().begin_candidate(
                            Seq::empty(),
                            cancelled,
                        ),
                    }
                },
                _ => self.count_failed().begin_candidate(Seq::empty(), cancelled),
            },
            EngineStage::Rehashing => EngineState {
                index: self.learn(event),
                ..self
            }.begin_candidate(Seq::empty(), cancelled),
            EngineStage::Finished => (
                self,
                StepView { events: Seq::empty(), command: CommandView::Finish(self.result()) },
            ),
        }
    }

    /// The candidates counted so far.
    pub open spec fn counted(self) -> nat {
        self.moved + self.skipped + self.errors
    }

    /// What holds of every state that a run reaches.
    pub open spec fn wf(self) -> bool {
        &&& self.candidates.len() <= usize::MAX
        &&& self.dest_files.len() <= usize::MAX
        &&& self.processed <= self.candidates.len()
        &&& match self.stage {
            EngineStage::CreatingDestination => {
                &&& !self.dry_run
                &&& self.candidates.len() == 0
                &&& self.counted() == 0
            },
            EngineStage::Scanning => {
                &&& self.candidates.len() == 0
                &&& self.counted() == 0
            },
            EngineStage::Listing => self.counted() == 0 && self.processed == 0,
            EngineStage::Indexing => {
                &&& self.counted() == 0
                &&& self.processed == 0
                &&& self.indexed < self.dest_files.len()
            },
            EngineStage::Classifying => {
                &&& self.dry_run
                &&& self.counted() == self.processed
                &&& self.processed < self.candidates.len()
            },
            EngineStage::Relocating => {
                &&& !self.dry_run
                &&& self.counted() == self.processed
                &&& self.processed < self.candidates.len()
                &&& self.mover.wf()
                &&& self.mover.source == self.candidates[self.processed as int]
                &&& self.mover.dest == destination_of(
                    self.source_dir,
                    self.dest_dir,
                    self.mover.source,
                )
            },
            EngineStage::Rehashing => !self.dry_run && self.counted() == self.processed,
            EngineStage::Finished => self.counted() == self.processed || (self.processed == 0
                && self.candidates.len() == 0 && self.counted() == 1 && self.errors == 1),
        }
    }
}

/// A run begins in a state of which `wf` holds and every step keeps it. No
/// step goes back in the order of the stages, and no step takes a
/// fingerprint out of the index.
pub proof fn law_runs_stay_well_formed(state: EngineState, event: EventView, cancelled: bool)
    requires
        state.wf(),
        event.fits(),
    ensures
        EngineState::begin(state.source_dir, state.dest_dir, state.suffixes, state.dry_run).0.wf(),
        state.next(event, cancelled).0.wf(),
        state.next(event, cancelled).0.stage.rank() >= state.stage.rank(),
        state.index.subset_of(state.next(event, cancelled).0.index),
{
    match event {
        EventView::Walked(Some(entries)) => {
            lemma_selection_is_no_longer(entries, state.suffixes);
        },
        EventView::File(reply) => {
            if state.stage is Relocating {
                law_moves_stay_well_formed(state.mover, reply, state.index);
            }
        },
        _ => {},
    }
}

/// Every candidate is counted once: a step deals with one candidate at
/// most, and then it raises one of the three counters by one. The
/// candidates themselves, and with them the files scanned and matched, stay
/// what the scan found.
pub proof fn law_each_candidate_counts_once(state: EngineState, event: EventView, cancelled: bool)
    requires
        state.wf(),
        event.fits(),
        state.stage.rank() >= 2,
    ensures
        ({
            let after = state.next(event, cancelled).0;
            &&& after.moved >= state.moved
            &&& after.skipped >= state.skipped
            &&& after.errors >= state.errors
            &&& after.counted() - state.counted() == after.processed - state.processed
            &&& after.processed == state.processed || after.processed == state.processed + 1
            &&& after.processed <= after.candidates.len()
            &&& after.candidates == state.candidates
        }),
{
    law_runs_stay_well_formed(state, event, cancelled);
}

/// A candidate whose content the destination holds already is counted as a
/// duplicate and nothing is done to any file.
///
/// Where the fingerprint that comes in for a candidate is in the index, in
/// a dry run or not, the step counts one duplicate and leaves the other
/// counters and the index as they were. The command that follows ends the
/// run or asks for the fingerprint of the next candidate.
pub proof fn law_duplicates_are_counted_not_moved(
    state: EngineState,
    hash: Seq<char>,
    cancelled: bool,
)
    requires
        state.wf(),
        state.index.contains(hash),
        state.stage is Classifying || (state.stage is Relocating
            && state.mover.stage is HashingSource),
    ensures
        ({
            let (after, step) = state.next(EventView::File(ReplyView::Hash(Some(hash))), cancelled);
            &&& after.skipped == state.skipped + 1
            &&& after.moved == state.moved
            &&& after.errors == state.errors
            &&& after.index == state.index
            &&& step.command matches CommandView::File(request) ==> !request.mutates()
        }),
{
}

/// A dry run changes nothing: no file and no directory.
///
/// From its first command on, a dry run asks for walks and for
/// fingerprints and for nothing else. It begins with the walk of the source
/// or, where no suffix is given, with its end; the destination root is not
/// created. Every state that it reaches is one of a dry run again.
pub proof fn law_dry_run_changes_nothing(state: EngineState, event: EventView, cancelled: bool)
    requires
        state.wf(),
        state.dry_run,
    ensures
        ({
            let (first, begun) = EngineState::begin(
                state.source_dir,
                state.dest_dir,
                state.suffixes,
                true,
            );
            &&& first.dry_run
            &&& begun.command is Walk || begun.command is Finish
            &&& !state.suffixes.is_empty() ==> begun.command == CommandView::Walk(state.source_dir)
        }),
        ({
            let (after, step) = state.next(event, cancelled);
            &&& after.dry_run
            &&& step.command matches CommandView::File(request) ==> request is Hash
        }),
{
}

/// The content of a file that was moved is in the index before the next
/// candidate is looked at.
///
/// After a move the engine asks for the fingerprint of the file at its new
/// place. Where it gets one, the index holds it from then on; where it gets
/// none, the run goes on as it would have.
pub proof fn law_moved_content_joins_the_index(
    state: EngineState,
    event: EventView,
    cancelled: bool,
)
    requires
        state.wf(),
        state.stage is Rehashing,
    ensures
        ({
            let after = state.next(event, cancelled).0;
            &&& event matches EventView::File(ReplyView::Hash(Some(hash)))
                ==> after.index == state.index.insert(hash)
            &&& !(event matches EventView::File(ReplyView::Hash(Some(_)))) ==> after.index
                == state.index
            &&& after.counted() == state.counted()
        }),
{
}

/// Cancelling ends the run at the next boundary and is charged to nobody.
///
/// The counters after a step are the same whether cancellation was
/// requested or not. Where it was, the step ends the run unless the
/// destination root is being created or a move is under way: the last event
/// tells that the run is done, and the command hands over the counters of
/// that event. A move under way goes on to its end.
pub proof fn law_cancelling_ends_the_run(state: EngineState, event: EventView)
    requires
        state.wf(),
    ensures
        ({
            let (stopped, step) = state.next(event, true);
            let (going, _) = state.next(event, false);
            &&& stopped.moved == going.moved
            &&& stopped.skipped == going.skipped
            &&& stopped.errors == going.errors
            &&& !(state.stage is CreatingDestination || state.stage is Relocating
                || state.stage is Finished) ==> {
                &&& stopped.stage is Finished
                &&& step.command == CommandView::Finish(stopped.result())
                &&& step.events.len() > 0
                &&& step.events.last() == stopped.progress(Phase::Done, None, Percent::fixed(100))
            }
            &&& state.stage is Relocating ==> stopped.stage is Relocating
                || stopped.stage is Rehashing || stopped.stage is Finished
        }),
{
}

/// A run that is cancelled before its first candidate moves nothing and
/// counts nothing.
pub proof fn law_cancel_before_moving_moves_nothing(state: EngineState, event: EventView)
    requires
        state.wf(),
        state.stage is Listing || state.stage is Indexing || (state.stage is Scanning
            && event matches EventView::Walked(Some(_))),
    ensures
        ({
            let (stopped, step) = state.next(event, true);
            &&& stopped.stage is Finished
            &&& stopped.processed == 0
            &&& stopped.moved == 0
            &&& stopped.skipped == 0
            &&& stopped.errors == 0
            &&& forall|i: int|
                0 <= i < step.events.len() ==> !((#[trigger] step.events[i]).current_file is Some
                    && step.events[i].phase is Moving)
        }),
{
}

/// Every event that a step emits carries counters in which the files
/// scanned are the files matched, and a percentage between 0 and 100.
pub proof fn law_events_are_in_range(state: EngineState, event: EventView, cancelled: bool, i: int)
    requires
        state.wf(),
        event.fits(),
        0 <= i < state.next(event, cancelled).1.events.len(),
    ensures
        state.next(event, cancelled).1.events[i].percent.in_range(),
        state.next(event, cancelled).1.events[i].counters.scanned
            == state.next(event, cancelled).1.events[i].counters.matched,
{
    law_runs_stay_well_formed(state, event, cancelled);
}

/// A run in progress.
pub struct Engine {
    stage: EngineStage,
    source_dir: String,
    dest_dir: String,
    suffixes: HashSet<u32>,
    dry_run: bool,
    candidates: Vec<ImageEntry>,
    dest_files: Vec<String>,
    indexed: usize,
    processed: usize,
    index: DestinationIndex,
    moved: u64,
    skipped: u64,
    errors: u64,
    mover: Mover,
}

impl View for Engine {
    type V = EngineState;

    closed spec fn view(&self) -> EngineState {
        EngineState {
            stage: self.stage,
            source_dir: self.source_dir@,
            dest_dir: self.dest_dir@,
            suffixes: self.suffixes@,
            dry_run: self.dry_run,
            candidates: entry_paths(self.candidates@),
            dest_files: texts(self.dest_files@),
            indexed: self.indexed as nat,
            processed: self.processed as nat,
            index: self.index@,
            moved: self.moved as nat,
            skipped: self.skipped as nat,
            errors: self.errors as nat,
            mover: self.mover@,
        }
    }
}

impl Engine {
    /// Whether the engine is in a state that a run reaches.
    pub closed spec fn wf(&self) -> bool {
        &&& self@.wf()
        &&& self.index.wf()
        &&& self.mover.wf()
    }

    /// Begins a run that takes the files under `source_dir` whose names end
    /// with a suffix named in `suffix_input` to `dest_dir`, or, where
    /// `dry_run` is set, only tells what such a run would do.
    ///
    /// Text that names no suffix ends the run at once with one error.
    /// Otherwise the first command asks for the destination root or, in a
    /// dry run, which creates nothing, for the walk of the source.
    pub fn new(source_dir: &str, dest_dir: &str, suffix_input: &str, dry_run: bool) -> (begun: (
        Engine,
        Step,
    ))
        ensures
            begun.0.wf(),
            begun.0@.wf(),
            begun.0@ == EngineState::begin(
                source_dir@,
                dest_dir@,
                suffixes_of(suffix_input@),
                dry_run,
            ).0,
            begun.1@ == EngineState::begin(
                source_dir@,
                dest_dir@,
                suffixes_of(suffix_input@),
                dry_run,
            ).1,
    {
        let suffixes = parse_suffixes(suffix_input);
        let empty = suffixes.is_empty();
        let (mover, _) = Mover::new(String::new(), String::new());
        let mut engine = Engine {
            stage: EngineStage::CreatingDestination,
            source_dir: source_dir.to_owned(),
            dest_dir: dest_dir.to_owned(),
            suffixes,
            dry_run,
            candidates: Vec::new(),
            dest_files: Vec::new(),
            indexed: 0,
            processed: 0,
            index: DestinationIndex::new(),
            moved: 0,
            skipped: 0,
            errors: 0,
            mover,
        };
        assert(engine@ =~= EngineState::start(
            source_dir@,
            dest_dir@,
            suffixes_of(suffix_input@),
            dry_run,
        ));
        if empty {
            let step = engine.fatal();
            (engine, step)
        } else if dry_run {
            let step = engine.scan();
            (engine, step)
        } else {
            let events = no_events();
            let step = Step {
                events,
                command: Command::File(Request::CreateDirs(dest_dir.to_owned())),
            };
            (engine, step)
        }
    }

    /// The counters as they stand.
    pub fn result(&self) -> (result: RunResult)
        ensures
            result == self@.result(),
    {
        RunResult {
            scanned: self.candidates.len() as u64,
            matched: self.candidates.len() as u64,
            moved: self.moved,
            skipped_duplicates: self.skipped,
            errors: self.errors,
        }
    }

    /// Takes what came of the last command, and whether cancellation was
    /// requested by then, and answers with the events to emit and the next
    /// command, as [`EngineState::next`] says.
    pub fn step(&mut self, event: Event, cancelled: bool) -> (step: Step)
        requires
            old(self).wf(),
        ensures
            final(self).wf(),
            final(self)@.wf(),
            final(self)@ == old(self)@.next(event@, cancelled).0,
            step@ == old(self)@.next(event@, cancelled).1,
    {
        measure(&event);
        proof {
            law_runs_stay_well_formed(self@, event@, cancelled);
        }
        match self.stage {
            EngineStage::CreatingDestination => match event {
                Event::File(Reply::Done(true)) => self.scan(),
                _ => self.fatal(),
            },
            EngineStage::Scanning => match event {
                Event::Walked(Some(entries)) => {
                    self.candidates = scan_source_for_suffixes(&entries, &self.suffixes);
                    let mut events: Vec<ProgressEvent> = Vec::new();
                    events.push(self.event(Phase::IndexingDestination, None, fixed(5)));
                    assert(event_views(events@) =~= seq![
                        self@.progress(Phase::IndexingDestination, None, Percent::fixed(5)),
                    ]);
                    if cancelled {
                        self.finish(events)
                    } else {
                        self.stage = EngineStage::Listing;
                        Step { events, command: Command::Walk(self.dest_dir.clone()) }
                    }
                },
                _ => self.fatal(),
            },
            EngineStage::Listing => {
                self.dest_files = match event {
                    Event::Walked(Some(entries)) => list_images_under(&entries),
                    _ => Vec::new(),
                };
                self.indexed = 0;
                assert(self@ =~= (EngineState {
                    dest_files: match event@ {
                        EventView::Walked(Some(entries)) => images_among(entries),
                        _ => Seq::empty(),
                    },
                    indexed: 0,
                    ..old(self)@
                }));
                self.begin_index(cancelled)
            },
            EngineStage::Indexing => {
                self.learn(event);
                self.indexed = self.indexed + 1;
                self.begin_index(cancelled)
            },
            EngineStage::Classifying => {
                match event {
                    Event::File(Reply::Hash(Some(hash))) => {
                        if self.index.contains(&hash) {
                            self.skipped = self.skipped + 1;
                        } else {
                            self.moved = self.moved + 1;
                        }
                    },
                    _ => {
                        self.errors = self.errors + 1;
                    },
                }
                self.processed = self.processed + 1;
                self.begin_candidate(no_events(), cancelled)
            },
            EngineStage::Relocating => match event {
                Event::File(reply) => {
                    match self.mover.next(reply, &self.index) {
                        MoveStep::Ask(request) => {
                            let events = no_events();
                            Step { events, command: Command::File(request) }
                        },
                        MoveStep::Finished(MoveResult::Moved(path)) => {
                            self.moved = self.moved + 1;
                            self.processed = self.processed + 1;
                            self.stage = EngineStage::Rehashing;
                            let events = no_events();
                            Step { events, command: Command::File(Request::Hash(path)) }
                        },
                        MoveStep::Finished(MoveResult::SkippedDuplicate) => {
                            self.skipped = self.skipped + 1;
                            self.processed = self.processed + 1;
                            self.begin_candidate(no_events(), cancelled)
                        },
                        MoveStep::Failed => {
                            self.errors = self.errors + 1;
                            self.processed = self.processed + 1;
                            self.begin_candidate(no_events(), cancelled)
                        },
                    }
                },
                _ => {
                    self.errors = self.errors + 1;
                    self.processed = self.processed + 1;
                    self.begin_candidate(no_events(), cancelled)
                },
            },
            EngineStage::Rehashing => {
                self.learn(event);
                self.begin_candidate(no_events(), cancelled)
            },
            EngineStage::Finished => {
                let events = no_events();
                Step { events, command: Command::Finish(self.result()) }
            },
        }
    }

    /// The progress event with the counters as they stand.
    fn event(&self, phase: Phase, file: Option<String>, percent: Percent) -> (event: ProgressEvent)
        ensures
            event@ == self@.progress(
                phase,
                match file {
                    Some(f) => Some(f@),
                    None => None,
                },
                percent,
            ),
    {
        let counters = self.result();
        ProgressEvent {
            phase,
            current_file: file,
            scanned: counters.scanned,
            matched: counters.matched,
            moved: counters.moved,
            skipped_duplicates: counters.skipped_duplicates,
            errors: counters.errors,
            percent,
        }
    }

    /// Puts the fingerprint that `event` brings, if any, into the index.
    fn learn(&mut self, event: Event)
        requires
            old(self).index.wf(),
        ensures
            final(self).index.wf(),
            final(self)@ == (EngineState { index: old(self)@.learn(event@), ..old(self)@ }),
            final(self).mover == old(self).mover,
    {
        match event {
            Event::File(Reply::Hash(Some(hash))) => {
                self.index.insert(hash);
            },
            _ => {},
        }
    }

    /// Ends the run after the events `events`.
    fn finish(&mut self, events: Vec<ProgressEvent>) -> (step: Step)
        ensures
            final(self)@ == old(self)@.finish(event_views(events@)).0,
            step@ == old(self)@.finish(event_views(events@)).1,
            final(self).index == old(self).index,
            final(self).mover == old(self).mover,
    {
        let mut events = events;
        let ghost before = event_views(events@);
        events.push(self.event(Phase::Done, None, fixed(100)));
        assert(event_views(events@) =~= before.push(
            self@.progress(Phase::Done, None, Percent::fixed(100)),
        ));
        self.stage = EngineStage::Finished;
        Step { events, command: Command::Finish(self.result()) }
    }

    /// Begins the scan of the source.
    fn scan(&mut self) -> (step: Step)
        ensures
            final(self)@ == old(self)@.scan().0,
            step@ == old(self)@.scan().1,
            final(self).index == old(self).index,
            final(self).mover == old(self).mover,
    {
        let mut events: Vec<ProgressEvent> = Vec::new();
        events.push(self.event(Phase::ScanningSource, None, fixed(0)));
        assert(event_views(events@) =~= seq![
            self@.progress(Phase::ScanningSource, None, Percent::fixed(0)),
        ]);
        self.stage = EngineStage::Scanning;
        Step { events, command: Command::Walk(self.source_dir.clone()) }
    }

    /// Ends a run that cannot begin.
    fn fatal(&mut self) -> (step: Step)
        ensures
            final(self)@ == old(self)@.fatal().0,
            step@ == old(self)@.fatal().1,
            final(self).index == old(self).index,
            final(self).mover == old(self).mover,
    {
        self.errors = 1;
        let events = no_events();
        self.finish(events)
    }

    /// Ends the run or turns to the next candidate.
    fn begin_candidate(&mut self, events: Vec<ProgressEvent>, cancelled: bool) -> (step: Step)
        requires
            old(self).processed <= old(self).candidates.len(),
            old(self).mover.wf(),
        ensures
            final(self)@ == old(self)@.begin_candidate(event_views(events@), cancelled).0,
            step@ == old(self)@.begin_candidate(event_views(events@), cancelled).1,
            final(self).index == old(self).index,
            final(self).mover.wf(),
    {
        if cancelled || self.processed >= self.candidates.len() {
            self.finish(events)
        } else {
            let source = self.candidates[self.processed].path.clone();
            let mut events = events;
            let ghost before = event_views(events@);
            let percent = Percent {
                base: 20,
                span: 80,
                done: self.processed as u64,
                total: self.candidates.len() as u64,
            };
            events.push(self.event(Phase::Moving, Some(source.clone()), percent));
            assert(event_views(events@) =~= before.push(
                self@.progress(Phase::Moving, Some(source@), percent),
            ));
            if self.dry_run {
                self.stage = EngineStage::Classifying;
                Step { events, command: Command::File(Request::Hash(source)) }
            } else {
                let dest = dest_path_for(
                    self.source_dir.as_str(),
                    self.dest_dir.as_str(),
                    source.as_str(),
                );
                let (mover, first) = Mover::new(source, dest);
                self.mover = mover;
                self.stage = EngineStage::Relocating;
                Step { events, command: Command::File(first) }
            }
        }
    }

    /// Turns to the next file of the destination, or to the candidates.
    fn begin_index(&mut self, cancelled: bool) -> (step: Step)
        requires
            old(self).processed <= old(self).candidates.len(),
            old(self).indexed <= old(self).dest_files.len(),
            old(self).mover.wf(),
        ensures
            final(self)@ == old(self)@.begin_index(cancelled).0,
            step@ == old(self)@.begin_index(cancelled).1,
            final(self).index == old(self).index,
            final(self).mover.wf(),
    {
        if self.indexed >= self.dest_files.len() {
            let mut events: Vec<ProgressEvent> = Vec::new();
            events.push(self.event(Phase::Moving, None, fixed(20)));
            assert(event_views(events@) =~= seq![
                self@.progress(Phase::Moving, None, Percent::fixed(20)),
            ]);
            self.begin_candidate(events, cancelled)
        } else if cancelled {
            let events = no_events();
            self.finish(events)
        } else {
            let file = self.dest_files[self.indexed].clone();
            let mut events = no_events();
            if self.indexed % 50 == 0 || self.indexed + 1 == self.dest_files.len() {
                let percent = Percent {
                    base: 5,
                    span: 15,
                    done: self.indexed as u64,
                    total: self.dest_files.len() as u64,
                };
                events.push(self.event(Phase::IndexingDestination, Some(file.clone()), percent));
                assert(event_views(events@) =~= seq![
                    self@.progress(Phase::IndexingDestination, Some(file@), percent),
                ]);
            }
            self.stage = EngineStage::Indexing;
            Step { events, command: Command::File(Request::Hash(file)) }
        }
    }
}

/// Takes the measure of `event`: what it holds fits into memory.
fn measure(event: &Event)
    ensures
        event@.fits(),
{
    match event {
        Event::Walked(Some(entries)) => {
            let _ = entries.len();
        },
        _ => {},
    }
}

/// An empty list of events.
fn no_events() -> (events: Vec<ProgressEvent>)
    ensures
        events@.len() == 0,
        event_views(events@) == Seq::<ProgressView>::empty(),
{
    let events: Vec<ProgressEvent> = Vec::new();
    assert(event_views(events@) =~= Seq::empty());
    events
}

/// The percentage `value`, with no fraction.
fn fixed(value: u64) -> (percent: Percent)
    ensures
        percent == Percent::fixed(value),
{
    Percent { base: value, span: 0, done: 0, total: 1 }
}

} // verus!
