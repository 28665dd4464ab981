//! The pipeline driver: detect, stage, extract, dedupe, purge broken
//! assets, process images, run the variant's repair hook, reconstruct
//! paths, clean up. The driver is a state machine from state and event to
//! next state and action; the surrounding program performs each action (the
//! subprocesses, the file moves, the prints) and hands the outcome back as
//! the next event. Archives are extracted strictly one at a time, in
//! sorted order, and an extractor failure is fatal for the whole run.

use vstd::prelude::*;

use crate::compositor::CopyOp;
use crate::compositor::OutputFormat;
use crate::compositor::ProcessedImage;
use crate::compositor::copy_views;
use crate::compositor::processed_views;
use crate::compositor::spec_format_ext;
use crate::detect::Detection;
use crate::detect::detect_game;
use crate::detect::found_set;
use crate::detect::spec_detect;
use crate::detect::spec_score;
use crate::files::ext_views;
use crate::files::find_files;
use crate::files::sorted_names;
use crate::files::spec_matches_any;
use crate::game_extractor::GameKind;
use crate::game_extractor::broken_images_of;
use crate::game_extractor::post_copies_of;
use crate::game_extractor::spec_broken_images;
use crate::game_extractor::spec_expected_files;
use crate::game_extractor::spec_post_copies;
use crate::game_extractor::spec_transparent_color;
use crate::game_extractor::transparent_color_of;
use crate::game_extractor::views_of;
use crate::paths::demangle_name;
use crate::paths::spec_demangled_path;

verus! {

/// The fatal failures a run can end in.
pub enum PipelineError {
    /// No registered variant matched any found archive file.
    NoMatchingVariant,
    /// The staged working directory holds no archive file at all.
    NoArchives,
    /// The external extractor failed on the named archive.
    ExtractionFailed { archive: String },
}

/// Where the driver stands in a run.
pub enum PipelineState {
    /// Waiting for the archive filenames found under the input root.
    Detecting,
    /// A variant is selected; the working directory is being staged and the
    /// variant's preparation hook runs.
    Staging { game: GameKind },
    /// Archives are extracted one at a time, in sorted order.
    Extracting { game: GameKind, archives: Vec<String>, next: usize },
    /// The flat pool is being deduplicated.
    Deduplicating { game: GameKind },
    /// The variant's known-broken assets are being deleted, best-effort.
    Purging { game: GameKind },
    /// Every image of the pool runs through the compositor.
    ProcessingImages { game: GameKind },
    /// The variant's repair hook runs over the successful images.
    PostProcessing { game: GameKind, successes: Vec<ProcessedImage> },
    /// Processed files move to their demangled output paths.
    Reconstructing { game: GameKind },
    /// The working directory is being removed.
    CleaningUp,
    /// The run finished.
    Done,
    /// The run aborted; the working directory is still removed.
    Failed { error: PipelineError },
}

/// What the driver learns from the outside between steps.
pub enum PipelineEvent {
    /// The case-folded archive filenames found under the input root.
    ArchiveNamesFound { names: Vec<String> },
    /// Staging and the preparation hook finished; these are the filenames
    /// now present in the working directory.
    Staged { names: Vec<String> },
    /// The extractor subprocess exited for the current archive.
    ExtractorExited { success: bool },
    /// Deduplication finished, or was skipped after a failure (`ok` false),
    /// which only warns.
    DedupFinished { ok: bool },
    /// The broken-asset purge finished (missing files only warn).
    BrokenPurged,
    /// Every image was processed; per-image failures are carried as error
    /// text.
    ImagesProcessed { results: Vec<Result<ProcessedImage, String>> },
    /// The repair hook's copies were performed (an absent source frame only
    /// skips).
    PostHookDone,
    /// The processed files were moved to their output paths.
    OutputsMoved,
    /// The working directory was removed.
    CleanupDone,
}

/// What the driver asks the outside to do next.
pub enum PipelineAction {
    /// Copy the input and the extraction tools into the working directory
    /// and run the variant's preparation hook; warn first about a
    /// shortfall of expected files if `warn_missing`.
    PrepareWorkdir { game: GameKind, warn_missing: bool, match_count: usize, expected_count: usize },
    /// Launch the external extractor over one archive, working directory as
    /// its current directory, and await its exit.
    RunExtractor { archive: String },
    /// Hash the pool and delete the duplicates; on failure warn and go on.
    RunDedup,
    /// Delete these known-broken files, warning on each miss.
    DeleteBroken { files: Vec<&'static str> },
    /// Composite every image of the pool with this color key.
    ProcessImages { transparent_color: [u8; 3] },
    /// Print each failure line, then perform the repair hook's copies.
    RunPostHook { copies: Vec<CopyOp>, failures: Vec<String> },
    /// Move each processed file to its demangled output path.
    MoveOutputs { moves: Vec<MoveOp> },
    /// Remove the working directory.
    Cleanup,
    /// Report success.
    Finish,
    /// Abort with this error; the working directory is still removed.
    Fail { error: PipelineError },
    /// The event did not belong to the current state; nothing to do.
    NoOp,
}

/// A planned move of one processed file to its output path components.
pub struct MoveOp {
    pub src: String,
    pub dest: Vec<String>,
}

/// The archive extensions the extractor understands.
pub open spec fn archive_exts() -> Seq<Seq<char>> {
    seq!["dir"@, "dxr"@]
}

/// `moves` relocates exactly the processed images, each to the demangled
/// path of its flat name with the extension of its chosen format.
pub open spec fn moves_for(moves: Seq<MoveOp>, succ: Seq<ProcessedImage>) -> bool {
    &&& moves.len() == succ.len()
    &&& forall|i: int|
        0 <= i < moves.len() ==> (#[trigger] moves[i]).src@ == succ[i].name@ && views_of(
            moves[i].dest@,
        ) == spec_demangled_path(succ[i].name@, Some(spec_format_ext(succ[i].format)))
}

/// The successfully processed images, in order.
pub open spec fn oks_of(rs: Seq<Result<ProcessedImage, String>>) -> Seq<ProcessedImage>
    decreases rs.len(),
{
    if rs.len() == 0 {
        Seq::<ProcessedImage>::empty()
    } else {
        oks_of(rs.drop_last()) + (match rs.last() {
            Result::Ok(p) => seq![p],
            Result::Err(_) => Seq::<ProcessedImage>::empty(),
        })
    }
}

/// The per-image failure texts, in order.
pub open spec fn errs_of(rs: Seq<Result<ProcessedImage, String>>) -> Seq<String>
    decreases rs.len(),
{
    if rs.len() == 0 {
        Seq::<String>::empty()
    } else {
        errs_of(rs.drop_last()) + (match rs.last() {
            Result::Ok(_) => Seq::<String>::empty(),
            Result::Err(e) => seq![e],
        })
    }
}

/// Every processed image either succeeded or failed: nothing is dropped
/// and nothing is counted twice.
pub proof fn lemma_partition_counts(rs: Seq<Result<ProcessedImage, String>>)
    ensures
        oks_of(rs).len() + errs_of(rs).len() == rs.len(),
    decreases rs.len(),
{
    if rs.len() > 0 {
        lemma_partition_counts(rs.drop_last());
    }
}

/// Partition the per-image outcomes into successes and failures, keeping
/// the order of each side: the batch goes on past individual failures, and
/// every failure is reported exactly once.
pub fn partition_results(results: &Vec<Result<ProcessedImage, String>>) -> (r: (
    Vec<ProcessedImage>,
    Vec<String>,
))
    ensures
        r.0@ == oks_of(results@),
        r.1@ == errs_of(results@),
{
    let n = results.len();
    let mut oks: Vec<ProcessedImage> = Vec::new();
    let mut errs: Vec<String> = Vec::new();
    let mut i: usize = 0;
    proof {
        assert(results@.take(0) =~= Seq::<Result<ProcessedImage, String>>::empty());
        assert(oks@ =~= oks_of(results@.take(0)));
        assert(errs@ =~= errs_of(results@.take(0)));
    }
    while i < n
        invariant
            n == results@.len(),
            i <= n,
            oks@ == oks_of(results@.take(i as int)),
            errs@ == errs_of(results@.take(i as int)),
        decreases n - i,
    {
        proof {
            assert(results@.take(i + 1).drop_last() =~= results@.take(i as int));
            assert(results@.take(i + 1).last() == results@[i as int]);
        }
        match &results[i] {
            Ok(p) => {
                oks.push(p.duplicate());
                proof {
                    assert(oks@ =~= oks_of(results@.take(i as int)) + seq![
                        results@[i as int]->Ok_0,
                    ]);
                    assert(errs@ =~= errs_of(results@.take(i + 1)));
                }
            },
            Err(e) => {
                errs.push(e.clone());
                proof {
                    assert(errs@ =~= errs_of(results@.take(i as int)) + seq![
                        results@[i as int]->Err_0,
                    ]);
                    assert(oks@ =~= oks_of(results@.take(i + 1)));
                }
            },
        }
        i = i + 1;
    }
    proof {
        assert(results@.take(n as int) =~= results@);
    }
    (oks, errs)
}

/// Plan the final relocation: one move per successfully processed image, to
/// the demangled path of its flat name, carrying its format's extension.
pub fn plan_moves(successes: &Vec<ProcessedImage>) -> (moves: Vec<MoveOp>)
    ensures
        moves_for(moves@, successes@),
{
    let n = successes.len();
    let mut moves: Vec<MoveOp> = Vec::new();
    let mut i: usize = 0;
    while i < n
        invariant
            n == successes@.len(),
            i <= n,
            moves@.len() == i,
            forall|j: int|
                0 <= j < i ==> (#[trigger] moves@[j]).src@ == successes@[j].name@ && views_of(
                    moves@[j].dest@,
                ) == spec_demangled_path(
                    successes@[j].name@,
                    Some(spec_format_ext(successes@[j].format)),
                ),
        decreases n - i,
    {
        let p = &successes[i];
        let ext = p.format.extension();
        proof {
            match p.format {
                OutputFormat::OriginalRaster => {},
                OutputFormat::CompressedRaster => {},
                OutputFormat::LosslessUpscaled => {},
                OutputFormat::CompressedUpscaled => {},
            }
            assert(ext@ == spec_format_ext(successes@[i as int].format));
        }
        let dest = demangle_name(p.name.as_str(), Some(ext));
        moves.push(MoveOp { src: p.name.clone(), dest });
        i = i + 1;
    }
    moves
}

/// A state the machine can actually be in: the extraction cursor stays
/// inside the archive list.
pub open spec fn state_wf(s: PipelineState) -> bool {
    match s {
        PipelineState::Extracting { game, archives, next } => next < archives@.len(),
        _ => true,
    }
}

/// One step of the pipeline driver. The spine of the run: detection must
/// succeed before anything is staged or launched; archives are extracted
/// one at a time in sorted order and a failure aborts; deduplication
/// failure only warns; image failures are reported and the rest of the
/// batch continues; the working directory is removed on success and on
/// failure alike.
pub fn pipeline_step(state: PipelineState, event: PipelineEvent) -> (r: (
    PipelineState,
    PipelineAction,
))
    requires
        state_wf(state),
    ensures
        state_wf(r.0),
        // an extractor launch can only follow staging or an earlier extraction
        r.1 matches PipelineAction::RunExtractor { .. } ==> (state matches PipelineState::Staging {
            ..
        } || state matches PipelineState::Extracting { .. }),
        // staging is only entered through a successful detection
        r.0 matches PipelineState::Staging { game } ==> ((
        state matches PipelineState::Staging { game: g0 } && g0 == game) || (state is Detecting
            && (event matches PipelineEvent::ArchiveNamesFound { names } && spec_detect(
            found_set(names@),
        ) == Some(game)))),
        // detection: no overlap with any variant aborts before anything runs
        state is Detecting ==> (event matches PipelineEvent::ArchiveNamesFound { names } ==> {
            &&& spec_detect(found_set(names@)) is None ==> (
            r.0 matches PipelineState::Failed { error: PipelineError::NoMatchingVariant }
                && r.1 matches PipelineAction::Fail { error: PipelineError::NoMatchingVariant })
            &&& spec_detect(found_set(names@)) matches Some(g) ==> (
            r.1 matches PipelineAction::PrepareWorkdir {
                game,
                warn_missing,
                match_count,
                expected_count,
            } && game == g && match_count == spec_score(spec_expected_files(g), found_set(names@))
                && expected_count == spec_expected_files(g).len() && warn_missing == (match_count
                < expected_count))
        }),
        // staging: the archive pool is filtered and sorted; an empty pool aborts
        state matches PipelineState::Staging { game } ==> (
        event matches PipelineEvent::Staged { names } ==> {
            &&& views_of(names@).filter(|nm: Seq<char>| spec_matches_any(nm, archive_exts())).len()
                == 0 ==> (r.0 matches PipelineState::Failed { error: PipelineError::NoArchives }
                && r.1 matches PipelineAction::Fail { error: PipelineError::NoArchives })
            &&& views_of(names@).filter(|nm: Seq<char>| spec_matches_any(nm, archive_exts())).len()
                > 0 ==> (r.0 matches PipelineState::Extracting { game: g2, archives, next } && g2
                == game && next == 0 && sorted_names(views_of(archives@)) && views_of(
                archives@,
            ).to_multiset() == views_of(names@).filter(
                |nm: Seq<char>| spec_matches_any(nm, archive_exts()),
            ).to_multiset() && (r.1 matches PipelineAction::RunExtractor { archive } && archive@
                == archives@[0]@))
        }),
        // extraction: sequential, one at a time, fatal on failure
        state matches PipelineState::Extracting { game, archives, next } ==> (
        event matches PipelineEvent::ExtractorExited { success } ==> {
            &&& !success ==> (r.0 matches PipelineState::Failed {
                error: PipelineError::ExtractionFailed { archive },
            } && archive@ == archives@[next as int]@)
            &&& (success && next + 1 < archives@.len()) ==> (
            r.0 matches PipelineState::Extracting { game: g2, archives: a2, next: n2 } && g2
                == game && a2@ == archives@ && n2 == next + 1 && (
            r.1 matches PipelineAction::RunExtractor { archive } && archive@ == archives@[next
                + 1]@))
            &&& (success && next + 1 == archives@.len()) ==> (
            r.0 matches PipelineState::Deduplicating { game: g2 } && g2 == game
                && r.1 is RunDedup)
        }),
        // deduplication: failure only warns, the run continues either way
        state matches PipelineState::Deduplicating { game } ==> (
        event matches PipelineEvent::DedupFinished { .. } ==> (
        r.0 matches PipelineState::Purging { game: g2 } && g2 == game && (
        r.1 matches PipelineAction::DeleteBroken { files } && files@.map_values(
            |s: &'static str| s@,
        ) == spec_broken_images(game)))),
        // purge done: process every image with the variant's color key
        state matches PipelineState::Purging { game } ==> (
        event matches PipelineEvent::BrokenPurged ==> (
        r.0 matches PipelineState::ProcessingImages { game: g2 } && g2 == game && (
        r.1 matches PipelineAction::ProcessImages { transparent_color } && transparent_color
            == spec_transparent_color(game)))),
        // image batch: partition, report failures, run the repair hook
        state matches PipelineState::ProcessingImages { game } ==> (
        event matches PipelineEvent::ImagesProcessed { results } ==> (
        r.0 matches PipelineState::PostProcessing { game: g2, successes } && g2 == game
            && successes@ == oks_of(results@) && (r.1 matches PipelineAction::RunPostHook {
            copies,
            failures,
        } && failures@ == errs_of(results@) && copy_views(copies@) == spec_post_copies(
            game,
            processed_views(oks_of(results@)),
        )))),
        // repair hook done: move every success to its demangled path
        state matches PipelineState::PostProcessing { game, successes } ==> (
        event matches PipelineEvent::PostHookDone ==> (
        r.0 matches PipelineState::Reconstructing { game: g2 } && g2 == game && (
        r.1 matches PipelineAction::MoveOutputs { moves } && moves_for(moves@, successes@)))),
        // tail of the run
        state matches PipelineState::Reconstructing { game } ==> (
        event matches PipelineEvent::OutputsMoved ==> (r.0 is CleaningUp && r.1 is Cleanup)),
        state is CleaningUp ==> (event matches PipelineEvent::CleanupDone ==> (r.0 is Done
            && r.1 is Finish)),
{
    match (state, event) {
        (PipelineState::Detecting, PipelineEvent::ArchiveNamesFound { names }) => {
            match detect_game(&names) {
                Err(_) => (
                    PipelineState::Failed { error: PipelineError::NoMatchingVariant },
                    PipelineAction::Fail { error: PipelineError::NoMatchingVariant },
                ),
                Ok(d) => {
                    let Detection { game, match_count, expected_count } = d;
                    (
                        PipelineState::Staging { game },
                        PipelineAction::PrepareWorkdir {
                            game,
                            warn_missing: match_count < expected_count,
                            match_count,
                            expected_count,
                        },
                    )
                },
            }
        },
        (PipelineState::Staging { game }, PipelineEvent::Staged { names }) => {
            let mut exts: Vec<&str> = Vec::new();
            exts.push("dir");
            exts.push("dxr");
            proof {
                assert(ext_views(exts@) =~= archive_exts());
            }
            let archives = find_files(&names, &exts);
            if archives.len() == 0 {
                proof {
                    views_of(archives@).to_multiset_ensures();
                    views_of(names@).filter(
                        |nm: Seq<char>| spec_matches_any(nm, archive_exts()),
                    ).to_multiset_ensures();
                    assert(views_of(archives@).len() == 0);
                    assert(views_of(names@).filter(
                        |nm: Seq<char>| spec_matches_any(nm, archive_exts()),
                    ).len() == 0);
                }
                (
                    PipelineState::Failed { error: PipelineError::NoArchives },
                    PipelineAction::Fail { error: PipelineError::NoArchives },
                )
            } else {
                let first = archives[0].clone();
                proof {
                    views_of(names@).filter(
                        |nm: Seq<char>| spec_matches_any(nm, archive_exts()),
                    ).to_multiset_ensures();
                    views_of(archives@).to_multiset_ensures();
                }
                (
                    PipelineState::Extracting { game, archives, next: 0 },
                    PipelineAction::RunExtractor { archive: first },
                )
            }
        },
        (
            PipelineState::Extracting { game, archives, next },
            PipelineEvent::ExtractorExited { success },
        ) => {
            let total = archives.len();
            proof {
                assert(next < archives@.len());
            }
            if !success {
                let archive = archives[next].clone();
                (
                    PipelineState::Failed { error: PipelineError::ExtractionFailed { archive } },
                    PipelineAction::Fail {
                        error: PipelineError::ExtractionFailed { archive: archives[next].clone() },
                    },
                )
            } else if next + 1 < total {
                let archive = archives[next + 1].clone();
                (
                    PipelineState::Extracting { game, archives, next: next + 1 },
                    PipelineAction::RunExtractor { archive },
                )
            } else {
                (PipelineState::Deduplicating { game }, PipelineAction::RunDedup)
            }
        },
        (PipelineState::Deduplicating { game }, PipelineEvent::DedupFinished { ok: _ }) => {
            let files = broken_images_of(game);
            (PipelineState::Purging { game }, PipelineAction::DeleteBroken { files })
        },
        (PipelineState::Purging { game }, PipelineEvent::BrokenPurged) => {
            let transparent_color = transparent_color_of(game);
            (
                PipelineState::ProcessingImages { game },
                PipelineAction::ProcessImages { transparent_color },
            )
        },
        (PipelineState::ProcessingImages { game }, PipelineEvent::ImagesProcessed { results }) => {
            let (successes, failures) = partition_results(&results);
            let copies = post_copies_of(game, &successes);
            (
                PipelineState::PostProcessing { game, successes },
                PipelineAction::RunPostHook { copies, failures },
            )
        },
        (PipelineState::PostProcessing { game, successes }, PipelineEvent::PostHookDone) => {
            let moves = plan_moves(&successes);
            (PipelineState::Reconstructing { game }, PipelineAction::MoveOutputs { moves })
        },
        (PipelineState::Reconstructing { game: _ }, PipelineEvent::OutputsMoved) => {
            (PipelineState::CleaningUp, PipelineAction::Cleanup)
        },
        (PipelineState::CleaningUp, PipelineEvent::CleanupDone) => {
            (PipelineState::Done, PipelineAction::Finish)
        },
        (s, _) => (s, PipelineAction::NoOp),
    }
}

/// The dialog-dismissal protocol that accompanies one extractor invocation
/// on platforms without native support for the legacy runtime: the
/// dismissal task keeps sending its key event until the extractor exits,
/// the stop signal comes only then, a grace period follows the signal, and
/// the join comes only after both — the last dismissal attempt may race
/// the extractor's exit.
pub struct DismissalProtocol {
    pub stop_requested: bool,
    pub grace_waited: bool,
    pub joined: bool,
}

impl DismissalProtocol {
    /// Start the protocol alongside a freshly launched extractor.
    pub fn begin() -> (r: DismissalProtocol)
        ensures
            !r.stop_requested,
            !r.grace_waited,
            !r.joined,
    {
        DismissalProtocol { stop_requested: false, grace_waited: false, joined: false }
    }

    /// Whether the dismissal task may send one more dismiss key event:
    /// only until the stop signal. A failure of the attempt itself is
    /// logged by the caller, never propagated.
    pub fn may_send_dismiss(&self) -> (r: bool)
        ensures
            r == !self.stop_requested,
    {
        !self.stop_requested
    }

    /// The extractor exited: signal the dismissal task to stop.
    pub fn signal_stop(&mut self)
        requires
            !old(self).joined,
        ensures
            final(self).stop_requested,
            final(self).grace_waited == old(self).grace_waited,
            !final(self).joined,
    {
        self.stop_requested = true;
    }

    /// The grace period after the stop signal elapsed.
    pub fn grace_elapsed(&mut self)
        requires
            old(self).stop_requested,
            !old(self).joined,
        ensures
            final(self).stop_requested,
            final(self).grace_waited,
            !final(self).joined,
    {
        self.grace_waited = true;
    }

    /// Join the dismissal task: only after the stop signal and the grace
    /// period.
    pub fn join_dismissal(&mut self)
        requires
            old(self).stop_requested,
            old(self).grace_waited,
            !old(self).joined,
        ensures
            final(self).stop_requested,
            final(self).grace_waited,
            final(self).joined,
    {
        self.joined = true;
    }
}

} // verus!
