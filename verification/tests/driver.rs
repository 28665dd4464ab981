use cgex::compositor::OutputFormat;
use cgex::compositor::ProcessedImage;
use cgex::files::find_files;
use cgex::files::sort_names;
use cgex::game_extractor::GameKind;
use cgex::game_extractor::JonssonMjolner;
use cgex::pipeline::partition_results;
use cgex::pipeline::pipeline_step;
use cgex::pipeline::DismissalProtocol;
use cgex::pipeline::PipelineAction;
use cgex::pipeline::PipelineError;
use cgex::pipeline::PipelineEvent;
use cgex::pipeline::PipelineState;

fn names(v: &[&str]) -> Vec<String> {
    v.iter().map(|s| s.to_string()).collect()
}

fn processed(name: &str, format: OutputFormat) -> ProcessedImage {
    ProcessedImage {
        name: name.to_string(),
        format,
    }
}

#[test]
fn unmatched_archive_fails_before_any_launch() {
    // an input holding only "x.dir", matching zero variants, must abort in
    // the detection step, before any extractor subprocess is asked for
    let (state, action) = pipeline_step(
        PipelineState::Detecting,
        PipelineEvent::ArchiveNamesFound {
            names: names(&["x.dir"]),
        },
    );
    assert!(matches!(
        state,
        PipelineState::Failed {
            error: PipelineError::NoMatchingVariant
        }
    ));
    assert!(matches!(
        action,
        PipelineAction::Fail {
            error: PipelineError::NoMatchingVariant
        }
    ));
}

#[test]
fn detection_stages_the_selected_variant_with_shortfall_warning() {
    let (state, action) = pipeline_step(
        PipelineState::Detecting,
        PipelineEvent::ArchiveNamesFound {
            names: names(&["avi.dir", "game.dir"]),
        },
    );
    assert!(matches!(
        state,
        PipelineState::Staging {
            game: GameKind::Djupet
        }
    ));
    match action {
        PipelineAction::PrepareWorkdir {
            game,
            warn_missing,
            match_count,
            expected_count,
        } => {
            assert_eq!(game, GameKind::Djupet);
            assert!(warn_missing);
            assert_eq!(match_count, 2);
            assert_eq!(expected_count, 4);
        }
        other => panic!("unexpected action: {:?}", action_name(&other)),
    }
}

#[test]
fn staging_without_archives_is_fatal() {
    let (state, action) = pipeline_step(
        PipelineState::Staging {
            game: GameKind::Djupet,
        },
        PipelineEvent::Staged {
            names: names(&["readme.txt"]),
        },
    );
    assert!(matches!(
        state,
        PipelineState::Failed {
            error: PipelineError::NoArchives
        }
    ));
    assert!(matches!(action, PipelineAction::Fail { .. }));
}

#[test]
fn archives_are_extracted_one_at_a_time_in_sorted_order() {
    let (state, action) = pipeline_step(
        PipelineState::Staging {
            game: GameKind::Djupet,
        },
        PipelineEvent::Staged {
            names: names(&["game.dir", "avi.dir", "notes.txt"]),
        },
    );
    let (game, archives, next) = match &state {
        PipelineState::Extracting {
            game,
            archives,
            next,
        } => (*game, archives.clone(), *next),
        _ => panic!("expected extraction to start"),
    };
    assert_eq!(game, GameKind::Djupet);
    assert_eq!(archives, names(&["avi.dir", "game.dir"]));
    assert_eq!(next, 0);
    match action {
        PipelineAction::RunExtractor { archive } => assert_eq!(archive, "avi.dir"),
        _ => panic!("expected the first extractor launch"),
    }

    // first archive done: the second launches, still one at a time
    let (state, action) = pipeline_step(state, PipelineEvent::ExtractorExited { success: true });
    match &state {
        PipelineState::Extracting { next, .. } => assert_eq!(*next, 1),
        _ => panic!("expected extraction to continue"),
    }
    match action {
        PipelineAction::RunExtractor { archive } => assert_eq!(archive, "game.dir"),
        _ => panic!("expected the second extractor launch"),
    }

    // second archive done: deduplication follows
    let (state, action) = pipeline_step(state, PipelineEvent::ExtractorExited { success: true });
    assert!(matches!(state, PipelineState::Deduplicating { .. }));
    assert!(matches!(action, PipelineAction::RunDedup));
}

#[test]
fn extractor_failure_aborts_with_the_archive_name() {
    let state = PipelineState::Extracting {
        game: GameKind::Djupet,
        archives: names(&["avi.dir", "game.dir"]),
        next: 1,
    };
    let (state, _action) = pipeline_step(state, PipelineEvent::ExtractorExited { success: false });
    match state {
        PipelineState::Failed {
            error: PipelineError::ExtractionFailed { archive },
        } => assert_eq!(archive, "game.dir"),
        _ => panic!("expected a fatal extraction error"),
    }
}

#[test]
fn dedup_failure_only_warns_and_the_run_continues() {
    let (state, action) = pipeline_step(
        PipelineState::Deduplicating {
            game: GameKind::Mjolner,
        },
        PipelineEvent::DedupFinished { ok: false },
    );
    assert!(matches!(state, PipelineState::Purging { .. }));
    match action {
        PipelineAction::DeleteBroken { files } => assert_eq!(files.len(), 9),
        _ => panic!("expected the broken-asset purge"),
    }
}

#[test]
fn purge_leads_to_image_processing_with_the_variant_color() {
    let (state, action) = pipeline_step(
        PipelineState::Purging {
            game: GameKind::Djupet,
        },
        PipelineEvent::BrokenPurged,
    );
    assert!(matches!(state, PipelineState::ProcessingImages { .. }));
    match action {
        PipelineAction::ProcessImages { transparent_color } => {
            assert_eq!(transparent_color, [255, 0, 255]);
        }
        _ => panic!("expected image processing"),
    }
}

#[test]
fn one_failed_image_of_five_still_moves_the_other_four() {
    let results: Vec<Result<ProcessedImage, String>> = vec![
        Ok(processed("a--b__one.png", OutputFormat::LosslessUpscaled)),
        Ok(processed("a--b__two.png", OutputFormat::LosslessUpscaled)),
        Err("Failed to process image: a--b__three.bmp".to_string()),
        Ok(processed("a--b__four.png", OutputFormat::LosslessUpscaled)),
        Ok(processed("plain.png", OutputFormat::LosslessUpscaled)),
    ];
    let (state, action) = pipeline_step(
        PipelineState::ProcessingImages {
            game: GameKind::Djupet,
        },
        PipelineEvent::ImagesProcessed { results },
    );
    match &action {
        PipelineAction::RunPostHook { copies, failures } => {
            assert!(copies.is_empty());
            assert_eq!(
                failures,
                &vec!["Failed to process image: a--b__three.bmp".to_string()]
            );
        }
        _ => panic!("expected the repair hook"),
    }
    let (state, action) = pipeline_step(state, PipelineEvent::PostHookDone);
    assert!(matches!(state, PipelineState::Reconstructing { .. }));
    match action {
        PipelineAction::MoveOutputs { moves } => {
            assert_eq!(moves.len(), 4);
            assert_eq!(moves[0].src, "a--b__one.png");
            assert_eq!(moves[0].dest, names(&["a", "b", "one.png"]));
            assert_eq!(moves[1].dest, names(&["a", "b", "two.png"]));
            assert_eq!(moves[2].dest, names(&["a", "b", "four.png"]));
            assert_eq!(moves[3].dest, names(&["plain.png"]));
        }
        _ => panic!("expected the output moves"),
    }
}

#[test]
fn run_finishes_through_cleanup() {
    let (state, action) = pipeline_step(
        PipelineState::Reconstructing {
            game: GameKind::Bil,
        },
        PipelineEvent::OutputsMoved,
    );
    assert!(matches!(state, PipelineState::CleaningUp));
    assert!(matches!(action, PipelineAction::Cleanup));
    let (state, action) = pipeline_step(state, PipelineEvent::CleanupDone);
    assert!(matches!(state, PipelineState::Done));
    assert!(matches!(action, PipelineAction::Finish));
}

#[test]
fn mismatched_events_change_nothing() {
    let (state, action) = pipeline_step(PipelineState::Detecting, PipelineEvent::BrokenPurged);
    assert!(matches!(state, PipelineState::Detecting));
    assert!(matches!(action, PipelineAction::NoOp));
}

#[test]
fn partition_splits_successes_and_failures_in_order() {
    let results: Vec<Result<ProcessedImage, String>> = vec![
        Ok(processed("a.png", OutputFormat::LosslessUpscaled)),
        Err("e1".to_string()),
        Ok(processed("b.png", OutputFormat::CompressedUpscaled)),
        Err("e2".to_string()),
    ];
    let (oks, errs) = partition_results(&results);
    let names_kept: Vec<String> = oks.iter().map(|p| p.name.clone()).collect();
    assert_eq!(names_kept, names(&["a.png", "b.png"]));
    assert_eq!(errs, names(&["e1", "e2"]));
}

#[test]
fn mjolner_repair_hook_duplicates_the_expected_frame() {
    let processed_files = vec![
        processed(
            "berlin--Animationer__vanheden7000001-42.png",
            OutputFormat::LosslessUpscaled,
        ),
        processed("berlin--Animationer__other.png", OutputFormat::LosslessUpscaled),
    ];
    let copies = JonssonMjolner.post_extraction_setup(&processed_files);
    assert_eq!(copies.len(), 1);
    assert_eq!(copies[0].src, "berlin--Animationer__vanheden7000001-42.png");
    assert_eq!(copies[0].dst, "berlin--Animationer__vanheden707.png");
}

#[test]
fn dismissal_protocol_orders_stop_grace_and_join() {
    let mut p = DismissalProtocol::begin();
    assert!(p.may_send_dismiss());
    p.signal_stop();
    assert!(!p.may_send_dismiss());
    p.grace_elapsed();
    p.join_dismissal();
    assert!(p.joined);
}

#[test]
fn find_files_filters_and_sorts_case_insensitively() {
    let listing = names(&["B.dxr", "a.dir", "c.txt", "A.DIR"]);
    let exts = vec!["dir", "dxr"];
    let found = find_files(&listing, &exts);
    assert_eq!(found, names(&["A.DIR", "B.dxr", "a.dir"]));
}

#[test]
fn sort_names_orders_lexicographically() {
    let listing = names(&["b", "aa", "a"]);
    assert_eq!(sort_names(&listing), names(&["a", "aa", "b"]));
}

fn action_name(a: &PipelineAction) -> &'static str {
    match a {
        PipelineAction::PrepareWorkdir { .. } => "PrepareWorkdir",
        PipelineAction::RunExtractor { .. } => "RunExtractor",
        PipelineAction::RunDedup => "RunDedup",
        PipelineAction::DeleteBroken { .. } => "DeleteBroken",
        PipelineAction::ProcessImages { .. } => "ProcessImages",
        PipelineAction::RunPostHook { .. } => "RunPostHook",
        PipelineAction::MoveOutputs { .. } => "MoveOutputs",
        PipelineAction::Cleanup => "Cleanup",
        PipelineAction::Finish => "Finish",
        PipelineAction::Fail { .. } => "Fail",
        PipelineAction::NoOp => "NoOp",
    }
}
