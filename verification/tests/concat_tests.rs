use subtitle_export::concat::any_has_audio;
use subtitle_export::concat::build_concat_args;
use subtitle_export::concat::concat_list_content;
use subtitle_export::concat::missing_video_message;
use subtitle_export::concat::concat_outcome;
use subtitle_export::concat::concat_reply;
use subtitle_export::concat::look_event;
use subtitle_export::concat::watched_process;
use subtitle_export::concat::Look;
use subtitle_export::concat::first_missing;
use subtitle_export::concat::name_concat_list;
use subtitle_export::concat::plan_concat;
use subtitle_export::concat::ConcatPlan;
use subtitle_export::concat::PollAction;
use subtitle_export::concat::PollEvent;
use subtitle_export::concat::PollState;
use subtitle_export::errors::ExportError;
use subtitle_export::errors::InputError;

fn strs(v: &[&str]) -> Vec<String> {
    v.iter().map(|s| s.to_string()).collect()
}

#[test]
fn single_video_is_copied() {
    assert_eq!(plan_concat(1), Ok(ConcatPlan::Copy { source: 0 }));
}

#[test]
fn empty_list_is_rejected_and_several_are_run() {
    assert_eq!(plan_concat(0), Err(InputError::NothingToConcatenate));
    assert_eq!(plan_concat(2), Ok(ConcatPlan::Run));
    assert_eq!(plan_concat(usize::MAX), Ok(ConcatPlan::Run));
}

#[test]
fn first_missing_file_is_found() {
    assert_eq!(first_missing(&vec![true, false, true, false]), Some(1));
    assert_eq!(first_missing(&vec![true, true]), None);
    assert_eq!(first_missing(&vec![]), None);
}

#[test]
fn list_has_one_quoted_line_per_video() {
    assert_eq!(
        concat_list_content(&strs(&["/v/chunk0.mp4", "/v/l'été.mp4"])),
        "file '/v/chunk0.mp4'\nfile '/v/l''été.mp4'\n"
    );
    assert_eq!(concat_list_content(&vec![]), "");
    assert_eq!(name_concat_list(1_700_000_000), "concat_list_1700000000.txt");
}

#[test]
fn chunks_with_audio_are_stitched_with_fresh_aac() {
    assert_eq!(
        build_concat_args("/tmp/list.txt", true, "/out/all.mp4"),
        strs(&[
            "-y", "-hide_banner", "-loglevel", "info", "-fflags", "+genpts", "-f", "concat",
            "-safe", "0", "-i", "/tmp/list.txt", "-avoid_negative_ts", "make_zero", "-map",
            "0:v", "-c:v", "copy", "-map", "0:a?", "-af", "aresample=async=1:first_pts=0",
            "-c:a", "aac", "-b:a", "320k", "-ac", "2", "/out/all.mp4",
        ])
    );
}

#[test]
fn chunks_without_audio_are_stitched_silent() {
    assert_eq!(
        build_concat_args("l", false, "o"),
        strs(&[
            "-y", "-hide_banner", "-loglevel", "info", "-fflags", "+genpts", "-f", "concat",
            "-safe", "0", "-i", "l", "-avoid_negative_ts", "make_zero", "-map", "0:v", "-c:v",
            "copy", "-an", "o",
        ])
    );
    assert!(any_has_audio(&vec![false, true]));
    assert!(!any_has_audio(&vec![false, false]));
    assert!(!any_has_audio(&vec![]));
}

#[test]
fn waiting_notes_every_tenth_look() {
    let mut state = PollState::new();
    let mut notes = Vec::new();
    for look in 1..=25 {
        match state.step(PollEvent::Running) {
            PollAction::Wait { note } => {
                if note {
                    notes.push(look);
                }
            }
            other => panic!("unexpected {:?}", other),
        }
    }
    assert_eq!(notes, vec![10, 20]);
}

#[test]
fn cancel_is_seen_at_the_next_look() {
    let mut state = PollState::new();
    assert_eq!(state.step(PollEvent::Running), PollAction::Wait { note: false });
    assert_eq!(state.step(PollEvent::Taken), PollAction::Cancelled);
    assert_eq!(
        state.step(PollEvent::Exited { success: true, code: Some(0) }),
        PollAction::Done { success: true, code: Some(0) }
    );
    assert_eq!(state.step(PollEvent::Unreadable), PollAction::Failed);
    assert_eq!(state.looks, 1);
}

#[test]
fn outcomes_of_stitching() {
    assert_eq!(concat_outcome(PollAction::Cancelled, true), Some(Err(ExportError::Cancelled)));
    assert_eq!(concat_outcome(PollAction::Failed, true), Some(Err(ExportError::Encode)));
    assert_eq!(
        concat_outcome(PollAction::Done { success: false, code: Some(1) }, true),
        Some(Err(ExportError::Encode))
    );
    assert_eq!(
        concat_outcome(PollAction::Done { success: true, code: Some(0) }, false),
        Some(Err(ExportError::Io))
    );
    assert_eq!(concat_outcome(PollAction::Done { success: true, code: Some(0) }, true), Some(Ok(())));
    assert_eq!(concat_outcome(PollAction::Wait { note: true }, true), None);
}

#[test]
fn replies_of_stitching() {
    let reply = |action, present| concat_reply(action, present, "no such process", "/out/all.mp4");
    assert_eq!(
        reply(PollAction::Cancelled, true),
        Some(Err("Concaténation annulée par l'utilisateur".to_string()))
    );
    assert_eq!(
        reply(PollAction::Failed, true),
        Some(Err("Erreur attente FFmpeg concat: no such process".to_string()))
    );
    assert_eq!(
        reply(PollAction::Done { success: false, code: Some(1) }, true),
        Some(Err("FFmpeg concat a échoué avec le code Some(1)".to_string()))
    );
    assert_eq!(
        reply(PollAction::Done { success: false, code: None }, true),
        Some(Err("FFmpeg concat a échoué avec le code None".to_string()))
    );
    assert_eq!(
        reply(PollAction::Done { success: true, code: Some(0) }, false),
        Some(Err("Le fichier de sortie n'a pas été créé".to_string()))
    );
    assert_eq!(
        reply(PollAction::Done { success: true, code: Some(0) }, true),
        Some(Ok("/out/all.mp4".to_string()))
    );
    assert_eq!(reply(PollAction::Wait { note: false }, true), None);
    assert_eq!(missing_video_message("/v/a.mp4"), "Fichier vidéo non trouvé: /v/a.mp4");
}

#[test]
fn empty_slot_is_read_as_taken() {
    assert_eq!(watched_process(Some(Some(7))), Ok(7));
    assert_eq!(watched_process(Some(None)), Err(PollEvent::Taken));
    assert_eq!(watched_process(None), Err(PollEvent::Taken));
    assert_eq!(look_event(None), PollEvent::Taken);
    assert_eq!(look_event(Some(Look::Running)), PollEvent::Running);
    assert_eq!(look_event(Some(Look::Unreadable)), PollEvent::Unreadable);
    assert_eq!(
        look_event(Some(Look::Exited { success: false, code: Some(3) })),
        PollEvent::Exited { success: false, code: Some(3) }
    );
}
