//! Which screen the application shows, and how user actions and finished
//! background work move it from one screen to the next.

use vstd::prelude::*;
use crate::strings::{Strings, export_failed_text, recording_stopped_early_text};

verus! {

/// The screen the application is on.
#[derive(Debug, Clone, Copy, PartialEq, Eq, Structural)]
pub enum Phase {
    /// Choosing the frame rate and what to record.
    Project,
    /// Dragging out the area to record over the whole desktop.
    SelectingArea,
    /// Capturing frames; the main window is hidden.
    Recording,
    /// Applying an edit and building thumbnails in the background.
    Processing,
    /// Editing the frames.
    Editing,
    /// Writing the GIF in the background; the editor stays visible but disabled.
    Exporting,
    /// The GIF was written.
    Done,
}

/// Something the user did, or background work that finished.
#[derive(Debug, Clone, Copy, PartialEq, Eq, Structural)]
pub enum Event {
    FullScreenChosen,
    AreaSelectionChosen,
    AreaSelected,
    StopRequested,
    ProcessingFinished,
    HeavyEditChosen,
    ExportChosen,
    ExportFinished { succeeded: bool },
    NewRecordingChosen,
}

/// The screen after `event` happens on screen `phase`; events that do not
/// apply to a screen leave it as it is.
pub open spec fn next_phase_spec(phase: Phase, event: Event) -> Phase {
    match (phase, event) {
        (_, Event::NewRecordingChosen) => Phase::Project,
        (Phase::Project, Event::FullScreenChosen) => Phase::Recording,
        (Phase::Project, Event::AreaSelectionChosen) => Phase::SelectingArea,
        (Phase::SelectingArea, Event::AreaSelected) => Phase::Recording,
        (Phase::Recording, Event::StopRequested) => Phase::Processing,
        (Phase::Processing, Event::ProcessingFinished) => Phase::Editing,
        (Phase::Editing, Event::HeavyEditChosen) => Phase::Processing,
        (Phase::Editing, Event::ExportChosen) => Phase::Exporting,
        (Phase::Exporting, Event::ExportFinished { succeeded }) => if succeeded {
            Phase::Done
        } else {
            Phase::Editing
        },
        _ => phase,
    }
}

pub fn next_phase(phase: Phase, event: Event) -> (r: Phase)
    ensures
        r == next_phase_spec(phase, event),
{
    match (phase, event) {
        (_, Event::NewRecordingChosen) => Phase::Project,
        (Phase::Project, Event::FullScreenChosen) => Phase::Recording,
        (Phase::Project, Event::AreaSelectionChosen) => Phase::SelectingArea,
        (Phase::SelectingArea, Event::AreaSelected) => Phase::Recording,
        (Phase::Recording, Event::StopRequested) => Phase::Processing,
        (Phase::Processing, Event::ProcessingFinished) => Phase::Editing,
        (Phase::Editing, Event::HeavyEditChosen) => Phase::Processing,
        (Phase::Editing, Event::ExportChosen) => Phase::Exporting,
        (Phase::Exporting, Event::ExportFinished { succeeded }) => if succeeded {
            Phase::Done
        } else {
            Phase::Editing
        },
        _ => phase,
    }
}

/// The main window is hidden while the area is being selected and while
/// recording, so it does not end up in the recording.
pub fn hides_main_window(phase: Phase) -> (r: bool)
    ensures
        r <==> (phase == Phase::Recording || phase == Phase::SelectingArea),
{
    match phase {
        Phase::Recording | Phase::SelectingArea => true,
        _ => false,
    }
}

/// Starting a recording or an export clears the warning left by the previous
/// attempt.
pub fn clears_last_error(phase: Phase, event: Event) -> (r: bool)
    ensures
        r <==> next_phase_spec(phase, event) != phase && (next_phase_spec(phase, event)
            == Phase::Recording || next_phase_spec(phase, event) == Phase::Exporting),
{
    let next = next_phase(phase, event);
    next != phase && (next == Phase::Recording || next == Phase::Exporting)
}

/// A failed export moves back to the editor screen, and only a successful one
/// reaches the final screen ([`finish_export`] carries the frames along).
pub proof fn lemma_failed_export_returns_to_editor(phase: Phase, event: Event)
    ensures
        phase == Phase::Exporting && event == (Event::ExportFinished { succeeded: false })
            ==> next_phase_spec(phase, event) == Phase::Editing,
        next_phase_spec(phase, event) == Phase::Done && phase != Phase::Done ==> phase
            == Phase::Exporting && event == (Event::ExportFinished { succeeded: true }),
{
}

/// Stopping only has an effect while recording, and always leads to processing
/// the recorded frames.
pub proof fn lemma_stop_only_while_recording(phase: Phase)
    ensures
        phase == Phase::Recording ==> next_phase_spec(phase, Event::StopRequested)
            == Phase::Processing,
        phase != Phase::Recording ==> next_phase_spec(phase, Event::StopRequested) == phase,
{
}

/// The editor is only reached once the frames have been processed, or when an
/// export failed.
pub proof fn lemma_editor_entered_after_processing(phase: Phase, event: Event)
    ensures
        next_phase_spec(phase, event) == Phase::Editing && phase != Phase::Editing ==> (phase
            == Phase::Processing && event == Event::ProcessingFinished) || (phase == Phase::Exporting
            && event == (Event::ExportFinished { succeeded: false })),
{
}

/// Where the application goes when an export has finished: the final screen
/// with the saved file, or back to the editor with the frames being edited and
/// a warning.
pub enum ExportOutcome<F, P> {
    Done { output_path: P },
    Editing { frames: F, warning: String },
}

impl<F, P> ExportOutcome<F, P> {
    /// The screen this outcome shows.
    pub open spec fn phase(self) -> Phase {
        match self {
            ExportOutcome::Done { .. } => Phase::Done,
            ExportOutcome::Editing { .. } => Phase::Editing,
        }
    }
}

/// The step taken when an export finishes, `failure` holding the error's text
/// when it failed. A success shows the saved file. A failure goes back to the
/// editor with the very frames that were being exported, so the export can be
/// tried again, and warns with the export-failed text in the session's
/// language.
pub fn finish_export<F, P>(frames: F, output_path: P, failure: Option<&str>, strings: &Strings) -> (r:
    ExportOutcome<F, P>)
    ensures
        r.phase() == next_phase_spec(
            Phase::Exporting,
            Event::ExportFinished { succeeded: failure is None },
        ),
        failure is None ==> r == (ExportOutcome::<F, P>::Done { output_path }),
        failure matches Some(e) ==> r matches ExportOutcome::Editing { frames: kept, warning } && kept
            == frames && warning@ == export_failed_text(strings.lang, e@),
{
    match failure {
        None => ExportOutcome::Done { output_path },
        Some(e) => ExportOutcome::Editing { frames, warning: strings.export_failed(e) },
    }
}

/// What stopping a recording leaves: the captured frames and the warning to
/// show.
pub struct StoppedRecording<F> {
    pub frames: F,
    pub warning: Option<String>,
}

/// The step taken when a recording stops, `failure` holding the capture
/// error's text when capturing failed part-way. Every captured frame goes on
/// to processing either way; a failure replaces the warning with the
/// recording-stopped-early text in the session's language, otherwise the
/// `previous` warning stays.
pub fn finish_recording<F>(
    frames: F,
    failure: Option<&str>,
    previous: Option<String>,
    strings: &Strings,
) -> (r: StoppedRecording<F>)
    ensures
        r.frames == frames,
        failure is None ==> r.warning == previous,
        failure matches Some(e) ==> r.warning matches Some(w) && w@ == recording_stopped_early_text(
            strings.lang,
            e@,
        ),
{
    match failure {
        None => StoppedRecording { frames, warning: previous },
        Some(e) => StoppedRecording { frames, warning: Some(strings.recording_stopped_early(e)) },
    }
}

} // verus!
