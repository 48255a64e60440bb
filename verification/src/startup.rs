//! Checks of what has to be in place before anything starts. Nothing is ever
//! installed, only reported.

use vstd::prelude::*;
use vstd::string::*;

use crate::config::Config;

verus! {

/// What is said when ffmpeg is missing.
pub const FFMPEG_MISSING: &'static str = "ffmpeg was not found on this system, but motioncap requires it for video encoding.\nInstall it with one of:\n  Debian/Ubuntu:  sudo apt install ffmpeg\n  Arch/CachyOS:   sudo pacman -S ffmpeg\n  Fedora:         sudo dnf install ffmpeg\n  macOS:          brew install ffmpeg\nThen re-run motioncap.";

/// What is said before the path of a missing model file.
pub const MODEL_MISSING: &'static str = "ONNX model file not found at ";

/// What is said after the path of a missing model file.
pub const MODEL_HELP: &'static str = ".\nPass --model-path pointing to a YOLO model exported to ONNX format\n(e.g. YOLOv8n, exported once via the `ultralytics` Python package).";

/// Whether a binary that answers `-version` was found, or how to install
/// ffmpeg if not.
pub fn check_ffmpeg_probe(found: bool) -> (r: Result<(), String>)
    ensures
        r is Ok == found,
        r is Err ==> r->Err_0@ == FFMPEG_MISSING@,
{
    if found {
        Ok(())
    } else {
        Err(FFMPEG_MISSING.to_owned())
    }
}

/// [`check_ffmpeg_probe`] for ffmpeg: `found` is whether `ffmpeg -version`
/// succeeded.
pub fn check_ffmpeg(found: bool) -> (r: Result<(), String>)
    ensures
        r is Ok == found,
        r is Err ==> r->Err_0@ == FFMPEG_MISSING@,
{
    check_ffmpeg_probe(found)
}

/// Whether the model file at `path` exists, or what to pass if not.
pub fn check_model_file(path: &str, is_file: bool) -> (r: Result<(), String>)
    ensures
        r is Ok == is_file,
        r is Err ==> r->Err_0@ == MODEL_MISSING@ + path@ + MODEL_HELP@,
{
    if is_file {
        return Ok(());
    }
    let mut text: String = MODEL_MISSING.to_owned();
    text.append(path);
    text.append(MODEL_HELP);
    Err(text)
}

/// Whether everything needed is in place. Of two things missing, ffmpeg is
/// reported.
pub fn check_dependencies(config: &Config, ffmpeg_found: bool, model_is_file: bool) -> (r: Result<
    (),
    String,
>)
    ensures
        r is Ok == (ffmpeg_found && model_is_file),
        !ffmpeg_found ==> r->Err_0@ == FFMPEG_MISSING@,
        ffmpeg_found && !model_is_file ==> r->Err_0@ == MODEL_MISSING@ + config.model_path@
            + MODEL_HELP@,
{
    match check_ffmpeg(ffmpeg_found) {
        Ok(_) => check_model_file(config.model_path(), model_is_file),
        Err(text) => Err(text),
    }
}

} // verus!
