//! Decisions of the player controller. The controller runs the media
//! backend; these functions say which commands it issues, given what the
//! backend and the file system report.

use vstd::prelude::*;

use crate::queue::{path_of, resolves, Queue, QueueItem, MAX_RESOLUTION_STEPS};
use crate::catalog::text_of;

verus! {

/// States of the media backend.
#[derive(PartialEq, Eq, Structural, Clone, Copy, Debug)]
pub enum PlaybackState {
    VoidPending,
    Null,
    Ready,
    Paused,
    Playing,
}

/// A command for the media backend.
#[derive(Debug)]
pub enum BackendCommand {
    /// Move the backend to this state; `Null` stops playback.
    SetState(PlaybackState),
    /// Play from this URI next.
    SetSource(String),
}

#[derive(PartialEq, Eq, Structural, Clone, Copy, Debug)]
pub enum PlayerError {
    /// The path cannot be resolved to a source the backend can open.
    MediaOpenError,
}

/// Paths that start at the root of the file system.
pub open spec fn is_absolute(path: Seq<char>) -> bool {
    path.len() > 0 && path[0] == '/'
}

/// The `file://` URI of an absolute path, each part percent-encoded.
pub uninterp spec fn file_uri_of(path: Seq<char>) -> Seq<char>;

/// Relies on `url::Url::from_file_path`: it fails exactly on a path that is
/// not absolute, and otherwise gives a URI that depends on the path alone.
#[verifier::external_body]
fn file_uri(path: &str) -> (r: Option<String>)
    ensures
        r is Some <==> is_absolute(path@),
        r matches Some(u) ==> u@ == file_uri_of(path@),
{
    url::Url::from_file_path(path).ok().map(String::from)
}

/// The URI under which the backend opens a file, given its canonical path.
pub fn create_gst_uri(canonical_path: &str) -> (r: Option<String>)
    ensures
        r is Some <==> is_absolute(canonical_path@),
        r matches Some(u) ==> u@ == file_uri_of(canonical_path@),
{
    file_uri(canonical_path)
}

/// The commands that play a file, given its canonical path, or `None` where
/// the path could not be resolved. Playback stops before the new source is
/// set, and starts after.
pub fn play_file(canonical_path: Option<&str>) -> (r: Result<Vec<BackendCommand>, PlayerError>)
    ensures
        match canonical_path {
            Some(p) if is_absolute(p@) => r matches Ok(cmds) && {
                &&& cmds@.len() == 3
                &&& cmds@[0] == BackendCommand::SetState(PlaybackState::Null)
                &&& cmds@[1] matches BackendCommand::SetSource(u) && u@ == file_uri_of(p@)
                &&& cmds@[2] == BackendCommand::SetState(PlaybackState::Playing)
            },
            _ => r == Err::<Vec<BackendCommand>, PlayerError>(PlayerError::MediaOpenError),
        },
{
    match canonical_path {
        Some(p) => match create_gst_uri(p) {
            Some(uri) => {
                let mut cmds: Vec<BackendCommand> = Vec::new();
                cmds.push(stop());
                cmds.push(BackendCommand::SetSource(uri));
                cmds.push(BackendCommand::SetState(PlaybackState::Playing));
                Ok(cmds)
            },
            None => Err(PlayerError::MediaOpenError),
        },
        None => Err(PlayerError::MediaOpenError),
    }
}

/// Stopping is unconditional: the backend goes to its null state.
pub fn stop() -> (r: BackendCommand)
    ensures
        r == BackendCommand::SetState(PlaybackState::Null),
{
    BackendCommand::SetState(PlaybackState::Null)
}

/// The state to move to on play/pause, given the state the backend
/// reports: playing pauses, paused plays, and any other state issues
/// nothing.
pub fn toggle_play_pause(current: PlaybackState) -> (r: Option<PlaybackState>)
    ensures
        current == PlaybackState::Playing ==> r == Some(PlaybackState::Paused),
        current == PlaybackState::Paused ==> r == Some(PlaybackState::Playing),
        current != PlaybackState::Playing && current != PlaybackState::Paused ==> r is None,
{
    match current {
        PlaybackState::Playing => Some(PlaybackState::Paused),
        PlaybackState::Paused => Some(PlaybackState::Playing),
        _ => None,
    }
}

/// Near the end of a track: the path of the next song to pre-arm, resolved
/// from the queue as `next_song` does, or `None` to let the stream end.
pub fn on_about_to_finish(queue: &mut Queue) -> (r: Option<String>)
    requires
        old(queue).wf(),
    ensures
        final(queue).wf(),
        exists|item: Option<QueueItem>|
            #[trigger] resolves(old(queue)@, MAX_RESOLUTION_STEPS as nat, final(queue)@, item)
                && text_of(r) == path_of(item),
        final(queue).notices() == old(queue).notices().notified(),
{
    let next = queue.next_song();
    let path = match &next {
        Some(item) => match item.get_path() {
            Some(p) => Some(p.to_owned()),
            None => None,
        },
        None => None,
    };
    assert(resolves(old(queue)@, MAX_RESOLUTION_STEPS as nat, queue@, next));
    path
}

/// Whether discovery of a media file shows a plain audio file: no video
/// stream and exactly one audio stream.
pub fn is_audio_only(video_streams: usize, audio_streams: usize) -> (r: bool)
    ensures
        r == (video_streams == 0 && audio_streams == 1),
{
    video_streams == 0 && audio_streams == 1
}

} // verus!
