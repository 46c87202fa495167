//! Camera source bookkeeping: how a video source is named, and the
//! reconnection policy of a source that dropped its stream.

use vstd::prelude::*;
use crate::text::chars_of;

verus! {

/// Reconnection attempts a video source makes before giving up.
pub const MAX_RECONNECT_ATTEMPTS: u32 = 10;

/// Connection state of a video source: whether it is connected, and how
/// many reconnection attempts have been made since it was last connected.
pub struct ReconnectState {
    pub connected: bool,
    pub attempts: u32,
    pub max_attempts: u32,
}

impl ReconnectState {
    /// A freshly opened source: connected, no attempts made.
    pub fn new() -> (s: Self)
        ensures
            s.connected,
            s.attempts == 0,
            s.max_attempts == MAX_RECONNECT_ATTEMPTS,
    {
        ReconnectState { connected: true, attempts: 0, max_attempts: MAX_RECONNECT_ATTEMPTS }
    }

    /// Decides whether another reconnection attempt may be made. When it
    /// may, the attempt is counted and the caller opens the stream again;
    /// once the limit is reached, no attempt is made and nothing changes.
    pub fn begin_attempt(&mut self) -> (go: bool)
        ensures
            go == (old(self).attempts < old(self).max_attempts),
            go ==> final(self).attempts == old(self).attempts + 1,
            !go ==> final(self).attempts == old(self).attempts,
            final(self).connected == old(self).connected,
            final(self).max_attempts == old(self).max_attempts,
    {
        if self.attempts >= self.max_attempts {
            return false;
        }
        self.attempts = self.attempts + 1;
        true
    }

    /// Records the outcome of an attempt: reopening the stream reconnects
    /// the source and resets the attempt count; a failure leaves it
    /// disconnected. Returns whether the source is connected.
    pub fn finish_attempt(&mut self, opened: bool) -> (ok: bool)
        ensures
            ok == opened,
            final(self).connected == opened,
            final(self).attempts == (if opened { 0 } else { old(self).attempts }),
            final(self).max_attempts == old(self).max_attempts,
    {
        if opened {
            self.connected = true;
            self.attempts = 0;
            true
        } else {
            self.connected = false;
            false
        }
    }
}

/// The file name component of a path, as `std::path::Path::file_name`
/// determines it (`None` when the path ends in `..` or is a root).
pub uninterp spec fn path_file_name(path: Seq<char>) -> Option<Seq<char>>;

/// Calls `Path::file_name` on `url`, converting the component to a
/// `String`. The contract names the result; it depends on the path alone.
#[verifier::external_body]
pub(crate) fn file_name_of(url: &str) -> (r: Option<String>)
    ensures
        match r {
            Some(s) => path_file_name(url@) == Some(s@),
            None => path_file_name(url@) is None,
        },
{
    match std::path::Path::new(url).file_name() {
        Some(f) => Some(f.to_string_lossy().into_owned()),
        None => None,
    }
}

/// The display name of a video source: `RTSP <id>` for an RTSP stream,
/// otherwise the file name of the URL, or the URL itself when it has none.
pub open spec fn source_display_name(id: Seq<char>, url: Seq<char>) -> Seq<char> {
    if url.len() >= 7 && url.subrange(0, 7) == "rtsp://"@ {
        "RTSP "@ + id
    } else {
        match path_file_name(url) {
            Some(f) => f,
            None => url,
        }
    }
}

/// Whether `url` starts with `rtsp://`.
fn is_rtsp(url: &str) -> (b: bool)
    ensures
        b == (url@.len() >= 7 && url@.subrange(0, 7) == "rtsp://"@),
{
    let chars = chars_of(url);
    let prefix = chars_of("rtsp://");
    proof {
        reveal_strlit("rtsp://");
    }
    if chars.len() < 7 {
        return false;
    }
    let mut i: usize = 0;
    while i < 7
        invariant
            chars@ == url@,
            prefix@ == "rtsp://"@,
            prefix@.len() == 7,
            chars@.len() >= 7,
            i <= 7,
            forall|k: int| 0 <= k < i ==> chars@[k] == prefix@[k],
        decreases 7 - i,
    {
        if chars[i] != prefix[i] {
            assert(url@.subrange(0, 7)[i as int] != "rtsp://"@[i as int]);
            return false;
        }
        i = i + 1;
    }
    assert(url@.subrange(0, 7) =~= "rtsp://"@);
    true
}

/// The name of a non-RTSP source: the file name of its URL, when it has
/// one, otherwise the URL itself.
pub fn file_name_or_url(url: &str, file_name: Option<String>) -> (name: String)
    ensures
        name@ == (match file_name {
            Some(f) => f@,
            None => url@,
        }),
{
    match file_name {
        Some(f) => f,
        None => String::from_str(url),
    }
}

/// The display name of a video source opened from `url`.
pub fn source_name(id: &str, url: &str) -> (name: String)
    ensures
        name@ == source_display_name(id@, url@),
{
    if is_rtsp(url) {
        let mut n = String::from_str("RTSP ");
        n.append(id);
        n
    } else {
        file_name_or_url(url, file_name_of(url))
    }
}

} // verus!
