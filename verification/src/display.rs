//! How a track is shown in listings: a marker for where it plays from, and
//! green for local files when the terminal takes colour.

use vstd::prelude::*;
use crate::text::{concat3, concat4};

verus! {

/// The escape that turns the text green.
pub const GREEN: &'static str = "\x1b[32m";

/// The escape that turns colours off again.
pub const RESET: &'static str = "\x1b[0m";

/// The marker of a track played from the local cache.
pub open spec fn local_marker_text() -> Seq<char> {
    "[↓]"@
}

/// The marker of a track streamed from the network.
pub open spec fn stream_marker_text() -> Seq<char> {
    "[~]"@
}

/// The marker of a track played from the local cache.
pub fn local_marker() -> (r: &'static str)
    ensures
        r@ == local_marker_text(),
{
    "[↓]"
}

/// The marker of a track streamed from the network.
pub fn stream_marker() -> (r: &'static str)
    ensures
        r@ == stream_marker_text(),
{
    "[~]"
}

/// `marker title — uploader`, wrapped in green when the track is local and
/// colour is on.
pub open spec fn title_uploader_text(title: Seq<char>, uploader: Seq<char>, is_local: bool, color: bool) -> Seq<char> {
    let marker = if is_local { local_marker_text() } else { stream_marker_text() };
    let body = marker + " "@ + title + " — "@ + uploader;
    if is_local && color {
        GREEN@ + body + RESET@
    } else {
        body
    }
}

/// Formats a track as `marker title — uploader`. `color` says whether the
/// terminal takes colour (neither switched off by flag nor by `NO_COLOR`);
/// only local tracks are coloured.
pub fn format_title_uploader(title: &str, uploader: &str, is_local: bool, color: bool) -> (r: String)
    ensures
        r@ == title_uploader_text(title@, uploader@, is_local, color),
{
    let marker = if is_local { local_marker() } else { stream_marker() };
    let head = concat3(marker, " ", title);
    let body = concat3(head.as_str(), " — ", uploader);
    if is_local && color {
        concat3(GREEN, body.as_str(), RESET)
    } else {
        body
    }
}

/// The escape character, which no uncoloured line holds.
pub open spec fn escape_free(s: Seq<char>) -> bool {
    forall|i: int| 0 <= i < s.len() ==> s[i] != '\x1b'
}

/// With colour off, a line holds no escape character when its title and
/// uploader hold none.
pub proof fn law_no_color_means_no_escape(title: Seq<char>, uploader: Seq<char>, is_local: bool)
    requires
        escape_free(title),
        escape_free(uploader),
    ensures
        escape_free(title_uploader_text(title, uploader, is_local, false)),
{
    reveal_strlit("[↓]");
    reveal_strlit("[~]");
    reveal_strlit(" ");
    reveal_strlit(" — ");
    let marker = if is_local { local_marker_text() } else { stream_marker_text() };
    let body = marker + " "@ + title + " — "@ + uploader;
    assert forall|i: int| 0 <= i < body.len() implies body[i] != '\x1b' by {
        if i < marker.len() {
        } else if i < marker.len() + 1 {
        } else if i < marker.len() + 1 + title.len() {
            assert(body[i] == title[i - marker.len() - 1]);
        } else if i < marker.len() + 1 + title.len() + 3 {
        } else {
            assert(body[i] == uploader[i - marker.len() - 1 - title.len() - 3]);
        }
    }
}

} // verus!
