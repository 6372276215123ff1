//! A monitor: it follows the first track of a broadcast and prints a line for each frame.

use vstd::prelude::*;

use crate::frame::Timestamp;
use crate::messages::Catalog;
use crate::text::{
    debug_text, decimal, decimal_text, joined, pad_left, quoted, right_aligned,
};

verus! {

/// The server and the broadcast that the arguments name, or the defaults.
pub fn arguments(url: Option<String>, broadcast_name: Option<String>) -> (r: (String, String))
    ensures
        r.0@ == (match url {
            Some(url) => url@,
            None => "https://localhost:4443"@,
        }),
        r.1@ == (match broadcast_name {
            Some(name) => name@,
            None => "anon/bbb"@,
        }),
{
    let url = match url {
        Some(url) => url,
        None => "https://localhost:4443".to_owned(),
    };
    let broadcast_name = match broadcast_name {
        Some(name) => name,
        None => "anon/bbb".to_owned(),
    };
    (url, broadcast_name)
}

/// What an announcement means for the monitor.
#[derive(Clone, Copy, Debug, PartialEq, Eq, Structural)]
pub enum Announcement {
    /// The broadcast is there.
    Found,
    /// The broadcast was withdrawn.
    Withdrawn,
    /// It is another broadcast's.
    Other,
}

/// What an announcement means for the broadcast `name`.
pub fn announcement(name: &String, path: &String, active: bool) -> (r: Announcement)
    ensures
        r == (if path@ != name@ {
            Announcement::Other
        } else if active {
            Announcement::Found
        } else {
            Announcement::Withdrawn
        }),
{
    if *path == *name {
        if active {
            Announcement::Found
        } else {
            Announcement::Withdrawn
        }
    } else {
        Announcement::Other
    }
}

/// The line for an announcement.
pub fn announced_line(path: &String, active: bool) -> (r: String)
    ensures
        r@ == "announced: "@ + path@ + (" (active="@ + (if active {
            "true"@
        } else {
            "false"@
        }) + ")"@),
{
    let active = if active {
        "true"
    } else {
        "false"
    };
    joined("announced: ", path.as_str(), joined(" (active=", active, ")").as_str())
}

/// The line before the search for a broadcast.
pub fn waiting_line(name: &String) -> (r: String)
    ensures
        r@ == "connected, waiting for broadcast "@ + debug_text(name@) + "..."@,
{
    joined("connected, waiting for broadcast ", quoted(name.as_str()).as_str(), "...")
}

/// The line before the subscription to a track.
pub fn subscribing_line(track: &String) -> (r: String)
    ensures
        r@ == "subscribing to track "@ + debug_text(track@) + "..."@,
{
    joined("subscribing to track ", quoted(track.as_str()).as_str(), "...")
}

/// The line before the first frame.
pub fn streaming_line(track: &String) -> (r: String)
    ensures
        r@ == "streaming frames from "@ + debug_text(track@) + ":"@,
{
    joined("streaming frames from ", quoted(track.as_str()).as_str(), ":")
}

/// The track to follow: the first video rendition, else the first audio rendition.
pub fn first_track(catalog: &Catalog) -> (r: Result<String, String>)
    ensures
        if catalog.videos@.len() > 0 {
            r matches Ok(name) && name == catalog.videos@[0].0
        } else if catalog.audios@.len() > 0 {
            r matches Ok(name) && name == catalog.audios@[0].0
        } else {
            r matches Err(e) && e@ == "catalog has no video or audio renditions"@
        },
{
    if catalog.videos.len() > 0 {
        Ok(catalog.videos[0].0.clone())
    } else if catalog.audios.len() > 0 {
        Ok(catalog.audios[0].0.clone())
    } else {
        Err("catalog has no video or audio renditions".to_owned())
    }
}

/// The line of a frame: its number, its time in milliseconds, its size and its group.
pub open spec fn frame_text(
    number: nat,
    timestamp: Timestamp,
    size: nat,
    group: nat,
    keyframe: bool,
) -> Seq<char> {
    "  frame "@ + right_aligned(decimal_text(number), 5) + "  pts="@ + right_aligned(
        decimal_text((timestamp.micros() / 1000) as nat),
        8,
    ) + "ms  size="@ + right_aligned(decimal_text(size), 6) + " bytes  group="@ + decimal_text(
        group,
    ) + (if keyframe {
        " [keyframe]"@
    } else {
        ""@
    })
}

/// The number of frames that the monitor has seen.
pub struct Monitor {
    pub frame_count: u64,
}

impl Monitor {
    /// A monitor that has seen no frame.
    pub fn new() -> (r: Self)
        ensures
            r.frame_count == 0,
    {
        Monitor { frame_count: 0 }
    }

    /// The line of the next frame.
    pub fn frame(&mut self, timestamp: &Timestamp, size: usize, group: u64, keyframe: bool) -> (r:
        String)
        requires
            old(self).frame_count < u64::MAX,
        ensures
            r@ == frame_text(
                old(self).frame_count as nat,
                *timestamp,
                size as nat,
                group as nat,
                keyframe,
            ),
            final(self).frame_count == old(self).frame_count + 1,
    {
        let ts_ms: u128 = timestamp.as_micros() / 1000;
        let mut line = "  frame ".to_owned();
        line.append(pad_left(decimal(self.frame_count as u128).as_str(), 5).as_str());
        line.append("  pts=");
        line.append(pad_left(decimal(ts_ms).as_str(), 8).as_str());
        line.append("ms  size=");
        line.append(pad_left(decimal(size as u128).as_str(), 6).as_str());
        line.append(" bytes  group=");
        line.append(decimal(group as u128).as_str());
        line.append(
            if keyframe {
                " [keyframe]"
            } else {
                ""
            },
        );
        self.frame_count = self.frame_count + 1;
        line
    }

    /// The line after the last frame.
    pub fn ended_line(&self) -> (r: String)
        ensures
            r@ == "track ended after "@ + decimal_text(self.frame_count as nat) + " frames"@,
    {
        joined("track ended after ", decimal(self.frame_count as u128).as_str(), " frames")
    }
}

} // verus!
