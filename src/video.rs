//! Track information in a flat, tag-keyed form.
use vstd::prelude::*;

use crate::mov::MetadataError;
use crate::values::{EntryValue, ValueView};

verus! {

/// Tags of track information, named as the Exif tags are where one exists,
/// plus some unique to video, such as `Duration`.
#[derive(Clone, Copy, Debug, PartialEq, Eq, Structural, Hash)]
pub enum VideoInfoTag {
    Make,
    Model,
    CreateDate,
    ImageWidth,
    ImageHeight,
    Duration,
}

/// Track information: values keyed by tag; a later entry for a tag hides an
/// earlier one.
#[derive(Clone, Debug)]
pub struct VideoInfo {
    entries: Vec<(VideoInfoTag, EntryValue)>,
}

/// The value of the last entry with tag `t` among the first `n` entries.
pub open spec fn spec_lookup(e: Seq<(VideoInfoTag, ValueView)>, t: VideoInfoTag, n: int) -> Option<
    ValueView,
>
    decreases n,
{
    if n <= 0 || n > e.len() {
        None
    } else if e[n - 1].0 == t {
        Some(e[n - 1].1)
    } else {
        spec_lookup(e, t, n - 1)
    }
}

impl VideoInfo {
    pub closed spec fn view(&self) -> Seq<(VideoInfoTag, ValueView)> {
        self.entries@.map_values(|p: (VideoInfoTag, EntryValue)| (p.0, p.1@))
    }

    pub fn new() -> (r: VideoInfo)
        ensures
            r.view().len() == 0,
    {
        VideoInfo { entries: Vec::new() }
    }

    /// Number of entries.
    pub fn len(&self) -> (r: usize)
        ensures
            r == self.view().len(),
    {
        self.entries.len()
    }

    /// Sets the value of tag `t`.
    pub fn put(&mut self, t: VideoInfoTag, v: EntryValue)
        ensures
            final(self).view() == old(self).view().push((t, v@)),
    {
        let ghost before = self.entries@;
        self.entries.push((t, v));
        assert(self.entries@.map_values(|p: (VideoInfoTag, EntryValue)| (p.0, p.1@)) =~= before.map_values(
            |p: (VideoInfoTag, EntryValue)| (p.0, p.1@),
        ).push((t, v@)));
    }

    /// The value of tag `t`, if any.
    pub fn get(&self, t: VideoInfoTag) -> (r: Option<&EntryValue>)
        ensures
            r matches Some(v) ==> spec_lookup(self.view(), t, self.view().len() as int) == Some(
                v@,
            ),
            r is None ==> spec_lookup(self.view(), t, self.view().len() as int) is None,
    {
        let mut n = self.entries.len();
        while n > 0
            invariant
                n <= self.entries@.len(),
                spec_lookup(self.view(), t, self.view().len() as int) == spec_lookup(
                    self.view(),
                    t,
                    n as int,
                ),
            decreases n,
        {
            if self.entries[n - 1].0 == t {
                return Some(&self.entries[n - 1].1);
            }
            n = n - 1;
        }
        None
    }
}

/// Track information of the media held in `f`. No tag is filled in yet:
/// the result is always an empty [`VideoInfo`].
pub fn parse_video_info(_data: &[u8]) -> (r: Result<VideoInfo, MetadataError>)
    ensures
        r matches Ok(info) && info.view().len() == 0,
{
    Ok(VideoInfo::new())
}

} // verus!
