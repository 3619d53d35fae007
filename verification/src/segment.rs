//! A file that a playlist asks for.
use vstd::prelude::*;

verus! {

/// A file to download: a piece of the video, or a key.
#[derive(Debug)]
pub struct Segment {
    /// The name under which the file is saved.
    pub name: String,
    /// The absolute address.
    pub download_url: String,
}

/// A [`Segment`] with its texts as sequences of characters.
#[verifier::ext_equal]
pub struct SegmentView {
    pub name: Seq<char>,
    pub download_url: Seq<char>,
}

impl View for Segment {
    type V = SegmentView;

    open spec fn view(&self) -> SegmentView {
        SegmentView { name: self.name@, download_url: self.download_url@ }
    }
}

impl Clone for Segment {
    fn clone(&self) -> (r: Segment)
        ensures
            r@ == self@,
    {
        Segment { name: self.name.clone(), download_url: self.download_url.clone() }
    }
}

/// The segments that a vector holds.
pub open spec fn segments_view(v: Seq<Segment>) -> Seq<SegmentView> {
    v.map_values(|s: Segment| s@)
}

/// The names of files.
pub open spec fn names_of(files: Seq<SegmentView>) -> Seq<Seq<char>> {
    files.map_values(|f: SegmentView| f.name)
}

/// A copy of the segments.
pub fn clone_segments(v: &Vec<Segment>) -> (r: Vec<Segment>)
    ensures
        segments_view(r@) == segments_view(v@),
{
    let mut r: Vec<Segment> = Vec::new();
    let mut i: usize = 0;
    while i < v.len()
        invariant
            i <= v.len(),
            segments_view(r@) =~= segments_view(v@).take(i as int),
        decreases v.len() - i,
    {
        let ghost before = r@;
        let copy = v[i].clone();
        r.push(copy);
        assert(segments_view(r@) =~= segments_view(before).push(v@[i as int]@));
        i = i + 1;
    }
    r
}

} // verus!
