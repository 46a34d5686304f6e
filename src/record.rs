use vstd::prelude::*;

verus! {

/// One inspected image: its dimensions, its pixel count and the path it was found at.
#[derive(Debug)]
pub struct Img {
    pub width: u32,
    pub length: u32,
    pub total_pixels: u64,
    pub name: String,
}

impl Img {
    /// The pixel count is the product of the two dimensions.
    pub open spec fn wf(&self) -> bool {
        self.total_pixels as int == self.width as int * self.length as int
    }
}

/// Counts and extrema gathered over one scan of a directory tree.
#[derive(Debug)]
pub struct ImgTotals {
    pub total_pixels: u64,
    pub filecount: u32,
    pub photocount: u32,
    pub largest: String,
    pub smallest: String,
    pub widest: String,
    pub tallest: String,
}

impl ImgTotals {
    /// All counters zero and all names empty.
    pub fn new() -> (r: ImgTotals)
        ensures
            r.total_pixels == 0,
            r.filecount == 0,
            r.photocount == 0,
            r.largest@ == Seq::<char>::empty(),
            r.smallest@ == Seq::<char>::empty(),
            r.widest@ == Seq::<char>::empty(),
            r.tallest@ == Seq::<char>::empty(),
    {
        ImgTotals {
            total_pixels: 0,
            filecount: 0,
            photocount: 0,
            largest: String::new(),
            smallest: String::new(),
            widest: String::new(),
            tallest: String::new(),
        }
    }
}

} // verus!
