use vstd::prelude::*;

use crate::aggregate::{analyse, summarises};
use crate::record::{Img, ImgTotals};
use crate::walk::{image_record, is_hidden, is_image_name, visit_of, Probe, Visit};

verus! {

broadcast use vstd::seq_lib::group_to_multiset_ensures;

/// The sum of width times height over a collection.
pub open spec fn pixel_sum(s: Seq<Img>) -> int
    decreases s.len(),
{
    if s.len() == 0 {
        0
    } else {
        pixel_sum(s.drop_last()) + s.last().width as int * s.last().length as int
    }
}

/// How many of the file names are names of image files.
pub open spec fn image_count(names: Seq<Seq<char>>) -> int
    decreases names.len(),
{
    if names.len() == 0 {
        0
    } else {
        image_count(names.drop_last()) + if is_image_name(names.last()) {
            1int
        } else {
            0int
        }
    }
}

/// The state of a walk over a directory tree: the records of the images met
/// so far and the totals over them.
pub struct Scan {
    pub images: Vec<Img>,
    pub totals: ImgTotals,
    /// The names of the files counted so far, in the order they were met.
    pub files: Ghost<Seq<Seq<char>>>,
}

impl Scan {
    /// The totals agree with the records and with the files counted.
    pub open spec fn wf(&self) -> bool {
        &&& forall|i: int| 0 <= i < self.images@.len() ==> (#[trigger] self.images@[i]).wf()
        &&& self.totals.total_pixels == pixel_sum(self.images@)
        &&& self.totals.photocount == self.images@.len()
        &&& self.totals.filecount == self.files@.len()
        &&& image_count(self.files@) == self.images@.len()
        &&& forall|i: int| 0 <= i < self.files@.len() ==> !is_hidden(#[trigger] self.files@[i])
    }

    /// A walk that has met nothing yet.
    pub fn new() -> (r: Scan)
        ensures
            r.wf(),
            r.images@.len() == 0,
            r.files@.len() == 0,
            r.totals.largest@.len() == 0,
            r.totals.smallest@.len() == 0,
            r.totals.widest@.len() == 0,
            r.totals.tallest@.len() == 0,
    {
        Scan { images: Vec::new(), totals: ImgTotals::new(), files: Ghost(Seq::empty()) }
    }

    /// Counts a file that is not an image.
    pub fn count_file(&mut self, name: &str)
        requires
            old(self).wf(),
            visit_of(name@, true) == Visit::CountFile,
            old(self).totals.filecount < u32::MAX,
        ensures
            final(self).wf(),
            final(self).files@ == old(self).files@.push(name@),
            final(self).images@ == old(self).images@,
            final(self).totals.filecount == old(self).totals.filecount + 1,
            final(self).totals.photocount == old(self).totals.photocount,
            final(self).totals.total_pixels == old(self).totals.total_pixels,
    {
        self.totals.filecount = self.totals.filecount + 1;
        self.files = Ghost(self.files@.push(name@));
        assert(self.files@.drop_last() =~= old(self).files@);
    }

    /// Records the image file `name`, found at `path`, with what its probe gave,
    /// and counts it as a file and as a photo.
    pub fn add_image(&mut self, name: &str, path: String, probe: Probe)
        requires
            old(self).wf(),
            visit_of(name@, true) == Visit::ProbeImage,
            old(self).totals.filecount < u32::MAX,
            old(self).totals.total_pixels + probe.spec_width() as int * probe.spec_height() as int
                <= u64::MAX,
        ensures
            final(self).wf(),
            final(self).files@ == old(self).files@.push(name@),
            final(self).images@.len() == old(self).images@.len() + 1,
            final(self).images@.drop_last() == old(self).images@,
            final(self).images@.last().name@ == path@,
            final(self).images@.last().width == probe.spec_width(),
            final(self).images@.last().length == probe.spec_height(),
            final(self).totals.filecount == old(self).totals.filecount + 1,
            final(self).totals.photocount == old(self).totals.photocount + 1,
            final(self).totals.total_pixels == old(self).totals.total_pixels
                + probe.spec_width() as int * probe.spec_height() as int,
    {
        proof {
            lemma_image_count_bounded(self.files@);
        }
        let img = image_record(path, probe);
        self.totals.total_pixels = self.totals.total_pixels + img.total_pixels;
        self.totals.photocount = self.totals.photocount + 1;
        self.totals.filecount = self.totals.filecount + 1;
        self.images.push(img);
        self.files = Ghost(self.files@.push(name@));
        assert(self.files@.drop_last() =~= old(self).files@);
        assert(self.images@.drop_last() =~= old(self).images@);
    }

    /// Fills in the four extrema where the walk found at least one image, and
    /// says whether it did; with no image nothing changes.
    pub fn finish(&mut self) -> (found: bool)
        requires
            old(self).wf(),
        ensures
            found == (old(self).images@.len() > 0),
            final(self).wf(),
            final(self).images@ == old(self).images@,
            final(self).files@ == old(self).files@,
            final(self).totals.filecount == old(self).totals.filecount,
            final(self).totals.photocount == old(self).totals.photocount,
            final(self).totals.total_pixels == old(self).totals.total_pixels,
            found ==> summarises(final(self).images@, final(self).totals),
            !found ==> final(self).totals == old(self).totals,
    {
        if self.images.len() == 0 {
            return false;
        }
        analyse(&self.images, &mut self.totals);
        true
    }
}

proof fn lemma_image_count_bounded(names: Seq<Seq<char>>)
    ensures
        0 <= image_count(names) <= names.len(),
    decreases names.len(),
{
    if names.len() > 0 {
        lemma_image_count_bounded(names.drop_last());
    }
}

/// What a walk has counted agrees with what it met: the pixel total is the sum
/// of width times height over the records, the photo count is the number of
/// image files among the files counted, the file count is at least the photo
/// count, and no hidden file was counted.
pub proof fn lemma_scan_totals(scan: &Scan)
    requires
        scan.wf(),
    ensures
        scan.totals.total_pixels == pixel_sum(scan.images@),
        scan.totals.photocount == image_count(scan.files@),
        scan.totals.filecount >= scan.totals.photocount,
        forall|i: int| 0 <= i < scan.files@.len() ==> !is_hidden(#[trigger] scan.files@[i]),
{
    lemma_image_count_bounded(scan.files@);
}

proof fn lemma_pixel_sum_remove(s: Seq<Img>, i: int)
    requires
        0 <= i < s.len(),
    ensures
        pixel_sum(s) == pixel_sum(s.remove(i)) + s[i].width as int * s[i].length as int,
    decreases s.len(),
{
    if i == s.len() - 1 {
        assert(s.remove(i) =~= s.drop_last());
    } else {
        lemma_pixel_sum_remove(s.drop_last(), i);
        assert(s.remove(i).drop_last() =~= s.drop_last().remove(i));
        assert(s.remove(i).last() == s.last());
    }
}

proof fn lemma_pixel_sum_permutation(s: Seq<Img>, t: Seq<Img>)
    requires
        s.to_multiset() == t.to_multiset(),
    ensures
        pixel_sum(s) == pixel_sum(t),
    decreases s.len(),
{
    if s.len() > 0 {
        let x = s.last();
        assert(s.contains(x));
        assert(s.to_multiset().count(x) > 0);
        assert(t.contains(x));
        let i = choose|i: int| 0 <= i < t.len() && t[i] == x;
        lemma_pixel_sum_remove(t, i);
        assert(s.remove(s.len() - 1) =~= s.drop_last());
        lemma_pixel_sum_permutation(s.drop_last(), t.remove(i));
    } else {
        assert(t.to_multiset().len() == 0);
        assert(t =~= s);
    }
}

/// Two finished walks that met the same files and made the same records, in
/// whatever order, hold the same totals: the same counts, the same pixel total
/// and the same four names.
pub proof fn lemma_scan_order_free(a: &Scan, b: &Scan)
    requires
        a.wf(),
        b.wf(),
        a.files@.to_multiset() == b.files@.to_multiset(),
        a.images@.to_multiset() == b.images@.to_multiset(),
        summarises(a.images@, a.totals),
        summarises(b.images@, b.totals),
    ensures
        a.totals.filecount == b.totals.filecount,
        a.totals.photocount == b.totals.photocount,
        a.totals.total_pixels == b.totals.total_pixels,
        a.totals.smallest@ == b.totals.smallest@,
        a.totals.largest@ == b.totals.largest@,
        a.totals.widest@ == b.totals.widest@,
        a.totals.tallest@ == b.totals.tallest@,
{
    assert(a.files@.len() == a.files@.to_multiset().len());
    assert(b.files@.len() == b.files@.to_multiset().len());
    assert(a.images@.len() == a.images@.to_multiset().len());
    assert(b.images@.len() == b.images@.to_multiset().len());
    lemma_pixel_sum_permutation(a.images@, b.images@);
    crate::aggregate::lemma_summary_order_free(a.images@, b.images@, a.totals, b.totals);
}

} // verus!
