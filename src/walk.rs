use vstd::prelude::*;

use crate::record::Img;

verus! {

/// A file whose name starts with a dot is hidden.
pub open spec fn is_hidden(name: Seq<char>) -> bool {
    name.len() > 0 && name[0] == '.'
}

/// Position `d` holds the dot that starts the extension of a file name: the
/// last dot, where it is not the first character.
pub open spec fn ext_dot(name: Seq<char>, d: int) -> bool {
    &&& 0 < d < name.len()
    &&& name[d] == '.'
    &&& forall|j: int| d < j < name.len() ==> name[j] != '.'
}

/// The code of `c` with ASCII upper-case letters made lower-case.
pub open spec fn ascii_lower(c: char) -> int {
    if 'A' <= c && c <= 'Z' {
        c as u32 + 32
    } else {
        c as u32 as int
    }
}

/// `ext` is `word` up to the case of ASCII letters.
pub open spec fn same_ext(ext: Seq<char>, word: Seq<char>) -> bool {
    ext.len() == word.len() && forall|i: int| 0 <= i < ext.len() ==> ascii_lower(ext[i]) == word[i] as u32 as int
}

/// The extensions that mark an image file, in lower case.
pub open spec fn image_extensions() -> Seq<Seq<char>> {
    seq![
        seq!['p', 'n', 'g'],
        seq!['j', 'p', 'g'],
        seq!['j', 'p', 'e', 'g'],
        seq!['w', 'e', 'b', 'p'],
        seq!['g', 'i', 'f'],
        seq!['t', 'i', 'f'],
        seq!['t', 'i', 'f', 'f'],
        seq!['b', 'm', 'p'],
    ]
}

/// `ext` is one of the image extensions, in any case.
pub open spec fn is_image_ext(ext: Seq<char>) -> bool {
    exists|w: int| 0 <= w < image_extensions().len() && same_ext(ext, #[trigger] image_extensions()[w])
}

/// The file name has an extension, and it is an image extension.
pub open spec fn is_image_name(name: Seq<char>) -> bool {
    exists|d: int| ext_dot(name, d) && is_image_ext(#[trigger] name.subrange(d + 1, name.len() as int))
}

/// What the walk does with one entry of a directory.
#[derive(Clone, Copy, Debug, PartialEq, Eq, Structural)]
pub enum Visit {
    /// Not a regular file: walk into it.
    Descend,
    /// A hidden file: neither counted nor inspected.
    Skip,
    /// A file that is not an image: counted only.
    CountFile,
    /// An image file: its dimensions are read, then it is counted as a file and a photo.
    ProbeImage,
}

pub open spec fn visit_of(name: Seq<char>, is_file: bool) -> Visit {
    if !is_file {
        Visit::Descend
    } else if is_hidden(name) {
        Visit::Skip
    } else if is_image_name(name) {
        Visit::ProbeImage
    } else {
        Visit::CountFile
    }
}

/// What reading an image's dimensions gave.
#[derive(Clone, Copy, Debug, PartialEq, Eq, Structural)]
pub enum Probe {
    /// The header was read: the image's width and height.
    Measured { width: u32, height: u32 },
    /// The file could not be read as an image; it stands as a 0 by 0 image.
    Unreadable,
}

impl Probe {
    pub open spec fn spec_width(self) -> u32 {
        match self {
            Probe::Measured { width, .. } => width,
            Probe::Unreadable => 0,
        }
    }

    pub open spec fn spec_height(self) -> u32 {
        match self {
            Probe::Measured { height, .. } => height,
            Probe::Unreadable => 0,
        }
    }

    /// The number of pixels the probed image has.
    pub fn pixels(&self) -> (r: u64)
        ensures
            r == self.spec_width() as int * self.spec_height() as int,
    {
        match *self {
            Probe::Measured { width, height } => {
                assert(width as int * height as int <= u32::MAX as int * u32::MAX as int)
                    by (nonlinear_arith);
                width as u64 * height as u64
            },
            Probe::Unreadable => 0,
        }
    }
}

/// The file name's last dot, where it starts an extension.
fn extension_dot(name: &str) -> (r: Option<usize>)
    ensures
        match r {
            Some(d) => ext_dot(name@, d as int),
            None => forall|d: int| !ext_dot(name@, d),
        },
{
    let n = name.unicode_len();
    let mut i: usize = n;
    while i > 0
        invariant
            i <= n == name@.len(),
            forall|j: int| i <= j < n ==> name@[j] != '.',
        decreases i,
    {
        if name.get_char(i - 1) == '.' {
            if i - 1 > 0 {
                return Some(i - 1);
            } else {
                return None;
            }
        }
        i -= 1;
    }
    None
}

/// The characters of `name` from `start` on are `word`, up to the case of ASCII letters.
fn ext_equals(name: &str, start: usize, word: &Vec<char>) -> (r: bool)
    requires
        start <= name@.len(),
    ensures
        r == same_ext(name@.subrange(start as int, name@.len() as int), word@),
{
    let n = name.unicode_len();
    if n - start != word.len() {
        return false;
    }
    let ghost ext = name@.subrange(start as int, n as int);
    let mut i: usize = 0;
    while i < word.len()
        invariant
            n == name@.len(),
            start <= n,
            n - start == word@.len(),
            ext == name@.subrange(start as int, n as int),
            ext.len() == word@.len(),
            i <= word.len(),
            forall|j: int| 0 <= j < i ==> ascii_lower(ext[j]) == word@[j] as u32 as int,
        decreases word.len() - i,
    {
        let c = name.get_char(start + i);
        let lower: u32 = if 'A' <= c && c <= 'Z' {
            c as u32 + 32
        } else {
            c as u32
        };
        if lower != word[i] as u32 {
            assert(ascii_lower(ext[i as int]) != word@[i as int] as u32 as int);
            return false;
        }
        i += 1;
    }
    true
}

/// The image extensions, as they are matched at run time.
fn extension_words() -> (r: Vec<Vec<char>>)
    ensures
        r@.len() == image_extensions().len(),
        forall|w: int| 0 <= w < r@.len() ==> (#[trigger] r@[w])@ == image_extensions()[w],
{
    let r = vec![
        vec!['p', 'n', 'g'],
        vec!['j', 'p', 'g'],
        vec!['j', 'p', 'e', 'g'],
        vec!['w', 'e', 'b', 'p'],
        vec!['g', 'i', 'f'],
        vec!['t', 'i', 'f'],
        vec!['t', 'i', 'f', 'f'],
        vec!['b', 'm', 'p'],
    ];
    assert(r@[0]@ == image_extensions()[0]);
    assert(r@[1]@ == image_extensions()[1]);
    assert(r@[2]@ == image_extensions()[2]);
    assert(r@[3]@ == image_extensions()[3]);
    assert(r@[4]@ == image_extensions()[4]);
    assert(r@[5]@ == image_extensions()[5]);
    assert(r@[6]@ == image_extensions()[6]);
    assert(r@[7]@ == image_extensions()[7]);
    r
}

/// The file name ends in an image extension, in any case.
pub fn has_image_extension(name: &str) -> (r: bool)
    ensures
        r == is_image_name(name@),
{
    match extension_dot(name) {
        None => false,
        Some(d) => {
            let n = name.unicode_len();
            let words = extension_words();
            let ghost ext = name@.subrange(d + 1, name@.len() as int);
            let mut w: usize = 0;
            while w < words.len()
                invariant
                    d < n == name@.len(),
                    ext_dot(name@, d as int),
                    ext == name@.subrange(d + 1, name@.len() as int),
                    w <= words@.len() == image_extensions().len(),
                    forall|v: int| 0 <= v < words@.len() ==> (#[trigger] words@[v])@ == image_extensions()[v],
                    forall|v: int| 0 <= v < w ==> !same_ext(ext, #[trigger] image_extensions()[v]),
                decreases words.len() - w,
            {
                if ext_equals(name, d + 1, &words[w]) {
                    assert(ext_dot(name@, d as int));
                    assert(same_ext(ext, image_extensions()[w as int]));
                    return true;
                }
                w += 1;
            }
            assert forall|d2: int| ext_dot(name@, d2) implies !is_image_ext(
                #[trigger] name@.subrange(d2 + 1, name@.len() as int),
            ) by {
                assert(d2 == d as int);
            }
            false
        },
    }
}

/// Decides what the walk does with a directory entry, from its file name and
/// whether it is a regular file.
pub fn classify_entry(name: &str, is_file: bool) -> (v: Visit)
    ensures
        v == visit_of(name@, is_file),
{
    if !is_file {
        Visit::Descend
    } else if name.unicode_len() > 0 && name.get_char(0) == '.' {
        Visit::Skip
    } else if has_image_extension(name) {
        Visit::ProbeImage
    } else {
        Visit::CountFile
    }
}

/// The record of one image file found at `path`, whatever its probe gave: a
/// file that could not be read stands as a 0 by 0 image.
pub fn image_record(path: String, probe: Probe) -> (r: Img)
    ensures
        r.name@ == path@,
        r.width == probe.spec_width(),
        r.length == probe.spec_height(),
        r.wf(),
{
    let total_pixels = probe.pixels();
    match probe {
        Probe::Measured { width, height } => Img { width, length: height, total_pixels, name: path },
        Probe::Unreadable => Img { width: 0, length: 0, total_pixels, name: path },
    }
}

} // verus!
