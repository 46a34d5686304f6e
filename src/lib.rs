//! Photo collection statistics: which files of a directory tree are images,
//! running totals over them, and the four extreme images of a collection.
pub mod aggregate;
pub mod record;
pub mod report;
pub mod scan;
pub mod walk;

pub use aggregate::{analyse, extreme_index, Extremum};
pub use record::{Img, ImgTotals};
pub use report::{count_text, CountText};
pub use scan::Scan;
pub use walk::{classify_entry, has_image_extension, image_record, Probe, Visit};
