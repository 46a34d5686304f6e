use photostats::{
    analyse, classify_entry, count_text, extreme_index, has_image_extension, image_record,
    Extremum, Img, ImgTotals, Probe, Scan, Visit,
};

fn img(width: u32, length: u32, name: &str) -> Img {
    Img {
        width,
        length,
        total_pixels: width as u64 * length as u64,
        name: name.to_string(),
    }
}

#[test]
fn tie_on_pixels_largest_takes_earlier_name() {
    let images = vec![img(300, 400, "b_large.jpg"), img(400, 300, "a_large.jpg")];
    let mut totals = ImgTotals::new();
    analyse(&images, &mut totals);
    assert_eq!(totals.largest, "a_large.jpg");
}

#[test]
fn tie_on_pixels_smallest_takes_later_name() {
    let images = vec![img(300, 400, "b_large.jpg"), img(400, 300, "a_large.jpg")];
    let mut totals = ImgTotals::new();
    analyse(&images, &mut totals);
    assert_eq!(totals.smallest, "b_large.jpg");
    assert_eq!(totals.largest, "a_large.jpg");
}

#[test]
fn unique_widest_wins_over_name_order() {
    let images = vec![
        img(100, 200, "zzz.jpg"),
        img(500, 100, "widest.jpg"),
        img(300, 400, "aaa.jpg"),
        img(300, 600, "yyy.jpg"),
    ];
    let mut totals = ImgTotals::new();
    analyse(&images, &mut totals);
    assert_eq!(totals.widest, "widest.jpg");
    assert_eq!(totals.tallest, "yyy.jpg");
}

#[test]
fn tie_on_width_and_height_takes_later_name() {
    let images = vec![img(500, 700, "b.jpg"), img(500, 700, "c.jpg"), img(500, 700, "a.jpg")];
    let mut totals = ImgTotals::new();
    analyse(&images, &mut totals);
    assert_eq!(totals.widest, "c.jpg");
    assert_eq!(totals.tallest, "c.jpg");
    assert_eq!(totals.smallest, "c.jpg");
    assert_eq!(totals.largest, "a.jpg");
}

#[test]
fn name_order_is_byte_order() {
    // Upper case sorts before lower case, and a prefix before its extensions.
    let images = vec![img(10, 10, "b.jpg"), img(10, 10, "B.jpg"), img(10, 10, "b.jpgx")];
    assert_eq!(extreme_index(&images, Extremum::Largest), 1);
    assert_eq!(extreme_index(&images, Extremum::Smallest), 2);
}

#[test]
fn analyse_keeps_counters() {
    let images = vec![img(2, 3, "one.png")];
    let mut totals = ImgTotals::new();
    totals.filecount = 4;
    totals.photocount = 1;
    totals.total_pixels = 6;
    analyse(&images, &mut totals);
    assert_eq!(totals.filecount, 4);
    assert_eq!(totals.photocount, 1);
    assert_eq!(totals.total_pixels, 6);
    assert_eq!(totals.smallest, "one.png");
    assert_eq!(totals.largest, "one.png");
    assert_eq!(totals.widest, "one.png");
    assert_eq!(totals.tallest, "one.png");
}

#[test]
fn uppercase_extension_is_an_image() {
    assert_eq!(classify_entry("IMG.JPG", true), Visit::ProbeImage);
    assert_eq!(classify_entry("photo.TiFf", true), Visit::ProbeImage);
}

#[test]
fn hidden_image_is_skipped() {
    assert_eq!(classify_entry(".photo.png", true), Visit::Skip);
    assert_eq!(classify_entry(".hidden", true), Visit::Skip);
}

#[test]
fn directories_are_descended() {
    assert_eq!(classify_entry("holiday.jpg", false), Visit::Descend);
    assert_eq!(classify_entry(".git", false), Visit::Descend);
}

#[test]
fn other_files_are_only_counted() {
    assert_eq!(classify_entry("notes.txt", true), Visit::CountFile);
    assert_eq!(classify_entry("jpg", true), Visit::CountFile);
    assert_eq!(classify_entry("picture.pngx", true), Visit::CountFile);
    assert_eq!(classify_entry("picture.", true), Visit::CountFile);
    assert_eq!(classify_entry("picture.jpg.txt", true), Visit::CountFile);
}

#[test]
fn every_image_extension_is_accepted() {
    for name in [
        "a.png", "a.jpg", "a.jpeg", "a.webp", "a.gif", "a.tif", "a.tiff", "a.bmp", "a.b.PNG",
    ] {
        assert!(has_image_extension(name), "{}", name);
    }
    assert!(!has_image_extension("a.jp"));
    assert!(!has_image_extension("a.heic"));
    assert!(!has_image_extension("png"));
}

#[test]
fn probe_failure_gives_empty_record() {
    let r = image_record("nonexistent.png".to_string(), Probe::Unreadable);
    assert_eq!(r.width, 0);
    assert_eq!(r.length, 0);
    assert_eq!(r.total_pixels, 0);
    assert_eq!(r.name, "nonexistent.png");
}

#[test]
fn probe_success_gives_dimensions() {
    let r = image_record("dir/a.png".to_string(), Probe::Measured { width: 100, height: 200 });
    assert_eq!(r.width, 100);
    assert_eq!(r.length, 200);
    assert_eq!(r.total_pixels, 20000);
    assert_eq!(r.name, "dir/a.png");
}

#[test]
fn probe_pixels_do_not_overflow() {
    let p = Probe::Measured { width: u32::MAX, height: u32::MAX };
    assert_eq!(p.pixels(), u32::MAX as u64 * u32::MAX as u64);
    assert_eq!(Probe::Unreadable.pixels(), 0);
}

#[test]
fn scan_counts_files_photos_and_pixels() {
    let mut scan = Scan::new();
    scan.add_image("a.png", "t/a.png".to_string(), Probe::Measured { width: 100, height: 200 });
    scan.count_file("readme.txt");
    scan.add_image("b.JPG", "t/b.JPG".to_string(), Probe::Unreadable);
    scan.add_image("c.gif", "t/s/c.gif".to_string(), Probe::Measured { width: 30, height: 40 });
    assert_eq!(scan.totals.filecount, 4);
    assert_eq!(scan.totals.photocount, 3);
    assert_eq!(scan.totals.total_pixels, 20000 + 1200);
    assert_eq!(scan.images.len(), 3);
    assert_eq!(scan.images[1].name, "t/b.JPG");
    assert_eq!(scan.images[1].total_pixels, 0);
    assert!(scan.finish());
    assert_eq!(scan.totals.largest, "t/a.png");
    assert_eq!(scan.totals.smallest, "t/b.JPG");
    assert_eq!(scan.totals.widest, "t/a.png");
    assert_eq!(scan.totals.tallest, "t/a.png");
    assert_eq!(scan.totals.filecount, 4);
}

#[test]
fn scan_without_images_is_not_summarised() {
    let mut scan = Scan::new();
    assert!(!scan.finish());
    scan.count_file("notes.txt");
    assert!(!scan.finish());
    assert_eq!(scan.totals.filecount, 1);
    assert_eq!(scan.totals.photocount, 0);
    assert_eq!(scan.totals.total_pixels, 0);
    assert_eq!(scan.totals.largest, "");
    assert_eq!(scan.totals.smallest, "");
    assert_eq!(scan.totals.widest, "");
    assert_eq!(scan.totals.tallest, "");
}

#[test]
fn scan_result_does_not_depend_on_order() {
    let mut one = Scan::new();
    one.add_image("a.png", "a.png".to_string(), Probe::Measured { width: 3, height: 4 });
    one.count_file("x.txt");
    one.add_image("b.png", "b.png".to_string(), Probe::Measured { width: 4, height: 3 });
    one.finish();
    let mut two = Scan::new();
    two.add_image("b.png", "b.png".to_string(), Probe::Measured { width: 4, height: 3 });
    two.add_image("a.png", "a.png".to_string(), Probe::Measured { width: 3, height: 4 });
    two.count_file("x.txt");
    two.finish();
    assert_eq!(one.totals.filecount, two.totals.filecount);
    assert_eq!(one.totals.photocount, two.totals.photocount);
    assert_eq!(one.totals.total_pixels, two.totals.total_pixels);
    assert_eq!(one.totals.largest, two.totals.largest);
    assert_eq!(one.totals.smallest, two.totals.smallest);
    assert_eq!(one.totals.widest, two.totals.widest);
    assert_eq!(one.totals.tallest, two.totals.tallest);
    assert_eq!(one.totals.largest, "a.png");
    assert_eq!(one.totals.smallest, "b.png");
}

#[test]
fn counts_are_written_with_commas() {
    let mut totals = ImgTotals::new();
    totals.filecount = 999;
    totals.photocount = 1000;
    totals.total_pixels = 1234567;
    let t = count_text(&totals);
    assert_eq!(t.files, "999");
    assert_eq!(t.photos, "1,000");
    assert_eq!(t.pixels, "1,234,567");
    totals.total_pixels = 0;
    assert_eq!(count_text(&totals).pixels, "0");
    totals.total_pixels = u64::MAX;
    assert_eq!(count_text(&totals).pixels, "18,446,744,073,709,551,615");
}
