use hifi_core::art::{
    art_from_jpeg, art_of_picture, centre_square_of, half_blocks, render_art, HalfBlock, RgbPixels,
    ART_CELLS,
};

fn picture(width: u32, height: u32, f: impl Fn(u32, u32) -> (u8, u8, u8)) -> RgbPixels {
    let mut bytes = Vec::new();
    for y in 0..height {
        for x in 0..width {
            let (r, g, b) = f(x, y);
            bytes.extend_from_slice(&[r, g, b]);
        }
    }
    RgbPixels { width, height, bytes }
}

#[test]
fn centre_square() {
    assert_eq!(centre_square_of(100, 60), (20, 0, 60));
    assert_eq!(centre_square_of(60, 100), (0, 20, 60));
    assert_eq!(centre_square_of(7, 4), (1, 0, 4));
    assert_eq!(centre_square_of(0, 5), (0, 2, 0));
}

#[test]
fn half_blocks_pair_rows() {
    let p = picture(2, 3, |x, y| (x as u8, y as u8, 7));
    let rows = half_blocks(&p);
    assert_eq!(rows.len(), 2);
    assert_eq!(rows[0], vec![
        HalfBlock { top: (0, 0, 7), bottom: (0, 1, 7) },
        HalfBlock { top: (1, 0, 7), bottom: (1, 1, 7) },
    ]);
    assert_eq!(rows[1], vec![
        HalfBlock { top: (0, 2, 7), bottom: (0, 2, 7) },
        HalfBlock { top: (1, 2, 7), bottom: (1, 2, 7) },
    ]);
}

#[test]
fn art_of_a_picture_already_square_and_of_size() {
    let side = 2 * ART_CELLS;
    let p = picture(side, side + 6, |x, y| (x as u8, y as u8, (x + y) as u8));
    let rows = render_art(&p, ART_CELLS);
    assert_eq!(rows.len(), ART_CELLS as usize);
    for (r, row) in rows.iter().enumerate() {
        assert_eq!(row.len(), side as usize);
        for (x, cell) in row.iter().enumerate() {
            let y = 3 + 2 * r as u32;
            let x = x as u32;
            assert_eq!(cell.top, (x as u8, y as u8, (x + y) as u8));
            assert_eq!(cell.bottom, (x as u8, (y + 1) as u8, (x + y + 1) as u8));
        }
    }
}

#[test]
fn art_has_the_asked_size() {
    let p = picture(300, 200, |x, y| ((x % 256) as u8, (y % 256) as u8, 0));
    let rows = render_art(&p, 5);
    assert_eq!(rows.len(), 5);
    assert!(rows.iter().all(|r| r.len() == 10));
}

#[test]
fn art_of_no_cells_has_no_rows() {
    let p = picture(3, 2, |x, y| (x as u8, y as u8, 0));
    assert!(render_art(&p, 0).is_empty());
}

fn jpeg_of(p: &RgbPixels) -> Vec<u8> {
    let img = image::RgbImage::from_raw(p.width, p.height, p.bytes.clone()).unwrap();
    let mut out = std::io::Cursor::new(Vec::new());
    img.write_to(&mut out, image::ImageFormat::Jpeg).unwrap();
    out.into_inner()
}

#[test]
fn art_from_jpeg_bytes() {
    let p = picture(60, 40, |_, _| (200, 100, 50));
    let rows = art_from_jpeg(&jpeg_of(&p), 4).unwrap();
    assert_eq!(rows.len(), 4);
    assert!(rows.iter().all(|r| r.len() == 8));
    assert_eq!(art_from_jpeg(&jpeg_of(&p), 0), Some(vec![]));
    assert_eq!(art_from_jpeg(b"not a picture", 4), None);
    assert_eq!(art_from_jpeg(&[], 4), None);
}

#[test]
fn art_of_picture_checks_the_picture() {
    let p = picture(4, 4, |x, y| (x as u8, y as u8, 0));
    assert_eq!(art_of_picture(None, 2), None);
    let broken = RgbPixels { width: 4, height: 4, bytes: vec![0; 5] };
    assert_eq!(art_of_picture(Some(broken), 2), None);
    assert_eq!(art_of_picture(Some(p.clone()), 2), Some(render_art(&p, 2)));
    assert_eq!(art_of_picture(Some(p), u32::MAX / 2), None);
}
