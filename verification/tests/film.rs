use raytracer::camera::film::{ppm_color_line, Film, FilmPixel, FilmTile, Point2};
use raytracer::film::{Film as ResolutionFilm, FilmTile as ResolutionFilmTile};

fn pixel(id: i32, contribution: u32) -> FilmPixel<u32> {
    FilmPixel { contribution, weight: 1, id }
}

#[test]
fn film_new_is_blank() {
    let film: Film<u32> = Film::new(4, 3);
    assert_eq!(film.image_width, 4);
    assert_eq!(film.image_height, 3);
    assert_eq!(film.pixels.len(), 12);
    for p in &film.pixels {
        assert_eq!(p.weight, 0);
        assert_eq!(p.id, 0);
        assert_eq!(p.contribution, 0);
    }
}

#[test]
fn film_get_index_is_row_major() {
    let film: Film<u32> = Film::new(4, 3);
    assert_eq!(film.get_index(0, 0), 0);
    assert_eq!(film.get_index(0, 3), 3);
    assert_eq!(film.get_index(1, 0), 4);
    assert_eq!(film.get_index(2, 3), 11);
}

#[test]
fn film_get_tiles_layout() {
    let film: Film<u32> = Film::new(10, 7);
    let tiles = film.get_tiles(3, 2);
    assert_eq!(tiles.len(), 6);
    // Row 0 uses the standard height 7 / 2 = 3; the last row uses 7 % 2 = 1.
    // Columns 0 and 1 use 10 / 3 = 3; the last column uses 10 % 3 = 1.
    let expected = [
        ((0, 0), (3, 3)),
        ((0, 3), (3, 6)),
        ((0, 2), (3, 3)),
        ((1, 0), (2, 3)),
        ((1, 3), (2, 6)),
        ((1, 2), (2, 3)),
    ];
    for (tile, (bl, tr)) in tiles.iter().zip(expected.iter()) {
        assert_eq!(tile.bottom_left, Point2::new(bl.0, bl.1));
        assert_eq!(tile.top_right, Point2::new(tr.0, tr.1));
        assert_eq!(tile.samples, 0);
        assert_eq!(tile.id, 0);
        assert_eq!(tile.pixels.len(), (tr.0 - bl.0) * (tr.1 - bl.1));
    }
}

#[test]
fn film_merge_newer_tile_writes_its_pixels() {
    let mut film: Film<u32> = Film::new(4, 3);
    let mut tile: FilmTile<u32> = FilmTile::new(Point2::new(1, 1), Point2::new(3, 3), 0, 5);
    for (i, p) in tile.pixels.iter_mut().enumerate() {
        *p = pixel(5, 100 + i as u32);
    }
    film.merge_tile(&tile);
    for row in 0..3 {
        for column in 0..4 {
            let value = film.pixels[row * 4 + column].contribution;
            if (1..3).contains(&row) && (1..3).contains(&column) {
                let offset = (row - 1) * 2 + (column - 1);
                assert_eq!(value, 100 + offset as u32);
                assert_eq!(film.pixels[row * 4 + column].id, 5);
            } else {
                assert_eq!(value, 0);
            }
        }
    }
}

#[test]
fn film_merge_stale_tile_changes_nothing() {
    let mut film: Film<u32> = Film::new(2, 2);
    film.pixels[0] = pixel(7, 1);
    let mut tile: FilmTile<u32> = FilmTile::new(Point2::new(0, 0), Point2::new(2, 2), 0, 7);
    for p in tile.pixels.iter_mut() {
        *p = pixel(7, 9);
    }
    film.merge_tile(&tile);
    assert_eq!(film.pixels[0].contribution, 1);
    assert_eq!(film.pixels[1].contribution, 0);
    assert_eq!(film.pixels[3].contribution, 0);
}

#[test]
fn film_output_rgba_appends_opaque_alpha() {
    let mut film: Film<u32> = Film::new(2, 1);
    film.pixels[0] = pixel(0, 10);
    film.pixels[1] = pixel(0, 20);
    let bytes = film.output_rgba(|p: &FilmPixel<u32>| {
        let c = p.contribution as u8;
        [c, c + 1, c + 2]
    });
    assert_eq!(bytes, vec![10, 11, 12, 255, 20, 21, 22, 255]);
}

#[test]
fn film_tile_new_and_clear() {
    let mut tile: FilmTile<u32> = FilmTile::new(Point2::new(2, 1), Point2::new(5, 3), 4, 9);
    assert_eq!(tile.pixels.len(), 6);
    assert_eq!(tile.samples, 4);
    assert_eq!(tile.id, 9);
    tile.pixels[2] = pixel(9, 3);
    tile.clear();
    assert_eq!(tile.samples, 0);
    assert_eq!(tile.id, 9);
    assert_eq!(tile.pixels.len(), 6);
    assert!(tile.pixels.iter().all(|p| p.weight == 0 && p.id == 0 && p.contribution == 0));
}

#[test]
fn resolution_film_matches_width_height_film() {
    let film: ResolutionFilm<u32> = ResolutionFilm::new((4, 3));
    assert_eq!(film.resoloution, (4, 3));
    assert_eq!(film.pixels.len(), 12);
    assert_eq!(film.get_index(2, 1), 9);
    let tiles = film.get_tiles(2, 2);
    assert_eq!(tiles.len(), 4);
    assert_eq!(tiles[0].bottom_left, (0, 0));
    assert_eq!(tiles[0].top_right, (1, 2));
    assert_eq!(tiles[3].bottom_left, (1, 0));
    assert_eq!(tiles[3].top_right, (2, 0));
}

#[test]
fn resolution_film_merge_tile() {
    let mut film: ResolutionFilm<u32> = ResolutionFilm::new((3, 2));
    let mut tile: ResolutionFilmTile<u32> = ResolutionFilmTile::new((1, 0), (2, 3), 0, 1);
    for (i, p) in tile.pixels.iter_mut().enumerate() {
        *p = pixel(1, 50 + i as u32);
    }
    film.merge_tile(&tile);
    let contributions: Vec<u32> = film.pixels.iter().map(|p| p.contribution).collect();
    assert_eq!(contributions, vec![0, 0, 0, 50, 51, 52]);
}

#[test]
fn ppm_header_names_size_and_depth() {
    let film: Film<u32> = Film::new(640, 48);
    assert_eq!(film.ppm_header(), "P3\n640 48 \n255\n");
    let empty: Film<u32> = Film::new(0, 7);
    assert_eq!(empty.ppm_header(), format!("P3\n{} {} \n255\n", 0, 7));
}

#[test]
fn ppm_color_line_matches_plain_format() {
    assert_eq!(ppm_color_line([0, 9, 255]), "0 9 255\n");
    for (r, g, b) in [(1u8, 10u8, 100u8), (255, 0, 37), (99, 199, 200)] {
        assert_eq!(ppm_color_line([r, g, b]), format!("{} {} {}\n", r, g, b));
    }
}

#[test]
fn film_tile_clear_resets_every_colour() {
    let mut tile: FilmTile<u32> = FilmTile::new(Point2::new(0, 0), Point2::new(2, 2), 0, 1);
    for (k, p) in tile.pixels.iter_mut().enumerate() {
        *p = pixel(5, 10 + k as u32);
    }
    tile.samples = 12;
    tile.clear();
    assert_eq!(tile.samples, 0);
    assert!(tile.pixels.iter().all(|p| p.contribution == 0 && p.weight == 0 && p.id == 0));
    let resolution_tile: ResolutionFilmTile<u32> = ResolutionFilmTile::new((0, 0), (1, 3), 0, 0);
    assert!(resolution_tile.pixels.iter().all(|p| p.contribution == 0));
}
