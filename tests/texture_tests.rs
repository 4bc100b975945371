use diorama::pixel::Rgba8;
use diorama::texture::{fallback_color, scene_texture_name, Texture, TextureManager, SCENE_TEXTURE_COUNT};

fn gradient_bytes(w: u32, h: u32) -> Vec<u8> {
    let mut bytes = Vec::new();
    for y in 0..h {
        for x in 0..w {
            bytes.extend_from_slice(&[x as u8 * 10, y as u8 * 20, 7, 255]);
        }
    }
    bytes
}

fn gradient(w: u32, h: u32) -> Texture {
    Texture::from_rgba8(w, h, &gradient_bytes(w, h)).unwrap()
}

#[test]
fn from_rgba8_copies_rows_in_order() {
    let t = gradient(3, 2);
    assert_eq!((t.width, t.height), (3, 2));
    assert_eq!(t.pixels.len(), 6);
    assert_eq!(t.pixels[0], Rgba8::new(0, 0, 7, 255));
    assert_eq!(t.pixels[2], Rgba8::new(20, 0, 7, 255));
    assert_eq!(t.pixels[4], Rgba8::new(10, 20, 7, 255));
}

#[test]
fn from_rgba8_of_decoded_image() {
    let img = image::RgbaImage::from_fn(2, 2, |x, y| image::Rgba([x as u8, y as u8, 3, 4]));
    let t = Texture::from_rgba8(2, 2, &img.into_raw()).unwrap();
    assert_eq!(t.texel(1, 0), Rgba8::new(1, 0, 3, 4));
    assert_eq!(t.texel(0, 1), Rgba8::new(0, 1, 3, 4));
}

#[test]
fn from_rgba8_rejects_empty_sides() {
    assert!(Texture::from_rgba8(0, 4, &vec![]).is_none());
    assert!(Texture::from_rgba8(4, 0, &vec![]).is_none());
}

#[test]
fn from_rgba8_rejects_wrong_length() {
    assert!(Texture::from_rgba8(2, 2, &vec![0; 15]).is_none());
    assert!(Texture::from_rgba8(2, 2, &vec![0; 17]).is_none());
    assert!(Texture::from_rgba8(2, 2, &vec![0; 12]).is_none());
    assert!(Texture::from_rgba8(u32::MAX, u32::MAX, &vec![0; 16]).is_none());
}

#[test]
fn texel_reads_and_clamps() {
    let t = gradient(3, 2);
    assert_eq!(t.texel(1, 1), Rgba8::new(10, 20, 7, 255));
    assert_eq!(t.texel(9, 0), Rgba8::new(20, 0, 7, 255));
    assert_eq!(t.texel(0, 9), Rgba8::new(0, 20, 7, 255));
    assert_eq!(t.texel(u32::MAX, u32::MAX), Rgba8::new(20, 20, 7, 255));
}

#[test]
fn solid_fills_every_pixel() {
    let c = Rgba8::new(1, 2, 3, 4);
    let t = Texture::solid(3, 4, c);
    assert_eq!(t.pixels.len(), 12);
    assert!(t.pixels.iter().all(|p| *p == c));
}

#[test]
fn fallback_colors_by_name() {
    assert_eq!(fallback_color("grass"), Rgba8::new(50, 200, 50, 255));
    assert_eq!(fallback_color("wood"), Rgba8::new(150, 100, 50, 255));
    assert_eq!(fallback_color("water"), Rgba8::new(50, 100, 200, 255));
    assert_eq!(fallback_color("glass"), Rgba8::new(200, 220, 255, 255));
    assert_eq!(fallback_color("stone"), Rgba8::new(120, 120, 120, 255));
    assert_eq!(fallback_color("brick"), Rgba8::new(150, 80, 60, 255));
    assert_eq!(fallback_color("woodhouse"), Rgba8::new(120, 80, 40, 255));
    assert_eq!(fallback_color("fire"), Rgba8::new(255, 200, 0, 255));
}

#[test]
fn fallback_color_of_unknown_name_is_magenta() {
    assert_eq!(fallback_color("steve"), Rgba8::new(255, 0, 255, 255));
    assert_eq!(fallback_color(""), Rgba8::new(255, 0, 255, 255));
    assert_eq!(fallback_color("Grass"), Rgba8::new(255, 0, 255, 255));
}

#[test]
fn fallback_texture_is_two_by_two() {
    let t = TextureManager::create_fallback_texture("brick");
    assert_eq!((t.width, t.height), (2, 2));
    assert_eq!(t.pixels, vec![Rgba8::new(150, 80, 60, 255); 4]);
}

#[test]
fn manager_starts_empty() {
    let m = TextureManager::empty();
    assert!(m.get_texture("grass").is_none());
}

#[test]
fn manager_stores_loaded_and_fallback_textures() {
    let mut m = TextureManager::empty();
    m.load_texture("grass", Some(gradient(3, 2)));
    m.load_texture("fire", None);
    let grass = m.get_texture("grass").unwrap();
    assert_eq!((grass.width, grass.height), (3, 2));
    let fire = m.get_texture("fire").unwrap();
    assert_eq!(fire.texel(1, 1), Rgba8::new(255, 200, 0, 255));
    assert!(m.get_texture("water").is_none());
}

#[test]
fn manager_later_load_replaces_earlier() {
    let mut m = TextureManager::empty();
    m.load_texture("stone", None);
    m.load_texture("stone", Some(Texture::solid(1, 1, Rgba8::new(9, 9, 9, 9))));
    let t = m.get_texture("stone").unwrap();
    assert_eq!((t.width, t.height), (1, 1));
    assert_eq!(t.texel(0, 0), Rgba8::new(9, 9, 9, 9));
}

#[test]
fn scene_texture_names_in_order() {
    let names: Vec<&str> = (0..SCENE_TEXTURE_COUNT).map(scene_texture_name).collect();
    assert_eq!(names, vec!["grass", "wood", "water", "glass", "stone", "steve", "brick", "woodhouse", "fire"]);
}

#[test]
fn new_catalog_holds_every_scene_name() {
    let mut loaded: Vec<Option<Texture>> = (0..SCENE_TEXTURE_COUNT).map(|_| None).collect();
    loaded[1] = Some(Texture::solid(3, 1, Rgba8::new(1, 2, 3, 4)));
    let m = TextureManager::new(loaded);
    for i in 0..SCENE_TEXTURE_COUNT {
        assert!(m.get_texture(scene_texture_name(i)).is_some());
    }
    let wood = m.get_texture("wood").unwrap();
    assert_eq!((wood.width, wood.height), (3, 1));
    assert_eq!(m.get_texture("grass").unwrap().texel(0, 0), Rgba8::new(50, 200, 50, 255));
    assert_eq!(m.get_texture("steve").unwrap().texel(1, 1), Rgba8::new(255, 0, 255, 255));
    assert!(m.get_texture("lamp").is_none());
}
