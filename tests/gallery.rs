use simple_gallery::{compute_keyframes, ends_with, file_name, GalleryError, ImageDir, Keyframe};
use simple_gallery::{RandomFileServer, TransitionConfig, WalkEntry, TRANSITION_TIME};

fn strings(xs: &[&str]) -> Vec<String> {
    xs.iter().map(|s| s.to_string()).collect()
}

fn files(xs: &[&str]) -> Vec<WalkEntry> {
    xs.iter()
        .map(|s| WalkEntry {
            path: s.to_string(),
            is_file: true,
        })
        .collect()
}

fn dir_entry(path: &str) -> WalkEntry {
    WalkEntry {
        path: path.to_string(),
        is_file: false,
    }
}

fn percents(v: &[Keyframe]) -> Vec<usize> {
    v.iter().map(|k| k.percent).collect()
}

fn opacities(v: &[Keyframe]) -> Vec<usize> {
    v.iter().map(|k| k.opacity).collect()
}

fn png_dir() -> ImageDir {
    ImageDir {
        path: String::from("img"),
        file_extension: String::from("png"),
    }
}

#[test]
fn basic_math() {
    let mut imgs = Vec::new();
    imgs.push(String::from("img/foo1.png"));
    imgs.push(String::from("img/foo2.png"));
    imgs.push(String::from("img/foo3.png"));
    imgs.push(String::from("img/foo4.png"));
    let c = TransitionConfig::new(imgs, "foo".to_string(), 5, false);
    assert!(c.n_imgs == 4);
}

#[test]
fn create_image_dir() {
    let d = String::from("img");
    let _i = ImageDir {
        path: d.into(),
        file_extension: String::from("png"),
    };
}

#[test]
fn locator_keeps_only_matching_extension() {
    let entries = files(&["a.png", "b.png", "c.jpg"]);
    let found = png_dir().find_images(&entries);
    assert_eq!(found, strings(&["a.png", "b.png"]));
    assert_eq!(found.len(), 2);
}

#[test]
fn locator_keeps_walk_order_and_skips_directories() {
    let mut entries = vec![dir_entry("img")];
    entries.extend(files(&["img/z.png"]));
    entries.push(dir_entry("img/sub"));
    entries.push(dir_entry("img/album.png"));
    entries.extend(files(&["img/sub/a.png", "img/x.pngx", "img/png"]));
    let found = png_dir().find_images(&entries);
    assert_eq!(found, strings(&["img/z.png", "img/sub/a.png"]));
}

#[test]
fn locator_needs_the_dot() {
    let entries = files(&["apng", "b.png", ".png", "png", "c.PNG"]);
    let found = png_dir().find_images(&entries);
    assert_eq!(found, strings(&["b.png", ".png"]));
}

#[test]
fn locator_scans_are_repeatable() {
    let entries = files(&["img/a.png", "img/b.jpg", "img/c.png"]);
    let dir = png_dir();
    let first = dir.find_images(&entries);
    let second = dir.find_images(&entries);
    assert_eq!(first, second);
    let reordered = files(&["img/c.png", "img/a.png", "img/b.jpg"]);
    let mut third = dir.find_images(&reordered);
    let mut sorted_first = first.clone();
    third.sort();
    sorted_first.sort();
    assert_eq!(third, sorted_first);
}

#[test]
fn random_image_of_single_file_is_always_it() {
    let mut entries = vec![dir_entry("img")];
    entries.extend(files(&["img/only.png"]));
    let dir = png_dir();
    for _ in 0..20 {
        assert_eq!(dir.get_random_image(&entries), Ok(String::from("img/only.png")));
    }
}

#[test]
fn random_image_is_one_of_the_images() {
    let entries = files(&["a.png", "b.jpg", "c.png", "d.png"]);
    let dir = png_dir();
    for _ in 0..20 {
        let r = dir.get_random_image(&entries).unwrap();
        assert!(r == "a.png" || r == "c.png" || r == "d.png");
    }
}

#[test]
fn random_image_without_images_fails() {
    let mut entries = files(&["a.jpg"]);
    entries.push(dir_entry("img.png"));
    assert_eq!(png_dir().get_random_image(&entries), Err(GalleryError::NoImages));
    assert_eq!(png_dir().get_random_image(&Vec::new()), Err(GalleryError::NoImages));
}

#[test]
fn random_file_server_holds_its_directory() {
    let s = RandomFileServer::new(png_dir());
    assert_eq!(s.0.path, "img");
    assert_eq!(s.0.file_extension, "png");
}

#[test]
fn keyframes_for_reference_timing() {
    let v = compute_keyframes(8, 2, 4).unwrap();
    assert_eq!(percents(&v), vec![0, 25, 31, 94, 100]);
    assert_eq!(opacities(&v), vec![0, 1, 0, 0, 1]);
}

#[test]
fn keyframes_round_halves_up() {
    let v = compute_keyframes(1, 2, 8).unwrap();
    assert_eq!(percents(&v), vec![0, 13, 38, 75, 100]);
}

#[test]
fn keyframes_stay_in_range_for_one_image() {
    let v = compute_keyframes(8, 2, 1).unwrap();
    assert_eq!(percents(&v), vec![0, 100, 100, 75, 100]);
    for k in &v {
        assert!(k.percent <= 100);
    }
}

#[test]
fn keyframes_with_long_fade_are_held_at_zero() {
    let v = compute_keyframes(1, 5, 2).unwrap();
    assert_eq!(percents(&v), vec![0, 50, 100, 0, 100]);
}

#[test]
fn keyframes_are_monotonic_when_fades_fit() {
    let v = compute_keyframes(8, 2, 6).unwrap();
    let p = percents(&v);
    assert_eq!(p, vec![0, 17, 21, 96, 100]);
    for i in 0..4 {
        assert!(p[i] <= p[i + 1]);
    }
}

#[test]
fn keyframes_without_images_fail() {
    assert_eq!(compute_keyframes(8, 2, 0), Err(GalleryError::NoImages));
}

#[test]
fn config_durations() {
    let imgs = strings(&["a.png", "b.png", "c.png"]);
    let c = TransitionConfig::new(imgs, "t".to_string(), 5, true);
    assert_eq!(c.duration_total, 15);
    assert_eq!(c.animation_delay, 5);
    assert_eq!(c.duration_per_image, 5);
    assert_eq!(c.transition_time, TRANSITION_TIME);
    assert_eq!(c.transition_time, 2);
    assert_eq!(c.static_route, "static");
    assert!(c.shuffle);
    let kf = c.keyframes.unwrap();
    assert_eq!(percents(&kf), vec![0, 33, 47, 87, 100]);
}

#[test]
fn config_reference_scenario() {
    let imgs = strings(&["a.png", "b.png", "c.png", "d.png"]);
    let c = TransitionConfig::new(imgs, "t".to_string(), 8, false);
    assert_eq!(c.duration_total, 32);
    assert_eq!(percents(c.keyframes.as_ref().unwrap()), vec![0, 25, 31, 94, 100]);
}

#[test]
fn config_without_images_has_no_keyframes() {
    let c = TransitionConfig::new(Vec::new(), "empty".to_string(), 8, false);
    assert_eq!(c.n_imgs, 0);
    assert_eq!(c.duration_total, 0);
    assert!(c.keyframes.is_none());
    let html = c.generate_html().unwrap();
    assert!(html.contains("<title>empty</title>"));
    assert!(!html.contains("<img"));
}

#[test]
fn html_lists_images_by_file_name() {
    let imgs = strings(&["img/foo1.png", "img/sub/foo2.png", "foo3.png"]);
    let c = TransitionConfig::new(imgs, "My gallery".to_string(), 8, false);
    let html = c.generate_html().unwrap();
    assert!(html.starts_with("<!DOCTYPE html>"));
    assert!(html.contains("<title>My gallery</title>"));
    assert!(html.contains("<img src=\"static/foo1.png\" alt=\"\">"));
    assert!(html.contains("<img src=\"static/foo2.png\" alt=\"\">"));
    assert!(html.contains("<img src=\"static/foo3.png\" alt=\"\">"));
    assert!(!html.contains("img/foo1.png"));
    assert!(html.contains("animation: fade 24s linear infinite;"));
    assert!(html.contains("#gallery img:nth-child(2) { animation-delay: 8s; }"));
    assert!(html.contains("#gallery img:nth-child(3) { animation-delay: 16s; }"));
    assert!(html.contains("  33% { opacity: 1; }"));
    assert!(html.contains("  0% { opacity: 0; }"));
    assert!(html.contains("  100% { opacity: 1; }"));
    assert_eq!(html.matches("<img ").count(), 3);
}

#[test]
fn html_is_the_same_on_every_render() {
    let imgs = strings(&["img/a.png", "img/b.png"]);
    let c = TransitionConfig::new(imgs.clone(), "same".to_string(), 8, false);
    let d = TransitionConfig::new(imgs, "same".to_string(), 8, false);
    let first = c.generate_html().unwrap();
    let second = c.generate_html().unwrap();
    let third = d.generate_html().unwrap();
    assert_eq!(first, second);
    assert_eq!(first, third);
}

#[test]
fn file_name_takes_last_component() {
    assert_eq!(file_name("img/foo1.png"), "foo1.png");
    assert_eq!(file_name("a/b/c.jpg"), "c.jpg");
    assert_eq!(file_name("plain.png"), "plain.png");
    assert_eq!(file_name("dir/"), "dir");
    assert_eq!(file_name("img/foo.png/"), "foo.png");
    assert_eq!(file_name("img/foo.png/."), "foo.png");
    assert_eq!(file_name("img//foo.png//./"), "foo.png");
    assert_eq!(file_name(".."), "");
    assert_eq!(file_name("img/.."), "");
    assert_eq!(file_name("/"), "");
    assert_eq!(file_name("."), "");
    assert_eq!(file_name("./"), "");
    assert_eq!(file_name("/a"), "a");
    assert_eq!(file_name("a/../b.png"), "b.png");
    assert_eq!(file_name(""), "");
}

#[test]
fn ends_with_compares_suffix() {
    assert!(ends_with("img/a.png", ".png"));
    assert!(!ends_with("img/a.jpg", ".png"));
    assert!(!ends_with("png", ".png"));
    assert!(ends_with("x", ""));
    assert!(ends_with("ümlaut.png", ".png"));
}

#[test]
fn file_name_matches_std_path() {
    for p in [
        "img/foo1.png",
        "img/foo.png/",
        "img/foo.png/.",
        "..",
        "img/..",
        "/",
        ".",
        "./x",
        "a//b",
        "...",
        ".hidden",
        "x/./",
        "",
    ] {
        let expected = std::path::Path::new(p)
            .file_name()
            .map(|n| n.to_str().unwrap().to_string())
            .unwrap_or_default();
        assert_eq!(file_name(p), expected, "path {:?}", p);
    }
}

#[test]
fn pick_image_uses_the_given_choice() {
    let mut entries = files(&["a.png", "b.jpg", "c.png"]);
    entries.push(dir_entry("d.png"));
    entries.extend(files(&["e.png"]));
    let dir = png_dir();
    assert_eq!(dir.pick_image(&entries, 0), Ok(String::from("a.png")));
    assert_eq!(dir.pick_image(&entries, 1), Ok(String::from("c.png")));
    assert_eq!(dir.pick_image(&entries, 2), Ok(String::from("e.png")));
    assert_eq!(dir.pick_image(&entries, 3), Ok(String::from("a.png")));
    assert_eq!(dir.pick_image(&entries, 7), Ok(String::from("c.png")));
}

#[test]
fn pick_image_without_images_fails() {
    let entries = files(&["a.jpg"]);
    assert_eq!(png_dir().pick_image(&entries, 0), Err(GalleryError::NoImages));
}

#[test]
fn config_with_chosen_fade_time() {
    let imgs = strings(&["a.png", "b.png", "c.png", "d.png"]);
    let c = TransitionConfig::with_timing(imgs, "t".to_string(), 8, 4, false);
    assert_eq!(c.transition_time, 4);
    assert_eq!(c.duration_total, 32);
    assert_eq!(percents(c.keyframes.as_ref().unwrap()), vec![0, 25, 38, 88, 100]);
    let html = c.generate_html().unwrap();
    assert!(html.contains("  38% { opacity: 0; }"));
    assert!(html.contains("  88% { opacity: 0; }"));
}

#[test]
fn html_uses_file_name_of_odd_paths() {
    let imgs = strings(&["img/foo.png/", ".."]);
    let c = TransitionConfig::new(imgs, "odd".to_string(), 8, false);
    let html = c.generate_html().unwrap();
    assert!(html.contains("<img src=\"static/foo.png\" alt=\"\">"));
    assert!(html.contains("<img src=\"static/\" alt=\"\">"));
}
