//! A single-page photo slideshow: picks image files out of a directory listing,
//! computes the fade keyframes of the slideshow and renders the HTML page.

mod error;
mod keyframes;
mod locator;
mod page;
mod paths;

pub use error::GalleryError;
pub use keyframes::{
    clamp_percent, compute_keyframes, keyframe_opacities, keyframe_percents, keyframes_spec,
    lemma_opacities, lemma_percents_in_range, lemma_points_monotonic, raw_numerators, round_div,
    Keyframe, TRANSITION_TIME,
};
pub use locator::{
    entry_views, images_in, is_image, lemma_images_in_contains, lemma_images_in_count,
    lemma_scan_reordered, lemma_scan_same_listing,
    lemma_scan_same_set, path_views,
    ImageDir, RandomFileServer, WalkEntry,
};
pub use page::{
    built_from, image_url, image_urls, keyframe_pairs, lemma_config_empty, lemma_config_keyframes,
    lemma_render_deterministic, page_html,
    rendered, TransitionConfig, PAGE_TEMPLATE, STATIC_ROUTE,
};
pub use paths::{base_name, ends_with, file_name, has_suffix, name_before, name_start};
