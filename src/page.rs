use vstd::prelude::*;
use tera::{Context, Tera};
use crate::error::GalleryError;
use crate::keyframes::{
    compute_keyframes, keyframe_percents, keyframes_spec, lemma_opacities, lemma_percents_in_range,
    lemma_points_monotonic, Keyframe, TRANSITION_TIME,
};
use crate::locator::path_views;
use crate::paths::{base_name, file_name};

verus! {

/// The route under which the images are served.
pub const STATIC_ROUTE: &'static str = "static";

/// The page: one `<img>` per image, each starting its fade cycle one display
/// time after the previous one, and one `@keyframes` block for the fade curve.
pub const PAGE_TEMPLATE: &'static str = "<!DOCTYPE html>
<html lang=\"en\">
<head>
<meta charset=\"utf-8\">
<meta name=\"viewport\" content=\"width=device-width, initial-scale=1\">
<title>{{ title }}</title>
<style>
html, body { margin: 0; padding: 0; height: 100%; background: #000; }
#gallery { position: relative; width: 100vw; height: 100vh; overflow: hidden; }
#gallery img {
  position: absolute; top: 0; left: 0; width: 100%; height: 100%;
  object-fit: contain; opacity: 0;
  animation: fade {{ total }}s linear infinite;
}
{% for img in imgs %}#gallery img:nth-child({{ loop.index }}) { animation-delay: {{ loop.index0 * delay }}s; }
{% endfor %}@keyframes fade {
{% for kf in keyframes %}  {{ kf.0 }}% { opacity: {{ kf.1 }}; }
{% endfor %}
}
</style>
</head>
<body>
<div id=\"gallery\">
{% for img in imgs %}<img src=\"{{ img }}\" alt=\"\">
{% endfor %}</div>
</body>
</html>
";

/// The CSS fade transitions between the images of the slideshow, and what the
/// page shows.
pub struct TransitionConfig {
    /// Paths of the images, in the order they are shown.
    pub imgs: Vec<String>,
    /// The page's title.
    pub title: String,
    /// How many images there are.
    pub n_imgs: usize,
    /// Seconds each image is shown.
    pub duration_per_image: usize,
    /// Seconds a fade takes.
    pub transition_time: usize,
    /// Seconds between the starts of two successive images' fade cycles.
    pub animation_delay: usize,
    /// Seconds the whole animation takes: `animation_delay * n_imgs`.
    pub duration_total: usize,
    /// The fade curve; `None` when there are no images, as it would divide by zero.
    pub keyframes: Option<Vec<Keyframe>>,
    /// Whether the images should be shown in random order.
    pub shuffle: bool,
    /// The route under which the images are served, e.g. `static`.
    pub static_route: String,
}

/// The address of an image on the page: the route, `/`, and the image's file name.
pub open spec fn image_url(route: Seq<char>, path: Seq<char>) -> Seq<char> {
    route + seq!['/'] + base_name(path)
}

/// The address of each image.
pub open spec fn image_urls(route: Seq<char>, paths: Seq<Seq<char>>) -> Seq<Seq<char>> {
    paths.map_values(|p: Seq<char>| image_url(route, p))
}

/// The fade curve as (percentage, opacity) pairs; none without a curve.
pub open spec fn keyframe_pairs(kf: Option<Vec<Keyframe>>) -> Seq<(usize, usize)> {
    match kf {
        Some(v) => v@.map_values(|k: Keyframe| (k.percent, k.opacity)),
        None => Seq::empty(),
    }
}

/// What the template engine makes of `template` with these values: the page's
/// text, or `None` where rendering fails.
pub uninterp spec fn rendered(
    template: Seq<char>,
    title: Seq<char>,
    imgs: Seq<Seq<char>>,
    delay: usize,
    total: usize,
    keyframes: Seq<(usize, usize)>,
) -> Option<Seq<char>>;

/// The outcome of rendering the page of `c`.
pub open spec fn page_html(c: TransitionConfig) -> Option<Seq<char>> {
    rendered(
        PAGE_TEMPLATE@,
        c.title@,
        image_urls(c.static_route@, path_views(c.imgs@)),
        c.animation_delay,
        c.duration_total,
        keyframe_pairs(c.keyframes),
    )
}

/// `c` is the configuration built for images `imgs`, page title `title`,
/// display time `d`, fade time `t` and shuffle flag `shuffle`.
pub open spec fn built_from(
    c: TransitionConfig,
    imgs: Seq<Seq<char>>,
    title: Seq<char>,
    d: usize,
    t: usize,
    shuffle: bool,
) -> bool {
    &&& path_views(c.imgs@) == imgs
    &&& c.title@ == title
    &&& c.n_imgs == imgs.len()
    &&& c.duration_per_image == d
    &&& c.transition_time == t
    &&& c.animation_delay == d
    &&& c.duration_total == d * imgs.len()
    &&& (c.keyframes is None <==> imgs.len() == 0)
    &&& (c.keyframes matches Some(v) ==> v@ == keyframes_spec(d as int, t as int, d * imgs.len()))
    &&& c.shuffle == shuffle
    &&& c.static_route@ == STATIC_ROUTE@
}

/// The error type of the tera template engine, carried through as it is.
#[verifier::external_type_specification]
#[verifier::external_body]
pub struct ExTeraError(tera::Error);

/// Relies on tera's `Context::insert` and `Tera::one_off` (autoescape off): the
/// page template calls no function of the engine (such as `get_env`), so the
/// page is rendered from the template and these values alone.
#[verifier::external_body]
fn render_page(
    template: &str,
    title: &str,
    imgs: &Vec<String>,
    delay: usize,
    total: usize,
    keyframes: &Vec<(usize, usize)>,
) -> (r: Result<String, tera::Error>)
    requires
        template@ == PAGE_TEMPLATE@,
    ensures
        r is Ok <==> rendered(template@, title@, path_views(imgs@), delay, total, keyframes@) is Some,
        r matches Ok(s) ==> rendered(template@, title@, path_views(imgs@), delay, total, keyframes@)
            == Some(s@),
{
    let mut context = Context::new();
    context.insert("title", title);
    context.insert("imgs", imgs);
    context.insert("delay", &delay);
    context.insert("total", &total);
    context.insert("keyframes", keyframes);
    Tera::one_off(template, &context, false)
}

/// The address of the image at `path` under `route`.
fn image_url_of(route: &str, path: &str) -> (r: String)
    ensures
        r@ == image_url(route@, path@),
{
    let mut url = route.to_string();
    url.append("/");
    let name = file_name(path);
    url.append(name.as_str());
    proof {
        reveal_strlit("/");
    }
    url
}

/// A configuration that is built from the same images, title and timing
/// renders to the same outcome: the same page, byte for byte, or the same
/// failure. Rendering draws on no randomness.
pub proof fn lemma_render_deterministic(
    a: TransitionConfig,
    b: TransitionConfig,
    imgs: Seq<Seq<char>>,
    title: Seq<char>,
    d: usize,
    t: usize,
    shuffle: bool,
)
    requires
        built_from(a, imgs, title, d, t, shuffle),
        built_from(b, imgs, title, d, t, shuffle),
    ensures
        page_html(a) == page_html(b),
{
    assert(keyframe_pairs(a.keyframes) =~= keyframe_pairs(b.keyframes));
}

/// A configuration built for `n >= 1` images, shown `d > 0` seconds each with
/// fades of `t > 0` seconds: the next image starts `d` seconds after the
/// previous one and the animation takes exactly `d * n` seconds; there are five
/// keyframes, each percentage in `[0, 100]`, with opacities `0, 1, 0, 0, 1`;
/// and when both fades fit (`d + 2 t <= d * n`) the percentages rise
/// monotonically.
pub proof fn lemma_config_keyframes(
    c: TransitionConfig,
    imgs: Seq<Seq<char>>,
    title: Seq<char>,
    d: usize,
    t: usize,
    shuffle: bool,
)
    requires
        built_from(c, imgs, title, d, t, shuffle),
        d > 0,
        t > 0,
        imgs.len() >= 1,
    ensures
        c.animation_delay == d,
        c.duration_total == d * imgs.len(),
        c.keyframes is Some,
        c.keyframes->0@.len() == 5,
        forall|i: int| 0 <= i < 5 ==> (#[trigger] c.keyframes->0@[i]).percent <= 100,
        c.keyframes->0@.map_values(|k: Keyframe| k.opacity as int) == seq![0int, 1, 0, 0, 1],
        d + 2 * t <= d * imgs.len() ==> forall|i: int|
            0 <= i < 4 ==> c.keyframes->0@[i].percent <= (#[trigger] c.keyframes->0@[i + 1]).percent,
{
    let n = imgs.len() as int;
    let v = c.keyframes->0@;
    lemma_percents_in_range(d as int, t as int, n);
    lemma_opacities(d as int, t as int, n);
    let ps = keyframe_percents(d as int, t as int, d * n);
    assert forall|i: int| 0 <= i < 5 implies (#[trigger] v[i]).percent == ps[i] by {
        assert(0 <= ps[i] <= 100);
    }
    if d + 2 * t <= d * n {
        lemma_points_monotonic(d as int, t as int, n);
        assert forall|i: int| 0 <= i < 4 implies v[i].percent <= (#[trigger] v[i + 1]).percent by {
            assert(v[i].percent == ps[i]);
            assert(v[i + 1].percent == ps[i + 1]);
        }
    }
}

/// A configuration built for no images has no keyframes: nothing is divided,
/// and the animation takes no time.
pub proof fn lemma_config_empty(
    c: TransitionConfig,
    imgs: Seq<Seq<char>>,
    title: Seq<char>,
    d: usize,
    t: usize,
    shuffle: bool,
)
    requires
        built_from(c, imgs, title, d, t, shuffle),
        imgs.len() == 0,
    ensures
        c.keyframes is None,
        c.n_imgs == 0,
        c.duration_total == 0,
{
}

impl TransitionConfig {
    /// The fields agree with each other: they are what `with_timing` builds from
    /// the images, title, timing and shuffle flag they hold.
    pub open spec fn wf(&self) -> bool {
        &&& self.duration_per_image > 0
        &&& built_from(
            *self,
            path_views(self.imgs@),
            self.title@,
            self.duration_per_image,
            self.transition_time,
            self.shuffle,
        )
    }

    /// The configuration for the images `imgs`, each shown `duration_per_image`
    /// seconds, with fades of `TRANSITION_TIME` seconds. The next image starts its
    /// fade cycle `duration_per_image` seconds after the previous one, so the
    /// whole animation takes `duration_per_image * imgs.len()` seconds.
    pub fn new(imgs: Vec<String>, title: String, duration_per_image: usize, shuffle: bool) -> (c:
        TransitionConfig)
        requires
            duration_per_image > 0,
            duration_per_image * imgs@.len() <= usize::MAX,
        ensures
            built_from(c, path_views(imgs@), title@, duration_per_image, TRANSITION_TIME, shuffle),
    {
        Self::with_timing(imgs, title, duration_per_image, TRANSITION_TIME, shuffle)
    }

    /// The configuration for the images `imgs`, each shown `duration_per_image`
    /// seconds, with fades of `transition_time` seconds (see `new`).
    pub fn with_timing(
        imgs: Vec<String>,
        title: String,
        duration_per_image: usize,
        transition_time: usize,
        shuffle: bool,
    ) -> (c: TransitionConfig)
        requires
            duration_per_image > 0,
            duration_per_image * imgs@.len() <= usize::MAX,
        ensures
            built_from(c, path_views(imgs@), title@, duration_per_image, transition_time, shuffle),
    {
        let n_imgs = imgs.len();
        let duration_total = duration_per_image * n_imgs;
        let keyframes = match compute_keyframes(duration_per_image, transition_time, n_imgs) {
            Ok(v) => Some(v),
            Err(_) => None,
        };
        let static_route = STATIC_ROUTE.to_string();
        TransitionConfig {
            imgs,
            title,
            n_imgs,
            duration_per_image,
            transition_time,
            animation_delay: duration_per_image,
            duration_total,
            keyframes,
            shuffle,
            static_route,
        }
    }

    /// The full HTML page: the title, an `<img>` at `static_route/<file name>`
    /// for each image, and the fade curve. With no images the gallery is empty.
    pub fn generate_html(&self) -> (r: Result<String, GalleryError>)
        requires
            self.wf(),
        ensures
            r is Ok <==> page_html(*self) is Some,
            r matches Ok(s) ==> page_html(*self) == Some(s@),
            r matches Err(e) ==> e is Template,
    {
        let ghost paths = path_views(self.imgs@);
        let mut urls: Vec<String> = Vec::new();
        let mut i: usize = 0;
        while i < self.imgs.len()
            invariant
                i <= self.imgs@.len(),
                paths == path_views(self.imgs@),
                urls@.len() == i,
                forall|j: int|
                    0 <= j < i ==> (#[trigger] urls@[j])@ == image_url(
                        self.static_route@,
                        paths[j],
                    ),
            decreases self.imgs@.len() - i,
        {
            let u = image_url_of(self.static_route.as_str(), self.imgs[i].as_str());
            urls.push(u);
            i = i + 1;
        }
        assert(path_views(urls@) =~= image_urls(self.static_route@, paths));
        let mut pairs: Vec<(usize, usize)> = Vec::new();
        match &self.keyframes {
            Some(kf) => {
                let mut j: usize = 0;
                while j < kf.len()
                    invariant
                        j <= kf@.len(),
                        self.keyframes == Some(*kf),
                        pairs@ =~= kf@.subrange(0, j as int).map_values(
                            |k: Keyframe| (k.percent, k.opacity),
                        ),
                    decreases kf@.len() - j,
                {
                    let k = kf[j];
                    pairs.push((k.percent, k.opacity));
                    j = j + 1;
                }
                assert(kf@.subrange(0, kf@.len() as int) =~= kf@);
            },
            None => {},
        }
        assert(pairs@ =~= keyframe_pairs(self.keyframes));
        match render_page(
            PAGE_TEMPLATE,
            self.title.as_str(),
            &urls,
            self.animation_delay,
            self.duration_total,
            &pairs,
        ) {
            Ok(s) => Ok(s),
            Err(e) => Err(GalleryError::Template(e.to_string())),
        }
    }
}

} // verus!
