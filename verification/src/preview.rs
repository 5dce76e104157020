//! Media previews: what yt-dlp's JSON description of a URL is shown as,
//! durations as clock text, and thumbnails as RGBA pixels.
use vstd::prelude::*;
use crate::app_model::MediaPreview;
use crate::decimal::{all_digits, digits_value, lemma_pad2_denotes, pad2, push_pad2};
use crate::progress::opt_view;
use crate::text::{push_char, to_chars, trim, trim_range};

verus! {

broadcast use vstd::string::group_string_axioms;

// ---------------------------------------------------------------------------
// Durations
/// `H:MM:SS`-style clock text with two-digit fields, hours only when nonzero.
pub open spec fn duration_text(total: nat) -> Seq<char> {
    let hours = total / 3600;
    let minutes = (total % 3600) / 60;
    let seconds = total % 60;
    if hours > 0 {
        pad2(hours) + seq![':'] + pad2(minutes) + seq![':'] + pad2(seconds)
    } else {
        pad2(minutes) + seq![':'] + pad2(seconds)
    }
}

pub fn format_duration(total_seconds: u64) -> (r: String)
    ensures
        r@ == duration_text(total_seconds as nat),
{
    let hours = total_seconds / 3600;
    let minutes = (total_seconds % 3600) / 60;
    let seconds = total_seconds % 60;
    let mut r = String::new();
    if hours > 0 {
        push_pad2(&mut r, hours);
        push_char(&mut r, ':');
    }
    push_pad2(&mut r, minutes);
    push_char(&mut r, ':');
    push_pad2(&mut r, seconds);
    proof {
        if hours > 0 {
            assert(r@ =~= duration_text(total_seconds as nat));
        } else {
            assert(r@ =~= duration_text(total_seconds as nat));
        }
    }
    r
}

// ---------------------------------------------------------------------------
// yt-dlp's JSON description
#[verifier::external_type_specification]
#[verifier::external_body]
pub struct ExJsonValue(serde_json::Value);

#[verifier::external_type_specification]
#[verifier::external_body]
pub struct ExJsonError(serde_json::Error);

/// What `serde_json::from_str` makes of `text`: when it reads a JSON value,
/// the value's string members and its numeric members (see `json_strings`
/// and `json_whole_numbers`); else the `Display` text of its error.
pub uninterp spec fn json_text_members(text: Seq<char>) -> Result<
    (Map<Seq<char>, Seq<char>>, Map<Seq<char>, u64>),
    Seq<char>,
>;

/// The members of a JSON object whose values are strings (empty for a
/// value that is not an object).
pub uninterp spec fn json_strings(v: serde_json::Value) -> Map<Seq<char>, Seq<char>>;

/// The members of a JSON object whose values are numbers, each read as a
/// 64-bit float and converted to `u64` with Rust's saturating `as`.
pub uninterp spec fn json_whole_numbers(v: serde_json::Value) -> Map<Seq<char>, u64>;

/// `serde_json::from_str::<serde_json::Value>`: reads a JSON text; what it
/// reads depends on the text alone.
#[verifier::external_body]
fn json_from_str(text: &str) -> (r: Result<serde_json::Value, serde_json::Error>)
    ensures
        r is Ok <==> json_text_members(text@) is Ok,
        r matches Ok(v) ==> json_text_members(text@)->Ok_0 == (
            json_strings(v),
            json_whole_numbers(v),
        ),
        r matches Err(e) ==> json_text_members(text@)->Err_0 == json_error_display(e),
{
    serde_json::from_str::<serde_json::Value>(text)
}

/// The `Display` text of a `serde_json::Error`.
pub uninterp spec fn json_error_display(e: serde_json::Error) -> Seq<char>;

/// `ToString::to_string` of a `serde_json::Error`: its `Display` text.
#[verifier::external_body]
fn json_error_text(e: &serde_json::Error) -> (r: String)
    ensures
        r@ == json_error_display(*e),
{
    e.to_string()
}

/// `serde_json::Value::get(key)` followed by `as_str`: the string value of
/// an object member, if the value is an object with that member and the
/// member is a string.
#[verifier::external_body]
fn json_get_str(v: &serde_json::Value, key: &str) -> (r: Option<String>)
    ensures
        r is Some <==> json_strings(*v).contains_key(key@),
        r matches Some(s) ==> s@ == json_strings(*v)[key@],
{
    v.get(key).and_then(serde_json::Value::as_str).map(|s| s.to_owned())
}

/// `serde_json::Value::get(key)` followed by `as_f64`, converted with
/// `as u64`: a numeric object member as whole units.
#[verifier::external_body]
fn json_get_whole_number(v: &serde_json::Value, key: &str) -> (r: Option<u64>)
    ensures
        r is Some <==> json_whole_numbers(*v).contains_key(key@),
        r matches Some(n) ==> n == json_whole_numbers(*v)[key@],
{
    v.get(key).and_then(serde_json::Value::as_f64).map(|x| x as u64)
}

/// The first of the keys, in order, that names a string member.
pub open spec fn first_string(m: Map<Seq<char>, Seq<char>>, keys: Seq<Seq<char>>) -> Option<Seq<char>>
    decreases keys.len(),
{
    if keys.len() == 0 {
        None
    } else if m.contains_key(keys[0]) {
        Some(m[keys[0]])
    } else {
        first_string(m, keys.drop_first())
    }
}

pub open spec fn or_default(o: Option<Seq<char>>, d: Seq<char>) -> Seq<char> {
    match o {
        Some(s) => s,
        None => d,
    }
}

/// What a preview built from a JSON description shows (before any thumbnail
/// is fetched): the title is `track`, else `title`; the creator is
/// `artist`, else `uploader`, else `channel`; the source is `webpage_url`,
/// else the requested URL.
pub open spec fn preview_matches(p: MediaPreview, strings: Map<Seq<char>, Seq<char>>, numbers: Map<Seq<char>, u64>, url: Seq<char>) -> bool {
    &&& p.title@ == or_default(first_string(strings, seq!["track"@, "title"@]), "Unknown title"@)
    &&& p.uploader@ == or_default(
        first_string(strings, seq!["artist"@, "uploader"@, "channel"@]),
        "Unknown creator"@,
    )
    &&& opt_view(p.duration) == (if numbers.contains_key("duration"@) {
        Some(duration_text(numbers["duration"@] as nat))
    } else {
        None
    })
    &&& p.webpage_url@ == or_default(first_string(strings, seq!["webpage_url"@]), url)
    &&& opt_view(p.thumbnail_url) == first_string(strings, seq!["thumbnail"@])
    &&& p.thumbnail_rgba is None
}

fn get_str_or_else(v: &serde_json::Value, key: &str, rest: Option<String>) -> (r: Option<String>)
    ensures
        opt_view(r) == (if json_strings(*v).contains_key(key@) {
            Some(json_strings(*v)[key@])
        } else {
            opt_view(rest)
        }),
{
    match json_get_str(v, key) {
        Some(s) => Some(s),
        None => rest,
    }
}

/// The preview that a JSON description shows for `url`.
pub fn preview_from_json(v: &serde_json::Value, url: &str) -> (r: MediaPreview)
    ensures
        preview_matches(r, json_strings(*v), json_whole_numbers(*v), url@),
{
    let ghost m = json_strings(*v);
    let title = match get_str_or_else(v, "track", get_str_or_else(v, "title", None)) {
        Some(t) => t,
        None => "Unknown title".to_owned(),
    };
    let uploader = match get_str_or_else(
        v,
        "artist",
        get_str_or_else(v, "uploader", get_str_or_else(v, "channel", None)),
    ) {
        Some(u) => u,
        None => "Unknown creator".to_owned(),
    };
    let duration = match json_get_whole_number(v, "duration") {
        Some(secs) => Some(format_duration(secs)),
        None => None,
    };
    let webpage_url = match json_get_str(v, "webpage_url") {
        Some(w) => w,
        None => url.to_owned(),
    };
    let thumbnail_url = json_get_str(v, "thumbnail");
    proof {
        reveal_with_fuel(first_string, 4);
        let t = seq!["track"@, "title"@];
        assert(t.drop_first() =~= seq!["title"@]);
        assert(t.drop_first().drop_first() =~= Seq::<Seq<char>>::empty());
        let u = seq!["artist"@, "uploader"@, "channel"@];
        assert(u.drop_first() =~= seq!["uploader"@, "channel"@]);
        assert(u.drop_first().drop_first() =~= seq!["channel"@]);
        assert(u.drop_first().drop_first().drop_first() =~= Seq::<Seq<char>>::empty());
        let w = seq!["webpage_url"@];
        assert(w.drop_first() =~= Seq::<Seq<char>>::empty());
        let h = seq!["thumbnail"@];
        assert(h.drop_first() =~= Seq::<Seq<char>>::empty());
    }
    MediaPreview { title, uploader, duration, webpage_url, thumbnail_url, thumbnail_rgba: None }
}

pub open spec fn parse_error_prefix() -> Seq<char> {
    "Could not parse preview data: "@
}

/// Reads yt-dlp's JSON description of `url`: the preview it shows, or the
/// parse error's text after `parse_error_prefix`.
pub fn parse_preview(text: &str, url: &str) -> (r: Result<MediaPreview, String>)
    ensures
        match json_text_members(text@) {
            Ok(members) => r matches Ok(p) && preview_matches(p, members.0, members.1, url@),
            Err(detail) => r matches Err(m) && m@ == parse_error_prefix() + detail,
        },
{
    match json_from_str(text) {
        Ok(v) => {
            let p = preview_from_json(&v, url);
            Ok(p)
        },
        Err(e) => {
            let mut msg = "Could not parse preview data: ".to_owned();
            let detail = json_error_text(&e);
            msg.append(detail.as_str());
            assert(msg@ == parse_error_prefix() + json_error_display(e));
            Err(msg)
        },
    }
}

/// The output to read a preview from: standard output, unless it is blank
/// and standard error is not empty.
pub open spec fn preview_text_spec(stdout: Seq<char>, stderr: Seq<char>) -> Seq<char> {
    if trim(stdout).len() == 0 && stderr.len() > 0 {
        stderr
    } else {
        stdout
    }
}

pub fn choose_preview_text(stdout: String, stderr: String) -> (r: String)
    ensures
        r@ == preview_text_spec(stdout@, stderr@),
{
    let v = to_chars(stdout.as_str());
    let (a, b) = trim_range(&v, 0, v.len());
    assert(v@.subrange(0, v@.len() as int) =~= v@);
    let ev = to_chars(stderr.as_str());
    if a == b && ev.len() > 0 {
        stderr
    } else {
        stdout
    }
}

// ---------------------------------------------------------------------------
// Thumbnails
#[verifier::external_type_specification]
#[verifier::external_body]
pub struct ExDynamicImage(image::DynamicImage);

#[verifier::external_type_specification]
#[verifier::external_body]
pub struct ExImageError(image::ImageError);

/// What `image::load_from_memory` makes of the bytes (with the formats this
/// build reads): when it decodes them, the RGBA pixels and the size (see
/// `image_rgba` and `image_size`); else the `Display` text of its error.
pub uninterp spec fn decoded_image(bytes: Seq<u8>) -> Result<(Seq<u8>, (u32, u32)), Seq<char>>;

/// An image's pixels as RGBA bytes.
pub uninterp spec fn image_rgba(img: image::DynamicImage) -> Seq<u8>;

/// An image's width and height.
pub uninterp spec fn image_size(img: image::DynamicImage) -> (u32, u32);

/// `image::load_from_memory`: guesses the format and decodes the image;
/// what it decodes depends on the bytes alone.
#[verifier::external_body]
fn image_load_from_memory(bytes: &[u8]) -> (r: Result<image::DynamicImage, image::ImageError>)
    ensures
        r is Ok <==> decoded_image(bytes@) is Ok,
        r matches Ok(img) ==> decoded_image(bytes@)->Ok_0 == (image_rgba(img), image_size(img)),
        r matches Err(e) ==> decoded_image(bytes@)->Err_0 == image_error_display(e),
{
    image::load_from_memory(bytes)
}

/// `DynamicImage::to_rgba8` followed by `ImageBuffer::into_raw`: the pixels
/// as RGBA bytes.
#[verifier::external_body]
fn image_rgba_bytes(img: &image::DynamicImage) -> (r: Vec<u8>)
    ensures
        r@ == image_rgba(*img),
{
    img.to_rgba8().into_raw()
}

/// `GenericImageView::dimensions`: width and height.
#[verifier::external_body]
fn image_dimensions(img: &image::DynamicImage) -> (r: (u32, u32))
    ensures
        r == image_size(*img),
{
    image::GenericImageView::dimensions(img)
}

/// The `Display` text of an `image::ImageError`.
pub uninterp spec fn image_error_display(e: image::ImageError) -> Seq<char>;

/// `ToString::to_string` of an `image::ImageError`: its `Display` text.
#[verifier::external_body]
fn image_error_text(e: &image::ImageError) -> (r: String)
    ensures
        r@ == image_error_display(*e),
{
    e.to_string()
}

pub open spec fn decode_error_prefix() -> Seq<char> {
    "Could not decode thumbnail: "@
}

/// Decodes a downloaded thumbnail into RGBA pixels and its size.
pub fn decode_thumbnail(bytes: &[u8]) -> (r: Result<(Vec<u8>, [usize; 2]), String>)
    ensures
        match decoded_image(bytes@) {
            Ok((px, (w, h))) => r matches Ok(t) && t.0@ == px && t.1[0] == w as usize && t.1[1]
                == h as usize,
            Err(detail) => r matches Err(m) && m@ == decode_error_prefix() + detail,
        },
{
    match image_load_from_memory(bytes) {
        Ok(img) => {
            let rgba = image_rgba_bytes(&img);
            let (w, h) = image_dimensions(&img);
            Ok((rgba, [w as usize, h as usize]))
        },
        Err(e) => {
            let mut msg = "Could not decode thumbnail: ".to_owned();
            let detail = image_error_text(&e);
            msg.append(detail.as_str());
            assert(msg@ == decode_error_prefix() + image_error_display(e));
            Err(msg)
        },
    }
}

/// The clock text of `total` seconds is its hours (only when there are
/// any), minutes and seconds, separated by `:`. Each field is a digit string
/// of at least two digits, minutes and seconds of exactly two, and the
/// fields recombine to `total`.
pub proof fn law_duration_fields(total: nat)
    ensures
        ({
            let h = total / 3600;
            let mi = (total % 3600) / 60;
            let s = total % 60;
            &&& h * 3600 + mi * 60 + s == total
            &&& mi < 60 && s < 60
            &&& duration_text(total) == (if h > 0 {
                pad2(h) + seq![':']
            } else {
                seq![]
            }) + pad2(mi) + seq![':'] + pad2(s)
            &&& all_digits(pad2(h)) && digits_value(pad2(h)) == h && pad2(h).len() >= 2
            &&& all_digits(pad2(mi)) && digits_value(pad2(mi)) == mi && pad2(mi).len() == 2
            &&& all_digits(pad2(s)) && digits_value(pad2(s)) == s && pad2(s).len() == 2
        }),
{
    let h = total / 3600;
    let mi = (total % 3600) / 60;
    let s = total % 60;
    lemma_pad2_denotes(h);
    lemma_pad2_denotes(mi);
    lemma_pad2_denotes(s);
    vstd::arithmetic::div_mod::lemma_fundamental_div_mod(total as int, 3600);
    vstd::arithmetic::div_mod::lemma_fundamental_div_mod((total % 3600) as int, 60);
    vstd::arithmetic::div_mod::lemma_mod_mod(total as int, 60, 60);
    assert(h * 3600 + mi * 60 + s == total);
    if h > 0 {
        assert(duration_text(total) =~= pad2(h) + seq![':'] + pad2(mi) + seq![':'] + pad2(s));
    } else {
        assert(duration_text(total) =~= Seq::<char>::empty() + pad2(mi) + seq![':'] + pad2(s));
    }
}

} // verus!
