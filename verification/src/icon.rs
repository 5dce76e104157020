//! The application icon: the largest image of an `.ico` file as RGBA pixels.
use vstd::prelude::*;

verus! {

#[verifier::external_type_specification]
#[verifier::external_body]
pub struct ExIconDir(ico::IconDir);

#[verifier::external_type_specification]
#[verifier::external_body]
pub struct ExIoError(std::io::Error);

/// What `ico::IconDir::read` reads from the bytes, if it reads an icon
/// directory: its entries (see `ico_entries`).
pub uninterp spec fn ico_read_entries(bytes: Seq<u8>) -> Option<Seq<((u32, u32), Option<Seq<u8>>)>>;

/// The entries of an icon directory, in order: each one's width and height,
/// and its RGBA pixels if it decodes.
pub uninterp spec fn ico_entries(dir: ico::IconDir) -> Seq<((u32, u32), Option<Seq<u8>>)>;

pub open spec fn entry_sizes(es: Seq<((u32, u32), Option<Seq<u8>>)>) -> Seq<(u32, u32)> {
    es.map_values(|e: ((u32, u32), Option<Seq<u8>>)| e.0)
}

/// `ico::IconDir::read` over the bytes; what it reads depends on the bytes
/// alone.
#[verifier::external_body]
fn ico_read(bytes: &[u8]) -> (r: Result<ico::IconDir, std::io::Error>)
    ensures
        r is Ok <==> ico_read_entries(bytes@) is Some,
        r matches Ok(d) ==> ico_read_entries(bytes@) == Some(ico_entries(d)),
{
    ico::IconDir::read(std::io::Cursor::new(bytes))
}

/// `ico::IconDir::entries`, each taken by `width()` and `height()`.
#[verifier::external_body]
fn ico_sizes(dir: &ico::IconDir) -> (r: Vec<(u32, u32)>)
    ensures
        r@ == entry_sizes(ico_entries(*dir)),
{
    let mut out = Vec::new();
    for entry in dir.entries() {
        out.push((entry.width(), entry.height()));
    }
    out
}

/// `ico::IconDirEntry::decode` of the entry at `index`, taken by
/// `rgba_data()`, `width()` and `height()`. `decode` refuses an image whose
/// size differs from the entry's, and every decoded image holds four bytes
/// per pixel (`IconImage::from_rgba_data` refuses any other length). The
/// BMP reader computes row sizes and offsets in `u32` without checks, so
/// the entry's size is required to keep them in range.
#[verifier::external_body]
fn ico_decode(dir: &ico::IconDir, index: usize) -> (r: Result<(Vec<u8>, u32, u32), std::io::Error>)
    requires
        index < ico_entries(*dir).len(),
        decodable_size(ico_entries(*dir)[index as int].0),
    ensures
        r is Ok <==> ico_entries(*dir)[index as int].1 is Some,
        r matches Ok((px, w, h)) ==> (w, h) == ico_entries(*dir)[index as int].0 && Some(px@)
            == ico_entries(*dir)[index as int].1 && px@.len() == 4 * w * h,
{
    match dir.entries()[index].decode() {
        Ok(img) => Ok((img.rgba_data().to_vec(), img.width(), img.height())),
        Err(e) => Err(e),
    }
}

/// A size whose BMP row and pixel offsets fit in `u32`: `32 * width + 7`
/// and `4 * width * height` do.
pub open spec fn decodable_size(s: (u32, u32)) -> bool {
    (s.0 as nat) * 32 + 7 <= u32::MAX && 4 * ((s.0 as nat) * (s.1 as nat)) <= u32::MAX
}

fn is_decodable_size(s: (u32, u32)) -> (r: bool)
    ensures
        r == decodable_size(s),
{
    let w = s.0 as u128;
    let h = s.1 as u128;
    assert(w * h <= 0xffff_ffff_ffff_ffff_ffff_ffff_ffff_ffffu128 / 8) by (nonlinear_arith)
        requires
            w <= 0xffff_ffff,
            h <= 0xffff_ffff,
    ;
    w * 32 + 7 <= 0xffff_ffff && 4 * (w * h) <= 0xffff_ffff
}

pub open spec fn area(s: (u32, u32)) -> nat {
    (s.0 as nat) * (s.1 as nat)
}

/// The entry with the largest area; the last of several equal ones (as
/// `Iterator::max_by_key` picks).
pub open spec fn is_best_entry(sizes: Seq<(u32, u32)>, i: int) -> bool {
    &&& 0 <= i < sizes.len()
    &&& forall|j: int| 0 <= j < sizes.len() ==> area(#[trigger] sizes[j]) <= area(sizes[i])
    &&& forall|j: int| i < j < sizes.len() ==> area(#[trigger] sizes[j]) < area(sizes[i])
}

fn area_of(s: (u32, u32)) -> (r: u64)
    ensures
        r == area(s),
{
    proof {
        vstd::arithmetic::mul::lemma_mul_upper_bound(s.0 as int, u32::MAX as int, s.1 as int, u32::MAX as int);
        assert(u32::MAX as int * u32::MAX as int <= u64::MAX) by (nonlinear_arith);
    }
    (s.0 as u64) * (s.1 as u64)
}

pub fn best_entry_index(sizes: &Vec<(u32, u32)>) -> (r: Option<usize>)
    ensures
        r is None <==> sizes@.len() == 0,
        r matches Some(i) ==> is_best_entry(sizes@, i as int),
{
    if sizes.len() == 0 {
        return None;
    }
    let mut best: usize = 0;
    let mut best_area = area_of(sizes[0]);
    let mut i: usize = 1;
    while i < sizes.len()
        invariant
            1 <= i <= sizes@.len(),
            best < i,
            best_area == area(sizes@[best as int]),
            forall|j: int| 0 <= j < i ==> area(#[trigger] sizes@[j]) <= area(sizes@[best as int]),
            forall|j: int| best < j < i ==> area(#[trigger] sizes@[j]) < area(sizes@[best as int]),
        decreases sizes.len() - i,
    {
        let a = area_of(sizes[i]);
        if a >= best_area {
            best = i;
            best_area = a;
        }
        i += 1;
    }
    Some(best)
}

/// Why an icon could not be loaded.
#[derive(Clone, Copy, Debug, PartialEq, Eq, Structural)]
pub enum IconLoadError {
    /// The bytes are not an icon file.
    Unreadable,
    /// The icon file has no images.
    NoEntries,
    /// The chosen image could not be decoded.
    Undecodable,
}

/// An image as RGBA pixels.
#[derive(Clone, Debug)]
pub struct IconPixels {
    pub rgba: Vec<u8>,
    pub width: u32,
    pub height: u32,
}

/// Reads an `.ico` file and decodes its largest image.
pub fn load_icon(bytes: &[u8]) -> (r: Result<IconPixels, IconLoadError>)
    ensures
        match ico_read_entries(bytes@) {
            None => r == Err::<IconPixels, IconLoadError>(IconLoadError::Unreadable),
            Some(es) => if es.len() == 0 {
                r == Err::<IconPixels, IconLoadError>(IconLoadError::NoEntries)
            } else {
                exists|i: int|
                    #[trigger] is_best_entry(entry_sizes(es), i) && if !decodable_size(es[i].0) {
                        r == Err::<IconPixels, IconLoadError>(IconLoadError::Undecodable)
                    } else {
                        match es[i].1 {
                            Some(px) => r matches Ok(p) && p.rgba@ == px && (p.width, p.height)
                                == es[i].0 && p.rgba@.len() == 4 * p.width * p.height,
                            None => r == Err::<IconPixels, IconLoadError>(IconLoadError::Undecodable),
                        }
                    }
            },
        },
{
    let dir = match ico_read(bytes) {
        Ok(d) => d,
        Err(_) => return Err(IconLoadError::Unreadable),
    };
    let sizes = ico_sizes(&dir);
    let best = match best_entry_index(&sizes) {
        Some(b) => b,
        None => return Err(IconLoadError::NoEntries),
    };
    if !is_decodable_size(sizes[best]) {
        return Err(IconLoadError::Undecodable);
    }
    match ico_decode(&dir, best) {
        Ok((rgba, width, height)) => Ok(IconPixels { rgba, width, height }),
        Err(_) => Err(IconLoadError::Undecodable),
    }
}

} // verus!
