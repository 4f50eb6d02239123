//! The texture atlas: packing source images into one rectangle and handing
//! out, per image, the pixel sub-rectangle that holds exactly its pixels.
//! The packer lays images left to right on shelves, opening a new shelf when
//! a row is full; it guarantees that every image gets an in-bounds rectangle
//! of its own size and that distinct rectangles never overlap.
use vstd::prelude::*;

use crate::resource::ResourceType;
use crate::text::str_eq;
use crate::AtlasError;

verus! {

/// The largest atlas edge the packer accepts, in pixels.
pub const MAX_ATLAS_DIM: u32 = 65536;

/// An atlas configuration as loaded from disk: which images to pack.
#[derive(Debug)]
pub struct Atlas {
    pub sources: Vec<AtlasSource>,
}

/// One source entry of an atlas configuration, naming images by resource
/// location.
#[derive(Debug)]
pub enum AtlasSource {
    /// A single image.
    Single { resource: String },
    /// Every image under a folder.
    Directory { source: String },
}

impl ResourceType for Atlas {
    open spec fn spec_prefix() -> Seq<char> {
        "atlases"@
    }

    open spec fn spec_extension() -> Seq<char> {
        "json"@
    }

    fn prefix() -> (s: &'static str) {
        "atlases"
    }

    fn extension() -> (s: &'static str) {
        "json"
    }
}

/// A pixel-space rectangle within the atlas.
#[derive(Clone, Copy, PartialEq, Eq, Structural, Debug)]
pub struct AtlasRect {
    pub x: u32,
    pub y: u32,
    pub w: u32,
    pub h: u32,
}

/// One image to pack: its identity and its pixel size.
#[derive(Debug)]
pub struct SourceImage {
    pub id: String,
    pub width: u32,
    pub height: u32,
}

/// Mathematical value of a [`SourceImage`].
pub struct SourceImageData {
    pub id: Seq<char>,
    pub width: u32,
    pub height: u32,
}

impl View for SourceImage {
    type V = SourceImageData;

    open spec fn view(&self) -> SourceImageData {
        SourceImageData { id: self.id@, width: self.width, height: self.height }
    }
}

/// The view of an image list.
pub open spec fn spec_images_view(s: Seq<SourceImage>) -> Seq<SourceImageData> {
    s.map_values(|img: SourceImage| img@)
}

/// The packed layout: the atlas size and, per image identity, the rectangle
/// that holds exactly that image's pixels. The rectangle normalized to
/// `[0,1]` texture space is `[x/width, (x+w)/width] x [y/height,
/// (y+h)/height]`.
#[derive(Debug)]
pub struct AtlasLayout {
    pub width: u32,
    pub height: u32,
    pub rects: Vec<(String, AtlasRect)>,
}

/// Mathematical value of an [`AtlasLayout`].
pub struct AtlasLayoutData {
    pub width: u32,
    pub height: u32,
    pub rects: Seq<(Seq<char>, AtlasRect)>,
}

impl View for AtlasLayout {
    type V = AtlasLayoutData;

    open spec fn view(&self) -> AtlasLayoutData {
        AtlasLayoutData {
            width: self.width,
            height: self.height,
            rects: self.rects@.map_values(|p: (String, AtlasRect)| (p.0@, p.1)),
        }
    }
}

/// First-match lookup of an image's rectangle.
pub open spec fn spec_layout_lookup(
    rects: Seq<(Seq<char>, AtlasRect)>,
    id: Seq<char>,
) -> Option<AtlasRect>
    decreases rects.len(),
{
    if rects.len() == 0 {
        None
    } else if rects[0].0 == id {
        Some(rects[0].1)
    } else {
        spec_layout_lookup(rects.drop_first(), id)
    }
}

/// The rectangle lies within an atlas of the given size.
pub open spec fn spec_rect_in_bounds(r: AtlasRect, width: u32, height: u32) -> bool {
    r.x + r.w <= width && r.y + r.h <= height
}

/// The two rectangles cover no pixel in common.
pub open spec fn spec_rects_disjoint(a: AtlasRect, b: AtlasRect) -> bool {
    ||| a.x + a.w <= b.x
    ||| b.x + b.w <= a.x
    ||| a.y + a.h <= b.y
    ||| b.y + b.h <= a.y
}

/// Well-formedness of a layout: the atlas is no larger than
/// [`MAX_ATLAS_DIM`] on a side and every rectangle lies within it.
pub open spec fn spec_layout_ok(l: AtlasLayoutData) -> bool {
    &&& l.width <= MAX_ATLAS_DIM
    &&& l.height <= MAX_ATLAS_DIM
    &&& forall|i: int|
        0 <= i < l.rects.len() ==> spec_rect_in_bounds(#[trigger] l.rects[i].1, l.width, l.height)
}

impl AtlasLayout {
    /// The rectangle packed for image `id`, if any.
    pub fn uv_rect(&self, id: &str) -> (r: Option<AtlasRect>)
        ensures
            r == spec_layout_lookup(self@.rects, id@),
    {
        proof {
            assert(self@.rects.skip(0) =~= self@.rects);
        }
        let mut i: usize = 0;
        while i < self.rects.len()
            invariant
                i <= self.rects@.len(),
                self@.rects.len() == self.rects@.len(),
                spec_layout_lookup(self@.rects, id@) == spec_layout_lookup(
                    self@.rects.skip(i as int),
                    id@,
                ),
            decreases self.rects@.len() - i,
        {
            proof {
                assert(self@.rects.skip(i as int)[0] == (self.rects@[i as int].0@, self.rects@[
                    i as int].1));
                assert(self@.rects.skip(i as int).drop_first() =~= self@.rects.skip(i as int + 1));
            }
            if str_eq(self.rects[i].0.as_str(), id) {
                return Some(self.rects[i].1);
            }
            i += 1;
        }
        None
    }
}

/// The shelf-packing of `images[i..]`, continued from pen position `(x, y)`
/// with the current shelf `shelf_h` tall: each image goes at the pen,
/// wrapping to a fresh shelf when the row is full, and packing fails with
/// `AtlasOverflow` exactly when an image is wider than the atlas or the
/// fresh shelf would run past its bottom.
pub open spec fn spec_pack_from(
    images: Seq<SourceImageData>,
    i: int,
    x: int,
    y: int,
    shelf_h: int,
    max_w: int,
    max_h: int,
) -> Result<Seq<(Seq<char>, AtlasRect)>, AtlasError>
    decreases images.len() - i,
{
    if i < 0 || i >= images.len() {
        Ok(Seq::empty())
    } else {
        let img = images[i];
        if img.width > max_w {
            Err(AtlasError::AtlasOverflow)
        } else {
            let px = if x + img.width > max_w {
                0
            } else {
                x
            };
            let py = if x + img.width > max_w {
                y + shelf_h
            } else {
                y
            };
            let psh = if x + img.width > max_w {
                0
            } else {
                shelf_h
            };
            if py + img.height > max_h {
                Err(AtlasError::AtlasOverflow)
            } else {
                let rect = AtlasRect {
                    x: px as u32,
                    y: py as u32,
                    w: img.width,
                    h: img.height,
                };
                let nsh = if img.height > psh {
                    img.height as int
                } else {
                    psh
                };
                match spec_pack_from(images, i + 1, px + img.width, py, nsh, max_w, max_h) {
                    Err(e) => Err(e),
                    Ok(rest) => Ok(seq![(img.id, rect)] + rest),
                }
            }
        }
    }
}

/// Exact shelf packing of the whole image list into a `max_w` by `max_h`
/// atlas.
pub open spec fn spec_pack(
    images: Seq<SourceImageData>,
    max_w: int,
    max_h: int,
) -> Result<Seq<(Seq<char>, AtlasRect)>, AtlasError> {
    spec_pack_from(images, 0, 0, 0, 0, max_w, max_h)
}

/// Packs the images into one `max_width` by `max_height` atlas. On success,
/// image `i` of the input owns rectangle `i` of the layout: same identity,
/// the image's own size, in bounds, and overlapping no other rectangle.
/// Fails with `AtlasOverflow` exactly when the shelf layout runs out of
/// room.
pub fn pack(images: &Vec<SourceImage>, max_width: u32, max_height: u32) -> (r: Result<
    AtlasLayout,
    AtlasError,
>)
    requires
        max_width <= MAX_ATLAS_DIM,
        max_height <= MAX_ATLAS_DIM,
    ensures
        match r {
            Ok(layout) => {
                &&& layout.width == max_width
                &&& layout.height == max_height
                &&& spec_pack(spec_images_view(images@), max_width as int, max_height as int)
                    == Ok::<_, AtlasError>(layout@.rects)
                &&& spec_layout_ok(layout@)
                &&& layout@.rects.len() == images@.len()
                &&& forall|i: int|
                    0 <= i < images@.len() ==> {
                        &&& (#[trigger] layout@.rects[i]).0 == images@[i]@.id
                        &&& layout@.rects[i].1.w == images@[i]@.width
                        &&& layout@.rects[i].1.h == images@[i]@.height
                    }
                &&& forall|i: int, j: int|
                    0 <= i < j < layout@.rects.len() ==> spec_rects_disjoint(
                        #[trigger] layout@.rects[i].1,
                        #[trigger] layout@.rects[j].1,
                    )
            },
            Err(e) => spec_pack(spec_images_view(images@), max_width as int, max_height as int)
                == Err::<Seq<(Seq<char>, AtlasRect)>, _>(e),
        },
{
    let ghost iv = spec_images_view(images@);
    let mut rects: Vec<(String, AtlasRect)> = Vec::new();
    let mut x: u32 = 0;
    let mut y: u32 = 0;
    let mut shelf_h: u32 = 0;
    let mut i: usize = 0;
    while i < images.len()
        invariant
            i <= images@.len(),
            iv == spec_images_view(images@),
            iv.len() == images@.len(),
            max_width <= MAX_ATLAS_DIM,
            max_height <= MAX_ATLAS_DIM,
            x <= max_width,
            y + shelf_h <= max_height,
            rects@.len() == i,
            spec_pack(iv, max_width as int, max_height as int) == (match spec_pack_from(
                iv,
                i as int,
                x as int,
                y as int,
                shelf_h as int,
                max_width as int,
                max_height as int,
            ) {
                Err(e) => Err(e),
                Ok(rest) => Ok(
                    rects@.map_values(|p: (String, AtlasRect)| (p.0@, p.1)) + rest,
                ),
            }),
            forall|k: int|
                0 <= k < i ==> {
                    &&& (#[trigger] rects@[k]).0@ == iv[k].id
                    &&& rects@[k].1.w == iv[k].width
                    &&& rects@[k].1.h == iv[k].height
                    &&& spec_rect_in_bounds(rects@[k].1, max_width, max_height)
                },
            forall|k: int|
                0 <= k < i ==> {
                    ||| (#[trigger] rects@[k]).1.y + rects@[k].1.h <= y
                    ||| (rects@[k].1.y == y && rects@[k].1.x + rects@[k].1.w <= x && rects@[k].1.y
                        + rects@[k].1.h <= y + shelf_h)
                },
            forall|k: int, l: int|
                0 <= k < l < i ==> spec_rects_disjoint(
                    #[trigger] rects@[k].1,
                    #[trigger] rects@[l].1,
                ),
        decreases images@.len() - i,
    {
        let ghost x0 = x as int;
        let ghost y0 = y as int;
        let ghost sh0 = shelf_h as int;
        let img_w = images[i].width;
        let img_h = images[i].height;
        proof {
            assert(iv[i as int] == images@[i as int]@);
        }
        if img_w > max_width {
            return Err(AtlasError::AtlasOverflow);
        }
        if x + img_w > max_width {
            y = y + shelf_h;
            x = 0;
            shelf_h = 0;
        }
        if img_h > max_height - y {
            return Err(AtlasError::AtlasOverflow);
        }
        let rect = AtlasRect { x, y, w: img_w, h: img_h };
        let entry = (images[i].id.clone(), rect);
        let ghost old_rects = rects@.map_values(|p: (String, AtlasRect)| (p.0@, p.1));
        rects.push(entry);
        let ghost nsh: int = if img_h > shelf_h {
            img_h as int
        } else {
            shelf_h as int
        };
        proof {
            let mw = max_width as int;
            let mh = max_height as int;
            let nxt = spec_pack_from(iv, i as int + 1, x as int + img_w as int, y as int, nsh, mw, mh);
            assert(spec_pack_from(iv, i as int, x0, y0, sh0, mw, mh) == (match nxt {
                Err(e) => Err(e),
                Ok(rest) => Ok(seq![(iv[i as int].id, rect)] + rest),
            }));
            assert(rects@.map_values(|p: (String, AtlasRect)| (p.0@, p.1)) =~= old_rects.push(
                (iv[i as int].id, rect),
            ));
            if nxt is Ok {
                assert(old_rects + (seq![(iv[i as int].id, rect)] + nxt->Ok_0) =~= old_rects.push(
                    (iv[i as int].id, rect),
                ) + nxt->Ok_0);
            }
        }
        x = x + img_w;
        if img_h > shelf_h {
            shelf_h = img_h;
        }
        i += 1;
    }
    let layout = AtlasLayout { width: max_width, height: max_height, rects };
    Ok(layout)
}

} // verus!
