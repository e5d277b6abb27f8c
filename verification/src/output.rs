//! Frames grouped into named animations, with the images that they show.
//!
//! Each frame that shows something is cut down to its image. Frames that
//! show the same image share it under one name, so that a packer of
//! textures gets each image once.

use vstd::prelude::*;
use ahash::{AHashMap, RandomState};
use bimap::BiHashMap;
use crate::binary::repeat::{lemma_views_empty, lemma_views_push, views};
use crate::hash_maps::{
    animation_entries, animations_insert, animations_new, layer_parameter_entries,
};
use crate::loader::{AsepriteFile, AsepriteFileView, LoadSpriteError};
use crate::make_image::{
    spec_combined_frame_image_cropped, spec_hitboxes, CroppedImage, CroppedImageView, Hitbox,
    LoadImageError,
};
use crate::pixels::{RgbaImage, RgbaImageView};
use crate::wrappers::{LayerParameter, LayerParameters, TagParameters, TagView};

verus! {

/// The image that a frame shows, by the name under which it was given out.
#[derive(Debug)]
pub struct ImageId {
    pub image_ref: String,
    /// Column and row of the canvas at which the top left pixel of the
    /// image lies.
    pub tl_offset: (i32, i32),
}

pub struct ImageIdView {
    pub image_ref: Seq<char>,
    pub tl_offset: (i32, i32),
}

impl View for ImageId {
    type V = ImageIdView;

    open spec fn view(&self) -> ImageIdView {
        ImageIdView { image_ref: self.image_ref@, tl_offset: self.tl_offset }
    }
}

impl Clone for ImageId {
    fn clone(&self) -> (copy: ImageId)
        ensures
            copy@ == self@,
    {
        ImageId { image_ref: self.image_ref.clone(), tl_offset: (self.tl_offset.0, self.tl_offset.1) }
    }
}

/// A frame of an animation.
#[derive(Debug)]
pub struct AnimFrame {
    /// In milliseconds.
    pub duration: u32,
    /// The image of the frame; none if the frame shows nothing.
    pub image_ids: Option<ImageId>,
    pub hitboxes: Vec<Hitbox>,
}

pub struct AnimFrameView {
    pub duration: u32,
    pub image_ids: Option<ImageIdView>,
    pub hitboxes: Seq<Hitbox>,
}

impl View for AnimFrame {
    type V = AnimFrameView;

    open spec fn view(&self) -> AnimFrameView {
        AnimFrameView {
            duration: self.duration,
            image_ids: match self.image_ids {
                Some(id) => Some(id@),
                None => None,
            },
            hitboxes: self.hitboxes@,
        }
    }
}

impl Clone for AnimFrame {
    fn clone(&self) -> (copy: AnimFrame)
        ensures
            copy@ == self@,
    {
        let mut hitboxes: Vec<Hitbox> = Vec::new();
        let mut i: usize = 0;
        while i < self.hitboxes.len()
            invariant
                i <= self.hitboxes@.len(),
                hitboxes@ == self.hitboxes@.take(i as int),
            decreases self.hitboxes@.len() - i,
        {
            hitboxes.push(self.hitboxes[i]);
            assert(self.hitboxes@.take(i + 1) =~= self.hitboxes@.take(i as int).push(
                self.hitboxes@[i as int],
            ));
            i += 1;
        }
        assert(self.hitboxes@.take(i as int) =~= self.hitboxes@);
        AnimFrame {
            duration: self.duration,
            image_ids: match &self.image_ids {
                Some(id) => Some(id.clone()),
                None => None,
            },
            hitboxes,
        }
    }
}

/// The frames of a tag.
#[derive(Debug)]
pub struct Animation {
    pub frames: Vec<AnimFrame>,
    pub actions: TagParameters,
}

pub struct AnimationView {
    pub frames: Seq<AnimFrameView>,
    /// Number of parameters of the tag.
    pub actions: nat,
}

impl View for Animation {
    type V = AnimationView;

    open spec fn view(&self) -> AnimationView {
        AnimationView { frames: views(self.frames@), actions: self.actions@.len() }
    }
}

/// The animations of a sprite by the names of its tags.
#[derive(Debug)]
pub struct AnimationSet {
    /// Width and height of the canvas.
    pub canvas_size: (u32, u32),
    /// The parameters of each layer.
    pub layer_parameters: Vec<LayerParameters>,
    pub animations: AHashMap<String, Animation, RandomState>,
}

pub struct AnimationSetView {
    pub canvas_size: (u32, u32),
    pub layer_parameters: Seq<Map<LayerParameter, Seq<char>>>,
    pub animations: Map<Seq<char>, AnimationView>,
}

impl View for AnimationSet {
    type V = AnimationSetView;

    open spec fn view(&self) -> AnimationSetView {
        AnimationSetView {
            canvas_size: self.canvas_size,
            layer_parameters: Seq::new(
                self.layer_parameters@.len(),
                |i: int| layer_parameter_entries(self.layer_parameters@[i]),
            ),
            animations: animation_entries(self.animations),
        }
    }
}

/// An image under the name that the frames of the animations know it by.
#[derive(Debug)]
pub struct NamedImage {
    pub name: String,
    pub image: RgbaImage,
}

impl View for NamedImage {
    type V = (Seq<char>, RgbaImageView);

    open spec fn view(&self) -> (Seq<char>, RgbaImageView) {
        (self.name@, self.image@)
    }
}

/// `bimap::BiHashMap`, as a type that is carried along and not looked
/// into.
#[verifier::external_type_specification]
#[verifier::external_body]
#[verifier::reject_recursive_types(L)]
#[verifier::reject_recursive_types(R)]
#[verifier::reject_recursive_types(LS)]
#[verifier::reject_recursive_types(RS)]
pub struct ExBiHashMap<L, R, LS, RS>(BiHashMap<L, R, LS, RS>);

/// What a map between names and images holds, as the name of each image.
pub uninterp spec fn image_names(map: BiHashMap<String, RgbaImage, RandomState, RandomState>) -> Map<
    RgbaImageView,
    Seq<char>,
>;

/// The names of the images once `name` and `image` are paired: the pair
/// takes the place of any pair that holds the name or the image.
pub open spec fn paired(names: Map<RgbaImageView, Seq<char>>, name: Seq<char>, image: RgbaImageView)
    -> Map<RgbaImageView, Seq<char>> {
    Map::new(
        |other: RgbaImageView| other == image || (names.dom().contains(other) && names[other] != name),
        |other: RgbaImageView|
            if other == image {
                name
            } else {
                names[other]
            },
    )
}

/// `BiHashMap::default`: a map that holds nothing.
#[verifier::external_body]
fn image_names_new() -> (map: BiHashMap<String, RgbaImage, RandomState, RandomState>)
    ensures
        image_names(map) == (Map::<RgbaImageView, Seq<char>>::empty()),
{
    BiHashMap::default()
}

/// `BiHashMap::get_by_right`: the name that is paired with `image`, if the
/// map holds the image.
#[verifier::external_body]
fn image_names_get(map: &BiHashMap<String, RgbaImage, RandomState, RandomState>, image: &RgbaImage) -> (name:
    Option<String>)
    ensures
        (name is Some) == image_names(*map).dom().contains(image@),
        name matches Some(found) ==> found@ == image_names(*map)[image@],
{
    map.get_by_right(image).cloned()
}

/// `BiHashMap::insert`: afterwards the map pairs `name` with `image`, and
/// holds no other pair with that name or that image.
#[verifier::external_body]
fn image_names_insert(
    map: &mut BiHashMap<String, RgbaImage, RandomState, RandomState>,
    name: String,
    image: RgbaImage,
)
    ensures
        image_names(*final(map)) == paired(image_names(*old(map)), name@, image@),
{
    map.insert(name, image);
}

/// The decimal digit for a number below ten.
pub open spec fn digit(d: nat) -> char {
    ((0x30 + d) as u8) as char
}

/// The decimal digits of a number, without a sign and without zeros in
/// front.
pub open spec fn decimal(n: nat) -> Seq<char>
    decreases n,
{
    if n < 10 {
        seq![digit(n)]
    } else {
        decimal(n / 10).push(digit(n % 10))
    }
}

/// The name of the image that frame number `index` is the first to show:
/// the base name, then the number of the frame.
pub open spec fn spec_frame_image_name(base_name: Seq<char>, index: nat) -> Seq<char> {
    base_name + decimal(index)
}

/// `format!`: the text of `base_name` followed by `index` in decimal
/// digits.
#[verifier::external_body]
fn frame_image_name(base_name: &str, index: usize) -> (name: String)
    ensures
        name@ == spec_frame_image_name(base_name@, index as nat),
{
    format!("{base_name}{index}")
}

/// What building the frames of the animations has come to.
pub struct Build {
    /// The name of each image that was given out.
    pub names: Map<RgbaImageView, Seq<char>>,
    /// The images that were given out, in their order.
    pub images: Seq<(Seq<char>, RgbaImageView)>,
    /// The frames so far.
    pub frames: Seq<AnimFrameView>,
}

/// What frame number `index` of the sprite adds: a frame of the animations
/// with its hitboxes, and, if the frame shows an image that no frame before
/// it showed, that image under a new name. A frame that shows nothing has no
/// image.
pub open spec fn add_frame(build: Build, sprite: AsepriteFileView, base_name: Seq<char>, index: int)
    -> Result<Build, LoadSpriteError> {
    let frame = sprite.frames[index];
    let hitboxes = spec_hitboxes(
        frame.cells,
        sprite.layers,
        sprite.images_decompressed,
        frame.cells.len() as int,
    );
    match spec_combined_frame_image_cropped(frame, sprite.layers, sprite.images_decompressed) {
        Err(LoadImageError::EmptyFrame) => Ok(
            Build {
                frames: build.frames.push(
                    AnimFrameView { duration: frame.duration, image_ids: None, hitboxes },
                ),
                ..build
            },
        ),
        Err(reason) => Err(LoadSpriteError::Frame { index: index as usize, reason }),
        Ok(cropped) => {
            let known = build.names.dom().contains(cropped.img);
            let name = if known {
                build.names[cropped.img]
            } else {
                spec_frame_image_name(base_name, index as nat)
            };
            Ok(
                Build {
                    names: if known {
                        build.names
                    } else {
                        paired(build.names, name, cropped.img)
                    },
                    images: if known {
                        build.images
                    } else {
                        build.images.push((name, cropped.img))
                    },
                    frames: build.frames.push(
                        AnimFrameView {
                            duration: frame.duration,
                            image_ids: Some(
                                ImageIdView {
                                    image_ref: name,
                                    tl_offset: (cropped.displacement_x, cropped.displacement_y),
                                },
                            ),
                            hitboxes,
                        },
                    ),
                },
            )
        },
    }
}

/// What the first `n` frames of the sprite add.
pub open spec fn add_frames(sprite: AsepriteFileView, base_name: Seq<char>, n: int) -> Result<
    Build,
    LoadSpriteError,
>
    decreases n,
{
    if n <= 0 {
        Ok(Build { names: Map::empty(), images: Seq::empty(), frames: Seq::empty() })
    } else {
        match add_frames(sprite, base_name, n - 1) {
            Err(e) => Err(e),
            Ok(build) => add_frame(build, sprite, base_name, n - 1),
        }
    }
}

/// The animations of the first `n` tags: under the name of each tag the
/// frames from its first to its last. A later tag takes the place of an
/// earlier one of the same name. A tag that runs backwards or beyond the
/// frames is a failure.
pub open spec fn animations_of(tags: Seq<TagView>, frames: Seq<AnimFrameView>, n: int) -> Result<
    Map<Seq<char>, AnimationView>,
    LoadSpriteError,
>
    decreases n,
{
    if n <= 0 {
        Ok(Map::empty())
    } else {
        match animations_of(tags, frames, n - 1) {
            Err(e) => Err(e),
            Ok(animations) => {
                let range = tags[n - 1].chunk.frames;
                if range.1 >= frames.len() {
                    Err(LoadSpriteError::FrameIndexOutOfRange(range.1 as usize))
                } else if range.0 > range.1 {
                    Err(LoadSpriteError::FrameIndexOutOfRange(range.0 as usize))
                } else {
                    Ok(
                        animations.insert(
                            tags[n - 1].chunk.name,
                            AnimationView {
                                frames: frames.subrange(range.0 as int, range.1 + 1),
                                actions: 0,
                            },
                        ),
                    )
                }
            },
        }
    }
}

/// The animations of a sprite, and the images that their frames show, each
/// once and in the order in which the frames first show them.
pub open spec fn spec_animation_set(sprite: AsepriteFileView, base_name: Seq<char>) -> Result<
    (AnimationSetView, Seq<(Seq<char>, RgbaImageView)>),
    LoadSpriteError,
> {
    match add_frames(sprite, base_name, sprite.frames.len() as int) {
        Err(e) => Err(e),
        Ok(build) => match animations_of(sprite.tags, build.frames, sprite.tags.len() as int) {
            Err(e) => Err(e),
            Ok(animations) => Ok(
                (
                    AnimationSetView {
                        canvas_size: (sprite.header.width as u32, sprite.header.height as u32),
                        layer_parameters: Seq::new(
                            sprite.layers.len(),
                            |i: int| sprite.layers[i].parameters,
                        ),
                        animations,
                    },
                    build.images,
                ),
            ),
        },
    }
}

/// A failure on the way to the animations of some tags is the failure of
/// all the tags.
proof fn lemma_animations_fail(tags: Seq<TagView>, frames: Seq<AnimFrameView>, n: int, m: int)
    requires
        0 <= n <= m,
        animations_of(tags, frames, n) is Err,
    ensures
        animations_of(tags, frames, m) == animations_of(tags, frames, n),
    decreases m - n,
{
    if n < m {
        lemma_animations_fail(tags, frames, n, m - 1);
    }
}

/// A failure on the way through some frames is the failure of all the
/// frames.
proof fn lemma_frames_fail(sprite: AsepriteFileView, base_name: Seq<char>, n: int, m: int)
    requires
        0 <= n <= m,
        add_frames(sprite, base_name, n) is Err,
    ensures
        add_frames(sprite, base_name, m) == add_frames(sprite, base_name, n),
    decreases m - n,
{
    if n < m {
        lemma_frames_fail(sprite, base_name, n, m - 1);
    }
}

/// The frames of the animations from number `from` to number `to`.
fn copy_frames(frames: &Vec<AnimFrame>, from: usize, to: usize) -> (copy: Vec<AnimFrame>)
    requires
        from <= to < frames@.len(),
    ensures
        views(copy@) == views(frames@).subrange(from as int, to + 1),
{
    let mut copy: Vec<AnimFrame> = Vec::new();
    let mut i: usize = from;
    let _ = frames.len();
    proof {
        lemma_views_empty::<AnimFrame>();
        assert(views(frames@).subrange(from as int, from as int) =~= Seq::<AnimFrameView>::empty());
    }
    while i <= to
        invariant
            from <= i <= to + 1,
            to < frames@.len(),
            frames@.len() <= usize::MAX,
            views(copy@) == views(frames@).subrange(from as int, i as int),
        decreases to + 1 - i,
    {
        let frame = frames[i].clone();
        proof {
            lemma_views_push(copy@, frame);
            assert(views(frames@).subrange(from as int, i + 1) =~= views(frames@).subrange(
                from as int,
                i as int,
            ).push(frames@[i as int]@));
        }
        copy.push(frame);
        i += 1;
    }
    copy
}

impl AnimationSet {
    /// Builds the animations of a sprite. Each frame that shows something is
    /// cut down to its image; the images are handed back beside the
    /// animations, each once and under the name by which the frames know it,
    /// for a packer of textures to take in that order. The image that frame
    /// number `n` is the first to show is named `base_name` followed by `n`.
    pub fn from_ase(file: AsepriteFile<'_>, base_name: &str) -> (r: Result<
        (AnimationSet, Vec<NamedImage>),
        LoadSpriteError,
    >)
        requires
            file@.wf(),
        ensures
            match r {
                Ok(built) => spec_animation_set(file@, base_name@) == Ok::<
                    (AnimationSetView, Seq<(Seq<char>, RgbaImageView)>),
                    LoadSpriteError,
                >((built.0@, views(built.1@))),
                Err(e) => spec_animation_set(file@, base_name@) == Err::<
                    (AnimationSetView, Seq<(Seq<char>, RgbaImageView)>),
                    LoadSpriteError,
                >(e),
            },
    {
        let ghost sprite = file@;
        let mut names = image_names_new();
        let mut images: Vec<NamedImage> = Vec::new();
        let mut anim_frames: Vec<AnimFrame> = Vec::new();
        let mut index: usize = 0;
        proof {
            lemma_views_empty::<NamedImage>();
            lemma_views_empty::<AnimFrame>();
        }
        while index < file.frames.len()
            invariant
                index <= file.frames@.len(),
                sprite == file@,
                sprite.wf(),
                add_frames(sprite, base_name@, index as int) == Ok::<Build, LoadSpriteError>(
                    Build {
                        names: image_names(names),
                        images: views(images@),
                        frames: views(anim_frames@),
                    },
                ),
            decreases file.frames@.len() - index,
        {
            let frame = &file.frames[index];
            assert(sprite.frames[index as int] == frame@);
            let hitboxes = frame.hitboxes(
                file.layers.as_slice(),
                file.images_decompressed.as_slice(),
            );
            let image_ids = match frame.combined_frame_image_cropped(
                file.layers.as_slice(),
                file.images_decompressed.as_slice(),
            ) {
                Err(LoadImageError::EmptyFrame) => None,
                Err(reason) => {
                    proof {
                        lemma_frames_fail(sprite, base_name@, index + 1, sprite.frames.len() as int);
                    }
                    return Err(LoadSpriteError::Frame { index, reason });
                },
                Ok(cropped) => {
                    let tl_offset = (cropped.displacement_x, cropped.displacement_y);
                    let image_ref = match image_names_get(&names, &cropped.img) {
                        Some(name) => name,
                        None => {
                            let name = frame_image_name(base_name, index);
                            let named = NamedImage { name: name.clone(), image: cropped.img.clone() };
                            proof {
                                lemma_views_push(images@, named);
                            }
                            images.push(named);
                            image_names_insert(&mut names, name.clone(), cropped.img);
                            name
                        },
                    };
                    Some(ImageId { image_ref, tl_offset })
                },
            };
            let anim_frame = AnimFrame { duration: frame.duration, image_ids, hitboxes };
            proof {
                lemma_views_push(anim_frames@, anim_frame);
            }
            anim_frames.push(anim_frame);
            index += 1;
        }
        let ghost build = Build {
            names: image_names(names),
            images: views(images@),
            frames: views(anim_frames@),
        };
        let mut animations = animations_new();
        let mut n: usize = 0;
        while n < file.tags.len()
            invariant
                n <= file.tags@.len(),
                sprite == file@,
                build.frames == views(anim_frames@),
                add_frames(sprite, base_name@, sprite.frames.len() as int) == Ok::<
                    Build,
                    LoadSpriteError,
                >(build),
                animations_of(sprite.tags, build.frames, n as int) == Ok::<
                    Map<Seq<char>, AnimationView>,
                    LoadSpriteError,
                >(animation_entries(animations)),
            decreases file.tags@.len() - n,
        {
            let tag = &file.tags[n];
            assert(sprite.tags[n as int] == tag@);
            let from = tag.chunk.frames.0 as usize;
            let to = tag.chunk.frames.1 as usize;
            if to >= anim_frames.len() {
                proof {
                    lemma_animations_fail(sprite.tags, build.frames, n + 1, sprite.tags.len() as int);
                }
                return Err(LoadSpriteError::FrameIndexOutOfRange(to));
            }
            if from > to {
                proof {
                    lemma_animations_fail(sprite.tags, build.frames, n + 1, sprite.tags.len() as int);
                }
                return Err(LoadSpriteError::FrameIndexOutOfRange(from));
            }
            let animation = Animation {
                frames: copy_frames(&anim_frames, from, to),
                actions: tag.user_data.parse_text_as_tag_parameters(),
            };
            animations_insert(&mut animations, tag.chunk.name.to_owned(), animation);
            n += 1;
        }
        let canvas_size = (file.header.width as u32, file.header.height as u32);
        let mut layers = file.layers;
        let ghost all = views(layers@);
        let mut reversed: Vec<LayerParameters> = Vec::new();
        while layers.len() > 0
            invariant
                layers@.len() <= all.len(),
                reversed@.len() == all.len() - layers@.len(),
                forall|i: int| 0 <= i < layers@.len() ==> (#[trigger] layers@[i])@ == all[i],
                forall|i: int|
                    0 <= i < reversed@.len() ==> layer_parameter_entries(#[trigger] reversed@[i])
                        == all[all.len() - 1 - i].parameters,
            decreases layers@.len(),
        {
            match layers.pop() {
                Some(layer) => {
                    reversed.push(layer.parameters);
                },
                None => {},
            }
        }
        let mut layer_parameters: Vec<LayerParameters> = Vec::new();
        while reversed.len() > 0
            invariant
                reversed@.len() <= all.len(),
                layer_parameters@.len() == all.len() - reversed@.len(),
                forall|i: int|
                    0 <= i < reversed@.len() ==> layer_parameter_entries(#[trigger] reversed@[i])
                        == all[all.len() - 1 - i].parameters,
                forall|i: int|
                    0 <= i < layer_parameters@.len() ==> layer_parameter_entries(
                        #[trigger] layer_parameters@[i],
                    ) == all[i].parameters,
            decreases reversed@.len(),
        {
            match reversed.pop() {
                Some(parameters) => {
                    layer_parameters.push(parameters);
                },
                None => {},
            }
        }
        let set = AnimationSet { canvas_size, layer_parameters, animations };
        proof {
            assert(set@.layer_parameters =~= Seq::new(
                sprite.layers.len(),
                |i: int| sprite.layers[i].parameters,
            ));
        }
        Ok((set, images))
    }
}

/// The images of the first `n` frames, each once, in the order in which
/// the frames first show them. Frames that show nothing add none.
pub open spec fn distinct_frame_images(sprite: AsepriteFileView, n: int) -> Result<
    Seq<CroppedImageView>,
    LoadSpriteError,
>
    decreases n,
{
    if n <= 0 {
        Ok(Seq::empty())
    } else {
        match distinct_frame_images(sprite, n - 1) {
            Err(e) => Err(e),
            Ok(images) => match spec_combined_frame_image_cropped(
                sprite.frames[n - 1],
                sprite.layers,
                sprite.images_decompressed,
            ) {
                Err(LoadImageError::EmptyFrame) => Ok(images),
                Err(reason) => Err(LoadSpriteError::Frame { index: (n - 1) as usize, reason }),
                Ok(cropped) => if images.contains(cropped) {
                    Ok(images)
                } else {
                    Ok(images.push(cropped))
                },
            },
        }
    }
}

proof fn lemma_distinct_fail(sprite: AsepriteFileView, n: int, m: int)
    requires
        0 <= n <= m,
        distinct_frame_images(sprite, n) is Err,
    ensures
        distinct_frame_images(sprite, m) == distinct_frame_images(sprite, n),
    decreases m - n,
{
    if n < m {
        lemma_distinct_fail(sprite, n, m - 1);
    }
}

impl CroppedImage {
    /// Whether the two images are the same and lie at the same place.
    pub fn same(&self, other: &CroppedImage) -> (same: bool)
        ensures
            same == (self@ == other@),
    {
        self.displacement_x == other.displacement_x && self.displacement_y == other.displacement_y
            && self.img.same(&other.img)
    }
}

impl AsepriteFile<'_> {
    /// The images of the frames, each cut down to what it shows, each once,
    /// in the order in which the frames first show them. This is what goes
    /// on a sheet of the sprite.
    pub fn distinct_frame_images(&self) -> (r: Result<Vec<CroppedImage>, LoadSpriteError>)
        requires
            self@.wf(),
        ensures
            match r {
                Ok(images) => distinct_frame_images(self@, self@.frames.len() as int) == Ok::<
                    Seq<CroppedImageView>,
                    LoadSpriteError,
                >(views(images@)),
                Err(e) => distinct_frame_images(self@, self@.frames.len() as int) == Err::<
                    Seq<CroppedImageView>,
                    LoadSpriteError,
                >(e),
            },
    {
        let mut images: Vec<CroppedImage> = Vec::new();
        let mut index: usize = 0;
        proof {
            lemma_views_empty::<CroppedImage>();
        }
        while index < self.frames.len()
            invariant
                index <= self.frames@.len(),
                self@.wf(),
                distinct_frame_images(self@, index as int) == Ok::<
                    Seq<CroppedImageView>,
                    LoadSpriteError,
                >(views(images@)),
            decreases self.frames@.len() - index,
        {
            let frame = &self.frames[index];
            assert(self@.frames[index as int] == frame@);
            match frame.combined_frame_image_cropped(
                self.layers.as_slice(),
                self.images_decompressed.as_slice(),
            ) {
                Err(LoadImageError::EmptyFrame) => {},
                Err(reason) => {
                    proof {
                        lemma_distinct_fail(self@, index + 1, self@.frames.len() as int);
                    }
                    return Err(LoadSpriteError::Frame { index, reason });
                },
                Ok(cropped) => {
                    let mut known = false;
                    let mut i: usize = 0;
                    while i < images.len() && !known
                        invariant
                            i <= images@.len(),
                            known ==> views(images@).contains(cropped@),
                            !known ==> forall|k: int|
                                0 <= k < i ==> (#[trigger] views(images@)[k]) != cropped@,
                        decreases images@.len() - i + if known { 0int } else { 1int },
                    {
                        if images[i].same(&cropped) {
                            assert(views(images@)[i as int] == cropped@);
                            known = true;
                        } else {
                            assert(views(images@)[i as int] == images@[i as int]@);
                            i += 1;
                        }
                    }
                    if !known {
                        proof {
                            lemma_views_push(images@, cropped);
                        }
                        images.push(cropped);
                    }
                },
            }
            index += 1;
        }
        Ok(images)
    }
}

/// Twice the offset from the center of the canvas to the center of a
/// sprite of the size `sprite_size` whose top left pixel lies at `tl_offset`
/// of the canvas. The center of a canvas of odd size is taken half a pixel
/// further right and down, so that the corners of the sprite fall on whole
/// pixels whatever the sizes are.
pub open spec fn spec_tl_offset_to_centered_doubled(
    tl_offset: (i32, i32),
    sprite_size: (u32, u32),
    canvas_size: (u32, u32),
) -> (int, int) {
    (
        (canvas_size.0 + canvas_size.0 % 2) - (2 * tl_offset.0 + sprite_size.0),
        (canvas_size.1 + canvas_size.1 % 2) - (2 * tl_offset.1 + sprite_size.1),
    )
}

/// Twice the offset from the center of the canvas to the center of a
/// sprite, in pixels.
pub fn tl_offset_to_centered_doubled(
    tl_offset: (i32, i32),
    sprite_size: (u32, u32),
    canvas_size: (u32, u32),
) -> (doubled: (i64, i64))
    ensures
        (doubled.0 as int, doubled.1 as int) == spec_tl_offset_to_centered_doubled(
            tl_offset,
            sprite_size,
            canvas_size,
        ),
{
    let x: i64 = (canvas_size.0 as i64 + (canvas_size.0 % 2) as i64) - (2 * tl_offset.0 as i64
        + sprite_size.0 as i64);
    let y: i64 = (canvas_size.1 as i64 + (canvas_size.1 % 2) as i64) - (2 * tl_offset.1 as i64
        + sprite_size.1 as i64);
    (x, y)
}

/// The left edge and the top edge of a centered sprite fall on whole pixels:
/// twice the offset to the center plus the size of the sprite is even.
pub proof fn lemma_no_half_pixel_vertices(
    tl_offset: (i32, i32),
    sprite_size: (u32, u32),
    canvas_size: (u32, u32),
)
    ensures
        (spec_tl_offset_to_centered_doubled(tl_offset, sprite_size, canvas_size).0 + sprite_size.0)
            % 2 == 0,
        (spec_tl_offset_to_centered_doubled(tl_offset, sprite_size, canvas_size).1 + sprite_size.1)
            % 2 == 0,
{
}

} // verus!
