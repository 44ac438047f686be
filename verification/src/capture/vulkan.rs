//! The bookkeeping around buffers that the graphics card imports: which device
//! and memory to use, which images are kept, and which submission is waited for.

use vstd::prelude::*;
use vstd::string::*;

use crate::capture::format::{supported, supported_formats, GpuFormat, VideoFormat};
use crate::error::FerricastError;
use crate::media::PixelFormat;
use crate::text::{join2, str_eq};

verus! {

/// The bit of a queue family that can transfer.
pub const QUEUE_TRANSFER: u32 = 0x4;

/// The bit of a queue family that can draw.
pub const QUEUE_GRAPHICS: u32 = 0x1;

/// The bit of a format that can be copied from.
pub const FEATURE_TRANSFER_SRC: u32 = 0x4000;

/// Whether every bit of `flag` is in `flags`.
pub open spec fn has_flag(flags: u32, flag: u32) -> bool {
    flags & flag == flag
}

/// Whether `i` is the place of the first element with the bits.
pub open spec fn is_first(flags: Seq<u32>, flag: u32, i: int) -> bool {
    &&& 0 <= i < flags.len()
    &&& has_flag(flags[i], flag)
    &&& forall|j: int| 0 <= j < i ==> !has_flag(#[trigger] flags[j], flag)
}

fn find_flag(flags: &[u32], flag: u32) -> (at: Option<usize>)
    ensures
        match at {
            Some(i) => is_first(flags@, flag, i as int),
            None => forall|j: int| 0 <= j < flags@.len() ==> !has_flag(#[trigger] flags@[j], flag),
        },
{
    let mut i: usize = 0;
    while i < flags.len()
        invariant
            i <= flags@.len(),
            forall|j: int| 0 <= j < i ==> !has_flag(#[trigger] flags@[j], flag),
        decreases flags@.len() - i,
    {
        if flags[i] & flag == flag {
            return Some(i);
        }
        i = i + 1;
    }
    None
}

/// Whether a device can be used by its queues: `i` is the first family that can
/// transfer, or the first that can draw where none can transfer.
pub open spec fn is_queue_choice(families: Seq<u32>, i: int) -> bool {
    if exists|j: int| 0 <= j < families.len() && has_flag(#[trigger] families[j], QUEUE_TRANSFER) {
        is_first(families, QUEUE_TRANSFER, i)
    } else {
        is_first(families, QUEUE_GRAPHICS, i)
    }
}

/// The queue family to copy with: the first that can transfer, else the first
/// that can draw.
pub fn pick_queue_family(families: &[u32]) -> (at: Option<usize>)
    ensures
        match at {
            Some(i) => is_queue_choice(families@, i as int),
            None => forall|j: int|
                0 <= j < families@.len() ==> !has_flag(#[trigger] families@[j], QUEUE_TRANSFER)
                    && !has_flag(families@[j], QUEUE_GRAPHICS),
        },
{
    match find_flag(families, QUEUE_TRANSFER) {
        Some(i) => Some(i),
        None => find_flag(families, QUEUE_GRAPHICS),
    }
}

/// A graphics card: its extensions and its queue families.
pub struct PhysicalDevice {
    pub extensions: Vec<String>,
    pub families: Vec<u32>,
}

/// Whether the names hold `name`.
pub open spec fn names_hold(names: Seq<String>, name: Seq<char>) -> bool {
    exists|i: int| 0 <= i < names.len() && (#[trigger] names[i])@ == name
}

/// The extensions without which a shared buffer cannot be imported.
pub open spec fn required_extensions() -> Seq<Seq<char>> {
    seq![
        "VK_KHR_external_memory_fd"@,
        "VK_EXT_external_memory_dma_buf"@,
        "VK_EXT_image_drm_format_modifier"@,
        "VK_KHR_external_memory"@,
        "VK_KHR_get_memory_requirements2"@,
        "VK_EXT_queue_family_foreign"@,
    ]
}

/// Whether a card has every extension that is needed.
pub open spec fn has_required(device: PhysicalDevice) -> bool {
    forall|k: int|
        0 <= k < required_extensions().len() ==> names_hold(
            device.extensions@,
            #[trigger] required_extensions()[k],
        )
}

/// Whether a card has a queue that can copy.
pub open spec fn has_queue(families: Seq<u32>) -> bool {
    exists|j: int|
        0 <= j < families.len() && (has_flag(#[trigger] families[j], QUEUE_TRANSFER) || has_flag(
            families[j],
            QUEUE_GRAPHICS,
        ))
}

/// Whether a card can import shared buffers.
pub open spec fn is_usable(device: PhysicalDevice) -> bool {
    has_required(device) && has_queue(device.families@)
}

fn holds_name(names: &Vec<String>, name: &str) -> (held: bool)
    ensures
        held == names_hold(names@, name@),
{
    let mut i: usize = 0;
    while i < names.len()
        invariant
            i <= names@.len(),
            forall|j: int| 0 <= j < i ==> (#[trigger] names@[j])@ != name@,
        decreases names@.len() - i,
    {
        if str_eq(names[i].as_str(), name) {
            return true;
        }
        i = i + 1;
    }
    false
}

/// Whether a card has every extension that is needed.
pub fn device_supports_required_extensions(device: &PhysicalDevice) -> (ok: bool)
    ensures
        ok == has_required(*device),
{
    let names = &device.extensions;
    let a: bool = holds_name(names, "VK_KHR_external_memory_fd");
    let b: bool = holds_name(names, "VK_EXT_external_memory_dma_buf");
    let c: bool = holds_name(names, "VK_EXT_image_drm_format_modifier");
    let d: bool = holds_name(names, "VK_KHR_external_memory");
    let e: bool = holds_name(names, "VK_KHR_get_memory_requirements2");
    let f: bool = holds_name(names, "VK_EXT_queue_family_foreign");
    proof {
        let r = required_extensions();
        assert(r[0] == "VK_KHR_external_memory_fd"@);
        assert(r[1] == "VK_EXT_external_memory_dma_buf"@);
        assert(r[2] == "VK_EXT_image_drm_format_modifier"@);
        assert(r[3] == "VK_KHR_external_memory"@);
        assert(r[4] == "VK_KHR_get_memory_requirements2"@);
        assert(r[5] == "VK_EXT_queue_family_foreign"@);
    }
    a && b && c && d && e && f
}

/// The first card that can import shared buffers, and its queue family.
pub fn pick_physical_device(devices: &[PhysicalDevice]) -> (out: Result<
    (usize, usize),
    FerricastError,
>)
    ensures
        match out {
            Ok(choice) => {
                &&& choice.0 < devices@.len()
                &&& is_usable(devices@[choice.0 as int])
                &&& is_queue_choice(devices@[choice.0 as int].families@, choice.1 as int)
                &&& forall|j: int| 0 <= j < choice.0 ==> !is_usable(#[trigger] devices@[j])
            },
            Err(e) => if devices@.len() == 0 {
                e.is_capture("Vulkan: no physical devices"@)
            } else {
                &&& forall|j: int| 0 <= j < devices@.len() ==> !is_usable(#[trigger] devices@[j])
                &&& e.is_capture("Vulkan: no physical device supports dmabuf import"@)
            },
        },
{
    if devices.len() == 0 {
        return Err(FerricastError::Capture("Vulkan: no physical devices".to_owned()));
    }
    let mut i: usize = 0;
    while i < devices.len()
        invariant
            i <= devices@.len(),
            forall|j: int| 0 <= j < i ==> !is_usable(#[trigger] devices@[j]),
        decreases devices@.len() - i,
    {
        if device_supports_required_extensions(&devices[i]) {
            match pick_queue_family(devices[i].families.as_slice()) {
                Some(q) => {
                    proof {
                        let families = devices@[i as int].families@;
                        assert(has_flag(families[q as int], QUEUE_TRANSFER) || has_flag(
                            families[q as int],
                            QUEUE_GRAPHICS,
                        ));
                        assert(has_queue(families));
                    }
                    return Ok((i, q));
                },
                None => {},
            }
        }
        i = i + 1;
    }
    Err(FerricastError::Capture("Vulkan: no physical device supports dmabuf import".to_owned()))
}

/// A modifier that the graphics card offers, and how many planes it takes.
#[derive(Clone, Copy, Debug, PartialEq, Eq, Structural)]
pub struct ModifierCaps {
    pub modifier: u64,
    pub plane_count: u32,
}

/// A modifier as the driver lists it.
#[derive(Clone, Copy, Debug, PartialEq, Eq, Structural)]
pub struct ModifierProperties {
    pub modifier: u64,
    pub plane_count: u32,
    pub features: u32,
}

/// The listed modifiers that can be copied from, in their order.
pub open spec fn copyable(listed: Seq<ModifierProperties>) -> Seq<ModifierCaps>
    decreases listed.len(),
{
    if listed.len() == 0 {
        Seq::empty()
    } else {
        let p = listed.last();
        if has_flag(p.features, FEATURE_TRANSFER_SRC) {
            copyable(listed.drop_last()).push(
                ModifierCaps { modifier: p.modifier, plane_count: p.plane_count },
            )
        } else {
            copyable(listed.drop_last())
        }
    }
}

/// The listed modifiers that can be copied from, in their order.
pub fn copyable_modifiers(listed: &[ModifierProperties]) -> (out: Vec<ModifierCaps>)
    ensures
        out@ == copyable(listed@),
{
    let mut out: Vec<ModifierCaps> = Vec::new();
    let mut i: usize = 0;
    while i < listed.len()
        invariant
            i <= listed@.len(),
            out@ == copyable(listed@.take(i as int)),
        decreases listed@.len() - i,
    {
        assert(listed@.take(i + 1).drop_last() =~= listed@.take(i as int));
        let p: ModifierProperties = listed[i];
        if p.features & FEATURE_TRANSFER_SRC == FEATURE_TRANSFER_SRC {
            out.push(ModifierCaps { modifier: p.modifier, plane_count: p.plane_count });
        }
        i = i + 1;
    }
    assert(listed@.take(listed@.len() as int) =~= listed@);
    out
}

/// Whether the memory type of place `i` is allowed and has the properties.
pub open spec fn memory_fits(types: Seq<u32>, type_bits: u32, required: u32, i: int) -> bool {
    type_bits & (1u32 << i as u32) != 0 && has_flag(types[i], required)
}

/// The first memory type that is allowed and has the properties.
pub fn pick_memory_type(types: &[u32], type_bits: u32, required: u32) -> (at: Option<u32>)
    requires
        types@.len() <= 32,
    ensures
        match at {
            Some(i) => {
                &&& i < types@.len()
                &&& memory_fits(types@, type_bits, required, i as int)
                &&& forall|j: int|
                    0 <= j < i ==> !(#[trigger] memory_fits(types@, type_bits, required, j))
            },
            None => forall|j: int|
                0 <= j < types@.len() ==> !(#[trigger] memory_fits(
                    types@,
                    type_bits,
                    required,
                    j,
                )),
        },
{
    let mut i: u32 = 0;
    while (i as usize) < types.len()
        invariant
            i <= types@.len() <= 32,
            forall|j: int|
                0 <= j < i ==> !(#[trigger] memory_fits(types@, type_bits, required, j)),
        decreases types@.len() - i,
    {
        if type_bits & (1u32 << i) != 0 && types[i as usize] & required == required {
            return Some(i);
        }
        i = i + 1;
    }
    None
}

/// Which buffer a descriptor stands for: every copy of the descriptor has the
/// same device and inode number.
#[derive(Clone, Copy, Debug, PartialEq, Eq, Structural)]
pub struct BufferId {
    pub dev: u64,
    pub ino: u64,
}

/// What an imported image looks like.
#[derive(Clone, Copy, Debug, PartialEq, Eq, Structural)]
pub struct ImageShape {
    pub width: u32,
    pub height: u32,
    pub format: u32,
    pub modifier: u64,
}

/// An imported image: its shape and its handle.
#[derive(Clone, Copy, Debug, PartialEq, Eq, Structural)]
pub struct ImportedImage {
    pub key: BufferId,
    pub shape: ImageShape,
    pub handle: u64,
}

/// How many imported images are kept.
pub const MAX_IMPORT_CACHE: usize = 16;

/// The imported images, oldest first.
pub struct ImportCache {
    images: Vec<ImportedImage>,
}

/// What the cache says of a buffer.
#[derive(Clone, Copy, Debug, PartialEq, Eq, Structural)]
pub enum CacheLookup {
    /// The image is there in this shape.
    Hit(u64),
    /// An image of the buffer is there in another shape, and has to go.
    Stale(u64),
    /// The buffer has not been imported.
    Miss,
}

/// Whether no buffer has two images.
pub open spec fn one_image_each(images: Seq<ImportedImage>) -> bool {
    forall|i: int, j: int|
        0 <= i < images.len() && 0 <= j < images.len() && images[i].key == images[j].key ==> i == j
}

/// Whether the images hold one of the buffer.
pub open spec fn holds_buffer(images: Seq<ImportedImage>, key: BufferId) -> bool {
    exists|i: int| 0 <= i < images.len() && (#[trigger] images[i]).key == key
}

/// Whether the image with the handle is one of the buffer in another shape.
pub open spec fn holds_other_shape(
    images: Seq<ImportedImage>,
    key: BufferId,
    shape: ImageShape,
    handle: u64,
) -> bool {
    exists|i: int|
        0 <= i < images.len() && (#[trigger] images[i]).key == key && images[i].shape != shape
            && images[i].handle == handle
}

/// The images without that of the buffer.
pub open spec fn without_buffer(images: Seq<ImportedImage>, key: BufferId) -> Seq<ImportedImage>
    decreases images.len(),
{
    if images.len() == 0 {
        Seq::empty()
    } else if images.last().key == key {
        without_buffer(images.drop_last(), key)
    } else {
        without_buffer(images.drop_last(), key).push(images.last())
    }
}

proof fn lemma_without(images: Seq<ImportedImage>, key: BufferId)
    ensures
        !holds_buffer(images, key) ==> without_buffer(images, key) == images,
        !holds_buffer(without_buffer(images, key), key),
        without_buffer(images, key).len() <= images.len(),
        forall|j: int|
            0 <= j < without_buffer(images, key).len() ==> holds_buffer(
                images,
                (#[trigger] without_buffer(images, key)[j]).key,
            ),
        one_image_each(images) ==> one_image_each(without_buffer(images, key)),
    decreases images.len(),
{
    if images.len() > 0 {
        let rest = images.drop_last();
        let w = without_buffer(images, key);
        let wr = without_buffer(rest, key);
        lemma_without(rest, key);
        assert(forall|k: BufferId| #[trigger] holds_buffer(rest, k) ==> holds_buffer(images, k))
            by {
            assert forall|k: BufferId| #[trigger] holds_buffer(rest, k) implies holds_buffer(
                images,
                k,
            ) by {
                let i = choose|i: int| 0 <= i < rest.len() && (#[trigger] rest[i]).key == k;
                assert(images[i].key == k);
            }
        }
        assert(images[images.len() - 1].key == images.last().key);
        assert(holds_buffer(images, images.last().key));
        if !holds_buffer(images, key) {
            assert(!holds_buffer(rest, key));
            assert(w =~= images);
        }
        if one_image_each(images) {
            assert(one_image_each(rest)) by {
                assert forall|i: int, j: int|
                    0 <= i < rest.len() && 0 <= j < rest.len() && rest[i].key
                        == rest[j].key implies i == j by {
                    assert(images[i].key == images[j].key);
                }
            }
            if images.last().key != key {
                assert forall|i: int, j: int|
                    0 <= i < w.len() && 0 <= j < w.len() && w[i].key == w[j].key implies i == j by {
                    if i < wr.len() && j == wr.len() {
                        assert(holds_buffer(rest, wr[i].key));
                        let k = choose|k: int|
                            0 <= k < rest.len() && (#[trigger] rest[k]).key == wr[i].key;
                        assert(images[k].key == images[images.len() - 1].key);
                    }
                    if j < wr.len() && i == wr.len() {
                        assert(holds_buffer(rest, wr[j].key));
                        let k = choose|k: int|
                            0 <= k < rest.len() && (#[trigger] rest[k]).key == wr[j].key;
                        assert(images[k].key == images[images.len() - 1].key);
                    }
                    if i < wr.len() && j < wr.len() {
                        assert(wr[i].key == wr[j].key);
                    }
                }
            }
        }
        assert forall|j: int| 0 <= j < w.len() implies holds_buffer(
            images,
            (#[trigger] w[j]).key,
        ) by {
            if j < wr.len() {
                assert(w[j] == wr[j]);
                assert(holds_buffer(rest, wr[j].key));
            }
        }
        assert(!holds_buffer(w, key)) by {
            if holds_buffer(w, key) {
                let j = choose|j: int| 0 <= j < w.len() && (#[trigger] w[j]).key == key;
                if j < wr.len() {
                    assert(wr[j].key == key);
                }
            }
        }
    }
}

impl View for ImportCache {
    type V = Seq<ImportedImage>;

    closed spec fn view(&self) -> Seq<ImportedImage> {
        self.images@
    }
}

impl ImportCache {
    /// Each buffer has at most one image, and there are never too many.
    pub open spec fn wf(self) -> bool {
        one_image_each(self@) && self@.len() <= MAX_IMPORT_CACHE
    }

    /// No image is kept.
    pub fn new() -> (cache: Self)
        ensures
            cache.wf(),
            cache@ == Seq::<ImportedImage>::empty(),
    {
        let cache = ImportCache { images: Vec::new() };
        assert(cache@ =~= Seq::<ImportedImage>::empty());
        cache
    }

    /// Looks a buffer up: the image in this shape, an image in another shape,
    /// or none.
    pub fn lookup(&self, key: BufferId, shape: ImageShape) -> (found: CacheLookup)
        requires
            self.wf(),
        ensures
            match found {
                CacheLookup::Hit(handle) => self@.contains(ImportedImage { key, shape, handle }),
                CacheLookup::Stale(handle) => holds_other_shape(self@, key, shape, handle),
                CacheLookup::Miss => !holds_buffer(self@, key),
            },
    {
        let mut i: usize = 0;
        while i < self.images.len()
            invariant
                i <= self.images@.len(),
                forall|j: int| 0 <= j < i ==> (#[trigger] self.images@[j]).key != key,
            decreases self.images@.len() - i,
        {
            let image: ImportedImage = self.images[i];
            if image.key == key {
                assert(self@[i as int] == image);
                if image.shape == shape {
                    assert(self@.contains(ImportedImage { key, shape, handle: image.handle }));
                    return CacheLookup::Hit(image.handle);
                }
                return CacheLookup::Stale(image.handle);
            }
            i = i + 1;
        }
        CacheLookup::Miss
    }

    /// Forgets the image of a buffer.
    pub fn remove(&mut self, key: BufferId)
        requires
            old(self).wf(),
        ensures
            final(self).wf(),
            final(self)@ == without_buffer(old(self)@, key),
            !holds_buffer(final(self)@, key),
    {
        let ghost before = self.images@;
        let mut kept: Vec<ImportedImage> = Vec::new();
        let mut i: usize = 0;
        while i < self.images.len()
            invariant
                self.images@ == before,
                i <= before.len(),
                kept@ == without_buffer(before.take(i as int), key),
            decreases before.len() - i,
        {
            assert(before.take(i + 1).drop_last() =~= before.take(i as int));
            let image: ImportedImage = self.images[i];
            if image.key != key {
                kept.push(image);
            }
            i = i + 1;
        }
        assert(before.take(before.len() as int) =~= before);
        proof {
            lemma_without(before, key);
        }
        self.images = kept;
    }

    /// Keeps the image of a buffer that has none. Where there are too many,
    /// the oldest goes and is handed out.
    pub fn insert(&mut self, image: ImportedImage) -> (evicted: Option<ImportedImage>)
        requires
            old(self).wf(),
            !holds_buffer(old(self)@, image.key),
        ensures
            final(self).wf(),
            match evicted {
                Some(e) => old(self)@.len() == MAX_IMPORT_CACHE && e == old(self)@[0] && final(
                    self)@ == old(self)@.skip(1).push(image),
                None => old(self)@.len() < MAX_IMPORT_CACHE && final(self)@ == old(self)@.push(
                    image,
                ),
            },
    {
        let ghost before = self.images@;
        assert forall|i: int| 0 <= i < before.len() implies (#[trigger] before[i]).key
            != image.key by {
            if before[i].key == image.key {
                assert(holds_buffer(self@, image.key));
            }
        }
        let evicted: Option<ImportedImage> = if self.images.len() == MAX_IMPORT_CACHE {
            let oldest: ImportedImage = self.images.remove(0);
            assert(self.images@ =~= before.skip(1));
            Some(oldest)
        } else {
            None
        };
        let ghost kept = self.images@;
        self.images.push(image);
        assert(one_image_each(self.images@)) by {
            let all = self.images@;
            let shift = before.len() - kept.len();
            assert forall|i: int, j: int|
                0 <= i < all.len() && 0 <= j < all.len() && all[i].key == all[j].key implies i
                == j by {
                if i < kept.len() {
                    assert(all[i] == before[i + shift]);
                }
                if j < kept.len() {
                    assert(all[j] == before[j + shift]);
                }
            }
        }
        evicted
    }

    /// Forgets every image and hands them out, oldest first.
    pub fn clear(&mut self) -> (images: Vec<ImportedImage>)
        requires
            old(self).wf(),
        ensures
            final(self).wf(),
            final(self)@ == Seq::<ImportedImage>::empty(),
            images@ == old(self)@,
    {
        let mut images: Vec<ImportedImage> = Vec::new();
        std::mem::swap(&mut images, &mut self.images);
        assert(self@ =~= Seq::<ImportedImage>::empty());
        images
    }
}

/// A buffer that was just imported is found again in the same shape.
pub proof fn imported_buffer_is_found(images: Seq<ImportedImage>, image: ImportedImage)
    ensures
        images.push(image).contains(image),
        images.skip(1).push(image).contains(image),
{
    assert(images.push(image)[images.len() as int] == image);
    let s = images.skip(1).push(image);
    assert(s[s.len() - 1] == image);
}

/// Removing a buffer's image leaves the cache without it, and with exactly the
/// images of all other buffers.
pub proof fn removed_buffer_is_missed(images: Seq<ImportedImage>, key: BufferId)
    ensures
        !holds_buffer(without_buffer(images, key), key),
        forall|image: ImportedImage| #[trigger]
            without_buffer(images, key).contains(image) <==> images.contains(image) && image.key
                != key,
    decreases images.len(),
{
    lemma_without(images, key);
    if images.len() > 0 {
        let rest = images.drop_last();
        let w = without_buffer(images, key);
        let wr = without_buffer(rest, key);
        removed_buffer_is_missed(rest, key);
        assert forall|image: ImportedImage| #[trigger] w.contains(image) <==> images.contains(image)
            && image.key != key by {
            assert(images.contains(image) <==> rest.contains(image) || image == images.last()) by {
                assert(images =~= rest.push(images.last()));
                vstd::seq_lib::lemma_seq_contains_after_push(rest, images.last(), image);
            }
            vstd::seq_lib::lemma_seq_contains_after_push(wr, images.last(), image);
        }
    }
}

/// How many submissions can be under way at once.
pub const RING_DEPTH: usize = 2;

/// What is needed to make a frame of a submission once it is done.
#[derive(Clone, Copy, Debug, PartialEq, Eq, Structural)]
pub struct PendingMeta {
    pub width: u32,
    pub height: u32,
    pub stride: u32,
    pub format: PixelFormat,
    pub timestamp_us: u64,
    pub byte_size: u64,
}

/// The submissions under way.
pub struct SubmitRing {
    slots: Vec<Option<PendingMeta>>,
    next: usize,
    pending: Vec<usize>,
}

/// Where the next submission goes, and which one has to be waited for first.
#[derive(Clone, Copy, Debug, PartialEq, Eq)]
pub struct SubmitPlan {
    pub slot: usize,
    pub drain: Option<(usize, PendingMeta)>,
}

impl SubmitRing {
    /// What is under way in each slot.
    pub closed spec fn slots(self) -> Seq<Option<PendingMeta>> {
        self.slots@
    }

    /// The slot of the next submission.
    pub closed spec fn next_slot(self) -> int {
        self.next as int
    }

    /// The slots with a submission under way, oldest first.
    pub closed spec fn pending(self) -> Seq<usize> {
        self.pending@
    }

    /// There are as many slots as submissions can be under way; the pending
    /// slots are exactly those with something under way, each once.
    pub open spec fn wf(self) -> bool {
        &&& self.slots().len() == RING_DEPTH
        &&& 0 <= self.next_slot() < RING_DEPTH
        &&& forall|k: int|
            0 <= k < self.pending().len() ==> (#[trigger] self.pending()[k]) < RING_DEPTH
                && self.slots()[self.pending()[k] as int] is Some
        &&& forall|s: int|
            0 <= s < RING_DEPTH && (#[trigger] self.slots()[s]) is Some ==> self.pending().contains(
                s as usize,
            )
        &&& self.pending().no_duplicates()
    }

    /// Nothing is under way.
    pub open spec fn is_idle(self) -> bool {
        self.pending().len() == 0
    }

    /// A ring with nothing under way.
    pub fn new() -> (ring: Self)
        ensures
            ring.wf(),
            ring.is_idle(),
            ring.next_slot() == 0,
    {
        let slots: Vec<Option<PendingMeta>> = vec![None, None];
        SubmitRing { slots, next: 0, pending: Vec::new() }
    }

    /// Picks the slot of the next submission. A slot that still has something
    /// under way is drained itself; else the oldest submission is.
    pub fn begin(&mut self) -> (plan: SubmitPlan)
        requires
            old(self).wf(),
        ensures
            final(self).wf(),
            plan.slot == old(self).next_slot(),
            final(self).next_slot() == (old(self).next_slot() + 1) % RING_DEPTH as int,
            final(self).slots()[plan.slot as int] is None,
            match plan.drain {
                None => old(self).is_idle() && final(self).pending() == old(self).pending()
                    && final(self).slots() == old(self).slots(),
                Some(d) => {
                    &&& !old(self).is_idle()
                    &&& d.0 == if old(self).slots()[plan.slot as int] is Some {
                        plan.slot
                    } else {
                        old(self).pending()[0]
                    }
                    &&& old(self).slots()[d.0 as int] == Some(d.1)
                    &&& final(self).slots() == old(self).slots().update(d.0 as int, None)
                    &&& exists|k: int|
                        0 <= k < old(self).pending().len() && old(self).pending()[k] == d.0
                            && final(self).pending() == #[trigger] old(self).pending().remove(k)
                },
            },
    {
        let slot: usize = self.next;
        self.next = if slot + 1 == RING_DEPTH {
            0
        } else {
            slot + 1
        };
        let ghost before = self.pending@;
        let ghost slots = self.slots@;
        if self.pending.len() == 0 {
            assert(self.slots@[slot as int] is None) by {
                if self.slots@[slot as int] is Some {
                    assert(old(self).slots()[slot as int] is Some);
                    assert(before.contains(slot));
                }
            }
            return SubmitPlan { slot, drain: None };
        }
        let at: usize = match self.slots[slot] {
            Some(_) => {
                assert(old(self).slots()[slot as int] is Some);
                assert(before.contains(slot));
                self.place_of(slot)
            },
            None => 0,
        };
        let drained: usize = self.pending.remove(at);
        assert(before[at as int] == drained);
        assert(old(self).pending()[at as int] == drained);
        match self.slots[drained] {
            Some(meta) => {
                self.slots.set(drained, None);
                proof {
                    lemma_drained(slots, before, at as int);
                    assert(self.pending@ == before.remove(at as int));
                    assert(self.slots@ == slots.update(drained as int, None));
                }
                SubmitPlan { slot, drain: Some((drained, meta)) }
            },
            None => SubmitPlan { slot, drain: None },
        }
    }

    fn place_of(&self, slot: usize) -> (at: usize)
        requires
            self.pending().contains(slot),
        ensures
            at < self.pending().len(),
            self.pending()[at as int] == slot,
    {
        let mut i: usize = 0;
        while i < self.pending.len()
            invariant
                i <= self.pending@.len(),
                self.pending@.contains(slot),
                forall|k: int| 0 <= k < i ==> self.pending@[k] != slot,
            decreases self.pending@.len() - i,
        {
            if self.pending[i] == slot {
                return i;
            }
            i = i + 1;
        }
        assert(false);
        0
    }

    /// Marks the slot that [`begin`](Self::begin) picked as under way.
    pub fn submitted(&mut self, slot: usize, meta: PendingMeta)
        requires
            old(self).wf(),
            slot < RING_DEPTH,
            old(self).slots()[slot as int] is None,
        ensures
            final(self).wf(),
            final(self).next_slot() == old(self).next_slot(),
            final(self).slots() == old(self).slots().update(slot as int, Some(meta)),
            final(self).pending() == old(self).pending().push(slot),
    {
        let ghost before = self.pending@;
        let ghost slots = self.slots@;
        assert(!before.contains(slot)) by {
            if before.contains(slot) {
                let k = choose|k: int| 0 <= k < before.len() && before[k] == slot;
                assert(old(self).pending()[k] == slot);
            }
        }
        self.slots.set(slot, Some(meta));
        self.pending.push(slot);
        proof {
            let after = self.pending@;
            assert forall|s: int|
                0 <= s < RING_DEPTH && (#[trigger] self.slots()[s])
                    is Some implies self.pending().contains(s as usize) by {
                if s != slot {
                    assert(old(self).slots()[s] is Some);
                    let k = choose|k: int| 0 <= k < before.len() && before[k] == s as usize;
                    assert(after[k] == s as usize);
                } else {
                    assert(after[before.len() as int] == slot);
                }
            }
            assert forall|k: int| 0 <= k < after.len() implies (#[trigger] self.pending()[k])
                < RING_DEPTH && self.slots()[self.pending()[k] as int] is Some by {
                if k < before.len() {
                    assert(old(self).pending()[k] == after[k]);
                }
            }
            assert(after.no_duplicates());
        }
    }

    /// Lets every submission go: the slots to wait for, oldest first.
    pub fn flush(&mut self) -> (waited: Vec<usize>)
        requires
            old(self).wf(),
        ensures
            final(self).wf(),
            final(self).is_idle(),
            final(self).next_slot() == old(self).next_slot(),
            waited@ == old(self).pending(),
    {
        let mut waited: Vec<usize> = Vec::new();
        std::mem::swap(&mut waited, &mut self.pending);
        let slots: Vec<Option<PendingMeta>> = vec![None, None];
        self.slots = slots;
        waited
    }
}

proof fn lemma_drained(slots: Seq<Option<PendingMeta>>, pending: Seq<usize>, at: int)
    requires
        slots.len() == RING_DEPTH,
        0 <= at < pending.len(),
        pending.no_duplicates(),
        forall|k: int|
            0 <= k < pending.len() ==> (#[trigger] pending[k]) < RING_DEPTH
                && slots[pending[k] as int] is Some,
        forall|s: int|
            0 <= s < RING_DEPTH && (#[trigger] slots[s]) is Some ==> pending.contains(s as usize),
    ensures
        ({
            let after = pending.remove(at);
            let left = slots.update(pending[at] as int, None);
            &&& after.no_duplicates()
            &&& forall|k: int|
                0 <= k < after.len() ==> (#[trigger] after[k]) < RING_DEPTH
                    && left[after[k] as int] is Some
            &&& forall|s: int|
                0 <= s < RING_DEPTH && (#[trigger] left[s]) is Some ==> after.contains(s as usize)
        }),
{
    let after = pending.remove(at);
    let left = slots.update(pending[at] as int, None);
    assert forall|k: int| 0 <= k < after.len() implies (#[trigger] after[k]) < RING_DEPTH
        && left[after[k] as int] is Some by {
        let j = if k < at {
            k
        } else {
            k + 1
        };
        assert(after[k] == pending[j]);
        assert(pending[j] != pending[at]);
    }
    assert forall|s: int| 0 <= s < RING_DEPTH && (#[trigger] left[s]) is Some implies after.contains(
        s as usize,
    ) by {
        assert(slots[s] is Some);
        let j = choose|j: int| 0 <= j < pending.len() && pending[j] == s as usize;
        assert(j != at);
        let k = if j < at {
            j
        } else {
            j - 1
        };
        assert(after[k] == s as usize);
    }
    assert forall|i: int, j: int|
        0 <= i < after.len() && 0 <= j < after.len() && i != j implies after[i] != after[j] by {
        let a = if i < at {
            i
        } else {
            i + 1
        };
        let b = if j < at {
            j
        } else {
            j + 1
        };
        assert(after[i] == pending[a]);
        assert(after[j] == pending[b]);
    }
}

/// A stream that submits and never flushes has at most one submission under
/// way, and each submission hands back the one just before it.
pub proof fn ring_returns_previous(
    before: SubmitRing,
    begun: SubmitRing,
    after: SubmitRing,
    plan: SubmitPlan,
    meta: PendingMeta,
)
    requires
        before.wf(),
        before.pending().len() <= 1,
        plan.drain is None ==> before.is_idle() && begun.pending() == before.pending(),
        plan.drain is Some ==> exists|k: int|
            0 <= k < before.pending().len() && before.pending()[k] == (plan.drain->0).0
                && begun.pending() == #[trigger] before.pending().remove(k),
        after.pending() == begun.pending().push(plan.slot),
    ensures
        after.pending() == seq![plan.slot],
        plan.drain is Some ==> before.pending() == seq![(plan.drain->0).0],
{
    if plan.drain is Some {
        assert(before.pending() =~= seq![(plan.drain->0).0]);
        assert(begun.pending() =~= Seq::<usize>::empty());
    } else {
        assert(begun.pending() =~= Seq::<usize>::empty());
    }
    assert(after.pending() =~= seq![plan.slot]);
}

/// The bytes of a picture that the card copies out, and of one of its rows.
pub fn staging_size(width: u32, height: u32, format: PixelFormat) -> (out: Result<
    (u64, u32),
    FerricastError,
>)
    requires
        width * height * 4 <= u64::MAX,
        width * 4 <= u32::MAX,
    ensures
        match out {
            Ok(s) => (format == PixelFormat::Bgra || format == PixelFormat::Rgba) && s.0 == width
                * height * 4 && s.0 > 0 && s.1 == width * 4,
            Err(e) => if format == PixelFormat::Bgra || format == PixelFormat::Rgba {
                width * height == 0 && e.is_capture("vulkan: staging size is zero"@)
            } else {
                e.is_capture("vulkan: format has no bpp"@)
            },
        },
{
    match format {
        PixelFormat::Nv12 | PixelFormat::I420 => Err(
            FerricastError::Capture("vulkan: format has no bpp".to_owned()),
        ),
        PixelFormat::Bgra | PixelFormat::Rgba => {
            let w: u64 = width as u64;
            let h: u64 = height as u64;
            assert(w * h <= w * h * 4) by (nonlinear_arith);
            let size: u64 = w * h * 4;
            if size == 0 {
                return Err(FerricastError::Capture("vulkan: staging size is zero".to_owned()));
            }
            Ok((size, width * 4))
        },
    }
}

/// Whether a staging buffer of the capacity has to be replaced.
pub fn staging_too_small(capacity: Option<u64>, size: u64) -> (replace: bool)
    ensures
        replace == match capacity {
            Some(c) => c < size,
            None => true,
        },
{
    match capacity {
        Some(c) => c < size,
        None => true,
    }
}

/// The layouts that the graphics card imports.
#[derive(Clone, Copy, Debug, PartialEq, Eq, Structural)]
pub enum VkFormat {
    B8G8R8A8Unorm,
    R8G8B8A8Unorm,
}

/// The layout of a pixel format in memory, where the card imports it.
pub open spec fn vk_of_pixels(format: PixelFormat) -> Option<VkFormat> {
    match format {
        PixelFormat::Bgra => Some(VkFormat::B8G8R8A8Unorm),
        PixelFormat::Rgba => Some(VkFormat::R8G8B8A8Unorm),
        _ => None,
    }
}

/// The layout of a pixel format in memory, where the card imports it.
pub fn pixel_format_to_vk(format: PixelFormat) -> (vk: Option<VkFormat>)
    ensures
        vk == vk_of_pixels(format),
{
    match format {
        PixelFormat::Bgra => Some(VkFormat::B8G8R8A8Unorm),
        PixelFormat::Rgba => Some(VkFormat::R8G8B8A8Unorm),
        PixelFormat::Nv12 | PixelFormat::I420 => None,
    }
}

/// The pixel format of a video format that the card imports.
pub open spec fn imported_pixels(format: VideoFormat) -> Option<PixelFormat> {
    match format {
        VideoFormat::BGRA | VideoFormat::BGRx => Some(PixelFormat::Bgra),
        VideoFormat::RGBA | VideoFormat::RGBx => Some(PixelFormat::Rgba),
        _ => None,
    }
}

/// The pixel format of a video format that the card imports.
pub fn video_format_to_pixel(format: VideoFormat) -> (pixels: Option<PixelFormat>)
    ensures
        pixels == imported_pixels(format),
{
    match format {
        VideoFormat::BGRA | VideoFormat::BGRx => Some(PixelFormat::Bgra),
        VideoFormat::RGBA | VideoFormat::RGBx => Some(PixelFormat::Rgba),
        _ => None,
    }
}

/// The layout of a video format in memory, where the card imports it.
pub fn video_format_to_vk(format: VideoFormat) -> (vk: Option<VkFormat>)
    ensures
        vk == match imported_pixels(format) {
            Some(p) => vk_of_pixels(p),
            None => None,
        },
{
    match format {
        VideoFormat::BGRA | VideoFormat::BGRx => Some(VkFormat::B8G8R8A8Unorm),
        VideoFormat::RGBA | VideoFormat::RGBx => Some(VkFormat::R8G8B8A8Unorm),
        _ => None,
    }
}

/// The card imports every format that is offered to the compositor.
pub proof fn offered_formats_are_imported(i: int)
    requires
        0 <= i < supported().len(),
    ensures
        imported_pixels(supported()[i]) is Some,
        vk_of_pixels(imported_pixels(supported()[i])->0) is Some,
{
}

/// The name of a pixel format in messages.
pub open spec fn pixels_shown(format: PixelFormat) -> Seq<char> {
    match format {
        PixelFormat::Bgra => "Bgra"@,
        PixelFormat::Rgba => "Rgba"@,
        PixelFormat::Nv12 => "Nv12"@,
        PixelFormat::I420 => "I420"@,
    }
}

/// The layout to import a frame with; formats whose planes are apart are
/// refused.
pub fn import_format(format: PixelFormat) -> (out: Result<VkFormat, FerricastError>)
    ensures
        match out {
            Ok(vk) => vk_of_pixels(format) == Some(vk),
            Err(e) => vk_of_pixels(format) is None && e.is_capture(
                "Vulkan: unsupported PixelFormat "@ + pixels_shown(format),
            ),
        },
{
    match pixel_format_to_vk(format) {
        Some(vk) => Ok(vk),
        None => {
            let shown: &str = match format {
                PixelFormat::Bgra => "Bgra",
                PixelFormat::Rgba => "Rgba",
                PixelFormat::Nv12 => "Nv12",
                PixelFormat::I420 => "I420",
            };
            Err(FerricastError::Capture(join2("Vulkan: unsupported PixelFormat ", shown)))
        },
    }
}

/// The formats among `formats` that the card has a layout for, with their
/// layouts.
pub open spec fn usable_formats(
    formats: Seq<VideoFormat>,
    modifiers: Seq<Vec<u64>>,
) -> Seq<(VideoFormat, Seq<u64>)>
    recommends
        formats.len() == modifiers.len(),
    decreases formats.len(),
{
    if formats.len() == 0 {
        Seq::empty()
    } else {
        let before = usable_formats(formats.drop_last(), modifiers.drop_last());
        if modifiers.last()@.len() == 0 {
            before
        } else {
            before.push((formats.last(), modifiers.last()@))
        }
    }
}

/// The formats with their layouts.
pub open spec fn gpu_formats_view(formats: Seq<GpuFormat>) -> Seq<(VideoFormat, Seq<u64>)> {
    formats.map_values(|f: GpuFormat| (f.format, f.modifiers@))
}

/// The formats to offer with layouts of the card: those for which it lists
/// any. `modifiers` holds what the card lists for each format that is offered,
/// in their order.
pub fn gpu_formats(modifiers: &Vec<Vec<u64>>) -> (out: Vec<GpuFormat>)
    requires
        modifiers@.len() == supported().len(),
    ensures
        gpu_formats_view(out@) == usable_formats(supported(), modifiers@),
{
    let formats: Vec<VideoFormat> = supported_formats();
    let mut out: Vec<GpuFormat> = Vec::new();
    let mut i: usize = 0;
    assert(gpu_formats_view(out@) =~= Seq::<(VideoFormat, Seq<u64>)>::empty());
    while i < formats.len()
        invariant
            i <= formats@.len(),
            formats@ == supported(),
            modifiers@.len() == supported().len(),
            gpu_formats_view(out@) == usable_formats(
                formats@.take(i as int),
                modifiers@.take(i as int),
            ),
        decreases formats@.len() - i,
    {
        proof {
            assert(formats@.take(i + 1).drop_last() =~= formats@.take(i as int));
            assert(modifiers@.take(i + 1).drop_last() =~= modifiers@.take(i as int));
        }
        if modifiers[i].len() > 0 {
            let ghost before = out@;
            let listed: Vec<u64> = crate::capture::format::copy_modifiers(&modifiers[i]);
            out.push(GpuFormat { format: formats[i], modifiers: listed });
            assert(gpu_formats_view(out@) =~= gpu_formats_view(before).push(
                (formats@[i as int], modifiers@[i as int]@),
            ));
        }
        i = i + 1;
    }
    proof {
        assert(formats@.take(formats@.len() as int) =~= supported());
        assert(modifiers@.take(formats@.len() as int) =~= modifiers@);
    }
    out
}

/// The card has to offer these extensions, and the bits are those of the
/// graphics interface.
pub proof fn the_interfaces_names_and_numbers()
    ensures
        required_extensions().contains("VK_KHR_external_memory_fd"@),
        required_extensions().contains("VK_EXT_external_memory_dma_buf"@),
        required_extensions().contains("VK_EXT_image_drm_format_modifier"@),
        required_extensions().contains("VK_KHR_external_memory"@),
        required_extensions().contains("VK_KHR_get_memory_requirements2"@),
        required_extensions().contains("VK_EXT_queue_family_foreign"@),
        required_extensions().len() == 6,
        QUEUE_GRAPHICS == 1,
        QUEUE_TRANSFER == 4,
        FEATURE_TRANSFER_SRC == 0x4000,
        MAX_IMPORT_CACHE == 16,
        RING_DEPTH == 2,
{
    let r = required_extensions();
    assert(r[0] == "VK_KHR_external_memory_fd"@);
    assert(r[1] == "VK_EXT_external_memory_dma_buf"@);
    assert(r[2] == "VK_EXT_image_drm_format_modifier"@);
    assert(r[3] == "VK_KHR_external_memory"@);
    assert(r[4] == "VK_KHR_get_memory_requirements2"@);
    assert(r[5] == "VK_EXT_queue_family_foreign"@);
}

/// A card that lacks an extension or a queue that copies cannot be used, and
/// one that lacks nothing can.
pub proof fn usable_cards_lack_nothing(device: PhysicalDevice, k: int)
    requires
        0 <= k < required_extensions().len(),
    ensures
        !names_hold(device.extensions@, required_extensions()[k]) ==> !is_usable(device),
        !has_queue(device.families@) ==> !is_usable(device),
        has_required(device) && has_queue(device.families@) ==> is_usable(device),
        device.families@.len() == 0 ==> !is_usable(device),
{
}

/// The layouts of which the card can copy are kept with their planes, in the
/// card's order; the others are not.
pub proof fn copyable_layouts_are_kept(listed: Seq<ModifierProperties>, p: ModifierProperties)
    ensures
        p.features & 0x4000 == 0x4000 ==> copyable(listed.push(p)) == copyable(listed).push(
            ModifierCaps { modifier: p.modifier, plane_count: p.plane_count },
        ),
        p.features & 0x4000 != 0x4000 ==> copyable(listed.push(p)) == copyable(listed),
        copyable(Seq::empty()).len() == 0,
{
    assert(listed.push(p).drop_last() =~= listed);
}

/// A memory type fits where its place is allowed and it has every property that
/// is asked for.
pub proof fn memory_fits_by_place_and_property(types: Seq<u32>, bits: u32, required: u32, i: int)
    requires
        0 <= i < types.len(),
        i < 32,
    ensures
        memory_fits(types, bits, required, i) ==> types[i] & required == required && bits & (1u32
            << i as u32) != 0,
        bits == 0 ==> !memory_fits(types, bits, required, i),
        bits == 0xffff_ffff && types[i] == required ==> memory_fits(types, bits, required, i),
{
    let n = i as u32;
    let r = required;
    assert(0u32 & (1u32 << n) == 0) by (bit_vector);
    assert(n < 32 ==> 0xffff_ffffu32 & (1u32 << n) != 0) by (bit_vector);
    assert(r & r == r) by (bit_vector);
}

/// Pixels lie in memory as their names say, and a frame comes out in the pixels
/// of the video format that was agreed on.
pub proof fn pixels_keep_their_order(format: VideoFormat)
    ensures
        vk_of_pixels(PixelFormat::Bgra) == Some(VkFormat::B8G8R8A8Unorm),
        vk_of_pixels(PixelFormat::Rgba) == Some(VkFormat::R8G8B8A8Unorm),
        vk_of_pixels(PixelFormat::Nv12) is None,
        vk_of_pixels(PixelFormat::I420) is None,
        imported_pixels(format) is Some ==> imported_pixels(format)
            == crate::capture::format::pixels_of(format),
        imported_pixels(VideoFormat::NV12) is None && imported_pixels(VideoFormat::I420) is None,
        pixels_shown(PixelFormat::Bgra) == "Bgra"@ && pixels_shown(PixelFormat::Rgba) == "Rgba"@,
        pixels_shown(PixelFormat::Nv12) == "Nv12"@ && pixels_shown(PixelFormat::I420) == "I420"@,
{
}

/// The formats that are offered with layouts of the card are those for which it
/// lists any, each with its own, in their order.
pub proof fn formats_keep_their_layouts(
    formats: Seq<VideoFormat>,
    modifiers: Seq<Vec<u64>>,
    f: VideoFormat,
    m: Vec<u64>,
)
    requires
        formats.len() == modifiers.len(),
    ensures
        m@.len() > 0 ==> usable_formats(formats.push(f), modifiers.push(m)) == usable_formats(
            formats,
            modifiers,
        ).push((f, m@)),
        m@.len() == 0 ==> usable_formats(formats.push(f), modifiers.push(m)) == usable_formats(
            formats,
            modifiers,
        ),
        usable_formats(Seq::empty(), Seq::empty()).len() == 0,
{
    assert(formats.push(f).drop_last() =~= formats);
    assert(modifiers.push(m).drop_last() =~= modifiers);
}

/// The first family of queues that can copy is taken; where none says so, the
/// first that can draw, which can copy all the same.
pub proof fn queues_that_copy_are_taken(families: Seq<u32>, i: int, j: int)
    requires
        is_queue_choice(families, i),
        0 <= j < families.len(),
    ensures
        0 <= i < families.len(),
        families[i] & 4 == 4 || families[i] & 1 == 1,
        families[j] & 4 == 4 ==> families[i] & 4 == 4 && i <= j,
        families[i] & 4 != 4 && families[j] & 1 == 1 ==> i <= j,
{
    assert(families[i] & 4 == 4 <==> has_flag(families[i], QUEUE_TRANSFER));
    assert(families[j] & 4 == 4 <==> has_flag(families[j], QUEUE_TRANSFER));
    assert(families[i] & 1 == 1 <==> has_flag(families[i], QUEUE_GRAPHICS));
    assert(families[j] & 1 == 1 <==> has_flag(families[j], QUEUE_GRAPHICS));
}

} // verus!
