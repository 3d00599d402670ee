//! The lists of dependencies that are gathered once per primitive.
//!
//! A primitive has few dependencies of each kind, so the lists keep their
//! first items inline, in a `smallvec::SmallVec`. What the vectors do is
//! not verified here: the contracts of the functions of this file that are
//! marked `external_body` state what is relied on.

use vstd::prelude::*;
use smallvec::SmallVec;
use crate::ids::ItemUid;
use crate::invalidation::compare::{ImageDependency, OpacityBinding};
use crate::invalidation::vert_buffer::VertRange;

verus! {

/// The images that a primitive draws.
#[verifier::external_body]
pub struct ImageList {
    items: SmallVec<[ImageDependency; 8]>,
}

/// The opacities that a primitive is drawn with.
#[verifier::external_body]
pub struct OpacityBindingList {
    items: SmallVec<[OpacityBinding; 4]>,
}

/// The clips of a primitive: for each the uid of its template and the window
/// of its corners in the scratch of the corners cache.
#[verifier::external_body]
pub struct ClipList {
    items: SmallVec<[(ItemUid, VertRange); 4]>,
}

/// The items of a list of images, in the order in which they were pushed.
pub uninterp spec fn image_items(list: ImageList) -> Seq<ImageDependency>;

/// The items of a list of opacities, in the order in which they were pushed.
pub uninterp spec fn opacity_items(list: OpacityBindingList) -> Seq<OpacityBinding>;

/// The items of a list of clips, in the order in which they were pushed.
pub uninterp spec fn clip_items(list: ClipList) -> Seq<(ItemUid, VertRange)>;

/// `SmallVec::new`: a vector without items.
#[verifier::external_body]
fn image_list_new() -> (list: ImageList)
    ensures
        image_items(list) == Seq::<ImageDependency>::empty(),
{
    ImageList { items: SmallVec::new() }
}

/// `SmallVec::push`: the item is appended behind the items that are there.
#[verifier::external_body]
fn image_list_push(list: &mut ImageList, item: ImageDependency)
    ensures
        image_items(*final(list)) == image_items(*old(list)).push(item),
{
    list.items.push(item)
}

/// `SmallVec::as_slice`: all items of the vector, in their order.
#[verifier::external_body]
fn image_list_as_slice(list: &ImageList) -> (items: &[ImageDependency])
    ensures
        items@ == image_items(*list),
{
    list.items.as_slice()
}

/// `SmallVec::new`: a vector without items.
#[verifier::external_body]
fn opacity_list_new() -> (list: OpacityBindingList)
    ensures
        opacity_items(list) == Seq::<OpacityBinding>::empty(),
{
    OpacityBindingList { items: SmallVec::new() }
}

/// `SmallVec::push`: the item is appended behind the items that are there.
#[verifier::external_body]
fn opacity_list_push(list: &mut OpacityBindingList, item: OpacityBinding)
    ensures
        opacity_items(*final(list)) == opacity_items(*old(list)).push(item),
{
    list.items.push(item)
}

/// `SmallVec::as_slice`: all items of the vector, in their order.
#[verifier::external_body]
fn opacity_list_as_slice(list: &OpacityBindingList) -> (items: &[OpacityBinding])
    ensures
        items@ == opacity_items(*list),
{
    list.items.as_slice()
}

/// `SmallVec::new`: a vector without items.
#[verifier::external_body]
fn clip_list_new() -> (list: ClipList)
    ensures
        clip_items(list) == Seq::<(ItemUid, VertRange)>::empty(),
{
    ClipList { items: SmallVec::new() }
}

/// `SmallVec::push`: the item is appended behind the items that are there.
#[verifier::external_body]
fn clip_list_push(list: &mut ClipList, item: (ItemUid, VertRange))
    ensures
        clip_items(*final(list)) == clip_items(*old(list)).push(item),
{
    list.items.push(item)
}

/// `SmallVec::as_slice`: all items of the vector, in their order.
#[verifier::external_body]
fn clip_list_as_slice(list: &ClipList) -> (items: &[(ItemUid, VertRange)])
    ensures
        items@ == clip_items(*list),
{
    list.items.as_slice()
}

impl ImageList {
    /// A list without items.
    pub fn new() -> (list: ImageList)
        ensures
            image_items(list) == Seq::<ImageDependency>::empty(),
    {
        image_list_new()
    }

    /// Appends an image.
    pub fn push(&mut self, item: ImageDependency)
        ensures
            image_items(*final(self)) == image_items(*old(self)).push(item),
    {
        image_list_push(self, item)
    }

    /// The images, in their order.
    pub fn as_slice(&self) -> (items: &[ImageDependency])
        ensures
            items@ == image_items(*self),
    {
        image_list_as_slice(self)
    }
}

impl OpacityBindingList {
    /// A list without items.
    pub fn new() -> (list: OpacityBindingList)
        ensures
            opacity_items(list) == Seq::<OpacityBinding>::empty(),
    {
        opacity_list_new()
    }

    /// Appends an opacity.
    pub fn push(&mut self, item: OpacityBinding)
        ensures
            opacity_items(*final(self)) == opacity_items(*old(self)).push(item),
    {
        opacity_list_push(self, item)
    }

    /// The opacities, in their order.
    pub fn as_slice(&self) -> (items: &[OpacityBinding])
        ensures
            items@ == opacity_items(*self),
    {
        opacity_list_as_slice(self)
    }
}

impl ClipList {
    /// A list without items.
    pub fn new() -> (list: ClipList)
        ensures
            clip_items(list) == Seq::<(ItemUid, VertRange)>::empty(),
    {
        clip_list_new()
    }

    /// Appends a clip: the uid of its template and the window of its corners
    /// in the scratch.
    pub fn push(&mut self, uid: ItemUid, scratch_range: VertRange)
        ensures
            clip_items(*final(self)) == clip_items(*old(self)).push((uid, scratch_range)),
    {
        clip_list_push(self, (uid, scratch_range))
    }

    /// The clips, in their order.
    pub fn as_slice(&self) -> (items: &[(ItemUid, VertRange)])
        ensures
            items@ == clip_items(*self),
    {
        clip_list_as_slice(self)
    }
}

} // verus!
