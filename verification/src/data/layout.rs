//! Where the cards and texts of a container stand on its canvas.
use crate::data::ids::{ContainerId, ReferenceId, TextId};
use crate::data::workspace::{ImageFit, LAYOUT_VERSION};
use crate::idmap::IdMap;
use vstd::prelude::*;

verus! {

/// A point or a size on a canvas: the bit patterns of two single-precision
/// numbers. The library carries points along and never computes with them.
#[derive(Clone, Copy, Debug, PartialEq, Eq, Structural)]
pub struct Point {
    pub x: u32,
    pub y: u32,
}

/// Placement of one card.
#[derive(Clone, Copy, Debug, PartialEq, Eq)]
pub struct CardLayout {
    pub position: Point,
    pub color: Option<[u8; 4]>,
    /// Display size of an image; other cards have none.
    pub size: Option<Point>,
    /// How an image is fitted into its size.
    pub image_fit: Option<ImageFit>,
}

impl CardLayout {
    /// A card at `position`, with nothing else chosen.
    pub open spec fn plain(position: Point) -> CardLayout {
        CardLayout { position, color: None, size: None, image_fit: None }
    }

    /// A card at `position`, with nothing else chosen.
    pub fn at(position: Point) -> (r: CardLayout)
        ensures
            r == CardLayout::plain(position),
    {
        CardLayout { position, color: None, size: None, image_fit: None }
    }
}

/// A text annotation. It belongs to one canvas and cannot be linked.
#[derive(Debug, PartialEq, Eq)]
pub struct CanvasText {
    pub id: TextId,
    pub position: Point,
    pub text: String,
    pub color: Option<[u8; 4]>,
}

impl Clone for CanvasText {
    fn clone(&self) -> (r: Self)
        ensures
            r == *self,
    {
        CanvasText {
            id: self.id.clone(),
            position: self.position,
            text: self.text.clone(),
            color: self.color,
        }
    }
}

/// The layout of one container.
pub struct ContainerLayout {
    pub version: u32,
    pub container: ContainerId,
    pub items: IdMap<ReferenceId, CardLayout>,
    pub texts: Vec<CanvasText>,
}

impl ContainerLayout {
    /// The layout without cards and texts.
    pub fn empty(container: ContainerId) -> (r: Self)
        ensures
            r.version == LAYOUT_VERSION,
            r.container == container,
            r.items.wf(),
            r.items@ == Map::<Seq<char>, CardLayout>::empty(),
            r.texts@ == Seq::<CanvasText>::empty(),
    {
        ContainerLayout {
            version: LAYOUT_VERSION,
            container,
            items: IdMap::new(),
            texts: Vec::new(),
        }
    }
}

} // verus!
