//! The component types that can be inspected, as plain values.

use crate::math::{Quat, Vec3};
use vstd::prelude::*;

verus! {

/// Where an entity stands relative to its parent: position, orientation and
/// scale. The orientation is a unit quaternion.
#[derive(Clone, Copy, Debug, PartialEq, Eq, Structural)]
pub struct Transform {
    pub translation: Vec3,
    pub rotation: Quat,
    pub scale: Vec3,
}

/// Where an entity stands in the scene, as the scene store derived it: the
/// three columns of a linear map, and a translation. It is shown, never
/// edited.
#[derive(Clone, Copy, Debug, PartialEq, Eq, Structural)]
pub struct GlobalTransform {
    pub x_axis: Vec3,
    pub y_axis: Vec3,
    pub z_axis: Vec3,
    pub translation: Vec3,
}

/// A shared reference to a mesh that the asset store owns.
#[derive(Clone, Copy, Debug, PartialEq, Eq, Structural)]
pub struct MeshHandle {
    pub id: u64,
}

/// A shared reference to a material that the asset store owns.
#[derive(Clone, Copy, Debug, PartialEq, Eq, Structural)]
pub struct MaterialHandle {
    pub id: u64,
}

/// Whether the user wants an entity drawn.
#[derive(Clone, Copy, Debug, PartialEq, Eq, Structural)]
pub enum Visibility {
    Inherited,
    Hidden,
    Visible,
}

/// Whether an entity is drawn, as the scene store derived it.
#[derive(Clone, Copy, Debug, PartialEq, Eq, Structural)]
pub struct ComputedVisibility {
    pub visible_in_hierarchy: bool,
    pub visible_in_view: bool,
}

/// The concrete component types that can take part in inspection.
#[derive(Clone, Copy, Debug, PartialEq, Eq, Structural)]
pub enum ComponentKind {
    Transform,
    GlobalTransform,
    Mesh,
    StandardMaterial,
    Visibility,
    ComputedVisibility,
}

/// A component value of any of the concrete types.
#[derive(Clone, Copy, Debug, PartialEq, Eq, Structural)]
pub enum Component {
    Transform(Transform),
    GlobalTransform(GlobalTransform),
    Mesh(MeshHandle),
    StandardMaterial(MaterialHandle),
    Visibility(Visibility),
    ComputedVisibility(ComputedVisibility),
}

impl Visibility {
    /// The text that stands for this choice in the choice widget.
    pub open spec fn text(self) -> Seq<char> {
        match self {
            Visibility::Inherited => "Inherited"@,
            Visibility::Hidden => "Hidden"@,
            Visibility::Visible => "Visible"@,
        }
    }

    /// The text that the choice widget shows as selected.
    pub fn selected_text(&self) -> (text: &'static str)
        ensures
            text@ == self.text(),
    {
        match self {
            Visibility::Inherited => "Inherited",
            Visibility::Hidden => "Hidden",
            Visibility::Visible => "Visible",
        }
    }
}

impl ComputedVisibility {
    /// An entity is drawn only if it is visible both in its hierarchy and in
    /// some view.
    pub open spec fn visible(self) -> bool {
        self.visible_in_hierarchy && self.visible_in_view
    }

    /// The label that stands for a derived visibility.
    pub open spec fn text(self) -> Seq<char> {
        if self.visible() {
            "Visible"@
        } else {
            "Not Visible"@
        }
    }

    /// Whether the entity is drawn.
    pub fn is_visible(&self) -> (visible: bool)
        ensures
            visible == self.visible(),
    {
        self.visible_in_hierarchy && self.visible_in_view
    }

    /// The label shown for this value.
    pub fn label(&self) -> (text: &'static str)
        ensures
            text@ == self.text(),
    {
        if self.is_visible() {
            "Visible"
        } else {
            "Not Visible"
        }
    }
}

impl ComponentKind {
    /// The label under which components of this type are listed.
    pub open spec fn label(self) -> Seq<char> {
        match self {
            ComponentKind::Transform => "Transform"@,
            ComponentKind::GlobalTransform => "Global Transform"@,
            ComponentKind::Mesh => "Mesh"@,
            ComponentKind::StandardMaterial => "StandardMaterial"@,
            ComponentKind::Visibility => "Visibility"@,
            ComponentKind::ComputedVisibility => "ComputedVisibility"@,
        }
    }

    /// The label under which components of this type are listed.
    pub fn name(&self) -> (name: &'static str)
        ensures
            name@ == self.label(),
    {
        match self {
            ComponentKind::Transform => "Transform",
            ComponentKind::GlobalTransform => "Global Transform",
            ComponentKind::Mesh => "Mesh",
            ComponentKind::StandardMaterial => "StandardMaterial",
            ComponentKind::Visibility => "Visibility",
            ComponentKind::ComputedVisibility => "ComputedVisibility",
        }
    }
}

impl Component {
    /// The concrete type of this value.
    pub open spec fn kind_of(self) -> ComponentKind {
        match self {
            Component::Transform(_) => ComponentKind::Transform,
            Component::GlobalTransform(_) => ComponentKind::GlobalTransform,
            Component::Mesh(_) => ComponentKind::Mesh,
            Component::StandardMaterial(_) => ComponentKind::StandardMaterial,
            Component::Visibility(_) => ComponentKind::Visibility,
            Component::ComputedVisibility(_) => ComponentKind::ComputedVisibility,
        }
    }

    /// The concrete type of this value.
    pub fn kind(&self) -> (kind: ComponentKind)
        ensures
            kind == self.kind_of(),
    {
        match self {
            Component::Transform(_) => ComponentKind::Transform,
            Component::GlobalTransform(_) => ComponentKind::GlobalTransform,
            Component::Mesh(_) => ComponentKind::Mesh,
            Component::StandardMaterial(_) => ComponentKind::StandardMaterial,
            Component::Visibility(_) => ComponentKind::Visibility,
            Component::ComputedVisibility(_) => ComponentKind::ComputedVisibility,
        }
    }
}

} // verus!
