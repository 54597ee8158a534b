//! What the widgets of one frame report, as plain values.

use crate::component::Visibility;
use crate::math::{Quat, Vec3};
use vstd::prelude::*;

verus! {

/// What one numeric drag field reported in one frame.
#[derive(Clone, Copy, Debug, PartialEq, Eq, Structural)]
pub struct DragResponse {
    /// The number that the user set the field to in this frame, if the user
    /// changed it.
    pub edit: Option<u32>,
    /// Whether the field has the keyboard focus.
    pub has_focus: bool,
    /// Whether the field is being dragged.
    pub dragged: bool,
}

/// The reports of the three drag fields of one vector.
#[derive(Clone, Copy, Debug, PartialEq, Eq, Structural)]
pub struct DragTriple {
    pub x: DragResponse,
    pub y: DragResponse,
    pub z: DragResponse,
}

/// What the widgets of a transform reported in one frame.
#[derive(Clone, Copy, Debug, PartialEq, Eq, Structural)]
pub struct TransformUi {
    /// The three position fields.
    pub position: DragTriple,
    /// The orientation before this frame, taken apart into Euler angles in
    /// degrees: `x` about the X axis, `y` about Y, `z` about Z, for the
    /// rotation order Y, then X, then Z.
    pub decomposed: Vec3,
    /// The three angle fields.
    pub rotation: DragTriple,
    /// The orientation that the angles in the three angle fields stand for
    /// once the fields have run, put together in the same rotation order.
    pub composed: Quat,
    /// The three scale fields.
    pub scale: DragTriple,
}

/// What the widgets of one component's section reported in one frame.
#[derive(Clone, Copy, Debug, PartialEq, Eq, Structural)]
pub struct Ui {
    /// The fields of a transform.
    pub transform: TransformUi,
    /// The entry that the user picked in the choice widget, if any.
    pub picked: Option<Visibility>,
}

impl DragResponse {
    pub open spec fn spec_untouched() -> DragResponse {
        DragResponse { edit: None, has_focus: false, dragged: false }
    }

    /// The report of a field that the user left alone.
    #[verifier::when_used_as_spec(spec_untouched)]
    pub fn untouched() -> (response: DragResponse)
        ensures
            response == Self::spec_untouched(),
    {
        DragResponse { edit: None, has_focus: false, dragged: false }
    }

    pub open spec fn spec_changed(&self) -> bool {
        self.edit is Some
    }

    /// Whether the user changed the number in this frame.
    #[verifier::when_used_as_spec(spec_changed)]
    pub fn changed(&self) -> (changed: bool)
        ensures
            changed == self.spec_changed(),
    {
        self.edit.is_some()
    }

    pub open spec fn spec_engaged(&self) -> bool {
        self.has_focus || self.dragged
    }

    /// Whether the user is still at this field: it has the focus or is being
    /// dragged.
    #[verifier::when_used_as_spec(spec_engaged)]
    pub fn engaged(&self) -> (engaged: bool)
        ensures
            engaged == self.spec_engaged(),
    {
        self.has_focus || self.dragged
    }

    pub open spec fn spec_value(&self, shown: u32) -> u32 {
        match self.edit {
            Some(value) => value,
            None => shown,
        }
    }

    /// The number in the field once the widget has run, given the number it
    /// was drawn with.
    #[verifier::when_used_as_spec(spec_value)]
    pub fn value(&self, shown: u32) -> (value: u32)
        ensures
            value == self.spec_value(shown),
    {
        match self.edit {
            Some(value) => value,
            None => shown,
        }
    }
}

impl DragTriple {
    pub open spec fn spec_untouched() -> DragTriple {
        DragTriple {
            x: DragResponse::untouched(),
            y: DragResponse::untouched(),
            z: DragResponse::untouched(),
        }
    }

    /// The report of three fields that the user left alone.
    #[verifier::when_used_as_spec(spec_untouched)]
    pub fn untouched() -> (triple: DragTriple)
        ensures
            triple == Self::spec_untouched(),
    {
        DragTriple {
            x: DragResponse::untouched(),
            y: DragResponse::untouched(),
            z: DragResponse::untouched(),
        }
    }

    pub open spec fn spec_changed(&self) -> bool {
        self.x.changed() || self.y.changed() || self.z.changed()
    }

    /// Whether the user changed any of the three numbers in this frame.
    #[verifier::when_used_as_spec(spec_changed)]
    pub fn changed(&self) -> (changed: bool)
        ensures
            changed == self.spec_changed(),
    {
        self.x.changed() || self.y.changed() || self.z.changed()
    }

    pub open spec fn spec_engaged(&self) -> bool {
        self.x.engaged() || self.y.engaged() || self.z.engaged()
    }

    /// Whether the user is still at any of the three fields.
    #[verifier::when_used_as_spec(spec_engaged)]
    pub fn engaged(&self) -> (engaged: bool)
        ensures
            engaged == self.spec_engaged(),
    {
        self.x.engaged() || self.y.engaged() || self.z.engaged()
    }

    pub open spec fn spec_values(&self, shown: Vec3) -> Vec3 {
        Vec3 { x: self.x.value(shown.x), y: self.y.value(shown.y), z: self.z.value(shown.z) }
    }

    /// The numbers in the three fields once the widgets have run, given the
    /// numbers they were drawn with.
    #[verifier::when_used_as_spec(spec_values)]
    pub fn values(&self, shown: Vec3) -> (values: Vec3)
        ensures
            values == self.spec_values(shown),
    {
        Vec3 { x: self.x.value(shown.x), y: self.y.value(shown.y), z: self.z.value(shown.z) }
    }
}

impl TransformUi {
    pub open spec fn spec_untouched(decomposed: Vec3, composed: Quat) -> TransformUi {
        TransformUi {
            position: DragTriple::untouched(),
            decomposed,
            rotation: DragTriple::untouched(),
            composed,
            scale: DragTriple::untouched(),
        }
    }

    /// The report of a frame in which the user touched none of the fields of
    /// a transform whose orientation comes apart into `decomposed` and is
    /// `composed`.
    #[verifier::when_used_as_spec(spec_untouched)]
    pub fn untouched(decomposed: Vec3, composed: Quat) -> (ui: TransformUi)
        ensures
            ui == Self::spec_untouched(decomposed, composed),
    {
        TransformUi {
            position: DragTriple::untouched(),
            decomposed,
            rotation: DragTriple::untouched(),
            composed,
            scale: DragTriple::untouched(),
        }
    }
}

impl Ui {
    pub open spec fn spec_untouched(decomposed: Vec3, composed: Quat) -> Ui {
        Ui { transform: TransformUi::untouched(decomposed, composed), picked: None }
    }

    /// The report of a frame in which the user touched nothing in the
    /// section of a component. For a transform, `decomposed` and `composed`
    /// are its orientation as angles and as it is.
    #[verifier::when_used_as_spec(spec_untouched)]
    pub fn untouched(decomposed: Vec3, composed: Quat) -> (ui: Ui)
        ensures
            ui == Self::spec_untouched(decomposed, composed),
    {
        Ui { transform: TransformUi::untouched(decomposed, composed), picked: None }
    }
}

} // verus!
