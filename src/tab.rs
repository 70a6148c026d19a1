//! The kinds of tab that the viewer's dock can show.
use vstd::prelude::*;

verus! {

/// A kind of tab.
#[derive(Clone, Copy, PartialEq, Eq, Structural, Debug, Hash)]
pub enum Type {
    Scene,
    Transform,
    Camera,
    Measurement,
    Selection,
    Metadata,
    Models,
    Mask,
}

/// The title of a kind of tab in the view menu.
pub open spec fn menu_title_of(t: Type) -> &'static str {
    match t {
        Type::Scene => "Scene",
        Type::Transform => "Transform",
        Type::Camera => "Camera",
        Type::Measurement => "Measurement",
        Type::Selection => "Selection",
        Type::Metadata => "Metadata",
        Type::Models => "Models",
        Type::Mask => "Mask",
    }
}

/// Every kind of tab, in menu order.
pub open spec fn all_types() -> Seq<Type> {
    seq![
        Type::Scene,
        Type::Transform,
        Type::Camera,
        Type::Measurement,
        Type::Selection,
        Type::Metadata,
        Type::Models,
        Type::Mask,
    ]
}

impl Type {
    /// The title of this kind of tab in the view menu.
    pub fn menu_title(&self) -> (r: &'static str)
        ensures
            r@ == menu_title_of(*self)@,
    {
        match self {
            Type::Scene => "Scene",
            Type::Transform => "Transform",
            Type::Camera => "Camera",
            Type::Measurement => "Measurement",
            Type::Selection => "Selection",
            Type::Metadata => "Metadata",
            Type::Models => "Models",
            Type::Mask => "Mask",
        }
    }

    /// Every kind of tab, in menu order.
    pub fn all() -> (r: Vec<Type>)
        ensures
            r@ == all_types(),
    {
        let r = vec![
            Type::Scene,
            Type::Transform,
            Type::Camera,
            Type::Measurement,
            Type::Selection,
            Type::Metadata,
            Type::Models,
            Type::Mask,
        ];
        proof {
            assert(r@ =~= all_types());
        }
        r
    }
}

} // verus!
