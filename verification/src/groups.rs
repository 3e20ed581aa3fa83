//! The closed set of muscle groups, with a total, reversible mapping to
//! text labels.

use vstd::prelude::*;

verus! {

/// A muscle group a workout can be categorized under.
#[derive(Clone, Copy, Debug, PartialEq, Eq, Structural)]
pub enum MuscleGroup {
    Shoulders,
    Biceps,
    Triceps,
    Chest,
    Back,
    Abs,
    Legs,
}

/// The text label of a muscle group.
pub open spec fn group_label(g: MuscleGroup) -> Seq<char> {
    match g {
        MuscleGroup::Shoulders => "Shoulders"@,
        MuscleGroup::Biceps => "Biceps"@,
        MuscleGroup::Triceps => "Triceps"@,
        MuscleGroup::Chest => "Chest"@,
        MuscleGroup::Back => "Back"@,
        MuscleGroup::Abs => "Abs"@,
        MuscleGroup::Legs => "Legs"@,
    }
}

impl MuscleGroup {
    /// The label of this group.
    pub fn label(&self) -> (r: &'static str)
        ensures
            r@ == group_label(*self),
    {
        match self {
            MuscleGroup::Shoulders => "Shoulders",
            MuscleGroup::Biceps => "Biceps",
            MuscleGroup::Triceps => "Triceps",
            MuscleGroup::Chest => "Chest",
            MuscleGroup::Back => "Back",
            MuscleGroup::Abs => "Abs",
            MuscleGroup::Legs => "Legs",
        }
    }

    /// The group a label names, or `None` when the text is no label.
    pub fn from_label(s: &str) -> (r: Option<MuscleGroup>)
        ensures
            r matches Some(g) ==> group_label(g) == s@,
            r is None ==> forall|g: MuscleGroup| group_label(g) != s@,
    {
        if crate::text::str_eq(s, "Shoulders") {
            Some(MuscleGroup::Shoulders)
        } else if crate::text::str_eq(s, "Biceps") {
            Some(MuscleGroup::Biceps)
        } else if crate::text::str_eq(s, "Triceps") {
            Some(MuscleGroup::Triceps)
        } else if crate::text::str_eq(s, "Chest") {
            Some(MuscleGroup::Chest)
        } else if crate::text::str_eq(s, "Back") {
            Some(MuscleGroup::Back)
        } else if crate::text::str_eq(s, "Abs") {
            Some(MuscleGroup::Abs)
        } else if crate::text::str_eq(s, "Legs") {
            Some(MuscleGroup::Legs)
        } else {
            proof {
                assert forall|g: MuscleGroup| group_label(g) != s@ by {
                    match g {
                        MuscleGroup::Shoulders => assert(group_label(g) == "Shoulders"@),
                        MuscleGroup::Biceps => assert(group_label(g) == "Biceps"@),
                        MuscleGroup::Triceps => assert(group_label(g) == "Triceps"@),
                        MuscleGroup::Chest => assert(group_label(g) == "Chest"@),
                        MuscleGroup::Back => assert(group_label(g) == "Back"@),
                        MuscleGroup::Abs => assert(group_label(g) == "Abs"@),
                        MuscleGroup::Legs => assert(group_label(g) == "Legs"@),
                    }
                }
            }
            None
        }
    }
}

/// The label mapping is injective: distinct groups have distinct labels.
pub proof fn lemma_group_label_injective(a: MuscleGroup, b: MuscleGroup)
    requires
        group_label(a) == group_label(b),
    ensures
        a == b,
{
    reveal_strlit("Shoulders");
    reveal_strlit("Biceps");
    reveal_strlit("Triceps");
    reveal_strlit("Chest");
    reveal_strlit("Back");
    reveal_strlit("Abs");
    reveal_strlit("Legs");
    // Label length and first character together distinguish every group.
    match a {
        MuscleGroup::Shoulders => assert(group_label(a).len() == 9),
        MuscleGroup::Biceps => assert(group_label(a).len() == 6),
        MuscleGroup::Triceps => assert(group_label(a).len() == 7),
        MuscleGroup::Chest => assert(group_label(a).len() == 5),
        MuscleGroup::Back => assert(group_label(a)[0] == 'B' && group_label(a).len() == 4),
        MuscleGroup::Abs => assert(group_label(a).len() == 3),
        MuscleGroup::Legs => assert(group_label(a)[0] == 'L' && group_label(a).len() == 4),
    }
    match b {
        MuscleGroup::Shoulders => assert(group_label(b).len() == 9),
        MuscleGroup::Biceps => assert(group_label(b).len() == 6),
        MuscleGroup::Triceps => assert(group_label(b).len() == 7),
        MuscleGroup::Chest => assert(group_label(b).len() == 5),
        MuscleGroup::Back => assert(group_label(b)[0] == 'B' && group_label(b).len() == 4),
        MuscleGroup::Abs => assert(group_label(b).len() == 3),
        MuscleGroup::Legs => assert(group_label(b)[0] == 'L' && group_label(b).len() == 4),
    }
}

} // verus!
