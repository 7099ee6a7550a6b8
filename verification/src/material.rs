use vstd::prelude::*;

use crate::designs::{plain_text, same_text};
use crate::patterns::ascii_lower;

verus! {

/// What the antenna's wire is made of.
#[derive(Clone, Copy, PartialEq, Eq, Structural, Debug)]
pub enum Material {
    Perfect,
    Copper,
    Aluminium,
    Brass,
    Steel,
}

/// The materials in the order the picker lists them.
pub open spec fn materials() -> Seq<Material> {
    seq![Material::Copper, Material::Aluminium, Material::Brass, Material::Steel, Material::Perfect]
}

/// The name a material has on screen.
pub open spec fn label_of(m: Material) -> &'static str {
    match m {
        Material::Perfect => "perfect conductor",
        Material::Copper => "copper",
        Material::Aluminium => "aluminium",
        Material::Brass => "brass",
        Material::Steel => "steel",
    }
}

/// The name a material is saved under: the name of its variant.
pub open spec fn saved_name_of(m: Material) -> &'static str {
    match m {
        Material::Perfect => "Perfect",
        Material::Copper => "Copper",
        Material::Aluminium => "Aluminium",
        Material::Brass => "Brass",
        Material::Steel => "Steel",
    }
}

impl Material {
    /// The materials in the order the picker lists them.
    pub fn all() -> (v: Vec<Material>)
        ensures
            v@ == materials(),
    {
        let v = vec![Material::Copper, Material::Aluminium, Material::Brass, Material::Steel, Material::Perfect];
        assert(v@ =~= materials());
        v
    }

    /// The name of this material on screen.
    pub fn label(self) -> (s: &'static str)
        ensures
            s == label_of(self),
    {
        match self {
            Material::Perfect => "perfect conductor",
            Material::Copper => "copper",
            Material::Aluminium => "aluminium",
            Material::Brass => "brass",
            Material::Steel => "steel",
        }
    }

    /// The name this material is saved under.
    pub fn saved_name(self) -> (s: &'static str)
        ensures
            s == saved_name_of(self),
    {
        match self {
            Material::Perfect => "Perfect",
            Material::Copper => "Copper",
            Material::Aluminium => "Aluminium",
            Material::Brass => "Brass",
            Material::Steel => "Steel",
        }
    }

    /// The first material in picker order saved under `name`, if any.
    pub fn named(name: &str) -> (r: Option<Material>)
        ensures
            r == material_named(name@),
            match r {
                Some(m) => saved_name_of(m)@ == name@,
                None => forall|m: Material| saved_name_of(m)@ != name@,
            },
    {
        let all = Material::all();
        let mut i: usize = 0;
        while i < all.len()
            invariant
                all@ == materials(),
                i <= 5,
                forall|j: int| 0 <= j < i ==> saved_name_of(#[trigger] materials()[j])@ != name@,
            decreases 5 - i,
        {
            let m = all[i];
            if same_text(m.saved_name(), name) {
                assert(materials()[i as int] == m);
                proof {
                    assert(saved_as(m, name@));
                    let c = choose|c: Material| #[trigger] saved_as(c, name@);
                    materials_read_back(m, c);
                }
                return Some(m);
            }
            i = i + 1;
        }
        assert forall|m: Material| saved_name_of(m)@ != name@ by {
            match m {
                Material::Copper => assert(materials()[0] == m),
                Material::Aluminium => assert(materials()[1] == m),
                Material::Brass => assert(materials()[2] == m),
                Material::Steel => assert(materials()[3] == m),
                Material::Perfect => assert(materials()[4] == m),
            }
        }
        None
    }
}

/// Whether `m` is saved under `name`.
pub open spec fn saved_as(m: Material, name: Seq<char>) -> bool {
    saved_name_of(m)@ == name
}

/// The material saved under `name`, if one is: no two share a name.
pub open spec fn material_named(name: Seq<char>) -> Option<Material> {
    if exists|m: Material| #[trigger] saved_as(m, name) {
        Some(choose|m: Material| #[trigger] saved_as(m, name))
    } else {
        None
    }
}

/// A material saved by name is read back as itself: no two materials are
/// saved under the same name, so `named` of the saved name of `m` can only
/// be `m`.
pub proof fn materials_read_back(m: Material, found: Material)
    requires
        saved_name_of(found)@ == saved_name_of(m)@,
    ensures
        found == m,
{
    reveal_strlit("Perfect");
    reveal_strlit("Copper");
    reveal_strlit("Aluminium");
    reveal_strlit("Brass");
    reveal_strlit("Steel");
    assert(saved_name_of(found)@.len() == saved_name_of(m)@.len());
    assert(saved_name_of(found)@[0] == saved_name_of(m)@[0]);
    match found {
        Material::Perfect => match m {
                Material::Perfect => {},
                Material::Copper => {
                    assert("Perfect"@.len() == 7);
                    assert("Copper"@.len() == 6);
                    assert("Perfect"@[0] == 'P');
                    assert("Copper"@[0] == 'C');
                },
                Material::Aluminium => {
                    assert("Perfect"@.len() == 7);
                    assert("Aluminium"@.len() == 9);
                    assert("Perfect"@[0] == 'P');
                    assert("Aluminium"@[0] == 'A');
                },
                Material::Brass => {
                    assert("Perfect"@.len() == 7);
                    assert("Brass"@.len() == 5);
                    assert("Perfect"@[0] == 'P');
                    assert("Brass"@[0] == 'B');
                },
                Material::Steel => {
                    assert("Perfect"@.len() == 7);
                    assert("Steel"@.len() == 5);
                    assert("Perfect"@[0] == 'P');
                    assert("Steel"@[0] == 'S');
                },
            },
        Material::Copper => match m {
                Material::Perfect => {
                    assert("Copper"@.len() == 6);
                    assert("Perfect"@.len() == 7);
                    assert("Copper"@[0] == 'C');
                    assert("Perfect"@[0] == 'P');
                },
                Material::Copper => {},
                Material::Aluminium => {
                    assert("Copper"@.len() == 6);
                    assert("Aluminium"@.len() == 9);
                    assert("Copper"@[0] == 'C');
                    assert("Aluminium"@[0] == 'A');
                },
                Material::Brass => {
                    assert("Copper"@.len() == 6);
                    assert("Brass"@.len() == 5);
                    assert("Copper"@[0] == 'C');
                    assert("Brass"@[0] == 'B');
                },
                Material::Steel => {
                    assert("Copper"@.len() == 6);
                    assert("Steel"@.len() == 5);
                    assert("Copper"@[0] == 'C');
                    assert("Steel"@[0] == 'S');
                },
            },
        Material::Aluminium => match m {
                Material::Perfect => {
                    assert("Aluminium"@.len() == 9);
                    assert("Perfect"@.len() == 7);
                    assert("Aluminium"@[0] == 'A');
                    assert("Perfect"@[0] == 'P');
                },
                Material::Copper => {
                    assert("Aluminium"@.len() == 9);
                    assert("Copper"@.len() == 6);
                    assert("Aluminium"@[0] == 'A');
                    assert("Copper"@[0] == 'C');
                },
                Material::Aluminium => {},
                Material::Brass => {
                    assert("Aluminium"@.len() == 9);
                    assert("Brass"@.len() == 5);
                    assert("Aluminium"@[0] == 'A');
                    assert("Brass"@[0] == 'B');
                },
                Material::Steel => {
                    assert("Aluminium"@.len() == 9);
                    assert("Steel"@.len() == 5);
                    assert("Aluminium"@[0] == 'A');
                    assert("Steel"@[0] == 'S');
                },
            },
        Material::Brass => match m {
                Material::Perfect => {
                    assert("Brass"@.len() == 5);
                    assert("Perfect"@.len() == 7);
                    assert("Brass"@[0] == 'B');
                    assert("Perfect"@[0] == 'P');
                },
                Material::Copper => {
                    assert("Brass"@.len() == 5);
                    assert("Copper"@.len() == 6);
                    assert("Brass"@[0] == 'B');
                    assert("Copper"@[0] == 'C');
                },
                Material::Aluminium => {
                    assert("Brass"@.len() == 5);
                    assert("Aluminium"@.len() == 9);
                    assert("Brass"@[0] == 'B');
                    assert("Aluminium"@[0] == 'A');
                },
                Material::Brass => {},
                Material::Steel => {
                    assert("Brass"@.len() == 5);
                    assert("Steel"@.len() == 5);
                    assert("Brass"@[0] == 'B');
                    assert("Steel"@[0] == 'S');
                },
            },
        Material::Steel => match m {
                Material::Perfect => {
                    assert("Steel"@.len() == 5);
                    assert("Perfect"@.len() == 7);
                    assert("Steel"@[0] == 'S');
                    assert("Perfect"@[0] == 'P');
                },
                Material::Copper => {
                    assert("Steel"@.len() == 5);
                    assert("Copper"@.len() == 6);
                    assert("Steel"@[0] == 'S');
                    assert("Copper"@[0] == 'C');
                },
                Material::Aluminium => {
                    assert("Steel"@.len() == 5);
                    assert("Aluminium"@.len() == 9);
                    assert("Steel"@[0] == 'S');
                    assert("Aluminium"@[0] == 'A');
                },
                Material::Brass => {
                    assert("Steel"@.len() == 5);
                    assert("Brass"@.len() == 5);
                    assert("Steel"@[0] == 'S');
                    assert("Brass"@[0] == 'B');
                },
                Material::Steel => {},
            },
    }
}

/// Every material's saved name is made of ASCII letters.
pub proof fn saved_names_are_plain(m: Material)
    ensures
        plain_text(saved_name_of(m)@),
{
    reveal_strlit("Perfect");
    reveal_strlit("Copper");
    reveal_strlit("Aluminium");
    reveal_strlit("Brass");
    reveal_strlit("Steel");
}

/// A material is found again by its saved name.
pub proof fn lemma_named_by_saved_name(m: Material)
    ensures
        material_named(saved_name_of(m)@) == Some(m),
{
    let name = saved_name_of(m)@;
    assert(saved_as(m, name));
    let c = choose|c: Material| #[trigger] saved_as(c, name);
    materials_read_back(m, c);
}

/// Each material is shown by its own name: the name it is saved under, in
/// small letters, but for the perfect conductor, which is shown as such.
pub proof fn labels_name_their_materials(m: Material)
    ensures
        m != Material::Perfect ==> label_of(m)@ == saved_name_of(m)@.map_values(|c: char| ascii_lower(c)),
        m == Material::Perfect ==> label_of(m)@ == "perfect conductor"@,
        label_of(Material::Copper)@ == "copper"@,
        label_of(Material::Aluminium)@ == "aluminium"@,
        label_of(Material::Brass)@ == "brass"@,
        label_of(Material::Steel)@ == "steel"@,
{
    reveal_strlit("Perfect");
    reveal_strlit("Copper");
    reveal_strlit("Aluminium");
    reveal_strlit("Brass");
    reveal_strlit("Steel");
    reveal_strlit("copper");
    reveal_strlit("aluminium");
    reveal_strlit("brass");
    reveal_strlit("steel");
    match m {
        Material::Perfect => {},
        Material::Copper => {
            assert("copper"@ =~= "Copper"@.map_values(|c: char| ascii_lower(c)));
        },
        Material::Aluminium => {
            assert("aluminium"@ =~= "Aluminium"@.map_values(|c: char| ascii_lower(c)));
        },
        Material::Brass => {
            assert("brass"@ =~= "Brass"@.map_values(|c: char| ascii_lower(c)));
        },
        Material::Steel => {
            assert("steel"@ =~= "Steel"@.map_values(|c: char| ascii_lower(c)));
        },
    }
}

/// Each material is saved under the name of its kind: `Perfect`, `Copper`,
/// `Aluminium`, `Brass` and `Steel`.
pub proof fn materials_are_saved_by_name()
    ensures
        saved_name_of(Material::Perfect)@ == "Perfect"@,
        saved_name_of(Material::Copper)@ == "Copper"@,
        saved_name_of(Material::Aluminium)@ == "Aluminium"@,
        saved_name_of(Material::Brass)@ == "Brass"@,
        saved_name_of(Material::Steel)@ == "Steel"@,
{
}

} // verus!
