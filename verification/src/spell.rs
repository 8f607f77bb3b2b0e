//! The closed set of healing spells and their constant table.

use vstd::prelude::*;

verus! {

/// A healing spell.
#[derive(Clone, Copy, Debug, PartialEq, Eq, Structural)]
pub enum Spell {
    Cure,
    Cura,
    Curaga,
    Curaja,
}

/// The spell that stands in for a name that is not recognised.
pub open spec fn default_spell() -> Spell {
    Spell::Cure
}

/// The spell named by `name`, if any. Names are case-sensitive.
pub open spec fn spell_named(name: Seq<char>) -> Option<Spell> {
    if name == "Cure"@ {
        Some(Spell::Cure)
    } else if name == "Cura"@ {
        Some(Spell::Cura)
    } else if name == "Curaga"@ {
        Some(Spell::Curaga)
    } else if name == "Curaja"@ {
        Some(Spell::Curaja)
    } else {
        None
    }
}

/// Whether two byte slices hold the same bytes.
fn same_bytes(a: &[u8], b: &[u8]) -> (r: bool)
    ensures
        r == (a@ == b@),
{
    if a.len() != b.len() {
        return false;
    }
    let mut i: usize = 0;
    while i < a.len()
        invariant
            a@.len() == b@.len(),
            i <= a@.len(),
            forall|j: int| 0 <= j < i ==> a@[j] == b@[j],
        decreases a@.len() - i,
    {
        if a[i] != b[i] {
            return false;
        }
        i += 1;
    }
    assert(a@ =~= b@);
    true
}

/// Whether two strings hold the same characters.
pub(crate) fn same_text(a: &str, b: &str) -> (r: bool)
    ensures
        r == (a@ == b@),
{
    proof {
        vstd::utf8::encode_utf8_decode_utf8(a@);
        vstd::utf8::encode_utf8_decode_utf8(b@);
    }
    same_bytes(a.as_bytes(), b.as_bytes())
}

impl Spell {
    /// The display name, as a sequence of characters.
    pub open spec fn name_spec(self) -> Seq<char> {
        match self {
            Spell::Cure => "Cure"@,
            Spell::Cura => "Cura"@,
            Spell::Curaga => "Curaga"@,
            Spell::Curaja => "Curaja"@,
        }
    }

    /// The spell's power.
    pub open spec fn power_spec(self) -> nat {
        match self {
            Spell::Cure => 20,
            Spell::Cura => 46,
            Spell::Curaga => 86,
            Spell::Curaja => 120,
        }
    }

    pub fn name(&self) -> (s: &str)
        ensures
            s@ == self.name_spec(),
    {
        match *self {
            Spell::Cure => "Cure",
            Spell::Cura => "Cura",
            Spell::Curaga => "Curaga",
            Spell::Curaja => "Curaja",
        }
    }

    pub fn power(&self) -> (p: u8)
        ensures
            p == self.power_spec(),
    {
        match *self {
            Spell::Cure => 20,
            Spell::Cura => 46,
            Spell::Curaga => 86,
            Spell::Curaja => 120,
        }
    }

    /// Looks a spell up by its display name.
    pub fn from_name(s: &str) -> (r: Option<Spell>)
        ensures
            r == spell_named(s@),
    {
        if same_text(s, "Cure") {
            Some(Spell::Cure)
        } else if same_text(s, "Cura") {
            Some(Spell::Cura)
        } else if same_text(s, "Curaga") {
            Some(Spell::Curaga)
        } else if same_text(s, "Curaja") {
            Some(Spell::Curaja)
        } else {
            None
        }
    }

    /// Looks a spell up by its display name; an unknown name gives the
    /// default spell.
    pub fn from_name_or_default(s: &str) -> (r: Spell)
        ensures
            r == match spell_named(s@) {
                Some(spell) => spell,
                None => default_spell(),
            },
    {
        match Spell::from_name(s) {
            Some(spell) => spell,
            None => Spell::Cure,
        }
    }
}

/// Every spell is found again by its own display name.
pub proof fn lemma_name_round_trip(spell: Spell)
    ensures
        spell_named(spell.name_spec()) == Some(spell),
{
    reveal_strlit("Cure");
    reveal_strlit("Cura");
    reveal_strlit("Curaga");
    reveal_strlit("Curaja");
    assert("Cura"@.len() == 4);
    assert("Cure"@[3] != "Cura"@[3]);
    assert("Curaga"@[4] != "Curaja"@[4]);
}

impl std::str::FromStr for Spell {
    type Err = ();

    fn from_str(s: &str) -> (r: Result<Self, ()>)
        ensures
            r == match spell_named(s@) {
                Some(spell) => Ok::<Spell, ()>(spell),
                None => Err(()),
            },
    {
        match Spell::from_name(s) {
            Some(spell) => Ok(spell),
            None => Err(()),
        }
    }
}

} // verus!
