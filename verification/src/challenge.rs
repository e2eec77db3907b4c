use crate::errors::Error;
use vstd::prelude::*;

verus! {

/// All accepted challenge types.
#[derive(Debug, Clone, Copy, PartialEq, Eq, Hash, Structural)]
pub enum CaptchaChallenge {
    AFireHydrant,
    Bridges,
    Cars,
    Motorcycles,
    PalmTrees,
    Stairs,
    StoreFront,
    Tractors,
    Bicycles,
    Bus,
    Crosswalks,
    MountainsOrHills,
    ParkingMeters,
    Statues,
    Taxis,
    TrafficLights,
}

/// The number of members of the challenge catalog.
pub const CHALLENGE_COUNT: u64 = 16;

/// Whether two string slices hold the same characters.
pub fn str_eq(a: &str, b: &str) -> (same: bool)
    ensures
        same == (a@ == b@),
{
    let x = a.as_bytes();
    let y = b.as_bytes();
    proof {
        vstd::utf8::encode_utf8_decode_utf8(a@);
        vstd::utf8::encode_utf8_decode_utf8(b@);
    }
    if x.len() != y.len() {
        return false;
    }
    let mut i: usize = 0;
    while i < x.len()
        invariant
            i <= x.len(),
            x@.len() == y@.len(),
            a@ == b@ ==> x@ == y@,
            forall|j: int| 0 <= j < i ==> x@[j] == y@[j],
        decreases x.len() - i,
    {
        if x[i] != y[i] {
            return false;
        }
        i += 1;
    }
    assert(x@ =~= y@);
    true
}

impl CaptchaChallenge {
    /// The canonical name of the challenge: lower case, words joined by `_`.
    pub open spec fn name(self) -> Seq<char> {
        match self {
            CaptchaChallenge::AFireHydrant => "a_fire_hydrant"@,
            CaptchaChallenge::Bridges => "bridges"@,
            CaptchaChallenge::Cars => "cars"@,
            CaptchaChallenge::Motorcycles => "motorcycles"@,
            CaptchaChallenge::PalmTrees => "palm_trees"@,
            CaptchaChallenge::Stairs => "stairs"@,
            CaptchaChallenge::StoreFront => "store_front"@,
            CaptchaChallenge::Tractors => "tractors"@,
            CaptchaChallenge::Bicycles => "bicycles"@,
            CaptchaChallenge::Bus => "bus"@,
            CaptchaChallenge::Crosswalks => "crosswalks"@,
            CaptchaChallenge::MountainsOrHills => "mountains_or_hills"@,
            CaptchaChallenge::ParkingMeters => "parking_meters"@,
            CaptchaChallenge::Statues => "statues"@,
            CaptchaChallenge::Taxis => "taxis"@,
            CaptchaChallenge::TrafficLights => "traffic_lights"@,
        }
    }

    /// The position of the challenge in the catalog, counted from zero.
    pub open spec fn index(self) -> nat {
        match self {
            CaptchaChallenge::AFireHydrant => 0,
            CaptchaChallenge::Bridges => 1,
            CaptchaChallenge::Cars => 2,
            CaptchaChallenge::Motorcycles => 3,
            CaptchaChallenge::PalmTrees => 4,
            CaptchaChallenge::Stairs => 5,
            CaptchaChallenge::StoreFront => 6,
            CaptchaChallenge::Tractors => 7,
            CaptchaChallenge::Bicycles => 8,
            CaptchaChallenge::Bus => 9,
            CaptchaChallenge::Crosswalks => 10,
            CaptchaChallenge::MountainsOrHills => 11,
            CaptchaChallenge::ParkingMeters => 12,
            CaptchaChallenge::Statues => 13,
            CaptchaChallenge::Taxis => 14,
            CaptchaChallenge::TrafficLights => 15,
        }
    }

    /// The challenge at position `i` of the catalog.
    pub open spec fn at(i: int) -> CaptchaChallenge {
        if i == 0 {
            CaptchaChallenge::AFireHydrant
        } else if i == 1 {
            CaptchaChallenge::Bridges
        } else if i == 2 {
            CaptchaChallenge::Cars
        } else if i == 3 {
            CaptchaChallenge::Motorcycles
        } else if i == 4 {
            CaptchaChallenge::PalmTrees
        } else if i == 5 {
            CaptchaChallenge::Stairs
        } else if i == 6 {
            CaptchaChallenge::StoreFront
        } else if i == 7 {
            CaptchaChallenge::Tractors
        } else if i == 8 {
            CaptchaChallenge::Bicycles
        } else if i == 9 {
            CaptchaChallenge::Bus
        } else if i == 10 {
            CaptchaChallenge::Crosswalks
        } else if i == 11 {
            CaptchaChallenge::MountainsOrHills
        } else if i == 12 {
            CaptchaChallenge::ParkingMeters
        } else if i == 13 {
            CaptchaChallenge::Statues
        } else if i == 14 {
            CaptchaChallenge::Taxis
        } else {
            CaptchaChallenge::TrafficLights
        }
    }

    /// Whether `name` is the canonical name of some challenge.
    pub open spec fn is_name(name: Seq<char>) -> bool {
        exists|c: CaptchaChallenge| #[trigger] c.name() == name
    }

    /// The challenge that `name` denotes, if it denotes one.
    pub open spec fn parse(name: Seq<char>) -> Option<CaptchaChallenge> {
        if Self::is_name(name) {
            Some(choose|c: CaptchaChallenge| #[trigger] c.name() == name)
        } else {
            None
        }
    }

    /// The canonical name of the challenge.
    pub fn as_str(&self) -> (s: &'static str)
        ensures
            s@ == self.name(),
    {
        match self {
            CaptchaChallenge::AFireHydrant => "a_fire_hydrant",
            CaptchaChallenge::Bridges => "bridges",
            CaptchaChallenge::Cars => "cars",
            CaptchaChallenge::Motorcycles => "motorcycles",
            CaptchaChallenge::PalmTrees => "palm_trees",
            CaptchaChallenge::Stairs => "stairs",
            CaptchaChallenge::StoreFront => "store_front",
            CaptchaChallenge::Tractors => "tractors",
            CaptchaChallenge::Bicycles => "bicycles",
            CaptchaChallenge::Bus => "bus",
            CaptchaChallenge::Crosswalks => "crosswalks",
            CaptchaChallenge::MountainsOrHills => "mountains_or_hills",
            CaptchaChallenge::ParkingMeters => "parking_meters",
            CaptchaChallenge::Statues => "statues",
            CaptchaChallenge::Taxis => "taxis",
            CaptchaChallenge::TrafficLights => "traffic_lights",
        }
    }

    /// The canonical name of the challenge, as an owned string.
    pub fn to_string(&self) -> (s: String)
        ensures
            s@ == self.name(),
    {
        self.as_str().to_owned()
    }

    /// The position of the challenge in the catalog.
    pub fn ordinal(&self) -> (i: u64)
        ensures
            i == self.index(),
            i < CHALLENGE_COUNT,
    {
        match self {
            CaptchaChallenge::AFireHydrant => 0,
            CaptchaChallenge::Bridges => 1,
            CaptchaChallenge::Cars => 2,
            CaptchaChallenge::Motorcycles => 3,
            CaptchaChallenge::PalmTrees => 4,
            CaptchaChallenge::Stairs => 5,
            CaptchaChallenge::StoreFront => 6,
            CaptchaChallenge::Tractors => 7,
            CaptchaChallenge::Bicycles => 8,
            CaptchaChallenge::Bus => 9,
            CaptchaChallenge::Crosswalks => 10,
            CaptchaChallenge::MountainsOrHills => 11,
            CaptchaChallenge::ParkingMeters => 12,
            CaptchaChallenge::Statues => 13,
            CaptchaChallenge::Taxis => 14,
            CaptchaChallenge::TrafficLights => 15,
        }
    }

    /// The challenge at position `i` of the catalog; `None` past its end.
    pub fn from_ordinal(i: u64) -> (c: Option<CaptchaChallenge>)
        ensures
            i < CHALLENGE_COUNT ==> c == Some(Self::at(i as int)),
            i >= CHALLENGE_COUNT ==> c is None,
    {
        match i {
            0 => Some(CaptchaChallenge::AFireHydrant),
            1 => Some(CaptchaChallenge::Bridges),
            2 => Some(CaptchaChallenge::Cars),
            3 => Some(CaptchaChallenge::Motorcycles),
            4 => Some(CaptchaChallenge::PalmTrees),
            5 => Some(CaptchaChallenge::Stairs),
            6 => Some(CaptchaChallenge::StoreFront),
            7 => Some(CaptchaChallenge::Tractors),
            8 => Some(CaptchaChallenge::Bicycles),
            9 => Some(CaptchaChallenge::Bus),
            10 => Some(CaptchaChallenge::Crosswalks),
            11 => Some(CaptchaChallenge::MountainsOrHills),
            12 => Some(CaptchaChallenge::ParkingMeters),
            13 => Some(CaptchaChallenge::Statues),
            14 => Some(CaptchaChallenge::Taxis),
            15 => Some(CaptchaChallenge::TrafficLights),
            _ => None,
        }
    }
}

/// Every position below the catalog's size holds the challenge with that index.
pub proof fn lemma_at_index(i: int)
    requires
        0 <= i < CHALLENGE_COUNT,
    ensures
        CaptchaChallenge::at(i).index() == i,
{
}

/// Every challenge stands at its own index in the catalog.
pub proof fn lemma_index_at(c: CaptchaChallenge)
    ensures
        c.index() < CHALLENGE_COUNT,
        CaptchaChallenge::at(c.index() as int) == c,
{
}

/// The length and the first character of a challenge's name: enough to tell
/// any two names apart.
spec fn name_shape(c: CaptchaChallenge) -> (nat, char) {
    match c {
        CaptchaChallenge::AFireHydrant => (14, 'a'),
        CaptchaChallenge::Bridges => (7, 'b'),
        CaptchaChallenge::Cars => (4, 'c'),
        CaptchaChallenge::Motorcycles => (11, 'm'),
        CaptchaChallenge::PalmTrees => (10, 'p'),
        CaptchaChallenge::Stairs => (6, 's'),
        CaptchaChallenge::StoreFront => (11, 's'),
        CaptchaChallenge::Tractors => (8, 't'),
        CaptchaChallenge::Bicycles => (8, 'b'),
        CaptchaChallenge::Bus => (3, 'b'),
        CaptchaChallenge::Crosswalks => (10, 'c'),
        CaptchaChallenge::MountainsOrHills => (18, 'm'),
        CaptchaChallenge::ParkingMeters => (14, 'p'),
        CaptchaChallenge::Statues => (7, 's'),
        CaptchaChallenge::Taxis => (5, 't'),
        CaptchaChallenge::TrafficLights => (14, 't'),
    }
}

proof fn lemma_name_shape(c: CaptchaChallenge)
    ensures
        c.name().len() == name_shape(c).0,
        c.name()[0] == name_shape(c).1,
{
    reveal_strlit("a_fire_hydrant");
    reveal_strlit("bridges");
    reveal_strlit("cars");
    reveal_strlit("motorcycles");
    reveal_strlit("palm_trees");
    reveal_strlit("stairs");
    reveal_strlit("store_front");
    reveal_strlit("tractors");
    reveal_strlit("bicycles");
    reveal_strlit("bus");
    reveal_strlit("crosswalks");
    reveal_strlit("mountains_or_hills");
    reveal_strlit("parking_meters");
    reveal_strlit("statues");
    reveal_strlit("taxis");
    reveal_strlit("traffic_lights");
}

/// Whether a character may stand in a canonical name: a lower-case letter
/// of the basic alphabet, or the underscore that joins words.
pub open spec fn is_name_char(c: char) -> bool {
    ('a' <= c && c <= 'z') || c == '_'
}

/// Canonical names are written in lower case with underscores, and are
/// neither empty nor longer than eighteen characters.
pub proof fn lemma_names_are_snake_case(c: CaptchaChallenge)
    ensures
        3 <= c.name().len() <= 18,
        forall|i: int| 0 <= i < c.name().len() ==> is_name_char(#[trigger] c.name()[i]),
{
    reveal_strlit("a_fire_hydrant");
    reveal_strlit("bridges");
    reveal_strlit("cars");
    reveal_strlit("motorcycles");
    reveal_strlit("palm_trees");
    reveal_strlit("stairs");
    reveal_strlit("store_front");
    reveal_strlit("tractors");
    reveal_strlit("bicycles");
    reveal_strlit("bus");
    reveal_strlit("crosswalks");
    reveal_strlit("mountains_or_hills");
    reveal_strlit("parking_meters");
    reveal_strlit("statues");
    reveal_strlit("taxis");
    reveal_strlit("traffic_lights");
}

/// No two challenges share a name.
pub proof fn lemma_names_distinct(a: CaptchaChallenge, b: CaptchaChallenge)
    requires
        a.name() == b.name(),
    ensures
        a == b,
{
    lemma_name_shape(a);
    lemma_name_shape(b);
}

/// Parsing the name of a challenge gives that challenge back.
pub proof fn lemma_parse_name(c: CaptchaChallenge)
    ensures
        CaptchaChallenge::parse(c.name()) == Some(c),
{
    assert(CaptchaChallenge::is_name(c.name()));
    let d = choose|d: CaptchaChallenge| #[trigger] d.name() == c.name();
    lemma_names_distinct(d, c);
}

/// A name parses to a challenge exactly when it is that challenge's name.
pub proof fn lemma_parse_is_inverse(name: Seq<char>, c: CaptchaChallenge)
    ensures
        CaptchaChallenge::parse(name) == Some(c) <==> c.name() == name,
{
    if c.name() == name {
        lemma_parse_name(c);
    }
}

impl CaptchaChallenge {
    /// Parses a canonical name, case-sensitively and without trimming.
    pub fn from_str(name: &str) -> (r: Result<CaptchaChallenge, Error>)
        ensures
            match r {
                Ok(c) => Self::parse(name@) == Some(c),
                Err(e) => Self::parse(name@) is None && e == Error::StrumParseError,
            },
    {
        let mut i: u64 = 0;
        while i < CHALLENGE_COUNT
            invariant
                i <= CHALLENGE_COUNT,
                forall|j: int| 0 <= j < i ==> (#[trigger] Self::at(j)).name() != name@,
            decreases CHALLENGE_COUNT - i,
        {
            if let Some(c) = Self::from_ordinal(i) {
                if str_eq(name, c.as_str()) {
                    proof {
                        lemma_parse_is_inverse(name@, c);
                    }
                    return Ok(c);
                }
            }
            i += 1;
        }
        proof {
            assert forall|c: CaptchaChallenge| c.name() != name@ by {
                lemma_index_at(c);
                assert(Self::at(c.index() as int).name() != name@);
            }
        }
        Err(Error::StrumParseError)
    }

    /// Whether `name` is the canonical name of a challenge.
    pub fn is_valid_challenge(name: &str) -> (valid: bool)
        ensures
            valid == Self::is_name(name@),
    {
        Self::from_str(name).is_ok()
    }

    /// The same test for a name that may not be text at all: `None` stands
    /// for a name that is not valid UTF-8, and is never a challenge.
    pub fn is_valid_challenge_os_str(name: Option<&str>) -> (valid: bool)
        ensures
            valid == match name {
                Some(text) => Self::is_name(text@),
                None => false,
            },
    {
        if let Some(text) = name {
            return Self::is_valid_challenge(text);
        }
        false
    }
}

} // verus!
