//! The closed set of waveform families and its name mapping.

use vstd::prelude::*;

verus! {

/// The different signals that can be generated.
#[derive(Copy, Clone, Debug, PartialEq, Eq, Structural)]
pub enum SignalType {
    Sine,
    Square,
    Triangle,
    Sawtooth,
    Constant,
}

/// The canonical name of each signal type.
pub open spec fn name_of(t: SignalType) -> Seq<char> {
    match t {
        SignalType::Sine => "Sine"@,
        SignalType::Square => "Square"@,
        SignalType::Triangle => "Triangle"@,
        SignalType::Sawtooth => "Sawtooth"@,
        SignalType::Constant => "Constant"@,
    }
}

/// The signal type a name string denotes, if any; matching is exact and
/// case-sensitive.
pub open spec fn parse_name(s: Seq<char>) -> Option<SignalType> {
    if s == "Sine"@ {
        Some(SignalType::Sine)
    } else if s == "Square"@ {
        Some(SignalType::Square)
    } else if s == "Triangle"@ {
        Some(SignalType::Triangle)
    } else if s == "Sawtooth"@ {
        Some(SignalType::Sawtooth)
    } else if s == "Constant"@ {
        Some(SignalType::Constant)
    } else {
        None
    }
}

/// Whether two strings hold the same characters.
pub fn eq_str(a: &str, b: &str) -> (r: bool)
    ensures
        r == (a@ == b@),
{
    let x: String = a.to_owned();
    let y: String = b.to_owned();
    x == y
}

impl SignalType {
    /// The canonical name of this signal type.
    pub fn to_string(&self) -> (r: &'static str)
        ensures
            r@ == name_of(*self),
    {
        match self {
            SignalType::Sine => "Sine",
            SignalType::Square => "Square",
            SignalType::Triangle => "Triangle",
            SignalType::Sawtooth => "Sawtooth",
            SignalType::Constant => "Constant",
        }
    }

    /// The signal type named by `string`, or `None` for an unrecognized name.
    pub fn try_from_string(string: &str) -> (r: Option<SignalType>)
        ensures
            r == parse_name(string@),
    {
        if eq_str(string, "Sine") {
            Some(SignalType::Sine)
        } else if eq_str(string, "Square") {
            Some(SignalType::Square)
        } else if eq_str(string, "Triangle") {
            Some(SignalType::Triangle)
        } else if eq_str(string, "Sawtooth") {
            Some(SignalType::Sawtooth)
        } else if eq_str(string, "Constant") {
            Some(SignalType::Constant)
        } else {
            None
        }
    }

    /// The signal type named by `string`, which must be a recognized name.
    pub fn parse(string: &str) -> (r: SignalType)
        requires
            parse_name(string@) is Some,
        ensures
            Some(r) == parse_name(string@),
    {
        match SignalType::try_from_string(string) {
            Some(t) => t,
            None => unreached(),
        }
    }

    /// The signal type named by `string`, which must be a recognized name.
    pub fn from(string: &str) -> (r: SignalType)
        requires
            parse_name(string@) is Some,
        ensures
            Some(r) == parse_name(string@),
    {
        SignalType::parse(string)
    }

    /// The signal type named by `string`, which must be a recognized name.
    pub fn from_string(string: &str) -> (r: SignalType)
        requires
            parse_name(string@) is Some,
        ensures
            Some(r) == parse_name(string@),
    {
        SignalType::parse(string)
    }

    /// All five signal types, in their fixed enumeration order.
    pub fn get_types() -> (r: Vec<SignalType>)
        ensures
            r@ == seq![
                SignalType::Sine,
                SignalType::Square,
                SignalType::Triangle,
                SignalType::Sawtooth,
                SignalType::Constant,
            ],
    {
        let r = vec![
            SignalType::Sine,
            SignalType::Square,
            SignalType::Triangle,
            SignalType::Sawtooth,
            SignalType::Constant,
        ];
        proof {
            assert(r@ =~= seq![
                SignalType::Sine,
                SignalType::Square,
                SignalType::Triangle,
                SignalType::Sawtooth,
                SignalType::Constant,
            ]);
        }
        r
    }
}

/// The five canonical names are pairwise different strings.
pub proof fn lemma_names_distinct()
    ensures
        "Sine"@ != "Square"@,
        "Sine"@ != "Triangle"@,
        "Sine"@ != "Sawtooth"@,
        "Sine"@ != "Constant"@,
        "Square"@ != "Triangle"@,
        "Square"@ != "Sawtooth"@,
        "Square"@ != "Constant"@,
        "Triangle"@ != "Sawtooth"@,
        "Triangle"@ != "Constant"@,
        "Sawtooth"@ != "Constant"@,
{
    reveal_strlit("Sine");
    reveal_strlit("Square");
    reveal_strlit("Triangle");
    reveal_strlit("Sawtooth");
    reveal_strlit("Constant");
    assert("Sine"@.len() == 4);
    assert("Square"@.len() == 6);
    assert("Triangle"@.len() == 8);
    assert("Sawtooth"@.len() == 8);
    assert("Constant"@.len() == 8);
    assert("Triangle"@[0] == 'T');
    assert("Sawtooth"@[0] == 'S');
    assert("Constant"@[0] == 'C');
    assert("Triangle"@ != "Sawtooth"@);
    assert("Triangle"@ != "Constant"@);
    assert("Sawtooth"@ != "Constant"@);
}

/// Names round-trip: parsing the canonical name of a type gives the type back.
pub proof fn lemma_name_round_trip(t: SignalType)
    ensures
        parse_name(name_of(t)) == Some(t),
{
    lemma_names_distinct();
    match t {
        SignalType::Sine => {
            assert(parse_name(name_of(t)) == Some(SignalType::Sine));
        },
        SignalType::Square => {
            assert(parse_name(name_of(t)) == Some(SignalType::Square));
        },
        SignalType::Triangle => {
            assert(parse_name(name_of(t)) == Some(SignalType::Triangle));
        },
        SignalType::Sawtooth => {
            assert(parse_name(name_of(t)) == Some(SignalType::Sawtooth));
        },
        SignalType::Constant => {
            assert(parse_name(name_of(t)) == Some(SignalType::Constant));
        },
    }
}

} // verus!
