//! The eight temperature scales and the conversions among them.

use crate::formula::Formula;
use crate::ratio::{lemma_quotient_eq, representable, Ratio};
use vstd::prelude::*;

verus! {

/// The scales that can be converted to and from.
#[derive(Debug, Clone, Copy, PartialEq, Eq, Structural)]
pub enum Scales {
    /// The Celsius scale, which is also the default.
    Celsius,
    /// The Fahrenheit scale.
    Fahrenheit,
    /// The Kelvin scale.
    Kelvin,
    /// The Rankine scale.
    Rankine,
    /// The Delisle scale.
    Delisle,
    /// The Newton scale.
    Newton,
    /// The Réaumur scale.
    Reaumur,
    /// The Rømer scale.
    Romer,
}

impl Default for Scales {
    /// The Celsius scale.
    fn default() -> (scale: Scales)
        ensures
            scale == Scales::Celsius,
    {
        Scales::Celsius
    }
}

impl Scales {
    /// All the scales, in the order in which they are listed and shown.
    pub const ALL: [Scales; 8] = [
        Scales::Celsius,
        Scales::Fahrenheit,
        Scales::Kelvin,
        Scales::Rankine,
        Scales::Delisle,
        Scales::Newton,
        Scales::Reaumur,
        Scales::Romer,
    ];

    /// The symbol of the scale.
    pub open spec fn symbol(self) -> Seq<char> {
        match self {
            Scales::Celsius => "°C"@,
            Scales::Fahrenheit => "°F"@,
            Scales::Kelvin => "K"@,
            Scales::Rankine => "°R"@,
            Scales::Delisle => "°De"@,
            Scales::Newton => "°N"@,
            Scales::Reaumur => "°Ré"@,
            Scales::Romer => "°Rø"@,
        }
    }

    /// The name of the scale, written out.
    pub open spec fn full_name(self) -> Seq<char> {
        match self {
            Scales::Celsius => "Celsius"@,
            Scales::Fahrenheit => "Fahrenheit"@,
            Scales::Kelvin => "Kelvin"@,
            Scales::Rankine => "Rankine"@,
            Scales::Delisle => "Delisle"@,
            Scales::Newton => "Newton"@,
            Scales::Reaumur => "Réaumur"@,
            Scales::Romer => "Rømer"@,
        }
    }

    /// Get the symbol for a scale.
    pub fn short(&self) -> (s: String)
        ensures
            s@ == self.symbol(),
            s@.len() > 0,
    {
        proof {
            lemma_texts_not_empty(*self);
        }
        match self {
            Scales::Celsius => "°C".to_string(),
            Scales::Fahrenheit => "°F".to_string(),
            Scales::Kelvin => "K".to_string(),
            Scales::Rankine => "°R".to_string(),
            Scales::Delisle => "°De".to_string(),
            Scales::Newton => "°N".to_string(),
            Scales::Reaumur => "°Ré".to_string(),
            Scales::Romer => "°Rø".to_string(),
        }
    }

    /// Get the name of a scale.
    pub fn name(&self) -> (s: String)
        ensures
            s@ == self.full_name(),
            s@.len() > 0,
    {
        proof {
            lemma_texts_not_empty(*self);
        }
        match self {
            Scales::Celsius => "Celsius".to_string(),
            Scales::Fahrenheit => "Fahrenheit".to_string(),
            Scales::Kelvin => "Kelvin".to_string(),
            Scales::Rankine => "Rankine".to_string(),
            Scales::Delisle => "Delisle".to_string(),
            Scales::Newton => "Newton".to_string(),
            Scales::Reaumur => "Réaumur".to_string(),
            Scales::Romer => "Rømer".to_string(),
        }
    }

    /// The text that stands for the scale in a list of choices: the symbol,
    /// then the name in round brackets.
    pub fn label(&self) -> (s: String)
        ensures
            s@ == self.symbol() + " ("@ + self.full_name() + ")"@,
    {
        let mut s = self.short();
        let name = self.name();
        s.append(" (");
        s.append(name.as_str());
        s.append(")");
        s
    }

    /// The reading on this scale of a temperature of `c` degrees Celsius.
    pub open spec fn of_celsius(self, c: real) -> real {
        match self {
            Scales::Celsius => c,
            Scales::Fahrenheit => c * (9real / 5real) + 32real,
            Scales::Kelvin => c + 27315real / 100real,
            Scales::Rankine => (c + 27315real / 100real) * (9real / 5real),
            Scales::Delisle => (100real - c) * (3real / 2real),
            Scales::Newton => c * (33real / 100real),
            Scales::Reaumur => c * (4real / 5real),
            Scales::Romer => c * (21real / 40real) + 15real / 2real,
        }
    }

    /// The temperature in degrees Celsius that reads `x` on this scale.
    pub open spec fn in_celsius(self, x: real) -> real {
        match self {
            Scales::Celsius => x,
            Scales::Fahrenheit => (x - 32real) * (5real / 9real),
            Scales::Kelvin => x - 27315real / 100real,
            Scales::Rankine => x * (5real / 9real) - 27315real / 100real,
            Scales::Delisle => 100real - x * (2real / 3real),
            Scales::Newton => x * (100real / 33real),
            Scales::Reaumur => x * (5real / 4real),
            Scales::Romer => (x - 15real / 2real) * (40real / 21real),
        }
    }

    /// The reading on the scale `to` of the temperature that reads `x` on
    /// this scale.
    pub open spec fn converted(self, to: Scales, x: real) -> real {
        to.of_celsius(self.in_celsius(x))
    }

    /// Convert the reading `num` on this scale to the scale `convert_to`, in
    /// exact arithmetic.
    ///
    /// A reading converted to its own scale comes back as it is. Any other
    /// result is the exact value in lowest terms; there is none only where
    /// no [`Ratio`] can hold that value.
    pub fn convert_to(&self, convert_to: Scales, num: Ratio) -> (out: Option<Ratio>)
        ensures
            out matches Some(r) ==> r@ == self.converted(convert_to, num@),
            out is None <==> !representable(self.converted(convert_to, num@)),
            *self == convert_to ==> out == Some(num),
    {
        if *self == convert_to {
            let n: i64 = num.numer();
            let d: i64 = num.denom();
            proof {
                lemma_identity(*self, num@);
                lemma_quotient_eq(n as int, d as int, n as int, d as int);
            }
            Some(num)
        } else {
            self.formula(convert_to).evaluate(num)
        }
    }

    /// The formula that converts a reading on this scale to the scale `to`.
    ///
    /// Over the real numbers the formula computes exactly the conversion that
    /// the two scales' definitions give. Between a scale and itself it has no
    /// step at all, so that a reading comes back untouched in any arithmetic.
    pub fn formula(&self, to: Scales) -> (f: Formula)
        ensures
            forall|x: real| #[trigger] f.apply(x) == self.converted(to, x),
            *self == to <==> f@.len() == 0,
    {
        match self {
            Scales::Celsius => match to {
                Scales::Celsius => Formula::reading(),
                Scales::Fahrenheit => Formula::reading().times(9, 5).plus(3200),
                Scales::Kelvin => Formula::reading().plus(27315),
                Scales::Rankine => Formula::reading().plus(27315).times(9, 5),
                Scales::Delisle => Formula::reading().taken_from(10000).times(3, 2),
                Scales::Newton => Formula::reading().times(33, 100),
                Scales::Reaumur => Formula::reading().times(4, 5),
                Scales::Romer => Formula::reading().times(21, 40).plus(750),
            },
            Scales::Fahrenheit => match to {
                Scales::Celsius => Formula::reading().minus(3200).times(5, 9),
                Scales::Fahrenheit => Formula::reading(),
                Scales::Kelvin => Formula::reading().plus(45967).times(5, 9),
                Scales::Rankine => Formula::reading().plus(45967),
                Scales::Delisle => Formula::reading().taken_from(21200).times(5, 6),
                Scales::Newton => Formula::reading().minus(3200).times(11, 60),
                Scales::Reaumur => Formula::reading().minus(3200).times(4, 9),
                Scales::Romer => Formula::reading().minus(3200).times(7, 24).plus(750),
            },
            Scales::Kelvin => match to {
                Scales::Celsius => Formula::reading().minus(27315),
                Scales::Fahrenheit => Formula::reading().times(9, 5).minus(45967),
                Scales::Kelvin => Formula::reading(),
                Scales::Rankine => Formula::reading().times(9, 5),
                Scales::Delisle => Formula::reading().taken_from(37315).times(3, 2),
                Scales::Newton => Formula::reading().minus(27315).times(33, 100),
                Scales::Reaumur => Formula::reading().minus(27315).times(4, 5),
                Scales::Romer => Formula::reading().minus(27315).times(21, 40).plus(750),
            },
            Scales::Rankine => match to {
                Scales::Celsius => Formula::reading().minus(49167).times(5, 9),
                Scales::Fahrenheit => Formula::reading().minus(45967),
                Scales::Kelvin => Formula::reading().times(5, 9),
                Scales::Rankine => Formula::reading(),
                Scales::Delisle => Formula::reading().taken_from(67167).times(5, 6),
                Scales::Newton => Formula::reading().minus(49167).times(11, 60),
                Scales::Reaumur => Formula::reading().minus(49167).times(4, 9),
                Scales::Romer => Formula::reading().minus(49167).times(7, 24).plus(750),
            },
            Scales::Delisle => match to {
                Scales::Celsius => Formula::reading().times(2, 3).taken_from(10000),
                Scales::Fahrenheit => Formula::reading().times(6, 5).taken_from(21200),
                Scales::Kelvin => Formula::reading().times(2, 3).taken_from(37315),
                Scales::Rankine => Formula::reading().times(6, 5).taken_from(67167),
                Scales::Delisle => Formula::reading(),
                Scales::Newton => Formula::reading().times(11, 50).taken_from(3300),
                Scales::Reaumur => Formula::reading().times(8, 15).taken_from(8000),
                Scales::Romer => Formula::reading().times(7, 20).taken_from(6000),
            },
            Scales::Newton => match to {
                Scales::Celsius => Formula::reading().times(100, 33),
                Scales::Fahrenheit => Formula::reading().times(60, 11).plus(3200),
                Scales::Kelvin => Formula::reading().times(100, 33).plus(27315),
                Scales::Rankine => Formula::reading().times(60, 11).plus(49167),
                Scales::Delisle => Formula::reading().taken_from(3300).times(50, 11),
                Scales::Newton => Formula::reading(),
                Scales::Reaumur => Formula::reading().times(80, 33),
                Scales::Romer => Formula::reading().times(35, 22).plus(750),
            },
            Scales::Reaumur => match to {
                Scales::Celsius => Formula::reading().times(5, 4),
                Scales::Fahrenheit => Formula::reading().times(9, 4).plus(3200),
                Scales::Kelvin => Formula::reading().times(5, 4).plus(27315),
                Scales::Rankine => Formula::reading().times(9, 4).plus(49167),
                Scales::Delisle => Formula::reading().taken_from(8000).times(15, 8),
                Scales::Newton => Formula::reading().times(33, 80),
                Scales::Reaumur => Formula::reading(),
                Scales::Romer => Formula::reading().times(21, 32).plus(750),
            },
            Scales::Romer => match to {
                Scales::Celsius => Formula::reading().minus(750).times(40, 21),
                Scales::Fahrenheit => Formula::reading().minus(750).times(24, 7).plus(3200),
                Scales::Kelvin => Formula::reading().minus(750).times(40, 21).plus(27315),
                Scales::Rankine => Formula::reading().minus(750).times(24, 7).plus(49167),
                Scales::Delisle => Formula::reading().taken_from(6000).times(20, 7),
                Scales::Newton => Formula::reading().minus(750).times(22, 35),
                Scales::Reaumur => Formula::reading().minus(750).times(32, 21),
                Scales::Romer => Formula::reading(),
            },
        }
    }
}

/// Every scale has a symbol and a name, and neither is empty.
pub proof fn lemma_texts_not_empty(scale: Scales)
    ensures
        scale.symbol().len() > 0,
        scale.full_name().len() > 0,
{
    reveal_strlit("°C");
    reveal_strlit("°F");
    reveal_strlit("K");
    reveal_strlit("°R");
    reveal_strlit("°De");
    reveal_strlit("°N");
    reveal_strlit("°Ré");
    reveal_strlit("°Rø");
    reveal_strlit("Celsius");
    reveal_strlit("Fahrenheit");
    reveal_strlit("Kelvin");
    reveal_strlit("Rankine");
    reveal_strlit("Delisle");
    reveal_strlit("Newton");
    reveal_strlit("Réaumur");
    reveal_strlit("Rømer");
}

/// The list of all scales holds every scale once: eight of them, in the
/// order of their declaration.
pub proof fn lemma_all_scales()
    ensures
        Scales::ALL@ == seq![
            Scales::Celsius,
            Scales::Fahrenheit,
            Scales::Kelvin,
            Scales::Rankine,
            Scales::Delisle,
            Scales::Newton,
            Scales::Reaumur,
            Scales::Romer,
        ],
        Scales::ALL@.len() == 8,
        forall|i: int, j: int| 0 <= i < j < 8 ==> Scales::ALL@[i] != Scales::ALL@[j],
        forall|scale: Scales| #[trigger] Scales::ALL@.contains(scale),
{
    assert forall|scale: Scales| #[trigger] Scales::ALL@.contains(scale) by {
        let i: int = match scale {
            Scales::Celsius => 0,
            Scales::Fahrenheit => 1,
            Scales::Kelvin => 2,
            Scales::Rankine => 3,
            Scales::Delisle => 4,
            Scales::Newton => 5,
            Scales::Reaumur => 6,
            Scales::Romer => 7,
        };
        assert(Scales::ALL@[i] == scale);
    }
}

/// A temperature has one reading on each scale: going to degrees Celsius and
/// back changes nothing, in either direction.
pub proof fn lemma_celsius_inverse(scale: Scales, v: real)
    ensures
        scale.of_celsius(scale.in_celsius(v)) == v,
        scale.in_celsius(scale.of_celsius(v)) == v,
{
}

/// Converting a reading to its own scale gives the reading itself.
pub proof fn lemma_identity(scale: Scales, v: real)
    ensures
        scale.converted(scale, v) == v,
{
}

/// Converting a reading to another scale and back gives the reading itself.
pub proof fn lemma_round_trip(a: Scales, b: Scales, v: real)
    ensures
        b.converted(a, a.converted(b, v)) == v,
{
    lemma_celsius_inverse(b, a.in_celsius(v));
    lemma_celsius_inverse(a, v);
}

/// Converting by way of a third scale gives what the direct conversion gives.
pub proof fn lemma_cross_consistency(a: Scales, b: Scales, c: Scales, v: real)
    ensures
        b.converted(c, a.converted(b, v)) == a.converted(c, v),
{
    lemma_celsius_inverse(b, a.in_celsius(v));
}

} // verus!
