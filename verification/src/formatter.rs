//! The text of an input field, made ready for a number parser.

use vstd::prelude::*;
use vstd::std_specs::iter::IteratorSpec;

verus! {

/// Whether `c` has the Unicode property White_Space.
pub uninterp spec fn white_space(c: char) -> bool;

/// `char::is_whitespace` tells whether a character has the Unicode property
/// White_Space. The property's table is not written out here: the result
/// goes by the name [`white_space`].
pub assume_specification[ char::is_whitespace ](c: char) -> (b: bool)
    ensures
        b == white_space(c),
;

/// `String::push` appends the character to the end of the string.
pub assume_specification[ String::push ](text: &mut String, c: char)
    ensures
        final(text)@ == old(text)@.push(c),
;

/// The text without the white space at its start.
pub open spec fn trim_start(text: Seq<char>) -> Seq<char>
    decreases text.len(),
{
    if text.len() > 0 && white_space(text.first()) {
        trim_start(text.drop_first())
    } else {
        text
    }
}

/// The text without the white space at its end.
pub open spec fn trim_end(text: Seq<char>) -> Seq<char>
    decreases text.len(),
{
    if text.len() > 0 && white_space(text.last()) {
        trim_end(text.drop_last())
    } else {
        text
    }
}

/// The character itself, but a full stop for a comma.
pub open spec fn decimal_point(c: char) -> char {
    if c == ',' {
        '.'
    } else {
        c
    }
}

/// The text with a full stop in place of each comma.
pub open spec fn with_points(text: Seq<char>) -> Seq<char> {
    Seq::new(text.len(), |i: int| decimal_point(text[i]))
}

/// The text without the white space around it, and with a full stop in place
/// of each comma.
pub open spec fn normalized(text: Seq<char>) -> Seq<char> {
    with_points(trim_end(trim_start(text)))
}

/// What one more character at the end does to a text trimmed at its start:
/// it is appended, unless all so far was white space and so is the character.
proof fn lemma_trim_start_push(text: Seq<char>, c: char)
    ensures
        trim_start(text.push(c)) == if trim_start(text).len() == 0 && white_space(c) {
            Seq::<char>::empty()
        } else {
            trim_start(text).push(c)
        },
    decreases text.len(),
{
    let longer = text.push(c);
    if text.len() == 0 {
        assert(longer.drop_first() =~= Seq::<char>::empty());
        assert(trim_start(longer.drop_first()) =~= Seq::<char>::empty());
    } else if white_space(text.first()) {
        assert(longer.drop_first() =~= text.drop_first().push(c));
        lemma_trim_start_push(text.drop_first(), c);
    }
}

/// Replacing commas goes character by character.
proof fn lemma_with_points_push(text: Seq<char>, c: char)
    ensures
        with_points(text.push(c)) == with_points(text).push(decimal_point(c)),
{
    assert(with_points(text.push(c)) =~= with_points(text).push(decimal_point(c)));
}

/// The policy of the temperature input field.
#[derive(Debug, Clone, Copy, PartialEq, Eq, Default)]
pub struct TemperatureFormatter;

impl TemperatureFormatter {
    /// The text from which the field's number is read: the input without the
    /// white space around it, and with a full stop in place of each comma.
    pub fn normalize(&self, input: &str) -> (out: String)
        ensures
            out@ == normalized(input@),
    {
        let mut out = String::new();
        // White space that is kept only if something else follows it.
        let mut held = String::new();
        let mut rest = input.chars();
        let ghost mut seen: Seq<char> = Seq::empty();
        proof {
            assert(with_points(Seq::<char>::empty()) =~= Seq::<char>::empty());
        }
        loop
            invariant
                seen + rest.remaining() == input@,
                out@ == normalized(seen),
                out@ + held@ == with_points(trim_start(seen)),
            decreases input@.len() - seen.len(),
        {
            match rest.next() {
                None => {
                    proof {
                        assert(seen =~= input@);
                    }
                    return out;
                },
                Some(c) => {
                    let ghost body = trim_start(seen);
                    proof {
                        lemma_trim_start_push(seen, c);
                        lemma_with_points_push(body, c);
                        assert(body.push(c).drop_last() =~= body);
                        seen = seen.push(c);
                    }
                    let point: char = if c == ',' {
                        '.'
                    } else {
                        c
                    };
                    if !c.is_whitespace() {
                        out.append(held.as_str());
                        out.push(point);
                        held = String::new();
                    } else if !out.as_str().is_empty() || !held.as_str().is_empty() {
                        held.push(point);
                        proof {
                            assert(out@ + held@ =~= with_points(body).push(point));
                        }
                    }
                },
            }
        }
    }
}

} // verus!
