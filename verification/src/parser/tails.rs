//! What a parser leaves is a tail of what it was given.
//!
//! No function of the grammar changes the text or looks behind the place it
//! has reached: it drops characters from the front, and the text behind what
//! it read is the text it was given without them. The lemmas here prove this
//! of every function of the grammar, and say which of them always take at
//! least one character. The grammar needs the latter to be well defined: its
//! repetitions end because each round leaves less text.

use vstd::prelude::*;
use super::grammar::{
    age_range, anchored, assigned, assignment, code, color, comma, description, flag, header,
    index_list, index_list_tail, line_ending, next_list, next_number, number, number_pair,
    object, optional, optional_list, position, separator, signed, skip_to, sprite,
    sprite_fields, sprite_tail, sprites, terminator, then_separator, unsigned, Parsed,
};
use super::text;

verus! {

/// `rest` is `s` without some characters at its front.
pub open spec fn is_tail_of(rest: Seq<char>, s: Seq<char>) -> bool {
    rest.len() <= s.len() && rest == s.skip(s.len() - rest.len())
}

/// What `outcome` left of `s` is a tail of `s`.
pub open spec fn leaves_tail<T>(s: Seq<char>, outcome: Parsed<T>) -> bool {
    outcome matches Ok((_, rest)) ==> is_tail_of(rest, s)
}

/// What `outcome` left of `s` is a tail of `s` and shorter than `s`.
pub open spec fn consumes<T>(s: Seq<char>, outcome: Parsed<T>) -> bool {
    outcome matches Ok((_, rest)) ==> is_tail_of(rest, s) && rest.len() < s.len()
}

/// A tail of a tail of a text is a tail of that text.
pub proof fn lemma_tail_of_tail(a: Seq<char>, b: Seq<char>, c: Seq<char>)
    requires
        is_tail_of(a, b),
        is_tail_of(b, c),
    ensures
        is_tail_of(a, c),
{
    assert(c.skip(c.len() - b.len()).skip(b.len() - a.len()) =~= c.skip(c.len() - a.len()));
}

/// What was read from a tail of a text leaves a tail of that text; and so
/// does what was not read.
pub proof fn lemma_from_tail<T>(whole: Seq<char>, s: Seq<char>, outcome: Parsed<T>)
    requires
        is_tail_of(s, whole),
        leaves_tail(s, outcome),
    ensures
        leaves_tail(whole, outcome),
        consumes(s, outcome) || s.len() < whole.len() ==> consumes(whole, outcome),
        is_tail_of(optional(s, outcome).1, whole),
{
    match outcome {
        Ok((_, rest)) => lemma_tail_of_tail(rest, s, whole),
        Err(_) => {},
    }
}

/// A separator, a comma and an end of line each take at least one
/// character.
pub proof fn lemma_separator(s: Seq<char>)
    ensures
        consumes(s, separator(s)),
        consumes(s, comma(s)),
        consumes(s, line_ending(s)),
{
    reveal_strlit(",");
}

/// A separator behind something that was read leaves less than before.
pub proof fn lemma_then_separator<T>(s: Seq<char>, outcome: Parsed<T>)
    requires
        leaves_tail(s, outcome),
    ensures
        consumes(s, then_separator(outcome)),
{
    match outcome {
        Ok((_, rest)) => {
            lemma_separator(rest);
            lemma_from_tail(s, rest, separator(rest));
        },
        Err(_) => {},
    }
}

/// The head of an assignment takes at least its `=`.
pub proof fn lemma_assignment(s: Seq<char>, key: Seq<char>)
    ensures
        consumes(s, assignment(s, key)),
{
    reveal_strlit("=");
    match text::after_literal(s, key) {
        Some(rest) => {
            match text::after_literal(rest, "="@) {
                Some(behind) => lemma_tail_of_tail(behind, rest, s),
                None => {},
            }
        },
        None => {},
    }
}

/// An assignment takes at least one character, whatever its value is, as
/// long as the value leaves a tail.
pub proof fn lemma_assigned<T>(
    s: Seq<char>,
    key: Seq<char>,
    value: spec_fn(Seq<char>) -> Parsed<T>,
)
    requires
        forall|t: Seq<char>| leaves_tail(t, #[trigger] value(t)),
    ensures
        consumes(s, assigned(s, key, value)),
        consumes(s, then_separator(assigned(s, key, value))),
{
    lemma_assignment(s, key);
    match assignment(s, key) {
        Ok((_, rest)) => lemma_from_tail(s, rest, value(rest)),
        Err(_) => {},
    }
    lemma_then_separator(s, assigned(s, key, value));
}

/// Skipping to a key leaves the text from the key on.
pub proof fn lemma_skip_to(s: Seq<char>, key: Seq<char>)
    ensures
        leaves_tail(s, skip_to(s, key)),
{
    text::lemma_from_first_is_tail(s, key);
}

/// An assignment that is looked for takes at least one character.
pub proof fn lemma_anchored<T>(
    s: Seq<char>,
    key: Seq<char>,
    value: spec_fn(Seq<char>) -> Parsed<T>,
)
    requires
        forall|t: Seq<char>| leaves_tail(t, #[trigger] value(t)),
    ensures
        consumes(s, anchored(s, key, value)),
        consumes(s, then_separator(anchored(s, key, value))),
{
    lemma_skip_to(s, key);
    match skip_to(s, key) {
        Ok((_, rest)) => {
            lemma_assigned(rest, key, value);
            lemma_from_tail(s, rest, assigned(rest, key, value));
        },
        Err(_) => {},
    }
    lemma_then_separator(s, anchored(s, key, value));
}

/// A number takes at least one character.
pub proof fn lemma_number(s: Seq<char>)
    ensures
        consumes(s, number(s)),
{
    text::lemma_float_literal_bound(s);
}

/// An integer takes at least one digit.
pub proof fn lemma_integers(s: Seq<char>)
    ensures
        consumes(s, unsigned(s)),
        consumes(s, signed(s)),
        consumes(s, flag(s)),
{
    text::lemma_dec_uint_consumes(s);
    text::lemma_dec_int_consumes(s);
}

/// A code takes at least one character.
pub proof fn lemma_code(s: Seq<char>)
    ensures
        consumes(s, code(s)),
{
    text::lemma_alphanumeric_run_bound(s);
}

/// Two numbers with their comma leave a tail.
pub proof fn lemma_number_pair(s: Seq<char>)
    ensures
        leaves_tail(s, number_pair(s)),
        leaves_tail(s, position(s)),
        leaves_tail(s, age_range(s)),
{
    lemma_number(s);
    match number(s) {
        Ok((_, s1)) => {
            lemma_separator(s1);
            match comma(s1) {
                Ok((_, s2)) => {
                    lemma_number(s2);
                    lemma_from_tail(s1, s2, number(s2));
                    lemma_from_tail(s, s1, number_pair(s));
                },
                Err(_) => {},
            }
        },
        Err(_) => {},
    }
}

/// A colour leaves a tail.
pub proof fn lemma_color(s: Seq<char>)
    ensures
        leaves_tail(s, color(s)),
{
    lemma_number_pair(s);
    match number_pair(s) {
        Ok((_, s1)) => {
            lemma_separator(s1);
            match comma(s1) {
                Ok((_, s2)) => {
                    lemma_number(s2);
                    lemma_from_tail(s1, s2, number(s2));
                    lemma_from_tail(s, s1, color(s));
                },
                Err(_) => {},
            }
        },
        Err(_) => {},
    }
}

/// The integers behind the first of an index list leave a tail.
pub proof fn lemma_index_list_tail(s: Seq<char>)
    ensures
        is_tail_of(index_list_tail(s).1, s),
    decreases s.len(),
{
    assert(s.skip(0) =~= s);
    match text::after_literal(s, ","@) {
        None => {},
        Some(behind_comma) => {
            reveal_strlit(",");
            text::lemma_dec_int_consumes(behind_comma);
            match text::dec_int(behind_comma) {
                None => {},
                Some((_, rest)) => {
                    lemma_index_list_tail(rest);
                    lemma_tail_of_tail(rest, behind_comma, s);
                    lemma_tail_of_tail(index_list_tail(rest).1, rest, s);
                },
            }
        },
    }
}

/// An index list takes at least its first integer.
pub proof fn lemma_index_list(s: Seq<char>)
    ensures
        consumes(s, index_list(s)),
{
    text::lemma_dec_int_consumes(s);
    match text::dec_int(s) {
        Some((_, rest)) => {
            lemma_index_list_tail(rest);
            lemma_tail_of_tail(index_list_tail(rest).1, rest, s);
        },
        None => {},
    }
}

/// All values leave a tail. This is what `lemma_assigned` and
/// `lemma_anchored` ask of the value of an assignment.
pub proof fn lemma_values()
    ensures
        forall|t: Seq<char>| leaves_tail(t, #[trigger] number(t)),
        forall|t: Seq<char>| leaves_tail(t, #[trigger] unsigned(t)),
        forall|t: Seq<char>| leaves_tail(t, #[trigger] signed(t)),
        forall|t: Seq<char>| leaves_tail(t, #[trigger] flag(t)),
        forall|t: Seq<char>| leaves_tail(t, #[trigger] code(t)),
        forall|t: Seq<char>| leaves_tail(t, #[trigger] position(t)),
        forall|t: Seq<char>| leaves_tail(t, #[trigger] age_range(t)),
        forall|t: Seq<char>| leaves_tail(t, #[trigger] color(t)),
        forall|t: Seq<char>| leaves_tail(t, #[trigger] index_list(t)),
{
    assert forall|t: Seq<char>| leaves_tail(t, #[trigger] number(t)) by {
        lemma_number(t);
    }
    assert forall|t: Seq<char>| leaves_tail(t, #[trigger] unsigned(t)) by {
        lemma_integers(t);
    }
    assert forall|t: Seq<char>| leaves_tail(t, #[trigger] signed(t)) by {
        lemma_integers(t);
    }
    assert forall|t: Seq<char>| leaves_tail(t, #[trigger] flag(t)) by {
        lemma_integers(t);
    }
    assert forall|t: Seq<char>| leaves_tail(t, #[trigger] code(t)) by {
        lemma_code(t);
    }
    assert forall|t: Seq<char>| leaves_tail(t, #[trigger] position(t)) by {
        lemma_number_pair(t);
    }
    assert forall|t: Seq<char>| leaves_tail(t, #[trigger] age_range(t)) by {
        lemma_number_pair(t);
    }
    assert forall|t: Seq<char>| leaves_tail(t, #[trigger] color(t)) by {
        lemma_color(t);
    }
    assert forall|t: Seq<char>| leaves_tail(t, #[trigger] index_list(t)) by {
        lemma_index_list(t);
    }
}

/// The fields of a sprite take at least one character.
pub proof fn lemma_sprite_fields(s: Seq<char>)
    ensures
        consumes(s, sprite_fields(s)),
{
    reveal(sprite_fields);
    lemma_values();
    // Each part is read from where the part before it ended. Where a part is
    // not read, nothing is, and the claim holds of an error.
    assert(s.skip(0) =~= s);
    let id = then_separator(assigned(s, "spriteID"@, |s| unsigned(s)));
    lemma_assigned(s, "spriteID"@, |s| unsigned(s));
    lemma_from_tail(s, s, id);
    let behind_id = optional(s, id).1;
    let pos = then_separator(assigned(behind_id, "pos"@, |s| position(s)));
    lemma_assigned(behind_id, "pos"@, |s| position(s));
    lemma_from_tail(s, behind_id, pos);
    let behind_pos = optional(behind_id, pos).1;
    let rot = then_separator(assigned(behind_pos, "rot"@, |s| number(s)));
    lemma_assigned(behind_pos, "rot"@, |s| number(s));
    lemma_from_tail(s, behind_pos, rot);
    let behind_rot = optional(behind_pos, rot).1;
    let h_flip = then_separator(assigned(behind_rot, "hFlip"@, |s| number(s)));
    lemma_assigned(behind_rot, "hFlip"@, |s| number(s));
    lemma_from_tail(s, behind_rot, h_flip);
    let behind_h_flip = optional(behind_rot, h_flip).1;
    let rgb = then_separator(assigned(behind_h_flip, "color"@, |s| color(s)));
    lemma_assigned(behind_h_flip, "color"@, |s| color(s));
    lemma_from_tail(s, behind_h_flip, rgb);
    let behind_rgb = optional(behind_h_flip, rgb).1;
    let ages = then_separator(assigned(behind_rgb, "ageRange"@, |s| age_range(s)));
    lemma_assigned(behind_rgb, "ageRange"@, |s| age_range(s));
    lemma_from_tail(s, behind_rgb, ages);
    let behind_ages = optional(behind_rgb, ages).1;
    let parent = then_separator(assigned(behind_ages, "parent"@, |s| signed(s)));
    lemma_assigned(behind_ages, "parent"@, |s| signed(s));
    lemma_from_tail(s, behind_ages, parent);
    let behind_parent = optional(behind_ages, parent).1;
    let invis_holding = then_separator(assigned(behind_parent, "invisHolding"@, |s| number(s)));
    lemma_assigned(behind_parent, "invisHolding"@, |s| number(s));
    lemma_from_tail(s, behind_parent, invis_holding);
    let behind_invis_holding = optional(behind_parent, invis_holding).1;
    let invis_worn = then_separator(assigned(behind_invis_holding, "invisWorn"@, |s| number(s)));
    lemma_assigned(behind_invis_holding, "invisWorn"@, |s| number(s));
    lemma_from_tail(s, behind_invis_holding, invis_worn);
    let behind_invis_worn = optional(behind_invis_holding, invis_worn).1;
    let behind_slots = assigned(behind_invis_worn, "behindSlots"@, |s| number(s));
    lemma_assigned(behind_invis_worn, "behindSlots"@, |s| number(s));
    lemma_from_tail(s, behind_invis_worn, behind_slots);
}

/// A separator with a number behind it takes at least one character.
pub proof fn lemma_next_number(s: Seq<char>, key: Seq<char>)
    ensures
        consumes(s, next_number(s, key)),
{
    lemma_values();
    lemma_separator(s);
    match separator(s) {
        Ok((_, rest)) => {
            lemma_assigned(rest, key, |s| number(s));
            lemma_from_tail(s, rest, assigned(rest, key, |s| number(s)));
        },
        Err(_) => {},
    }
}

/// The optional end of a sprite leaves a tail.
pub proof fn lemma_sprite_tail(s: Seq<char>)
    ensures
        is_tail_of(sprite_tail(s).1, s),
{
    assert(s.skip(0) =~= s);
    lemma_next_number(s, "invisCont"@);
    let behind_invis_cont = optional(s, next_number(s, "invisCont"@)).1;
    lemma_next_number(behind_invis_cont, "ignoredCont"@);
    lemma_from_tail(s, behind_invis_cont, next_number(behind_invis_cont, "ignoredCont"@));
}

/// A sprite takes at least one character.
pub proof fn lemma_sprite(s: Seq<char>)
    ensures
        consumes(s, sprite(s)),
{
    lemma_sprite_fields(s);
    match sprite_fields(s) {
        Ok((_, rest)) => {
            lemma_sprite_tail(rest);
            lemma_tail_of_tail(sprite_tail(rest).1, rest, s);
        },
        Err(_) => {},
    }
}

/// An optional index list leaves a tail, whether it was read or not.
pub proof fn lemma_optional_list(s: Seq<char>, key: Seq<char>)
    ensures
        is_tail_of(optional_list(s, key).1, s),
{
    lemma_values();
    lemma_assigned(s, key, |s| index_list(s));
    assert(s.skip(0) =~= s);
}

/// A terminator takes at least one character.
pub proof fn lemma_terminator(s: Seq<char>)
    ensures
        consumes(s, terminator(s)),
{
    lemma_values();
    lemma_optional_list(s, "spritesDrawnBehind"@);
    let s1 = optional_list(s, "spritesDrawnBehind"@).1;
    lemma_optional_list(s1, "spritesAdditiveBlend"@);
    let s2 = optional_list(s1, "spritesAdditiveBlend"@).1;
    lemma_tail_of_tail(s2, s1, s);
    lemma_assigned(s2, "headIndex"@, |s| index_list(s));
    lemma_from_tail(s, s2, assigned(s2, "headIndex"@, |s| index_list(s)));
}

/// The sprites of an object, with their terminator, take at least one
/// character.
pub proof fn lemma_sprites(s: Seq<char>)
    ensures
        consumes(s, sprites(s)),
    decreases s.len(),
{
    lemma_terminator(s);
    if terminator(s) is Err {
        lemma_sprite(s);
        lemma_then_separator(s, sprite(s));
        match then_separator(sprite(s)) {
            Ok((_, rest)) => {
                lemma_sprites(rest);
                lemma_from_tail(s, rest, sprites(rest));
            },
            Err(_) => {},
        }
    }
}

/// A description takes its end of line at least.
pub proof fn lemma_description(s: Seq<char>)
    ensures
        consumes(s, description(s)),
    decreases s.len(),
{
    if text::after_line_ending(s) is None && s.len() > 0 {
        lemma_description(s.skip(1));
        lemma_from_tail(s, s.skip(1), description(s.skip(1)));
    }
}

/// A separator with an index list behind it takes at least one character.
pub proof fn lemma_next_list(s: Seq<char>, key: Seq<char>)
    ensures
        consumes(s, next_list(s, key)),
{
    lemma_values();
    lemma_separator(s);
    match separator(s) {
        Ok((_, rest)) => {
            lemma_assigned(rest, key, |s| index_list(s));
            lemma_from_tail(s, rest, assigned(rest, key, |s| index_list(s)));
        },
        Err(_) => {},
    }
}

/// The head of an object file takes at least one character.
pub proof fn lemma_header(s: Seq<char>)
    ensures
        consumes(s, header(s)),
{
    reveal(header);
    lemma_values();
    // Each part is read from where the part before it ended. Where a part is
    // not read, nothing is, and the claim holds of an error.
    assert(s.skip(0) =~= s);
    let id = assigned(s, "id"@, |s| unsigned(s));
    lemma_assigned(s, "id"@, |s| unsigned(s));
    lemma_from_tail(s, s, id);
    let behind_id = optional(s, id).1;
    let end_of_line = line_ending(behind_id);
    lemma_separator(behind_id);
    lemma_from_tail(s, behind_id, end_of_line);
    let behind_end_of_line = optional(behind_id, end_of_line).1;
    let line = description(behind_end_of_line);
    lemma_description(behind_end_of_line);
    lemma_from_tail(s, behind_end_of_line, line);
    let behind_line = optional(behind_end_of_line, line).1;
    let person = anchored(behind_line, "person"@, |s| flag(s));
    lemma_anchored(behind_line, "person"@, |s| flag(s));
    lemma_from_tail(s, behind_line, person);
    let behind_person = optional(behind_line, person).1;
    let male = anchored(behind_person, "male"@, |s| flag(s));
    lemma_anchored(behind_person, "male"@, |s| flag(s));
    lemma_from_tail(s, behind_person, male);
    let behind_male = optional(behind_person, male).1;
    let clothing = then_separator(anchored(behind_male, "clothing"@, |s| code(s)));
    lemma_anchored(behind_male, "clothing"@, |s| code(s));
    lemma_from_tail(s, behind_male, clothing);
    let behind_clothing = optional(behind_male, clothing).1;
    let offset = assigned(behind_clothing, "clothingOffset"@, |s| position(s));
    lemma_assigned(behind_clothing, "clothingOffset"@, |s| position(s));
    lemma_from_tail(s, behind_clothing, offset);
    let behind_offset = optional(behind_clothing, offset).1;
    let num_sprites = then_separator(anchored(behind_offset, "numSprites"@, |s| unsigned(s)));
    lemma_anchored(behind_offset, "numSprites"@, |s| unsigned(s));
    lemma_from_tail(s, behind_offset, num_sprites);
}

/// An object takes at least one character, and what it leaves unread is a
/// tail of its file.
pub proof fn lemma_object(s: Seq<char>)
    ensures
        consumes(s, object(s)),
{
    // Each part is read from where the part before it ended. Where a part is
    // not read, nothing is, and the claim holds of an error.
    assert(s.skip(0) =~= s);
    let head = header(s);
    lemma_header(s);
    lemma_from_tail(s, s, head);
    let behind_head = optional(s, head).1;
    let layers = sprites(behind_head);
    lemma_sprites(behind_head);
    lemma_from_tail(s, behind_head, layers);
    let behind_layers = optional(behind_head, layers).1;
    let body = next_list(behind_layers, "bodyIndex"@);
    lemma_next_list(behind_layers, "bodyIndex"@);
    lemma_from_tail(s, behind_layers, body);
    let behind_body = optional(behind_layers, body).1;
    let back_foot = next_list(behind_body, "backFootIndex"@);
    lemma_next_list(behind_body, "backFootIndex"@);
    lemma_from_tail(s, behind_body, back_foot);
    let behind_back_foot = optional(behind_body, back_foot).1;
    let front_foot = next_list(behind_back_foot, "frontFootIndex"@);
    lemma_next_list(behind_back_foot, "frontFootIndex"@);
    lemma_from_tail(s, behind_back_foot, front_foot);
}

} // verus!
