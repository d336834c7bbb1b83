//! The grammar of an object file, as functions on sequences of characters.
//!
//! Each function takes the text that is still to be read. It gives what the
//! record at its front is, as a view, together with the text behind the
//! record; or it gives the error on which reading stops. The executable
//! parsers are specified by these functions.

use vstd::prelude::*;
use super::error::ParseError;
use super::tails;
use super::text;
use super::types::{
    AgeRangeView, ClothingView, ColorView, KindView, NonPersonView, ObjectView,
    PersonCharacteristic, PositionView, SpriteView, TerminatorView,
};

verus! {

/// What a text reads as: a value and the text behind it, or an error.
pub type Parsed<T> = Result<(T, Seq<char>), ParseError>;

/// The outcome is `value`, with `rest` as the text behind it.
pub open spec fn yields<T>(outcome: Parsed<T>, value: T, rest: Seq<char>) -> bool {
    outcome == Ok::<(T, Seq<char>), ParseError>((value, rest))
}

/// The outcome is the error `e`.
pub open spec fn fails<T>(outcome: Parsed<T>, e: ParseError) -> bool {
    outcome == Err::<(T, Seq<char>), ParseError>(e)
}

/// A separator is one end of line or one comma. The format joins its fields
/// with either, so both are accepted wherever fields meet.
pub open spec fn separator(s: Seq<char>) -> Parsed<()> {
    match text::after_line_ending(s) {
        Some(rest) => Ok(((), rest)),
        None => match text::after_literal(s, ","@) {
            Some(rest) => Ok(((), rest)),
            None => Err(ParseError::MissingSeparator),
        },
    }
}

/// The comma between the numbers of one value.
pub open spec fn comma(s: Seq<char>) -> Parsed<()> {
    match text::after_literal(s, ","@) {
        Some(rest) => Ok(((), rest)),
        None => Err(ParseError::MissingComma),
    }
}

/// The head of an assignment: `key`, to the letter, and `=`.
pub open spec fn assignment(s: Seq<char>, key: Seq<char>) -> Parsed<()> {
    match text::after_literal(s, key) {
        Some(rest) => match text::after_literal(rest, "="@) {
            Some(rest) => Ok(((), rest)),
            None => Err(ParseError::UnexpectedKey),
        },
        None => Err(ParseError::UnexpectedKey),
    }
}

/// Where an assignment that fails leaves the text: behind `key` and `=` where
/// they stand at the front, since they are read before the value is tried;
/// else where it was.
pub open spec fn behind_key(s: Seq<char>, key: Seq<char>) -> Seq<char> {
    match assignment(s, key) {
        Ok((_, behind)) => behind,
        Err(_) => s,
    }
}

/// An assignment: its head, and then the value as `value` reads it.
pub open spec fn assigned<T>(
    s: Seq<char>,
    key: Seq<char>,
    value: spec_fn(Seq<char>) -> Parsed<T>,
) -> Parsed<T> {
    match assignment(s, key) {
        Err(e) => Err(e),
        Ok((_, s)) => value(s),
    }
}

/// What `outcome` read, with one separator behind it.
pub open spec fn then_separator<T>(outcome: Parsed<T>) -> Parsed<T> {
    match outcome {
        Err(e) => Err(e),
        Ok((value, s)) => match separator(s) {
            Err(e) => Err(e),
            Ok((_, s)) => Ok((value, s)),
        },
    }
}

/// Drops the text before the first place at which `key` stands.
pub open spec fn skip_to(s: Seq<char>, key: Seq<char>) -> Parsed<()> {
    match text::from_first(s, key) {
        Some(rest) => Ok(((), rest)),
        None => Err(ParseError::KeyNotFound),
    }
}

/// A number: a decimal literal, which is an optional sign, and then digits
/// with one point at most among them.
pub open spec fn number(s: Seq<char>) -> Parsed<Seq<char>> {
    match text::decimal_number(s) {
        Some(found) => Ok(found),
        None => Err(ParseError::MalformedNumber),
    }
}

/// An unsigned integer.
pub open spec fn unsigned(s: Seq<char>) -> Parsed<u64> {
    match text::dec_uint(s) {
        Some(found) => Ok(found),
        None => Err(ParseError::MalformedInteger),
    }
}

/// A signed integer.
pub open spec fn signed(s: Seq<char>) -> Parsed<i64> {
    match text::dec_int(s) {
        Some(found) => Ok(found),
        None => Err(ParseError::MalformedInteger),
    }
}

/// A flag: an unsigned integer of at most 255, which is set where it is not
/// zero.
pub open spec fn flag(s: Seq<char>) -> Parsed<bool> {
    match text::dec_uint(s) {
        Some((value, rest)) if value <= u8::MAX => Ok((value > 0, rest)),
        _ => Err(ParseError::MalformedInteger),
    }
}

/// A code: a run of letters and digits.
pub open spec fn code(s: Seq<char>) -> Parsed<Seq<char>> {
    match text::alphanumeric_word(s) {
        Some(found) => Ok(found),
        None => Err(ParseError::MalformedCode),
    }
}

/// Two numbers with a comma between them.
pub open spec fn number_pair(s: Seq<char>) -> Parsed<(Seq<char>, Seq<char>)> {
    match number(s) {
        Err(e) => Err(e),
        Ok((first, s)) => match comma(s) {
            Err(e) => Err(e),
            Ok((_, s)) => match number(s) {
                Err(e) => Err(e),
                Ok((second, s)) => Ok(((first, second), s)),
            },
        },
    }
}

/// The value of `pos` and of `clothingOffset`: `x,y`.
pub open spec fn position(s: Seq<char>) -> Parsed<PositionView> {
    match number_pair(s) {
        Err(e) => Err(e),
        Ok(((x, y), s)) => Ok((PositionView { x, y }, s)),
    }
}

/// The value of `ageRange`: `min,max`.
pub open spec fn age_range(s: Seq<char>) -> Parsed<AgeRangeView> {
    match number_pair(s) {
        Err(e) => Err(e),
        Ok(((min, max), s)) => Ok((AgeRangeView { min, max }, s)),
    }
}

/// The value of `color`: `r,g,b`.
pub open spec fn color(s: Seq<char>) -> Parsed<ColorView> {
    match number_pair(s) {
        Err(e) => Err(e),
        Ok(((r, g), s)) => match comma(s) {
            Err(e) => Err(e),
            Ok((_, s)) => match number(s) {
                Err(e) => Err(e),
                Ok((b, s)) => Ok((ColorView { r, g, b }, s)),
            },
        },
    }
}

/// The integers of an index list behind its first, each with a comma before
/// it, and the text behind the last of them. A comma that no integer follows
/// is not part of the list.
pub open spec fn index_list_tail(s: Seq<char>) -> (Seq<i64>, Seq<char>)
    decreases s.len(),
    via index_list_tail_decreases
{
    match text::after_literal(s, ","@) {
        None => (Seq::empty(), s),
        Some(behind_comma) => match text::dec_int(behind_comma) {
            None => (Seq::empty(), s),
            Some((index, rest)) => {
                let (more, rest) = index_list_tail(rest);
                (seq![index] + more, rest)
            },
        },
    }
}

#[via_fn]
proof fn index_list_tail_decreases(s: Seq<char>) {
    match text::after_literal(s, ","@) {
        None => {},
        Some(behind_comma) => {
            text::lemma_dec_int_consumes(behind_comma);
        },
    }
}

/// An index list: signed integers with commas between them, at least one.
pub open spec fn index_list(s: Seq<char>) -> Parsed<Seq<i64>> {
    match text::dec_int(s) {
        None => Err(ParseError::MalformedIndexList),
        Some((first, rest)) => {
            let (more, rest) = index_list_tail(rest);
            Ok((seq![first] + more, rest))
        },
    }
}

/// The fields that every sprite holds, from `spriteID` to `behindSlots`, with
/// a separator between each two. The two optional fields are left absent.
#[verifier::opaque]
pub open spec fn sprite_fields(s: Seq<char>) -> Parsed<SpriteView> {
    match then_separator(assigned(s, "spriteID"@, |s| unsigned(s))) {
    Err(e) => Err(e),
    Ok((id, s)) => match then_separator(assigned(s, "pos"@, |s| position(s))) {
    Err(e) => Err(e),
    Ok((position, s)) => match then_separator(assigned(s, "rot"@, |s| number(s))) {
    Err(e) => Err(e),
    Ok((rot, s)) => match then_separator(assigned(s, "hFlip"@, |s| number(s))) {
    Err(e) => Err(e),
    Ok((h_flip, s)) => match then_separator(assigned(s, "color"@, |s| color(s))) {
    Err(e) => Err(e),
    Ok((color, s)) => match then_separator(assigned(s, "ageRange"@, |s| age_range(s))) {
    Err(e) => Err(e),
    Ok((age_range, s)) => match then_separator(assigned(s, "parent"@, |s| signed(s))) {
    Err(e) => Err(e),
    Ok((parent, s)) => match then_separator(assigned(s, "invisHolding"@, |s| number(s))) {
    Err(e) => Err(e),
    Ok((invis_holding, s)) => match then_separator(assigned(s, "invisWorn"@, |s| number(s))) {
    Err(e) => Err(e),
    Ok((invis_worn, s)) => match assigned(s, "behindSlots"@, |s| number(s)) {
    Err(e) => Err(e),
    Ok((behind_slots, s)) => Ok((
        SpriteView {
            id,
            position,
            rot,
            h_flip,
            color,
            age_range,
            parent,
            invis_holding,
            invis_worn,
            behind_slots,
            invis_cont: None,
            ignored_cont: None,
        },
        s,
    )),
    }}}}}}}}}}
}

/// What `outcome` read, if it read something; else nothing, and the text
/// `s` as it was before the attempt.
pub open spec fn optional<T>(s: Seq<char>, outcome: Parsed<T>) -> (Option<T>, Seq<char>) {
    match outcome {
        Ok((value, rest)) => (Some(value), rest),
        Err(_) => (None, s),
    }
}

/// A separator and, behind it, a number under `key`.
pub open spec fn next_number(s: Seq<char>, key: Seq<char>) -> Parsed<Seq<char>> {
    match separator(s) {
        Err(e) => Err(e),
        Ok((_, s)) => assigned(s, key, |s| number(s)),
    }
}

/// The optional end of a sprite, behind `behindSlots`.
///
/// First `invisCont` and then `ignoredCont` is read, each together with the
/// separator before it. Where the separator and the field do not both stand
/// there, the field is absent and nothing is read for it, the separator
/// neither. So each of the two is there or not whatever the other is, and a
/// sprite always ends behind the last field that it holds.
pub open spec fn sprite_tail(s: Seq<char>) -> ((Option<Seq<char>>, Option<Seq<char>>), Seq<char>) {
    let (invis_cont, s) = optional(s, next_number(s, "invisCont"@));
    let (ignored_cont, s) = optional(s, next_number(s, "ignoredCont"@));
    ((invis_cont, ignored_cont), s)
}

/// A sprite: its fields, and its optional end.
pub open spec fn sprite(s: Seq<char>) -> Parsed<SpriteView> {
    match sprite_fields(s) {
        Err(e) => Err(e),
        Ok((fields, s)) => {
            let ((invis_cont, ignored_cont), s) = sprite_tail(s);
            Ok((SpriteView { invis_cont, ignored_cont, ..fields }, s))
        },
    }
}

/// An optional index list under `key`, with the separator behind it. Either
/// all of it stands at the front of the text, or nothing is read.
pub open spec fn optional_list(s: Seq<char>, key: Seq<char>) -> (Option<Seq<i64>>, Seq<char>) {
    optional(s, then_separator(assigned(s, key, |s| index_list(s))))
}

/// What ends the sprites of an object: `spritesDrawnBehind` and
/// `spritesAdditiveBlend`, each of which may be absent, and `headIndex`.
pub open spec fn terminator(s: Seq<char>) -> Parsed<TerminatorView> {
    let (sprites_drawn_behind, s) = optional_list(s, "spritesDrawnBehind"@);
    let (sprites_additive_blend, s) = optional_list(s, "spritesAdditiveBlend"@);
    match assigned(s, "headIndex"@, |s| index_list(s)) {
        Err(e) => Err(e),
        Ok((head_index, s)) => Ok(
            (TerminatorView { sprites_drawn_behind, sprites_additive_blend, head_index }, s),
        ),
    }
}

/// The sprites of an object and what ends them.
///
/// At each place the terminator is tried first. Where it does not stand, a
/// sprite and a separator have to; so sprites are read until the terminator
/// is found, however many the file declares.
pub open spec fn sprites(s: Seq<char>) -> Parsed<(Seq<SpriteView>, TerminatorView)>
    decreases s.len(),
    via sprites_decreases
{
    match terminator(s) {
        Ok((end, rest)) => Ok(((Seq::empty(), end), rest)),
        Err(_) => match then_separator(sprite(s)) {
            Err(e) => Err(e),
            Ok((first, s)) => match sprites(s) {
                Err(e) => Err(e),
                Ok(((more, end), rest)) => Ok(((seq![first] + more, end), rest)),
            },
        },
    }
}

#[via_fn]
proof fn sprites_decreases(s: Seq<char>) {
    tails::lemma_sprite(s);
    tails::lemma_then_separator(s, sprite(s));
}

/// The sprites in `before`, and then what `outcome` read.
pub open spec fn sprites_after(
    before: Seq<SpriteView>,
    outcome: Parsed<(Seq<SpriteView>, TerminatorView)>,
) -> Parsed<(Seq<SpriteView>, TerminatorView)> {
    match outcome {
        Err(e) => Err(e),
        Ok(((more, end), rest)) => Ok(((before + more, end), rest)),
    }
}

/// An end of line.
pub open spec fn line_ending(s: Seq<char>) -> Parsed<()> {
    match text::after_line_ending(s) {
        Some(rest) => Ok(((), rest)),
        None => Err(ParseError::MissingLineEnding),
    }
}

/// The description of an object: the characters up to the next end of line,
/// which is read too. A text that holds no end of line holds no description.
pub open spec fn description(s: Seq<char>) -> Parsed<Seq<char>>
    decreases s.len(),
{
    match text::after_line_ending(s) {
        Some(rest) => Ok((Seq::empty(), rest)),
        None => match text::after_char_except(s, '\n') {
            None => Err(ParseError::MissingLineEnding),
            Some((c, rest)) => match description(rest) {
                Err(e) => Err(e),
                Ok((more, rest)) => Ok((seq![c] + more, rest)),
            },
        },
    }
}

/// The characters in `before`, and then what `outcome` read.
pub open spec fn description_after(before: Seq<char>, outcome: Parsed<Seq<char>>) -> Parsed<
    Seq<char>,
> {
    match outcome {
        Err(e) => Err(e),
        Ok((more, rest)) => Ok((before + more, rest)),
    }
}

/// An assignment that is looked for: all text before the first place at
/// which `key` stands is dropped, whatever it holds, and the assignment is
/// read there.
pub open spec fn anchored<T>(
    s: Seq<char>,
    key: Seq<char>,
    value: spec_fn(Seq<char>) -> Parsed<T>,
) -> Parsed<T> {
    match skip_to(s, key) {
        Err(e) => Err(e),
        Ok((_, s)) => assigned(s, key, value),
    }
}

/// A separator and, behind it, an index list under `key`.
pub open spec fn next_list(s: Seq<char>, key: Seq<char>) -> Parsed<Seq<i64>> {
    match separator(s) {
        Err(e) => Err(e),
        Ok((_, s)) => assigned(s, key, |s| index_list(s)),
    }
}

/// The clothing that a code stands for, worn at `offset`. A code that is
/// none of `s`, `t`, `h` and `b` stands for the fallback, whose offset is
/// the origin.
pub open spec fn clothing(code: Seq<char>, offset: PositionView) -> ClothingView {
    if code == "s"@ {
        ClothingView::Shoe(offset)
    } else if code == "t"@ {
        ClothingView::Tunic(offset)
    } else if code == "h"@ {
        ClothingView::Hat(offset)
    } else if code == "b"@ {
        ClothingView::Bottom(offset)
    } else {
        ClothingView::fallback()
    }
}

/// The kind of an object. The person flag goes first: an object that is a
/// person is no clothing, whatever its clothing code. The code `n` says that
/// an object is no clothing.
pub open spec fn kind(
    is_person: bool,
    is_male: bool,
    code: Seq<char>,
    offset: PositionView,
) -> KindView {
    if is_person {
        if is_male {
            KindView::Person(PersonCharacteristic::Masculine)
        } else {
            KindView::Person(PersonCharacteristic::Feminine)
        }
    } else if code != "n"@ {
        KindView::NonPerson(NonPersonView::Clothing(clothing(code, offset)))
    } else {
        KindView::NonPerson(NonPersonView::Other)
    }
}

/// What an object file says of its object before the sprites begin.
pub struct HeaderView {
    pub id: u64,
    pub description: Seq<char>,
    pub is_person: bool,
    pub is_male: bool,
    pub clothing: Seq<char>,
    pub clothing_offset: PositionView,
    pub num_sprites: u64,
}

/// The head of an object file.
///
/// The file begins with `id` and, on the next line, the description. The
/// fields `person`, `male`, `clothing` and `numSprites` are looked for, each
/// behind the one before: what stands between them is not read.
/// `clothingOffset` has to follow `clothing` with one separator between
/// them, and a separator has to follow `numSprites`.
#[verifier::opaque]
pub open spec fn header(s: Seq<char>) -> Parsed<HeaderView> {
    match assigned(s, "id"@, |s| unsigned(s)) {
    Err(e) => Err(e),
    Ok((id, s)) => match line_ending(s) {
    Err(e) => Err(e),
    Ok((_, s)) => match description(s) {
    Err(e) => Err(e),
    Ok((description, s)) => match anchored(s, "person"@, |s| flag(s)) {
    Err(e) => Err(e),
    Ok((is_person, s)) => match anchored(s, "male"@, |s| flag(s)) {
    Err(e) => Err(e),
    Ok((is_male, s)) => match then_separator(anchored(s, "clothing"@, |s| code(s))) {
    Err(e) => Err(e),
    Ok((clothing, s)) => match assigned(s, "clothingOffset"@, |s| position(s)) {
    Err(e) => Err(e),
    Ok((clothing_offset, s)) => match then_separator(
        anchored(s, "numSprites"@, |s| unsigned(s)),
    ) {
    Err(e) => Err(e),
    Ok((num_sprites, s)) => Ok((
        HeaderView {
            id,
            description,
            is_person,
            is_male,
            clothing,
            clothing_offset,
            num_sprites,
        },
        s,
    )),
    }}}}}}}}
}

/// An object: the head of its file, the sprites with their terminator, and
/// the index lists of the body and of the two feet, each behind a separator.
/// What follows the last list is left unread.
pub open spec fn object(s: Seq<char>) -> Parsed<ObjectView> {
    match header(s) {
    Err(e) => Err(e),
    Ok((head, s)) => match sprites(s) {
    Err(e) => Err(e),
    Ok(((sprites, end), s)) => match next_list(s, "bodyIndex"@) {
    Err(e) => Err(e),
    Ok((body_index, s)) => match next_list(s, "backFootIndex"@) {
    Err(e) => Err(e),
    Ok((back_foot_index, s)) => match next_list(s, "frontFootIndex"@) {
    Err(e) => Err(e),
    Ok((front_foot_index, s)) => Ok((
        ObjectView {
            id: head.id,
            description: head.description,
            kind: kind(head.is_person, head.is_male, head.clothing, head.clothing_offset),
            num_sprites: head.num_sprites,
            sprites,
            sprites_drawn_behind: end.sprites_drawn_behind,
            sprites_additive_blend: end.sprites_additive_blend,
            head_index: end.head_index,
            body_index,
            back_foot_index,
            front_foot_index,
        },
        s,
    )),
    }}}}}
}

/// The objects that a sequence of texts holds, in the order of the texts. A
/// text that is no object leaves no trace.
pub open spec fn objects(texts: Seq<Seq<char>>) -> Seq<ObjectView>
    decreases texts.len(),
{
    if texts.len() == 0 {
        Seq::empty()
    } else {
        let before = objects(texts.drop_last());
        match object(texts.last()) {
            Ok((found, _)) => before.push(found),
            Err(_) => before,
        }
    }
}

/// Whether a file name ends in `.txt` and has something before it.
pub open spec fn has_txt_extension(name: Seq<char>) -> bool {
    name.len() > 4 && name.skip(name.len() - 4) == ".txt"@
}

/// Whether a file of this name may hold an object: its extension is `txt`,
/// and it is none of the four files of that extension that hold other data.
pub open spec fn is_object_file(name: Seq<char>) -> bool {
    &&& has_txt_extension(name)
    &&& name != "nextObjectNumber.txt"@
    &&& name != "groundHeat_4.txt"@
    &&& name != "groundHeat_5.txt"@
    &&& name != "groundHeat_6.txt"@
}

} // verus!
