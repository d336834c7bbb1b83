//! The object parser.
//!
//! Every parser here takes the text that is still to be read by a mutable
//! reference. Where it succeeds it returns what it read and leaves in the
//! reference the text behind it. Where it fails it returns the error, and
//! its contract says where the text is left.
//!
//! A parser of a record or of a value that fails leaves the text as it was:
//! it has read nothing, so that something else can be tried at the same
//! place. An assignment is read in two steps, and a failure of the second
//! does not undo the first: [`parse_assignment`] reads the key with its `=`
//! and then hands the text to the parser of the value, and leaves the text
//! where that parser left it, whether it succeeded or not. So do
//! [`parse_sprite_position`], [`parse_invis_cont`] and
//! [`parse_ignored_cont`], which are assignments. Whoever reads an
//! assignment on trial reads it from a copy of the reference.
//!
//! What each parser reads is said by the function of [`grammar`] that its
//! contract names.

use vstd::prelude::*;

pub mod error;
pub mod grammar;
pub mod laws;
pub mod tails;
pub mod text;
mod tokens;
pub mod types;

use error::ParseError;
use types::{
    object_views, sprite_views, text_views, AgeRange, ClothingObject, ColorRGB, NonPersonObject,
    Number, Object, ObjectKind, ObjectView, PersonCharacteristic, Position, Sprite, SpriteView,
    Terminator,
};

verus! {

/// Reads the objects out of the texts of a set of files.
///
/// Each text is read by itself, from its start. A text that reads as an
/// object gives that object, whatever stands behind the object's last field.
/// A text that does not is passed over in silence. The objects come in the
/// order of their texts.
pub fn parse(texts: &Vec<String>) -> (objects: Vec<Object>)
    ensures
        object_views(objects@) == grammar::objects(text_views(texts@)),
{
    let mut objects: Vec<Object> = Vec::new();
    let mut i: usize = 0;
    assert(text_views(texts@).take(0) =~= Seq::<Seq<char>>::empty());
    assert(object_views(objects@) =~= Seq::<ObjectView>::empty());
    while i < texts.len()
        invariant
            i <= texts.len(),
            object_views(objects@) == grammar::objects(text_views(texts@).take(i as int)),
        decreases texts.len() - i,
    {
        let mut text: &str = texts[i].as_str();
        proof {
            let read = text_views(texts@).take(i + 1);
            assert(read.drop_last() =~= text_views(texts@).take(i as int));
            assert(read.last() == texts@[i as int]@);
        }
        match parse_object(&mut text) {
            Ok(object) => {
                proof {
                    assert(object_views(objects@.push(object)) =~= object_views(objects@).push(
                        object@,
                    ));
                }
                objects.push(object);
            },
            Err(_) => {},
        }
        i += 1;
    }
    assert(text_views(texts@).take(i as int) =~= text_views(texts@));
    objects
}

/// Whether a file of this name may hold an object: its extension is `txt`,
/// and it is none of `nextObjectNumber.txt`, `groundHeat_4.txt`,
/// `groundHeat_5.txt` and `groundHeat_6.txt`.
pub fn is_object_file(file_name: &str) -> (r: bool)
    ensures
        r == grammar::is_object_file(file_name@),
{
    let n = file_name.unicode_len();
    if n <= 4 {
        return false;
    }
    let extension = file_name.substring_char(n - 4, n);
    same_text(extension, ".txt") && !same_text(file_name, "nextObjectNumber.txt") && !same_text(
        file_name,
        "groundHeat_4.txt",
    ) && !same_text(file_name, "groundHeat_5.txt") && !same_text(file_name, "groundHeat_6.txt")
}

/// Reads one object from the text of its file.
///
/// The text begins with `id` and, on the next line, the description. The
/// fields `person`, `male`, `clothing` and `numSprites` are then looked for
/// one after the other, and what stands between them is not read. The kind
/// of the object comes from the two flags, the clothing code and the
/// clothing offset. The sprites are read up to their terminator, then the
/// index lists of the body and of the two feet. The text behind the last
/// list is left in `input`, unread.
pub fn parse_object<'a>(input: &mut &'a str) -> (r: Result<Object, ParseError>)
    ensures
        match r {
            Ok(object) => grammar::yields(grammar::object(old(input)@), object@, final(input)@),
            Err(e) => grammar::fails(grammar::object(old(input)@), e) && *final(input) == *old(
                input,
            ),
        },
{
    proof {
        reveal(grammar::header);
    }
    let mut cur: &str = *input;
    let id = parse_assignment(&mut cur, "id", parse_unsigned)?;
    line_ending(&mut cur)?;
    let description = parse_description(&mut cur)?;
    skip_to(&mut cur, "person")?;
    let is_person = parse_assignment(&mut cur, "person", parse_flag)?;
    skip_to(&mut cur, "male")?;
    let is_male = parse_assignment(&mut cur, "male", parse_flag)?;
    skip_to(&mut cur, "clothing")?;
    let clothing = parse_assignment(&mut cur, "clothing", parse_code)?;
    separator(&mut cur)?;
    let clothing_offset = parse_assignment(&mut cur, "clothingOffset", parse_position)?;
    let kind = object_kind(is_person, is_male, clothing, clothing_offset);
    skip_to(&mut cur, "numSprites")?;
    let num_sprites = parse_assignment(&mut cur, "numSprites", parse_unsigned)?;
    separator(&mut cur)?;
    let (sprites, end) = parse_sprites(&mut cur)?;
    let body_index = parse_next_list(&mut cur, "bodyIndex")?;
    let back_foot_index = parse_next_list(&mut cur, "backFootIndex")?;
    let front_foot_index = parse_next_list(&mut cur, "frontFootIndex")?;
    *input = cur;
    Ok(
        Object {
            id,
            description,
            kind,
            num_sprites,
            sprites,
            sprites_drawn_behind: end.sprites_drawn_behind,
            sprites_additive_blend: end.sprites_additive_blend,
            head_index: end.head_index,
            body_index,
            back_foot_index,
            front_foot_index,
        },
    )
}

/// Says what kind of thing an object is, from its person flag, its male flag,
/// its clothing code and its clothing offset.
///
/// A person is `Feminine` unless the male flag is set. An object that is no
/// person is clothing unless its code is `n`; the codes `s`, `t`, `h` and `b`
/// stand for shoe, tunic, hat and bottom, worn at the offset. Any other code
/// stands for the default clothing, a tunic at the origin.
pub fn object_kind(is_person: bool, is_male: bool, clothing: &str, clothing_offset: Position) -> (r:
    ObjectKind)
    ensures
        r@ == grammar::kind(is_person, is_male, clothing@, clothing_offset@),
{
    if is_person {
        if is_male {
            ObjectKind::Person(PersonCharacteristic::Masculine)
        } else {
            ObjectKind::Person(PersonCharacteristic::Feminine)
        }
    } else if !same_text(clothing, "n") {
        let clothing = if same_text(clothing, "s") {
            ClothingObject::Shoe(clothing_offset)
        } else if same_text(clothing, "t") {
            ClothingObject::Tunic(clothing_offset)
        } else if same_text(clothing, "h") {
            ClothingObject::Hat(clothing_offset)
        } else if same_text(clothing, "b") {
            ClothingObject::Bottom(clothing_offset)
        } else {
            ClothingObject::default()
        };
        ObjectKind::NonPerson(NonPersonObject::Clothing(clothing))
    } else {
        ObjectKind::NonPerson(NonPersonObject::Other)
    }
}

/// Reads one separator: an end of line or a comma.
pub fn separator<'a>(input: &mut &'a str) -> (r: Result<(), ParseError>)
    ensures
        match r {
            Ok(_) => grammar::yields(grammar::separator(old(input)@), (), final(input)@),
            Err(e) => e == ParseError::MissingSeparator && grammar::fails(
                grammar::separator(old(input)@),
                e,
            ) && *final(input) == *old(input),
        },
{
    match tokens::take_line_ending(*input) {
        Some(rest) => {
            *input = rest;
            Ok(())
        },
        None => match tokens::take_literal(*input, ",") {
            Some(rest) => {
                *input = rest;
                Ok(())
            },
            None => Err(ParseError::MissingSeparator),
        },
    }
}

/// Reads the sprites of an object and what ends them.
///
/// Sprites are read, each with a separator behind it, until the terminator
/// stands at the front of the text. How many sprites the file declares plays
/// no part in this.
pub fn parse_sprites<'a>(input: &mut &'a str) -> (r: Result<(Vec<Sprite>, Terminator), ParseError>)
    ensures
        match r {
            Ok((sprites, end)) => grammar::yields(
                grammar::sprites(old(input)@),
                (sprite_views(sprites@), end@),
                final(input)@,
            ),
            Err(e) => grammar::fails(grammar::sprites(old(input)@), e) && *final(input) == *old(
                input,
            ),
        },
{
    let mut cur: &str = *input;
    let mut sprites: Vec<Sprite> = Vec::new();
    assert(sprite_views(sprites@) =~= Seq::<SpriteView>::empty());
    loop
        invariant
            *input == *old(input),
            grammar::sprites(old(input)@) == grammar::sprites_after(
                sprite_views(sprites@),
                grammar::sprites(cur@),
            ),
        decreases cur@.len(),
    {
        let ghost before = cur@;
        match parse_terminator(&mut cur) {
            Ok(end) => {
                proof {
                    assert(sprite_views(sprites@) + Seq::<SpriteView>::empty() =~= sprite_views(
                        sprites@,
                    ));
                }
                *input = cur;
                return Ok((sprites, end));
            },
            Err(_) => {},
        }
        let sprite = parse_sprite(&mut cur)?;
        separator(&mut cur)?;
        proof {
            tails::lemma_sprite(before);
            tails::lemma_then_separator(before, grammar::sprite(before));
            match grammar::sprites(cur@) {
                Ok(((more, end), rest)) => {
                    assert(sprite_views(sprites@) + (seq![sprite@] + more) =~= sprite_views(
                        sprites@.push(sprite),
                    ) + more);
                },
                Err(_) => {},
            }
        }
        sprites.push(sprite);
    }
}

/// Reads what ends the sprites of an object: `spritesDrawnBehind` and
/// `spritesAdditiveBlend`, each if it stands there, and `headIndex`.
pub fn parse_terminator<'a>(input: &mut &'a str) -> (r: Result<Terminator, ParseError>)
    ensures
        match r {
            Ok(end) => grammar::yields(grammar::terminator(old(input)@), end@, final(input)@),
            Err(e) => grammar::fails(grammar::terminator(old(input)@), e) && *final(input)
                == *old(input),
        },
{
    let mut cur: &str = *input;
    let sprites_drawn_behind = parse_optional_list(&mut cur, "spritesDrawnBehind");
    let sprites_additive_blend = parse_optional_list(&mut cur, "spritesAdditiveBlend");
    let head_index = parse_assignment(&mut cur, "headIndex", parse_index_list)?;
    *input = cur;
    Ok(Terminator { sprites_drawn_behind, sprites_additive_blend, head_index })
}

/// Reads an index list: signed integers with commas between them, at least
/// one. A comma that no integer follows is left unread.
pub fn parse_index_list<'a>(input: &mut &'a str) -> (r: Result<Vec<i64>, ParseError>)
    ensures
        match r {
            Ok(list) => grammar::yields(grammar::index_list(old(input)@), list@, final(input)@)
                && list@.len() >= 1,
            Err(e) => e == ParseError::MalformedIndexList && grammar::fails(
                grammar::index_list(old(input)@),
                e,
            ) && *final(input) == *old(input),
        },
{
    let (first, mut cur) = match tokens::take_dec_int(*input) {
        Some(found) => found,
        None => {
            return Err(ParseError::MalformedIndexList);
        },
    };
    let ghost behind_first = cur@;
    let mut list: Vec<i64> = Vec::new();
    list.push(first);
    loop
        invariant
            list@.len() >= 1,
            list@[0] == first,
            grammar::index_list_tail(behind_first) == ({
                let (more, rest) = grammar::index_list_tail(cur@);
                (list@.skip(1) + more, rest)
            }),
        ensures
            grammar::index_list_tail(cur@) == (Seq::<i64>::empty(), cur@),
        decreases cur@.len(),
    {
        let behind_comma = match tokens::take_literal(cur, ",") {
            Some(rest) => rest,
            None => {
                break ;
            },
        };
        match tokens::take_dec_int(behind_comma) {
            Some((index, rest)) => {
                proof {
                    text::lemma_dec_int_consumes(behind_comma@);
                    reveal_strlit(",");
                    let (more, end) = grammar::index_list_tail(rest@);
                    assert(list@.skip(1) + (seq![index] + more) =~= list@.push(index).skip(1)
                        + more);
                }
                list.push(index);
                cur = rest;
            },
            None => {
                break ;
            },
        }
    }
    proof {
        assert(list@.skip(1) + Seq::<i64>::empty() =~= list@.skip(1));
        assert(seq![first] + list@.skip(1) =~= list@);
    }
    *input = cur;
    Ok(list)
}

/// Reads one sprite.
///
/// The fields from `spriteID` to `behindSlots` have to stand there in this
/// order, with a separator between each two. Behind them `invisCont` and
/// then `ignoredCont` is read, each with the separator before it, if both
/// stand there. A field that does not stand there is `None`, and nothing is
/// read for it: the sprite ends behind the last field that it holds, before
/// the separator that follows.
pub fn parse_sprite<'a>(input: &mut &'a str) -> (r: Result<Sprite, ParseError>)
    ensures
        match r {
            Ok(sprite) => grammar::yields(grammar::sprite(old(input)@), sprite@, final(input)@),
            Err(e) => grammar::fails(grammar::sprite(old(input)@), e) && *final(input) == *old(
                input,
            ),
        },
{
    proof {
        reveal(grammar::sprite_fields);
    }
    let mut cur: &str = *input;
    let id = parse_assignment(&mut cur, "spriteID", parse_unsigned)?;
    separator(&mut cur)?;
    let position = parse_sprite_position(&mut cur)?;
    separator(&mut cur)?;
    let rot = parse_assignment(&mut cur, "rot", parse_number)?;
    separator(&mut cur)?;
    let h_flip = parse_assignment(&mut cur, "hFlip", parse_number)?;
    separator(&mut cur)?;
    let color = parse_assignment(&mut cur, "color", parse_sprite_color)?;
    separator(&mut cur)?;
    let age_range = parse_assignment(&mut cur, "ageRange", parse_age_range)?;
    separator(&mut cur)?;
    let parent = parse_assignment(&mut cur, "parent", parse_signed)?;
    separator(&mut cur)?;
    let invis_holding = parse_assignment(&mut cur, "invisHolding", parse_number)?;
    separator(&mut cur)?;
    let invis_worn = parse_assignment(&mut cur, "invisWorn", parse_number)?;
    separator(&mut cur)?;
    let behind_slots = parse_assignment(&mut cur, "behindSlots", parse_number)?;
    let invis_cont = parse_optional_number(&mut cur, "invisCont");
    let ignored_cont = parse_optional_number(&mut cur, "ignoredCont");
    *input = cur;
    Ok(
        Sprite {
            id,
            position,
            rot,
            h_flip,
            color,
            age_range,
            parent,
            invis_holding,
            invis_worn,
            behind_slots,
            invis_cont,
            ignored_cont,
        },
    )
}

/// Reads a separator and, behind it, a number under `key`, if both stand
/// there. It reads nothing if not.
fn parse_optional_number<'a>(input: &mut &'a str, key: &str) -> (r: Option<Number>)
    ensures
        grammar::optional(old(input)@, grammar::next_number(old(input)@, key@)) == (
            types::number_option_view(r),
            final(input)@,
        ),
        r is None ==> *final(input) == *old(input),
{
    let mut cur: &str = *input;
    if separator(&mut cur).is_err() {
        return None;
    }
    match parse_assignment(&mut cur, key, parse_number) {
        Ok(n) => {
            *input = cur;
            Some(n)
        },
        Err(_) => None,
    }
}

/// Reads `invisCont` with its number. Where the key stands there and the
/// number does not, the text is left behind the `=`.
pub fn parse_invis_cont<'a>(input: &mut &'a str) -> (r: Result<Number, ParseError>)
    ensures
        match r {
            Ok(n) => grammar::yields(
                grammar::assigned(old(input)@, "invisCont"@, |s| grammar::number(s)),
                n@,
                final(input)@,
            ),
            Err(e) => grammar::fails(
                grammar::assigned(old(input)@, "invisCont"@, |s| grammar::number(s)),
                e,
            ) && final(input)@ == grammar::behind_key(old(input)@, "invisCont"@),
        },
{
    parse_assignment(input, "invisCont", parse_number)
}

/// Reads `ignoredCont` with its number. Where the key stands there and the
/// number does not, the text is left behind the `=`.
pub fn parse_ignored_cont<'a>(input: &mut &'a str) -> (r: Result<Number, ParseError>)
    ensures
        match r {
            Ok(n) => grammar::yields(
                grammar::assigned(old(input)@, "ignoredCont"@, |s| grammar::number(s)),
                n@,
                final(input)@,
            ),
            Err(e) => grammar::fails(
                grammar::assigned(old(input)@, "ignoredCont"@, |s| grammar::number(s)),
                e,
            ) && final(input)@ == grammar::behind_key(old(input)@, "ignoredCont"@),
        },
{
    parse_assignment(input, "ignoredCont", parse_number)
}

/// Reads the colour of a sprite: `r,g,b`.
pub fn parse_sprite_color<'a>(input: &mut &'a str) -> (r: Result<ColorRGB, ParseError>)
    ensures
        match r {
            Ok(c) => grammar::yields(grammar::color(old(input)@), c@, final(input)@),
            Err(e) => grammar::fails(grammar::color(old(input)@), e) && *final(input) == *old(
                input,
            ),
        },
{
    let mut cur: &str = *input;
    let (r, g) = parse_number_pair(&mut cur)?;
    comma(&mut cur)?;
    let b = parse_number(&mut cur)?;
    *input = cur;
    Ok(ColorRGB { r, g, b })
}

/// Reads the position of a sprite: `pos=x,y`. Where the key stands there
/// and the two numbers do not, the text is left behind the `=`.
pub fn parse_sprite_position<'a>(input: &mut &'a str) -> (r: Result<Position, ParseError>)
    ensures
        match r {
            Ok(p) => grammar::yields(
                grammar::assigned(old(input)@, "pos"@, |s| grammar::position(s)),
                p@,
                final(input)@,
            ),
            Err(e) => grammar::fails(
                grammar::assigned(old(input)@, "pos"@, |s| grammar::position(s)),
                e,
            ) && final(input)@ == grammar::behind_key(old(input)@, "pos"@),
        },
{
    parse_assignment(input, "pos", parse_position)
}

/// Reads a number: a decimal literal, which is an optional sign, and then
/// digits with one point at most among them.
///
/// The sign is optional and so is the fraction: `7`, `-23.000000` and `+0.5`
/// are numbers. The digits before the point or those behind it may be
/// missing, not both: `5.` and `.5` are numbers too, and a lone point is
/// not. The literal is kept as it is written. A literal of another form,
/// such as one with an exponent, `inf` or `nan`, is no number: the error is
/// `MalformedNumber`, as it is where no literal stands at the front at all.
pub fn parse_number<'a>(input: &mut &'a str) -> (r: Result<Number, ParseError>)
    ensures
        match r {
            Ok(n) => grammar::yields(grammar::number(old(input)@), n@, final(input)@)
                && text::is_decimal_literal(n@),
            Err(e) => e == ParseError::MalformedNumber && grammar::fails(
                grammar::number(old(input)@),
                e,
            ) && *final(input) == *old(input),
        },
{
    match tokens::take_float(*input) {
        Some((literal, rest)) => {
            if is_decimal_literal(literal.as_str()) {
                *input = rest;
                Ok(Number(literal))
            } else {
                Err(ParseError::MalformedNumber)
            }
        },
        None => Err(ParseError::MalformedNumber),
    }
}

/// Whether a text is a decimal literal from its first character to its
/// last: an optional sign, and then digits with one point at most among
/// them, one digit at least.
pub fn is_decimal_literal(literal: &str) -> (r: bool)
    ensures
        r == text::is_decimal_literal(literal@),
{
    let n = literal.unicode_len();
    let start: usize = if n > 0 && (literal.get_char(0) == '+' || literal.get_char(0) == '-') {
        1
    } else {
        0
    };
    let point = start + count_digits(literal, start, n);
    proof {
        assert(literal@.skip(0) =~= literal@);
        assert(literal@.skip(start as int).skip(point - start) =~= literal@.skip(point as int));
        assert(literal@.skip(0).skip(point as int) =~= literal@.skip(point as int));
    }
    if point == n {
        return point > start;
    }
    if literal.get_char(point) != '.' {
        return false;
    }
    proof {
        assert(literal@.skip(point as int).skip(1) =~= literal@.skip(point + 1));
    }
    let end = point + 1 + count_digits(literal, point + 1, n);
    end == n && end - start > 1
}

/// Counts the digits of `text` from the place `from` on. `len` is the
/// length of `text`.
fn count_digits(text: &str, from: usize, len: usize) -> (count: usize)
    requires
        from <= len == text@.len(),
    ensures
        count == text::digit_run(text@.skip(from as int)),
        from + count <= len,
{
    let mut i: usize = from;
    loop
        invariant
            from <= i <= len == text@.len(),
            text::digit_run(text@.skip(from as int)) == (i - from) + text::digit_run(
                text@.skip(i as int),
            ),
        ensures
            text::digit_run(text@.skip(i as int)) == 0,
        decreases len - i,
    {
        if i == len {
            break ;
        }
        let c = text.get_char(i);
        if !('0' <= c && c <= '9') {
            break ;
        }
        proof {
            assert(text@.skip(i as int).skip(1) =~= text@.skip(i + 1));
        }
        i += 1;
    }
    i - from
}

/// Reads an assignment: `key`, to the letter, then `=`, then the value, which
/// `p` reads.
///
/// Where `key` and `=` do not stand at the front of the text, the error is
/// `UnexpectedKey`, `p` is not called and the text is left as it was. Where
/// they do, they are read, `p` is called once on the text behind them, and
/// what it returns is returned, be it a value or an error. The text is left
/// where `p` left it: behind the value if `p` read one, and, if `p` failed
/// and read nothing, behind the `=`.
pub fn parse_assignment<'a, O, P>(input: &mut &'a str, key: &str, p: P) -> (r: Result<
    O,
    ParseError,
>) where P: FnOnce(&mut &'a str) -> Result<O, ParseError>
    requires
        forall|value: &mut &'a str|
            grammar::yields(grammar::assignment(old(input)@, key@), (), (*value)@)
                ==> #[trigger] p.requires((value,)),
    ensures
        match grammar::assignment(old(input)@, key@) {
            Err(e) => r matches Err(found) && found == e && e == ParseError::UnexpectedKey
                && *final(input) == *old(input),
            Ok((_, behind)) => exists|value: &mut &'a str|
                {
                    &&& (*value)@ == behind
                    &&& #[trigger] p.ensures((value,), r)
                    &&& *final(input) == *final(value)
                },
        },
{
    let mut cur: &str = *input;
    match parse_key(&mut cur, key) {
        Ok(_) => {},
        Err(e) => {
            return Err(e);
        },
    }
    let r = p(&mut cur);
    *input = cur;
    r
}

/// Reads the head of an assignment: `key`, to the letter, and `=`.
fn parse_key<'a>(input: &mut &'a str, key: &str) -> (r: Result<(), ParseError>)
    ensures
        match r {
            Ok(_) => grammar::yields(grammar::assignment(old(input)@, key@), (), final(input)@),
            Err(e) => e == ParseError::UnexpectedKey && grammar::fails(
                grammar::assignment(old(input)@, key@),
                e,
            ) && *final(input) == *old(input),
        },
{
    match tokens::take_literal(*input, key) {
        None => Err(ParseError::UnexpectedKey),
        Some(rest) => match tokens::take_literal(rest, "=") {
            None => Err(ParseError::UnexpectedKey),
            Some(rest) => {
                *input = rest;
                Ok(())
            },
        },
    }
}

/// Reads the comma between two numbers of one value.
fn comma<'a>(input: &mut &'a str) -> (r: Result<(), ParseError>)
    ensures
        match r {
            Ok(_) => grammar::yields(grammar::comma(old(input)@), (), final(input)@),
            Err(e) => grammar::fails(grammar::comma(old(input)@), e) && *final(input) == *old(
                input,
            ),
        },
{
    match tokens::take_literal(*input, ",") {
        Some(rest) => {
            *input = rest;
            Ok(())
        },
        None => Err(ParseError::MissingComma),
    }
}

/// Reads an end of line.
fn line_ending<'a>(input: &mut &'a str) -> (r: Result<(), ParseError>)
    ensures
        match r {
            Ok(_) => grammar::yields(grammar::line_ending(old(input)@), (), final(input)@),
            Err(e) => grammar::fails(grammar::line_ending(old(input)@), e) && *final(input)
                == *old(input),
        },
{
    match tokens::take_line_ending(*input) {
        Some(rest) => {
            *input = rest;
            Ok(())
        },
        None => Err(ParseError::MissingLineEnding),
    }
}

/// Drops the text before the first place at which `key` stands, whatever it
/// holds.
fn skip_to<'a>(input: &mut &'a str, key: &str) -> (r: Result<(), ParseError>)
    ensures
        match r {
            Ok(_) => grammar::yields(grammar::skip_to(old(input)@, key@), (), final(input)@),
            Err(e) => grammar::fails(grammar::skip_to(old(input)@, key@), e) && *final(input)
                == *old(input),
        },
{
    match tokens::skip_until(*input, key) {
        Some(rest) => {
            *input = rest;
            Ok(())
        },
        None => Err(ParseError::KeyNotFound),
    }
}

/// Reads an unsigned integer.
fn parse_unsigned<'a>(input: &mut &'a str) -> (r: Result<u64, ParseError>)
    ensures
        match r {
            Ok(n) => grammar::yields(grammar::unsigned(old(input)@), n, final(input)@),
            Err(e) => grammar::fails(grammar::unsigned(old(input)@), e) && *final(input) == *old(
                input,
            ),
        },
{
    match tokens::take_dec_uint(*input) {
        Some((value, rest)) => {
            *input = rest;
            Ok(value)
        },
        None => Err(ParseError::MalformedInteger),
    }
}

/// Reads a signed integer.
fn parse_signed<'a>(input: &mut &'a str) -> (r: Result<i64, ParseError>)
    ensures
        match r {
            Ok(n) => grammar::yields(grammar::signed(old(input)@), n, final(input)@),
            Err(e) => grammar::fails(grammar::signed(old(input)@), e) && *final(input) == *old(
                input,
            ),
        },
{
    match tokens::take_dec_int(*input) {
        Some((value, rest)) => {
            *input = rest;
            Ok(value)
        },
        None => Err(ParseError::MalformedInteger),
    }
}

/// Reads a flag: an unsigned integer of at most 255, which is set where it
/// is not zero.
fn parse_flag<'a>(input: &mut &'a str) -> (r: Result<bool, ParseError>)
    ensures
        match r {
            Ok(set) => grammar::yields(grammar::flag(old(input)@), set, final(input)@),
            Err(e) => grammar::fails(grammar::flag(old(input)@), e) && *final(input) == *old(
                input,
            ),
        },
{
    match tokens::take_dec_uint(*input) {
        Some((value, rest)) => {
            if value <= 255 {
                *input = rest;
                Ok(value > 0)
            } else {
                Err(ParseError::MalformedInteger)
            }
        },
        None => Err(ParseError::MalformedInteger),
    }
}

/// Reads a code: a run of letters and digits.
fn parse_code<'a>(input: &mut &'a str) -> (r: Result<&'a str, ParseError>)
    ensures
        match r {
            Ok(code) => grammar::yields(grammar::code(old(input)@), code@, final(input)@),
            Err(e) => grammar::fails(grammar::code(old(input)@), e) && *final(input) == *old(
                input,
            ),
        },
{
    match tokens::take_alphanumeric(*input) {
        Some((code, rest)) => {
            *input = rest;
            Ok(code)
        },
        None => Err(ParseError::MalformedCode),
    }
}

/// Reads two numbers with a comma between them.
fn parse_number_pair<'a>(input: &mut &'a str) -> (r: Result<(Number, Number), ParseError>)
    ensures
        match r {
            Ok(pair) => grammar::yields(
                grammar::number_pair(old(input)@),
                (pair.0@, pair.1@),
                final(input)@,
            ),
            Err(e) => grammar::fails(grammar::number_pair(old(input)@), e) && *final(input)
                == *old(input),
        },
{
    let mut cur: &str = *input;
    let first = parse_number(&mut cur)?;
    comma(&mut cur)?;
    let second = parse_number(&mut cur)?;
    *input = cur;
    Ok((first, second))
}

/// Reads a position: `x,y`.
fn parse_position<'a>(input: &mut &'a str) -> (r: Result<Position, ParseError>)
    ensures
        match r {
            Ok(p) => grammar::yields(grammar::position(old(input)@), p@, final(input)@),
            Err(e) => grammar::fails(grammar::position(old(input)@), e) && *final(input) == *old(
                input,
            ),
        },
{
    let (x, y) = parse_number_pair(input)?;
    Ok(Position { x, y })
}

/// Reads an age range: `min,max`.
fn parse_age_range<'a>(input: &mut &'a str) -> (r: Result<AgeRange, ParseError>)
    ensures
        match r {
            Ok(a) => grammar::yields(grammar::age_range(old(input)@), a@, final(input)@),
            Err(e) => grammar::fails(grammar::age_range(old(input)@), e) && *final(input) == *old(
                input,
            ),
        },
{
    let (min, max) = parse_number_pair(input)?;
    Ok(AgeRange { min, max })
}

/// Reads the description of an object: the rest of the line, without the end
/// of line behind it, which is read too.
fn parse_description<'a>(input: &mut &'a str) -> (r: Result<String, ParseError>)
    ensures
        match r {
            Ok(d) => grammar::yields(grammar::description(old(input)@), d@, final(input)@),
            Err(e) => grammar::fails(grammar::description(old(input)@), e) && *final(input)
                == *old(input),
        },
{
    let mut cur: &str = *input;
    let mut description = String::new();
    assert(description@ + Seq::<char>::empty() =~= Seq::<char>::empty());
    loop
        invariant
            *input == *old(input),
            grammar::description(old(input)@) == grammar::description_after(
                description@,
                grammar::description(cur@),
            ),
        decreases cur@.len(),
    {
        match tokens::take_line_ending(cur) {
            Some(rest) => {
                proof {
                    assert(description@ + Seq::<char>::empty() =~= description@);
                }
                *input = rest;
                return Ok(description);
            },
            None => {},
        }
        match tokens::take_char_except(cur, '\n') {
            Some((c, rest)) => {
                proof {
                    match grammar::description(rest@) {
                        Ok((more, _)) => {
                            assert(description@ + (seq![c] + more) =~= description@.push(c)
                                + more);
                        },
                        Err(_) => {},
                    }
                }
                description.push(c);
                cur = rest;
            },
            None => {
                return Err(ParseError::MissingLineEnding);
            },
        }
    }
}

/// Reads an index list under `key` and the separator behind it, if all of
/// it stands there. It reads nothing if not.
fn parse_optional_list<'a>(input: &mut &'a str, key: &str) -> (r: Option<Vec<i64>>)
    ensures
        grammar::optional_list(old(input)@, key@) == (
            types::index_option_view(r),
            final(input)@,
        ),
        r is None ==> *final(input) == *old(input),
{
    let mut cur: &str = *input;
    let list = match parse_assignment(&mut cur, key, parse_index_list) {
        Ok(list) => list,
        Err(_) => {
            return None;
        },
    };
    if separator(&mut cur).is_err() {
        return None;
    }
    *input = cur;
    Some(list)
}

/// Reads a separator and, behind it, an index list under `key`.
fn parse_next_list<'a>(input: &mut &'a str, key: &str) -> (r: Result<Vec<i64>, ParseError>)
    ensures
        match r {
            Ok(list) => grammar::yields(
                grammar::next_list(old(input)@, key@),
                list@,
                final(input)@,
            ),
            Err(e) => grammar::fails(grammar::next_list(old(input)@, key@), e) && *final(input)
                == *old(input),
        },
{
    let mut cur: &str = *input;
    separator(&mut cur)?;
    let list = parse_assignment(&mut cur, key, parse_index_list)?;
    *input = cur;
    Ok(list)
}

/// Whether two texts are the same.
fn same_text(a: &str, b: &str) -> (r: bool)
    ensures
        r == (a@ == b@),
{
    let a: String = a.to_owned();
    let b: String = b.to_owned();
    a == b
}

} // verus!
