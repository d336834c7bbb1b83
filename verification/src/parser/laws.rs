//! What holds of the grammar on every text.

use vstd::prelude::*;
use super::error::ParseError;
use super::grammar;
use super::grammar::HeaderView;
use super::text;
use super::types::{
    ClothingView, KindView, NonPersonView, ObjectView, PersonCharacteristic, PositionView,
    SpriteView, TerminatorView,
};

verus! {

/// A sprite without its optional fields.
///
/// Let the fields of a sprite, up to `behindSlots`, stand at the front of
/// `s`, with a separator behind them, and let the text behind that separator
/// begin with neither `invisCont` nor `ignoredCont`. Then the sprite has
/// neither optional field and ends behind `behindSlots`: no character of
/// what follows was taken. The separator is then read as the one that
/// follows every sprite, and reading goes on at the key behind it.
pub proof fn lemma_sprite_without_optional_fields(
    s: Seq<char>,
    fields: SpriteView,
    behind_fields: Seq<char>,
    next: Seq<char>,
)
    requires
        grammar::yields(grammar::sprite_fields(s), fields, behind_fields),
        grammar::yields(grammar::separator(behind_fields), (), next),
        !"invisCont"@.is_prefix_of(next),
        !"ignoredCont"@.is_prefix_of(next),
    ensures
        fields.invis_cont is None,
        fields.ignored_cont is None,
        grammar::yields(grammar::sprite(s), fields, behind_fields),
        grammar::yields(grammar::then_separator(grammar::sprite(s)), fields, next),
{
    reveal(grammar::sprite_fields);
}

/// A sprite that ends at `behindSlots`, one separator and the terminator:
/// one sprite is read, with neither optional field, and the terminator
/// behind it.
pub proof fn lemma_last_sprite_without_optional_fields(
    s: Seq<char>,
    fields: SpriteView,
    behind_fields: Seq<char>,
    next: Seq<char>,
    end: TerminatorView,
    rest: Seq<char>,
)
    requires
        grammar::yields(grammar::sprite_fields(s), fields, behind_fields),
        grammar::yields(grammar::separator(behind_fields), (), next),
        grammar::yields(grammar::terminator(next), end, rest),
    ensures
        grammar::yields(grammar::sprites(s), (seq![fields], end), rest),
{
    lemma_terminator_begins_with_its_key(next);
    lemma_sprite_without_optional_fields(s, fields, behind_fields, next);
    lemma_sprites_one_by_one(s, fields, next);
    lemma_sprites_end_at_the_terminator(next, end, rest);
    assert(seq![fields] + Seq::<SpriteView>::empty() =~= seq![fields]);
}

/// A terminator begins with one of its three keys, and so with neither
/// `invisCont` nor `ignoredCont`.
pub proof fn lemma_terminator_begins_with_its_key(s: Seq<char>)
    requires
        grammar::terminator(s) is Ok,
    ensures
        "spritesDrawnBehind"@.is_prefix_of(s) || "spritesAdditiveBlend"@.is_prefix_of(s)
            || "headIndex"@.is_prefix_of(s),
        !"invisCont"@.is_prefix_of(s),
        !"ignoredCont"@.is_prefix_of(s),
        !"spriteID"@.is_prefix_of(s),
{
    reveal_strlit("spritesDrawnBehind");
    reveal_strlit("spritesAdditiveBlend");
    reveal_strlit("headIndex");
    reveal_strlit("invisCont");
    reveal_strlit("ignoredCont");
    reveal_strlit("spriteID");
    if "spritesDrawnBehind"@.is_prefix_of(s) {
        assert(s[0] == "spritesDrawnBehind"@[0] && s[6] == "spritesDrawnBehind"@[6]);
    } else if "spritesAdditiveBlend"@.is_prefix_of(s) {
        assert(s[0] == "spritesAdditiveBlend"@[0] && s[6] == "spritesAdditiveBlend"@[6]);
    } else {
        assert("headIndex"@.is_prefix_of(s));
        assert(s[0] == "headIndex"@[0]);
    }
    if "invisCont"@.is_prefix_of(s) {
        assert(s[0] == "invisCont"@[0]);
    }
    if "ignoredCont"@.is_prefix_of(s) {
        assert(s[0] == "ignoredCont"@[0]);
    }
    if "spriteID"@.is_prefix_of(s) {
        assert(s[0] == "spriteID"@[0] && s[6] == "spriteID"@[6]);
    }
}

/// Where a sprite stands, no terminator stands: the sprites of an object are
/// never taken for their end.
pub proof fn lemma_no_terminator_where_a_sprite_stands(s: Seq<char>)
    requires
        grammar::sprite_fields(s) is Ok,
    ensures
        grammar::terminator(s) is Err,
{
    reveal(grammar::sprite_fields);
    if grammar::terminator(s) is Ok {
        lemma_terminator_begins_with_its_key(s);
    }
}

/// Sprites are read one by one: where a sprite and a separator stand at the
/// front of a text, the sprites of the text are that sprite and then the
/// sprites of the text behind the separator. None is dropped, none is read
/// twice, and their order is that of the text.
pub proof fn lemma_sprites_one_by_one(s: Seq<char>, first: SpriteView, behind: Seq<char>)
    requires
        grammar::yields(grammar::then_separator(grammar::sprite(s)), first, behind),
    ensures
        grammar::sprites(s) == grammar::sprites_after(seq![first], grammar::sprites(behind)),
{
    lemma_no_terminator_where_a_sprite_stands(s);
}

/// The text behind the sprites `records`, where `s` begins with them, one
/// after the other and each with one separator behind it.
pub open spec fn behind_sprites(s: Seq<char>, records: Seq<SpriteView>) -> Option<Seq<char>>
    decreases records.len(),
{
    if records.len() == 0 {
        Some(s)
    } else {
        match grammar::then_separator(grammar::sprite(s)) {
            Ok((first, behind)) if first == records[0] => behind_sprites(behind, records.skip(1)),
            _ => None,
        }
    }
}

/// Any number of sprites, each with one separator behind it, and then the
/// terminator: all of them are read, in their order, and then the
/// terminator. How many there are is set by where the terminator stands.
pub proof fn lemma_sprites_up_to_the_terminator(
    s: Seq<char>,
    records: Seq<SpriteView>,
    behind: Seq<char>,
    end: TerminatorView,
    rest: Seq<char>,
)
    requires
        behind_sprites(s, records) == Some(behind),
        grammar::yields(grammar::terminator(behind), end, rest),
    ensures
        grammar::yields(grammar::sprites(s), (records, end), rest),
    decreases records.len(),
{
    if records.len() == 0 {
        lemma_sprites_end_at_the_terminator(s, end, rest);
        assert(records =~= Seq::<SpriteView>::empty());
    } else {
        match grammar::then_separator(grammar::sprite(s)) {
            Ok((first, next)) => {
                lemma_sprites_up_to_the_terminator(next, records.skip(1), behind, end, rest);
                lemma_sprites_one_by_one(s, first, next);
                assert(seq![first] + records.skip(1) =~= records);
            },
            Err(_) => {},
        }
    }
}

/// Sprites end where the terminator stands, whatever count the file
/// declares.
pub proof fn lemma_sprites_end_at_the_terminator(s: Seq<char>, end: TerminatorView, rest: Seq<char>)
    requires
        grammar::yields(grammar::terminator(s), end, rest),
    ensures
        grammar::yields(grammar::sprites(s), (Seq::<SpriteView>::empty(), end), rest),
{
}

/// A person is a person whatever its clothing: where the person flag is set,
/// the kind depends on the male flag alone, and it is `Feminine` where that
/// flag is not set.
pub proof fn lemma_person_goes_first(is_male: bool, code: Seq<char>, offset: PositionView)
    ensures
        grammar::kind(true, is_male, code, offset) == KindView::Person(
            if is_male {
                PersonCharacteristic::Masculine
            } else {
                PersonCharacteristic::Feminine
            },
        ),
        grammar::kind(true, false, code, offset) == KindView::Person(
            PersonCharacteristic::Feminine,
        ),
{
}

/// An object that is no person and has the clothing code `t` is a tunic, worn
/// at the clothing offset of the object.
pub proof fn lemma_tunic(is_male: bool, offset: PositionView)
    ensures
        grammar::kind(false, is_male, "t"@, offset) == KindView::NonPerson(
            NonPersonView::Clothing(ClothingView::Tunic(offset)),
        ),
{
    reveal_strlit("t");
    reveal_strlit("n");
    reveal_strlit("s");
    assert("t"@[0] == 't' && "n"@[0] == 'n' && "s"@[0] == 's');
}

/// In an object file, the person flag goes before the clothing code: an
/// object whose file sets `person` and does not set `male` is a feminine
/// person, whatever the file says of clothing.
pub proof fn lemma_object_of_a_person(
    s: Seq<char>,
    head: HeaderView,
    behind_head: Seq<char>,
    found: ObjectView,
    rest: Seq<char>,
)
    requires
        grammar::yields(grammar::header(s), head, behind_head),
        grammar::yields(grammar::object(s), found, rest),
        head.is_person,
        !head.is_male,
    ensures
        found.kind == KindView::Person(PersonCharacteristic::Feminine),
{
}

/// An object whose file does not set `person` and gives the clothing code
/// `t` is a tunic, worn at the `clothingOffset` of the file.
pub proof fn lemma_object_of_a_tunic(
    s: Seq<char>,
    head: HeaderView,
    behind_head: Seq<char>,
    found: ObjectView,
    rest: Seq<char>,
)
    requires
        grammar::yields(grammar::header(s), head, behind_head),
        grammar::yields(grammar::object(s), found, rest),
        !head.is_person,
        head.clothing == "t"@,
    ensures
        found.kind == KindView::NonPerson(
            NonPersonView::Clothing(ClothingView::Tunic(head.clothing_offset)),
        ),
{
    lemma_tunic(head.is_male, head.clothing_offset);
}

/// A description is one line: it holds no line feed, and the text it was
/// read from is the description, an end of line, and the text left.
pub proof fn lemma_description_is_a_line(s: Seq<char>)
    ensures
        grammar::description(s) matches Ok((line, rest)) ==> {
            &&& !line.contains('\n')
            &&& s == line + seq!['\n'] + rest || s == line + seq!['\r', '\n'] + rest
        },
    decreases s.len(),
{
    match grammar::description(s) {
        Ok((line, rest)) => {
            if text::after_line_ending(s) is Some {
                assert(line =~= Seq::<char>::empty());
                if s[0] == '\n' {
                    assert(s =~= line + seq!['\n'] + rest);
                } else {
                    assert(s =~= line + seq!['\r', '\n'] + rest);
                }
            } else {
                let tail = s.skip(1);
                lemma_description_is_a_line(tail);
                match grammar::description(tail) {
                    Ok((more, _)) => {
                        assert(line == seq![s[0]] + more);
                        assert forall|i: int| 0 <= i < line.len() implies line[i] != '\n' by {
                            if i > 0 {
                                assert(more[i - 1] == line[i]);
                                assert(more.contains(line[i]));
                            }
                        }
                        assert(s =~= seq![s[0]] + tail);
                        if tail == more + seq!['\n'] + rest {
                            assert(seq![s[0]] + (more + seq!['\n'] + rest) =~= line + seq!['\n']
                                + rest);
                        } else {
                            assert(seq![s[0]] + (more + seq!['\r', '\n'] + rest) =~= line
                                + seq!['\r', '\n'] + rest);
                        }
                    },
                    Err(_) => {},
                }
            }
        },
        Err(_) => {},
    }
}

/// A text that is no object leaves no trace among the objects of a set of
/// texts: of a well-formed text and a malformed one, in either order, one
/// object is read, and it is that of the well-formed text.
pub proof fn lemma_malformed_text_is_dropped(good: Seq<char>, bad: Seq<char>)
    requires
        grammar::object(good) is Ok,
        grammar::object(bad) is Err,
    ensures
        grammar::objects(seq![good, bad]) == seq![grammar::object(good)->Ok_0.0],
        grammar::objects(seq![bad, good]) == seq![grammar::object(good)->Ok_0.0],
{
    reveal_with_fuel(grammar::objects, 3);
    assert(seq![good, bad].drop_last() =~= seq![good]);
    assert(seq![bad, good].drop_last() =~= seq![bad]);
    assert(seq![good].drop_last() =~= Seq::<Seq<char>>::empty());
    assert(seq![bad].drop_last() =~= Seq::<Seq<char>>::empty());
    assert(Seq::<ObjectView>::empty().push(grammar::object(good)->Ok_0.0)
        =~= seq![grammar::object(good)->Ok_0.0]);
}

/// No more objects are read than there are texts, and as many where every
/// text is an object.
pub proof fn lemma_objects_count(texts: Seq<Seq<char>>)
    ensures
        grammar::objects(texts).len() <= texts.len(),
        (forall|i: int| 0 <= i < texts.len() ==> grammar::object(#[trigger] texts[i]) is Ok)
            ==> grammar::objects(texts).len() == texts.len(),
    decreases texts.len(),
{
    if texts.len() > 0 {
        lemma_objects_count(texts.drop_last());
    }
}

/// Every number is a decimal literal: what is read is a sign at most, and
/// digits with a point at most among them; and the text is that literal and
/// what is left behind it.
pub proof fn lemma_number_is_decimal(s: Seq<char>, literal: Seq<char>, rest: Seq<char>)
    requires
        grammar::yields(grammar::number(s), literal, rest),
    ensures
        text::is_decimal_literal(literal),
        s == literal + rest,
        literal.len() >= 1,
        text::is_digit(s[0]) || s[0] == '.' || s[0] == '+' || s[0] == '-',
{
    text::lemma_decimal_number_splits(s);
    text::lemma_decimal_literal_characters(literal, 0);
}

/// `nan`, `inf` and `infinity` are no numbers, in whatever case they are
/// written and whatever sign stands before them; nor is any other text that
/// begins with a letter.
pub proof fn lemma_not_a_number(s: Seq<char>)
    requires
        text::begins_nan(s) || text::begins_inf(s) || ((s[0] == '+' || s[0] == '-') && (
        text::begins_nan(s.skip(1)) || text::begins_inf(s.skip(1)))),
    ensures
        grammar::fails(grammar::number(s), ParseError::MalformedNumber),
{
    match grammar::number(s) {
        Ok((literal, rest)) => {
            lemma_number_is_decimal(s, literal, rest);
            if s[0] == '+' || s[0] == '-' {
                if literal.len() > 1 {
                    text::lemma_decimal_literal_characters(literal, 1);
                    assert(literal[1] == s[1]);
                    assert(s.skip(1)[0] == s[1]);
                } else {
                    assert(literal.skip(1).len() == 0);
                }
            }
        },
        Err(_) => {},
    }
}

/// A decimal literal is read in full, and nothing else is, where the text
/// behind it does not go on with a digit, a point or an exponent: so it is
/// before a separator and at the end of the text.
pub proof fn lemma_number_is_read(literal: Seq<char>, rest: Seq<char>)
    requires
        text::is_decimal_literal(literal),
        rest.len() > 0 ==> !text::is_digit(rest[0]) && rest[0] != '.' && !text::is_letter(
            rest[0],
            'e',
            'E',
        ),
    ensures
        grammar::yields(grammar::number(literal + rest), literal, rest),
{
    text::lemma_decimal_literal_is_read(literal, rest);
}

} // verus!
