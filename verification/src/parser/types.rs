//! The typed form of a parsed object, and the mathematical view of each type.
//!
//! Every type here has a view (`@`): a value made of sequences and integers
//! only, in which the contracts of the parser are stated.

use vstd::prelude::*;

verus! {

/// A decimal number, kept as the literal that stood in the source text.
///
/// The format writes every scalar, flags included, as decimal text such as
/// `-23.000000`. The literal is kept as written, so that no digit is lost; the
/// view of a `Number` is that literal. A number that was read is a decimal
/// literal: an optional sign, and then digits with one point at most among
/// them, such as `0`, `-1.5`, `5.` or `.5`.
#[derive(Debug, PartialEq, Eq)]
pub struct Number(pub String);

impl View for Number {
    type V = Seq<char>;

    open spec fn view(&self) -> Seq<char> {
        self.0@
    }
}

impl Number {
    /// The literal of the number zero: the single digit `0`.
    pub open spec fn zero_literal() -> Seq<char> {
        seq!['0']
    }

    /// The literal as written in the source.
    pub fn as_str(&self) -> (r: &str)
        ensures
            r@ == self@,
    {
        self.0.as_str()
    }
}

impl Default for Number {
    fn default() -> (r: Number)
        ensures
            r@ == Number::zero_literal(),
    {
        proof {
            reveal_strlit("0");
        }
        assert("0"@ =~= Number::zero_literal());
        Number("0".to_owned())
    }
}

/// A point in the plane.
#[derive(Debug, PartialEq, Eq)]
pub struct Position {
    pub x: Number,
    pub y: Number,
}

/// The view of a `Position`.
pub struct PositionView {
    pub x: Seq<char>,
    pub y: Seq<char>,
}

impl View for Position {
    type V = PositionView;

    open spec fn view(&self) -> PositionView {
        PositionView { x: self.x@, y: self.y@ }
    }
}

impl PositionView {
    /// The origin, which is the view of `Position::default()`.
    pub open spec fn origin() -> PositionView {
        PositionView { x: Number::zero_literal(), y: Number::zero_literal() }
    }
}

impl Default for Position {
    fn default() -> (r: Position)
        ensures
            r@ == PositionView::origin(),
    {
        Position { x: Number::default(), y: Number::default() }
    }
}

/// A colour as red, green and blue parts.
#[derive(Debug, PartialEq, Eq)]
pub struct ColorRGB {
    pub r: Number,
    pub g: Number,
    pub b: Number,
}

/// The view of a `ColorRGB`.
pub struct ColorView {
    pub r: Seq<char>,
    pub g: Seq<char>,
    pub b: Seq<char>,
}

impl View for ColorRGB {
    type V = ColorView;

    open spec fn view(&self) -> ColorView {
        ColorView { r: self.r@, g: self.g@, b: self.b@ }
    }
}

impl Default for ColorRGB {
    fn default() -> (r: ColorRGB)
        ensures
            r@ == (ColorView { r: Number::zero_literal(), g: Number::zero_literal(), b: Number::zero_literal() }),
    {
        ColorRGB { r: Number::default(), g: Number::default(), b: Number::default() }
    }
}

/// The ages between which a sprite is drawn.
#[derive(Debug, PartialEq, Eq)]
pub struct AgeRange {
    pub min: Number,
    pub max: Number,
}

/// The view of an `AgeRange`.
pub struct AgeRangeView {
    pub min: Seq<char>,
    pub max: Seq<char>,
}

impl View for AgeRange {
    type V = AgeRangeView;

    open spec fn view(&self) -> AgeRangeView {
        AgeRangeView { min: self.min@, max: self.max@ }
    }
}

impl Default for AgeRange {
    fn default() -> (r: AgeRange)
        ensures
            r@ == (AgeRangeView { min: Number::zero_literal(), max: Number::zero_literal() }),
    {
        AgeRange { min: Number::default(), max: Number::default() }
    }
}

/// What distinguishes one person from another.
#[derive(Debug, Clone, Copy, PartialEq, Eq, Structural)]
pub enum PersonCharacteristic {
    Feminine,
    Masculine,
}

impl Default for PersonCharacteristic {
    fn default() -> (r: PersonCharacteristic)
        ensures
            r == PersonCharacteristic::Feminine,
    {
        PersonCharacteristic::Feminine
    }
}

/// A piece of clothing, with the offset at which it is worn.
#[derive(Debug, PartialEq, Eq)]
pub enum ClothingObject {
    Shoe(Position),
    Tunic(Position),
    Hat(Position),
    Bottom(Position),
    Backpack(Position),
}

/// The view of a `ClothingObject`.
pub enum ClothingView {
    Shoe(PositionView),
    Tunic(PositionView),
    Hat(PositionView),
    Bottom(PositionView),
    Backpack(PositionView),
}

impl View for ClothingObject {
    type V = ClothingView;

    open spec fn view(&self) -> ClothingView {
        match *self {
            ClothingObject::Shoe(p) => ClothingView::Shoe(p@),
            ClothingObject::Tunic(p) => ClothingView::Tunic(p@),
            ClothingObject::Hat(p) => ClothingView::Hat(p@),
            ClothingObject::Bottom(p) => ClothingView::Bottom(p@),
            ClothingObject::Backpack(p) => ClothingView::Backpack(p@),
        }
    }
}

impl ClothingView {
    /// The clothing that an unknown code stands for: a tunic at the origin.
    pub open spec fn fallback() -> ClothingView {
        ClothingView::Tunic(PositionView::origin())
    }
}

impl Default for ClothingObject {
    fn default() -> (r: ClothingObject)
        ensures
            r@ == ClothingView::fallback(),
    {
        ClothingObject::Tunic(Position::default())
    }
}

/// An object that is no person.
#[derive(Debug, PartialEq, Eq)]
pub enum NonPersonObject {
    Clothing(ClothingObject),
    Other,
}

/// The view of a `NonPersonObject`.
pub enum NonPersonView {
    Clothing(ClothingView),
    Other,
}

impl View for NonPersonObject {
    type V = NonPersonView;

    open spec fn view(&self) -> NonPersonView {
        match *self {
            NonPersonObject::Clothing(c) => NonPersonView::Clothing(c@),
            NonPersonObject::Other => NonPersonView::Other,
        }
    }
}

impl Default for NonPersonObject {
    fn default() -> (r: NonPersonObject)
        ensures
            r@ == NonPersonView::Other,
    {
        NonPersonObject::Other
    }
}

/// What kind of thing an object is. An object is a person or it is not: a
/// person is never clothing.
#[derive(Debug, PartialEq, Eq)]
pub enum ObjectKind {
    Person(PersonCharacteristic),
    NonPerson(NonPersonObject),
}

/// The view of an `ObjectKind`.
pub enum KindView {
    Person(PersonCharacteristic),
    NonPerson(NonPersonView),
}

impl View for ObjectKind {
    type V = KindView;

    open spec fn view(&self) -> KindView {
        match *self {
            ObjectKind::Person(c) => KindView::Person(c),
            ObjectKind::NonPerson(n) => KindView::NonPerson(n@),
        }
    }
}

impl Default for ObjectKind {
    fn default() -> (r: ObjectKind)
        ensures
            r@ == KindView::NonPerson(NonPersonView::Other),
    {
        ObjectKind::NonPerson(NonPersonObject::default())
    }
}

/// One drawable layer of an object.
///
/// `parent` is the index of another sprite of the same object, or -1 for
/// none. The two last fields stand in some records and not in others.
#[derive(Debug, PartialEq, Eq)]
pub struct Sprite {
    pub id: u64,
    pub position: Position,
    pub rot: Number,
    pub h_flip: Number,
    pub color: ColorRGB,
    pub age_range: AgeRange,
    pub parent: i64,
    pub invis_holding: Number,
    pub invis_worn: Number,
    pub behind_slots: Number,
    pub invis_cont: Option<Number>,
    pub ignored_cont: Option<Number>,
}

/// The view of a `Sprite`.
pub struct SpriteView {
    pub id: u64,
    pub position: PositionView,
    pub rot: Seq<char>,
    pub h_flip: Seq<char>,
    pub color: ColorView,
    pub age_range: AgeRangeView,
    pub parent: i64,
    pub invis_holding: Seq<char>,
    pub invis_worn: Seq<char>,
    pub behind_slots: Seq<char>,
    pub invis_cont: Option<Seq<char>>,
    pub ignored_cont: Option<Seq<char>>,
}

/// The view of a number that may be absent.
pub open spec fn number_option_view(n: Option<Number>) -> Option<Seq<char>> {
    match n {
        Some(n) => Some(n@),
        None => None,
    }
}

/// The view of an index list that may be absent.
pub open spec fn index_option_view(l: Option<Vec<i64>>) -> Option<Seq<i64>> {
    match l {
        Some(l) => Some(l@),
        None => None,
    }
}

/// The views of a sequence of sprites, one by one.
pub open spec fn sprite_views(sprites: Seq<Sprite>) -> Seq<SpriteView> {
    sprites.map_values(|s: Sprite| s@)
}

impl View for Sprite {
    type V = SpriteView;

    open spec fn view(&self) -> SpriteView {
        SpriteView {
            id: self.id,
            position: self.position@,
            rot: self.rot@,
            h_flip: self.h_flip@,
            color: self.color@,
            age_range: self.age_range@,
            parent: self.parent,
            invis_holding: self.invis_holding@,
            invis_worn: self.invis_worn@,
            behind_slots: self.behind_slots@,
            invis_cont: number_option_view(self.invis_cont),
            ignored_cont: number_option_view(self.ignored_cont),
        }
    }
}

impl Default for Sprite {
    fn default() -> (r: Sprite)
        ensures
            r@ == (SpriteView {
                id: 0,
                position: PositionView::origin(),
                rot: Number::zero_literal(),
                h_flip: Number::zero_literal(),
                color: ColorView { r: Number::zero_literal(), g: Number::zero_literal(), b: Number::zero_literal() },
                age_range: AgeRangeView { min: Number::zero_literal(), max: Number::zero_literal() },
                parent: 0,
                invis_holding: Number::zero_literal(),
                invis_worn: Number::zero_literal(),
                behind_slots: Number::zero_literal(),
                invis_cont: None,
                ignored_cont: None,
            }),
    {
        Sprite {
            id: 0,
            position: Position::default(),
            rot: Number::default(),
            h_flip: Number::default(),
            color: ColorRGB::default(),
            age_range: AgeRange::default(),
            parent: 0,
            invis_holding: Number::default(),
            invis_worn: Number::default(),
            behind_slots: Number::default(),
            invis_cont: None,
            ignored_cont: None,
        }
    }
}

/// What ends the sprites of an object: two index lists that only files of the
/// later format hold, and the index list of the head.
#[derive(Debug, PartialEq, Eq)]
pub struct Terminator {
    pub sprites_drawn_behind: Option<Vec<i64>>,
    pub sprites_additive_blend: Option<Vec<i64>>,
    pub head_index: Vec<i64>,
}

/// The view of a `Terminator`.
pub struct TerminatorView {
    pub sprites_drawn_behind: Option<Seq<i64>>,
    pub sprites_additive_blend: Option<Seq<i64>>,
    pub head_index: Seq<i64>,
}

impl View for Terminator {
    type V = TerminatorView;

    open spec fn view(&self) -> TerminatorView {
        TerminatorView {
            sprites_drawn_behind: index_option_view(self.sprites_drawn_behind),
            sprites_additive_blend: index_option_view(self.sprites_additive_blend),
            head_index: self.head_index@,
        }
    }
}

/// One parsed game entity.
///
/// `num_sprites` is the count that the file declares. It describes; nothing
/// holds it to the number of `sprites`. The index lists name sprites by their
/// place in `sprites`, with -1 for none; an index may lie outside `sprites`.
/// The two optional lists stand only in files of the later format.
#[derive(Debug, PartialEq, Eq)]
pub struct Object {
    pub id: u64,
    pub description: String,
    pub kind: ObjectKind,
    pub num_sprites: u64,
    pub sprites: Vec<Sprite>,
    pub sprites_drawn_behind: Option<Vec<i64>>,
    pub sprites_additive_blend: Option<Vec<i64>>,
    pub head_index: Vec<i64>,
    pub body_index: Vec<i64>,
    pub back_foot_index: Vec<i64>,
    pub front_foot_index: Vec<i64>,
}

/// The view of an `Object`.
pub struct ObjectView {
    pub id: u64,
    pub description: Seq<char>,
    pub kind: KindView,
    pub num_sprites: u64,
    pub sprites: Seq<SpriteView>,
    pub sprites_drawn_behind: Option<Seq<i64>>,
    pub sprites_additive_blend: Option<Seq<i64>>,
    pub head_index: Seq<i64>,
    pub body_index: Seq<i64>,
    pub back_foot_index: Seq<i64>,
    pub front_foot_index: Seq<i64>,
}

impl View for Object {
    type V = ObjectView;

    open spec fn view(&self) -> ObjectView {
        ObjectView {
            id: self.id,
            description: self.description@,
            kind: self.kind@,
            num_sprites: self.num_sprites,
            sprites: sprite_views(self.sprites@),
            sprites_drawn_behind: index_option_view(self.sprites_drawn_behind),
            sprites_additive_blend: index_option_view(self.sprites_additive_blend),
            head_index: self.head_index@,
            body_index: self.body_index@,
            back_foot_index: self.back_foot_index@,
            front_foot_index: self.front_foot_index@,
        }
    }
}

/// The views of a sequence of objects, one by one.
pub open spec fn object_views(objects: Seq<Object>) -> Seq<ObjectView> {
    objects.map_values(|o: Object| o@)
}

/// The views of a sequence of texts, one by one.
pub open spec fn text_views(texts: Seq<String>) -> Seq<Seq<char>> {
    texts.map_values(|t: String| t@)
}

impl Default for Object {
    fn default() -> (r: Object)
        ensures
            r@ == (ObjectView {
                id: 0,
                description: Seq::empty(),
                kind: KindView::NonPerson(NonPersonView::Other),
                num_sprites: 0,
                sprites: Seq::empty(),
                sprites_drawn_behind: None,
                sprites_additive_blend: None,
                head_index: Seq::empty(),
                body_index: Seq::empty(),
                back_foot_index: Seq::empty(),
                front_foot_index: Seq::empty(),
            }),
    {
        let r = Object {
            id: 0,
            description: String::new(),
            kind: ObjectKind::default(),
            num_sprites: 0,
            sprites: Vec::new(),
            sprites_drawn_behind: None,
            sprites_additive_blend: None,
            head_index: Vec::new(),
            body_index: Vec::new(),
            back_foot_index: Vec::new(),
            front_foot_index: Vec::new(),
        };
        assert(sprite_views(r.sprites@) =~= Seq::empty());
        r
    }
}

} // verus!
