//! The parsers on whole records, with every number compared by its value.

use thol_sprites_mini_parser::parser::types;
use thol_sprites_mini_parser::parser::{parse_object, parse_sprite, parse_sprites};
use winnow::Parser;

#[derive(Debug, PartialEq)]
struct Number(f64);

#[derive(Debug, PartialEq)]
struct Position {
    x: Number,
    y: Number,
}

#[derive(Debug, PartialEq)]
struct ColorRGB {
    r: Number,
    g: Number,
    b: Number,
}

#[derive(Debug, PartialEq)]
struct AgeRange {
    min: Number,
    max: Number,
}

#[derive(Debug, PartialEq)]
struct Sprite {
    id: u64,
    position: Position,
    rot: Number,
    h_flip: Number,
    color: ColorRGB,
    age_range: AgeRange,
    parent: i64,
    invis_holding: Number,
    invis_worn: Number,
    behind_slots: Number,
    invis_cont: Option<Number>,
    ignored_cont: Option<Number>,
}

#[derive(Debug, PartialEq)]
enum PersonCharacteristic {
    Feminine,
    Masculine,
}

#[derive(Debug, PartialEq)]
enum ClothingObject {
    Shoe(Position),
    Tunic(Position),
    Hat(Position),
    Bottom(Position),
    Backpack(Position),
}

#[derive(Debug, PartialEq)]
enum NonPersonObject {
    Clothing(ClothingObject),
    Other,
}

#[derive(Debug, PartialEq)]
enum ObjectKind {
    Person(PersonCharacteristic),
    NonPerson(NonPersonObject),
}

#[derive(Debug, PartialEq)]
struct Object {
    id: u64,
    description: String,
    kind: ObjectKind,
    num_sprites: u64,
    sprites: Vec<Sprite>,
    sprites_drawn_behind: Option<Vec<i64>>,
    sprites_additive_blend: Option<Vec<i64>>,
    head_index: Vec<i64>,
    body_index: Vec<i64>,
    back_foot_index: Vec<i64>,
    front_foot_index: Vec<i64>,
}

fn number(n: &types::Number) -> Number {
    Number(n.as_str().parse().unwrap())
}

fn position(p: &types::Position) -> Position {
    Position { x: number(&p.x), y: number(&p.y) }
}

fn sprite(s: &types::Sprite) -> Sprite {
    Sprite {
        id: s.id,
        position: position(&s.position),
        rot: number(&s.rot),
        h_flip: number(&s.h_flip),
        color: ColorRGB { r: number(&s.color.r), g: number(&s.color.g), b: number(&s.color.b) },
        age_range: AgeRange { min: number(&s.age_range.min), max: number(&s.age_range.max) },
        parent: s.parent,
        invis_holding: number(&s.invis_holding),
        invis_worn: number(&s.invis_worn),
        behind_slots: number(&s.behind_slots),
        invis_cont: s.invis_cont.as_ref().map(number),
        ignored_cont: s.ignored_cont.as_ref().map(number),
    }
}

fn kind(k: &types::ObjectKind) -> ObjectKind {
    match k {
        types::ObjectKind::Person(types::PersonCharacteristic::Feminine) => {
            ObjectKind::Person(PersonCharacteristic::Feminine)
        }
        types::ObjectKind::Person(types::PersonCharacteristic::Masculine) => {
            ObjectKind::Person(PersonCharacteristic::Masculine)
        }
        types::ObjectKind::NonPerson(types::NonPersonObject::Other) => {
            ObjectKind::NonPerson(NonPersonObject::Other)
        }
        types::ObjectKind::NonPerson(types::NonPersonObject::Clothing(c)) => {
            ObjectKind::NonPerson(NonPersonObject::Clothing(match c {
                types::ClothingObject::Shoe(p) => ClothingObject::Shoe(position(p)),
                types::ClothingObject::Tunic(p) => ClothingObject::Tunic(position(p)),
                types::ClothingObject::Hat(p) => ClothingObject::Hat(position(p)),
                types::ClothingObject::Bottom(p) => ClothingObject::Bottom(position(p)),
                types::ClothingObject::Backpack(p) => ClothingObject::Backpack(position(p)),
            }))
        }
    }
}

fn object(o: &types::Object) -> Object {
    Object {
        id: o.id,
        description: o.description.clone(),
        kind: kind(&o.kind),
        num_sprites: o.num_sprites,
        sprites: o.sprites.iter().map(sprite).collect(),
        sprites_drawn_behind: o.sprites_drawn_behind.clone(),
        sprites_additive_blend: o.sprites_additive_blend.clone(),
        head_index: o.head_index.clone(),
        body_index: o.body_index.clone(),
        back_foot_index: o.back_foot_index.clone(),
        front_foot_index: o.front_foot_index.clone(),
    }
}

/// The three parsers of records, each on its record.
#[test]
fn parser_test() {
    let source = "id=1
wth is going on here?? meowi! spzz **@#HJasba sa whs
person=1,spawn=0
male=0
clothing=n
clothingOffset=0.2,4.0
numSprites=7
spriteID=110013
pos=40.000000,-23.000000
rot=0.000000
hFlip=0
color=1.000000,1.000000,1.000000
ageRange=-1.000000,-1.000000
parent=-1
invisHolding=0,invisWorn=0,behindSlots=0
invisCont=0
spriteID=110013
pos=-12.000000,-9.000000
rot=0.000000
hFlip=1
color=1.000000,1.000000,1.000000
ageRange=-1.000000,-1.000000
parent=-1
invisHolding=0,invisWorn=0,behindSlots=0
invisCont=0
spriteID=110013
pos=-39.000000,-16.000000
rot=0.000000
hFlip=0
color=1.000000,1.000000,1.000000
ageRange=-1.000000,-1.000000
parent=-1
invisHolding=0,invisWorn=0,behindSlots=0
invisCont=0
spriteID=493
pos=1.000000,-35.000000
rot=0.000000
hFlip=0
color=1.000000,1.000000,1.000000
ageRange=-1.000000,-1.000000
parent=-1
invisHolding=0,invisWorn=0,behindSlots=0
invisCont=0
spriteID=110013
pos=16.000000,-12.000000
rot=0.000000
hFlip=0
color=1.000000,1.000000,1.000000
ageRange=-1.000000,-1.000000
parent=-1
invisHolding=0,invisWorn=0,behindSlots=0
invisCont=0
headIndex=-1
bodyIndex=4,9,12,1
backFootIndex=9,19,22,33,39
frontFootIndex=6,15,17,30,36";
    assert_eq!(
        parse_object.parse_peek(source).map(|(rest, parsed)| (rest, object(&parsed))),
        Ok((
            "",
            Object {
                id: 1,
                description: "wth is going on here?? meowi! spzz **@#HJasba sa whs".to_string(),
                kind: ObjectKind::Person(PersonCharacteristic::Feminine),
                num_sprites: 7,
                sprites: vec![
                    Sprite {
                        id: 110013,
                        position: Position { x: Number(40.0), y: Number(-23.0) },
                        rot: Number(0.0),
                        h_flip: Number(0.0),
                        color: ColorRGB { r: Number(1.0), g: Number(1.0), b: Number(1.0) },
                        age_range: AgeRange { min: Number(-1.0), max: Number(-1.0) },
                        parent: -1,
                        invis_holding: Number(0.0),
                        invis_worn: Number(0.0),
                        behind_slots: Number(0.0),
                        invis_cont: Some(Number(0.0)),
                        ignored_cont: None,
                    },
                    Sprite {
                        id: 110013,
                        position: Position { x: Number(-12.0), y: Number(-9.0) },
                        rot: Number(0.0),
                        h_flip: Number(1.0),
                        color: ColorRGB { r: Number(1.0), g: Number(1.0), b: Number(1.0) },
                        age_range: AgeRange { min: Number(-1.0), max: Number(-1.0) },
                        parent: -1,
                        invis_holding: Number(0.0),
                        invis_worn: Number(0.0),
                        behind_slots: Number(0.0),
                        invis_cont: Some(Number(0.0)),
                        ignored_cont: None,
                    },
                    Sprite {
                        id: 110013,
                        position: Position { x: Number(-39.0), y: Number(-16.0) },
                        rot: Number(0.0),
                        h_flip: Number(0.0),
                        color: ColorRGB { r: Number(1.0), g: Number(1.0), b: Number(1.0) },
                        age_range: AgeRange { min: Number(-1.0), max: Number(-1.0) },
                        parent: -1,
                        invis_holding: Number(0.0),
                        invis_worn: Number(0.0),
                        behind_slots: Number(0.0),
                        invis_cont: Some(Number(0.0)),
                        ignored_cont: None,
                    },
                    Sprite {
                        id: 493,
                        position: Position { x: Number(1.0), y: Number(-35.0) },
                        rot: Number(0.0),
                        h_flip: Number(0.0),
                        color: ColorRGB { r: Number(1.0), g: Number(1.0), b: Number(1.0) },
                        age_range: AgeRange { min: Number(-1.0), max: Number(-1.0) },
                        parent: -1,
                        invis_holding: Number(0.0),
                        invis_worn: Number(0.0),
                        behind_slots: Number(0.0),
                        invis_cont: Some(Number(0.0)),
                        ignored_cont: None,
                    },
                    Sprite {
                        id: 110013,
                        position: Position { x: Number(16.0), y: Number(-12.0) },
                        rot: Number(0.0),
                        h_flip: Number(0.0),
                        color: ColorRGB { r: Number(1.0), g: Number(1.0), b: Number(1.0) },
                        age_range: AgeRange { min: Number(-1.0), max: Number(-1.0) },
                        parent: -1,
                        invis_holding: Number(0.0),
                        invis_worn: Number(0.0),
                        behind_slots: Number(0.0),
                        invis_cont: Some(Number(0.0)),
                        ignored_cont: None,
                    },
                ],
                sprites_drawn_behind: None,
                sprites_additive_blend: None,
                head_index: vec![-1],
                body_index: vec![4, 9, 12, 1],
                back_foot_index: vec![9, 19, 22, 33, 39],
                front_foot_index: vec![6, 15, 17, 30, 36],
            }
        ))
    );

    let source = "spriteID=110013
pos=40.000000,-23.000000
rot=0.000000
hFlip=0
color=1.000000,1.000000,1.000000
ageRange=-1.000000,-1.000000
parent=-1
invisHolding=0,invisWorn=0,behindSlots=0
invisCont=0
spriteID=110013
pos=-12.000000,-9.000000
rot=0.000000
hFlip=1
color=1.000000,1.000000,1.000000
ageRange=-1.000000,-1.000000
parent=-1
invisHolding=0,invisWorn=0,behindSlots=0
invisCont=0
spriteID=110013
pos=-39.000000,-16.000000
rot=0.000000
hFlip=0
color=1.000000,1.000000,1.000000
ageRange=-1.000000,-1.000000
parent=-1
invisHolding=0,invisWorn=0,behindSlots=0
invisCont=0
spriteID=493
pos=1.000000,-35.000000
rot=0.000000
hFlip=0
color=1.000000,1.000000,1.000000
ageRange=-1.000000,-1.000000
parent=-1
invisHolding=0,invisWorn=0,behindSlots=0
invisCont=0
spriteID=110013
pos=16.000000,-12.000000
rot=0.000000
hFlip=0
color=1.000000,1.000000,1.000000
ageRange=-1.000000,-1.000000
parent=-1
invisHolding=0,invisWorn=0,behindSlots=0
invisCont=0
headIndex=-1";
    assert_eq!(
        parse_sprites.parse_peek(source).map(|(rest, (sprites, end))| {
            (rest, (sprites.iter().map(sprite).collect::<Vec<Sprite>>(), end.head_index))
        }),
        Ok((
            "",
            (
                vec![
                    Sprite {
                        id: 110013,
                        position: Position { x: Number(40.0), y: Number(-23.0) },
                        rot: Number(0.0),
                        h_flip: Number(0.0),
                        color: ColorRGB { r: Number(1.0), g: Number(1.0), b: Number(1.0) },
                        age_range: AgeRange { min: Number(-1.0), max: Number(-1.0) },
                        parent: -1,
                        invis_holding: Number(0.0),
                        invis_worn: Number(0.0),
                        behind_slots: Number(0.0),
                        invis_cont: Some(Number(0.0)),
                        ignored_cont: None,
                    },
                    Sprite {
                        id: 110013,
                        position: Position { x: Number(-12.0), y: Number(-9.0) },
                        rot: Number(0.0),
                        h_flip: Number(1.0),
                        color: ColorRGB { r: Number(1.0), g: Number(1.0), b: Number(1.0) },
                        age_range: AgeRange { min: Number(-1.0), max: Number(-1.0) },
                        parent: -1,
                        invis_holding: Number(0.0),
                        invis_worn: Number(0.0),
                        behind_slots: Number(0.0),
                        invis_cont: Some(Number(0.0)),
                        ignored_cont: None,
                    },
                    Sprite {
                        id: 110013,
                        position: Position { x: Number(-39.0), y: Number(-16.0) },
                        rot: Number(0.0),
                        h_flip: Number(0.0),
                        color: ColorRGB { r: Number(1.0), g: Number(1.0), b: Number(1.0) },
                        age_range: AgeRange { min: Number(-1.0), max: Number(-1.0) },
                        parent: -1,
                        invis_holding: Number(0.0),
                        invis_worn: Number(0.0),
                        behind_slots: Number(0.0),
                        invis_cont: Some(Number(0.0)),
                        ignored_cont: None,
                    },
                    Sprite {
                        id: 493,
                        position: Position { x: Number(1.0), y: Number(-35.0) },
                        rot: Number(0.0),
                        h_flip: Number(0.0),
                        color: ColorRGB { r: Number(1.0), g: Number(1.0), b: Number(1.0) },
                        age_range: AgeRange { min: Number(-1.0), max: Number(-1.0) },
                        parent: -1,
                        invis_holding: Number(0.0),
                        invis_worn: Number(0.0),
                        behind_slots: Number(0.0),
                        invis_cont: Some(Number(0.0)),
                        ignored_cont: None,
                    },
                    Sprite {
                        id: 110013,
                        position: Position { x: Number(16.0), y: Number(-12.0) },
                        rot: Number(0.0),
                        h_flip: Number(0.0),
                        color: ColorRGB { r: Number(1.0), g: Number(1.0), b: Number(1.0) },
                        age_range: AgeRange { min: Number(-1.0), max: Number(-1.0) },
                        parent: -1,
                        invis_holding: Number(0.0),
                        invis_worn: Number(0.0),
                        behind_slots: Number(0.0),
                        invis_cont: Some(Number(0.0)),
                        ignored_cont: None,
                    },
                ],
                vec![-1]
            )
        ))
    );

    let source = "spriteID=1176
pos=-2.000000,-31.000000
rot=0.000000
hFlip=0
color=1.000000,1.000000,1.000000
ageRange=-1.000000,-1.000000
parent=-1
invisHolding=0,invisWorn=0,behindSlots=0
invisCont=0";
    assert_eq!(
        parse_sprite.parse_peek(source).map(|(rest, parsed)| (rest, sprite(&parsed))),
        Ok((
            "",
            Sprite {
                id: 1176,
                position: Position { x: Number(-2.0), y: Number(-31.0) },
                rot: Number(0.0),
                h_flip: Number(0.0),
                color: ColorRGB { r: Number(1.0), g: Number(1.0), b: Number(1.0) },
                age_range: AgeRange { min: Number(-1.0), max: Number(-1.0) },
                parent: -1,
                invis_holding: Number(0.0),
                invis_worn: Number(0.0),
                behind_slots: Number(0.0),
                invis_cont: Some(Number(0.0)),
                ignored_cont: None,
            }
        ))
    );
}
