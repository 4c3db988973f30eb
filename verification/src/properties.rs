//! Reading a tile's custom properties into typed values: the decisions of
//! a property deserializer (which value a request yields, which error it
//! fails with) and the decoding of the tile types of the level tilesets.

use vstd::prelude::*;
use vstd::string::StrSliceExecFns;
use std::collections::HashMap;
use crate::tilemap::{PropertyValue, Color, TileData};
use crate::level::{GeometryTile, ActivatorTile, LevelTileType, TileAnimationType};
use crate::tile::ActivationCondition;

verus! {

broadcast use vstd::std_specs::hash::group_hash_axioms;

// ----------------------------------------------------------------------
// Messages of the errors that deserialized types raise
// ----------------------------------------------------------------------

/// A name in backticks.
pub open spec fn backticked(s: Seq<char>) -> Seq<char> {
    seq!['`'] + s + seq!['`']
}

/// Names in backticks, separated by ", ".
pub open spec fn backticked_list(names: Seq<Seq<char>>) -> Seq<char>
    decreases names.len(),
{
    if names.len() == 0 {
        Seq::empty()
    } else if names.len() == 1 {
        backticked(names[0])
    } else {
        backticked_list(names.drop_last()) + seq![',', ' '] + backticked(names.last())
    }
}

/// How a list of alternatives is named in an error: "`a`", "`a` or `b`",
/// or "one of `a`, `b`, `c`".
pub open spec fn one_of(names: Seq<Seq<char>>) -> Seq<char> {
    if names.len() == 1 {
        backticked(names[0])
    } else if names.len() == 2 {
        backticked(names[0]) + " or "@ + backticked(names[1])
    } else {
        "one of "@ + backticked_list(names)
    }
}

/// The message of an unknown enum variant.
pub open spec fn unknown_variant_text(variant: Seq<char>, expected: Seq<Seq<char>>) -> Seq<char> {
    if expected.len() == 0 {
        "unknown variant "@ + backticked(variant) + ", there are no variants"@
    } else {
        "unknown variant "@ + backticked(variant) + ", expected "@ + one_of(expected)
    }
}

/// The message of a struct field that the input does not give.
pub open spec fn missing_field_text(field: Seq<char>) -> Seq<char> {
    "missing field "@ + backticked(field)
}

/// The message of a struct field that the input gives twice.
pub open spec fn duplicate_field_text(field: Seq<char>) -> Seq<char> {
    "duplicate field "@ + backticked(field)
}

/// The names of a list of `&str`.
pub open spec fn names_of(names: Seq<&str>) -> Seq<Seq<char>> {
    names.map_values(|s: &str| s@)
}

/// `serde::de::Error::unknown_variant`, rendered as text. The contract
/// states serde's message: "unknown variant `v`, expected ..." with the
/// alternatives named as `one_of` says, or "..., there are no variants".
#[verifier::external_body]
fn unknown_variant_message(variant: &str, expected: &'static [&'static str]) -> (r: String)
    ensures
        r@ == unknown_variant_text(variant@, names_of(expected@)),
{
    <serde::de::value::Error as serde::de::Error>::unknown_variant(variant, expected).to_string()
}

/// `serde::de::Error::missing_field`, rendered as text: "missing field `f`".
#[verifier::external_body]
fn missing_field_message(field: &'static str) -> (r: String)
    ensures
        r@ == missing_field_text(field@),
{
    <serde::de::value::Error as serde::de::Error>::missing_field(field).to_string()
}

/// `serde::de::Error::duplicate_field`, rendered as text: "duplicate field
/// `f`".
#[verifier::external_body]
fn duplicate_field_message(field: &'static str) -> (r: String)
    ensures
        r@ == duplicate_field_text(field@),
{
    <serde::de::value::Error as serde::de::Error>::duplicate_field(field).to_string()
}

// ----------------------------------------------------------------------
// Errors
// ----------------------------------------------------------------------

/// An error reading one property.
#[derive(Debug)]
pub enum PropertyDeserError {
    UnsupportedType { ty: &'static str },
    ObjectValueFound,
    WrongPropType { expected: &'static str, found: &'static str },
    ExpectedChar,
    ColorFieldsExhausted,
    Custom { custom: String },
}

/// `PropertyDeserError` with its texts as character sequences.
pub enum PropertyErr {
    UnsupportedType { ty: Seq<char> },
    ObjectValueFound,
    WrongPropType { expected: Seq<char>, found: Seq<char> },
    ExpectedChar,
    ColorFieldsExhausted,
    Custom { custom: Seq<char> },
}

impl View for PropertyDeserError {
    type V = PropertyErr;

    open spec fn view(&self) -> PropertyErr {
        match self {
            PropertyDeserError::UnsupportedType { ty } => PropertyErr::UnsupportedType { ty: ty@ },
            PropertyDeserError::ObjectValueFound => PropertyErr::ObjectValueFound,
            PropertyDeserError::WrongPropType { expected, found } => PropertyErr::WrongPropType {
                expected: expected@,
                found: found@,
            },
            PropertyDeserError::ExpectedChar => PropertyErr::ExpectedChar,
            PropertyDeserError::ColorFieldsExhausted => PropertyErr::ColorFieldsExhausted,
            PropertyDeserError::Custom { custom } => PropertyErr::Custom { custom: custom@ },
        }
    }
}

/// An error reading a tile's properties into a value.
#[derive(Debug)]
pub enum TilePropertyDeserError {
    /// Only structs can be read from a tile's properties.
    OnlyStruct,
    /// The tile has no type.
    NoType,
    /// The tile's type is not the one the struct expects.
    WrongType { expected: &'static str, found: String },
    /// A property could not be read.
    PropFail { name: String, source: PropertyDeserError },
    TupleVariantNotSupported,
    Custom { custom: String },
}

/// `TilePropertyDeserError` with its texts as character sequences.
pub enum TilePropertyErr {
    OnlyStruct,
    NoType,
    WrongType { expected: Seq<char>, found: Seq<char> },
    PropFail { name: Seq<char>, source: PropertyErr },
    TupleVariantNotSupported,
    Custom { custom: Seq<char> },
}

impl View for TilePropertyDeserError {
    type V = TilePropertyErr;

    open spec fn view(&self) -> TilePropertyErr {
        match self {
            TilePropertyDeserError::OnlyStruct => TilePropertyErr::OnlyStruct,
            TilePropertyDeserError::NoType => TilePropertyErr::NoType,
            TilePropertyDeserError::WrongType { expected, found } => TilePropertyErr::WrongType {
                expected: expected@,
                found: found@,
            },
            TilePropertyDeserError::PropFail { name, source } => TilePropertyErr::PropFail {
                name: name@,
                source: source@,
            },
            TilePropertyDeserError::TupleVariantNotSupported => TilePropertyErr::TupleVariantNotSupported,
            TilePropertyDeserError::Custom { custom } => TilePropertyErr::Custom { custom: custom@ },
        }
    }
}

// ----------------------------------------------------------------------
// One property
// ----------------------------------------------------------------------

/// The name of a property value's type.
pub open spec fn prop_kind_name(p: PropertyValue) -> &'static str {
    match p {
        PropertyValue::BoolValue(_) => "bool",
        PropertyValue::FloatValue(_) => "float",
        PropertyValue::IntValue(_) => "int",
        PropertyValue::ColorValue(_) => "color",
        PropertyValue::StringValue(_) => "string",
        PropertyValue::FileValue(_) => "file",
        PropertyValue::ObjectValue(_) => "object",
    }
}

/// The text of a string or file value.
pub open spec fn text_of(p: PropertyValue) -> Option<Seq<char>> {
    match p {
        PropertyValue::StringValue(s) => Some(s@),
        PropertyValue::FileValue(s) => Some(s@),
        _ => None,
    }
}

/// The error for a property of another type than `expected`.
pub open spec fn wrong_type(expected: &'static str, p: PropertyValue) -> PropertyErr {
    PropertyErr::WrongPropType { expected: expected@, found: prop_kind_name(p)@ }
}

/// The names of a color's fields, in the order they are visited.
pub open spec fn color_field_name(i: int) -> &'static str {
    if i == 0 {
        "red"
    } else if i == 1 {
        "green"
    } else if i == 2 {
        "blue"
    } else {
        "alpha"
    }
}

/// The value of a color's field, in the order they are visited.
pub open spec fn color_field(c: Color, i: int) -> u8 {
    if i == 0 {
        c.red
    } else if i == 1 {
        c.green
    } else if i == 2 {
        c.blue
    } else {
        c.alpha
    }
}

/// The fields of a color read one after the other as a map: red, green,
/// blue, alpha.
#[derive(Debug, Clone, Copy)]
pub struct ColorMapper {
    pub color: Color,
    pub idx: usize,
}

impl ColorMapper {
    /// The next field's name; `None` after the last.
    pub fn next_key(&self) -> (r: Option<&'static str>)
        ensures
            self.idx < 4 ==> r == Some(color_field_name(self.idx as int)),
            self.idx >= 4 ==> r is None,
    {
        if self.idx == 0 {
            Some("red")
        } else if self.idx == 1 {
            Some("green")
        } else if self.idx == 2 {
            Some("blue")
        } else if self.idx == 3 {
            Some("alpha")
        } else {
            None
        }
    }

    /// The next field's value, moving on to the field after it.
    pub fn next_value(&mut self) -> (r: Result<u8, PropertyDeserError>)
        ensures
            old(self).idx < 4 ==> r == Ok::<u8, PropertyDeserError>(
                color_field(old(self).color, old(self).idx as int),
            ) && final(self).idx == old(self).idx + 1,
            old(self).idx >= 4 ==> (r matches Err(e) && e@ == PropertyErr::ColorFieldsExhausted),
            old(self).idx >= 4 ==> final(self).idx == old(self).idx,
            final(self).color == old(self).color,
    {
        let result = if self.idx == 0 {
            self.color.red
        } else if self.idx == 1 {
            self.color.green
        } else if self.idx == 2 {
            self.color.blue
        } else if self.idx == 3 {
            self.color.alpha
        } else {
            return Err(PropertyDeserError::ColorFieldsExhausted);
        };
        self.idx = self.idx + 1;
        Ok(result)
    }
}

/// What a request to read a property hands on to the reader.
pub enum Visit<'de> {
    Bool(bool),
    I32(i32),
    U32(u32),
    /// A float, as the bits of its IEEE 754 single precision encoding.
    F32(u32),
    Char(char),
    BorrowedStr(&'de String),
    /// A color, as a map from its field names to their values.
    ColorMap(ColorMapper),
}

/// Reads one property value.
#[derive(Debug, Clone, Copy)]
pub struct PropertyDes<'de> {
    pub prop: &'de PropertyValue,
}

impl<'de> PropertyDes<'de> {
    /// The name of the property's type.
    pub fn prop_type_str(&self) -> (r: &'static str)
        ensures
            r == prop_kind_name(*self.prop),
    {
        match self.prop {
            PropertyValue::BoolValue(_) => "bool",
            PropertyValue::FloatValue(_) => "float",
            PropertyValue::IntValue(_) => "int",
            PropertyValue::ColorValue(_) => "color",
            PropertyValue::StringValue(_) => "string",
            PropertyValue::FileValue(_) => "file",
            PropertyValue::ObjectValue(_) => "object",
        }
    }

    /// The value of a boolean property.
    pub fn parse_bool(&self) -> (r: Result<bool, PropertyDeserError>)
        ensures
            match *self.prop {
                PropertyValue::BoolValue(x) => r matches Ok(v) && v == x,
                _ => r matches Err(e) && e@ == wrong_type("bool", *self.prop),
            },
    {
        match self.prop {
            PropertyValue::BoolValue(x) => Ok(*x),
            _ => Err(PropertyDeserError::WrongPropType { expected: "bool", found: self.prop_type_str() }),
        }
    }

    /// The value of a float property, as the bits of its encoding; a
    /// property of another type is reported as not being a "float".
    pub fn parse_f32(&self) -> (r: Result<u32, PropertyDeserError>)
        ensures
            match *self.prop {
                PropertyValue::FloatValue(x) => r matches Ok(v) && v == x,
                _ => r matches Err(e) && e@ == wrong_type("float", *self.prop),
            },
    {
        match self.prop {
            PropertyValue::FloatValue(x) => Ok(*x),
            _ => Err(PropertyDeserError::WrongPropType { expected: "float", found: self.prop_type_str() }),
        }
    }

    /// The value of an integer property.
    pub fn parse_i32(&self) -> (r: Result<i32, PropertyDeserError>)
        ensures
            match *self.prop {
                PropertyValue::IntValue(x) => r matches Ok(v) && v == x,
                _ => r matches Err(e) && e@ == wrong_type("int", *self.prop),
            },
    {
        match self.prop {
            PropertyValue::IntValue(x) => Ok(*x),
            _ => Err(PropertyDeserError::WrongPropType { expected: "int", found: self.prop_type_str() }),
        }
    }

    /// The text of a string or file property.
    pub fn parse_str(&self) -> (r: Result<&'de String, PropertyDeserError>)
        ensures
            match text_of(*self.prop) {
                Some(t) => r matches Ok(s) && s@ == t,
                None => r matches Err(e) && e@ == wrong_type("string or file path", *self.prop),
            },
    {
        match self.prop {
            PropertyValue::StringValue(x) => Ok(x),
            PropertyValue::FileValue(x) => Ok(x),
            _ => Err(
                PropertyDeserError::WrongPropType {
                    expected: "string or file path",
                    found: self.prop_type_str(),
                },
            ),
        }
    }

    /// A request for a value of whatever type the property has. An object
    /// reference cannot be read.
    pub fn deserialize_any(&self) -> (r: Result<Visit<'de>, PropertyDeserError>)
        ensures
            match *self.prop {
                PropertyValue::BoolValue(x) => r matches Ok(Visit::Bool(v)) && v == x,
                PropertyValue::FloatValue(x) => r matches Ok(Visit::F32(v)) && v == x,
                PropertyValue::IntValue(x) => r matches Ok(Visit::I32(v)) && v == x,
                PropertyValue::ColorValue(c) => r matches Ok(Visit::ColorMap(m)) && m.color == c
                    && m.idx == 0,
                PropertyValue::StringValue(s) => r matches Ok(Visit::BorrowedStr(v)) && v@ == s@,
                PropertyValue::FileValue(s) => r matches Ok(Visit::BorrowedStr(v)) && v@ == s@,
                PropertyValue::ObjectValue(_) => r matches Err(e) && e@
                    == PropertyErr::ObjectValueFound,
            },
    {
        match self.prop {
            PropertyValue::BoolValue(_) => self.deserialize_bool(),
            PropertyValue::FloatValue(_) => self.deserialize_f32(),
            PropertyValue::IntValue(_) => self.deserialize_i32(),
            PropertyValue::ColorValue(_) => match self.deserialize_struct() {
                Ok(m) => Ok(Visit::ColorMap(m)),
                Err(e) => Err(e),
            },
            PropertyValue::StringValue(_) | PropertyValue::FileValue(_) => self.deserialize_string(),
            PropertyValue::ObjectValue(_) => Err(PropertyDeserError::ObjectValueFound),
        }
    }

    /// A request for a boolean.
    pub fn deserialize_bool(&self) -> (r: Result<Visit<'de>, PropertyDeserError>)
        ensures
            match *self.prop {
                PropertyValue::BoolValue(x) => r matches Ok(Visit::Bool(v)) && v == x,
                _ => r matches Err(e) && e@ == wrong_type("bool", *self.prop),
            },
    {
        match self.parse_bool() {
            Ok(b) => Ok(Visit::Bool(b)),
            Err(e) => Err(e),
        }
    }

    /// A request for a signed integer of any width: the property's
    /// integer as an `i32`.
    pub fn deserialize_i32(&self) -> (r: Result<Visit<'de>, PropertyDeserError>)
        ensures
            match *self.prop {
                PropertyValue::IntValue(x) => r matches Ok(Visit::I32(v)) && v == x,
                _ => r matches Err(e) && e@ == wrong_type("int", *self.prop),
            },
    {
        match self.parse_i32() {
            Ok(x) => Ok(Visit::I32(x)),
            Err(e) => Err(e),
        }
    }

    /// A request for an unsigned integer of any width: the property's
    /// integer reinterpreted as a `u32`.
    pub fn deserialize_u32(&self) -> (r: Result<Visit<'de>, PropertyDeserError>)
        ensures
            match *self.prop {
                PropertyValue::IntValue(x) => r matches Ok(Visit::U32(v)) && v == x as u32,
                _ => r matches Err(e) && e@ == wrong_type("int", *self.prop),
            },
    {
        match self.parse_i32() {
            Ok(x) => Ok(Visit::U32(#[verifier::truncate] (x as u32))),
            Err(e) => Err(e),
        }
    }

    /// A request for a float of any width.
    pub fn deserialize_f32(&self) -> (r: Result<Visit<'de>, PropertyDeserError>)
        ensures
            match *self.prop {
                PropertyValue::FloatValue(x) => r matches Ok(Visit::F32(v)) && v == x,
                _ => r matches Err(e) && e@ == wrong_type("float", *self.prop),
            },
    {
        match self.parse_f32() {
            Ok(x) => Ok(Visit::F32(x)),
            Err(e) => Err(e),
        }
    }

    /// A request for a character: a string of exactly one character.
    pub fn deserialize_char(&self) -> (r: Result<Visit<'de>, PropertyDeserError>)
        ensures
            match text_of(*self.prop) {
                Some(t) => if t.len() == 1 {
                    r matches Ok(Visit::Char(c)) && c == t[0]
                } else {
                    r matches Err(e) && e@ == PropertyErr::ExpectedChar
                },
                None => r matches Err(e) && e@ == wrong_type("string or file path", *self.prop),
            },
    {
        let s = match self.parse_str() {
            Ok(s) => s,
            Err(e) => return Err(e),
        };
        if s.as_str().unicode_len() == 1 {
            Ok(Visit::Char(s.as_str().get_char(0)))
        } else {
            Err(PropertyDeserError::ExpectedChar)
        }
    }

    /// A request for a string (owned or borrowed) or an identifier: the
    /// text of a string or file property.
    pub fn deserialize_string(&self) -> (r: Result<Visit<'de>, PropertyDeserError>)
        ensures
            match text_of(*self.prop) {
                Some(t) => r matches Ok(Visit::BorrowedStr(v)) && v@ == t,
                None => r matches Err(e) && e@ == wrong_type("string or file path", *self.prop),
            },
    {
        match self.parse_str() {
            Ok(s) => Ok(Visit::BorrowedStr(s)),
            Err(e) => Err(e),
        }
    }

    /// A request for a map or a struct: only a color reads as one, its
    /// fields visited from the first.
    pub fn deserialize_struct(&self) -> (r: Result<ColorMapper, PropertyDeserError>)
        ensures
            match *self.prop {
                PropertyValue::ColorValue(c) => r matches Ok(m) && m.color == c && m.idx == 0,
                _ => r matches Err(e) && e@ == wrong_type("color", *self.prop),
            },
    {
        match self.prop {
            PropertyValue::ColorValue(col) => Ok(ColorMapper { color: *col, idx: 0 }),
            _ => Err(PropertyDeserError::WrongPropType { expected: "color", found: self.prop_type_str() }),
        }
    }

    /// Reads the property as an activation condition: the variant named by
    /// a string property, "Odd" or "Even".
    pub fn activation_condition(&self) -> (r: Result<ActivationCondition, PropertyDeserError>)
        ensures
            r matches Ok(c) ==> spec_activation_condition(*self.prop) == Ok::<
                ActivationCondition,
                PropertyErr,
            >(c),
            r matches Err(e) ==> spec_activation_condition(*self.prop) == Err::<
                ActivationCondition,
                PropertyErr,
            >(e@),
    {
        let s = match self.parse_str() {
            Ok(s) => s,
            Err(e) => return Err(e),
        };
        if *s == "Odd".to_owned() {
            Ok(ActivationCondition::Odd)
        } else if *s == "Even".to_owned() {
            Ok(ActivationCondition::Even)
        } else {
            Err(
                PropertyDeserError::Custom {
                    custom: unknown_variant_message(s.as_str(), activation_condition_variants()),
                },
            )
        }
    }

    /// Reads the property as a level tile type: the variant named by a
    /// string property.
    pub fn level_tile_type(&self) -> (r: Result<LevelTileType, PropertyDeserError>)
        ensures
            r matches Ok(c) ==> spec_level_tile_type(*self.prop) == Ok::<LevelTileType, PropertyErr>(
                c,
            ),
            r matches Err(e) ==> spec_level_tile_type(*self.prop) == Err::<
                LevelTileType,
                PropertyErr,
            >(e@),
    {
        let s = match self.parse_str() {
            Ok(s) => s,
            Err(e) => return Err(e),
        };
        if *s == "Exit".to_owned() {
            Ok(LevelTileType::Exit)
        } else if *s == "Conveyor".to_owned() {
            Ok(LevelTileType::Conveyor)
        } else if *s == "Fry".to_owned() {
            Ok(LevelTileType::Fry)
        } else if *s == "PlayerStart".to_owned() {
            Ok(LevelTileType::PlayerStart)
        } else if *s == "Floor".to_owned() {
            Ok(LevelTileType::Floor)
        } else if *s == "SpinningTile".to_owned() {
            Ok(LevelTileType::SpinningTile)
        } else {
            Err(
                PropertyDeserError::Custom {
                    custom: unknown_variant_message(s.as_str(), level_tile_type_variants()),
                },
            )
        }
    }

    /// Reads the property as a tile animation type: the variant named by a
    /// string property.
    pub fn tile_animation_type(&self) -> (r: Result<TileAnimationType, PropertyDeserError>)
        ensures
            r matches Ok(c) ==> spec_tile_animation_type(*self.prop) == Ok::<
                TileAnimationType,
                PropertyErr,
            >(c),
            r matches Err(e) ==> spec_tile_animation_type(*self.prop) == Err::<
                TileAnimationType,
                PropertyErr,
            >(e@),
    {
        let s = match self.parse_str() {
            Ok(s) => s,
            Err(e) => return Err(e),
        };
        if *s == "OnOffAnimation".to_owned() {
            Ok(TileAnimationType::OnOffAnimation)
        } else if *s == "OnAnimation".to_owned() {
            Ok(TileAnimationType::OnAnimation)
        } else if *s == "OffAnimation".to_owned() {
            Ok(TileAnimationType::OffAnimation)
        } else if *s == "OnTransition".to_owned() {
            Ok(TileAnimationType::OnTransition)
        } else if *s == "OffTransition".to_owned() {
            Ok(TileAnimationType::OffTransition)
        } else {
            Err(
                PropertyDeserError::Custom {
                    custom: unknown_variant_message(s.as_str(), tile_animation_type_variants()),
                },
            )
        }
    }
}

/// The variants of `LevelTileType`, by name.
pub open spec fn level_tile_type_names() -> Seq<Seq<char>> {
    seq!["Exit"@, "Conveyor"@, "Fry"@, "PlayerStart"@, "Floor"@, "SpinningTile"@]
}

/// The variants of `LevelTileType`, by name.
fn level_tile_type_variants() -> (r: &'static [&'static str])
    ensures
        names_of(r@) == level_tile_type_names(),
{
    let r: &'static [&'static str] = &["Exit", "Conveyor", "Fry", "PlayerStart", "Floor", "SpinningTile"];
    proof {
        assert(names_of(r@) =~= level_tile_type_names());
    }
    r
}

/// The variants of `TileAnimationType`, by name.
pub open spec fn tile_animation_type_names() -> Seq<Seq<char>> {
    seq!["OnOffAnimation"@, "OnAnimation"@, "OffAnimation"@, "OnTransition"@, "OffTransition"@]
}

/// The variants of `TileAnimationType`, by name.
fn tile_animation_type_variants() -> (r: &'static [&'static str])
    ensures
        names_of(r@) == tile_animation_type_names(),
{
    let r: &'static [&'static str] = &[
        "OnOffAnimation",
        "OnAnimation",
        "OffAnimation",
        "OnTransition",
        "OffTransition",
    ];
    proof {
        assert(names_of(r@) =~= tile_animation_type_names());
    }
    r
}

/// A property read as a level tile type.
pub open spec fn spec_level_tile_type(p: PropertyValue) -> Result<LevelTileType, PropertyErr> {
    match text_of(p) {
        None => Err(wrong_type("string or file path", p)),
        Some(t) => if t == "Exit"@ {
            Ok(LevelTileType::Exit)
        } else if t == "Conveyor"@ {
            Ok(LevelTileType::Conveyor)
        } else if t == "Fry"@ {
            Ok(LevelTileType::Fry)
        } else if t == "PlayerStart"@ {
            Ok(LevelTileType::PlayerStart)
        } else if t == "Floor"@ {
            Ok(LevelTileType::Floor)
        } else if t == "SpinningTile"@ {
            Ok(LevelTileType::SpinningTile)
        } else {
            Err(PropertyErr::Custom { custom: unknown_variant_text(t, level_tile_type_names()) })
        },
    }
}

/// A property read as a tile animation type.
pub open spec fn spec_tile_animation_type(p: PropertyValue) -> Result<TileAnimationType, PropertyErr> {
    match text_of(p) {
        None => Err(wrong_type("string or file path", p)),
        Some(t) => if t == "OnOffAnimation"@ {
            Ok(TileAnimationType::OnOffAnimation)
        } else if t == "OnAnimation"@ {
            Ok(TileAnimationType::OnAnimation)
        } else if t == "OffAnimation"@ {
            Ok(TileAnimationType::OffAnimation)
        } else if t == "OnTransition"@ {
            Ok(TileAnimationType::OnTransition)
        } else if t == "OffTransition"@ {
            Ok(TileAnimationType::OffTransition)
        } else {
            Err(PropertyErr::Custom { custom: unknown_variant_text(t, tile_animation_type_names()) })
        },
    }
}

/// The variants of `ActivationCondition`, by name.
pub open spec fn activation_condition_names() -> Seq<Seq<char>> {
    seq!["Odd"@, "Even"@]
}

/// The variants of `ActivationCondition`, by name.
fn activation_condition_variants() -> (r: &'static [&'static str])
    ensures
        names_of(r@) == activation_condition_names(),
{
    let r: &'static [&'static str] = &["Odd", "Even"];
    proof {
        assert(names_of(r@) =~= activation_condition_names());
    }
    r
}

/// The variants of `GeometryTile`, by name.
pub open spec fn geometry_tile_names() -> Seq<Seq<char>> {
    seq!["LogicTile"@, "Frame"@, "LevelTileAnimation"@]
}

/// The variants of `GeometryTile`, by name.
fn geometry_tile_variants() -> (r: &'static [&'static str])
    ensures
        names_of(r@) == geometry_tile_names(),
{
    let r: &'static [&'static str] = &["LogicTile", "Frame", "LevelTileAnimation"];
    proof {
        assert(names_of(r@) =~= geometry_tile_names());
    }
    r
}

/// A property read as an activation condition.
pub open spec fn spec_activation_condition(p: PropertyValue) -> Result<
    ActivationCondition,
    PropertyErr,
> {
    match text_of(p) {
        None => Err(wrong_type("string or file path", p)),
        Some(t) => if t == "Odd"@ {
            Ok(ActivationCondition::Odd)
        } else if t == "Even"@ {
            Ok(ActivationCondition::Even)
        } else {
            Err(
                PropertyErr::Custom {
                    custom: unknown_variant_text(t, activation_condition_names()),
                },
            )
        },
    }
}

// ----------------------------------------------------------------------
// A tile's properties
// ----------------------------------------------------------------------

/// The text of a tile's type.
pub open spec fn tile_type_of(tile: TileData) -> Option<Seq<char>> {
    match tile.tile_type {
        Some(s) => Some(s@),
        None => None,
    }
}

/// Reads a tile's properties into a value: a struct named as the tile's
/// type, or an enum whose variant the tile's type names.
#[derive(Debug, Clone, Copy)]
pub struct TilePropertyDes<'de> {
    pub tile: &'de TileData,
}

impl<'de> TilePropertyDes<'de> {
    /// A request for a struct named `name`: the tile must have that type;
    /// its properties are then visited from the first.
    pub fn deserialize_struct(&self, name: &'static str) -> (r: Result<
        TilePropertyMapper<'de>,
        TilePropertyDeserError,
    >)
        ensures
            match tile_type_of(*self.tile) {
                None => r matches Err(e) && e@ == TilePropertyErr::NoType,
                Some(t) => if t != name@ {
                    r matches Err(e) && e@ == (TilePropertyErr::WrongType {
                        expected: name@,
                        found: t,
                    })
                } else {
                    r matches Ok(m) && m.props() == self.tile.properties@ && m.pos() == 0
                        && m.current() is None
                },
            },
    {
        let ty = match &self.tile.tile_type {
            Some(t) => t,
            None => return Err(TilePropertyDeserError::NoType),
        };
        if *ty != name.to_owned() {
            return Err(TilePropertyDeserError::WrongType { expected: name, found: ty.clone() });
        }
        Ok(TilePropertyMapper { props: &self.tile.properties, next: 0, curr: None })
    }

    /// The fields of a struct variant: the tile's properties, visited from
    /// the first.
    pub fn variant_fields(&self) -> (r: TilePropertyMapper<'de>)
        ensures
            r.props() == self.tile.properties@,
            r.pos() == 0,
            r.current() is None,
    {
        TilePropertyMapper { props: &self.tile.properties, next: 0, curr: None }
    }

    /// A request for an enum: the tile's type names the variant.
    pub fn variant_name(&self) -> (r: Result<&'de String, TilePropertyDeserError>)
        ensures
            match tile_type_of(*self.tile) {
                None => r matches Err(e) && e@ == TilePropertyErr::NoType,
                Some(t) => r matches Ok(s) && s@ == t,
            },
    {
        match &self.tile.tile_type {
            Some(t) => Ok(t),
            None => Err(TilePropertyDeserError::NoType),
        }
    }
}

/// A tile's properties visited one after the other as a map from their
/// names to their values.
#[derive(Debug, Clone, Copy)]
pub struct TilePropertyMapper<'de> {
    props: &'de Vec<(String, PropertyValue)>,
    next: usize,
    curr: Option<usize>,
}

impl<'de> TilePropertyMapper<'de> {
    /// The properties visited.
    pub closed spec fn props(self) -> Seq<(String, PropertyValue)> {
        self.props@
    }

    /// How many properties have been visited.
    pub closed spec fn pos(self) -> int {
        self.next as int
    }

    /// The position of the property being visited.
    pub closed spec fn current(self) -> Option<int> {
        match self.curr {
            Some(i) => Some(i as int),
            None => None,
        }
    }

    /// Moves on to the next property, returning its name (`None` after
    /// the last).
    pub fn next_key(&mut self) -> (r: Option<&'de String>)
        ensures
            final(self).props() == old(self).props(),
            old(self).pos() < old(self).props().len() ==> final(self).current() == Some(old(self).pos())
                && final(self).pos() == old(self).pos() + 1,
            old(self).pos() < old(self).props().len() ==> (r matches Some(n) && n@ == old(
                self,
            ).props()[old(self).pos()].0@),
            old(self).pos() >= old(self).props().len() ==> final(self).current() is None
                && final(self).pos() == old(self).pos() && r is None,
    {
        if self.next < self.props.len() {
            let i = self.next;
            self.curr = Some(i);
            self.next = i + 1;
            Some(&self.props[i].0)
        } else {
            self.curr = None;
            None
        }
    }

    /// A reader of the value of the property being visited.
    pub fn next_value(&self) -> (r: PropertyDes<'de>)
        requires
            self.current() matches Some(i) && 0 <= i < self.props().len(),
        ensures
            *r.prop == self.props()[self.current().unwrap()].1,
    {
        let i = self.curr.unwrap();
        PropertyDes { prop: &self.props[i].1 }
    }

    /// The error for the property being visited, which failed to read.
    pub fn prop_fail(&self, source: PropertyDeserError) -> (r: TilePropertyDeserError)
        requires
            self.current() matches Some(i) && 0 <= i < self.props().len(),
        ensures
            r@ == (TilePropertyErr::PropFail {
                name: self.props()[self.current().unwrap()].0@,
                source: source@,
            }),
    {
        let i = self.curr.unwrap();
        TilePropertyDeserError::PropFail { name: self.props[i].0.clone(), source }
    }
}

// ----------------------------------------------------------------------
// Tile types of the level tilesets
// ----------------------------------------------------------------------

/// One property of an activator tile read into the condition read so far.
/// The `active` property is read as an activation condition and may occur
/// once; other properties are skipped, but an object reference cannot be.
pub open spec fn activator_step(
    acc: Option<ActivationCondition>,
    entry: (String, PropertyValue),
) -> Result<Option<ActivationCondition>, TilePropertyErr> {
    let (name, value) = entry;
    if name@ == "active"@ {
        if acc is Some {
            Err(TilePropertyErr::Custom { custom: duplicate_field_text("active"@) })
        } else {
            match spec_activation_condition(value) {
                Ok(c) => Ok(Some(c)),
                Err(e) => Err(TilePropertyErr::PropFail { name: name@, source: e }),
            }
        }
    } else if value is ObjectValue {
        Err(TilePropertyErr::PropFail { name: name@, source: PropertyErr::ObjectValueFound })
    } else {
        Ok(acc)
    }
}

/// The properties of an activator tile read in order, stopping at the
/// first error.
pub open spec fn activator_fold(props: Seq<(String, PropertyValue)>) -> Result<
    Option<ActivationCondition>,
    TilePropertyErr,
>
    decreases props.len(),
{
    if props.len() == 0 {
        Ok(None)
    } else {
        match activator_fold(props.drop_last()) {
            Ok(acc) => activator_step(acc, props.last()),
            Err(e) => Err(e),
        }
    }
}

/// Once reading the properties in order failed, reading more of them fails
/// the same way.
pub proof fn lemma_activator_error_persists(props: Seq<(String, PropertyValue)>, k: int)
    requires
        0 <= k <= props.len(),
        activator_fold(props.take(k)) is Err,
    ensures
        activator_fold(props) == activator_fold(props.take(k)),
    decreases props.len() - k,
{
    if k < props.len() {
        assert(props.take(k + 1).drop_last() == props.take(k));
        lemma_activator_error_persists(props, k + 1);
    } else {
        assert(props.take(k) == props);
    }
}

/// A tile read as an `ActivatorTile`: its type must be "ActivatorTile" and
/// its properties must give `active` exactly once.
pub open spec fn spec_activator_tile(tile: TileData) -> Result<ActivatorTile, TilePropertyErr> {
    match tile_type_of(tile) {
        None => Err(TilePropertyErr::NoType),
        Some(t) => if t != "ActivatorTile"@ {
            Err(TilePropertyErr::WrongType { expected: "ActivatorTile"@, found: t })
        } else {
            match activator_fold(tile.properties@) {
                Err(e) => Err(e),
                Ok(None) => Err(TilePropertyErr::Custom { custom: missing_field_text("active"@) }),
                Ok(Some(c)) => Ok(ActivatorTile { active: c }),
            }
        },
    }
}

/// The fields of a geometry tile's struct variant read so far.
#[derive(Debug, Clone, Copy)]
pub struct GeometryFields {
    pub ty: Option<LevelTileType>,
    pub anim_ty: Option<TileAnimationType>,
    pub target: Option<LevelTileType>,
}

/// One property of a geometry tile read into the fields read so far:
/// `LogicTile` (where `logic`) has the field `ty`, `LevelTileAnimation` the
/// fields `anim_ty` and `target`; each field may occur once; other
/// properties are skipped, but an object reference cannot be.
pub open spec fn geometry_step(logic: bool, acc: GeometryFields, entry: (String, PropertyValue)) -> Result<
    GeometryFields,
    TilePropertyErr,
> {
    let (name, value) = entry;
    if logic && name@ == "ty"@ {
        if acc.ty is Some {
            Err(TilePropertyErr::Custom { custom: duplicate_field_text("ty"@) })
        } else {
            match spec_level_tile_type(value) {
                Ok(t) => Ok(GeometryFields { ty: Some(t), ..acc }),
                Err(e) => Err(TilePropertyErr::PropFail { name: name@, source: e }),
            }
        }
    } else if !logic && name@ == "anim_ty"@ {
        if acc.anim_ty is Some {
            Err(TilePropertyErr::Custom { custom: duplicate_field_text("anim_ty"@) })
        } else {
            match spec_tile_animation_type(value) {
                Ok(t) => Ok(GeometryFields { anim_ty: Some(t), ..acc }),
                Err(e) => Err(TilePropertyErr::PropFail { name: name@, source: e }),
            }
        }
    } else if !logic && name@ == "target"@ {
        if acc.target is Some {
            Err(TilePropertyErr::Custom { custom: duplicate_field_text("target"@) })
        } else {
            match spec_level_tile_type(value) {
                Ok(t) => Ok(GeometryFields { target: Some(t), ..acc }),
                Err(e) => Err(TilePropertyErr::PropFail { name: name@, source: e }),
            }
        }
    } else if value is ObjectValue {
        Err(TilePropertyErr::PropFail { name: name@, source: PropertyErr::ObjectValueFound })
    } else {
        Ok(acc)
    }
}

/// The properties of a geometry tile read in order, stopping at the first
/// error.
pub open spec fn geometry_fold(logic: bool, props: Seq<(String, PropertyValue)>) -> Result<
    GeometryFields,
    TilePropertyErr,
>
    decreases props.len(),
{
    if props.len() == 0 {
        Ok(GeometryFields { ty: None, anim_ty: None, target: None })
    } else {
        match geometry_fold(logic, props.drop_last()) {
            Ok(acc) => geometry_step(logic, acc, props.last()),
            Err(e) => Err(e),
        }
    }
}

/// Once reading a geometry tile's properties in order failed, reading more
/// of them fails the same way.
pub proof fn lemma_geometry_fold_error_persists(logic: bool, props: Seq<(String, PropertyValue)>, k: int)
    requires
        0 <= k <= props.len(),
        geometry_fold(logic, props.take(k)) is Err,
    ensures
        geometry_fold(logic, props) == geometry_fold(logic, props.take(k)),
    decreases props.len() - k,
{
    if k < props.len() {
        assert(props.take(k + 1).drop_last() == props.take(k));
        lemma_geometry_fold_error_persists(logic, props, k + 1);
    } else {
        assert(props.take(k) == props);
    }
}

/// A tile read as a `GeometryTile`: its type names the variant; the fields
/// of `LogicTile` and `LevelTileAnimation` are read from the tile's
/// properties, each of them needed (those of `LevelTileAnimation` missing
/// are reported in order, `anim_ty` first).
pub open spec fn spec_geometry_tile(tile: TileData) -> Result<GeometryTile, TilePropertyErr> {
    match tile_type_of(tile) {
        None => Err(TilePropertyErr::NoType),
        Some(t) => if t == "LogicTile"@ {
            match geometry_fold(true, tile.properties@) {
                Err(e) => Err(e),
                Ok(f) => match f.ty {
                    None => Err(TilePropertyErr::Custom { custom: missing_field_text("ty"@) }),
                    Some(ty) => Ok(GeometryTile::LogicTile { ty }),
                },
            }
        } else if t == "LevelTileAnimation"@ {
            match geometry_fold(false, tile.properties@) {
                Err(e) => Err(e),
                Ok(f) => match (f.anim_ty, f.target) {
                    (None, _) => Err(TilePropertyErr::Custom { custom: missing_field_text("anim_ty"@) }),
                    (Some(_), None) => Err(
                        TilePropertyErr::Custom { custom: missing_field_text("target"@) },
                    ),
                    (Some(anim_ty), Some(target)) => Ok(
                        GeometryTile::LevelTileAnimation { anim_ty, target },
                    ),
                },
            }
        } else if t == "Frame"@ {
            Ok(GeometryTile::Frame)
        } else {
            Err(TilePropertyErr::Custom { custom: unknown_variant_text(t, geometry_tile_names()) })
        },
    }
}

/// Reads a tile as an `ActivatorTile`.
pub fn activator_tile(tile: &TileData) -> (r: Result<ActivatorTile, TilePropertyDeserError>)
    ensures
        r matches Ok(a) ==> spec_activator_tile(*tile) == Ok::<ActivatorTile, TilePropertyErr>(a),
        r matches Err(e) ==> spec_activator_tile(*tile) == Err::<ActivatorTile, TilePropertyErr>(
            e@,
        ),
{
    let des = TilePropertyDes { tile };
    let mut map = match des.deserialize_struct("ActivatorTile") {
        Ok(m) => m,
        Err(e) => return Err(e),
    };
    let ghost props = tile.properties@;
    let mut active: Option<ActivationCondition> = None;
    loop
        invariant
            map.props() == props,
            0 <= map.pos() <= props.len(),
            activator_fold(props.take(map.pos())) == Ok::<
                Option<ActivationCondition>,
                TilePropertyErr,
            >(active),
            tile_type_of(*tile) == Some("ActivatorTile"@),
            props == tile.properties@,
        ensures
            activator_fold(props) == Ok::<Option<ActivationCondition>, TilePropertyErr>(active),
            tile_type_of(*tile) == Some("ActivatorTile"@),
        decreases props.len() - map.pos(),
    {
        let ghost before = map.pos();
        let name = match map.next_key() {
            Some(n) => n,
            None => {
                proof {
                    assert(props.take(props.len() as int) == props);
                }
                break;
            },
        };
        proof {
            assert(props.take(before + 1).drop_last() == props.take(before));
            assert(props.take(before + 1).last() == props[before]);
        }
        let value = map.next_value();
        if *name == "active".to_owned() {
            if active.is_some() {
                proof {
                    lemma_activator_error_persists(props, before + 1);
                }
                return Err(
                    TilePropertyDeserError::Custom { custom: duplicate_field_message("active") },
                );
            }
            match value.activation_condition() {
                Ok(c) => {
                    active = Some(c);
                },
                Err(e) => {
                    proof {
                        lemma_activator_error_persists(props, before + 1);
                    }
                    return Err(map.prop_fail(e));
                },
            }
        } else {
            match value.deserialize_any() {
                Ok(_) => {},
                Err(e) => {
                    proof {
                        lemma_activator_error_persists(props, before + 1);
                    }
                    return Err(map.prop_fail(e));
                },
            }
        }
    }
    match active {
        Some(c) => Ok(ActivatorTile { active: c }),
        None => Err(TilePropertyDeserError::Custom { custom: missing_field_message("active") }),
    }
}

/// Reads the fields of a geometry tile's struct variant from its
/// properties.
fn geometry_fields(tile: &TileData, logic: bool) -> (r: Result<GeometryFields, TilePropertyDeserError>)
    ensures
        r matches Ok(f) ==> geometry_fold(logic, tile.properties@) == Ok::<
            GeometryFields,
            TilePropertyErr,
        >(f),
        r matches Err(e) ==> geometry_fold(logic, tile.properties@) == Err::<
            GeometryFields,
            TilePropertyErr,
        >(e@),
{
    let des = TilePropertyDes { tile };
    let mut map = des.variant_fields();
    let ghost props = tile.properties@;
    let mut fields = GeometryFields { ty: None, anim_ty: None, target: None };
    loop
        invariant
            map.props() == props,
            0 <= map.pos() <= props.len(),
            geometry_fold(logic, props.take(map.pos())) == Ok::<GeometryFields, TilePropertyErr>(
                fields,
            ),
            props == tile.properties@,
        ensures
            geometry_fold(logic, props) == Ok::<GeometryFields, TilePropertyErr>(fields),
        decreases props.len() - map.pos(),
    {
        let ghost before = map.pos();
        let name = match map.next_key() {
            Some(n) => n,
            None => {
                proof {
                    assert(props.take(props.len() as int) == props);
                }
                break;
            },
        };
        proof {
            assert(props.take(before + 1).drop_last() == props.take(before));
            assert(props.take(before + 1).last() == props[before]);
        }
        let value = map.next_value();
        if logic && *name == "ty".to_owned() {
            if fields.ty.is_some() {
                proof {
                    lemma_geometry_fold_error_persists(logic, props, before + 1);
                }
                return Err(TilePropertyDeserError::Custom { custom: duplicate_field_message("ty") });
            }
            match value.level_tile_type() {
                Ok(t) => {
                    fields.ty = Some(t);
                },
                Err(e) => {
                    proof {
                        lemma_geometry_fold_error_persists(logic, props, before + 1);
                    }
                    return Err(map.prop_fail(e));
                },
            }
        } else if !logic && *name == "anim_ty".to_owned() {
            if fields.anim_ty.is_some() {
                proof {
                    lemma_geometry_fold_error_persists(logic, props, before + 1);
                }
                return Err(
                    TilePropertyDeserError::Custom { custom: duplicate_field_message("anim_ty") },
                );
            }
            match value.tile_animation_type() {
                Ok(t) => {
                    fields.anim_ty = Some(t);
                },
                Err(e) => {
                    proof {
                        lemma_geometry_fold_error_persists(logic, props, before + 1);
                    }
                    return Err(map.prop_fail(e));
                },
            }
        } else if !logic && *name == "target".to_owned() {
            if fields.target.is_some() {
                proof {
                    lemma_geometry_fold_error_persists(logic, props, before + 1);
                }
                return Err(
                    TilePropertyDeserError::Custom { custom: duplicate_field_message("target") },
                );
            }
            match value.level_tile_type() {
                Ok(t) => {
                    fields.target = Some(t);
                },
                Err(e) => {
                    proof {
                        lemma_geometry_fold_error_persists(logic, props, before + 1);
                    }
                    return Err(map.prop_fail(e));
                },
            }
        } else {
            match value.deserialize_any() {
                Ok(_) => {},
                Err(e) => {
                    proof {
                        lemma_geometry_fold_error_persists(logic, props, before + 1);
                    }
                    return Err(map.prop_fail(e));
                },
            }
        }
    }
    Ok(fields)
}

/// Reads a tile as a `GeometryTile`.
pub fn geometry_tile(tile: &TileData) -> (r: Result<GeometryTile, TilePropertyDeserError>)
    ensures
        r matches Ok(g) ==> spec_geometry_tile(*tile) == Ok::<GeometryTile, TilePropertyErr>(g),
        r matches Err(e) ==> spec_geometry_tile(*tile) == Err::<GeometryTile, TilePropertyErr>(
            e@,
        ),
{
    let des = TilePropertyDes { tile };
    let variant = match des.variant_name() {
        Ok(v) => v,
        Err(e) => return Err(e),
    };
    if *variant == "LogicTile".to_owned() {
        let fields = match geometry_fields(tile, true) {
            Ok(f) => f,
            Err(e) => return Err(e),
        };
        match fields.ty {
            Some(ty) => Ok(GeometryTile::LogicTile { ty }),
            None => Err(TilePropertyDeserError::Custom { custom: missing_field_message("ty") }),
        }
    } else if *variant == "LevelTileAnimation".to_owned() {
        let fields = match geometry_fields(tile, false) {
            Ok(f) => f,
            Err(e) => return Err(e),
        };
        match (fields.anim_ty, fields.target) {
            (None, _) => Err(TilePropertyDeserError::Custom { custom: missing_field_message("anim_ty") }),
            (Some(_), None) => Err(
                TilePropertyDeserError::Custom { custom: missing_field_message("target") },
            ),
            (Some(anim_ty), Some(target)) => Ok(GeometryTile::LevelTileAnimation { anim_ty, target }),
        }
    } else if *variant == "Frame".to_owned() {
        Ok(GeometryTile::Frame)
    } else {
        Err(
            TilePropertyDeserError::Custom {
                custom: unknown_variant_message(variant.as_str(), geometry_tile_variants()),
            },
        )
    }
}

/// The tiles of a tileset read as geometry tiles, in order, stopping at the
/// first tile that cannot be read.
pub open spec fn geometry_table_spec(tiles: Seq<TileData>) -> Result<
    Seq<(u32, GeometryTile)>,
    TilePropertyErr,
>
    decreases tiles.len(),
{
    if tiles.len() == 0 {
        Ok(Seq::empty())
    } else {
        match geometry_table_spec(tiles.drop_last()) {
            Err(e) => Err(e),
            Ok(t) => match spec_geometry_tile(tiles.last()) {
                Ok(g) => Ok(t.push((tiles.last().id, g))),
                Err(e) => Err(e),
            },
        }
    }
}

/// The tiles of a tileset read as activator tiles, in order, stopping at
/// the first tile that cannot be read.
pub open spec fn activator_table_spec(tiles: Seq<TileData>) -> Result<
    Map<u32, ActivatorTile>,
    TilePropertyErr,
>
    decreases tiles.len(),
{
    if tiles.len() == 0 {
        Ok(Map::empty())
    } else {
        match activator_table_spec(tiles.drop_last()) {
            Err(e) => Err(e),
            Ok(t) => match spec_activator_tile(tiles.last()) {
                Ok(a) => Ok(t.insert(tiles.last().id, a)),
                Err(e) => Err(e),
            },
        }
    }
}

/// Reads every tile of a tileset as a geometry tile, giving each tile's id
/// with its value, in order; fails with the first tile that cannot be read.
pub fn geometry_tile_properties(tiles: &Vec<TileData>) -> (r: Result<
    Vec<(u32, GeometryTile)>,
    TilePropertyDeserError,
>)
    ensures
        r matches Ok(t) ==> geometry_table_spec(tiles@) == Ok::<
            Seq<(u32, GeometryTile)>,
            TilePropertyErr,
        >(t@),
        r matches Err(e) ==> geometry_table_spec(tiles@) == Err::<
            Seq<(u32, GeometryTile)>,
            TilePropertyErr,
        >(e@),
{
    let mut table: Vec<(u32, GeometryTile)> = Vec::new();
    let mut i: usize = 0;
    while i < tiles.len()
        invariant
            i <= tiles@.len(),
            geometry_table_spec(tiles@.take(i as int)) == Ok::<
                Seq<(u32, GeometryTile)>,
                TilePropertyErr,
            >(table@),
        decreases tiles@.len() - i,
    {
        proof {
            assert(tiles@.take(i + 1).drop_last() == tiles@.take(i as int));
        }
        match geometry_tile(&tiles[i]) {
            Ok(g) => {
                table.push((tiles[i].id, g));
            },
            Err(e) => {
                proof {
                    lemma_geometry_error_persists(tiles@, i + 1);
                }
                return Err(e);
            },
        }
        i = i + 1;
    }
    proof {
        assert(tiles@.take(i as int) == tiles@);
    }
    Ok(table)
}

/// Reads every tile of a tileset as an activator tile, giving each tile's
/// id its value (the later tile's where two share an id); fails with the
/// first tile that cannot be read.
pub fn activator_tile_properties(tiles: &Vec<TileData>) -> (r: Result<
    HashMap<u32, ActivatorTile>,
    TilePropertyDeserError,
>)
    ensures
        r matches Ok(t) ==> activator_table_spec(tiles@) == Ok::<
            Map<u32, ActivatorTile>,
            TilePropertyErr,
        >(t@),
        r matches Err(e) ==> activator_table_spec(tiles@) == Err::<
            Map<u32, ActivatorTile>,
            TilePropertyErr,
        >(e@),
{
    let mut table: HashMap<u32, ActivatorTile> = HashMap::new();
    let mut i: usize = 0;
    proof {
        assert(table@ =~= Map::<u32, ActivatorTile>::empty());
    }
    while i < tiles.len()
        invariant
            i <= tiles@.len(),
            activator_table_spec(tiles@.take(i as int)) == Ok::<
                Map<u32, ActivatorTile>,
                TilePropertyErr,
            >(table@),
        decreases tiles@.len() - i,
    {
        proof {
            assert(tiles@.take(i + 1).drop_last() == tiles@.take(i as int));
        }
        match activator_tile(&tiles[i]) {
            Ok(a) => {
                table.insert(tiles[i].id, a);
            },
            Err(e) => {
                proof {
                    lemma_activator_table_error_persists(tiles@, i + 1);
                }
                return Err(e);
            },
        }
        i = i + 1;
    }
    proof {
        assert(tiles@.take(i as int) == tiles@);
    }
    Ok(table)
}

/// Once reading the tiles in order failed, reading more of them fails the
/// same way.
pub proof fn lemma_geometry_error_persists(tiles: Seq<TileData>, k: int)
    requires
        0 <= k <= tiles.len(),
        geometry_table_spec(tiles.take(k)) is Err,
    ensures
        geometry_table_spec(tiles) == geometry_table_spec(tiles.take(k)),
    decreases tiles.len() - k,
{
    if k < tiles.len() {
        assert(tiles.take(k + 1).drop_last() == tiles.take(k));
        lemma_geometry_error_persists(tiles, k + 1);
    } else {
        assert(tiles.take(k) == tiles);
    }
}

/// Once reading the tiles in order failed, reading more of them fails the
/// same way.
pub proof fn lemma_activator_table_error_persists(tiles: Seq<TileData>, k: int)
    requires
        0 <= k <= tiles.len(),
        activator_table_spec(tiles.take(k)) is Err,
    ensures
        activator_table_spec(tiles) == activator_table_spec(tiles.take(k)),
    decreases tiles.len() - k,
{
    if k < tiles.len() {
        assert(tiles.take(k + 1).drop_last() == tiles.take(k));
        lemma_activator_table_error_persists(tiles, k + 1);
    } else {
        assert(tiles.take(k) == tiles);
    }
}

} // verus!
