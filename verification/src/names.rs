//! Validated names (`Identifier`, `Title`) and theme colors.

use convert_case::{Case, Casing};
use csscolorparser::Color;
use regex::Regex;
use std::str::FromStr;
use vstd::prelude::*;
use vstd::std_specs::cmp::PartialEqSpecImpl;

use crate::text;

verus! {

/// A value that could not be converted into the named type.
#[derive(Debug)]
pub struct IllegalConversion {
    pub value: String,
    pub dtype: &'static str,
}

/// Characters allowed in an `Identifier`: `[a-z_0-9\-]`.
pub open spec fn is_identifier_char(c: char) -> bool {
    ('a' <= c && c <= 'z') || c == '_' || ('0' <= c && c <= '9') || c == '-'
}

/// Text matched by `^[a-z_0-9\-]+$`.
pub open spec fn is_identifier_text(s: Seq<char>) -> bool {
    s.len() > 0 && forall|i: int| 0 <= i < s.len() ==> is_identifier_char(#[trigger] s[i])
}

/// Characters allowed after the first one of a `Title`: `[A-Za-z_]`.
pub open spec fn is_title_tail_char(c: char) -> bool {
    ('A' <= c && c <= 'Z') || ('a' <= c && c <= 'z') || c == '_'
}

/// Text matched by `^[A-Z]{1,1}[A-Za-z_]+$`.
pub open spec fn is_title_text(s: Seq<char>) -> bool {
    &&& s.len() >= 2
    &&& 'A' <= s[0] && s[0] <= 'Z'
    &&& forall|i: int| 1 <= i < s.len() ==> is_title_tail_char(#[trigger] s[i])
}

/// What `convert_case` makes of a text in `Case::Snake`.
pub uninterp spec fn snake_case_of(s: Seq<char>) -> Seq<char>;

/// What `convert_case` makes of a text in `Case::Title`.
pub uninterp spec fn title_case_of(s: Seq<char>) -> Seq<char>;

/// The red, green and blue bytes that `csscolorparser` reads from a CSS color text,
/// or `None` where it does not parse.
pub uninterp spec fn css_color_rgb(s: Seq<char>) -> Option<(u8, u8, u8)>;

/// `Regex::is_match` with the pattern `^[a-z_0-9\-]+$`; the contract is that
/// pattern's meaning: a non-empty text of lower-case ASCII letters, digits, `_` and `-`.
#[verifier::external_body]
fn matches_identifier_pattern(s: &str) -> (b: bool)
    ensures
        b == is_identifier_text(s@),
{
    match Regex::new(r"^[a-z_0-9\-]+$") {
        Ok(rx) => rx.is_match(s),
        Err(_) => false,
    }
}

/// `Regex::is_match` with the pattern `^[A-Z]{1,1}[A-Za-z_]+$`; the contract is that
/// pattern's meaning: an upper-case ASCII letter followed by one or more ASCII letters or `_`.
#[verifier::external_body]
fn matches_title_pattern(s: &str) -> (b: bool)
    ensures
        b == is_title_text(s@),
{
    match Regex::new(r"^[A-Z]{1,1}[A-Za-z_]+$") {
        Ok(rx) => rx.is_match(s),
        Err(_) => false,
    }
}

/// `Casing::to_case(Case::Snake)` of `convert_case`; its result is named, not described.
#[verifier::external_body]
fn to_snake_case(s: &str) -> (r: String)
    ensures
        r@ == snake_case_of(s@),
{
    s.to_case(Case::Snake)
}

/// `Casing::to_case(Case::Title)` of `convert_case`; its result is named, not described.
#[verifier::external_body]
pub(crate) fn to_title_case(s: &str) -> (r: String)
    ensures
        r@ == title_case_of(s@),
{
    s.to_case(Case::Title)
}

/// `Color::from_str` of `csscolorparser` followed by `to_rgba8`, keeping red, green and
/// blue; its result is named, not described.
#[verifier::external_body]
fn parse_css_color(s: &str) -> (r: Option<(u8, u8, u8)>)
    ensures
        r == css_color_rgb(s@),
{
    match Color::from_str(s) {
        Ok(c) => {
            let [r, g, b, _] = c.to_rgba8();
            Some((r, g, b))
        },
        Err(_) => None,
    }
}

/// A type whose values are read from the text of a property.
pub trait ParseText: Sized {
    /// Whether the text is accepted.
    spec fn accepts(s: Seq<char>) -> bool;

    /// Whether `v` is what the text reads as.
    spec fn reads_as(s: Seq<char>, v: Self) -> bool;

    /// The type's name in conversion errors.
    spec fn kind_name() -> Seq<char>;

    fn parse_text(s: &str) -> (r: Result<Self, IllegalConversion>)
        ensures
            r is Ok <==> Self::accepts(s@),
            r is Ok ==> Self::reads_as(s@, r->Ok_0),
            r is Err ==> r->Err_0.value@ == s@ && r->Err_0.dtype@ == Self::kind_name(),
    ;
}

/// A `snake_case` name: items, actions, dialogues, responses and variants.
#[derive(Debug, Hash)]
pub struct Identifier(String);

impl View for Identifier {
    type V = Seq<char>;

    closed spec fn view(&self) -> Seq<char> {
        self.0@
    }
}

impl Identifier {
    /// Parses an identifier: the text must match `^[a-z_0-9\-]+$`, and the stored
    /// name is its snake case.
    pub fn parse(s: &str) -> (r: Result<Identifier, IllegalConversion>)
        ensures
            is_identifier_text(s@) <==> r is Ok,
            r matches Ok(id) ==> id@ == snake_case_of(s@),
            r matches Err(e) ==> e.value@ == s@ && e.dtype@ == "Identifier"@,
    {
        if matches_identifier_pattern(s) {
            Ok(Identifier(to_snake_case(s)))
        } else {
            Err(IllegalConversion { value: text::owned(s), dtype: "Identifier" })
        }
    }

    pub fn as_str(&self) -> (r: &str)
        ensures
            r@ == self@,
    {
        self.0.as_str()
    }

    pub fn to_string(&self) -> (r: String)
        ensures
            r@ == self@,
    {
        self.0.clone()
    }

    pub fn eq_name(&self, other: &Identifier) -> (b: bool)
        ensures
            b == (self@ == other@),
    {
        self.0 == other.0
    }
}

impl Clone for Identifier {
    fn clone(&self) -> (r: Self)
        ensures
            r@ == self@,
    {
        Identifier(self.0.clone())
    }
}

impl PartialEq for Identifier {
    fn eq(&self, other: &Self) -> (r: bool) {
        self.0 == other.0
    }
}

impl PartialEqSpecImpl for Identifier {
    open spec fn obeys_eq_spec() -> bool {
        true
    }

    open spec fn eq_spec(&self, other: &Self) -> bool {
        self@ == other@
    }
}

impl Eq for Identifier {}

/// A `PascalCase` name shown as title case: rooms and characters.
#[derive(Debug, Hash)]
pub struct Title(String);

impl View for Title {
    type V = Seq<char>;

    closed spec fn view(&self) -> Seq<char> {
        self.0@
    }
}

impl Title {
    /// Parses a title: the text must match `^[A-Z]{1,1}[A-Za-z_]+$`, and the stored
    /// name is its title case.
    pub fn parse(s: &str) -> (r: Result<Title, IllegalConversion>)
        ensures
            is_title_text(s@) <==> r is Ok,
            r matches Ok(t) ==> t@ == title_case_of(s@),
            r matches Err(e) ==> e.value@ == s@ && e.dtype@ == "Title"@,
    {
        if matches_title_pattern(s) {
            Ok(Title(to_title_case(s)))
        } else {
            Err(IllegalConversion { value: text::owned(s), dtype: "Title" })
        }
    }

    pub fn as_str(&self) -> (r: &str)
        ensures
            r@ == self@,
    {
        self.0.as_str()
    }

    pub fn to_string(&self) -> (r: String)
        ensures
            r@ == self@,
    {
        self.0.clone()
    }

    pub fn eq_name(&self, other: &Title) -> (b: bool)
        ensures
            b == (self@ == other@),
    {
        self.0 == other.0
    }
}

impl Clone for Title {
    fn clone(&self) -> (r: Self)
        ensures
            r@ == self@,
    {
        Title(self.0.clone())
    }
}

impl PartialEq for Title {
    fn eq(&self, other: &Self) -> (r: bool) {
        self.0 == other.0
    }
}

impl PartialEqSpecImpl for Title {
    open spec fn obeys_eq_spec() -> bool {
        true
    }

    open spec fn eq_spec(&self, other: &Self) -> bool {
        self@ == other@
    }
}

impl Eq for Title {}

/// A color of the user interface theme.
#[derive(Debug, Clone, Copy, PartialEq, Eq, Structural, Hash)]
pub struct ThemeColor {
    pub r: u8,
    pub g: u8,
    pub b: u8,
}

impl ThemeColor {
    pub fn new(r: u8, g: u8, b: u8) -> (c: ThemeColor)
        ensures
            c.r == r && c.g == g && c.b == b,
    {
        ThemeColor { r, g, b }
    }

    pub fn r(&self) -> (v: &u8)
        ensures
            *v == self.r,
    {
        &self.r
    }

    pub fn g(&self) -> (v: &u8)
        ensures
            *v == self.g,
    {
        &self.g
    }

    pub fn b(&self) -> (v: &u8)
        ensures
            *v == self.b,
    {
        &self.b
    }

    /// Parses any CSS color text that `csscolorparser` accepts.
    pub fn parse(s: &str) -> (r: Result<ThemeColor, IllegalConversion>)
        ensures
            css_color_rgb(s@) is Some <==> r is Ok,
            r matches Ok(c) ==> css_color_rgb(s@) == Some((c.r, c.g, c.b)),
            r matches Err(e) ==> e.value@ == s@ && e.dtype@ == "ThemeColor"@,
    {
        match parse_css_color(s) {
            Some((r, g, b)) => Ok(ThemeColor { r, g, b }),
            None => Err(IllegalConversion { value: text::owned(s), dtype: "ThemeColor" }),
        }
    }

    /// The color as `RGB(r, g, b)` with decimal components.
    pub fn to_string(&self) -> (s: String)
        ensures
            s@ == "RGB("@ + text::decimal(self.r as nat) + ", "@ + text::decimal(self.g as nat)
                + ", "@ + text::decimal(self.b as nat) + ")"@,
    {
        let mut s = text::owned("RGB(");
        s.append(text::decimal_string(self.r as u64).as_str());
        s.append(", ");
        s.append(text::decimal_string(self.g as u64).as_str());
        s.append(", ");
        s.append(text::decimal_string(self.b as u64).as_str());
        s.append(")");
        s
    }
}


impl ParseText for Identifier {
    open spec fn accepts(s: Seq<char>) -> bool {
        is_identifier_text(s)
    }

    open spec fn reads_as(s: Seq<char>, v: Identifier) -> bool {
        v@ == snake_case_of(s)
    }

    open spec fn kind_name() -> Seq<char> {
        "Identifier"@
    }

    fn parse_text(s: &str) -> (r: Result<Identifier, IllegalConversion>) {
        Identifier::parse(s)
    }
}

impl ParseText for Title {
    open spec fn accepts(s: Seq<char>) -> bool {
        is_title_text(s)
    }

    open spec fn reads_as(s: Seq<char>, v: Title) -> bool {
        v@ == title_case_of(s)
    }

    open spec fn kind_name() -> Seq<char> {
        "Title"@
    }

    fn parse_text(s: &str) -> (r: Result<Title, IllegalConversion>) {
        Title::parse(s)
    }
}

impl ParseText for ThemeColor {
    open spec fn accepts(s: Seq<char>) -> bool {
        css_color_rgb(s) is Some
    }

    open spec fn reads_as(s: Seq<char>, v: ThemeColor) -> bool {
        css_color_rgb(s) == Some((v.r, v.g, v.b))
    }

    open spec fn kind_name() -> Seq<char> {
        "ThemeColor"@
    }

    fn parse_text(s: &str) -> (r: Result<ThemeColor, IllegalConversion>) {
        ThemeColor::parse(s)
    }
}

impl FromStr for Identifier {
    type Err = IllegalConversion;

    fn from_str(s: &str) -> (r: Result<Self, Self::Err>)
        ensures
            is_identifier_text(s@) <==> r is Ok,
            r matches Ok(id) ==> id@ == snake_case_of(s@),
            r matches Err(e) ==> e.value@ == s@ && e.dtype@ == "Identifier"@,
    {
        Identifier::parse(s)
    }
}

impl FromStr for Title {
    type Err = IllegalConversion;

    fn from_str(s: &str) -> (r: Result<Self, Self::Err>)
        ensures
            is_title_text(s@) <==> r is Ok,
            r matches Ok(t) ==> t@ == title_case_of(s@),
            r matches Err(e) ==> e.value@ == s@ && e.dtype@ == "Title"@,
    {
        Title::parse(s)
    }
}

impl FromStr for ThemeColor {
    type Err = IllegalConversion;

    fn from_str(s: &str) -> (r: Result<Self, Self::Err>)
        ensures
            css_color_rgb(s@) is Some <==> r is Ok,
            r matches Ok(c) ==> css_color_rgb(s@) == Some((c.r, c.g, c.b)),
            r matches Err(e) ==> e.value@ == s@ && e.dtype@ == "ThemeColor"@,
    {
        ThemeColor::parse(s)
    }
}

} // verus!
