//! The errors of loading a game.

use vstd::prelude::*;

use crate::names::IllegalConversion;

verus! {

/// Why a game could not be loaded.
#[derive(Debug)]
pub enum Application {
    InvalidPropertyValue { etype: String, value: String, field: String },
    PropertyNotFound { etype: String, property: String, id: String },
    EntitySectionNotFound(String),
    EntityNotFound { etype: String, id: String },
    EntityVariantNotFound { etype: String, id: String, variant: String },
    CouldNotLoadFile(String),
    ConversionFailed { etype: String, property: String, source: IllegalConversion },
    EntityDataIncomplete(String),
    DefaultEntityNotFound { etype: String, id: String },
    MissingProperties { missing: Vec<String>, etype: String, id: String },
    UnexpectedProperties { unexpected: Vec<String>, etype: String, id: String },
    UnknownSectionFound(String),
    MalformedMultilineString(String),
    CircularReferenceFound { etype: String, parent_id: String, child_id: String },
}

/// An error as text: each field by its characters.
pub enum ErrorView {
    InvalidPropertyValue { etype: Seq<char>, value: Seq<char>, field: Seq<char> },
    PropertyNotFound { etype: Seq<char>, property: Seq<char>, id: Seq<char> },
    EntitySectionNotFound(Seq<char>),
    EntityNotFound { etype: Seq<char>, id: Seq<char> },
    EntityVariantNotFound { etype: Seq<char>, id: Seq<char>, variant: Seq<char> },
    CouldNotLoadFile(Seq<char>),
    ConversionFailed { etype: Seq<char>, property: Seq<char>, value: Seq<char>, dtype: Seq<char> },
    EntityDataIncomplete(Seq<char>),
    DefaultEntityNotFound { etype: Seq<char>, id: Seq<char> },
    MissingProperties { missing: Seq<Seq<char>>, etype: Seq<char>, id: Seq<char> },
    UnexpectedProperties { unexpected: Seq<Seq<char>>, etype: Seq<char>, id: Seq<char> },
    UnknownSectionFound(Seq<char>),
    MalformedMultilineString(Seq<char>),
    CircularReferenceFound { etype: Seq<char>, parent_id: Seq<char>, child_id: Seq<char> },
}

pub open spec fn strings_view(v: Seq<String>) -> Seq<Seq<char>> {
    v.map_values(|s: String| s@)
}

impl View for Application {
    type V = ErrorView;

    open spec fn view(&self) -> ErrorView {
        match self {
            Application::InvalidPropertyValue { etype, value, field } => ErrorView::InvalidPropertyValue {
                etype: etype@,
                value: value@,
                field: field@,
            },
            Application::PropertyNotFound { etype, property, id } => ErrorView::PropertyNotFound {
                etype: etype@,
                property: property@,
                id: id@,
            },
            Application::EntitySectionNotFound(s) => ErrorView::EntitySectionNotFound(s@),
            Application::EntityNotFound { etype, id } => ErrorView::EntityNotFound { etype: etype@, id: id@ },
            Application::EntityVariantNotFound { etype, id, variant } => ErrorView::EntityVariantNotFound {
                etype: etype@,
                id: id@,
                variant: variant@,
            },
            Application::CouldNotLoadFile(s) => ErrorView::CouldNotLoadFile(s@),
            Application::ConversionFailed { etype, property, source } => ErrorView::ConversionFailed {
                etype: etype@,
                property: property@,
                value: source.value@,
                dtype: source.dtype@,
            },
            Application::EntityDataIncomplete(s) => ErrorView::EntityDataIncomplete(s@),
            Application::DefaultEntityNotFound { etype, id } => ErrorView::DefaultEntityNotFound {
                etype: etype@,
                id: id@,
            },
            Application::MissingProperties { missing, etype, id } => ErrorView::MissingProperties {
                missing: strings_view(missing@),
                etype: etype@,
                id: id@,
            },
            Application::UnexpectedProperties { unexpected, etype, id } => ErrorView::UnexpectedProperties {
                unexpected: strings_view(unexpected@),
                etype: etype@,
                id: id@,
            },
            Application::UnknownSectionFound(s) => ErrorView::UnknownSectionFound(s@),
            Application::MalformedMultilineString(s) => ErrorView::MalformedMultilineString(s@),
            Application::CircularReferenceFound { etype, parent_id, child_id } => ErrorView::CircularReferenceFound {
                etype: etype@,
                parent_id: parent_id@,
                child_id: child_id@,
            },
        }
    }
}

} // verus!

verus! {

/// How `{:?}` writes a text: in double quotes, with quotes, backslashes and control
/// characters escaped.
pub uninterp spec fn debug_text_of(s: Seq<char>) -> Seq<char>;

/// `<str as Debug>::fmt`, through `format!("{:?}", s)`; its result is named, not described.
#[verifier::external_body]
fn debug_text(s: &str) -> (r: String)
    ensures
        r@ == debug_text_of(s@),
{
    format!("{:?}", s)
}

/// A list written as `{:?}` writes it: each text quoted, between brackets.
pub open spec fn debug_list(v: Seq<Seq<char>>) -> Seq<char> {
    seq!['['] + crate::ui::join(v.map_values(|s: Seq<char>| debug_text_of(s)), seq![',', ' ']) + seq![']']
}

fn debug_list_of(v: &Vec<String>) -> (r: String)
    ensures
        r@ == debug_list(strings_view(v@)),
{
    let mut parts: Vec<String> = Vec::new();
    let mut i: usize = 0;
    while i < v.len()
        invariant
            i <= v@.len(),
            crate::text::texts_view(parts@) == strings_view(v@).take(i as int).map_values(|s: Seq<char>| debug_text_of(s)),
        decreases v.len() - i,
    {
        let ghost before = crate::text::texts_view(parts@);
        let d = debug_text(v[i].as_str());
        parts.push(d);
        assert(crate::text::texts_view(parts@) =~= before.push(d@));
        assert(strings_view(v@).take(i + 1).map_values(|s: Seq<char>| debug_text_of(s)) =~= strings_view(v@).take(
            i as int,
        ).map_values(|s: Seq<char>| debug_text_of(s)).push(d@));
        i += 1;
    }
    assert(strings_view(v@).take(v@.len() as int) =~= strings_view(v@));
    proof {
        reveal_strlit("[");
        reveal_strlit("]");
        reveal_strlit(", ");
        assert(", "@ =~= seq![',', ' ']);
    }
    let mut s = crate::text::owned("[");
    let joined = crate::ui::join_texts(parts.as_slice(), ", ");
    s.append(joined.as_str());
    s.append("]");
    s
}

/// The message of a failed conversion.
pub open spec fn conversion_message(value: Seq<char>, dtype: Seq<char>) -> Seq<char> {
    "Cannot convert `"@ + value + "` to type "@ + dtype
}

impl IllegalConversion {
    /// `Cannot convert `value` to type dtype`.
    pub fn to_string(&self) -> (r: String)
        ensures
            r@ == conversion_message(self.value@, self.dtype@),
    {
        let mut s = crate::text::owned("Cannot convert `");
        s.append(self.value.as_str());
        s.append("` to type ");
        s.append(self.dtype);
        s
    }
}

/// The message of an error, as the application reports it.
pub open spec fn message_of(e: ErrorView) -> Seq<char> {
    match e {
        ErrorView::InvalidPropertyValue { etype, value, field } => "Cannot use value `"@ + value + "` in field `"@
            + field + "` for entity `"@ + etype + "`!"@,
        ErrorView::PropertyNotFound { etype, property, id } => "Property `"@ + property + "` not found for `"@ + etype
            + "` with id `"@ + id + "`!"@,
        ErrorView::EntitySectionNotFound(s) => "Expected `"@ + s + "` data not found!"@,
        ErrorView::EntityNotFound { etype, id } => "Could not find entity `"@ + etype + "` with id `"@ + id + "`!"@,
        ErrorView::EntityVariantNotFound { etype, id, variant } => "Could not find entity `"@ + etype
            + "` with id `"@ + id + "` and variant `"@ + variant + "`!"@,
        ErrorView::CouldNotLoadFile(s) => "Failed to load file due to: "@ + s,
        ErrorView::ConversionFailed { etype, property, value, dtype } => "Conversion failed for `"@ + etype
            + "` at property `"@ + property + "` with `"@ + conversion_message(value, dtype) + "`"@,
        ErrorView::EntityDataIncomplete(s) => "Incomplete data for entity `"@ + s
            + "`. A field could be missing or mispelled."@,
        ErrorView::DefaultEntityNotFound { etype, id } => "Cannot find default `"@ + etype + "`  entity for id `"@
            + id + "`"@,
        ErrorView::MissingProperties { missing, etype, id } => "Missing properties "@ + debug_list(missing)
            + " for entity `"@ + etype + "` with id `"@ + id + "`!"@,
        ErrorView::UnexpectedProperties { unexpected, etype, id } => "Found unexpected properties "@ + debug_list(
            unexpected,
        ) + " in entity `"@ + etype + "` with id `"@ + id + "`!"@,
        ErrorView::UnknownSectionFound(s) => "Unknown section `"@ + s + "` found!"@,
        ErrorView::MalformedMultilineString(s) => "Malformed multiline string found on lines "@ + s
            + "! Make sure you have the correct number of \"'s"@,
        ErrorView::CircularReferenceFound { etype, parent_id, child_id } => "Found potential circular reference in `"@
            + etype + "` with id `"@ + parent_id + "` from link to child `"@ + child_id + "`"@,
    }
}

fn text_of(parts: &[&str]) -> (r: String)
    requires
        1 <= parts@.len() <= 9,
    ensures
        r@ == joined(parts@.map_values(|p: &str| p@)),
{
    let ghost v = parts@.map_values(|p: &str| p@);
    let mut s = crate::text::owned(parts[0]);
    let mut i: usize = 1;
    assert(v.take(1).drop_last() =~= Seq::<Seq<char>>::empty());
    assert(v.take(1).last() == v[0]);
    assert(joined(Seq::<Seq<char>>::empty()) =~= Seq::<char>::empty());
    assert(joined(v.take(1)) =~= v[0]);
    while i < parts.len()
        invariant
            v == parts@.map_values(|p: &str| p@),
            1 <= i <= parts@.len(),
            s@ == joined(v.take(i as int)),
        decreases parts.len() - i,
    {
        assert(v.take(i + 1).drop_last() == v.take(i as int));
        s.append(parts[i]);
        i += 1;
    }
    assert(v.take(parts@.len() as int) == v);
    s
}

/// The texts one after another.
pub open spec fn joined(v: Seq<Seq<char>>) -> Seq<char>
    decreases v.len(),
{
    if v.len() == 0 {
        Seq::empty()
    } else {
        joined(v.drop_last()) + v.last()
    }
}

} // verus!

verus! {

impl Application {
    /// The message of the error (what the application prints).
    pub fn to_string(&self) -> (r: String)
        ensures
            r@ == message_of(self@),
    {
        proof {
            reveal_with_fuel(joined, 10);
        }
        match self {
            Application::InvalidPropertyValue { etype, value, field } => {
                let p = [
                    "Cannot use value `",
                    value.as_str(),
                    "` in field `",
                    field.as_str(),
                    "` for entity `",
                    etype.as_str(),
                    "`!",
                ];
                let r = text_of(&p);
                assert(p@.map_values(|p: &str| p@) =~= seq![
                    "Cannot use value `"@, value@, "` in field `"@, field@, "` for entity `"@, etype@, "`!"@,
                ]);
                r
            },
            Application::PropertyNotFound { etype, property, id } => {
                let p = ["Property `", property.as_str(), "` not found for `", etype.as_str(), "` with id `", id.as_str(), "`!"];
                let r = text_of(&p);
                assert(p@.map_values(|p: &str| p@) =~= seq![
                    "Property `"@, property@, "` not found for `"@, etype@, "` with id `"@, id@, "`!"@,
                ]);
                r
            },
            Application::EntitySectionNotFound(s) => {
                let p = ["Expected `", s.as_str(), "` data not found!"];
                let r = text_of(&p);
                assert(p@.map_values(|p: &str| p@) =~= seq!["Expected `"@, s@, "` data not found!"@]);
                r
            },
            Application::EntityNotFound { etype, id } => {
                let p = ["Could not find entity `", etype.as_str(), "` with id `", id.as_str(), "`!"];
                let r = text_of(&p);
                assert(p@.map_values(|p: &str| p@) =~= seq![
                    "Could not find entity `"@, etype@, "` with id `"@, id@, "`!"@,
                ]);
                r
            },
            Application::EntityVariantNotFound { etype, id, variant } => {
                let p = [
                    "Could not find entity `",
                    etype.as_str(),
                    "` with id `",
                    id.as_str(),
                    "` and variant `",
                    variant.as_str(),
                    "`!",
                ];
                let r = text_of(&p);
                assert(p@.map_values(|p: &str| p@) =~= seq![
                    "Could not find entity `"@, etype@, "` with id `"@, id@, "` and variant `"@, variant@, "`!"@,
                ]);
                r
            },
            Application::CouldNotLoadFile(s) => {
                let p = ["Failed to load file due to: ", s.as_str()];
                let r = text_of(&p);
                assert(p@.map_values(|p: &str| p@) =~= seq!["Failed to load file due to: "@, s@]);
                r
            },
            Application::ConversionFailed { etype, property, source } => {
                let c = source.to_string();
                let p = ["Conversion failed for `", etype.as_str(), "` at property `", property.as_str(), "` with `", c.as_str(), "`"];
                let r = text_of(&p);
                assert(p@.map_values(|p: &str| p@) =~= seq![
                    "Conversion failed for `"@, etype@, "` at property `"@, property@, "` with `"@, c@, "`"@,
                ]);
                r
            },
            Application::EntityDataIncomplete(s) => {
                let p = ["Incomplete data for entity `", s.as_str(), "`. A field could be missing or mispelled."];
                let r = text_of(&p);
                assert(p@.map_values(|p: &str| p@) =~= seq![
                    "Incomplete data for entity `"@, s@, "`. A field could be missing or mispelled."@,
                ]);
                r
            },
            Application::DefaultEntityNotFound { etype, id } => {
                let p = ["Cannot find default `", etype.as_str(), "`  entity for id `", id.as_str(), "`"];
                let r = text_of(&p);
                assert(p@.map_values(|p: &str| p@) =~= seq![
                    "Cannot find default `"@, etype@, "`  entity for id `"@, id@, "`"@,
                ]);
                r
            },
            Application::MissingProperties { missing, etype, id } => {
                let l = debug_list_of(missing);
                let p = ["Missing properties ", l.as_str(), " for entity `", etype.as_str(), "` with id `", id.as_str(), "`!"];
                let r = text_of(&p);
                assert(p@.map_values(|p: &str| p@) =~= seq![
                    "Missing properties "@, l@, " for entity `"@, etype@, "` with id `"@, id@, "`!"@,
                ]);
                r
            },
            Application::UnexpectedProperties { unexpected, etype, id } => {
                let l = debug_list_of(unexpected);
                let p = [
                    "Found unexpected properties ",
                    l.as_str(),
                    " in entity `",
                    etype.as_str(),
                    "` with id `",
                    id.as_str(),
                    "`!",
                ];
                let r = text_of(&p);
                assert(p@.map_values(|p: &str| p@) =~= seq![
                    "Found unexpected properties "@, l@, " in entity `"@, etype@, "` with id `"@, id@, "`!"@,
                ]);
                r
            },
            Application::UnknownSectionFound(s) => {
                let p = ["Unknown section `", s.as_str(), "` found!"];
                let r = text_of(&p);
                assert(p@.map_values(|p: &str| p@) =~= seq!["Unknown section `"@, s@, "` found!"@]);
                r
            },
            Application::MalformedMultilineString(s) => {
                let p = [
                    "Malformed multiline string found on lines ",
                    s.as_str(),
                    "! Make sure you have the correct number of \"'s",
                ];
                let r = text_of(&p);
                assert(p@.map_values(|p: &str| p@) =~= seq![
                    "Malformed multiline string found on lines "@, s@, "! Make sure you have the correct number of \"'s"@,
                ]);
                r
            },
            Application::CircularReferenceFound { etype, parent_id, child_id } => {
                let p = [
                    "Found potential circular reference in `",
                    etype.as_str(),
                    "` with id `",
                    parent_id.as_str(),
                    "` from link to child `",
                    child_id.as_str(),
                    "`",
                ];
                let r = text_of(&p);
                assert(p@.map_values(|p: &str| p@) =~= seq![
                    "Found potential circular reference in `"@, etype@, "` with id `"@, parent_id@,
                    "` from link to child `"@, child_id@, "`"@,
                ]);
                r
            },
        }
    }
}

} // verus!
