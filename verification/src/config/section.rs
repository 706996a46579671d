//! Section kinds and the records read from sections: a section's name split into kind,
//! entity name and variant, with its properties checked against the expected keys.

use vstd::prelude::*;

use crate::config::ini_doc::{has_key, lemma_prop_value, prop_value, props_view, get_prop, has_prop, PropsModel};
use crate::error::{Application, ErrorView};
use crate::names::{Identifier, IllegalConversion, ParseText, Title};
use crate::text::{self, list_entries, opt_string_view, split_once, texts_view, trim};

verus! {

/// The kinds of section a configuration may hold.
#[derive(Debug, Clone, Copy, PartialEq, Eq, Structural, Hash)]
pub enum EntitySection {
    Action,
    Character,
    Dialogue,
    Item,
    Response,
    Room,
    Root,
    Theme,
    Language,
}

/// The name of a section kind, as written before the `:` of a section name.
pub open spec fn section_text(k: EntitySection) -> Seq<char> {
    match k {
        EntitySection::Action => "Action"@,
        EntitySection::Character => "Character"@,
        EntitySection::Dialogue => "Dialogue"@,
        EntitySection::Item => "Item"@,
        EntitySection::Response => "Response"@,
        EntitySection::Room => "Room"@,
        EntitySection::Root => "Root"@,
        EntitySection::Theme => "Theme"@,
        EntitySection::Language => "Language"@,
    }
}

/// The section kind with the given name, if any.
pub open spec fn section_named(t: Seq<char>) -> Option<EntitySection> {
    if t == "Action"@ {
        Some(EntitySection::Action)
    } else if t == "Character"@ {
        Some(EntitySection::Character)
    } else if t == "Dialogue"@ {
        Some(EntitySection::Dialogue)
    } else if t == "Item"@ {
        Some(EntitySection::Item)
    } else if t == "Response"@ {
        Some(EntitySection::Response)
    } else if t == "Room"@ {
        Some(EntitySection::Room)
    } else if t == "Root"@ {
        Some(EntitySection::Root)
    } else if t == "Theme"@ {
        Some(EntitySection::Theme)
    } else if t == "Language"@ {
        Some(EntitySection::Language)
    } else {
        None
    }
}

/// Reading a kind's name gives that kind back, and a name that reads as a kind is
/// that kind's name.
pub proof fn law_section_name_round_trip(k: EntitySection, t: Seq<char>)
    ensures
        section_named(section_text(k)) == Some(k),
        section_named(t) matches Some(j) ==> section_text(j) == t,
{
    reveal_strlit("Action");
    reveal_strlit("Character");
    reveal_strlit("Dialogue");
    reveal_strlit("Item");
    reveal_strlit("Response");
    reveal_strlit("Room");
    reveal_strlit("Root");
    reveal_strlit("Theme");
    reveal_strlit("Language");
    assert("Item"@[0] != "Room"@[0] && "Item"@[0] != "Root"@[0] && "Room"@[3] != "Root"@[3]);
    assert("Dialogue"@[0] != "Response"@[0] && "Dialogue"@[0] != "Language"@[0]);
    assert("Response"@[0] != "Language"@[0]);
    assert("Character"@.len() == 9 && "Theme"@.len() == 5);
}

impl EntitySection {
    pub fn as_str(&self) -> (r: &'static str)
        ensures
            r@ == section_text(*self),
    {
        match self {
            EntitySection::Action => "Action",
            EntitySection::Character => "Character",
            EntitySection::Dialogue => "Dialogue",
            EntitySection::Item => "Item",
            EntitySection::Response => "Response",
            EntitySection::Room => "Room",
            EntitySection::Root => "Root",
            EntitySection::Theme => "Theme",
            EntitySection::Language => "Language",
        }
    }

    /// The kind with the given name, if any.
    pub fn from_text(t: &str) -> (r: Option<EntitySection>)
        ensures
            r == section_named(t@),
    {
        if text::same_text(t, "Action") {
            Some(EntitySection::Action)
        } else if text::same_text(t, "Character") {
            Some(EntitySection::Character)
        } else if text::same_text(t, "Dialogue") {
            Some(EntitySection::Dialogue)
        } else if text::same_text(t, "Item") {
            Some(EntitySection::Item)
        } else if text::same_text(t, "Response") {
            Some(EntitySection::Response)
        } else if text::same_text(t, "Room") {
            Some(EntitySection::Room)
        } else if text::same_text(t, "Root") {
            Some(EntitySection::Root)
        } else if text::same_text(t, "Theme") {
            Some(EntitySection::Theme)
        } else if text::same_text(t, "Language") {
            Some(EntitySection::Language)
        } else {
            None
        }
    }

    /// Every kind, in declaration order.
    pub fn all() -> (r: Vec<EntitySection>)
        ensures
            r@ == seq![
                EntitySection::Action,
                EntitySection::Character,
                EntitySection::Dialogue,
                EntitySection::Item,
                EntitySection::Response,
                EntitySection::Room,
                EntitySection::Root,
                EntitySection::Theme,
                EntitySection::Language,
            ],
    {
        let r = vec![
            EntitySection::Action,
            EntitySection::Character,
            EntitySection::Dialogue,
            EntitySection::Item,
            EntitySection::Response,
            EntitySection::Room,
            EntitySection::Root,
            EntitySection::Theme,
            EntitySection::Language,
        ];
        assert(r@ =~= seq![
            EntitySection::Action,
            EntitySection::Character,
            EntitySection::Dialogue,
            EntitySection::Item,
            EntitySection::Response,
            EntitySection::Room,
            EntitySection::Root,
            EntitySection::Theme,
            EntitySection::Language,
        ]);
        r
    }
}

/// A record as text: its kind, entity name, variant, properties and the name after
/// the kind (`qualified`).
pub struct RecordModel {
    pub kind: EntitySection,
    pub name: Seq<char>,
    pub variant: Option<Seq<char>>,
    pub props: PropsModel,
    pub qualified: Seq<char>,
}

/// What an `Identifier` property reads as, or the conversion error it gives.
pub open spec fn id_result(etype: Seq<char>, property: Seq<char>, s: Seq<char>) -> Result<Seq<char>, ErrorView> {
    if Identifier::accepts(s) {
        Ok(crate::names::snake_case_of(s))
    } else {
        Err(ErrorView::ConversionFailed { etype, property, value: s, dtype: "Identifier"@ })
    }
}

/// A qualified name `name|variant`: the trimmed name, and the variant read as an
/// identifier when there is a `|`.
pub open spec fn name_and_variant(etype: Seq<char>, q: Seq<char>) -> Result<(Seq<char>, Option<Seq<char>>), ErrorView> {
    let (n, v) = split_once(q, '|');
    match v {
        None => Ok((trim(n), None)),
        Some(t) => match id_result(etype, "variant"@, trim(t)) {
            Ok(i) => Ok((trim(n), Some(i))),
            Err(e) => Err(e),
        },
    }
}

/// The record that a section named `input` gives: `Kind:name|variant`.
pub open spec fn record_of(input: Seq<char>, props: PropsModel) -> Result<RecordModel, ErrorView> {
    let (head, rest) = split_once(input, ':');
    match section_named(trim(head)) {
        None => Err(
            ErrorView::InvalidPropertyValue { etype: "Not Found"@, value: input, field: "Section Name"@ },
        ),
        Some(k) => {
            let q = trim(
                match rest {
                    Some(r) => r,
                    None => Seq::<char>::empty(),
                },
            );
            match name_and_variant(section_text(k), q) {
                Err(e) => Err(e),
                Ok(nv) => Ok(RecordModel { kind: k, name: nv.0, variant: nv.1, props, qualified: q }),
            }
        },
    }
}

/// The required keys that do not occur, in the order required, each once.
pub open spec fn missing_keys(req: Seq<Seq<char>>, p: PropsModel) -> Seq<Seq<char>>
    decreases req.len(),
{
    if req.len() == 0 {
        Seq::empty()
    } else {
        let m = missing_keys(req.drop_last(), p);
        let k = req.last();
        if !has_key(p, k) && !m.contains(k) {
            m.push(k)
        } else {
            m
        }
    }
}

/// The keys that occur but are not allowed, in the order they occur, each once.
pub open spec fn unexpected_keys(p: PropsModel, allowed: Seq<Seq<char>>) -> Seq<Seq<char>>
    decreases p.len(),
{
    if p.len() == 0 {
        Seq::empty()
    } else {
        let u = unexpected_keys(p.drop_last(), allowed);
        let k = p.last().0;
        if !allowed.contains(k) && !u.contains(k) {
            u.push(k)
        } else {
            u
        }
    }
}

/// The error that checking a record's keys gives: missing keys first, then unexpected ones.
pub open spec fn key_check(m: RecordModel, req: Seq<Seq<char>>, opt: Seq<Seq<char>>) -> Option<ErrorView> {
    let missing = missing_keys(req, m.props);
    let unexpected = unexpected_keys(m.props, req + opt);
    if missing.len() > 0 {
        Some(ErrorView::MissingProperties { missing, etype: section_text(m.kind), id: m.qualified })
    } else if unexpected.len() > 0 {
        Some(ErrorView::UnexpectedProperties { unexpected, etype: section_text(m.kind), id: m.qualified })
    } else {
        None
    }
}

pub open spec fn strs_view(v: Seq<&str>) -> Seq<Seq<char>> {
    v.map_values(|s: &str| s@)
}

pub open spec fn opt_id_view(o: Option<Identifier>) -> Option<Seq<char>> {
    match o {
        Some(i) => Some(i@),
        None => None,
    }
}

/// A section read as a record whose keys have not been checked yet.
#[derive(Debug)]
pub struct UnverifiedRecord<'a> {
    pub section: EntitySection,
    pub name: String,
    pub variant: Option<Identifier>,
    pub properties: &'a Vec<(String, String)>,
    pub qualified_name: String,
}

impl<'a> UnverifiedRecord<'a> {
    pub open spec fn model(&self) -> RecordModel {
        RecordModel {
            kind: self.section,
            name: self.name@,
            variant: opt_id_view(self.variant),
            props: props_view(self.properties@),
            qualified: self.qualified_name@,
        }
    }

    /// The record of the general section.
    pub fn from_root(properties: &'a Vec<(String, String)>) -> (r: UnverifiedRecord<'a>)
        ensures
            r.model() == (RecordModel {
                kind: EntitySection::Root,
                name: Seq::empty(),
                variant: None,
                props: props_view(properties@),
                qualified: "Root"@,
            }),
            r.properties == properties,
    {
        let r = UnverifiedRecord {
            section: EntitySection::Root,
            name: String::new(),
            variant: None,
            properties,
            qualified_name: text::owned(EntitySection::Root.as_str()),
        };
        assert(r.name@ =~= Seq::<char>::empty());
        r
    }

    /// Reads the section named `input`, `Kind:name|variant`.
    pub fn try_new(input: &str, properties: &'a Vec<(String, String)>) -> (r: Result<UnverifiedRecord<'a>, Application>)
        ensures
            match record_of(input@, props_view(properties@)) {
                Ok(m) => r is Ok && r->Ok_0.model() == m && r->Ok_0.properties == properties,
                Err(e) => r is Err && r->Err_0@ == e,
            },
    {
        let (head, rest) = text::split_once_at(input, ':');
        let kind_text = text::trimmed(head.as_str());
        let section = match EntitySection::from_text(kind_text.as_str()) {
            Some(k) => k,
            None => {
                return Err(
                    Application::InvalidPropertyValue {
                        etype: text::owned("Not Found"),
                        value: text::owned(input),
                        field: text::owned("Section Name"),
                    },
                );
            },
        };
        let qualified_name = match rest {
            Some(r) => text::trimmed(r.as_str()),
            None => {
                let e = String::new();
                assert(e@ =~= trim(Seq::<char>::empty())) by {
                    assert(crate::text::trim_start_index(Seq::<char>::empty()) == 0);
                    assert(crate::text::trim_end_index(Seq::<char>::empty()) == 0);
                }
                e
            },
        };
        let (name, variant) = Self::title_str_and_variant_from_qualified(section.as_str(), qualified_name.as_str())?;
        Ok(UnverifiedRecord { section, name, variant, properties, qualified_name })
    }

    /// Splits a qualified name `name|variant` into the trimmed name and the variant.
    pub fn title_str_and_variant_from_qualified(section: &str, qualified_name: &str) -> (r: Result<
        (String, Option<Identifier>),
        Application,
    >)
        ensures
            match name_and_variant(section@, qualified_name@) {
                Ok(nv) => r is Ok && r->Ok_0.0@ == nv.0 && opt_id_view(r->Ok_0.1) == nv.1,
                Err(e) => r is Err && r->Err_0@ == e,
            },
    {
        let (n, v) = text::split_once_at(qualified_name, '|');
        let name = text::trimmed(n.as_str());
        match v {
            None => Ok((name, None)),
            Some(t) => {
                let t = text::trimmed(t.as_str());
                match Identifier::parse_text(t.as_str()) {
                    Ok(i) => Ok((name, Some(i))),
                    Err(source) => Err(
                        Application::ConversionFailed {
                            etype: text::owned(section),
                            property: text::owned("variant"),
                            source,
                        },
                    ),
                }
            },
        }
    }

    pub fn contains_key(&self, key: &str) -> (b: bool)
        ensures
            b == has_key(self.model().props, key@),
    {
        has_prop(self.properties, key)
    }

    /// Checks the keys: every required key must occur, and every key that occurs must
    /// be required or optional.
    pub fn into_record(self, required_props: &[&str], optional_props: &[&str]) -> (r: Result<Record<'a>, Application>)
        ensures
            match key_check(self.model(), strs_view(required_props@), strs_view(optional_props@)) {
                None => r is Ok && r->Ok_0.0 == self,
                Some(e) => r is Err && r->Err_0@ == e,
            },
    {
        let ghost req = strs_view(required_props@);
        let ghost opt = strs_view(optional_props@);
        let ghost p = self.model().props;
        let mut missing: Vec<String> = Vec::new();
        let mut i: usize = 0;
        while i < required_props.len()
            invariant
                req == strs_view(required_props@),
                p == props_view(self.properties@),
                i <= required_props@.len(),
                texts_view(missing@) == missing_keys(req.take(i as int), p),
            decreases required_props.len() - i,
        {
            let k = required_props[i];
            assert(req.take(i + 1).drop_last() == req.take(i as int));
            assert(req.take(i + 1).last() == k@);
            if !has_prop(self.properties, k) && !contains_text(&missing, k) {
                missing.push(text::owned(k));
                assert(texts_view(missing@) =~= texts_view(missing@).drop_last().push(k@));
            }
            i += 1;
        }
        assert(req.take(required_props@.len() as int) == req);
        let mut unexpected: Vec<String> = Vec::new();
        let mut j: usize = 0;
        while j < self.properties.len()
            invariant
                req == strs_view(required_props@),
                opt == strs_view(optional_props@),
                p == props_view(self.properties@),
                j <= self.properties@.len(),
                texts_view(unexpected@) == unexpected_keys(p.take(j as int), req + opt),
            decreases self.properties.len() - j,
        {
            let k = self.properties[j].0.as_str();
            assert(p.take(j + 1).drop_last() == p.take(j as int));
            assert(p.take(j + 1).last().0 == k@);
            let allowed = contains_str(required_props, k) || contains_str(optional_props, k);
            proof {
                if (req + opt).contains(k@) {
                    let x = choose|x: int| 0 <= x < (req + opt).len() && (req + opt)[x] == k@;
                    if x < req.len() {
                        assert(req[x] == k@);
                    } else {
                        assert(opt[x - req.len()] == k@);
                    }
                }
                if req.contains(k@) {
                    let x = choose|x: int| 0 <= x < req.len() && req[x] == k@;
                    assert((req + opt)[x] == k@);
                }
                if opt.contains(k@) {
                    let x = choose|x: int| 0 <= x < opt.len() && opt[x] == k@;
                    assert((req + opt)[req.len() + x] == k@);
                }
            }
            if !allowed && !contains_text(&unexpected, k) {
                unexpected.push(text::owned(k));
                assert(texts_view(unexpected@) =~= texts_view(unexpected@).drop_last().push(k@));
            }
            j += 1;
        }
        assert(p.take(self.properties@.len() as int) == p);
        if missing.len() > 0 {
            Err(
                Application::MissingProperties {
                    missing,
                    etype: text::owned(self.section.as_str()),
                    id: self.qualified_name,
                },
            )
        } else if unexpected.len() > 0 {
            Err(
                Application::UnexpectedProperties {
                    unexpected,
                    etype: text::owned(self.section.as_str()),
                    id: self.qualified_name,
                },
            )
        } else {
            Ok(Record(self))
        }
    }
}

/// The record of the general section.
pub open spec fn root_model(props: PropsModel) -> RecordModel {
    RecordModel { kind: EntitySection::Root, name: Seq::empty(), variant: None, props, qualified: "Root"@ }
}

/// The value of a property, or the empty text when it is missing.
pub open spec fn value_or_empty(o: Option<Seq<char>>) -> Seq<char> {
    match o {
        Some(v) => v,
        None => Seq::empty(),
    }
}

/// The conversion error of a record's property; the property is always reported as `name`.
pub open spec fn name_conversion<T: ParseText>(m: RecordModel, s: Seq<char>) -> ErrorView {
    ErrorView::ConversionFailed { etype: section_text(m.kind), property: "name"@, value: s, dtype: T::kind_name() }
}

/// The first entry that `T` does not accept, as the error of reading the list.
pub open spec fn list_error<T: ParseText>(m: RecordModel, entries: Seq<Seq<char>>) -> Option<ErrorView>
    decreases entries.len(),
{
    if entries.len() == 0 {
        None
    } else if !T::accepts(entries[0]) {
        Some(name_conversion::<T>(m, entries[0]))
    } else {
        list_error::<T>(m, entries.drop_first())
    }
}

pub proof fn lemma_list_error<T: ParseText>(m: RecordModel, entries: Seq<Seq<char>>)
    ensures
        list_error::<T>(m, entries) is None <==> forall|i: int| 0 <= i < entries.len() ==> T::accepts(#[trigger] entries[i]),
    decreases entries.len(),
{
    if entries.len() > 0 {
        lemma_list_error::<T>(m, entries.drop_first());
        assert forall|i: int| 1 <= i < entries.len() implies #[trigger] entries[i] == entries.drop_first()[i - 1] by {}
        if list_error::<T>(m, entries) is None {
            assert forall|i: int| 0 <= i < entries.len() implies T::accepts(#[trigger] entries[i]) by {
                if i > 0 {
                    assert(entries[i] == entries.drop_first()[i - 1]);
                }
            }
        }
    }
}

/// A record whose keys were checked.
#[derive(Debug)]
pub struct Record<'a>(pub UnverifiedRecord<'a>);

impl<'a> Record<'a> {
    pub open spec fn model(&self) -> RecordModel {
        self.0.model()
    }

    /// The checked record of the general section.
    pub fn from_root(properties: &'a Vec<(String, String)>, required_props: &[&str], optional_props: &[&str]) -> (r: Result<Record<'a>, Application>)
        ensures
            match key_check(root_model(props_view(properties@)), strs_view(required_props@), strs_view(optional_props@)) {
                None => r is Ok && r->Ok_0.model() == root_model(props_view(properties@)) && r->Ok_0.0.properties == properties,
                Some(e) => r is Err && r->Err_0@ == e,
            },
    {
        let unverified = UnverifiedRecord::from_root(properties);
        unverified.into_record(required_props, optional_props)
    }

    /// The entity name read as `T`.
    pub fn parse_name<T: ParseText>(&self) -> (r: Result<T, Application>)
        ensures
            r is Ok <==> T::accepts(self.model().name),
            r is Ok ==> T::reads_as(self.model().name, r->Ok_0),
            r is Err ==> r->Err_0@ == name_conversion::<T>(self.model(), self.model().name),
    {
        match T::parse_text(self.0.name.as_str()) {
            Ok(v) => Ok(v),
            Err(source) => Err(
                Application::ConversionFailed {
                    etype: text::owned(self.0.section.as_str()),
                    property: text::owned("name"),
                    source,
                },
            ),
        }
    }

    pub fn entity_type(&self) -> (r: &'static str)
        ensures
            r@ == section_text(self.model().kind),
    {
        self.0.section.as_str()
    }

    pub fn variant(&self) -> (r: &Option<Identifier>)
        ensures
            *r == self.0.variant,
    {
        &self.0.variant
    }

    pub fn qualified_name(&self) -> (r: &str)
        ensures
            r@ == self.model().qualified,
    {
        self.0.qualified_name.as_str()
    }

    /// The first value of a property.
    pub fn get(&self, prop: &str) -> (r: Option<&String>)
        ensures
            match prop_value(self.model().props, prop@) {
                Some(v) => r matches Some(s) && s@ == v,
                None => r is None,
            },
    {
        get_prop(self.0.properties, prop)
    }

    /// The first value of a property that must be there.
    pub fn require(&self, prop: &str) -> (r: Result<&String, Application>)
        ensures
            match prop_value(self.model().props, prop@) {
                Some(v) => r matches Ok(s) && s@ == v,
                None => r is Err && r->Err_0@ == (ErrorView::PropertyNotFound {
                    etype: section_text(self.model().kind),
                    property: prop@,
                    id: self.model().qualified,
                }),
            },
    {
        match self.get(prop) {
            Some(v) => Ok(v),
            None => Err(
                Application::PropertyNotFound {
                    etype: text::owned(self.0.section.as_str()),
                    property: text::owned(prop),
                    id: text::owned(self.0.qualified_name.as_str()),
                },
            ),
        }
    }

    /// The value of an optional property read as `T`.
    pub fn get_parsed<T: ParseText>(&self, prop: &str) -> (r: Result<Option<T>, Application>)
        ensures
            match prop_value(self.model().props, prop@) {
                None => r matches Ok(None),
                Some(s) => if T::accepts(s) {
                    r matches Ok(Some(v)) && T::reads_as(s, v)
                } else {
                    r is Err && r->Err_0@ == name_conversion::<T>(self.model(), s)
                },
            },
    {
        match self.get(prop) {
            None => Ok(None),
            Some(s) => match T::parse_text(s.as_str()) {
                Ok(v) => Ok(Some(v)),
                Err(source) => Err(
                    Application::ConversionFailed {
                        etype: text::owned(self.0.section.as_str()),
                        property: text::owned("name"),
                        source,
                    },
                ),
            },
        }
    }

    /// The value of a property that must be there, read as `T`.
    pub fn require_parsed<T: ParseText>(&self, prop: &str) -> (r: Result<T, Application>)
        ensures
            match prop_value(self.model().props, prop@) {
                None => r is Err && r->Err_0@ == (ErrorView::PropertyNotFound {
                    etype: section_text(self.model().kind),
                    property: prop@,
                    id: self.model().qualified,
                }),
                Some(s) => if T::accepts(s) {
                    r is Ok && T::reads_as(s, r->Ok_0)
                } else {
                    r is Err && r->Err_0@ == name_conversion::<T>(self.model(), s)
                },
            },
    {
        let s = self.require(prop)?;
        match T::parse_text(s.as_str()) {
            Ok(v) => Ok(v),
            Err(source) => Err(
                Application::ConversionFailed {
                    etype: text::owned(self.0.section.as_str()),
                    property: text::owned("name"),
                    source,
                },
            ),
        }
    }

    /// The entries of a comma separated property; none when it is missing.
    pub fn get_list(&self, prop: &str) -> (r: Vec<String>)
        ensures
            texts_view(r@) == list_entries(value_or_empty(prop_value(self.model().props, prop@))),
    {
        match self.get(prop) {
            Some(v) => text::list_values(v.as_str()),
            None => {
                proof {
                    reveal_strlit("");
                }
                text::list_values("")
            },
        }
    }

    /// The entries of a comma separated property, each read as `T`; the first entry
    /// that does not read gives the error.
    pub fn get_list_parsed<T: ParseText>(&self, prop: &str) -> (r: Result<Vec<T>, Application>)
        ensures
            ({
                let entries = list_entries(value_or_empty(prop_value(self.model().props, prop@)));
                match list_error::<T>(self.model(), entries) {
                    None => r is Ok && r->Ok_0@.len() == entries.len() && forall|i: int|
                        0 <= i < entries.len() ==> T::reads_as(entries[i], #[trigger] r->Ok_0@[i]),
                    Some(e) => r is Err && r->Err_0@ == e,
                }
            }),
    {
        let list = self.get_list(prop);
        let ghost entries = texts_view(list@);
        let mut out: Vec<T> = Vec::new();
        let mut i: usize = 0;
        assert(entries.skip(0) == entries);
        while i < list.len()
            invariant
                entries == texts_view(list@),
                entries == list_entries(value_or_empty(prop_value(self.model().props, prop@))),
                i <= list@.len(),
                out@.len() == i,
                forall|j: int| 0 <= j < i ==> T::reads_as(entries[j], #[trigger] out@[j]),
                list_error::<T>(self.model(), entries) == list_error::<T>(self.model(), entries.skip(i as int)),
            decreases list.len() - i,
        {
            assert(entries.skip(i as int).drop_first() == entries.skip(i + 1));
            assert(entries.skip(i as int)[0] == list@[i as int]@);
            match T::parse_text(list[i].as_str()) {
                Ok(v) => {
                    out.push(v);
                },
                Err(source) => {
                    assert(entries.skip(i as int).len() > 0);
                    assert(list_error::<T>(self.model(), entries.skip(i as int)) == Some(
                        name_conversion::<T>(self.model(), entries[i as int]),
                    ));
                    let e = Application::ConversionFailed {
                        etype: text::owned(self.0.section.as_str()),
                        property: text::owned("name"),
                        source,
                    };
                    assert(e@ == name_conversion::<T>(self.model(), entries[i as int]));
                    return Err(e);
                },
            }
            i += 1;
        }
        Ok(out)
    }

    /// The entries of a comma separated property that must be there.
    pub fn require_list(&self, prop: &str) -> (r: Result<Vec<String>, Application>)
        ensures
            match prop_value(self.model().props, prop@) {
                Some(v) => r is Ok && texts_view(r->Ok_0@) == list_entries(v),
                None => r is Err && r->Err_0@ == (ErrorView::PropertyNotFound {
                    etype: section_text(self.model().kind),
                    property: prop@,
                    id: self.model().qualified,
                }),
            },
    {
        let v = self.require(prop)?;
        Ok(text::list_values(v.as_str()))
    }

    /// Reads `Name|variant`: the name as a `Title`, the variant as an `Identifier`.
    pub fn parse_qualified_name(&self, qualified_name: &str) -> (r: Result<(Title, Option<Identifier>), Application>)
        ensures
            match qualified_room(self.model(), qualified_name@) {
                Ok(nv) => r is Ok && r->Ok_0.0@ == nv.0 && opt_id_view(r->Ok_0.1) == nv.1,
                Err(e) => r is Err && r->Err_0@ == e,
            },
    {
        let (name, variant) = UnverifiedRecord::title_str_and_variant_from_qualified(self.0.section.as_str(), qualified_name)?;
        match Title::parse_text(name.as_str()) {
            Ok(t) => Ok((t, variant)),
            Err(source) => Err(
                Application::ConversionFailed {
                    etype: text::owned(self.0.section.as_str()),
                    property: text::owned("name"),
                    source,
                },
            ),
        }
    }
}

/// A qualified room name `Name|variant` read in a record: the title and the variant.
pub open spec fn qualified_room(m: RecordModel, q: Seq<char>) -> Result<(Seq<char>, Option<Seq<char>>), ErrorView> {
    match name_and_variant(section_text(m.kind), q) {
        Err(e) => Err(e),
        Ok(nv) => if Title::accepts(nv.0) {
            Ok((crate::names::title_case_of(nv.0), nv.1))
        } else {
            Err(name_conversion::<Title>(m, nv.0))
        },
    }
}

/// Whether `v` holds the text `k`.
fn contains_text(v: &Vec<String>, k: &str) -> (b: bool)
    ensures
        b == texts_view(v@).contains(k@),
{
    let mut i: usize = 0;
    while i < v.len()
        invariant
            i <= v@.len(),
            forall|j: int| 0 <= j < i ==> v@[j]@ != k@,
        decreases v.len() - i,
    {
        if text::same_text(v[i].as_str(), k) {
            assert(texts_view(v@)[i as int] == k@);
            return true;
        }
        i += 1;
    }
    proof {
        if texts_view(v@).contains(k@) {
            let x = choose|x: int| 0 <= x < texts_view(v@).len() && texts_view(v@)[x] == k@;
            assert(v@[x]@ == k@);
        }
    }
    false
}

/// Whether `v` holds the text `k`.
fn contains_str(v: &[&str], k: &str) -> (b: bool)
    ensures
        b == strs_view(v@).contains(k@),
{
    let mut i: usize = 0;
    while i < v.len()
        invariant
            i <= v@.len(),
            forall|j: int| 0 <= j < i ==> v@[j]@ != k@,
        decreases v.len() - i,
    {
        if text::same_text(v[i], k) {
            assert(strs_view(v@)[i as int] == k@);
            return true;
        }
        i += 1;
    }
    proof {
        if strs_view(v@).contains(k@) {
            let x = choose|x: int| 0 <= x < strs_view(v@).len() && strs_view(v@)[x] == k@;
            assert(v@[x]@ == k@);
        }
    }
    false
}

} // verus!

verus! {

/// The error for a property that a record lacks.
pub open spec fn property_not_found(m: RecordModel, prop: Seq<char>) -> ErrorView {
    ErrorView::PropertyNotFound { etype: section_text(m.kind), property: prop, id: m.qualified }
}

/// A property that must be there.
pub open spec fn required_value(m: RecordModel, prop: Seq<char>) -> Result<Seq<char>, ErrorView> {
    match prop_value(m.props, prop) {
        Some(v) => Ok(v),
        None => Err(property_not_found(m, prop)),
    }
}

/// A property that must be there, read as an `Identifier`.
pub open spec fn required_id(m: RecordModel, prop: Seq<char>) -> Result<Seq<char>, ErrorView> {
    match prop_value(m.props, prop) {
        None => Err(property_not_found(m, prop)),
        Some(s) => if Identifier::accepts(s) {
            Ok(crate::names::snake_case_of(s))
        } else {
            Err(name_conversion::<Identifier>(m, s))
        },
    }
}

/// A property that must be there, read as a `Title`.
pub open spec fn required_title(m: RecordModel, prop: Seq<char>) -> Result<Seq<char>, ErrorView> {
    match prop_value(m.props, prop) {
        None => Err(property_not_found(m, prop)),
        Some(s) => if Title::accepts(s) {
            Ok(crate::names::title_case_of(s))
        } else {
            Err(name_conversion::<Title>(m, s))
        },
    }
}

/// An optional property read as an `Identifier`.
pub open spec fn optional_id(m: RecordModel, prop: Seq<char>) -> Result<Option<Seq<char>>, ErrorView> {
    match prop_value(m.props, prop) {
        None => Ok(None),
        Some(s) => if Identifier::accepts(s) {
            Ok(Some(crate::names::snake_case_of(s)))
        } else {
            Err(name_conversion::<Identifier>(m, s))
        },
    }
}

/// The record's entity name read as an `Identifier`.
pub open spec fn id_name(m: RecordModel) -> Result<Seq<char>, ErrorView> {
    if Identifier::accepts(m.name) {
        Ok(crate::names::snake_case_of(m.name))
    } else {
        Err(name_conversion::<Identifier>(m, m.name))
    }
}

/// The record's entity name read as a `Title`.
pub open spec fn title_name(m: RecordModel) -> Result<Seq<char>, ErrorView> {
    if Title::accepts(m.name) {
        Ok(crate::names::title_case_of(m.name))
    } else {
        Err(name_conversion::<Title>(m, m.name))
    }
}

/// The entries of a list property, read as identifiers.
pub open spec fn id_list(m: RecordModel, prop: Seq<char>) -> Result<Seq<Seq<char>>, ErrorView> {
    let entries = list_entries(value_or_empty(prop_value(m.props, prop)));
    match list_error::<Identifier>(m, entries) {
        Some(e) => Err(e),
        None => Ok(entries.map_values(|s: Seq<char>| crate::names::snake_case_of(s))),
    }
}

/// The entries of a list property, read as titles.
pub open spec fn title_list(m: RecordModel, prop: Seq<char>) -> Result<Seq<Seq<char>>, ErrorView> {
    let entries = list_entries(value_or_empty(prop_value(m.props, prop)));
    match list_error::<Title>(m, entries) {
        Some(e) => Err(e),
        None => Ok(entries.map_values(|s: Seq<char>| crate::names::title_case_of(s))),
    }
}

pub open spec fn ids_view(v: Seq<Identifier>) -> Seq<Seq<char>> {
    v.map_values(|i: Identifier| i@)
}

pub open spec fn titles_view(v: Seq<Title>) -> Seq<Seq<char>> {
    v.map_values(|t: Title| t@)
}

/// Reads a list property as identifiers.
pub fn id_list_of(rec: &Record, prop: &str) -> (r: Result<Vec<Identifier>, Application>)
    ensures
        match id_list(rec.model(), prop@) {
            Ok(s) => r is Ok && ids_view(r->Ok_0@) == s,
            Err(e) => r is Err && r->Err_0@ == e,
        },
{
    let v = rec.get_list_parsed::<Identifier>(prop)?;
    let ghost entries = list_entries(value_or_empty(prop_value(rec.model().props, prop@)));
    assert(ids_view(v@) =~= entries.map_values(|s: Seq<char>| crate::names::snake_case_of(s)));
    Ok(v)
}

/// Reads a list property as titles.
pub fn title_list_of(rec: &Record, prop: &str) -> (r: Result<Vec<Title>, Application>)
    ensures
        match title_list(rec.model(), prop@) {
            Ok(s) => r is Ok && titles_view(r->Ok_0@) == s,
            Err(e) => r is Err && r->Err_0@ == e,
        },
{
    let v = rec.get_list_parsed::<Title>(prop)?;
    let ghost entries = list_entries(value_or_empty(prop_value(rec.model().props, prop@)));
    assert(titles_view(v@) =~= entries.map_values(|s: Seq<char>| crate::names::title_case_of(s)));
    Ok(v)
}

} // verus!
