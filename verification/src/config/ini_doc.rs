//! Ini documents, as the `ini` crate reads them: sections in order, each with its
//! properties in order.

use ini::Ini;
use vstd::prelude::*;

use crate::exits::{inserted, key_position, lemma_key_position, lemma_key_position_is};
use crate::text;

verus! {

/// Properties as text: key and value, in the order they were written.
pub type PropsModel = Seq<(Seq<char>, Seq<char>)>;

/// Sections as text: the name (`None` for the general section) and the properties.
pub type IniModel = Seq<(Option<Seq<char>>, PropsModel)>;

/// What the `ini` crate reads from a text (with its default options): the sections, or
/// the message of the error it reports.
pub uninterp spec fn ini_read(text: Seq<char>) -> Result<IniModel, Seq<char>>;

/// One section of an ini document.
#[derive(Debug)]
pub struct IniSection {
    pub name: Option<String>,
    pub properties: Vec<(String, String)>,
}

pub open spec fn props_view(p: Seq<(String, String)>) -> PropsModel {
    p.map_values(|kv: (String, String)| (kv.0@, kv.1@))
}

pub open spec fn opt_text_view(o: Option<String>) -> Option<Seq<char>> {
    match o {
        Some(s) => Some(s@),
        None => None,
    }
}

impl View for IniSection {
    type V = (Option<Seq<char>>, PropsModel);

    open spec fn view(&self) -> (Option<Seq<char>>, PropsModel) {
        (opt_text_view(self.name), props_view(self.properties@))
    }
}

/// An ini document: its sections in order; the general section comes first.
#[derive(Debug)]
pub struct IniDoc {
    pub sections: Vec<IniSection>,
}

impl View for IniDoc {
    type V = IniModel;

    open spec fn view(&self) -> IniModel {
        self.sections@.map_values(|s: IniSection| s@)
    }
}

/// The first value of key `k` (`Properties::get`).
pub open spec fn prop_value(p: PropsModel, k: Seq<char>) -> Option<Seq<char>> {
    let i = key_position(p, k);
    if i < 0 {
        None
    } else {
        Some(p[i].1)
    }
}

/// Whether key `k` occurs (`Properties::contains_key`).
pub open spec fn has_key(p: PropsModel, k: Seq<char>) -> bool {
    exists|i: int| 0 <= i < p.len() && #[trigger] p[i].0 == k
}

pub proof fn lemma_prop_value(p: PropsModel, k: Seq<char>)
    ensures
        prop_value(p, k) is Some <==> has_key(p, k),
{
    lemma_key_position(p, k);
    if has_key(p, k) {
        let i = choose|i: int| 0 <= i < p.len() && #[trigger] p[i].0 == k;
        assert(p[i].0 == k);
    }
    if key_position(p, k) >= 0 {
        assert(p[key_position(p, k)].0 == k);
    }
}

/// The properties of the first section with the given name (`Ini::section`).
pub open spec fn section_props(d: IniModel, name: Option<Seq<char>>) -> Option<PropsModel> {
    let i = key_position(d, name);
    if i < 0 {
        None
    } else {
        Some(d[i].1)
    }
}

/// `d` after setting `k` to `v` in the first section named `name` (`Ini::set_to`): an
/// existing key keeps its place, a new key goes last, and a missing section is added last.
pub open spec fn set_in(d: IniModel, name: Option<Seq<char>>, k: Seq<char>, v: Seq<char>) -> IniModel {
    let i = key_position(d, name);
    if i < 0 {
        d.push((name, seq![(k, v)]))
    } else {
        d.update(i, (name, inserted(d[i].1, k, v)))
    }
}

/// `Ini::load_from_str` of the `ini` crate, its sections and properties copied out in
/// the order the crate iterates them. The crate creates the general section before
/// reading, so it comes first; beyond that, what is read is named, not described.
#[verifier::external_body]
pub(crate) fn load_ini(text: &str) -> (r: Result<IniDoc, String>)
    ensures
        r is Ok ==> ini_read(text@) == Ok::<IniModel, Seq<char>>(r->Ok_0@),
        r is Ok ==> r->Ok_0@.len() >= 1 && r->Ok_0@[0].0 is None,
        r is Err ==> ini_read(text@) == Err::<IniModel, Seq<char>>(r->Err_0@),
{
    match Ini::load_from_str(text) {
        Ok(ini) => Ok(IniDoc {
            sections: ini.iter().map(|(name, props)| IniSection {
                name: name.map(|n| n.to_string()),
                properties: props.iter().map(|(k, v)| (k.to_string(), v.to_string())).collect(),
            }).collect(),
        }),
        Err(e) => Err(e.to_string()),
    }
}

/// The first value of key `k`.
pub fn get_prop<'a>(props: &'a Vec<(String, String)>, k: &str) -> (r: Option<&'a String>)
    ensures
        match prop_value(props_view(props@), k@) {
            Some(v) => r matches Some(s) && s@ == v,
            None => r is None,
        },
{
    let ghost p = props_view(props@);
    let mut i: usize = 0;
    while i < props.len()
        invariant
            p == props_view(props@),
            i <= props@.len(),
            forall|j: int| 0 <= j < i ==> #[trigger] p[j].0 != k@,
        decreases props.len() - i,
    {
        if text::same_text(props[i].0.as_str(), k) {
            proof {
                lemma_key_position_is(p, k@, i as int);
            }
            return Some(&props[i].1);
        }
        i += 1;
    }
    proof {
        lemma_key_position_is(p, k@, -1);
    }
    None
}

pub fn has_prop(props: &Vec<(String, String)>, k: &str) -> (b: bool)
    ensures
        b == has_key(props_view(props@), k@),
{
    proof {
        lemma_prop_value(props_view(props@), k@);
    }
    get_prop(props, k).is_some()
}

/// Whether a section name is the wanted one (`None` for the general section).
fn same_section_name(a: &Option<String>, b: Option<&str>) -> (r: bool)
    ensures
        r == (opt_text_view(*a) == opt_str_view(b)),
{
    match (a, b) {
        (None, None) => true,
        (Some(x), Some(y)) => text::same_text(x.as_str(), y),
        _ => false,
    }
}

impl IniDoc {
    /// A document with only an empty general section (`Ini::new`).
    pub fn new() -> (d: IniDoc)
        ensures
            d@ == seq![(None::<Seq<char>>, Seq::<(Seq<char>, Seq<char>)>::empty())],
    {
        let mut sections = Vec::new();
        sections.push(IniSection { name: None, properties: Vec::new() });
        let d = IniDoc { sections };
        assert(d@.len() == 1);
        assert(d@[0] == d.sections@[0]@);
        assert(props_view(Seq::<(String, String)>::empty()) =~= Seq::<(Seq<char>, Seq<char>)>::empty());
        assert(d@ =~= seq![(None::<Seq<char>>, Seq::<(Seq<char>, Seq<char>)>::empty())]);
        d
    }

    /// Reads a document from text (`Ini::load_from_str`).
    pub fn load_from_str(text: &str) -> (r: Result<IniDoc, String>)
        ensures
            r is Ok ==> ini_read(text@) == Ok::<IniModel, Seq<char>>(r->Ok_0@) && r->Ok_0@.len() >= 1
                && r->Ok_0@[0].0 is None,
            r is Err ==> ini_read(text@) == Err::<IniModel, Seq<char>>(r->Err_0@),
    {
        load_ini(text)
    }

    /// The properties of the first section with the given name.
    pub fn section(&self, name: Option<&str>) -> (r: Option<&Vec<(String, String)>>)
        ensures
            match section_props(self@, opt_str_view(name)) {
                Some(p) => r matches Some(q) && props_view(q@) == p,
                None => r is None,
            },
    {
        let mut i: usize = 0;
        while i < self.sections.len()
            invariant
                i <= self@.len(),
                self@.len() == self.sections@.len(),
                forall|j: int| 0 <= j < i ==> #[trigger] self@[j].0 != opt_str_view(name),
            decreases self.sections.len() - i,
        {
            assert(self@[i as int] == self.sections@[i as int]@);
            if same_section_name(&self.sections[i].name, name) {
                proof {
                    lemma_key_position_is(self@, opt_str_view(name), i as int);
                }
                return Some(&self.sections[i].properties);
            }
            i += 1;
        }
        proof {
            lemma_key_position_is(self@, opt_str_view(name), -1);
        }
        None
    }

    /// The position of the first section with the given name, or the number of sections.
    fn position(&self, name: Option<&str>) -> (i: usize)
        ensures
            i <= self@.len(),
            i < self@.len() ==> self@[i as int].0 == opt_str_view(name),
            forall|j: int| 0 <= j < i ==> #[trigger] self@[j].0 != opt_str_view(name),
    {
        let mut i: usize = 0;
        while i < self.sections.len()
            invariant
                i <= self@.len(),
                self@.len() == self.sections@.len(),
                forall|j: int| 0 <= j < i ==> #[trigger] self@[j].0 != opt_str_view(name),
            decreases self.sections.len() - i,
        {
            assert(self@[i as int] == self.sections@[i as int]@);
            if same_section_name(&self.sections[i].name, name) {
                return i;
            }
            i += 1;
        }
        i
    }

    /// Sets `key` to `value` in the first section with the given name (`Ini::set_to`).
    pub fn set_to(&mut self, name: Option<&str>, key: String, value: String)
        ensures
            final(self)@ == set_in(old(self)@, opt_str_view(name), key@, value@),
    {
        let ghost d = self@;
        let ghost n = opt_str_view(name);
        let i = self.position(name);
        let ghost found = i < self.sections.len();
        proof {
            if found {
                lemma_key_position_is(d, n, i as int);
            } else {
                lemma_key_position_is(d, n, -1);
            }
        }
        if i == self.sections.len() {
            let nm = match name {
                Some(b) => Some(text::owned(b)),
                None => None,
            };
            self.sections.push(IniSection { name: nm, properties: Vec::new() });
        }
        let mut section = self.sections.remove(i);
        let ghost p = props_view(section.properties@);
        assert(found ==> p == d[i as int].1);
        assert(!found ==> p =~= Seq::<(Seq<char>, Seq<char>)>::empty());
        let mut k: usize = 0;
        while k < section.properties.len() && !text::same_text(section.properties[k].0.as_str(), key.as_str())
            invariant
                p == props_view(section.properties@),
                k <= section.properties@.len(),
                forall|j: int| 0 <= j < k ==> #[trigger] p[j].0 != key@,
            decreases section.properties.len() - k,
        {
            k += 1;
        }
        let ghost kfound = k < section.properties.len();
        proof {
            if kfound {
                lemma_key_position_is(p, key@, k as int);
            } else {
                lemma_key_position_is(p, key@, -1);
            }
        }
        let ghost kv = (key@, value@);
        if k < section.properties.len() {
            section.properties.set(k, (key, value));
            assert(props_view(section.properties@) =~= p.update(k as int, kv));
        } else {
            section.properties.push((key, value));
            assert(props_view(section.properties@) =~= p.push(kv));
        }
        assert(props_view(section.properties@) == inserted(p, key@, value@));
        self.sections.insert(i, section);
        proof {
            if found {
                assert(self@ =~= set_in(d, n, key@, value@));
            } else {
                assert(self@ =~= set_in(d, n, key@, value@));
            }
        }
    }
}

pub open spec fn opt_str_view(o: Option<&str>) -> Option<Seq<char>> {
    match o {
        Some(s) => Some(s@),
        None => None,
    }
}

} // verus!
