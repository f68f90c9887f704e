//! The manifest store: a project's metadata document as a map from key to value.
//!
//! Reading and writing the JSON file is the caller's; this module holds the document's
//! fields and the rules for changing them.
use vstd::prelude::*;
use vstd::string::*;
use crate::text::text_eq;

verus! {

/// One manifest value.
#[derive(Debug, PartialEq, Eq)]
pub enum FieldValue {
    /// JSON `null`.
    Null,
    /// A JSON string.
    Text(String),
    /// A JSON number, as its decimal text.
    Number(String),
    /// Any other JSON value, as its JSON text.
    Other(String),
}

/// A `FieldValue` with its text as a character sequence.
pub enum FieldView {
    Null,
    Text(Seq<char>),
    Number(Seq<char>),
    Other(Seq<char>),
}

impl View for FieldValue {
    type V = FieldView;

    open spec fn view(&self) -> FieldView {
        match self {
            FieldValue::Null => FieldView::Null,
            FieldValue::Text(s) => FieldView::Text(s@),
            FieldValue::Number(s) => FieldView::Number(s@),
            FieldValue::Other(s) => FieldView::Other(s@),
        }
    }
}

/// An owned copy of a value.
pub fn copy_field(v: &FieldValue) -> (r: FieldValue)
    ensures
        r@ == v@,
{
    match v {
        FieldValue::Null => FieldValue::Null,
        FieldValue::Text(s) => FieldValue::Text(String::from_str(s.as_str())),
        FieldValue::Number(s) => FieldValue::Number(String::from_str(s.as_str())),
        FieldValue::Other(s) => FieldValue::Other(String::from_str(s.as_str())),
    }
}

/// The value of the first field named `k`.
pub open spec fn lookup(s: Seq<(Seq<char>, FieldView)>, k: Seq<char>) -> Option<FieldView>
    decreases s.len(),
{
    if s.len() == 0 {
        None
    } else if s[0].0 == k {
        Some(s[0].1)
    } else {
        lookup(s.drop_first(), k)
    }
}

/// The map that a list of fields denotes, the first field of a name winning.
pub open spec fn fields_map(s: Seq<(Seq<char>, FieldView)>) -> Map<Seq<char>, FieldView> {
    Map::new(|k: Seq<char>| lookup(s, k) is Some, |k: Seq<char>| lookup(s, k)->Some_0)
}

proof fn lemma_lookup_none(s: Seq<(Seq<char>, FieldView)>, k: Seq<char>)
    requires
        forall|j: int| 0 <= j < s.len() ==> s[j].0 != k,
    ensures
        lookup(s, k) is None,
    decreases s.len(),
{
    if s.len() > 0 {
        assert(s[0].0 != k);
        assert forall|j: int| 0 <= j < s.drop_first().len() implies s.drop_first()[j].0 != k by {
            assert(s.drop_first()[j] == s[j + 1]);
        }
        lemma_lookup_none(s.drop_first(), k);
    }
}

proof fn lemma_lookup_first(s: Seq<(Seq<char>, FieldView)>, k: Seq<char>, i: int)
    requires
        0 <= i < s.len(),
        s[i].0 == k,
        forall|j: int| 0 <= j < i ==> s[j].0 != k,
    ensures
        lookup(s, k) == Some(s[i].1),
    decreases s.len(),
{
    if i > 0 {
        assert forall|j: int| 0 <= j < i - 1 implies s.drop_first()[j].0 != k by {
            assert(s.drop_first()[j] == s[j + 1]);
        }
        lemma_lookup_first(s.drop_first(), k, i - 1);
    }
}

proof fn lemma_lookup_push(s: Seq<(Seq<char>, FieldView)>, k: Seq<char>, v: FieldView, k2: Seq<char>)
    requires
        lookup(s, k) is None,
    ensures
        lookup(s.push((k, v)), k2) == (if k2 == k { Some(v) } else { lookup(s, k2) }),
    decreases s.len(),
{
    if s.len() == 0 {
        assert(s.push((k, v)).drop_first() =~= Seq::<(Seq<char>, FieldView)>::empty());
    } else {
        assert(s.push((k, v)).drop_first() =~= s.drop_first().push((k, v)));
        lemma_lookup_push(s.drop_first(), k, v, k2);
    }
}

proof fn lemma_lookup_update(s: Seq<(Seq<char>, FieldView)>, i: int, k: Seq<char>, v: FieldView, k2: Seq<char>)
    requires
        0 <= i < s.len(),
        s[i].0 == k,
        forall|j: int| 0 <= j < i ==> s[j].0 != k,
    ensures
        lookup(s.update(i, (k, v)), k2) == (if k2 == k { Some(v) } else { lookup(s, k2) }),
    decreases s.len(),
{
    let t = s.update(i, (k, v));
    if i == 0 {
        assert(t.drop_first() =~= s.drop_first());
    } else {
        assert(t.drop_first() =~= s.drop_first().update(i - 1, (k, v)));
        assert forall|j: int| 0 <= j < i - 1 implies s.drop_first()[j].0 != k by {
            assert(s.drop_first()[j] == s[j + 1]);
        }
        lemma_lookup_update(s.drop_first(), i - 1, k, v, k2);
    }
}

/// A project's manifest document.
#[derive(Debug)]
pub struct Manifest {
    fields: Vec<(String, FieldValue)>,
}

/// No key names two fields.
pub open spec fn keys_unique(s: Seq<(Seq<char>, FieldView)>) -> bool {
    forall|i: int, j: int| 0 <= i < j < s.len() ==> s[i].0 != s[j].0
}

impl Manifest {
    /// The fields in order, as character sequences.
    pub closed spec fn fields_view(&self) -> Seq<(Seq<char>, FieldView)> {
        self.fields@.map_values(|p: (String, FieldValue)| (p.0@, p.1@))
    }

    /// Each key is stored once.
    pub closed spec fn wf(&self) -> bool {
        keys_unique(self.fields_view())
    }
}

impl View for Manifest {
    type V = Map<Seq<char>, FieldView>;

    closed spec fn view(&self) -> Map<Seq<char>, FieldView> {
        fields_map(self.fields_view())
    }
}

/// `completion`
pub open spec fn completion_key() -> Seq<char> {
    seq!['c', 'o', 'm', 'p', 'l', 'e', 't', 'i', 'o', 'n']
}

/// The value that setting `key` to the text `value` stores: a number for `completion` when
/// the text reads as one, else the text itself.
pub open spec fn set_value_spec(key: Seq<char>, value: Seq<char>, numeric: bool) -> FieldView {
    if key == completion_key() && numeric {
        FieldView::Number(value)
    } else {
        FieldView::Text(value)
    }
}

/// Whether flag `i` of `numeric` is given and set.
pub open spec fn flag_at(numeric: Seq<bool>, i: int) -> bool {
    0 <= i < numeric.len() && numeric[i]
}

/// The document after setting each pair of `vars` in turn; `numeric[i]` says whether the
/// value of pair `i` reads as a number (a missing flag means it does not).
pub open spec fn set_vars_spec(
    m: Map<Seq<char>, FieldView>,
    vars: Seq<(Seq<char>, Seq<char>)>,
    numeric: Seq<bool>,
) -> Map<Seq<char>, FieldView>
    decreases vars.len(),
{
    if vars.len() == 0 {
        m
    } else {
        let last = vars.last();
        set_vars_spec(m, vars.drop_last(), numeric).insert(
            last.0,
            set_value_spec(last.0, last.1, flag_at(numeric, vars.len() - 1)),
        )
    }
}

/// The document after setting each pair of `vars` as text, in turn.
pub open spec fn text_vars_spec(m: Map<Seq<char>, FieldView>, vars: Seq<(Seq<char>, Seq<char>)>) -> Map<Seq<char>, FieldView>
    decreases vars.len(),
{
    if vars.len() == 0 {
        m
    } else {
        text_vars_spec(m, vars.drop_last()).insert(vars.last().0, FieldView::Text(vars.last().1))
    }
}

/// The views of a list of key/value pairs.
pub open spec fn pair_views(v: Seq<(String, String)>) -> Seq<(Seq<char>, Seq<char>)> {
    v.map_values(|p: (String, String)| (p.0@, p.1@))
}

/// The default document of a new project named `name`.
pub open spec fn default_manifest_spec(name: Seq<char>) -> Map<Seq<char>, FieldView> {
    map![
        seq!['n', 'a', 'm', 'e'] => FieldView::Text(name),
        seq!['v', 'e', 'r', 's', 'i', 'o', 'n'] => FieldView::Text(seq!['0', '.', '1', '.', '0']),
        seq!['d', 'e', 's', 'c', 'r', 'i', 'p', 't', 'i', 'o', 'n'] => FieldView::Text(
            seq!['N', 'e', 'w', ' ', 'p', 'r', 'o', 'j', 'e', 'c', 't'],
        ),
        seq!['t', 'e', 'm', 'p', 'l', 'a', 't', 'e'] => FieldView::Null,
        seq!['s', 't', 'a', 't', 'u', 's'] => FieldView::Text(seq!['a', 'c', 't', 'i', 'v', 'e']),
        completion_key() => FieldView::Number(seq!['0', '.', '0']),
    ]
}

/// The document that a clone synthesizes for a project without one.
pub open spec fn synthesized_manifest_spec(
    name: Seq<char>,
    template: Option<Seq<char>>,
    description: Seq<char>,
    version: Seq<char>,
) -> Map<Seq<char>, FieldView> {
    map![
        seq!['n', 'a', 'm', 'e'] => FieldView::Text(name),
        seq!['t', 'e', 'm', 'p', 'l', 'a', 't', 'e'] => match template {
            Some(t) => FieldView::Text(t),
            None => FieldView::Null,
        },
        seq!['d', 'e', 's', 'c', 'r', 'i', 'p', 't', 'i', 'o', 'n'] => FieldView::Text(description),
        seq!['v', 'e', 'r', 's', 'i', 'o', 'n'] => FieldView::Text(version),
        completion_key() => FieldView::Number(seq!['1', '.', '0']),
        seq!['s', 't', 'a', 't', 'u', 's'] => FieldView::Text(seq!['a', 'c', 't', 'i', 'v', 'e']),
    ]
}

impl Manifest {
    /// An empty document.
    pub fn new() -> (r: Manifest)
        ensures
            r.wf(),
            r@ == Map::<Seq<char>, FieldView>::empty(),
    {
        let r = Manifest { fields: Vec::new() };
        assert(r.fields_view() =~= Seq::<(Seq<char>, FieldView)>::empty());
        assert(r@ =~= Map::<Seq<char>, FieldView>::empty());
        r
    }

    /// The position of the first field named `key`.
    fn position(&self, key: &str) -> (r: Option<usize>)
        ensures
            match r {
                Some(i) => i < self.fields_view().len() && self.fields_view()[i as int].0 == key@
                    && forall|j: int| 0 <= j < i ==> self.fields_view()[j].0 != key@,
                None => forall|j: int| 0 <= j < self.fields_view().len() ==> self.fields_view()[j].0 != key@,
            },
    {
        let mut i: usize = 0;
        while i < self.fields.len()
            invariant
                i <= self.fields@.len(),
                self.fields_view().len() == self.fields@.len(),
                forall|j: int| 0 <= j < i ==> self.fields_view()[j].0 != key@,
            decreases self.fields@.len() - i,
        {
            assert(self.fields_view()[i as int].0 == self.fields@[i as int].0@);
            if text_eq(self.fields[i].0.as_str(), key) {
                return Some(i);
            }
            i = i + 1;
        }
        None
    }

    /// The value stored under `key`.
    pub fn get(&self, key: &str) -> (r: Option<&FieldValue>)
        ensures
            match r {
                Some(v) => self@.contains_key(key@) && self@[key@] == v@,
                None => !self@.contains_key(key@),
            },
    {
        match self.position(key) {
            Some(i) => {
                proof {
                    lemma_lookup_first(self.fields_view(), key@, i as int);
                }
                Some(&self.fields[i].1)
            },
            None => {
                proof {
                    lemma_lookup_none(self.fields_view(), key@);
                }
                None
            },
        }
    }

    /// Stores `value` under `key`, replacing what was there.
    pub fn set(&mut self, key: &str, value: FieldValue)
        requires
            old(self).wf(),
        ensures
            final(self).wf(),
            final(self)@ == old(self)@.insert(key@, value@),
    {
        let ghost s = self.fields_view();
        let ghost v = value@;
        match self.position(key) {
            Some(i) => {
                let k = String::from_str(key);
                self.fields.set(i, (k, value));
                proof {
                    assert(self.fields_view() =~= s.update(i as int, (key@, v)));
                    assert(keys_unique(self.fields_view()));
                    assert forall|k2: Seq<char>| #[trigger] lookup(self.fields_view(), k2)
                        == (if k2 == key@ { Some(v) } else { lookup(s, k2) }) by {
                        lemma_lookup_update(s, i as int, key@, v, k2);
                    }
                }
            },
            None => {
                let k = String::from_str(key);
                self.fields.push((k, value));
                proof {
                    lemma_lookup_none(s, key@);
                    assert(self.fields_view() =~= s.push((key@, v)));
                    assert(keys_unique(self.fields_view()));
                    assert forall|k2: Seq<char>| #[trigger] lookup(self.fields_view(), k2)
                        == (if k2 == key@ { Some(v) } else { lookup(s, k2) }) by {
                        lemma_lookup_push(s, key@, v, k2);
                    }
                }
            },
        }
        assert(self@ =~= old(self)@.insert(key@, v));
    }

    /// Sets `key` from the command-line text `value`: a number for `completion` when
    /// `numeric` says the text reads as one, else the text.
    pub fn set_var(&mut self, key: &str, value: &str, numeric: bool)
        requires
            old(self).wf(),
        ensures
            final(self).wf(),
            final(self)@ == old(self)@.insert(key@, set_value_spec(key@, value@, numeric)),
    {
        let c = "completion";
        proof {
            reveal_strlit("completion");
            assert(c@ =~= completion_key());
        }
        if numeric && text_eq(key, c) {
            self.set(key, FieldValue::Number(String::from_str(value)));
        } else {
            self.set(key, FieldValue::Text(String::from_str(value)));
        }
    }

    /// Sets each pair of `vars` in turn; `numeric[i]` says whether the value of pair `i`
    /// reads as a number (a missing flag means it does not).
    pub fn set_project_vars(&mut self, vars: &Vec<(String, String)>, numeric: &Vec<bool>)
        requires
            old(self).wf(),
        ensures
            final(self).wf(),
            final(self)@ == set_vars_spec(old(self)@, pair_views(vars@), numeric@),
    {
        let mut i: usize = 0;
        while i < vars.len()
            invariant
                i <= vars@.len(),
                self.wf(),
                self@ == set_vars_spec(old(self)@, pair_views(vars@.subrange(0, i as int)), numeric@),
            decreases vars@.len() - i,
        {
            let flag = i < numeric.len() && numeric[i];
            self.set_var(vars[i].0.as_str(), vars[i].1.as_str(), flag);
            proof {
                let pv = pair_views(vars@.subrange(0, i + 1));
                assert(pv.drop_last() =~= pair_views(vars@.subrange(0, i as int)));
            }
            i = i + 1;
        }
        assert(vars@.subrange(0, vars@.len() as int) =~= vars@);
    }

    /// Sets each pair of `vars` as text, in turn.
    pub fn set_text_vars(&mut self, vars: &Vec<(String, String)>)
        requires
            old(self).wf(),
        ensures
            final(self).wf(),
            final(self)@ == text_vars_spec(old(self)@, pair_views(vars@)),
    {
        let mut i: usize = 0;
        while i < vars.len()
            invariant
                i <= vars@.len(),
                self.wf(),
                self@ == text_vars_spec(old(self)@, pair_views(vars@.subrange(0, i as int))),
            decreases vars@.len() - i,
        {
            self.set(vars[i].0.as_str(), FieldValue::Text(String::from_str(vars[i].1.as_str())));
            proof {
                let pv = pair_views(vars@.subrange(0, i + 1));
                assert(pv.drop_last() =~= pair_views(vars@.subrange(0, i as int)));
            }
            i = i + 1;
        }
        assert(vars@.subrange(0, vars@.len() as int) =~= vars@);
    }

    /// The document lacks a textual `template`.
    pub open spec fn needs_template_spec(&self) -> bool {
        !(self@.contains_key(seq!['t', 'e', 'm', 'p', 'l', 'a', 't', 'e'])
            && self@[seq!['t', 'e', 'm', 'p', 'l', 'a', 't', 'e']] is Text)
    }

    /// Whether the document lacks a textual `template`, so one may be chosen.
    pub fn needs_template(&self) -> (r: bool)
        ensures
            r == self.needs_template_spec(),
    {
        let t = "template";
        proof {
            reveal_strlit("template");
            assert(t@ =~= seq!['t', 'e', 'm', 'p', 'l', 'a', 't', 'e']);
        }
        match self.get(t) {
            Some(FieldValue::Text(_)) => false,
            _ => true,
        }
    }

    /// Records `chosen` as the template when the document has no textual one.
    pub fn adopt_template(&mut self, chosen: Option<&str>)
        requires
            old(self).wf(),
        ensures
            final(self).wf(),
            final(self)@ == (match chosen {
                Some(t) => if old(self).needs_template_spec() {
                    old(self)@.insert(seq!['t', 'e', 'm', 'p', 'l', 'a', 't', 'e'], FieldView::Text(t@))
                } else {
                    old(self)@
                },
                None => old(self)@,
            }),
    {
        if let Some(t) = chosen {
            if self.needs_template() {
                let k = "template";
                proof {
                    reveal_strlit("template");
                    assert(k@ =~= seq!['t', 'e', 'm', 'p', 'l', 'a', 't', 'e']);
                }
                self.set(k, FieldValue::Text(String::from_str(t)));
            }
        }
    }

    /// An owned copy of the document.
    pub fn copy(&self) -> (r: Manifest)
        requires
            self.wf(),
        ensures
            r.wf(),
            r@ == self@,
    {
        let mut fields: Vec<(String, FieldValue)> = Vec::new();
        let mut i: usize = 0;
        while i < self.fields.len()
            invariant
                i <= self.fields@.len(),
                fields@.map_values(|p: (String, FieldValue)| (p.0@, p.1@))
                    =~= self.fields_view().subrange(0, i as int),
            decreases self.fields@.len() - i,
        {
            let k = String::from_str(self.fields[i].0.as_str());
            let v = copy_field(&self.fields[i].1);
            let ghost before = fields@.map_values(|p: (String, FieldValue)| (p.0@, p.1@));
            fields.push((k, v));
            assert(fields@.map_values(|p: (String, FieldValue)| (p.0@, p.1@))
                =~= before.push((self.fields@[i as int].0@, self.fields@[i as int].1@)));
            assert(self.fields_view()[i as int] == (self.fields@[i as int].0@, self.fields@[i as int].1@));
            assert(self.fields_view().subrange(0, i + 1) =~= self.fields_view().subrange(0, i as int).push(self.fields_view()[i as int]));
            i = i + 1;
        }
        let r = Manifest { fields };
        assert(r.fields_view() =~= self.fields_view());
        r
    }

    /// All fields, in the order they were first set.
    pub fn entries(&self) -> (r: &Vec<(String, FieldValue)>)
        ensures
            fields_map(r@.map_values(|p: (String, FieldValue)| (p.0@, p.1@))) == self@,
            self.wf() ==> keys_unique(r@.map_values(|p: (String, FieldValue)| (p.0@, p.1@))),
    {
        &self.fields
    }

    /// The default document of a new project named `name`.
    pub fn default_for(name: &str) -> (r: Manifest)
        ensures
            r.wf(),
            r@ == default_manifest_spec(name@),
    {
        let (k_name, k_version, k_description, k_template, k_status, k_completion) =
            ("name", "version", "description", "template", "status", "completion");
        let (v_version, v_description, v_active, v_zero) = ("0.1.0", "New project", "active", "0.0");
        proof {
            reveal_strlit("name");
            reveal_strlit("version");
            reveal_strlit("0.1.0");
            reveal_strlit("description");
            reveal_strlit("New project");
            reveal_strlit("template");
            reveal_strlit("status");
            reveal_strlit("active");
            reveal_strlit("completion");
            reveal_strlit("0.0");
            assert(k_name@ =~= seq!['n', 'a', 'm', 'e']);
            assert(k_version@ =~= seq!['v', 'e', 'r', 's', 'i', 'o', 'n']);
            assert(k_description@ =~= seq!['d', 'e', 's', 'c', 'r', 'i', 'p', 't', 'i', 'o', 'n']);
            assert(k_template@ =~= seq!['t', 'e', 'm', 'p', 'l', 'a', 't', 'e']);
            assert(k_status@ =~= seq!['s', 't', 'a', 't', 'u', 's']);
            assert(k_completion@ =~= completion_key());
            assert(v_version@ =~= seq!['0', '.', '1', '.', '0']);
            assert(v_description@ =~= seq!['N', 'e', 'w', ' ', 'p', 'r', 'o', 'j', 'e', 'c', 't']);
            assert(v_active@ =~= seq!['a', 'c', 't', 'i', 'v', 'e']);
            assert(v_zero@ =~= seq!['0', '.', '0']);
        }
        let mut m = Manifest::new();
        m.set(k_name, FieldValue::Text(String::from_str(name)));
        m.set(k_version, FieldValue::Text(String::from_str(v_version)));
        m.set(k_description, FieldValue::Text(String::from_str(v_description)));
        m.set(k_template, FieldValue::Null);
        m.set(k_status, FieldValue::Text(String::from_str(v_active)));
        m.set(k_completion, FieldValue::Number(String::from_str(v_zero)));
        assert(m@ =~= default_manifest_spec(name@));
        m
    }

    /// The document synthesized for a cloned project that has none.
    pub fn synthesized(name: &str, template: Option<&str>, description: &str, version: &str) -> (r: Manifest)
        ensures
            r.wf(),
            r@ == synthesized_manifest_spec(name@, match template {
                Some(t) => Some(t@),
                None => None,
            }, description@, version@),
    {
        let (k_name, k_version, k_description, k_template, k_status, k_completion) =
            ("name", "version", "description", "template", "status", "completion");
        let (v_active, v_one) = ("active", "1.0");
        proof {
            reveal_strlit("name");
            reveal_strlit("version");
            reveal_strlit("description");
            reveal_strlit("template");
            reveal_strlit("status");
            reveal_strlit("active");
            reveal_strlit("completion");
            reveal_strlit("1.0");
            assert(k_name@ =~= seq!['n', 'a', 'm', 'e']);
            assert(k_version@ =~= seq!['v', 'e', 'r', 's', 'i', 'o', 'n']);
            assert(k_description@ =~= seq!['d', 'e', 's', 'c', 'r', 'i', 'p', 't', 'i', 'o', 'n']);
            assert(k_template@ =~= seq!['t', 'e', 'm', 'p', 'l', 'a', 't', 'e']);
            assert(k_status@ =~= seq!['s', 't', 'a', 't', 'u', 's']);
            assert(k_completion@ =~= completion_key());
            assert(v_active@ =~= seq!['a', 'c', 't', 'i', 'v', 'e']);
            assert(v_one@ =~= seq!['1', '.', '0']);
        }
        let mut m = Manifest::new();
        m.set(k_name, FieldValue::Text(String::from_str(name)));
        match template {
            Some(t) => m.set(k_template, FieldValue::Text(String::from_str(t))),
            None => m.set(k_template, FieldValue::Null),
        }
        m.set(k_description, FieldValue::Text(String::from_str(description)));
        m.set(k_version, FieldValue::Text(String::from_str(version)));
        m.set(k_completion, FieldValue::Number(String::from_str(v_one)));
        m.set(k_status, FieldValue::Text(String::from_str(v_active)));
        assert(m@ =~= synthesized_manifest_spec(name@, match template {
            Some(t) => Some(t@),
            None => None,
        }, description@, version@));
        m
    }
}

/// Setting a key from the command line and reading it back gives the text that was set, or,
/// for `completion` given a numeric text, that number.
pub proof fn lemma_set_then_get(m: Map<Seq<char>, FieldView>, key: Seq<char>, value: Seq<char>, numeric: bool)
    ensures
        m.insert(key, set_value_spec(key, value, numeric)).contains_key(key),
        key != completion_key() ==> m.insert(key, set_value_spec(key, value, numeric))[key] == FieldView::Text(value),
        key == completion_key() && numeric ==> m.insert(key, set_value_spec(key, value, numeric))[key] == FieldView::Number(value),
{
}

} // verus!
