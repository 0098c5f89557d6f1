//! The compiler's data types: props, component processing state, linked
//! assets, diagnostics, and their mathematical views.

use vstd::prelude::*;

use crate::text::{copy_text, views, Text};
use crate::tokens::{scope_infix_tok, value_open_tok};

verus! {

/// Position of a construct in its source file.
pub struct Cursor {
    pub line: usize,
    pub col: usize,
}

/// Metadata for a component being processed.
pub struct Meta {
    pub name: Text,
    pub file: Text,
    pub cursor: Cursor,
}

/// The view of a `Meta`.
pub struct MetaV {
    pub name: Seq<char>,
    pub file: Seq<char>,
    pub line: usize,
    pub col: usize,
}

impl View for Meta {
    type V = MetaV;

    open spec fn view(&self) -> MetaV {
        MetaV {
            name: self.name@,
            file: self.file@,
            line: self.cursor.line,
            col: self.cursor.col,
        }
    }
}

impl Meta {
    /// An independent copy.
    pub fn duplicate(&self) -> (r: Meta)
        ensures
            r@ == self@,
    {
        Meta {
            name: copy_text(&self.name),
            file: copy_text(&self.file),
            cursor: Cursor { line: self.cursor.line, col: self.cursor.col },
        }
    }
}

/// Where a prop value came from: an attribute, or a repeat directive.
pub struct PropMeta {
    pub source: Text,
}

/// One component prop: its name, the optional declared default, the
/// optional supplied value, and the literal forms it may take in a body.
pub struct Prop {
    pub name: Text,
    pub default: Option<Text>,
    pub value: Option<Text>,
    /// The textual placeholder forms this prop may be used as.
    pub templates: Vec<Text>,
    pub meta: PropMeta,
}

/// The view of a `Prop`.
pub struct PropV {
    pub name: Seq<char>,
    pub default: Option<Seq<char>>,
    pub value: Option<Seq<char>>,
    pub templates: Seq<Seq<char>>,
    pub source: Seq<char>,
}

impl View for Prop {
    type V = PropV;

    open spec fn view(&self) -> PropV {
        PropV {
            name: self.name@,
            default: match self.default {
                Some(ref d) => Some(d@),
                None => None,
            },
            value: match self.value {
                Some(ref v) => Some(v@),
                None => None,
            },
            templates: views(self.templates@),
            source: self.meta.source@,
        }
    }
}

/// The double-quoted call-style placeholder of a prop: `("name")`.
pub open spec fn dquote_form(name: Seq<char>) -> Seq<char> {
    seq!['(', '"'] + name + seq!['"', ')']
}

/// The single-quoted call-style placeholder of a prop: `('name')`.
pub open spec fn squote_form(name: Seq<char>) -> Seq<char> {
    seq!['(', '\''] + name + seq!['\'', ')']
}

/// The CSS custom-property form of a prop: `--name`.
pub open spec fn css_form(name: Seq<char>) -> Seq<char> {
    seq!['-', '-'] + name
}

/// The data-value form of a prop: `$value("name`.
pub open spec fn value_form(name: Seq<char>) -> Seq<char> {
    value_open_tok() + name
}

/// The four placeholder forms of a freshly declared prop.
pub open spec fn templates_spec(name: Seq<char>) -> Seq<Seq<char>> {
    seq![dquote_form(name), squote_form(name), css_form(name), value_form(name)]
}

/// A prop with a name, no default, no value, and the standard forms.
pub open spec fn prop_new_spec(name: Seq<char>) -> PropV {
    PropV {
        name: name,
        default: None,
        value: None,
        templates: templates_spec(name),
        source: Seq::empty(),
    }
}

/// A prop rendered back to an HTML attribute: `name="value" `.
pub open spec fn prop_render_spec(p: PropV) -> Seq<char> {
    if p.name.len() == 0 {
        Seq::empty()
    } else {
        p.name + seq!['=', '"'] + (match p.value {
            Some(v) => v,
            None => Seq::<char>::empty(),
        }) + seq!['"', ' ']
    }
}

impl Prop {
    /// A fresh prop of this name.
    pub fn new(name: &Text) -> (r: Prop)
        ensures
            r@ == prop_new_spec(name@),
    {
        let mut dq: Text = Vec::new();
        dq.push('(');
        dq.push('"');
        crate::text::push_all(&mut dq, name);
        dq.push('"');
        dq.push(')');
        let mut sq: Text = Vec::new();
        sq.push('(');
        sq.push('\'');
        crate::text::push_all(&mut sq, name);
        sq.push('\'');
        sq.push(')');
        let mut css: Text = Vec::new();
        css.push('-');
        css.push('-');
        crate::text::push_all(&mut css, name);
        let mut val = crate::tokens::value_open_text();
        crate::text::push_all(&mut val, name);
        proof {
            assert(dq@ =~= dquote_form(name@));
            assert(sq@ =~= squote_form(name@));
            assert(css@ =~= css_form(name@));
        }
        let mut templates: Vec<Text> = Vec::new();
        templates.push(dq);
        templates.push(sq);
        templates.push(css);
        templates.push(val);
        let r = Prop {
            name: copy_text(name),
            default: None,
            value: None,
            templates,
            meta: PropMeta { source: Vec::new() },
        };
        proof {
            assert(views(r.templates@) =~= templates_spec(name@));
        }
        r
    }

    /// Replaces the declared default.
    pub fn default_mut(&mut self, value: Option<Text>)
        ensures
            final(self)@ == (PropV {
                default: match value {
                    Some(ref v) => Some(v@),
                    None => None,
                },
                ..old(self)@
            }),
    {
        self.default = value;
    }

    /// Replaces the supplied value.
    pub fn value_mut(&mut self, value: Option<Text>)
        ensures
            final(self)@ == (PropV {
                value: match value {
                    Some(ref v) => Some(v@),
                    None => None,
                },
                ..old(self)@
            }),
    {
        self.value = value;
    }

    /// Replaces the provenance mark.
    pub fn prop_meta_mut(&mut self, meta: PropMeta)
        ensures
            final(self)@ == (PropV { source: meta.source@, ..old(self)@ }),
    {
        self.meta = meta;
    }

    /// Renders the prop as an HTML attribute; an unnamed prop renders as
    /// nothing.
    pub fn to_string(&self) -> (r: Text)
        ensures
            r@ == prop_render_spec(self@),
    {
        let mut r: Text = Vec::new();
        if self.name.len() == 0 {
            return r;
        }
        crate::text::push_all(&mut r, &self.name);
        r.push('=');
        r.push('"');
        match &self.value {
            Some(v) => {
                crate::text::push_all(&mut r, v);
            },
            None => {},
        }
        r.push('"');
        r.push(' ');
        proof {
            assert(r@ =~= prop_render_spec(self@));
        }
        r
    }

    /// An independent copy.
    pub fn duplicate(&self) -> (r: Prop)
        ensures
            r@ == self@,
    {
        let default = match &self.default {
            Some(d) => Some(copy_text(d)),
            None => None,
        };
        let value = match &self.value {
            Some(v) => Some(copy_text(v)),
            None => None,
        };
        let mut templates: Vec<Text> = Vec::new();
        let mut i: usize = 0;
        while i < self.templates.len()
            invariant
                0 <= i <= self.templates@.len(),
                templates@.len() == i,
                forall|k: int| 0 <= k < i ==> templates@[k]@ == self.templates@[k]@,
            decreases self.templates@.len() - i,
        {
            templates.push(copy_text(&self.templates[i]));
            i += 1;
        }
        let r = Prop {
            name: copy_text(&self.name),
            default,
            value,
            templates,
            meta: PropMeta { source: copy_text(&self.meta.source) },
        };
        proof {
            assert(views(r.templates@) =~= views(self.templates@));
        }
        r
    }
}

/// A dictionary of props, keyed by name, in insertion order.
pub struct PropMap {
    pub entries: Vec<Prop>,
}

/// The views of a sequence of props.
pub open spec fn prop_views(s: Seq<Prop>) -> Seq<PropV> {
    s.map_values(|p: Prop| p@)
}

impl View for PropMap {
    type V = Seq<PropV>;

    open spec fn view(&self) -> Seq<PropV> {
        prop_views(self.entries@)
    }
}

/// The first prop of this name, if any.
pub open spec fn map_lookup(s: Seq<PropV>, name: Seq<char>) -> Option<PropV>
    decreases s.len(),
{
    if s.len() == 0 {
        None
    } else if s[0].name == name {
        Some(s[0])
    } else {
        map_lookup(s.drop_first(), name)
    }
}

/// Some prop of this name is present.
pub open spec fn map_has(s: Seq<PropV>, name: Seq<char>) -> bool {
    map_lookup(s, name) is Some
}

/// The dictionary with `p` put in: it replaces the first entry of its name,
/// or lands at the end.
pub open spec fn map_insert_spec(s: Seq<PropV>, p: PropV) -> Seq<PropV>
    decreases s.len(),
{
    if s.len() == 0 {
        seq![p]
    } else if s[0].name == p.name {
        seq![p] + s.drop_first()
    } else {
        seq![s[0]] + map_insert_spec(s.drop_first(), p)
    }
}

/// The dictionary without the first entry of this name.
pub open spec fn map_remove_spec(s: Seq<PropV>, name: Seq<char>) -> Seq<PropV>
    decreases s.len(),
{
    if s.len() == 0 {
        s
    } else if s[0].name == name {
        s.drop_first()
    } else {
        seq![s[0]] + map_remove_spec(s.drop_first(), name)
    }
}

proof fn lemma_map_lookup_skip(s: Seq<PropV>, name: Seq<char>, i: int)
    requires
        0 <= i <= s.len(),
        forall|j: int| 0 <= j < i ==> s[j].name != name,
    ensures
        map_lookup(s, name) == map_lookup(s.skip(i), name),
    decreases i,
{
    if i > 0 {
        assert(s.drop_first() =~= s.skip(1));
        lemma_map_lookup_skip(s.drop_first(), name, i - 1);
        assert(s.drop_first().skip(i - 1) =~= s.skip(i));
    } else {
        assert(s.skip(0) =~= s);
    }
}

proof fn lemma_map_insert_at(s: Seq<PropV>, p: PropV, i: int)
    requires
        0 <= i < s.len(),
        forall|j: int| 0 <= j < i ==> s[j].name != p.name,
        s[i].name == p.name,
    ensures
        map_insert_spec(s, p) == s.update(i, p),
    decreases i,
{
    if i == 0 {
        assert(map_insert_spec(s, p) =~= s.update(0, p));
    } else {
        lemma_map_insert_at(s.drop_first(), p, i - 1);
        assert(seq![s[0]] + s.drop_first().update(i - 1, p) =~= s.update(i, p));
    }
}

proof fn lemma_map_insert_missing(s: Seq<PropV>, p: PropV)
    requires
        forall|j: int| 0 <= j < s.len() ==> s[j].name != p.name,
    ensures
        map_insert_spec(s, p) == s + seq![p],
    decreases s.len(),
{
    if s.len() == 0 {
        assert(map_insert_spec(s, p) =~= s + seq![p]);
    } else {
        lemma_map_insert_missing(s.drop_first(), p);
        assert(seq![s[0]] + (s.drop_first() + seq![p]) =~= s + seq![p]);
    }
}

proof fn lemma_map_remove_at(s: Seq<PropV>, name: Seq<char>, i: int)
    requires
        0 <= i < s.len(),
        forall|j: int| 0 <= j < i ==> s[j].name != name,
        s[i].name == name,
    ensures
        map_remove_spec(s, name) == s.remove(i),
    decreases i,
{
    if i == 0 {
        assert(map_remove_spec(s, name) =~= s.remove(0));
    } else {
        lemma_map_remove_at(s.drop_first(), name, i - 1);
        assert(seq![s[0]] + s.drop_first().remove(i - 1) =~= s.remove(i));
    }
}

proof fn lemma_map_remove_missing(s: Seq<PropV>, name: Seq<char>)
    requires
        forall|j: int| 0 <= j < s.len() ==> s[j].name != name,
    ensures
        map_remove_spec(s, name) == s,
    decreases s.len(),
{
    if s.len() > 0 {
        lemma_map_remove_missing(s.drop_first(), name);
        assert(seq![s[0]] + s.drop_first() =~= s);
    }
}

impl PropMap {
    /// An empty dictionary.
    pub fn new() -> (r: PropMap)
        ensures
            r@ == Seq::<PropV>::empty(),
    {
        let r = PropMap { entries: Vec::new() };
        proof {
            assert(r@ =~= Seq::<PropV>::empty());
        }
        r
    }

    /// How many props are held.
    pub fn len(&self) -> (r: usize)
        ensures
            r == self@.len(),
    {
        self.entries.len()
    }

    /// The index of the first prop of this name.
    fn index_of(&self, name: &Text) -> (r: Option<usize>)
        ensures
            r matches Some(i) ==> {
                &&& i < self@.len()
                &&& self@[i as int].name == name@
                &&& forall|j: int| 0 <= j < i ==> self@[j].name != name@
                &&& map_lookup(self@, name@) == Some(self@[i as int])
            },
            r is None ==> map_lookup(self@, name@) is None,
            r is None ==> forall|j: int| 0 <= j < self@.len() ==> self@[j].name != name@,
    {
        let n = self.entries.len();
        let mut i: usize = 0;
        while i < n
            invariant
                n == self@.len(),
                0 <= i <= n,
                forall|j: int| 0 <= j < i ==> self@[j].name != name@,
            decreases n - i,
        {
            if crate::text::text_eq(&self.entries[i].name, name) {
                proof {
                    lemma_map_lookup_skip(self@, name@, i as int);
                    assert(self@.skip(i as int)[0] == self@[i as int]);
                }
                return Some(i);
            }
            i += 1;
        }
        proof {
            lemma_map_lookup_skip(self@, name@, n as int);
            assert(self@.skip(n as int) =~= Seq::<PropV>::empty());
        }
        None
    }

    /// Reads the first prop of this name.
    pub fn get(&self, name: &Text) -> (r: Option<&Prop>)
        ensures
            r matches Some(p) ==> map_lookup(self@, name@) == Some(p@),
            r is None ==> map_lookup(self@, name@) is None,
    {
        match self.index_of(name) {
            Some(i) => Some(&self.entries[i]),
            None => None,
        }
    }

    /// Is a prop of this name present?
    pub fn contains_key(&self, name: &Text) -> (r: bool)
        ensures
            r == map_has(self@, name@),
    {
        self.index_of(name).is_some()
    }

    /// Puts a prop in, replacing the first entry of its name.
    pub fn insert(&mut self, p: Prop)
        ensures
            final(self)@ == map_insert_spec(old(self)@, p@),
    {
        let ghost pv = p@;
        match self.index_of(&p.name) {
            Some(i) => {
                proof {
                    lemma_map_insert_at(self@, pv, i as int);
                }
                self.entries.remove(i);
                self.entries.insert(i, p);
                proof {
                    assert(prop_views(self.entries@) =~= prop_views(old(self).entries@).update(
                        i as int,
                        pv,
                    ));
                }
            },
            None => {
                proof {
                    lemma_map_insert_missing(self@, pv);
                }
                self.entries.push(p);
                proof {
                    assert(prop_views(self.entries@) =~= prop_views(old(self).entries@) + seq![pv]);
                }
            },
        }
    }

    /// Takes the first prop of this name out.
    pub fn remove(&mut self, name: &Text)
        ensures
            final(self)@ == map_remove_spec(old(self)@, name@),
    {
        match self.index_of(name) {
            Some(i) => {
                proof {
                    lemma_map_remove_at(self@, name@, i as int);
                }
                self.entries.remove(i);
                proof {
                    assert(prop_views(self.entries@) =~= prop_views(old(self).entries@).remove(
                        i as int,
                    ));
                }
            },
            None => {
                proof {
                    lemma_map_remove_missing(self@, name@);
                }
            },
        }
    }

    /// An independent copy.
    pub fn duplicate(&self) -> (r: PropMap)
        ensures
            r@ == self@,
    {
        let mut entries: Vec<Prop> = Vec::new();
        let mut i: usize = 0;
        while i < self.entries.len()
            invariant
                0 <= i <= self.entries@.len(),
                entries@.len() == i,
                forall|k: int| 0 <= k < i ==> entries@[k]@ == self.entries@[k]@,
            decreases self.entries@.len() - i,
        {
            entries.push(self.entries[i].duplicate());
            i += 1;
        }
        let r = PropMap { entries };
        proof {
            assert(r@ =~= self@);
        }
        r
    }
}


/// Data for a component being processed: its definition, and what the
/// current usage site supplied.
pub struct Proc {
    pub meta: Meta,
    /// The compiled definition body.
    pub html: Text,
    pub is_fragment: Option<bool>,
    /// The declared prop dictionary.
    pub props: Option<PropMap>,
    /// How many times the component has been used so far; the current
    /// usage renders with this ordinal.
    pub usage: u64,
    pub usage_html: Option<Text>,
    pub usage_inner_html: Option<Text>,
    pub usage_props: Option<PropMap>,
}

/// The view of a `Proc`.
pub struct ProcV {
    pub meta: MetaV,
    pub html: Seq<char>,
    pub is_fragment: Option<bool>,
    pub props: Option<Seq<PropV>>,
    pub usage: u64,
    pub usage_html: Option<Seq<char>>,
    pub usage_inner_html: Option<Seq<char>>,
    pub usage_props: Option<Seq<PropV>>,
}

impl View for Proc {
    type V = ProcV;

    open spec fn view(&self) -> ProcV {
        ProcV {
            meta: self.meta@,
            html: self.html@,
            is_fragment: self.is_fragment,
            props: match self.props {
                Some(ref m) => Some(m@),
                None => None,
            },
            usage: self.usage,
            usage_html: match self.usage_html {
                Some(ref t) => Some(t@),
                None => None,
            },
            usage_inner_html: match self.usage_inner_html {
                Some(ref t) => Some(t@),
                None => None,
            },
            usage_props: match self.usage_props {
                Some(ref m) => Some(m@),
                None => None,
            },
        }
    }
}

impl Proc {
    /// Raises the usage counter.
    pub fn inc_usage(&mut self, value: u64)
        requires
            old(self).usage + value <= u64::MAX,
        ensures
            final(self)@ == (ProcV { usage: (old(self).usage + value) as u64, ..old(self)@ }),
    {
        self.usage = self.usage + value;
    }

    /// Replaces the props supplied by the usage site.
    pub fn usage_props_mut(&mut self, value: Option<PropMap>)
        ensures
            final(self)@ == (ProcV {
                usage_props: match value {
                    Some(ref m) => Some(m@),
                    None => None,
                },
                ..old(self)@
            }),
    {
        self.usage_props = value;
    }

    /// Replaces the inner content captured at the usage site.
    pub fn usage_inner_html_mut(&mut self, value: Option<Text>)
        ensures
            final(self)@ == (ProcV {
                usage_inner_html: match value {
                    Some(ref t) => Some(t@),
                    None => None,
                },
                ..old(self)@
            }),
    {
        self.usage_inner_html = value;
    }

    /// Replaces the usage tag text.
    pub fn usage_html_mut(&mut self, value: Option<Text>)
        ensures
            final(self)@ == (ProcV {
                usage_html: match value {
                    Some(ref t) => Some(t@),
                    None => None,
                },
                ..old(self)@
            }),
    {
        self.usage_html = value;
    }

    /// Replaces the fragment flag.
    pub fn is_fragment_mut(&mut self, value: Option<bool>)
        ensures
            final(self)@ == (ProcV { is_fragment: value, ..old(self)@ }),
    {
        self.is_fragment = value;
    }

    /// Replaces the declared prop dictionary.
    pub fn props_mut(&mut self, value: Option<PropMap>)
        ensures
            final(self)@ == (ProcV {
                props: match value {
                    Some(ref m) => Some(m@),
                    None => None,
                },
                ..old(self)@
            }),
    {
        self.props = value;
    }
}

/// A registered definition that has not been used yet.
pub struct Unlisted {
    pub meta: Meta,
    pub html: Text,
}

/// The view of an `Unlisted`.
pub struct UnlistedV {
    pub meta: MetaV,
    pub html: Seq<char>,
}

impl View for Unlisted {
    type V = UnlistedV;

    open spec fn view(&self) -> UnlistedV {
        UnlistedV { meta: self.meta@, html: self.html@ }
    }
}

/// One edge of the dependency graph: `file` references `asset`.
pub struct Linked {
    pub file: Text,
    pub asset: Text,
    pub is_component: bool,
}

/// The view of a `Linked`.
pub struct LinkedV {
    pub file: Seq<char>,
    pub asset: Seq<char>,
    pub is_component: bool,
}

impl View for Linked {
    type V = LinkedV;

    open spec fn view(&self) -> LinkedV {
        LinkedV { file: self.file@, asset: self.asset@, is_component: self.is_component }
    }
}

/// The kinds of recoverable faults a compile records.
#[derive(PartialEq, Eq, Structural, Clone, Copy, Debug)]
pub enum DiagnosticKind {
    /// A referenced body is not a template, or has no body.
    MalformedComponent,
    /// A usage matches no registered definition.
    UndefinedComponent,
    /// A registered definition was never used.
    UnusedComponent,
    /// A body-referenced prop has no source.
    UnresolvedProp,
    /// An href/src target is absent.
    MissingLinkedAsset,
}

/// One recorded diagnostic: what went wrong, where, and the offending text.
pub struct Diagnostic {
    pub kind: DiagnosticKind,
    pub meta: Meta,
    pub html: Text,
}

/// The view of a `Diagnostic`.
pub struct DiagnosticV {
    pub kind: DiagnosticKind,
    pub meta: MetaV,
    pub html: Seq<char>,
}

impl View for Diagnostic {
    type V = DiagnosticV;

    open spec fn view(&self) -> DiagnosticV {
        DiagnosticV { kind: self.kind, meta: self.meta@, html: self.html@ }
    }
}

/// What one compile call hands back: the compiled text, the linked assets
/// it discovered, and the diagnostics it recorded.
pub struct TransformOutput {
    pub linked_list: Vec<Linked>,
    pub code: Text,
    pub diagnostics: Vec<Diagnostic>,
}

/// How a usage renders under its directives: how many passes, with which
/// props.
pub struct Directive {
    pub render_count: usize,
    pub props: PropMap,
}

/// Renders a dictionary back to attribute text, entries in order.
pub open spec fn props_render_spec(s: Seq<PropV>) -> Seq<char>
    decreases s.len(),
{
    if s.len() == 0 {
        Seq::empty()
    } else {
        prop_render_spec(s[0]) + props_render_spec(s.drop_first())
    }
}

/// A prop dictionary on its way back to attribute text.
pub struct Props {
    pub map: PropMap,
}

/// The dictionary after `add_prop`: a value appends to an entry that
/// already holds one, and a fresh name lands at the end.
pub open spec fn add_prop_spec(s: Seq<PropV>, name: Seq<char>, value: Option<Seq<char>>) -> Seq<
    PropV,
>
    decreases s.len(),
{
    if s.len() == 0 {
        seq![PropV { value: value, ..prop_new_spec(name) }]
    } else if s[0].name == name {
        match (s[0].value, value) {
            (Some(present), Some(v)) => seq![
                PropV { value: Some(present + seq![' '] + v), ..s[0] },
            ] + s.drop_first(),
            _ => s,
        }
    } else {
        seq![s[0]] + add_prop_spec(s.drop_first(), name, value)
    }
}

impl Props {
    /// Wraps a dictionary.
    pub fn new(props: PropMap) -> (r: Props)
        ensures
            r.map@ == props@,
    {
        Props { map: props }
    }

    /// Inserts a prop; if one of the name already holds a value, the new
    /// value is appended to it after a space.
    pub fn add_prop(&mut self, name: &Text, value: Option<Text>)
        ensures
            final(self).map@ == add_prop_spec(old(self).map@, name@, match value {
                Some(ref v) => Some(v@),
                None => None,
            }),
    {
        let ghost value_v: Option<Seq<char>> = match value {
            Some(ref v) => Some(v@),
            None => None,
        };
        let n = self.map.entries.len();
        let mut i: usize = 0;
        while i < n
            invariant
                n == self.map@.len(),
                0 <= i <= n,
                self.map == old(self).map,
                value_v == (match value {
                    Some(ref v) => Some(v@),
                    None => None,
                }),
                forall|j: int| 0 <= j < i ==> self.map@[j].name != name@,
            decreases n - i,
        {
            if crate::text::text_eq(&self.map.entries[i].name, name) {
                let has_value = self.map.entries[i].value.is_some();
                match value {
                    Some(v) => {
                        if has_value {
                            let ghost present_v = old(self).map@[i as int].value->Some_0;
                            let mut appended = match &self.map.entries[i].value {
                                Some(present) => copy_text(present),
                                None => Vec::new(),
                            };
                            proof {
                                assert(old(self).map@[i as int] == self.map.entries@[i as int]@);
                                assert(appended@ == present_v);
                            }
                            appended.push(' ');
                            crate::text::push_all(&mut appended, &v);
                            proof {
                                assert(appended@ =~= present_v + seq![' '] + v@);
                            }
                            let mut entry = self.map.entries.remove(i);
                            entry.value_mut(Some(appended));
                            proof {
                                assert(entry@ == (PropV {
                                    value: Some(present_v + seq![' '] + v@),
                                    ..old(self).map@[i as int]
                                }));
                            }
                            self.map.entries.insert(i, entry);
                            proof {
                                lemma_add_prop_at(old(self).map@, name@, value_v, i as int);
                                assert(value_v == Some(v@));
                                assert(old(self).map@[i as int].value == Some(present_v));
                                assert(self.map@ =~= old(self).map@.update(
                                    i as int,
                                    PropV {
                                        value: Some(present_v + seq![' '] + v@),
                                        ..old(self).map@[i as int]
                                    },
                                ));
                                assert(self.map@ == add_prop_spec(old(self).map@, name@, value_v));
                            }
                        } else {
                            proof {
                                lemma_add_prop_at(old(self).map@, name@, value_v, i as int);
                                assert(self.map@ == add_prop_spec(old(self).map@, name@, value_v));
                            }
                        }
                    },
                    None => {
                        proof {
                            lemma_add_prop_at(old(self).map@, name@, value_v, i as int);
                            assert(self.map@ == add_prop_spec(old(self).map@, name@, value_v));
                        }
                    },
                }
                proof {
                    assert(self.map@ == add_prop_spec(old(self).map@, name@, value_v));
                }
                return ;
            }
            i += 1;
        }
        let mut fresh = Prop::new(name);
        fresh.value_mut(value);
        self.map.entries.push(fresh);
        proof {
            lemma_add_prop_missing(old(self).map@, name@, value_v);
            assert(self.map@ =~= old(self).map@ + seq![
                PropV { value: value_v, ..prop_new_spec(name@) },
            ]);
        }
    }

    /// Renders the dictionary back to attribute text.
    pub fn to_string(&self) -> (r: Text)
        ensures
            r@ == props_render_spec(self.map@),
    {
        attrs_to_string(&self.map)
    }
}

proof fn lemma_add_prop_at(s: Seq<PropV>, name: Seq<char>, value: Option<Seq<char>>, i: int)
    requires
        0 <= i < s.len(),
        forall|j: int| 0 <= j < i ==> s[j].name != name,
        s[i].name == name,
    ensures
        add_prop_spec(s, name, value) == (match (s[i].value, value) {
            (Some(present), Some(v)) => s.update(
                i,
                PropV { value: Some(present + seq![' '] + v), ..s[i] },
            ),
            _ => s,
        }),
    decreases i,
{
    if i == 0 {
        match (s[0].value, value) {
            (Some(present), Some(v)) => {
                assert(seq![PropV { value: Some(present + seq![' '] + v), ..s[0] }]
                    + s.drop_first() =~= s.update(0, PropV {
                    value: Some(present + seq![' '] + v),
                    ..s[0]
                }));
            },
            _ => {},
        }
    } else {
        lemma_add_prop_at(s.drop_first(), name, value, i - 1);
        match (s[i].value, value) {
            (Some(present), Some(v)) => {
                assert(seq![s[0]] + s.drop_first().update(i - 1, PropV {
                    value: Some(present + seq![' '] + v),
                    ..s[i]
                }) =~= s.update(i, PropV { value: Some(present + seq![' '] + v), ..s[i] }));
            },
            _ => {
                assert(seq![s[0]] + s.drop_first() =~= s);
            },
        }
    }
}

proof fn lemma_add_prop_missing(s: Seq<PropV>, name: Seq<char>, value: Option<Seq<char>>)
    requires
        forall|j: int| 0 <= j < s.len() ==> s[j].name != name,
    ensures
        add_prop_spec(s, name, value) == s + seq![PropV { value: value, ..prop_new_spec(name) }],
    decreases s.len(),
{
    if s.len() == 0 {
        assert(add_prop_spec(s, name, value) =~= s + seq![
            PropV { value: value, ..prop_new_spec(name) },
        ]);
    } else {
        lemma_add_prop_missing(s.drop_first(), name, value);
        assert(seq![s[0]] + (s.drop_first() + seq![PropV { value: value, ..prop_new_spec(name) }])
            =~= s + seq![PropV { value: value, ..prop_new_spec(name) }]);
    }
}

/// Renders a dictionary to attribute text, entries in order.
pub fn attrs_to_string(attrs: &PropMap) -> (r: Text)
    ensures
        r@ == props_render_spec(attrs@),
{
    let mut r: Text = Vec::new();
    let n = attrs.entries.len();
    proof {
        assert(attrs@.skip(0) =~= attrs@);
        assert(r@ + props_render_spec(attrs@) =~= props_render_spec(attrs@));
    }
    let mut i: usize = 0;
    while i < n
        invariant
            n == attrs@.len(),
            0 <= i <= n,
            props_render_spec(attrs@) == r@ + props_render_spec(attrs@.skip(i as int)),
        decreases n - i,
    {
        let ghost r0 = r@;
        proof {
            let tail = attrs@.skip(i as int);
            assert(tail[0] == attrs@[i as int]);
            assert(tail.drop_first() =~= attrs@.skip(i as int + 1));
            assert(r0 + (prop_render_spec(tail[0]) + props_render_spec(tail.drop_first())) =~= (r0
                + prop_render_spec(attrs@[i as int])) + props_render_spec(
                attrs@.skip(i as int + 1),
            ));
        }
        let rendered = attrs.entries[i].to_string();
        crate::text::push_all(&mut r, &rendered);
        i += 1;
    }
    proof {
        assert(attrs@.skip(n as int) =~= Seq::<PropV>::empty());
        assert(r@ + props_render_spec(Seq::<PropV>::empty()) =~= r@);
    }
    r
}

/// The attribute-selector prefix that confines a CSS rule to one scope:
/// `[data-x-scope="<scope>"]`.
pub open spec fn scope_attr_selector(scope: Seq<char>) -> Seq<char> {
    seq!['['] + crate::tokens::data_scope_tok() + seq!['=', '"'] + scope + seq!['"', ']']
}

/// The qualifier that keeps a parent's rules out of nested components:
/// `:not([data-x-nested="true"])`.
pub open spec fn nested_exclusion() -> Seq<char> {
    seq![':', 'n', 'o', 't', '(', '['] + crate::tokens::data_nested_tok() + seq!['=', '"'] + crate::tokens::true_lit_tok() + seq!['"', ']', ')']
}

/// A selector rewritten for one scope: two OR'd compound selectors, the
/// second carrying the nested exclusion.
pub open spec fn scoped_selector_spec(sel: Seq<char>, scope: Seq<char>) -> Seq<char> {
    scope_attr_selector(scope) + seq![' '] + sel + seq![','] + scope_attr_selector(scope) + seq![
        '>',
        ' ',
    ] + nested_exclusion() + seq![' '] + sel
}

/// The scoped name of a selector: the bare name, the scope infix, the
/// scope id.
pub open spec fn scoped_name_spec(sel: Seq<char>, scope: Seq<char>) -> Seq<char> {
    crate::text::trim_start_spec(sel) + crate::tokens::scope_infix_tok() + scope
}

/// Defines a scoped CSS selector.
pub struct ScopedSelector {
    /// The full scope-confined selector pair, for style rules.
    pub class: Text,
    /// The instance-bound name of the selector.
    pub name: Text,
}

impl ScopedSelector {
    /// Rewrites one selector for one scope.
    pub fn new(selector: &Text, scope: &Text) -> (r: ScopedSelector)
        ensures
            r.class@ == scoped_selector_spec(selector@, scope@),
            r.name@ == scoped_name_spec(selector@, scope@),
    {
        let mut prefix: Text = Vec::new();
        prefix.push('[');
        let ds = crate::tokens::data_scope_text();
        crate::text::push_all(&mut prefix, &ds);
        prefix.push('=');
        prefix.push('"');
        crate::text::push_all(&mut prefix, scope);
        prefix.push('"');
        prefix.push(']');
        proof {
            assert(prefix@ =~= scope_attr_selector(scope@));
        }
        let mut class = copy_text(&prefix);
        class.push(' ');
        crate::text::push_all(&mut class, selector);
        class.push(',');
        crate::text::push_all(&mut class, &prefix);
        class.push('>');
        class.push(' ');
        let mut excl: Text = Vec::new();
        excl.push(':');
        excl.push('n');
        excl.push('o');
        excl.push('t');
        excl.push('(');
        excl.push('[');
        let dn = crate::tokens::data_nested_text();
        crate::text::push_all(&mut excl, &dn);
        excl.push('=');
        excl.push('"');
        let tl = crate::tokens::true_lit_text();
        crate::text::push_all(&mut excl, &tl);
        excl.push('"');
        excl.push(']');
        excl.push(')');
        proof {
            assert(excl@ =~= nested_exclusion());
        }
        crate::text::push_all(&mut class, &excl);
        class.push(' ');
        crate::text::push_all(&mut class, selector);
        proof {
            assert(class@ =~= scoped_selector_spec(selector@, scope@));
        }
        let mut name = crate::text::trim_start(selector);
        let infix = crate::tokens::scope_infix_text();
        crate::text::push_all(&mut name, &infix);
        crate::text::push_all(&mut name, scope);
        ScopedSelector { class, name }
    }

    /// Whether a name already carries a scope infix.
    pub fn is_scoped(slice: &Text) -> (r: bool)
        ensures
            r == crate::text::contains_spec(slice@, crate::tokens::scope_infix_tok()),
    {
        let infix = crate::tokens::scope_infix_text();
        crate::text::contains(slice, &infix)
    }
}

/// Every scoped selector carries the nested exclusion, so a parent's rules
/// cannot land inside a nested component.
pub proof fn lemma_scoped_selector_excludes_nested(sel: Seq<char>, scope: Seq<char>)
    ensures
        crate::text::contains_spec(scoped_selector_spec(sel, scope), nested_exclusion()),
{
    let s = scoped_selector_spec(sel, scope);
    let q = nested_exclusion();
    let p = scope_attr_selector(scope);
    let i: int = p.len() as int + 1 + sel.len() as int + 1 + p.len() as int + 2;
    assert(crate::text::match_at(s, q, i)) by {
        assert(s.subrange(i, i + q.len() as int) =~= q);
    }
    crate::text::lemma_contains_of_match(s, q, i);
}

/// Metadata of one data file, as the provider reads it.
pub struct FileMeta {
    pub name: Text,
    pub filename: Text,
    pub raw: Text,
}

/// One record of the external data provider: the file it came from, and
/// its fields as pointer-path / plain-text pairs.
pub struct DataEntry {
    pub file: Text,
    pub data: Vec<(Text, Text)>,
}

/// The view of a `DataEntry`.
pub struct DataEntryV {
    pub file: Seq<char>,
    pub data: Seq<(Seq<char>, Seq<char>)>,
}

impl View for DataEntry {
    type V = DataEntryV;

    open spec fn view(&self) -> DataEntryV {
        DataEntryV {
            file: self.file@,
            data: self.data@.map_values(|f: (Text, Text)| (f.0@, f.1@)),
        }
    }
}

/// The field at a pointer path, if the record holds one.
pub open spec fn record_lookup(fields: Seq<(Seq<char>, Seq<char>)>, key: Seq<char>) -> Option<
    Seq<char>,
>
    decreases fields.len(),
{
    if fields.len() == 0 {
        None
    } else if fields[0].0 == key {
        Some(fields[0].1)
    } else {
        record_lookup(fields.drop_first(), key)
    }
}

proof fn lemma_record_lookup_skip(fields: Seq<(Seq<char>, Seq<char>)>, key: Seq<char>, i: int)
    requires
        0 <= i <= fields.len(),
        forall|j: int| 0 <= j < i ==> fields[j].0 != key,
    ensures
        record_lookup(fields, key) == record_lookup(fields.skip(i), key),
    decreases i,
{
    if i > 0 {
        assert(fields.drop_first() =~= fields.skip(1));
        lemma_record_lookup_skip(fields.drop_first(), key, i - 1);
        assert(fields.drop_first().skip(i - 1) =~= fields.skip(i));
    } else {
        assert(fields.skip(0) =~= fields);
    }
}

impl DataEntry {
    /// Builds a record.
    pub fn new(file: Text, data: Vec<(Text, Text)>) -> (r: DataEntry)
        ensures
            r@.file == file@,
            r@.data == data@.map_values(|f: (Text, Text)| (f.0@, f.1@)),
    {
        DataEntry { file, data }
    }

    /// Pulls the field at a pointer path out of the record.
    pub fn pointer(&self, key: &Text) -> (r: Option<Text>)
        ensures
            match r {
                Some(v) => record_lookup(self@.data, key@) == Some(v@),
                None => record_lookup(self@.data, key@) is None,
            },
    {
        let n = self.data.len();
        let mut i: usize = 0;
        while i < n
            invariant
                n == self@.data.len(),
                n == self.data@.len(),
                0 <= i <= n,
                forall|j: int| 0 <= j < i ==> self@.data[j].0 != key@,
            decreases n - i,
    	{
            proof {
                assert(self@.data[i as int] == (self.data@[i as int].0@, self.data@[i as int].1@));
            }
            if crate::text::text_eq(&self.data[i].0, key) {
                proof {
                    lemma_record_lookup_skip(self@.data, key@, i as int);
                    assert(self@.data.skip(i as int)[0] == self@.data[i as int]);
                }
                return Some(copy_text(&self.data[i].1));
            }
            i += 1;
        }
        proof {
            lemma_record_lookup_skip(self@.data, key@, n as int);
            assert(self@.data.skip(n as int) =~= Seq::<(Seq<char>, Seq<char>)>::empty());
        }
        None
    }
}

/// What the external data provider handed over for this compile: the
/// ordered records, and how many there are.
pub struct Data {
    pub for_each: Vec<DataEntry>,
    pub length: usize,
}

/// A provider hand-over is well formed when its length states the record
/// count.
pub open spec fn data_wf(d: &Data) -> bool {
    d.length == d.for_each@.len()
}



/// The views of a sequence of diagnostics.
pub open spec fn diag_views(s: Seq<Diagnostic>) -> Seq<DiagnosticV> {
    s.map_values(|d: Diagnostic| d@)
}

/// The views of a sequence of linked assets.
pub open spec fn linked_views(s: Seq<Linked>) -> Seq<LinkedV> {
    s.map_values(|l: Linked| l@)
}


/// Whatever the lookup answers carries the looked-up name.
pub proof fn lemma_map_lookup_name(s: Seq<PropV>, name: Seq<char>)
    ensures
        map_lookup(s, name) matches Some(p) ==> p.name == name,
    decreases s.len(),
{
    if s.len() > 0 && s[0].name != name {
        lemma_map_lookup_name(s.drop_first(), name);
    }
}

} // verus!
