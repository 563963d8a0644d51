use indexmap::IndexMap;
use vstd::prelude::*;

verus! {

#[verifier::external_type_specification]
#[verifier::external_body]
#[verifier::reject_recursive_types(K)]
#[verifier::reject_recursive_types(V)]
#[verifier::reject_recursive_types(S)]
pub struct ExIndexMap<K, V, S>(IndexMap<K, V, S>);

/// The entries of a map whose values are all present, in the map's order.
pub uninterp spec fn plain_style_entries(m: IndexMap<String, String>) -> Seq<(Seq<char>, Seq<char>)>;

/// Relies on `IndexMap`'s `IntoIterator` and `FromIterator`: the entries come out in
/// order, and collecting entries with distinct names keeps them in that order.
#[verifier::external_body]
fn lift_plain_map(m: IndexMap<String, String>) -> (r: StyleMap)
    ensures
        style_entries(r) == plain_style_entries(m).map_values(|e: (Seq<char>, Seq<char>)| (e.0, Some(e.1))),
{
    m.into_iter().map(|(key, value)| (key, Some(value))).collect()
}

/// Relies on `IndexMap`'s `Clone`, which the style types' derived `Clone` calls;
/// nothing is stated of the copy.
pub assume_specification<K, V, S>[ <IndexMap<K, V, S> as Clone>::clone ](m: &IndexMap<K, V, S>) -> IndexMap<K, V, S>
    where
        K: Clone,
        V: Clone,
        S: Clone,
;

/// A structured style: property names mapped to optional values, in insertion order.
pub type StyleMap = IndexMap<String, Option<String>>;

/// One property of a structured style, as plain values.
pub type StyleEntry = (Seq<char>, Option<Seq<char>>);

/// The entries of a structured style, in the map's order.
pub uninterp spec fn style_entries(m: StyleMap) -> Seq<StyleEntry>;

/// Whether some entry has the property name `k`.
pub open spec fn has_key(s: Seq<StyleEntry>, k: Seq<char>) -> bool {
    exists|j: int| 0 <= j < s.len() && s[j].0 == k
}

/// The entries after inserting `(k, v)`: an entry with the same name keeps its
/// place and takes the new value; a new name goes last.
pub open spec fn insert_entry(s: Seq<StyleEntry>, k: Seq<char>, v: Option<Seq<char>>) -> Seq<StyleEntry> {
    if has_key(s, k) {
        let j = choose|j: int| 0 <= j < s.len() && s[j].0 == k;
        s.update(j, (k, v))
    } else {
        s.push((k, v))
    }
}

/// Inserting each of `s`, in order, into `base`.
pub open spec fn insert_all(base: Seq<StyleEntry>, s: Seq<StyleEntry>) -> Seq<StyleEntry>
    decreases s.len(),
{
    if s.len() == 0 {
        base
    } else {
        let last = s.last();
        insert_entry(insert_all(base, s.drop_last()), last.0, last.1)
    }
}

/// The declaration `name: value;` of an entry, when it has a non-empty value.
pub open spec fn declaration(e: StyleEntry) -> Option<Seq<char>> {
    match e.1 {
        Some(v) => if v.len() > 0 {
            Some(e.0 + seq![':', ' '] + v + seq![';'])
        } else {
            None
        },
        None => None,
    }
}

/// The declarations of the entries that have a non-empty value, in order.
pub open spec fn declarations(s: Seq<StyleEntry>) -> Seq<Seq<char>>
    decreases s.len(),
{
    if s.len() == 0 {
        seq![]
    } else {
        match declaration(s.last()) {
            Some(d) => declarations(s.drop_last()).push(d),
            None => declarations(s.drop_last()),
        }
    }
}

/// The items joined with a single space between neighbours.
pub open spec fn join_spaced(items: Seq<Seq<char>>) -> Seq<char>
    decreases items.len(),
{
    if items.len() == 0 {
        seq![]
    } else if items.len() == 1 {
        items[0]
    } else {
        join_spaced(items.drop_last()) + seq![' '] + items.last()
    }
}

/// The inline CSS text of structured entries.
pub open spec fn css_text(s: Seq<StyleEntry>) -> Seq<char> {
    join_spaced(declarations(s))
}

/// Relies on `IndexMap::new`: a map without entries.
#[verifier::external_body]
fn new_map() -> (r: StyleMap)
    ensures
        style_entries(r) == Seq::<StyleEntry>::empty(),
{
    IndexMap::new()
}

/// Relies on `IndexMap::len`: the number of entries.
#[verifier::external_body]
fn map_len(m: &StyleMap) -> (r: usize)
    ensures
        r == style_entries(*m).len(),
{
    m.len()
}

/// Relies on `IndexMap::get_index`: the entry at a position of the order. As
/// in any `IndexMap`, no other entry has its name.
#[verifier::external_body]
fn map_get_index(m: &StyleMap, i: usize) -> (r: Option<(&String, &Option<String>)>)
    ensures
        i < style_entries(*m).len() ==> r.is_some() && r.unwrap().0@ == style_entries(*m)[i as int].0
            && r.unwrap().1.deep_view() == style_entries(*m)[i as int].1,
        i < style_entries(*m).len() ==> forall|j: int|
            0 <= j < style_entries(*m).len() && j != i ==> style_entries(*m)[j].0 != r.unwrap().0@,
        i >= style_entries(*m).len() ==> r.is_none(),
{
    m.get_index(i)
}

/// Relies on `IndexMap::insert`: an existing name keeps its place and takes the
/// new value, a new name is appended.
#[verifier::external_body]
fn map_insert(m: &mut StyleMap, k: String, v: Option<String>)
    ensures
        style_entries(*final(m)) == insert_entry(style_entries(*old(m)), k@, v.deep_view()),
{
    m.insert(k, v);
}

proof fn lemma_join_push(items: Seq<Seq<char>>, d: Seq<char>)
    ensures
        join_spaced(items.push(d)) == if items.len() == 0 {
            d
        } else {
            join_spaced(items) + seq![' '] + d
        },
{
    assert(items.push(d).drop_last() =~= items);
}

/// The inline CSS text of a structured style: `name: value;` for each entry with
/// a non-empty value, in order, separated by single spaces.
pub fn style_map_to_string(map: &StyleMap) -> (r: String)
    ensures
        r@ == css_text(style_entries(*map)),
        distinct_names(style_entries(*map)),
{
    let ghost entries = style_entries(*map);
    let n = map_len(map);
    let mut out = String::new();
    let mut first = true;
    let mut i: usize = 0;
    proof {
        assert(entries.subrange(0, 0) =~= Seq::<StyleEntry>::empty());
    }
    while i < n
        invariant
            n == entries.len(),
            entries == style_entries(*map),
            i <= n,
            out@ == join_spaced(declarations(entries.subrange(0, i as int))),
            first == (declarations(entries.subrange(0, i as int)).len() == 0),
            forall|a: int, b: int| 0 <= a < b < n && a < i ==> entries[a].0 != entries[b].0,
        decreases n - i,
    {
        let ghost before = entries.subrange(0, i as int);
        let ghost after = entries.subrange(0, i + 1);
        assert(after.drop_last() =~= before);
        assert(after.last() == entries[i as int]);
        if let Some((k, v)) = map_get_index(map, i) {
            if let Some(val) = v {
                if !val.as_str().is_empty() {
                    let ghost d = entries[i as int].0 + seq![':', ' '] + val@ + seq![';'];
                    proof {
                        assert(declaration(entries[i as int]) == Some(d));
                        assert(declarations(after) == declarations(before).push(d));
                        lemma_join_push(declarations(before), d);
                    }
                    proof {
                        reveal_strlit(" ");
                        reveal_strlit(": ");
                        reveal_strlit(";");
                    }
                    if !first {
                        out.append(" ");
                    }
                    out.append(k.as_str());
                    out.append(": ");
                    out.append(val.as_str());
                    out.append(";");
                    first = false;
                    assert(out@ =~= join_spaced(declarations(after)));
                }
            }
        }
        i = i + 1;
    }
    assert(entries.subrange(0, n as int) =~= entries);
    out
}

/// Whether no two entries share a property name, as in any map.
pub open spec fn distinct_names(s: Seq<StyleEntry>) -> bool {
    forall|i: int, j: int| 0 <= i < j < s.len() ==> s[i].0 != s[j].0
}

/// The value of the entry named `k`, if there is one.
pub open spec fn value_of(s: Seq<StyleEntry>, k: Seq<char>) -> Option<Option<Seq<char>>> {
    if has_key(s, k) {
        Some(s[choose|j: int| 0 <= j < s.len() && s[j].0 == k].1)
    } else {
        None
    }
}

proof fn lemma_value_at(s: Seq<StyleEntry>, j: int)
    requires
        distinct_names(s),
        0 <= j < s.len(),
    ensures
        value_of(s, s[j].0) == Some(s[j].1),
{
    let k = s[j].0;
    assert(has_key(s, k));
    let c = choose|c: int| 0 <= c < s.len() && s[c].0 == k;
    assert(c == j);
}

proof fn lemma_insert_entry(s: Seq<StyleEntry>, k: Seq<char>, v: Option<Seq<char>>, k2: Seq<char>)
    requires
        distinct_names(s),
    ensures
        distinct_names(insert_entry(s, k, v)),
        value_of(insert_entry(s, k, v), k2) == if k2 == k {
            Some(v)
        } else {
            value_of(s, k2)
        },
{
    let r = insert_entry(s, k, v);
    if has_key(s, k) {
        let j = choose|j: int| 0 <= j < s.len() && s[j].0 == k;
        assert(r == s.update(j, (k, v)));
        assert forall|a: int, b: int| 0 <= a < b < r.len() implies r[a].0 != r[b].0 by {
            assert(r[a].0 == s[a].0);
            assert(r[b].0 == s[b].0);
        }
    } else {
        assert(r == s.push((k, v)));
        assert forall|a: int, b: int| 0 <= a < b < r.len() implies r[a].0 != r[b].0 by {
            if b == s.len() {
                assert(s[a].0 != k);
            }
        }
    }
    if k2 == k {
        let j = if has_key(s, k) {
            choose|j: int| 0 <= j < s.len() && s[j].0 == k
        } else {
            s.len() as int
        };
        assert(r[j] == (k, v));
        lemma_value_at(r, j);
    } else if has_key(s, k2) {
        let j2 = choose|j: int| 0 <= j < s.len() && s[j].0 == k2;
        lemma_value_at(s, j2);
        assert(r[j2] == s[j2]);
        lemma_value_at(r, j2);
    } else {
        assert forall|j: int| 0 <= j < r.len() implies r[j].0 != k2 by {
            if j < s.len() {
                assert(r[j].0 == s[j].0);
            }
        }
    }
}

proof fn lemma_insert_all(base: Seq<StyleEntry>, s: Seq<StyleEntry>, k: Seq<char>)
    requires
        distinct_names(base),
        distinct_names(s),
    ensures
        distinct_names(insert_all(base, s)),
        value_of(insert_all(base, s), k) == if has_key(s, k) {
            value_of(s, k)
        } else {
            value_of(base, k)
        },
    decreases s.len(),
{
    if s.len() > 0 {
        let init = s.drop_last();
        let last = s.last();
        assert(distinct_names(init));
        lemma_insert_all(base, init, k);
        lemma_insert_all(base, init, last.0);
        lemma_insert_entry(insert_all(base, init), last.0, last.1, k);
        if k == last.0 {
            lemma_value_at(s, s.len() - 1);
        } else if has_key(init, k) {
            let j = choose|j: int| 0 <= j < init.len() && init[j].0 == k;
            lemma_value_at(init, j);
            assert(s[j] == init[j]);
            lemma_value_at(s, j);
        } else {
            assert forall|j: int| 0 <= j < s.len() implies s[j].0 != k by {
                if j < init.len() {
                    assert(s[j] == init[j]);
                }
            }
        }
    }
}

/// Inserting entries one by one keeps property names distinct, so every
/// structured style that this library builds has distinct names.
pub proof fn lemma_inserted_names_distinct(base: Seq<StyleEntry>, s: Seq<StyleEntry>)
    requires
        distinct_names(base),
    ensures
        distinct_names(insert_all(base, s)),
    decreases s.len(),
{
    if s.len() > 0 {
        lemma_inserted_names_distinct(base, s.drop_last());
        lemma_insert_entry(insert_all(base, s.drop_last()), s.last().0, s.last().1, s.last().0);
    }
}

proof fn lemma_insert_distinct_from_empty(s: Seq<StyleEntry>)
    requires
        distinct_names(s),
    ensures
        insert_all(Seq::empty(), s) == s,
    decreases s.len(),
{
    if s.len() > 0 {
        let init = s.drop_last();
        assert(distinct_names(init));
        lemma_insert_distinct_from_empty(init);
        assert(!has_key(init, s.last().0)) by {
            assert forall|j: int| 0 <= j < init.len() implies init[j].0 != s.last().0 by {
                assert(init[j] == s[j]);
            }
        }
        assert(init.push(s.last()) =~= s);
    }
}

proof fn lemma_insert_present(base: Seq<StyleEntry>, s: Seq<StyleEntry>)
    requires
        distinct_names(base),
        forall|k: int| 0 <= k < s.len() ==> base.contains(#[trigger] s[k]),
    ensures
        insert_all(base, s) == base,
    decreases s.len(),
{
    if s.len() > 0 {
        let init = s.drop_last();
        assert forall|k: int| 0 <= k < init.len() implies base.contains(#[trigger] init[k]) by {
            assert(init[k] == s[k]);
        }
        lemma_insert_present(base, init);
        let e = s.last();
        assert(base.contains(s[s.len() - 1]));
        let i = choose|i: int| 0 <= i < base.len() && base[i] == e;
        assert(has_key(base, e.0));
        let j = choose|j: int| 0 <= j < base.len() && base[j].0 == e.0;
        assert(j == i);
        assert(base.update(j, (e.0, e.1)) =~= base);
    }
}

/// Merging a structured style over itself gives it back.
pub proof fn lemma_merge_with_itself(style: Seq<StyleEntry>)
    requires
        distinct_names(style),
    ensures
        merged_entries(style, style) == style,
{
    lemma_insert_distinct_from_empty(style);
    assert forall|k: int| 0 <= k < style.len() implies style.contains(#[trigger] style[k]) by {}
    lemma_insert_present(style, style);
}

/// Merging structured styles keeps property names distinct, and each name has
/// the style's value where the style sets it, and the defaults' value otherwise.
pub proof fn lemma_style_over_defaults(style: Seq<StyleEntry>, defaults: Seq<StyleEntry>, k: Seq<char>)
    requires
        distinct_names(style),
        distinct_names(defaults),
    ensures
        distinct_names(merged_entries(style, defaults)),
        value_of(merged_entries(style, defaults), k) == if has_key(style, k) {
            value_of(style, k)
        } else {
            value_of(defaults, k)
        },
{
    let empty = Seq::<StyleEntry>::empty();
    lemma_insert_all(empty, defaults, k);
    lemma_insert_all(insert_all(empty, defaults), style, k);
    assert(!has_key(empty, k));
}

/// The plain-value model of a style.
pub enum StyleModel {
    /// Inline CSS text, kept as written.
    Text(Seq<char>),
    /// Structured entries, in order.
    Entries(Seq<StyleEntry>),
}

/// The CSS text that a style renders to.
pub open spec fn model_text(m: StyleModel) -> Seq<char> {
    match m {
        StyleModel::Text(t) => t,
        StyleModel::Entries(e) => css_text(e),
    }
}

/// The entries of `defaults`, with each entry of `style` inserted over them.
pub open spec fn merged_entries(style: Seq<StyleEntry>, defaults: Seq<StyleEntry>) -> Seq<StyleEntry> {
    insert_all(insert_all(Seq::empty(), defaults), style)
}

/// A style merged with its defaults: two structured styles merge entry by entry,
/// the style's values winning; otherwise the texts are joined, defaults first.
pub open spec fn merged(style: StyleModel, defaults: StyleModel) -> StyleModel {
    match (style, defaults) {
        (StyleModel::Entries(e), StyleModel::Entries(d)) => StyleModel::Entries(merged_entries(e, d)),
        _ => StyleModel::Text(model_text(defaults) + seq![' '] + model_text(style)),
    }
}

/// A style value, either inline CSS text or structured properties.
#[derive(Clone, Debug, PartialEq)]
pub enum InnerStyle {
    String(String),
    Structured(StyleMap),
}

impl View for InnerStyle {
    type V = StyleModel;

    open spec fn view(&self) -> StyleModel {
        match self {
            InnerStyle::String(s) => StyleModel::Text(s@),
            InnerStyle::Structured(m) => StyleModel::Entries(style_entries(*m)),
        }
    }
}

fn clone_value(v: &Option<String>) -> (r: Option<String>)
    ensures
        r.deep_view() == v.deep_view(),
{
    match v {
        Some(s) => Some(s.clone()),
        None => None,
    }
}

/// Inserts every entry of `src`, in order, into `dst`.
fn insert_from(dst: &mut StyleMap, src: &StyleMap)
    ensures
        style_entries(*final(dst)) == insert_all(style_entries(*old(dst)), style_entries(*src)),
{
    let ghost base = style_entries(*dst);
    let ghost entries = style_entries(*src);
    let n = map_len(src);
    let mut i: usize = 0;
    assert(entries.subrange(0, 0) =~= Seq::<StyleEntry>::empty());
    while i < n
        invariant
            n == entries.len(),
            entries == style_entries(*src),
            i <= n,
            style_entries(*dst) == insert_all(base, entries.subrange(0, i as int)),
        decreases n - i,
    {
        let ghost after = entries.subrange(0, i + 1);
        assert(after.drop_last() =~= entries.subrange(0, i as int));
        if let Some((k, v)) = map_get_index(src, i) {
            map_insert(dst, k.clone(), clone_value(v));
        }
        i = i + 1;
    }
    assert(entries.subrange(0, n as int) =~= entries);
}

impl InnerStyle {
    /// This style merged with `defaults` (see `merged`).
    pub fn with_defaults(self, defaults: InnerStyle) -> (r: InnerStyle)
        ensures
            r@ == merged(self@, defaults@),
    {
        proof {
            reveal_strlit(" ");
        }
        match (self, defaults) {
            (InnerStyle::String(string), InnerStyle::String(default_string)) => {
                let r = default_string.concat(" ").concat(string.as_str());
                assert(r@ =~= default_string@ + seq![' '] + string@);
                InnerStyle::String(r)
            },
            (InnerStyle::String(string), InnerStyle::Structured(default_map)) => {
                let r = style_map_to_string(&default_map).concat(" ").concat(string.as_str());
                assert(r@ =~= css_text(style_entries(default_map)) + seq![' '] + string@);
                InnerStyle::String(r)
            },
            (InnerStyle::Structured(map), InnerStyle::String(default_string)) => {
                let r = default_string.concat(" ").concat(style_map_to_string(&map).as_str());
                assert(r@ =~= default_string@ + seq![' '] + css_text(style_entries(map)));
                InnerStyle::String(r)
            },
            (InnerStyle::Structured(map), InnerStyle::Structured(default_map)) => {
                let mut out = new_map();
                insert_from(&mut out, &default_map);
                insert_from(&mut out, &map);
                InnerStyle::Structured(out)
            },
        }
    }

    /// The CSS text of this style.
    pub fn to_string(&self) -> (r: String)
        ensures
            r@ == model_text(self@),
    {
        match self {
            InnerStyle::String(string) => string.clone(),
            InnerStyle::Structured(map) => style_map_to_string(map),
        }
    }
}

/// The style that `style` becomes over `defaults`: merged when both are set,
/// otherwise whichever is set.
pub open spec fn merged_style(style: Option<StyleModel>, defaults: Option<StyleModel>) -> Option<StyleModel> {
    match (style, defaults) {
        (Some(s), Some(d)) => Some(merged(s, d)),
        (Some(s), None) => Some(s),
        (None, Some(d)) => Some(d),
        (None, None) => None,
    }
}

/// The CSS text of an optional style: empty when unset.
pub open spec fn style_text(s: Option<StyleModel>) -> Seq<char> {
    match s {
        Some(m) => model_text(m),
        None => seq![],
    }
}

/// An optional style value, as a component property.
#[derive(Clone, Debug, PartialEq)]
pub struct Style(pub Option<InnerStyle>);

impl View for Style {
    type V = Option<StyleModel>;

    open spec fn view(&self) -> Option<StyleModel> {
        match self.0 {
            Some(s) => Some(s@),
            None => None,
        }
    }
}

impl core::ops::Deref for Style {
    type Target = Option<InnerStyle>;

    fn deref(&self) -> &Option<InnerStyle> {
        &self.0
    }
}

impl Default for Style {
    fn default() -> (r: Style)
        ensures
            r@ is None,
    {
        Style(None)
    }
}

impl Style {
    /// The unset style.
    pub fn new() -> (r: Style)
        ensures
            r@ is None,
    {
        Style(None)
    }

    /// This style over `defaults` (see `merged_style`).
    pub fn merge_defaults(self, defaults: Style) -> (r: Style)
        ensures
            r@ == merged_style(self@, defaults@),
    {
        Style(
            match (self.0, defaults.0) {
                (Some(style), Some(defaults)) => Some(style.with_defaults(defaults)),
                (Some(style), None) => Some(style),
                (None, Some(defaults)) => Some(defaults),
                (None, None) => None,
            },
        )
    }

    /// This style over the style that `defaults` stands for.
    pub fn with_defaults<I: StyleSource>(self, defaults: I) -> (r: Style)
        ensures
            r@ == merged_style(self@, defaults.style_view()),
    {
        let defaults = defaults.into_style();
        self.merge_defaults(defaults)
    }

    /// The CSS text of this style; empty when unset.
    pub fn to_string(&self) -> (r: String)
        ensures
            r@ == style_text(self@),
    {
        match &self.0 {
            Some(inner_style) => inner_style.to_string(),
            None => String::new(),
        }
    }
}

/// A structured style built from its entries, inserted in order.
fn map_from_pairs(pairs: Vec<(String, Option<String>)>) -> (r: StyleMap)
    ensures
        style_entries(r) == insert_all(Seq::empty(), pairs.deep_view()),
{
    let ghost entries = pairs.deep_view();
    let mut map = new_map();
    let mut i: usize = 0;
    assert(entries.subrange(0, 0) =~= Seq::<StyleEntry>::empty());
    while i < pairs.len()
        invariant
            entries == pairs.deep_view(),
            i <= pairs.len(),
            style_entries(map) == insert_all(Seq::empty(), entries.subrange(0, i as int)),
        decreases pairs.len() - i,
    {
        let ghost after = entries.subrange(0, i + 1);
        assert(after.drop_last() =~= entries.subrange(0, i as int));
        let key = pairs[i].0.clone();
        let value = clone_value(&pairs[i].1);
        map_insert(&mut map, key, value);
        i = i + 1;
    }
    assert(entries.subrange(0, pairs.len() as int) =~= entries);
    map
}

/// A structured style of the given entries, inserted in order.
pub fn structured(pairs: Vec<(String, Option<String>)>) -> (r: Style)
    ensures
        r@ == Some(StyleModel::Entries(insert_all(Seq::empty(), pairs.deep_view()))),
{
    Style(Some(InnerStyle::Structured(map_from_pairs(pairs))))
}

/// A value that can stand for a style: text, entries, or a style itself.
pub trait StyleSource: Sized {
    /// The style that this value stands for.
    spec fn style_view(&self) -> Option<StyleModel>;

    /// Builds the style that this value stands for.
    fn into_style(self) -> (r: Style)
        ensures
            r@ == self.style_view(),
    ;
}

impl StyleSource for Style {
    open spec fn style_view(&self) -> Option<StyleModel> {
        self@
    }

    fn into_style(self) -> (r: Style) {
        self
    }
}

impl StyleSource for &str {
    open spec fn style_view(&self) -> Option<StyleModel> {
        Some(StyleModel::Text(self@))
    }

    fn into_style(self) -> (r: Style) {
        Style(Some(InnerStyle::String(String::from_str(self))))
    }
}

impl StyleSource for Option<&str> {
    open spec fn style_view(&self) -> Option<StyleModel> {
        match self {
            Some(text) => Some(StyleModel::Text(text@)),
            None => None,
        }
    }

    fn into_style(self) -> (r: Style) {
        match self {
            Some(text) => Style(Some(InnerStyle::String(String::from_str(text)))),
            None => Style(None),
        }
    }
}

impl StyleSource for String {
    open spec fn style_view(&self) -> Option<StyleModel> {
        Some(StyleModel::Text(self@))
    }

    fn into_style(self) -> (r: Style) {
        Style(Some(InnerStyle::String(self)))
    }
}

impl StyleSource for Option<String> {
    open spec fn style_view(&self) -> Option<StyleModel> {
        match self {
            Some(text) => Some(StyleModel::Text(text@)),
            None => None,
        }
    }

    fn into_style(self) -> (r: Style) {
        match self {
            Some(text) => Style(Some(InnerStyle::String(text))),
            None => Style(None),
        }
    }
}

impl StyleSource for StyleMap {
    open spec fn style_view(&self) -> Option<StyleModel> {
        Some(StyleModel::Entries(style_entries(*self)))
    }

    fn into_style(self) -> (r: Style) {
        Style(Some(InnerStyle::Structured(self)))
    }
}

/// The entries of a map whose values are all present, each value set.
pub open spec fn present_entries(s: Seq<(Seq<char>, Seq<char>)>) -> Seq<StyleEntry> {
    s.map_values(|e: (Seq<char>, Seq<char>)| (e.0, Some(e.1)))
}

impl StyleSource for IndexMap<String, String> {
    open spec fn style_view(&self) -> Option<StyleModel> {
        Some(StyleModel::Entries(present_entries(plain_style_entries(*self))))
    }

    fn into_style(self) -> (r: Style) {
        Style(Some(InnerStyle::Structured(lift_plain_map(self))))
    }
}

impl From<Option<&str>> for Style {
    fn from(value: Option<&str>) -> (r: Style)
        ensures
            r@ == value.style_view(),
    {
        value.into_style()
    }
}

impl From<&str> for Style {
    fn from(value: &str) -> (r: Style)
        ensures
            r@ == value.style_view(),
    {
        value.into_style()
    }
}

impl From<IndexMap<String, String>> for Style {
    fn from(value: IndexMap<String, String>) -> (r: Style)
        ensures
            r@ == value.style_view(),
    {
        value.into_style()
    }
}

impl From<Option<String>> for Style {
    fn from(value: Option<String>) -> Style {
        match value {
            Some(text) => Style(Some(InnerStyle::String(text))),
            None => Style(None),
        }
    }
}

impl vstd::std_specs::convert::FromSpecImpl<Option<String>> for Style {
    open spec fn obeys_from_spec() -> bool {
        true
    }

    open spec fn from_spec(v: Option<String>) -> Style {
        match v {
            Some(text) => Style(Some(InnerStyle::String(text))),
            None => Style(None),
        }
    }
}

impl From<String> for Style {
    fn from(value: String) -> Style {
        Style(Some(InnerStyle::String(value)))
    }
}

impl vstd::std_specs::convert::FromSpecImpl<String> for Style {
    open spec fn obeys_from_spec() -> bool {
        true
    }

    open spec fn from_spec(v: String) -> Style {
        Style(Some(InnerStyle::String(v)))
    }
}

impl From<StyleMap> for Style {
    fn from(value: StyleMap) -> Style {
        Style(Some(InnerStyle::Structured(value)))
    }
}

impl vstd::std_specs::convert::FromSpecImpl<StyleMap> for Style {
    open spec fn obeys_from_spec() -> bool {
        true
    }

    open spec fn from_spec(v: StyleMap) -> Style {
        Style(Some(InnerStyle::Structured(v)))
    }
}

/// `from` states what it builds over the style's view (`StyleSource::style_view`).
impl vstd::std_specs::convert::FromSpecImpl<Option<&str>> for Style {
    open spec fn obeys_from_spec() -> bool {
        false
    }

    open spec fn from_spec(v: Option<&str>) -> Style {
        arbitrary()
    }
}

/// `from` states what it builds over the style's view (`StyleSource::style_view`).
impl vstd::std_specs::convert::FromSpecImpl<&str> for Style {
    open spec fn obeys_from_spec() -> bool {
        false
    }

    open spec fn from_spec(v: &str) -> Style {
        arbitrary()
    }
}

/// `from` states what it builds over the style's view (`StyleSource::style_view`).
impl vstd::std_specs::convert::FromSpecImpl<IndexMap<String, String>> for Style {
    open spec fn obeys_from_spec() -> bool {
        false
    }

    open spec fn from_spec(v: IndexMap<String, String>) -> Style {
        arbitrary()
    }
}

/// The entry that a `(&str, Option<&str>)` pair stands for.
pub open spec fn entry_of_str_opt_str(p: (&str, Option<&str>)) -> StyleEntry {
    (p.0@, match p.1 { Some(v) => Some(v@), None => None })
}

impl<const N: usize> StyleSource for [(&str, Option<&str>); N] {
    open spec fn style_view(&self) -> Option<StyleModel> {
        Some(StyleModel::Entries(insert_all(Seq::empty(), self@.map_values(|p: (&str, Option<&str>)| entry_of_str_opt_str(p)))))
    }

    fn into_style(self) -> (r: Style) {
        let value = self;
        let mut pairs: Vec<(String, Option<String>)> = Vec::new();
        let mut i: usize = 0;
        while i < N
            invariant
                i <= N,
                value@.len() == N,
                pairs.deep_view() == value@.take(i as int).map_values(|p: (&str, Option<&str>)| entry_of_str_opt_str(p)),
            decreases N - i,
        {
            let key = String::from_str(value[i].0);
            let v = match value[i].1 {
                Some(text) => Some(String::from_str(text)),
                None => None,
            };
            let ghost prev = pairs.deep_view();
            assert((key@, v.deep_view()) == entry_of_str_opt_str(value@[i as int]));
            pairs.push((key, v));
            assert(pairs.deep_view() =~= prev.push(entry_of_str_opt_str(value@[i as int])));
            assert(value@.take(i + 1) =~= value@.take(i as int).push(value@[i as int]));
            assert(pairs.deep_view() =~= value@.take(i + 1).map_values(|p: (&str, Option<&str>)| entry_of_str_opt_str(p)));
            i = i + 1;
        }
        assert(value@.take(N as int) =~= value@);
        structured(pairs)
    }
}

impl<const N: usize> From<[(&str, Option<&str>); N]> for Style {
    fn from(value: [(&str, Option<&str>); N]) -> Style {
        value.into_style()
    }
}

/// `from` states what it builds over the style's view (`StyleSource::style_view`).
impl<const N: usize> vstd::std_specs::convert::FromSpecImpl<[(&str, Option<&str>); N]> for Style {
    open spec fn obeys_from_spec() -> bool {
        false
    }

    open spec fn from_spec(v: [(&str, Option<&str>); N]) -> Style {
        arbitrary()
    }
}

/// The entry that a `(&str, &str)` pair stands for.
pub open spec fn entry_of_str_str(p: (&str, &str)) -> StyleEntry {
    (p.0@, Some(p.1@))
}

impl<const N: usize> StyleSource for [(&str, &str); N] {
    open spec fn style_view(&self) -> Option<StyleModel> {
        Some(StyleModel::Entries(insert_all(Seq::empty(), self@.map_values(|p: (&str, &str)| entry_of_str_str(p)))))
    }

    fn into_style(self) -> (r: Style) {
        let value = self;
        let mut pairs: Vec<(String, Option<String>)> = Vec::new();
        let mut i: usize = 0;
        while i < N
            invariant
                i <= N,
                value@.len() == N,
                pairs.deep_view() == value@.take(i as int).map_values(|p: (&str, &str)| entry_of_str_str(p)),
            decreases N - i,
        {
            let key = String::from_str(value[i].0);
            let v = Some(String::from_str(value[i].1));
            let ghost prev = pairs.deep_view();
            assert((key@, v.deep_view()) == entry_of_str_str(value@[i as int]));
            pairs.push((key, v));
            assert(pairs.deep_view() =~= prev.push(entry_of_str_str(value@[i as int])));
            assert(value@.take(i + 1) =~= value@.take(i as int).push(value@[i as int]));
            assert(pairs.deep_view() =~= value@.take(i + 1).map_values(|p: (&str, &str)| entry_of_str_str(p)));
            i = i + 1;
        }
        assert(value@.take(N as int) =~= value@);
        structured(pairs)
    }
}

impl<const N: usize> From<[(&str, &str); N]> for Style {
    fn from(value: [(&str, &str); N]) -> Style {
        value.into_style()
    }
}

/// `from` states what it builds over the style's view (`StyleSource::style_view`).
impl<const N: usize> vstd::std_specs::convert::FromSpecImpl<[(&str, &str); N]> for Style {
    open spec fn obeys_from_spec() -> bool {
        false
    }

    open spec fn from_spec(v: [(&str, &str); N]) -> Style {
        arbitrary()
    }
}

/// The entry that a `(&str, Option<String>)` pair stands for.
pub open spec fn entry_of_str_opt_string(p: (&str, Option<String>)) -> StyleEntry {
    (p.0@, p.1.deep_view())
}

impl<const N: usize> StyleSource for [(&str, Option<String>); N] {
    open spec fn style_view(&self) -> Option<StyleModel> {
        Some(StyleModel::Entries(insert_all(Seq::empty(), self@.map_values(|p: (&str, Option<String>)| entry_of_str_opt_string(p)))))
    }

    fn into_style(self) -> (r: Style) {
        let value = self;
        let mut pairs: Vec<(String, Option<String>)> = Vec::new();
        let mut i: usize = 0;
        while i < N
            invariant
                i <= N,
                value@.len() == N,
                pairs.deep_view() == value@.take(i as int).map_values(|p: (&str, Option<String>)| entry_of_str_opt_string(p)),
            decreases N - i,
        {
            let key = String::from_str(value[i].0);
            let v = clone_value(&value[i].1);
            let ghost prev = pairs.deep_view();
            assert((key@, v.deep_view()) == entry_of_str_opt_string(value@[i as int]));
            pairs.push((key, v));
            assert(pairs.deep_view() =~= prev.push(entry_of_str_opt_string(value@[i as int])));
            assert(value@.take(i + 1) =~= value@.take(i as int).push(value@[i as int]));
            assert(pairs.deep_view() =~= value@.take(i + 1).map_values(|p: (&str, Option<String>)| entry_of_str_opt_string(p)));
            i = i + 1;
        }
        assert(value@.take(N as int) =~= value@);
        structured(pairs)
    }
}

impl<const N: usize> From<[(&str, Option<String>); N]> for Style {
    fn from(value: [(&str, Option<String>); N]) -> Style {
        value.into_style()
    }
}

/// `from` states what it builds over the style's view (`StyleSource::style_view`).
impl<const N: usize> vstd::std_specs::convert::FromSpecImpl<[(&str, Option<String>); N]> for Style {
    open spec fn obeys_from_spec() -> bool {
        false
    }

    open spec fn from_spec(v: [(&str, Option<String>); N]) -> Style {
        arbitrary()
    }
}

/// The entry that a `(&str, String)` pair stands for.
pub open spec fn entry_of_str_string(p: (&str, String)) -> StyleEntry {
    (p.0@, Some(p.1@))
}

impl<const N: usize> StyleSource for [(&str, String); N] {
    open spec fn style_view(&self) -> Option<StyleModel> {
        Some(StyleModel::Entries(insert_all(Seq::empty(), self@.map_values(|p: (&str, String)| entry_of_str_string(p)))))
    }

    fn into_style(self) -> (r: Style) {
        let value = self;
        let mut pairs: Vec<(String, Option<String>)> = Vec::new();
        let mut i: usize = 0;
        while i < N
            invariant
                i <= N,
                value@.len() == N,
                pairs.deep_view() == value@.take(i as int).map_values(|p: (&str, String)| entry_of_str_string(p)),
            decreases N - i,
        {
            let key = String::from_str(value[i].0);
            let v = Some(value[i].1.clone());
            let ghost prev = pairs.deep_view();
            assert((key@, v.deep_view()) == entry_of_str_string(value@[i as int]));
            pairs.push((key, v));
            assert(pairs.deep_view() =~= prev.push(entry_of_str_string(value@[i as int])));
            assert(value@.take(i + 1) =~= value@.take(i as int).push(value@[i as int]));
            assert(pairs.deep_view() =~= value@.take(i + 1).map_values(|p: (&str, String)| entry_of_str_string(p)));
            i = i + 1;
        }
        assert(value@.take(N as int) =~= value@);
        structured(pairs)
    }
}

impl<const N: usize> From<[(&str, String); N]> for Style {
    fn from(value: [(&str, String); N]) -> Style {
        value.into_style()
    }
}

/// `from` states what it builds over the style's view (`StyleSource::style_view`).
impl<const N: usize> vstd::std_specs::convert::FromSpecImpl<[(&str, String); N]> for Style {
    open spec fn obeys_from_spec() -> bool {
        false
    }

    open spec fn from_spec(v: [(&str, String); N]) -> Style {
        arbitrary()
    }
}

/// The entry that a `(String, Option<String>)` pair stands for.
pub open spec fn entry_of_string_opt_string(p: (String, Option<String>)) -> StyleEntry {
    (p.0@, p.1.deep_view())
}

impl<const N: usize> StyleSource for [(String, Option<String>); N] {
    open spec fn style_view(&self) -> Option<StyleModel> {
        Some(StyleModel::Entries(insert_all(Seq::empty(), self@.map_values(|p: (String, Option<String>)| entry_of_string_opt_string(p)))))
    }

    fn into_style(self) -> (r: Style) {
        let value = self;
        let mut pairs: Vec<(String, Option<String>)> = Vec::new();
        let mut i: usize = 0;
        while i < N
            invariant
                i <= N,
                value@.len() == N,
                pairs.deep_view() == value@.take(i as int).map_values(|p: (String, Option<String>)| entry_of_string_opt_string(p)),
            decreases N - i,
        {
            let key = value[i].0.clone();
            let v = clone_value(&value[i].1);
            let ghost prev = pairs.deep_view();
            assert((key@, v.deep_view()) == entry_of_string_opt_string(value@[i as int]));
            pairs.push((key, v));
            assert(pairs.deep_view() =~= prev.push(entry_of_string_opt_string(value@[i as int])));
            assert(value@.take(i + 1) =~= value@.take(i as int).push(value@[i as int]));
            assert(pairs.deep_view() =~= value@.take(i + 1).map_values(|p: (String, Option<String>)| entry_of_string_opt_string(p)));
            i = i + 1;
        }
        assert(value@.take(N as int) =~= value@);
        structured(pairs)
    }
}

impl<const N: usize> From<[(String, Option<String>); N]> for Style {
    fn from(value: [(String, Option<String>); N]) -> Style {
        value.into_style()
    }
}

/// `from` states what it builds over the style's view (`StyleSource::style_view`).
impl<const N: usize> vstd::std_specs::convert::FromSpecImpl<[(String, Option<String>); N]> for Style {
    open spec fn obeys_from_spec() -> bool {
        false
    }

    open spec fn from_spec(v: [(String, Option<String>); N]) -> Style {
        arbitrary()
    }
}

/// The entry that a `(String, String)` pair stands for.
pub open spec fn entry_of_string_string(p: (String, String)) -> StyleEntry {
    (p.0@, Some(p.1@))
}

impl<const N: usize> StyleSource for [(String, String); N] {
    open spec fn style_view(&self) -> Option<StyleModel> {
        Some(StyleModel::Entries(insert_all(Seq::empty(), self@.map_values(|p: (String, String)| entry_of_string_string(p)))))
    }

    fn into_style(self) -> (r: Style) {
        let value = self;
        let mut pairs: Vec<(String, Option<String>)> = Vec::new();
        let mut i: usize = 0;
        while i < N
            invariant
                i <= N,
                value@.len() == N,
                pairs.deep_view() == value@.take(i as int).map_values(|p: (String, String)| entry_of_string_string(p)),
            decreases N - i,
        {
            let key = value[i].0.clone();
            let v = Some(value[i].1.clone());
            let ghost prev = pairs.deep_view();
            assert((key@, v.deep_view()) == entry_of_string_string(value@[i as int]));
            pairs.push((key, v));
            assert(pairs.deep_view() =~= prev.push(entry_of_string_string(value@[i as int])));
            assert(value@.take(i + 1) =~= value@.take(i as int).push(value@[i as int]));
            assert(pairs.deep_view() =~= value@.take(i + 1).map_values(|p: (String, String)| entry_of_string_string(p)));
            i = i + 1;
        }
        assert(value@.take(N as int) =~= value@);
        structured(pairs)
    }
}

impl<const N: usize> From<[(String, String); N]> for Style {
    fn from(value: [(String, String); N]) -> Style {
        value.into_style()
    }
}

/// `from` states what it builds over the style's view (`StyleSource::style_view`).
impl<const N: usize> vstd::std_specs::convert::FromSpecImpl<[(String, String); N]> for Style {
    open spec fn obeys_from_spec() -> bool {
        false
    }

    open spec fn from_spec(v: [(String, String); N]) -> Style {
        arbitrary()
    }
}

} // verus!
