use vstd::prelude::*;

use crate::pattern::{has_type_prefix, is_tag_char, regex_is_match, RequestPattern, TYPE_PREFIX_PATTERN};

verus! {

/// A value configured for a request that was matched.
#[derive(Clone, Debug)]
pub enum ExternalItemValue {
    String(String),
    Array(Vec<String>),
    Bool(bool),
    Object(Vec<(String, Vec<String>)>),
}

/// The mathematical model of an `ExternalItemValue`.
pub enum ValueModel {
    String(Seq<char>),
    Array(Seq<Seq<char>>),
    Bool(bool),
    Object(Seq<(Seq<char>, Seq<Seq<char>>)>),
}

impl View for ExternalItemValue {
    type V = ValueModel;

    open spec fn view(&self) -> ValueModel {
        match self {
            ExternalItemValue::String(s) => ValueModel::String(s@),
            ExternalItemValue::Array(a) => ValueModel::Array(a.deep_view()),
            ExternalItemValue::Bool(b) => ValueModel::Bool(*b),
            ExternalItemValue::Object(t) => ValueModel::Object(t.deep_view()),
        }
    }
}

/// A primary name and, when the list had more entries, its fallbacks.
#[derive(Debug)]
pub struct ExternalRequestValue {
    pub primary: String,
    pub rest: Option<Vec<String>>,
}

pub struct RequestValueModel {
    pub primary: Seq<char>,
    pub rest: Option<Seq<Seq<char>>>,
}

impl View for ExternalRequestValue {
    type V = RequestValueModel;

    open spec fn view(&self) -> RequestValueModel {
        RequestValueModel { primary: self.primary@, rest: self.rest.deep_view() }
    }
}

/// How an external module is reached at run time.
#[derive(Debug)]
pub enum ExternalRequest {
    Single(ExternalRequestValue),
    Table(Vec<(String, ExternalRequestValue)>),
}

pub enum RequestModel {
    Single(RequestValueModel),
    Table(Seq<(Seq<char>, RequestValueModel)>),
}

impl View for ExternalRequest {
    type V = RequestModel;

    open spec fn view(&self) -> RequestModel {
        match self {
            ExternalRequest::Single(v) => RequestModel::Single(v@),
            ExternalRequest::Table(m) => RequestModel::Table(
                m@.map_values(|p: (String, ExternalRequestValue)| (p.0@, p.1@)),
            ),
        }
    }
}

/// The concrete kind of the dependency that carried a request.
#[derive(Clone, Copy, Debug, PartialEq, Eq, Structural)]
pub enum DependencyKind {
    /// A dynamic `import()` expression.
    Import,
    /// A side-effect-only ES module import.
    EsmImportSideEffect,
    Other,
}

/// Interop hint for the runtime shim of an external module.
#[derive(Clone, Copy, Debug, PartialEq, Eq, Structural)]
pub enum ExternalTypeEnum {
    Import,
    Module,
}

/// What the resolution reads of the dependency that carried the request.
pub struct ModuleDependencyInfo {
    pub request: String,
    pub kind: DependencyKind,
    pub attributes: Option<Vec<(String, String)>>,
}

#[derive(Debug)]
pub struct DependencyMeta {
    pub attributes: Option<Vec<(String, String)>>,
    pub external_type: Option<ExternalTypeEnum>,
}

/// The descriptor of a request that is left to the runtime.
#[derive(Debug)]
pub struct ExternalModule {
    pub request: ExternalRequest,
    pub external_type: String,
    pub user_request: String,
    pub dependency_meta: DependencyMeta,
}

pub struct ModuleModel {
    pub request: RequestModel,
    pub external_type: Seq<char>,
    pub user_request: Seq<char>,
    pub attributes: Option<Seq<(Seq<char>, Seq<char>)>>,
    pub kind_hint: Option<ExternalTypeEnum>,
}

impl View for ExternalModule {
    type V = ModuleModel;

    open spec fn view(&self) -> ModuleModel {
        ModuleModel {
            request: self.request@,
            external_type: self.external_type@,
            user_request: self.user_request@,
            attributes: self.dependency_meta.attributes.deep_view(),
            kind_hint: self.dependency_meta.external_type,
        }
    }
}

/// A configuration error found while building a descriptor.
#[derive(Clone, Copy, Debug, PartialEq, Eq, Structural)]
pub enum ExternalsError {
    /// A table entry of an object value maps a key to an empty list.
    EmptyValueList,
}

// ---------------------------------------------------------------------------
// Inline type prefixes
// ---------------------------------------------------------------------------

/// `k` is the position of the first space in `v`.
pub open spec fn is_first_space(v: Seq<char>, k: int) -> bool {
    &&& 0 <= k < v.len()
    &&& v[k] == ' '
    &&& forall|j: int| 0 <= j < k ==> v[j] != ' '
}

/// `v` cut at its first space, when the prefix pattern matched and there is one.
pub open spec fn split_prefix_spec(v: Seq<char>, prefix_matched: bool) -> Option<(Seq<char>, Seq<char>)> {
    if prefix_matched && exists|k: int| is_first_space(v, k) {
        let k = choose|k: int| is_first_space(v, k);
        Some((v.take(k), v.skip(k + 1)))
    } else {
        None
    }
}

/// The value and the external type that a configured string stands for.
pub open spec fn typed_request(v: Seq<char>, default_type: Seq<char>) -> (Seq<char>, Seq<char>) {
    match split_prefix_spec(v, has_type_prefix(v)) {
        Some((t, c)) => (c, t),
        None => (v, default_type),
    }
}

proof fn lemma_first_space_unique(v: Seq<char>, a: int, b: int)
    requires
        is_first_space(v, a),
        is_first_space(v, b),
    ensures
        a == b,
{
    if a < b {
        assert(v[a] != ' ');
    } else if b < a {
        assert(v[b] != ' ');
    }
}

/// Splits `v` at its first space when `prefix_matched` holds, giving the type
/// tag and the rest; `prefix_matched` is what the type-prefix pattern said of `v`.
pub fn split_type_prefix(v: &str, prefix_matched: bool) -> (r: Option<(String, String)>)
    ensures
        r matches Some(p) ==> split_prefix_spec(v@, prefix_matched) == Some((p.0@, p.1@)),
        r is None ==> split_prefix_spec(v@, prefix_matched) is None,
{
    if !prefix_matched {
        return None;
    }
    let n = v.unicode_len();
    let mut i: usize = 0;
    while i < n
        invariant
            prefix_matched,
            n == v@.len(),
            i <= n,
            forall|j: int| 0 <= j < i ==> v@[j] != ' ',
        decreases n - i,
    {
        if v.get_char(i) == ' ' {
            assert(is_first_space(v@, i as int));
            proof {
                let k = choose|k: int| is_first_space(v@, k);
                lemma_first_space_unique(v@, i as int, k);
                assert(split_prefix_spec(v@, prefix_matched) == Some((v@.take(k), v@.skip(k + 1))));
            }
            let tag = v.substring_char(0, i).to_owned();
            let rest = v.substring_char(i + 1, n).to_owned();
            assert(tag@ =~= v@.take(i as int));
            assert(rest@ =~= v@.skip(i + 1));
            return Some((tag, rest));
        }
        i = i + 1;
    }
    assert(!exists|k: int| is_first_space(v@, k));
    None
}

// ---------------------------------------------------------------------------
// Copies
// ---------------------------------------------------------------------------

/// The entries of `v` from position `from` on, copied.
fn copy_strings_from(v: &Vec<String>, from: usize) -> (r: Vec<String>)
    requires
        from <= v.len(),
    ensures
        r.deep_view() == v.deep_view().skip(from as int),
{
    let mut out: Vec<String> = Vec::new();
    let mut i: usize = from;
    while i < v.len()
        invariant
            from <= i <= v.len(),
            out@.len() == i - from,
            forall|j: int| 0 <= j < out@.len() ==> out@[j]@ == v@[from + j]@,
        decreases v.len() - i,
    {
        out.push(v[i].clone());
        i = i + 1;
    }
    assert(out.deep_view() =~= v.deep_view().skip(from as int));
    out
}

fn copy_attributes(a: &Option<Vec<(String, String)>>) -> (r: Option<Vec<(String, String)>>)
    ensures
        r.deep_view() == a.deep_view(),
{
    match a {
        None => None,
        Some(v) => {
            let mut out: Vec<(String, String)> = Vec::new();
            let mut i: usize = 0;
            while i < v.len()
                invariant
                    i <= v.len(),
                    out@.len() == i,
                    forall|j: int| 0 <= j < i ==> out@[j].0@ == v@[j].0@ && out@[j].1@ == v@[j].1@,
                decreases v.len() - i,
            {
                out.push((v[i].0.clone(), v[i].1.clone()));
                i = i + 1;
            }
            assert(out.deep_view() =~= v.deep_view());
            Some(out)
        }
    }
}

// ---------------------------------------------------------------------------
// Building descriptors
// ---------------------------------------------------------------------------

pub open spec fn kind_hint_of(kind: DependencyKind) -> Option<ExternalTypeEnum> {
    match kind {
        DependencyKind::Import => Some(ExternalTypeEnum::Import),
        DependencyKind::EsmImportSideEffect => Some(ExternalTypeEnum::Module),
        DependencyKind::Other => None,
    }
}

/// A non-empty list read as its first entry and, if there are more, the rest.
pub open spec fn list_model(l: Seq<Seq<char>>) -> RequestValueModel {
    RequestValueModel {
        primary: l[0],
        rest: if l.len() > 1 { Some(l.skip(1)) } else { None },
    }
}

pub open spec fn module_model(
    request: RequestModel,
    ty: Seq<char>,
    type_override: Option<Seq<char>>,
    dep: ModuleDependencyInfo,
) -> ModuleModel {
    ModuleModel {
        request,
        external_type: match type_override {
            Some(t) => t,
            None => ty,
        },
        user_request: dep.request@,
        attributes: dep.attributes.deep_view(),
        kind_hint: kind_hint_of(dep.kind),
    }
}

pub open spec fn table_model(t: Seq<(Seq<char>, Seq<Seq<char>>)>) -> Seq<(Seq<char>, RequestValueModel)> {
    t.map_values(|e: (Seq<char>, Seq<Seq<char>>)| (e.0, list_model(e.1)))
}

pub open spec fn has_empty_list(t: Seq<(Seq<char>, Seq<Seq<char>>)>) -> bool {
    exists|i: int| 0 <= i < t.len() && #[trigger] t[i].1.len() == 0
}

/// No key occurs twice in the table.
pub open spec fn keys_unique<V>(t: Seq<(Seq<char>, V)>) -> bool {
    forall|i: int, j: int| 0 <= i < j < t.len() ==> #[trigger] t[i].0 != #[trigger] t[j].0
}

/// A value is a well-formed map where it is a table.
pub open spec fn value_wf(v: ValueModel) -> bool {
    match v {
        ValueModel::Object(t) => keys_unique(t),
        _ => true,
    }
}

/// An object item is a map: its keys are unique and its values well formed.
pub open spec fn item_wf(item: ExternalItem) -> bool {
    match item {
        ExternalItem::Object(t) => {
            &&& keys_unique(entries_model(t@))
            &&& forall|i: int| 0 <= i < t@.len() ==> value_wf(#[trigger] t@[i].1@)
        },
        _ => true,
    }
}

pub open spec fn items_wf(items: Seq<ExternalItem>) -> bool {
    forall|i: int| 0 <= i < items.len() ==> item_wf(#[trigger] items[i])
}

/// Whether an object value has unique keys (other values always pass).
pub fn value_keys_unique(v: &ExternalItemValue) -> (r: bool)
    ensures
        r == value_wf(v@),
{
    match v {
        ExternalItemValue::Object(t) => {
            let mut i: usize = 0;
            while i < t.len()
                invariant
                    v@ == ValueModel::Object(t.deep_view()),
                    i <= t.len(),
                    forall|a: int, b: int| 0 <= a < b < t.len() && a < i ==> t@[a].0@ != t@[b].0@,
                decreases t.len() - i,
            {
                let mut j: usize = i + 1;
                while j < t.len()
                    invariant
                        v@ == ValueModel::Object(t.deep_view()),
                        i < j <= t.len(),
                        forall|a: int, b: int| 0 <= a < b < t.len() && a < i ==> t@[a].0@ != t@[b].0@,
                        forall|b: int| i < b < j ==> t@[i as int].0@ != t@[b].0@,
                    decreases t.len() - j,
                {
                    if t[i].0 == t[j].0 {
                        assert(t.deep_view()[i as int].0 == t.deep_view()[j as int].0);
                        assert(!keys_unique(t.deep_view()));
                        return false;
                    }
                    j = j + 1;
                }
                i = i + 1;
            }
            assert forall|a: int, b: int| 0 <= a < b < t.deep_view().len() implies #[trigger] t.deep_view()[a].0
                != #[trigger] t.deep_view()[b].0 by {
                assert(t@[a].0@ != t@[b].0@);
            }
            true
        },
        _ => true,
    }
}

/// The descriptor that a matched configured value yields, if any.
pub open spec fn handled_spec(
    value: ValueModel,
    default_type: Seq<char>,
    type_override: Option<Seq<char>>,
    dep: ModuleDependencyInfo,
) -> Result<Option<ModuleModel>, ExternalsError> {
    match value {
        ValueModel::String(s) => {
            let (v, t) = typed_request(s, default_type);
            Ok(Some(module_model(RequestModel::Single(RequestValueModel { primary: v, rest: None }), t, type_override, dep)))
        },
        ValueModel::Array(a) => {
            if a.len() == 0 {
                Ok(None)
            } else {
                let (v, t) = typed_request(a[0], default_type);
                Ok(Some(module_model(RequestModel::Single(RequestValueModel { primary: v, rest: list_model(a).rest }), t, type_override, dep)))
            }
        },
        ValueModel::Bool(b) => {
            if b {
                Ok(Some(module_model(RequestModel::Single(RequestValueModel { primary: dep.request@, rest: None }), default_type, type_override, dep)))
            } else {
                Ok(None)
            }
        },
        ValueModel::Object(t) => {
            if has_empty_list(t) {
                Err(ExternalsError::EmptyValueList)
            } else {
                Ok(Some(module_model(RequestModel::Table(table_model(t)), default_type, type_override, dep)))
            }
        },
    }
}

pub open spec fn outcome_view(r: Result<Option<ExternalModule>, ExternalsError>) -> Result<Option<ModuleModel>, ExternalsError> {
    match r {
        Ok(Some(m)) => Ok(Some(m@)),
        Ok(None) => Ok(None),
        Err(e) => Err(e),
    }
}

fn kind_hint(kind: DependencyKind) -> (r: Option<ExternalTypeEnum>)
    ensures
        r == kind_hint_of(kind),
{
    match kind {
        DependencyKind::Import => Some(ExternalTypeEnum::Import),
        DependencyKind::EsmImportSideEffect => Some(ExternalTypeEnum::Module),
        DependencyKind::Other => None,
    }
}

/// A non-empty list as a primary name with optional fallbacks; no prefix is read.
fn list_value(list: &Vec<String>) -> (r: ExternalRequestValue)
    requires
        list.len() >= 1,
    ensures
        r@ == list_model(list.deep_view()),
{
    let rest = if list.len() > 1 {
        Some(copy_strings_from(list, 1))
    } else {
        None
    };
    ExternalRequestValue { primary: list[0].clone(), rest }
}

/// Each key of an object value with its list read by `list_value`.
fn build_table(t: &Vec<(String, Vec<String>)>) -> (r: Result<Vec<(String, ExternalRequestValue)>, ExternalsError>)
    ensures
        r is Err <==> has_empty_list(t.deep_view()),
        r is Err ==> r->Err_0 == ExternalsError::EmptyValueList,
        r matches Ok(m) ==> m@.map_values(|p: (String, ExternalRequestValue)| (p.0@, p.1@)) == table_model(t.deep_view()),
{
    let mut out: Vec<(String, ExternalRequestValue)> = Vec::new();
    let mut i: usize = 0;
    while i < t.len()
        invariant
            i <= t.len(),
            out@.len() == i,
            forall|j: int| 0 <= j < i ==> t@[j].1@.len() > 0,
            forall|j: int| 0 <= j < i ==> out@[j].0@ == t@[j].0@ && out@[j].1@ == list_model(t@[j].1.deep_view()),
        decreases t.len() - i,
    {
        if t[i].1.len() == 0 {
            assert(t.deep_view()[i as int].1.len() == 0);
            return Err(ExternalsError::EmptyValueList);
        }
        out.push((t[i].0.clone(), list_value(&t[i].1)));
        i = i + 1;
    }
    assert(!has_empty_list(t.deep_view())) by {
        assert forall|j: int| 0 <= j < t.len() implies #[trigger] t.deep_view()[j].1.len() != 0 by {
            assert(t@[j].1@.len() > 0);
        }
    }
    assert(out@.map_values(|p: (String, ExternalRequestValue)| (p.0@, p.1@)) =~= table_model(t.deep_view()));
    Ok(out)
}

/// One entry of the configured list.
pub enum ExternalItem {
    /// Matches a request equal to the text.
    String(String),
    /// Matches a request that the pattern matches.
    RegExp(RequestPattern),
    /// Matches a request that is one of the keys.
    Object(Vec<(String, ExternalItemValue)>),
    /// Matches every request: `true` makes it external, `false` rejects it.
    Bool(bool),
    /// Matches every request and leaves the decision to the resolver with this id.
    Fn(u64),
}

/// What a resolver callback answered: no value means it has no opinion.
pub struct ExternalItemFnResult {
    pub result: Option<ExternalItemValue>,
    pub external_type: Option<String>,
}

/// Decides which requests stay external, and how they are reached.
pub struct ExternalsPlugin {
    externals: Vec<ExternalItem>,
    external_type: String,
    type_prefix: RequestPattern,
}

impl ExternalsPlugin {
    pub closed spec fn items(&self) -> Seq<ExternalItem> {
        self.externals@
    }

    pub closed spec fn default_type(&self) -> Seq<char> {
        self.external_type@
    }

    pub closed spec fn wf(&self) -> bool {
        &&& self.type_prefix.source_view() == TYPE_PREFIX_PATTERN@
        &&& items_wf(self.externals@)
    }

    /// A plugin with the default external type and the ordered list of items.
    pub fn new(external_type: String, externals: Vec<ExternalItem>) -> (r: ExternalsPlugin)
        requires
            items_wf(externals@),
        ensures
            r.wf(),
            r.items() == externals@,
            r.default_type() == external_type@,
    {
        let type_prefix = RequestPattern::new(TYPE_PREFIX_PATTERN).unwrap();
        ExternalsPlugin { externals, external_type, type_prefix }
    }

    pub fn name(&self) -> (r: &'static str)
        ensures
            r@ == "rspack.ExternalsPlugin"@,
    {
        "rspack.ExternalsPlugin"
    }

    /// The value and the type that a configured string stands for: a leading
    /// type tag is split off, otherwise the default type applies.
    pub fn parse_external_type(&self, v: &str) -> (r: (String, String))
        requires
            self.wf(),
        ensures
            (r.0@, r.1@) == typed_request(v@, self.default_type()),
    {
        let matched = self.type_prefix.test(v);
        match split_type_prefix(v, matched) {
            Some((tag, rest)) => (rest, tag),
            None => (v.to_owned(), self.external_type.clone()),
        }
    }

    /// The descriptor for a matched value; `type_override` replaces the type
    /// that the value gives.
    pub fn handle_external(
        &self,
        config: &ExternalItemValue,
        type_override: Option<String>,
        dependency: &ModuleDependencyInfo,
    ) -> (r: Result<Option<ExternalModule>, ExternalsError>)
        requires
            self.wf(),
            value_wf(config@),
        ensures
            outcome_view(r) == handled_spec(config@, self.default_type(), type_override.deep_view(), *dependency),
    {
        let (request, external_type) = match config {
            ExternalItemValue::String(s) => {
                let (v, t) = self.parse_external_type(s.as_str());
                (ExternalRequest::Single(ExternalRequestValue { primary: v, rest: None }), t)
            },
            ExternalItemValue::Array(a) => {
                if a.len() == 0 {
                    return Ok(None);
                }
                let (v, t) = self.parse_external_type(a[0].as_str());
                let rest = if a.len() > 1 {
                    Some(copy_strings_from(a, 1))
                } else {
                    None
                };
                proof {
                    assert(a.deep_view()[0] == a@[0]@);
                }
                (ExternalRequest::Single(ExternalRequestValue { primary: v, rest }), t)
            },
            ExternalItemValue::Bool(b) => {
                if !*b {
                    return Ok(None);
                }
                (
                    ExternalRequest::Single(ExternalRequestValue { primary: dependency.request.clone(), rest: None }),
                    self.external_type.clone(),
                )
            },
            ExternalItemValue::Object(t) => match build_table(t) {
                Ok(m) => (ExternalRequest::Table(m), self.external_type.clone()),
                Err(e) => {
                    return Err(e);
                },
            },
        };
        let dependency_meta = DependencyMeta {
            attributes: copy_attributes(&dependency.attributes),
            external_type: kind_hint(dependency.kind),
        };
        let ty = match type_override {
            Some(t) => t,
            None => external_type,
        };
        Ok(Some(ExternalModule { request, external_type: ty, user_request: dependency.request.clone(), dependency_meta }))
    }
}

// ---------------------------------------------------------------------------
// Walking the configured list
// ---------------------------------------------------------------------------

pub open spec fn entries_model(t: Seq<(String, ExternalItemValue)>) -> Seq<(Seq<char>, ValueModel)> {
    t.map_values(|e: (String, ExternalItemValue)| (e.0@, e.1@))
}

/// The first position at or after `from` whose key is `key`, or the length.
pub open spec fn key_index(t: Seq<(Seq<char>, ValueModel)>, key: Seq<char>, from: int) -> int
    decreases t.len() - from,
{
    if from >= t.len() {
        t.len() as int
    } else if t[from].0 == key {
        from
    } else {
        key_index(t, key, from + 1)
    }
}

/// Whether `item` settles the search for `request`; a resolver item always
/// does, by being asked.
pub open spec fn item_decides(item: ExternalItem, request: Seq<char>) -> bool {
    match item {
        ExternalItem::String(s) => s@ == request,
        ExternalItem::RegExp(p) => regex_is_match(p.source_view(), request),
        ExternalItem::Object(t) => key_index(entries_model(t@), request, 0) < t@.len(),
        ExternalItem::Bool(_) => true,
        ExternalItem::Fn(_) => true,
    }
}

/// The value that a deciding item (other than a resolver) hands on.
pub open spec fn item_value(item: ExternalItem, request: Seq<char>) -> ValueModel {
    match item {
        ExternalItem::Object(t) => entries_model(t@)[key_index(entries_model(t@), request, 0)].1,
        ExternalItem::Bool(b) => ValueModel::Bool(b),
        _ => ValueModel::String(request),
    }
}

/// The first position at or after `from` whose item decides, or the length.
pub open spec fn first_stop(items: Seq<ExternalItem>, request: Seq<char>, from: int) -> int
    decreases items.len() - from,
{
    if from >= items.len() {
        items.len() as int
    } else if item_decides(items[from], request) {
        from
    } else {
        first_stop(items, request, from + 1)
    }
}

/// Where a walk over the list ends.
#[derive(Debug)]
pub enum Resolution {
    /// The search is over: the request is external (`Some`) or left to normal resolution.
    Finished(Option<ExternalModule>),
    /// The item at `index` is the resolver `resolver`: ask it, then call `resume`.
    CallResolver { index: usize, resolver: u64 },
}

pub enum ResolutionModel {
    Finished(Option<ModuleModel>),
    CallResolver(int, u64),
}

pub open spec fn resolution_view(r: Result<Resolution, ExternalsError>) -> Result<ResolutionModel, ExternalsError> {
    match r {
        Ok(Resolution::Finished(Some(m))) => Ok(ResolutionModel::Finished(Some(m@))),
        Ok(Resolution::Finished(None)) => Ok(ResolutionModel::Finished(None)),
        Ok(Resolution::CallResolver { index, resolver }) => Ok(ResolutionModel::CallResolver(index as int, resolver)),
        Err(e) => Err(e),
    }
}

pub open spec fn finished(h: Result<Option<ModuleModel>, ExternalsError>) -> Result<ResolutionModel, ExternalsError> {
    match h {
        Ok(m) => Ok(ResolutionModel::Finished(m)),
        Err(e) => Err(e),
    }
}

/// The outcome of walking `items` from `from` for the dependency `dep`.
pub open spec fn resolve_spec(
    items: Seq<ExternalItem>,
    default_type: Seq<char>,
    from: int,
    dep: ModuleDependencyInfo,
) -> Result<ResolutionModel, ExternalsError> {
    let j = first_stop(items, dep.request@, from);
    if j >= items.len() {
        Ok(ResolutionModel::Finished(None))
    } else {
        match items[j] {
            ExternalItem::Fn(id) => Ok(ResolutionModel::CallResolver(j, id)),
            item => finished(handled_spec(item_value(item, dep.request@), default_type, None, dep)),
        }
    }
}

proof fn lemma_first_stop_bounds(items: Seq<ExternalItem>, request: Seq<char>, from: int)
    requires
        0 <= from <= items.len(),
    ensures
        from <= first_stop(items, request, from) <= items.len(),
    decreases items.len() - from,
{
    if from < items.len() && !item_decides(items[from], request) {
        lemma_first_stop_bounds(items, request, from + 1);
    }
}

fn finish(h: Result<Option<ExternalModule>, ExternalsError>) -> (r: Result<Resolution, ExternalsError>)
    ensures
        resolution_view(r) == finished(outcome_view(h)),
{
    match h {
        Ok(m) => Ok(Resolution::Finished(m)),
        Err(e) => Err(e),
    }
}

/// The position of the first entry keyed `key`, or the length.
fn find_key(t: &Vec<(String, ExternalItemValue)>, key: &String) -> (r: usize)
    ensures
        r as int == key_index(entries_model(t@), key@, 0),
        r <= t.len(),
{
    let mut i: usize = 0;
    while i < t.len()
        invariant
            i <= t.len(),
            key_index(entries_model(t@), key@, 0) == key_index(entries_model(t@), key@, i as int),
        decreases t.len() - i,
    {
        if t[i].0 == *key {
            return i;
        }
        i = i + 1;
    }
    i
}

impl ExternalsPlugin {
    /// Walks the items from position `start`, in order, up to the first that
    /// decides: it either finishes the search or asks for a resolver's answer.
    pub fn resolve_from(&self, start: usize, dependency: &ModuleDependencyInfo) -> (r: Result<Resolution, ExternalsError>)
        requires
            self.wf(),
            start <= self.items().len(),
        ensures
            resolution_view(r) == resolve_spec(self.items(), self.default_type(), start as int, *dependency),
    {
        let ghost req = dependency.request@;
        proof {
            lemma_first_stop_bounds(self.items(), req, start as int);
        }
        let mut i: usize = start;
        while i < self.externals.len()
            invariant
                self.wf(),
                start <= i <= self.externals.len(),
                req == dependency.request@,
                first_stop(self.items(), req, start as int) == first_stop(self.items(), req, i as int),
            decreases self.externals.len() - i,
        {
            match &self.externals[i] {
                ExternalItem::String(s) => {
                    if *s == dependency.request {
                        let value = ExternalItemValue::String(dependency.request.clone());
                        return finish(self.handle_external(&value, None, dependency));
                    }
                },
                ExternalItem::RegExp(p) => {
                    if p.test(dependency.request.as_str()) {
                        let value = ExternalItemValue::String(dependency.request.clone());
                        return finish(self.handle_external(&value, None, dependency));
                    }
                },
                ExternalItem::Object(t) => {
                    let k = find_key(t, &dependency.request);
                    if k < t.len() {
                        return finish(self.handle_external(&t[k].1, None, dependency));
                    }
                },
                ExternalItem::Bool(b) => {
                    let value = ExternalItemValue::Bool(*b);
                    return finish(self.handle_external(&value, None, dependency));
                },
                ExternalItem::Fn(id) => {
                    return Ok(Resolution::CallResolver { index: i, resolver: *id });
                },
            }
            i = i + 1;
        }
        Ok(Resolution::Finished(None))
    }

    /// Walks the whole list for a request, from its first item.
    pub fn factorize(&self, dependency: &ModuleDependencyInfo) -> (r: Result<Resolution, ExternalsError>)
        requires
            self.wf(),
        ensures
            resolution_view(r) == resolve_spec(self.items(), self.default_type(), 0, *dependency),
    {
        self.resolve_from(0, dependency)
    }

    /// Goes on after the resolver at `index` answered: a value settles the
    /// search, no opinion moves on to the next item.
    pub fn resume(
        &self,
        index: usize,
        answer: ExternalItemFnResult,
        dependency: &ModuleDependencyInfo,
    ) -> (r: Result<Resolution, ExternalsError>)
        requires
            self.wf(),
            index < self.items().len(),
            answer.result matches Some(v) ==> value_wf(v@),
        ensures
            answer.result matches Some(v) ==> resolution_view(r) == finished(
                handled_spec(v@, self.default_type(), answer.external_type.deep_view(), *dependency),
            ),
            answer.result is None ==> resolution_view(r) == resolve_spec(
                self.items(),
                self.default_type(),
                index + 1,
                *dependency,
            ),
    {
        match answer.result {
            Some(v) => finish(self.handle_external(&v, answer.external_type, dependency)),
            None => {
                let n = self.externals.len();
                assert(index < n);
                self.resolve_from(index + 1, dependency)
            },
        }
    }
}

// ---------------------------------------------------------------------------
// Laws
// ---------------------------------------------------------------------------

/// The first item that decides wins: two lists that agree up to and including
/// that item resolve a request alike, whatever comes after it.
pub proof fn lemma_first_decisive_wins(
    a: Seq<ExternalItem>,
    b: Seq<ExternalItem>,
    default_type: Seq<char>,
    from: int,
    dep: ModuleDependencyInfo,
)
    requires
        0 <= from <= a.len(),
        first_stop(a, dep.request@, from) < a.len(),
        first_stop(a, dep.request@, from) < b.len(),
        a.take(first_stop(a, dep.request@, from) + 1) == b.take(first_stop(a, dep.request@, from) + 1),
    ensures
        first_stop(b, dep.request@, from) == first_stop(a, dep.request@, from),
        resolve_spec(b, default_type, from, dep) == resolve_spec(a, default_type, from, dep),
    decreases a.len() - from,
{
    let req = dep.request@;
    let j = first_stop(a, req, from);
    lemma_first_stop_bounds(a, req, from);
    assert(a[from] == a.take(j + 1)[from]);
    assert(b[from] == b.take(j + 1)[from]);
    assert(a[j] == a.take(j + 1)[j]);
    assert(b[j] == b.take(j + 1)[j]);
    if !item_decides(a[from], req) {
        lemma_first_decisive_wins(a, b, default_type, from + 1, dep);
    }
}

/// A rejecting item that is the first to decide ends the search with no
/// external module; nothing after it is consulted.
pub proof fn lemma_reject_stops_search(items: Seq<ExternalItem>, default_type: Seq<char>, dep: ModuleDependencyInfo)
    requires
        first_stop(items, dep.request@, 0) < items.len(),
        items[first_stop(items, dep.request@, 0)] is Bool,
        !items[first_stop(items, dep.request@, 0)]->Bool_0,
    ensures
        resolve_spec(items, default_type, 0, dep) == Ok::<ResolutionModel, ExternalsError>(ResolutionModel::Finished(None)),
{
}

/// A split type prefix gives the string back exactly: the tag, one space, then
/// the rest; the tag holds no space.
pub proof fn lemma_prefix_split_exact(v: Seq<char>, prefix_matched: bool)
    ensures
        split_prefix_spec(v, prefix_matched) matches Some(p) ==> v == p.0 + seq![' '] + p.1 && !p.0.contains(' '),
{
    if prefix_matched && exists|k: int| is_first_space(v, k) {
        let k = choose|k: int| is_first_space(v, k);
        assert(v =~= v.take(k) + seq![' '] + v.skip(k + 1));
        assert forall|i: int| 0 <= i < v.take(k).len() implies v.take(k)[i] != ' ' by {
            assert(v.take(k)[i] == v[i]);
        }
    }
}

/// A `true` flag makes the request text itself the external value, read
/// verbatim, with the default type.
pub proof fn lemma_flag_uses_request(default_type: Seq<char>, dep: ModuleDependencyInfo)
    ensures
        handled_spec(ValueModel::Bool(true), default_type, None, dep) matches Ok(Some(m)) && m.request == RequestModel::Single(
            RequestValueModel { primary: dep.request@, rest: None },
        ) && m.external_type == default_type,
{
}

/// In a list value only the first entry is read for a type prefix; the
/// remaining entries become the fallbacks unchanged.
pub proof fn lemma_fallbacks_verbatim(
    a: Seq<Seq<char>>,
    default_type: Seq<char>,
    type_override: Option<Seq<char>>,
    dep: ModuleDependencyInfo,
)
    requires
        a.len() > 1,
    ensures
        handled_spec(ValueModel::Array(a), default_type, type_override, dep) matches Ok(Some(m)) && m.request
            == RequestModel::Single(
            RequestValueModel { primary: typed_request(a[0], default_type).0, rest: Some(a.skip(1)) },
        ),
{
}

/// Type-prefix parsing is exact: a string that starts with a non-empty run of
/// `[a-z0-9-]` and a space gives that run as the type and everything after the
/// space, verbatim, as the value; any other string is the value itself, with the
/// default type.
pub proof fn lemma_type_prefix_exact(v: Seq<char>, default_type: Seq<char>)
    ensures
        has_type_prefix(v) ==> {
            let (value, ty) = typed_request(v, default_type);
            &&& v == ty + seq![' '] + value
            &&& ty.len() >= 1
            &&& forall|j: int| 0 <= j < ty.len() ==> is_tag_char(#[trigger] ty[j])
        },
        !has_type_prefix(v) ==> typed_request(v, default_type) == (v, default_type),
{
    if has_type_prefix(v) {
        let k = choose|k: int| 1 <= k < v.len() && v[k] == ' ' && forall|j: int| 0 <= j < k ==> is_tag_char(#[trigger] v[j]);
        assert forall|j: int| 0 <= j < k implies v[j] != ' ' by {
            assert(is_tag_char(v[j]));
        }
        assert(is_first_space(v, k));
        let c = choose|c: int| is_first_space(v, c);
        lemma_first_space_unique(v, k, c);
        assert(v =~= v.take(k) + seq![' '] + v.skip(k + 1));
        assert forall|j: int| 0 <= j < v.take(k).len() implies is_tag_char(#[trigger] v.take(k)[j]) by {
            assert(v.take(k)[j] == v[j]);
        }
    }
}

proof fn lemma_first_stop_skips(items: Seq<ExternalItem>, request: Seq<char>, from: int, i: int)
    requires
        0 <= from <= i < first_stop(items, request, from),
    ensures
        !item_decides(items[i], request),
    decreases i - from,
{
    if from < i {
        lemma_first_stop_skips(items, request, from + 1, i);
    }
}

/// The walk asks a resolver only when every item before it, from where the walk
/// started, declined the request; so resolvers are asked in list order, and no
/// item after a deciding one is ever consulted.
pub proof fn lemma_resolver_asked_in_order(
    items: Seq<ExternalItem>,
    default_type: Seq<char>,
    from: int,
    dep: ModuleDependencyInfo,
)
    requires
        0 <= from <= items.len(),
    ensures
        resolve_spec(items, default_type, from, dep) matches Ok(ResolutionModel::CallResolver(j, id)) ==> {
            &&& from <= j < items.len()
            &&& items[j] == ExternalItem::Fn(id)
            &&& forall|i: int| from <= i < j ==> !item_decides(#[trigger] items[i], dep.request@)
        },
{
    let j = first_stop(items, dep.request@, from);
    lemma_first_stop_bounds(items, dep.request@, from);
    assert forall|i: int| from <= i < j implies !item_decides(#[trigger] items[i], dep.request@) by {
        lemma_first_stop_skips(items, dep.request@, from, i);
    }
}

} // verus!
