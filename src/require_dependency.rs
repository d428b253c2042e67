use vstd::prelude::*;
use vstd::string::StringExecFns;
use vstd::utf8::encode_utf8;

verus! {

/// Name of the runtime function that loads a bundled module.
pub const REQUIRE_RUNTIME: &'static str = "__webpack_require__";

/// A half-open byte range `[start, end)` of the module source as parsed.
#[derive(Clone, Copy, Debug, PartialEq, Eq, Structural)]
pub struct DependencyRange {
    pub start: u32,
    pub end: u32,
}

#[derive(Clone, Copy, Debug, PartialEq, Eq, Structural)]
pub enum DependencyCategory {
    CommonJS,
}

#[derive(Clone, Copy, Debug, PartialEq, Eq, Structural)]
pub enum DependencyType {
    CjsRequire,
}

/// How the target module exposes its exports.
#[derive(Clone, Copy, Debug, PartialEq, Eq, Structural)]
pub enum ExportsType {
    Namespace,
    DefaultOnly,
    DefaultWithNamed,
    Dynamic,
}

/// The rendered pieces for a used export: the comment that recalls the names
/// as written, and the property access for the names kept after renaming.
pub struct UsedAccess {
    pub comment: String,
    pub access: String,
}

/// A `require(...)` call whose result is used whole, through a chain of
/// property accesses, or called.
pub struct CommonJsFullRequireDependency {
    id: u32,
    request: String,
    names: Vec<String>,
    range: DependencyRange,
    is_call: bool,
    optional: bool,
    asi_safe: bool,
}

/// The export path that a require reference depends on.
pub open spec fn referenced_exports_spec(
    names: Seq<Seq<char>>,
    is_call: bool,
    target: Option<ExportsType>,
) -> Seq<Seq<char>> {
    if is_call && target is Some && target->0 != ExportsType::Namespace {
        if names.len() == 0 {
            names
        } else {
            names.take(names.len() - 1)
        }
    } else {
        names
    }
}

/// The replacement text for a require reference.
pub open spec fn render_spec(module_id: Seq<char>, used: Option<(Seq<char>, Seq<char>)>, asi_safe: bool) -> Seq<char> {
    let call = REQUIRE_RUNTIME@ + seq!['('] + module_id + seq![')'];
    let expr = match used {
        Some(u) => call + u.0 + u.1,
        None => call,
    };
    if asi_safe {
        seq!['('] + expr + seq![')']
    } else {
        expr
    }
}

/// `source` with the bytes of `[start, end)` replaced by `text`.
pub open spec fn replaced(source: Seq<u8>, start: int, end: int, text: Seq<u8>) -> Seq<u8> {
    source.take(start) + text + source.skip(end)
}

/// The bytes of `[start, end)` of `source` replaced by `text`; the rest is kept.
pub fn replace_range(source: &mut Vec<u8>, start: usize, end: usize, text: &[u8])
    requires
        start <= end <= old(source).len(),
    ensures
        final(source)@ == replaced(old(source)@, start as int, end as int, text@),
{
    let mut out: Vec<u8> = Vec::new();
    let mut i: usize = 0;
    while i < start
        invariant
            i <= start <= end <= source.len(),
            out@ == source@.take(i as int),
        decreases start - i,
    {
        out.push(source[i]);
        proof {
            assert(out@ =~= source@.take(i + 1));
        }
        i = i + 1;
    }
    let mut j: usize = 0;
    while j < text.len()
        invariant
            j <= text.len(),
            out@ == source@.take(start as int) + text@.take(j as int),
        decreases text.len() - j,
    {
        out.push(text[j]);
        proof {
            assert(out@ =~= source@.take(start as int) + text@.take(j + 1));
        }
        j = j + 1;
    }
    let mut k: usize = end;
    while k < source.len()
        invariant
            end <= k <= source.len(),
            out@ == source@.take(start as int) + text@ + source@.subrange(end as int, k as int),
        decreases source.len() - k,
    {
        out.push(source[k]);
        proof {
            assert(out@ =~= source@.take(start as int) + text@ + source@.subrange(end as int, k + 1));
        }
        k = k + 1;
    }
    proof {
        assert(text@.take(text@.len() as int) =~= text@);
        assert(source@.subrange(end as int, source@.len() as int) =~= source@.skip(end as int));
    }
    *source = out;
}

impl CommonJsFullRequireDependency {
    pub closed spec fn spec_id(&self) -> u32 {
        self.id
    }

    pub closed spec fn spec_request(&self) -> Seq<char> {
        self.request@
    }

    pub closed spec fn spec_names(&self) -> Seq<Seq<char>> {
        self.names.deep_view()
    }

    pub closed spec fn spec_range(&self) -> DependencyRange {
        self.range
    }

    pub closed spec fn spec_is_call(&self) -> bool {
        self.is_call
    }

    pub closed spec fn spec_optional(&self) -> bool {
        self.optional
    }

    pub closed spec fn spec_asi_safe(&self) -> bool {
        self.asi_safe
    }
}

impl CommonJsFullRequireDependency {
    /// A reference to `request`, read through the property chain `names`, over
    /// the source bytes `range`.
    pub fn new(
        id: u32,
        request: String,
        names: Vec<String>,
        range: DependencyRange,
        is_call: bool,
        optional: bool,
        asi_safe: bool,
    ) -> (r: Self)
        ensures
            r.spec_id() == id,
            r.spec_request() == request@,
            r.spec_names() == names.deep_view(),
            r.spec_range() == range,
            r.spec_is_call() == is_call,
            r.spec_optional() == optional,
            r.spec_asi_safe() == asi_safe,
    {
        CommonJsFullRequireDependency { id, request, names, range, is_call, optional, asi_safe }
    }

    pub fn id(&self) -> (r: u32)
        ensures
            r == self.spec_id(),
    {
        self.id
    }

    pub fn dependency_id(&self) -> (r: Option<u32>)
        ensures
            r == Some(self.spec_id()),
    {
        Some(self.id)
    }

    pub fn category(&self) -> (r: DependencyCategory)
        ensures
            r == DependencyCategory::CommonJS,
    {
        DependencyCategory::CommonJS
    }

    pub fn dependency_type(&self) -> (r: DependencyType)
        ensures
            r == DependencyType::CjsRequire,
    {
        DependencyType::CjsRequire
    }

    pub fn range(&self) -> (r: Option<DependencyRange>)
        ensures
            r == Some(self.spec_range()),
    {
        Some(self.range)
    }

    pub fn request(&self) -> (r: &str)
        ensures
            r@ == self.spec_request(),
    {
        self.request.as_str()
    }

    pub fn user_request(&self) -> (r: &str)
        ensures
            r@ == self.spec_request(),
    {
        self.request.as_str()
    }

    /// Rewrites the request text; nothing else changes.
    pub fn set_request(&mut self, request: String)
        ensures
            final(self).spec_request() == request@,
            final(self).spec_id() == old(self).spec_id(),
            final(self).spec_names() == old(self).spec_names(),
            final(self).spec_range() == old(self).spec_range(),
            final(self).spec_is_call() == old(self).spec_is_call(),
            final(self).spec_optional() == old(self).spec_optional(),
            final(self).spec_asi_safe() == old(self).spec_asi_safe(),
    {
        self.request = request;
    }

    pub fn get_optional(&self) -> (r: bool)
        ensures
            r == self.spec_optional(),
    {
        self.optional
    }

    /// The export path this reference depends on, given how the target module
    /// exports (`None` while that is not known). When the result is called and
    /// the target is not a namespace, the last name is the callee and is left out.
    pub fn get_referenced_exports(&self, target: Option<ExportsType>) -> (r: Vec<String>)
        ensures
            r.deep_view() == referenced_exports_spec(self.spec_names(), self.spec_is_call(), target),
    {
        let n = self.names.len();
        let keep = if self.is_call && matches!(target, Some(t) if t != ExportsType::Namespace) && n > 0 {
            n - 1
        } else {
            n
        };
        let mut out: Vec<String> = Vec::new();
        let mut i: usize = 0;
        while i < keep
            invariant
                keep <= n == self.names.len(),
                i <= keep,
                out@.len() == i,
                forall|j: int| 0 <= j < i ==> out@[j]@ == self.names@[j]@,
            decreases keep - i,
        {
            out.push(self.names[i].clone());
            i = i + 1;
        }
        assert(out.deep_view() =~= referenced_exports_spec(self.spec_names(), self.spec_is_call(), target));
        out
    }

    /// The text that replaces the reference: a call of the runtime require
    /// with `module_id`, then the used export access if there is one, in
    /// parentheses when the surrounding syntax needs a guard.
    pub fn render(&self, module_id: &str, used: Option<&UsedAccess>) -> (r: String)
        ensures
            r@ == render_spec(
                module_id@,
                match used {
                    Some(u) => Some((u.comment@, u.access@)),
                    None => None,
                },
                self.spec_asi_safe(),
            ),
    {
        let mut expr = String::new();
        expr.append(REQUIRE_RUNTIME);
        expr.append("(");
        expr.append(module_id);
        expr.append(")");
        match used {
            Some(u) => {
                expr.append(u.comment.as_str());
                expr.append(u.access.as_str());
            },
            None => {},
        }
        if self.asi_safe {
            let mut guarded = String::new();
            guarded.append("(");
            guarded.append(expr.as_str());
            guarded.append(")");
            expr = guarded;
        }
        proof {
            reveal_strlit("(");
            reveal_strlit(")");
        }
        expr
    }

    /// Replaces the reference's byte range of `source` with its rendered text.
    pub fn apply(&self, source: &mut Vec<u8>, module_id: &str, used: Option<&UsedAccess>)
        requires
            self.spec_range().start <= self.spec_range().end <= old(source).len(),
        ensures
            final(source)@ == replaced(
                old(source)@,
                self.spec_range().start as int,
                self.spec_range().end as int,
                encode_utf8(render_spec(
                    module_id@,
                    match used {
                        Some(u) => Some((u.comment@, u.access@)),
                        None => None,
                    },
                    self.spec_asi_safe(),
                )),
            ),
    {
        let text = self.render(module_id, used);
        replace_range(source, self.range.start as usize, self.range.end as usize, text.as_str().as_bytes());
    }
}

/// Replacing a range leaves every byte outside it as it was: the bytes before
/// it in place, the bytes after it shifted by the change in length.
pub proof fn lemma_replace_keeps_outside(source: Seq<u8>, start: int, end: int, text: Seq<u8>)
    requires
        0 <= start <= end <= source.len(),
    ensures
        forall|i: int| 0 <= i < start ==> #[trigger] replaced(source, start, end, text)[i] == source[i],
        forall|i: int|
            end <= i < source.len() ==> replaced(source, start, end, text)[i - end + start + text.len()]
                == #[trigger] source[i],
        replaced(source, start, end, text).len() == source.len() - (end - start) + text.len(),
        replaced(source, start, end, text).subrange(start, start + text.len()) == text,
{
    let r = replaced(source, start, end, text);
    assert(r.subrange(start, start + text.len()) =~= text);
}

} // verus!
