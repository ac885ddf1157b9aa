use vstd::prelude::*;
use crate::code_list::{get_code_map, CodeListError, CodeSpaceCache};
use crate::text_map::{label_in, TextMap};

verus! {

/// What a scope tracker holds: whether a code scope is open, the tag that
/// opened it and the code list that its text is resolved through.
pub struct ScopeView {
    pub active: bool,
    pub owner_tag: Option<Seq<char>>,
    pub list_path: Option<Seq<char>>,
}

/// Tracks the one element, if any, that introduced a code-list reference, so
/// that text inside it is resolved through that code list.
pub struct CodeSpaceContext {
    active: bool,
    owner_tag: Option<String>,
    path: Option<String>,
}

pub open spec fn opt_view(o: Option<String>) -> Option<Seq<char>> {
    match o {
        Some(s) => Some(s@),
        None => None,
    }
}

impl View for CodeSpaceContext {
    type V = ScopeView;

    closed spec fn view(&self) -> ScopeView {
        ScopeView { active: self.active, owner_tag: opt_view(self.owner_tag), list_path: opt_view(self.path) }
    }
}

/// A scope is open exactly when both its owner tag and its code-list path are set.
pub open spec fn scope_wf(v: ScopeView) -> bool {
    &&& v.active == v.owner_tag is Some
    &&& v.active == v.list_path is Some
}

/// The attribute that refers to a code list.
pub open spec fn code_space_key() -> Seq<char> {
    seq!['c', 'o', 'd', 'e', 'S', 'p', 'a', 'c', 'e']
}

/// The value of the first attribute named `codeSpace`, if any.
pub fn code_space_attribute(attrs: &Vec<(String, String)>) -> (r: Option<String>)
    ensures
        r is None <==> forall|j: int| 0 <= j < attrs@.len() ==> #[trigger] attrs@[j].0@ != code_space_key(),
        r matches Some(v) ==> exists|j: int|
            0 <= j < attrs@.len() && attrs@[j].0@ == code_space_key() && v == attrs@[j].1
                && forall|k: int| 0 <= k < j ==> #[trigger] attrs@[k].0@ != code_space_key(),
{
    let key = "codeSpace".to_string();
    proof {
        vstd::string::to_string_from_display_ensures_for_str("codeSpace", key);
        reveal_strlit("codeSpace");
        assert(key@ =~= code_space_key());
    }
    let mut i: usize = 0;
    while i < attrs.len()
        invariant
            i <= attrs@.len(),
            key@ == code_space_key(),
            forall|k: int| 0 <= k < i ==> #[trigger] attrs@[k].0@ != code_space_key(),
        decreases attrs@.len() - i,
    {
        if attrs[i].0 == key {
            return Some(attrs[i].1.clone());
        }
        i = i + 1;
    }
    None
}

impl CodeSpaceContext {
    #[verifier::type_invariant]
    spec fn inv(&self) -> bool {
        &&& self.active == self.owner_tag is Some
        &&& self.active == self.path is Some
    }

    pub fn new() -> (r: CodeSpaceContext)
        ensures
            r@ == (ScopeView { active: false, owner_tag: None, list_path: None }),
            scope_wf(r@),
    {
        CodeSpaceContext { active: false, owner_tag: None, path: None }
    }

    pub fn is_active(&self) -> (r: bool)
        ensures
            r == self@.active,
            scope_wf(self@),
    {
        proof {
            use_type_invariant(self);
        }
        self.active
    }

    pub fn owner_tag(&self) -> (r: Option<String>)
        ensures
            opt_view(r) == self@.owner_tag,
    {
        self.owner_tag.clone()
    }

    pub fn list_path(&self) -> (r: Option<String>)
        ensures
            opt_view(r) == self@.list_path,
    {
        self.path.clone()
    }

    /// A start tag was read; `resolved_path` is the canonical path of the code
    /// list that its `codeSpace` attribute refers to, when there is one and it
    /// exists. An open scope is kept as it is: scopes do not nest.
    pub fn on_start(&mut self, tag_name: &str, resolved_path: Option<String>)
        ensures
            scope_wf(final(self)@),
            (!old(self)@.active && resolved_path is Some) ==> final(self)@ == (ScopeView {
                active: true,
                owner_tag: Some(tag_name@),
                list_path: opt_view(resolved_path),
            }),
            (old(self)@.active || resolved_path is None) ==> final(self)@ == old(self)@,
    {
        if !self.active {
            if let Some(path) = resolved_path {
                let tag = tag_name.to_string();
                proof {
                    vstd::string::to_string_from_display_ensures_for_str(tag_name, tag);
                }
                *self = CodeSpaceContext { active: true, owner_tag: Some(tag), path: Some(path) };
            }
        }
        proof {
            use_type_invariant(&*self);
        }
    }

    /// An end tag was read; it closes the scope when it is the owner's.
    pub fn on_end(&mut self, tag_name: &str)
        ensures
            scope_wf(final(self)@),
            (old(self)@.active && old(self)@.owner_tag == Some(tag_name@)) ==> final(self)@ == (
            ScopeView { active: false, owner_tag: None, list_path: None }),
            !(old(self)@.active && old(self)@.owner_tag == Some(tag_name@)) ==> final(self)@ == old(
                self,
            )@,
    {
        proof {
            use_type_invariant(&*self);
        }
        if !self.active {
            return;
        }
        let tag = tag_name.to_string();
        proof {
            vstd::string::to_string_from_display_ensures_for_str(tag_name, tag);
        }
        let closes = match &self.owner_tag {
            Some(owner) => *owner == tag,
            None => false,
        };
        if closes {
            *self = CodeSpaceContext { active: false, owner_tag: None, path: None };
        }
        proof {
            use_type_invariant(&*self);
        }
    }

    /// Resolves text read inside the scope: `None` when no scope is open,
    /// otherwise the label of `raw_code` in the scope's code list, which is
    /// loaded through `load` when the cache does not hold it yet.
    pub fn resolve_text<F>(&self, raw_code: &str, cache_map: &mut CodeSpaceCache, load: F) -> (r:
        Result<Option<String>, CodeListError>) where F: FnOnce(&String) -> Result<TextMap, String>
        requires
            self@.active && !old(cache_map)@.contains_key(self@.list_path->0) ==> forall|p: &String|
                p@ == self@.list_path->0 ==> #[trigger] load.requires((p,)),
        ensures
            !self@.active ==> (r matches Ok(None) && final(cache_map)@ == old(cache_map)@),
            self@.active ==> {
                let path = self@.list_path->0;
                if old(cache_map)@.contains_key(path) {
                    &&& final(cache_map)@ == old(cache_map)@
                    &&& (r matches Ok(Some(l)) && l@ == label_in(old(cache_map)@[path], raw_code@))
                } else {
                    match r {
                        Ok(Some(l)) => exists|p: &String, m: TextMap|
                            p@ == path && #[trigger] load.ensures((p,), Ok::<TextMap, String>(m))
                                && final(cache_map)@ == old(cache_map)@.insert(path, m@) && l@ == label_in(m@, raw_code@),
                        Ok(None) => false,
                        Err(e) => e.path@ == path && final(cache_map)@ == old(cache_map)@ && exists|p: &String, msg: String|
                            p@ == path && #[trigger] load.ensures((p,), Err::<TextMap, String>(msg)) && e.message == msg,
                    }
                }
            },
    {
        proof {
            use_type_invariant(self);
        }
        if !self.active {
            return Ok(None);
        }
        let abs_path = match &self.path {
            Some(p) => p,
            None => return Ok(None),
        };
        let ghost before = cache_map@;
        match get_code_map(cache_map, abs_path, load) {
            Ok(code_map) => {
                let l = code_map.label_of(raw_code);
                proof {
                    if !before.contains_key(abs_path@) {
                        let m = choose|m: TextMap| load.ensures((abs_path,), Ok::<TextMap, String>(m)) && m@ == code_map@;
                        assert(load.ensures((abs_path,), Ok::<TextMap, String>(m)));
                    }
                }
                Ok(Some(l))
            },
            Err(e) => Err(e),
        }
    }
}

} // verus!
