use vstd::prelude::*;
use crate::errors::ScraperError;
use crate::text::str_eq;

verus! {

/// One element of a parsed page.
#[derive(Clone, Debug, PartialEq, Eq)]
pub struct HtmlElement {
    /// Tag name, in lower case.
    pub name: String,
    pub classes: Vec<String>,
    /// Attributes other than `class`, in source order.
    pub attrs: Vec<(String, String)>,
    /// Text content of the element and its descendants, surrounding white
    /// space removed.
    pub text: String,
    /// Index of the enclosing element; `None` for the root.
    pub parent: Option<usize>,
}

/// A parsed page: its elements in document order.
#[derive(Clone, Debug, PartialEq, Eq)]
pub struct HtmlDocument {
    pub elements: Vec<HtmlElement>,
}

/// An anchor: elements with this tag name and this class.
#[derive(Clone, Debug, PartialEq, Eq)]
pub struct Selector {
    pub name: String,
    pub class: String,
}

pub open spec fn has_class_spec(e: HtmlElement, class: Seq<char>) -> bool {
    exists|k: int| 0 <= k < e.classes@.len() && (#[trigger] e.classes@[k])@ == class
}

/// Whether `a` encloses element `i`, directly or not.
pub open spec fn is_descendant(elems: Seq<HtmlElement>, i: int, a: int) -> bool
    decreases i,
{
    if 0 <= i < elems.len() {
        match elems[i].parent {
            Some(p) => p < i && (p == a || is_descendant(elems, p as int, a)),
            None => false,
        }
    } else {
        false
    }
}

pub open spec fn in_scope(elems: Seq<HtmlElement>, scope: Option<usize>, i: int) -> bool {
    match scope {
        Some(a) => is_descendant(elems, i, a as int),
        None => true,
    }
}

/// Element `i` matches `sel` and lies inside `scope` (the whole page when `None`).
pub open spec fn selects(doc: HtmlDocument, scope: Option<usize>, sel: (Seq<char>, Seq<char>), i: int) -> bool {
    &&& 0 <= i < doc.elements@.len()
    &&& in_scope(doc.elements@, scope, i)
    &&& doc.elements@[i].name@ == sel.0
    &&& has_class_spec(doc.elements@[i], sel.1)
}

/// The first value of attribute `name`, if any.
pub open spec fn attr_spec(attrs: Seq<(String, String)>, name: Seq<char>) -> Option<Seq<char>>
    decreases attrs.len(),
{
    if attrs.len() == 0 {
        None
    } else if attrs[0].0@ == name {
        Some(attrs[0].1@)
    } else {
        attr_spec(attrs.drop_first(), name)
    }
}

/// How an anchor is named in errors: `tag.class`.
pub open spec fn selector_text(sel: (Seq<char>, Seq<char>)) -> Seq<char> {
    sel.0 + "."@ + sel.1
}

impl View for Selector {
    type V = (Seq<char>, Seq<char>);

    open spec fn view(&self) -> (Seq<char>, Seq<char>) {
        (self.name@, self.class@)
    }
}

impl Selector {
    pub fn new(name: &str, class: &str) -> (r: Selector)
        ensures
            r@ == (name@, class@),
    {
        Selector { name: String::from_str(name), class: String::from_str(class) }
    }

    pub fn describe(&self) -> (r: String)
        ensures
            r@ == selector_text(self@),
    {
        let s = self.name.clone();
        let s = s.concat(".");
        s.concat(self.class.as_str())
    }
}

pub fn has_class(e: &HtmlElement, class: &str) -> (r: bool)
    ensures
        r == has_class_spec(*e, class@),
{
    let mut k: usize = 0;
    while k < e.classes.len()
        invariant
            k <= e.classes@.len(),
            forall|j: int| 0 <= j < k ==> (#[trigger] e.classes@[j])@ != class@,
        decreases e.classes@.len() - k,
    {
        if str_eq(e.classes[k].as_str(), class) {
            return true;
        }
        k = k + 1;
    }
    false
}

pub fn attr<'a>(e: &'a HtmlElement, name: &str) -> (r: Option<&'a str>)
    ensures
        r matches Some(v) ==> attr_spec(e.attrs@, name@) == Some(v@),
        r is None ==> attr_spec(e.attrs@, name@) is None,
{
    let mut k: usize = 0;
    assert(e.attrs@.subrange(0, e.attrs@.len() as int) == e.attrs@);
    while k < e.attrs.len()
        invariant
            k <= e.attrs@.len(),
            attr_spec(e.attrs@, name@) == attr_spec(e.attrs@.subrange(k as int, e.attrs@.len() as int), name@),
        decreases e.attrs@.len() - k,
    {
        let ghost rest = e.attrs@.subrange(k as int, e.attrs@.len() as int);
        assert(rest.drop_first() == e.attrs@.subrange(k + 1, e.attrs@.len() as int));
        if str_eq(e.attrs[k].0.as_str(), name) {
            return Some(e.attrs[k].1.as_str());
        }
        k = k + 1;
    }
    assert(e.attrs@.subrange(k as int, e.attrs@.len() as int).len() == 0);
    None
}

impl HtmlDocument {
    /// Parents come before their children.
    pub open spec fn wf(&self) -> bool {
        forall|i: int|
            0 <= i < self.elements@.len() ==> match (#[trigger] self.elements@[i]).parent {
                Some(p) => p < i,
                None => true,
            }
    }

    /// Checks that parents come before their children.
    pub fn check_wf(&self) -> (r: bool)
        ensures
            r == self.wf(),
    {
        let mut i: usize = 0;
        while i < self.elements.len()
            invariant
                i <= self.elements@.len(),
                forall|j: int|
                    0 <= j < i ==> match (#[trigger] self.elements@[j]).parent {
                        Some(p) => p < j,
                        None => true,
                    },
            decreases self.elements@.len() - i,
        {
            match self.elements[i].parent {
                Some(p) => {
                    if p >= i {
                        assert(!(match self.elements@[i as int].parent {
                            Some(p) => p < i,
                            None => true,
                        }));
                        return false;
                    }
                },
                None => {},
            }
            i = i + 1;
        }
        true
    }

    pub fn is_within(&self, i: usize, a: usize) -> (r: bool)
        requires
            self.wf(),
            i < self.elements@.len(),
        ensures
            r == is_descendant(self.elements@, i as int, a as int),
    {
        let mut cur: usize = i;
        loop
            invariant
                self.wf(),
                cur < self.elements@.len(),
                is_descendant(self.elements@, i as int, a as int) == is_descendant(
                    self.elements@,
                    cur as int,
                    a as int,
                ),
            decreases cur,
        {
            match self.elements[cur].parent {
                Some(p) => {
                    if p == a {
                        return true;
                    }
                    cur = p;
                },
                None => {
                    return false;
                },
            }
        }
    }

    pub fn selects_at(&self, scope: Option<usize>, sel: &Selector, i: usize) -> (r: bool)
        requires
            self.wf(),
            i < self.elements@.len(),
        ensures
            r == selects(*self, scope, sel@, i as int),
    {
        let e = &self.elements[i];
        if !str_eq(e.name.as_str(), sel.name.as_str()) {
            return false;
        }
        if !has_class(e, sel.class.as_str()) {
            return false;
        }
        match scope {
            Some(a) => self.is_within(i, a),
            None => true,
        }
    }

    /// The one element that `sel` selects inside `scope`. None or several are
    /// errors naming the anchor; the first match is never taken silently.
    pub fn select_unique(&self, scope: Option<usize>, sel: &Selector) -> (r: Result<
        usize,
        ScraperError,
    >)
        requires
            self.wf(),
        ensures
            r matches Ok(i) ==> selects(*self, scope, sel@, i as int) && forall|j: int|
                #![trigger selects(*self, scope, sel@, j)]
                selects(*self, scope, sel@, j) ==> j == i,
            r matches Err(ScraperError::HtmlFragmentNotFound(s)) ==> s@ == selector_text(sel@),
            r matches Err(ScraperError::TooManyHtmlFragments(s)) ==> s@ == selector_text(sel@),
            r is Err ==> r matches Err(ScraperError::HtmlFragmentNotFound(_)) || r matches Err(
                ScraperError::TooManyHtmlFragments(_),
            ),
            r matches Err(ScraperError::HtmlFragmentNotFound(_)) <==> forall|j: int|
                !selects(*self, scope, sel@, j),
            r matches Err(ScraperError::TooManyHtmlFragments(_)) <==> exists|j: int, k: int|
                j != k && selects(*self, scope, sel@, j) && selects(*self, scope, sel@, k),
    {
        let mut found: Option<usize> = None;
        let mut i: usize = 0;
        while i < self.elements.len()
            invariant
                self.wf(),
                i <= self.elements@.len(),
                match found {
                    Some(f) => f < i && selects(*self, scope, sel@, f as int) && forall|j: int|
                        #![trigger selects(*self, scope, sel@, j)]
                        0 <= j < i && selects(*self, scope, sel@, j) ==> j == f,
                    None => forall|j: int|
                        #![trigger selects(*self, scope, sel@, j)]
                        0 <= j < i ==> !selects(*self, scope, sel@, j),
                },
            decreases self.elements@.len() - i,
        {
            if self.selects_at(scope, sel, i) {
                match found {
                    Some(f) => {
                        assert(selects(*self, scope, sel@, f as int) && selects(
                            *self,
                            scope,
                            sel@,
                            i as int,
                        ));
                        return Err(ScraperError::TooManyHtmlFragments(sel.describe()));
                    },
                    None => {
                        found = Some(i);
                    },
                }
            }
            i = i + 1;
        }
        match found {
            Some(f) => Ok(f),
            None => Err(ScraperError::HtmlFragmentNotFound(sel.describe())),
        }
    }

    /// Like `select_unique`, but no match is `None` rather than an error.
    pub fn select_optional(&self, scope: Option<usize>, sel: &Selector) -> (r: Result<
        Option<usize>,
        ScraperError,
    >)
        requires
            self.wf(),
        ensures
            r matches Ok(Some(i)) ==> selects(*self, scope, sel@, i as int) && forall|j: int|
                #![trigger selects(*self, scope, sel@, j)]
                selects(*self, scope, sel@, j) ==> j == i,
            r matches Ok(None) <==> forall|j: int| !selects(*self, scope, sel@, j),
            r is Err ==> r matches Err(ScraperError::TooManyHtmlFragments(_)),
            r is Err <==> exists|j: int, k: int|
                j != k && selects(*self, scope, sel@, j) && selects(*self, scope, sel@, k),
            r matches Err(ScraperError::TooManyHtmlFragments(s)) ==> s@ == selector_text(sel@),
    {
        match self.select_unique(scope, sel) {
            Ok(i) => Ok(Some(i)),
            Err(ScraperError::HtmlFragmentNotFound(_)) => Ok(None),
            Err(e) => Err(e),
        }
    }

    /// Every element that `sel` selects inside `scope`, in document order.
    pub fn select_all(&self, scope: Option<usize>, sel: &Selector) -> (r: Vec<usize>)
        requires
            self.wf(),
        ensures
            forall|k: int| 0 <= k < r@.len() ==> selects(*self, scope, sel@, #[trigger] r@[k] as int),
            forall|j: int|
                #![trigger selects(*self, scope, sel@, j)]
                selects(*self, scope, sel@, j) ==> r@.contains(j as usize),
            forall|a: int, b: int| 0 <= a < b < r@.len() ==> r@[a] < r@[b],
    {
        let mut out: Vec<usize> = Vec::new();
        let mut i: usize = 0;
        while i < self.elements.len()
            invariant
                self.wf(),
                i <= self.elements@.len(),
                forall|k: int| 0 <= k < out@.len() ==> selects(*self, scope, sel@, #[trigger] out@[k] as int),
                forall|k: int| 0 <= k < out@.len() ==> #[trigger] out@[k] < i,
                forall|j: int|
                    #![trigger selects(*self, scope, sel@, j)]
                    0 <= j < i && selects(*self, scope, sel@, j) ==> out@.contains(j as usize),
                forall|a: int, b: int| 0 <= a < b < out@.len() ==> out@[a] < out@[b],
            decreases self.elements@.len() - i,
        {
            if self.selects_at(scope, sel, i) {
                let ghost before = out@;
                out.push(i);
                assert forall|j: int|
                    #![trigger selects(*self, scope, sel@, j)]
                    0 <= j < i + 1 && selects(*self, scope, sel@, j) implies out@.contains(j as usize) by {
                    if j < i {
                        let w = choose|w: int| 0 <= w < before.len() && before[w] == j as usize;
                        assert(out@[w] == j as usize);
                    } else {
                        assert(out@[before.len() as int] == i);
                    }
                }
            }
            i = i + 1;
        }
        out
    }

    /// Whether any element of the page carries `class`.
    pub fn any_with_class(&self, class: &str) -> (r: bool)
        ensures
            r == exists|j: int| 0 <= j < self.elements@.len() && has_class_spec(
                #[trigger] self.elements@[j],
                class@,
            ),
    {
        let mut i: usize = 0;
        while i < self.elements.len()
            invariant
                i <= self.elements@.len(),
                forall|j: int| 0 <= j < i ==> !has_class_spec(#[trigger] self.elements@[j], class@),
            decreases self.elements@.len() - i,
        {
            if has_class(&self.elements[i], class) {
                return true;
            }
            i = i + 1;
        }
        false
    }
}

} // verus!
