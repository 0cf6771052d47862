//! The page router: which page stands for a path, and what a change of page asks of the
//! host. Mounting and unmounting a page's element is the caller's part; the router says
//! which page to leave and which to enter.

use vstd::prelude::*;
use vstd::string::StringExecFns;
use crate::invoke::routine;
use crate::invoke::views;
use crate::invoke::Call;
use crate::invoke::Js;
use crate::invoke::JsValue;
use crate::invoke::ObjectRef;
use crate::invoke::Value;
use crate::template::markers_from;

verus! {

/// A page: the element that shows it, the path that it is found under, and its title.
#[derive(Debug)]
pub struct Page<E> {
    pub path: String,
    pub element: E,
    pub title: Option<String>,
}

impl<E> Page<E> {
    pub fn new(path: &str, element: E) -> (page: Self)
        ensures
            page.path@ == path@,
            page.element == element,
            page.title is None,
    {
        Self { path: String::from_str(path), element, title: None }
    }

    /// The page with the title `title`.
    pub fn ttile(self, title: String) -> (page: Self)
        ensures
            page.path == self.path,
            page.element == self.element,
            page.title == Some(title),
    {
        let mut page = self;
        page.title = Some(title);
        page
    }
}

/// The paths of `pages`, in order.
pub open spec fn paths<E>(pages: Seq<Page<E>>) -> Seq<Seq<char>> {
    pages.map_values(|p: Page<E>| p.path@)
}

/// The first page whose path is `path`.
pub open spec fn first_match(paths: Seq<Seq<char>>, path: Seq<char>) -> Option<int>
    decreases paths.len(),
{
    if paths.len() == 0 {
        None
    } else {
        match first_match(paths.drop_last(), path) {
            Some(i) => Some(i),
            None => if paths.last() == path {
                Some(paths.len() - 1)
            } else {
                None
            },
        }
    }
}

/// The last page whose path is `path`.
pub open spec fn last_match(paths: Seq<Seq<char>>, path: Seq<char>) -> Option<int>
    decreases paths.len(),
{
    if paths.len() == 0 {
        None
    } else if paths.last() == path {
        Some(paths.len() - 1)
    } else {
        last_match(paths.drop_last(), path)
    }
}

/// The page that is shown first: the first one whose path is where the host stands, or
/// the first page of all.
pub open spec fn landing(paths: Seq<Seq<char>>, pathname: Seq<char>) -> int {
    match first_match(paths, pathname) {
        Some(i) => i,
        None => 0,
    }
}

/// The page that stands for `route`: the first page of all for the root path, else the
/// last page whose path is `route`.
pub open spec fn resolved(paths: Seq<Seq<char>>, route: Seq<char>) -> Option<int> {
    if paths.len() > 0 && route == "/"@ {
        Some(0)
    } else {
        last_match(paths, route)
    }
}

/// A page that is found has the path that was asked for, or is the first page under the
/// root path.
pub proof fn lemma_resolved_is_a_page(paths: Seq<Seq<char>>, route: Seq<char>)
    ensures
        resolved(paths, route) matches Some(i) ==> 0 <= i < paths.len() && (paths[i] == route
            || (i == 0 && route == "/"@)),
        first_match(paths, route) matches Some(i) ==> 0 <= i < paths.len() && paths[i] == route,
        last_match(paths, route) matches Some(i) ==> 0 <= i < paths.len() && paths[i] == route,
        0 <= landing(paths, route) <= paths.len(),
    decreases paths.len(),
{
    if paths.len() > 0 {
        lemma_resolved_is_a_page(paths.drop_last(), route);
    }
}

/// The calls that find the root element and the path at which the host stands.
pub open spec fn locate_calls(root: Seq<char>) -> Seq<Call> {
    seq![
        Call::Invoke {
            code: routine("return document.querySelector({})"@, 1),
            params: seq![Value::Str(root)],
        },
        Call::Invoke { code: routine("return window.location.pathname"@, 0), params: Seq::empty() },
    ]
}

/// The calls of a change of page: empty the root element, and note the new page in the
/// host's history.
pub open spec fn navigate_calls(root: u32, title: Seq<char>, route: Seq<char>) -> Seq<Call> {
    seq![
        Call::Invoke {
            code: routine("{}.innerHTML = {}"@, 2),
            params: seq![Value::Ref(root), Value::Str(Seq::empty())],
        },
        Call::Invoke {
            code: routine("window.history.pushState({ },{},{})"@, 2),
            params: seq![Value::Str(title), Value::Str(route)],
        },
    ]
}

/// The title of a page, empty where it has none.
pub open spec fn title_of<E>(page: Page<E>) -> Seq<char> {
    match page.title {
        Some(title) => title@,
        None => Seq::empty(),
    }
}

/// A change of page: the page to unmount and the page to mount.
#[derive(Debug, Clone, Copy, PartialEq, Eq, Structural)]
pub struct Navigation {
    pub leave: usize,
    pub enter: usize,
}

/// The pages of a site, with the element of the document that shows one of them.
#[derive(Debug)]
pub struct Router<E> {
    pub root: Option<ObjectRef>,
    pub pages: Vec<Page<E>>,
}

fn same(text: &String, other: &str) -> (equal: bool)
    ensures
        equal == (text@ == other@),
{
    let other: String = String::from_str(other);
    *text == other
}

impl<E> Router<E> {
    /// The router knows its root element and has a page to fall back on.
    pub open spec fn wf(&self) -> bool {
        self.root is Some && self.pages@.len() > 0
    }

    /// The id of the root element.
    pub open spec fn root_id(&self) -> u32 {
        match self.root {
            Some(root) => root.0,
            None => 0,
        }
    }

    /// Asks the host for the element that `root` selects and for the path at which it
    /// stands. The two replies are what `new` builds the router from.
    pub fn locate(js: &mut Js, root: &str)
        ensures
            final(js)@ == old(js)@ + locate_calls(root@),
    {
        proof {
            reveal_strlit("return document.querySelector({})");
            reveal_strlit("return window.location.pathname");
            reveal_with_fuel(markers_from, 36);
        }
        let mut params: Vec<JsValue> = Vec::new();
        params.push(JsValue::Str(String::from_str(root)));
        assert(views(params@) =~= seq![Value::Str(root@)]);
        js.invoke("return document.querySelector({})", params);
        let params: Vec<JsValue> = Vec::new();
        assert(views(params@) =~= Seq::<Value>::empty());
        js.invoke("return window.location.pathname", params);
        assert(js@ =~= old(js)@ + locate_calls(root@));
    }

    /// Builds the router from the host's replies to `locate`. The second part of the
    /// answer is the page to mount on the root element: the first one whose path is
    /// `pathname`, or the first page of all.
    pub fn new(body: ObjectRef, pathname: &str, pages: Vec<Page<E>>) -> (made: (Self, usize))
        requires
            pages@.len() > 0,
        ensures
            made.0.root == Some(body),
            made.0.pages == pages,
            made.0.wf(),
            made.1 == landing(paths(pages@), pathname@),
            made.1 < pages@.len(),
    {
        let mut found: Option<usize> = None;
        let mut i: usize = 0;
        assert(paths(pages@).take(0) =~= Seq::<Seq<char>>::empty());
        while i < pages.len()
            invariant
                i <= pages@.len(),
                match found {
                    Some(k) => k < i && first_match(paths(pages@).take(i as int), pathname@)
                        == Some(k as int),
                    None => first_match(paths(pages@).take(i as int), pathname@) is None,
                },
            decreases pages@.len() - i,
        {
            let hit: bool = same(&pages[i].path, pathname);
            proof {
                let now = paths(pages@).take(i + 1);
                assert(now.drop_last() =~= paths(pages@).take(i as int));
                assert(now.last() == pages@[i as int].path@);
            }
            if found.is_none() && hit {
                found = Some(i);
            }
            i = i + 1;
        }
        assert(paths(pages@).take(pages@.len() as int) =~= paths(pages@));
        let mount: usize = match found {
            Some(k) => k,
            None => 0,
        };
        (Router { root: Some(body), pages }, mount)
    }

    /// The page that stands for `route`, if there is one.
    pub fn resolve(&self, route: &str) -> (page: Option<usize>)
        ensures
            match page {
                Some(i) => i < self.pages@.len() && resolved(paths(self.pages@), route@) == Some(
                    i as int,
                ),
                None => resolved(paths(self.pages@), route@) is None,
            },
    {
        proof {
            reveal_strlit("/");
        }
        if self.pages.len() > 0 && same(&String::from_str(route), "/") {
            return Some(0);
        }
        proof {
            if self.pages@.len() == 0 {
                assert(paths(self.pages@) =~= Seq::<Seq<char>>::empty());
            }
        }
        let mut i: usize = self.pages.len();
        assert(paths(self.pages@).take(i as int) =~= paths(self.pages@));
        while i > 0
            invariant
                i <= self.pages@.len(),
                self.pages@.len() > 0 ==> route@ != "/"@,
                last_match(paths(self.pages@), route@) == last_match(
                    paths(self.pages@).take(i as int),
                    route@,
                ),
            decreases i,
        {
            let ghost now = paths(self.pages@).take(i as int);
            i = i - 1;
            proof {
                assert(now.drop_last() =~= paths(self.pages@).take(i as int));
                assert(now.last() == self.pages@[i as int].path@);
            }
            if same(&self.pages[i].path, route) {
                assert(last_match(now, route@) == Some(i as int));
                return Some(i);
            }
        }
        None
    }

    /// Changes from the page at `pathname`, where the host stands, to the page of
    /// `route`: asks the host to empty the root element and to note the new page in its
    /// history, and says which page to unmount before and which to mount after.
    pub fn navigate(&self, js: &mut Js, pathname: &str, route: &str) -> (change: Navigation)
        requires
            self.wf(),
            resolved(paths(self.pages@), pathname@) is Some,
            resolved(paths(self.pages@), route@) is Some,
        ensures
            Some(change.leave as int) == resolved(paths(self.pages@), pathname@),
            Some(change.enter as int) == resolved(paths(self.pages@), route@),
            change.leave < self.pages@.len(),
            change.enter < self.pages@.len(),
            final(js)@ == old(js)@ + navigate_calls(
                self.root_id(),
                title_of(self.pages@[change.enter as int]),
                route@,
            ),
    {
        proof {
            reveal_strlit("{}.innerHTML = {}");
            reveal_strlit("window.history.pushState({ },{},{})");
            reveal_strlit("");
            reveal_with_fuel(markers_from, 40);
        }
        let leave: usize = self.resolve(pathname).unwrap();
        let enter: usize = self.resolve(route).unwrap();
        let body: ObjectRef = self.root.unwrap();

        let mut params: Vec<JsValue> = Vec::new();
        params.push(JsValue::Ref(body));
        params.push(JsValue::Str(String::from_str("")));
        assert(""@ =~= Seq::<char>::empty());
        assert(views(params@) =~= seq![Value::Ref(body.0), Value::Str(Seq::empty())]);
        js.invoke("{}.innerHTML = {}", params);

        let title: String = match &self.pages[enter].title {
            Some(title) => title.clone(),
            None => String::new(),
        };
        let mut params: Vec<JsValue> = Vec::new();
        params.push(JsValue::Str(title));
        params.push(JsValue::Str(String::from_str(route)));
        assert(views(params@) =~= seq![
            Value::Str(title_of(self.pages@[enter as int])),
            Value::Str(route@),
        ]);
        js.invoke("window.history.pushState({ },{},{})", params);
        assert(js@ =~= old(js)@ + navigate_calls(
            body.0,
            title_of(self.pages@[enter as int]),
            route@,
        ));
        Navigation { leave, enter }
    }
}

} // verus!
