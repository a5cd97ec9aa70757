//! A name-keyed registry of compiled shaders.
use vstd::prelude::*;

verus! {

/// Shaders keyed by name; adding a shader under a name already held
/// replaces the one held. Names and shaders are held in parallel vectors,
/// names distinct, because a `String`-keyed map has no contents that Verus
/// can reason about; `spec_map` is the map they form.
pub struct ShaderLibrary<S> {
    names: Vec<String>,
    shaders: Vec<S>,
}

/// Whether `names` holds `k` at some index.
pub open spec fn spec_holds_name(names: Seq<Seq<char>>, k: Seq<char>) -> bool {
    exists|i: int| 0 <= i < names.len() && names[i] == k
}

/// No name occurs twice.
pub open spec fn spec_names_distinct(names: Seq<Seq<char>>) -> bool {
    forall|i: int, j: int| 0 <= i < names.len() && 0 <= j < names.len() && names[i] == names[j] ==> i == j
}

impl<S> ShaderLibrary<S> {
    /// The names held, in the order they were first added.
    pub closed spec fn spec_names(&self) -> Seq<Seq<char>> {
        self.names@.map_values(|n: String| n@)
    }

    /// The shaders held, parallel to `spec_names`.
    pub closed spec fn spec_shaders(&self) -> Seq<S> {
        self.shaders@
    }

    pub open spec fn wf(&self) -> bool {
        &&& self.spec_names().len() == self.spec_shaders().len()
        &&& spec_names_distinct(self.spec_names())
    }

    /// The library as a map from name to shader.
    pub open spec fn spec_map(&self) -> Map<Seq<char>, S> {
        Map::new(
            |k: Seq<char>| spec_holds_name(self.spec_names(), k),
            |k: Seq<char>|
                self.spec_shaders()[choose|i: int| 0 <= i < self.spec_names().len() && self.spec_names()[i] == k],
        )
    }

    /// An empty library.
    pub fn new() -> (lib: Self)
        ensures
            lib.wf(),
            lib.spec_map() == Map::<Seq<char>, S>::empty(),
    {
        let lib = ShaderLibrary { names: Vec::new(), shaders: Vec::new() };
        assert(lib.spec_map() =~= Map::<Seq<char>, S>::empty());
        lib
    }

    /// Index of `name` among the names held, if it is held.
    fn position(&self, name: &str) -> (r: Option<usize>)
        requires
            self.wf(),
        ensures
            r.is_none() ==> !spec_holds_name(self.spec_names(), name@),
            r.is_some() ==> r.unwrap() < self.spec_names().len() && self.spec_names()[r.unwrap() as int]
                == name@,
    {
        let mut i: usize = 0;
        while i < self.names.len()
            invariant
                i <= self.names.len(),
                self.spec_names().len() == self.names.len(),
                forall|j: int| 0 <= j < i ==> self.spec_names()[j] != name@,
            decreases self.names.len() - i,
        {
            let n = self.names[i].as_str();
            if str_same(n, name) {
                return Some(i);
            }
            i = i + 1;
        }
        None
    }

    /// Adds `shader` under `name`, replacing a shader already held there.
    pub fn add(&mut self, name: &str, shader: S)
        requires
            old(self).wf(),
        ensures
            final(self).wf(),
            final(self).spec_map() == old(self).spec_map().insert(name@, shader),
    {
        let ghost old_names = self.spec_names();
        let ghost old_shaders = self.spec_shaders();
        let ghost old_map = self.spec_map();
        match self.position(name) {
            Some(i) => {
                self.shaders.set(i, shader);
                proof {
                    assert(self.spec_names() =~= old_names);
                    assert forall|k: Seq<char>| #[trigger] self.spec_map().contains_key(k) implies self.spec_map()[k]
                        == old_map.insert(name@, shader)[k] by {
                        let c = choose|j: int| 0 <= j < self.spec_names().len() && self.spec_names()[j] == k;
                        if k == name@ {
                            assert(self.spec_names()[i as int] == k);
                            assert(c == i);
                        } else {
                            let c0 = choose|j: int| 0 <= j < old_names.len() && old_names[j] == k;
                            assert(c0 == c);
                        }
                    }
                    assert(self.spec_map() =~= old_map.insert(name@, shader));
                }
            },
            None => {
                let owned = name.to_owned();
                self.names.push(owned);
                self.shaders.push(shader);
                proof {
                    let n = old_names.len();
                    assert(self.spec_names() =~= old_names.push(name@));
                    assert forall|a: int, b: int|
                        0 <= a < self.spec_names().len() && 0 <= b < self.spec_names().len()
                            && self.spec_names()[a] == self.spec_names()[b] implies a == b by {
                        if a < n && b == n {
                            assert(old_names[a] == name@);
                        } else if a == n && b < n {
                            assert(old_names[b] == name@);
                        }
                    }
                    assert forall|k: Seq<char>| #[trigger] self.spec_map().contains_key(k) implies self.spec_map()[k]
                        == old_map.insert(name@, shader)[k] by {
                        let c = choose|j: int| 0 <= j < self.spec_names().len() && self.spec_names()[j] == k;
                        if k == name@ {
                            assert(self.spec_names()[n as int] == k);
                            assert(c == n);
                        } else {
                            assert(c < n);
                            let c0 = choose|j: int| 0 <= j < old_names.len() && old_names[j] == k;
                            assert(c0 == c);
                        }
                    }
                    assert forall|k: Seq<char>| #[trigger] old_map.insert(name@, shader).contains_key(k) implies self.spec_map().contains_key(k) by {
                        if k == name@ {
                            assert(self.spec_names()[n as int] == k);
                        } else {
                            let c0 = choose|j: int| 0 <= j < old_names.len() && old_names[j] == k;
                            assert(self.spec_names()[c0] == k);
                        }
                    }
                    assert(self.spec_map() =~= old_map.insert(name@, shader));
                }
            },
        }
    }

    /// The shader held under `name`, if any.
    pub fn get(&self, name: &str) -> (r: Option<&S>)
        requires
            self.wf(),
        ensures
            self.spec_map().contains_key(name@) ==> r == Some(&self.spec_map()[name@]),
            !self.spec_map().contains_key(name@) ==> r.is_none(),
    {
        match self.position(name) {
            Some(i) => {
                proof {
                    let c = choose|j: int| 0 <= j < self.spec_names().len() && self.spec_names()[j] == name@;
                    assert(c == i);
                }
                Some(&self.shaders[i])
            },
            None => None,
        }
    }

    /// Whether a shader is held under `name`.
    pub fn contains(&self, name: &str) -> (b: bool)
        requires
            self.wf(),
        ensures
            b == self.spec_map().contains_key(name@),
    {
        self.position(name).is_some()
    }
}

/// Whether two string slices hold the same characters.
fn str_same(a: &str, b: &str) -> (r: bool)
    ensures
        r == (a@ == b@),
{
    let x = a.to_owned();
    let y = b.to_owned();
    x == y
}

/// A shader added under a name is what a lookup of that name finds, and
/// adding it leaves every other name's shader as it was.
pub proof fn lemma_add_then_get<S>(
    before: ShaderLibrary<S>,
    after: ShaderLibrary<S>,
    name: Seq<char>,
    shader: S,
    other: Seq<char>,
)
    requires
        after.spec_map() == before.spec_map().insert(name, shader),
        other != name,
    ensures
        after.spec_map().contains_key(name),
        after.spec_map()[name] == shader,
        after.spec_map().contains_key(other) == before.spec_map().contains_key(other),
        before.spec_map().contains_key(other) ==> after.spec_map()[other] == before.spec_map()[other],
{
}

} // verus!
