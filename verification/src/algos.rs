//! The registry of algorithms: named, kept in the order in which they were registered,
//! and read-only once built.

use crate::text::same_text;
use vstd::prelude::*;

verus! {

/// Where `name` stands among `names` from place `from` on, if it stands there.
pub open spec fn position_from(names: Seq<Seq<char>>, name: Seq<char>, from: int) -> Option<int>
    decreases names.len() - from,
{
    if from < 0 || from >= names.len() {
        None
    } else if names[from] == name {
        Some(from)
    } else {
        position_from(names, name, from + 1)
    }
}

/// Where `name` stands among `names`, if it stands there.
pub open spec fn position(names: Seq<Seq<char>>, name: Seq<char>) -> Option<int> {
    position_from(names, name, 0)
}

/// Whether no name stands twice among `names`.
pub open spec fn distinct(names: Seq<Seq<char>>) -> bool {
    forall|i: int, j: int| 0 <= i < j < names.len() ==> names[i] != names[j]
}

/// A position that is found holds the name, and a name that is not found stands nowhere
/// from `from` on.
pub proof fn lemma_position_from(names: Seq<Seq<char>>, name: Seq<char>, from: int)
    requires
        0 <= from,
    ensures
        position_from(names, name, from) matches Some(at) ==> from <= at < names.len()
            && names[at] == name,
        position_from(names, name, from) is None ==> forall|i: int|
            from <= i < names.len() ==> names[i] != name,
    decreases names.len() - from,
{
    if from < names.len() && names[from] != name {
        lemma_position_from(names, name, from + 1);
    }
}

/// The names of registered entries.
pub open spec fn names_of<A>(entries: Seq<(String, A)>) -> Seq<Seq<char>> {
    entries.map_values(|entry: (String, A)| entry.0@)
}

/// The algorithms of registered entries.
pub open spec fn algorithms_of<A>(entries: Seq<(String, A)>) -> Seq<A> {
    entries.map_values(|entry: (String, A)| entry.1)
}

/// The names once `name` has been registered: where they are, if `name` is among them,
/// with `name` after them otherwise.
pub open spec fn names_with(names: Seq<Seq<char>>, name: Seq<char>) -> Seq<Seq<char>> {
    if position(names, name) is Some {
        names
    } else {
        names.push(name)
    }
}

/// The algorithms once `algo` has been registered under `name`: `algo` in the place of
/// the algorithm that had the name, or after all of them where none had it.
pub open spec fn algorithms_with<A>(
    names: Seq<Seq<char>>,
    algorithms: Seq<A>,
    name: Seq<char>,
    algo: A,
) -> Seq<A> {
    match position(names, name) {
        Some(at) => algorithms.update(at, algo),
        None => algorithms.push(algo),
    }
}

/// Named algorithms in the order of their registration. No name stands twice.
pub struct Algos<A> {
    algos: Vec<(String, A)>,
}

/// A registry in the making.
pub struct AlgosBuilder<A> {
    algos: Vec<(String, A)>,
}

impl<A> Algos<A> {
    #[verifier::type_invariant]
    spec fn well_formed(self) -> bool {
        distinct(names_of(self.algos@))
    }

    /// The names, in the order of registration.
    pub closed spec fn names(&self) -> Seq<Seq<char>> {
        names_of(self.algos@)
    }

    /// The algorithms, in the order of registration.
    pub closed spec fn algorithms(&self) -> Seq<A> {
        algorithms_of(self.algos@)
    }

    /// How many algorithms are registered: as many as names, of which none stands twice.
    pub fn len(&self) -> (n: usize)
        ensures
            n == self.algorithms().len(),
            n == self.names().len(),
            distinct(self.names()),
    {
        proof {
            use_type_invariant(self);
        }
        self.algos.len()
    }

    /// The names of the registered algorithms, in the order of registration.
    pub fn iter_names(&self) -> (names: Vec<String>)
        ensures
            names.deep_view() == self.names(),
    {
        let mut names: Vec<String> = Vec::new();
        let mut i: usize = 0;
        while i < self.algos.len()
            invariant
                i <= self.algos.len(),
                names@.len() == i,
                forall|j: int| 0 <= j < i ==> names@[j]@ == names_of(self.algos@)[j],
            decreases self.algos.len() - i,
        {
            names.push(self.algos[i].0.clone());
            i = i + 1;
        }
        assert(names.deep_view() =~= names_of(self.algos@)) by {
            assert(names.deep_view().len() == names@.len());
            assert forall|j: int| 0 <= j < names@.len() implies names.deep_view()[j]
                == names_of(self.algos@)[j] by {
                assert(names.deep_view()[j] == names@[j].deep_view());
            }
        }
        names
    }

    /// The registered algorithms, in the order of registration.
    pub fn iter_all(&self) -> (all: Vec<&A>)
        ensures
            all@.len() == self.algorithms().len(),
            forall|i: int| 0 <= i < all@.len() ==> *all@[i] == self.algorithms()[i],
    {
        let mut all: Vec<&A> = Vec::new();
        let mut i: usize = 0;
        while i < self.algos.len()
            invariant
                i <= self.algos.len(),
                all@.len() == i,
                forall|j: int| 0 <= j < i ==> *all@[j] == algorithms_of(self.algos@)[j],
            decreases self.algos.len() - i,
        {
            all.push(&self.algos[i].1);
            i = i + 1;
        }
        all
    }

    /// The algorithm at place `index` of the registration order.
    pub fn get(&self, index: usize) -> (r: Option<&A>)
        ensures
            index < self.algorithms().len() ==> r == Some(&self.algorithms()[index as int]),
            index >= self.algorithms().len() ==> r is None,
    {
        if index < self.algos.len() {
            Some(&self.algos[index].1)
        } else {
            None
        }
    }

    /// The algorithm registered under `name`.
    pub fn get_by_name(&self, name: &str) -> (r: Option<&A>)
        ensures
            position(self.names(), name@) matches Some(at) ==> r == Some(
                &self.algorithms()[at],
            ),
            position(self.names(), name@) is None ==> r is None,
    {
        match find(&self.algos, name) {
            Some(at) => {
                proof {
                    lemma_position_from(names_of(self.algos@), name@, 0);
                }
                Some(&self.algos[at].1)
            },
            None => None,
        }
    }
}

/// Finds the place of `name` among registered entries.
fn find<A>(entries: &Vec<(String, A)>, name: &str) -> (r: Option<usize>)
    ensures
        r matches Some(at) ==> position(names_of(entries@), name@) == Some(at as int),
        r is None ==> position(names_of(entries@), name@) is None,
{
    let mut i: usize = 0;
    while i < entries.len()
        invariant
            i <= entries.len(),
            position(names_of(entries@), name@) == position_from(
                names_of(entries@),
                name@,
                i as int,
            ),
        decreases entries.len() - i,
    {
        if same_text(entries[i].0.as_str(), name) {
            return Some(i);
        }
        i = i + 1;
    }
    None
}

impl<A> AlgosBuilder<A> {
    #[verifier::type_invariant]
    spec fn well_formed(self) -> bool {
        distinct(names_of(self.algos@))
    }

    /// The names registered so far, in the order of registration.
    pub closed spec fn names(&self) -> Seq<Seq<char>> {
        names_of(self.algos@)
    }

    /// The algorithms registered so far, in the order of registration.
    pub closed spec fn algorithms(&self) -> Seq<A> {
        algorithms_of(self.algos@)
    }

    /// A builder with nothing registered.
    pub fn new() -> (builder: AlgosBuilder<A>)
        ensures
            builder.names() == Seq::<Seq<char>>::empty(),
            builder.algorithms() == Seq::<A>::empty(),
    {
        let builder = AlgosBuilder { algos: Vec::new() };
        assert(builder.names() =~= Seq::<Seq<char>>::empty());
        assert(builder.algorithms() =~= Seq::<A>::empty());
        builder
    }

    /// Registers `algo` under `name`. An algorithm that had the name gives way to `algo`,
    /// which takes its place in the order.
    pub fn add(self, name: &str, algo: A) -> (builder: AlgosBuilder<A>)
        ensures
            builder.names() == names_with(self.names(), name@),
            builder.algorithms() == algorithms_with(self.names(), self.algorithms(), name@, algo),
    {
        proof {
            use_type_invariant(&self);
            lemma_position_from(names_of(self.algos@), name@, 0);
        }
        let ghost before = self.algos@;
        let mut algos = self.algos;
        match find(&algos, name) {
            Some(at) => {
                let entry = (algos[at].0.clone(), algo);
                algos.set(at, entry);
                assert(names_of(algos@) =~= names_of(before));
                assert(algorithms_of(algos@) =~= algorithms_of(before).update(at as int, algo));
            },
            None => {
                algos.push((name.to_owned(), algo));
                assert(names_of(algos@) =~= names_of(before).push(name@));
                assert(algorithms_of(algos@) =~= algorithms_of(before).push(algo));
            },
        }
        AlgosBuilder { algos }
    }

    /// The registry of what has been registered.
    pub fn build(self) -> (registry: Algos<A>)
        ensures
            registry.names() == self.names(),
            registry.algorithms() == self.algorithms(),
    {
        proof {
            use_type_invariant(&self);
        }
        Algos { algos: self.algos }
    }
}

} // verus!
