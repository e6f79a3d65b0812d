//! The properties that a request asks for: an ordered set of names.

use vstd::prelude::*;

verus! {

/// The names of `names` in their order, each one only where it occurs first.
pub open spec fn first_occurrences(names: Seq<Seq<char>>) -> Seq<Seq<char>>
    decreases names.len(),
{
    if names.len() == 0 {
        Seq::empty()
    } else {
        let earlier = first_occurrences(names.drop_last());
        if earlier.contains(names.last()) {
            earlier
        } else {
            earlier.push(names.last())
        }
    }
}

/// `first_occurrences` keeps every name of its argument and adds none.
pub proof fn lemma_first_occurrences_names(names: Seq<Seq<char>>)
    ensures
        forall|name: Seq<char>| #[trigger]
            first_occurrences(names).contains(name) <==> names.contains(name),
    decreases names.len(),
{
    if names.len() > 0 {
        let init = names.drop_last();
        let earlier = first_occurrences(init);
        let kept = first_occurrences(names);
        lemma_first_occurrences_names(init);
        assert forall|name: Seq<char>| names.contains(name) implies #[trigger] kept.contains(
            name,
        ) by {
            let i = choose|i: int| 0 <= i < names.len() && names[i] == name;
            if i < names.len() - 1 {
                assert(init[i] == name);
                assert(init.contains(name));
            }
            if earlier.contains(name) {
                let j = choose|j: int| 0 <= j < earlier.len() && earlier[j] == name;
                assert(kept[j] == name);
            } else {
                assert(kept[earlier.len() as int] == name);
            }
        }
        assert forall|name: Seq<char>| #[trigger] kept.contains(name) implies names.contains(
            name,
        ) by {
            let j = choose|j: int| 0 <= j < kept.len() && kept[j] == name;
            if j < earlier.len() {
                assert(earlier[j] == name);
                assert(earlier.contains(name));
                assert(init.contains(name));
                let i = choose|i: int| 0 <= i < init.len() && init[i] == name;
                assert(names[i] == name);
            } else {
                assert(names[names.len() - 1] == name);
            }
        }
    }
}

/// No name occurs twice in `first_occurrences`.
pub proof fn lemma_first_occurrences_distinct(names: Seq<Seq<char>>)
    ensures
        first_occurrences(names).no_duplicates(),
    decreases names.len(),
{
    if names.len() > 0 {
        lemma_first_occurrences_distinct(names.drop_last());
    }
}

/// Names that are distinct already are all kept, in their order.
pub proof fn lemma_first_occurrences_of_distinct(names: Seq<Seq<char>>)
    requires
        names.no_duplicates(),
    ensures
        first_occurrences(names) == names,
    decreases names.len(),
{
    if names.len() > 0 {
        let init = names.drop_last();
        lemma_first_occurrences_of_distinct(init);
        if init.contains(names.last()) {
            let i = choose|i: int| 0 <= i < init.len() && init[i] == names.last();
            assert(names[i] == names[names.len() - 1]);
        }
        assert(init.push(names.last()) =~= names);
    }
}

/// Extracting the names a second time changes nothing: what comes out of
/// `first_occurrences` goes through it unchanged.
pub proof fn lemma_first_occurrences_idempotent(names: Seq<Seq<char>>)
    ensures
        first_occurrences(first_occurrences(names)) == first_occurrences(names),
{
    lemma_first_occurrences_distinct(names);
    lemma_first_occurrences_of_distinct(first_occurrences(names));
}

/// The names stand in the order in which the argument has them first: of two
/// names that are kept, the one that stands first occurs first.
pub proof fn lemma_first_occurrences_order(names: Seq<Seq<char>>, i: int, j: int)
    requires
        0 <= i < j < first_occurrences(names).len(),
    ensures
        names.index_of_first(first_occurrences(names)[i]) is Some,
        names.index_of_first(first_occurrences(names)[j]) is Some,
        names.index_of_first(first_occurrences(names)[i])->0 < names.index_of_first(
            first_occurrences(names)[j],
        )->0,
    decreases names.len(),
{
    let kept = first_occurrences(names);
    let init = names.drop_last();
    let earlier = first_occurrences(init);
    lemma_first_occurrences_names(names);
    lemma_first_occurrences_names(init);
    assert(kept.contains(kept[i]));
    assert(kept.contains(kept[j]));
    names.index_of_first_ensures(kept[i]);
    names.index_of_first_ensures(kept[j]);
    let at_i = names.index_of_first(kept[i])->0;
    let at_j = names.index_of_first(kept[j])->0;
    assert(earlier.contains(kept[i])) by {
        assert(earlier[i] == kept[i]);
    }
    init.index_of_first_ensures(kept[i]);
    let before_i = init.index_of_first(kept[i])->0;
    assert(names[before_i] == kept[i]);
    assert(at_i <= before_i);
    if j < earlier.len() {
        lemma_first_occurrences_order(init, i, j);
        assert(earlier.contains(kept[j])) by {
            assert(earlier[j] == kept[j]);
        }
        init.index_of_first_ensures(kept[j]);
        let before_j = init.index_of_first(kept[j])->0;
        assert(names[before_j] == kept[j]);
        assert(init[at_i] == kept[i]);
        assert(init[at_j] == kept[j]);
    } else {
        assert(kept[j] == names.last());
        assert(!init.contains(kept[j]));
        if at_j < init.len() {
            assert(init[at_j] == kept[j]);
        }
    }
}

/// Whether `name` is one of `names`.
fn contains_name(names: &Vec<String>, name: &String) -> (found: bool)
    ensures
        found == names.deep_view().contains(name@),
{
    let mut i: usize = 0;
    while i < names.len()
        invariant
            i <= names.len(),
            forall|j: int| 0 <= j < i ==> names.deep_view()[j] != name@,
        decreases names.len() - i,
    {
        if names[i] == *name {
            assert(names.deep_view()[i as int] == name@);
            return true;
        }
        i += 1;
    }
    false
}

/// The properties that one request asks for, by local name: in the order of
/// the request, and no name twice.
pub struct PropRequest {
    props: Vec<String>,
}

impl View for PropRequest {
    type V = Seq<Seq<char>>;

    closed spec fn view(&self) -> Seq<Seq<char>> {
        self.props.deep_view()
    }
}

impl PropRequest {
    #[verifier::type_invariant]
    spec fn distinct(self) -> bool {
        self.props.deep_view().no_duplicates()
    }

    /// The request for `names`: a name that is given more than once counts
    /// where it stands first.
    pub fn new(names: Vec<String>) -> (request: PropRequest)
        ensures
            request@ == first_occurrences(names.deep_view()),
    {
        let ghost all = names.deep_view();
        let mut props: Vec<String> = Vec::new();
        let mut i: usize = 0;
        assert(all.take(0) =~= Seq::empty());
        while i < names.len()
            invariant
                i <= names.len(),
                all == names.deep_view(),
                props.deep_view() == first_occurrences(all.take(i as int)),
            decreases names.len() - i,
        {
            let ghost before = props.deep_view();
            assert(all.take(i + 1).drop_last() =~= all.take(i as int));
            assert(all.take(i + 1).last() == names[i as int]@);
            if !contains_name(&props, &names[i]) {
                props.push(names[i].clone());
                assert(props.deep_view() =~= before.push(names[i as int]@));
            }
            i += 1;
        }
        assert(all.take(i as int) =~= all);
        proof {
            lemma_first_occurrences_distinct(all);
        }
        PropRequest { props }
    }

    /// The request that asks for nothing.
    pub fn empty() -> (request: PropRequest)
        ensures
            request@ == Seq::<Seq<char>>::empty(),
    {
        let props: Vec<String> = Vec::new();
        assert(props.deep_view() =~= Seq::empty());
        PropRequest { props }
    }

    /// The names, in the order of the request.
    pub fn props(&self) -> (names: &Vec<String>)
        ensures
            names.deep_view() == self@,
            self@.no_duplicates(),
    {
        proof {
            use_type_invariant(self);
        }
        &self.props
    }
}

} // verus!
