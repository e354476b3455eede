//! Street definitions: the measured segments of each street, grouped by the
//! street's name and by qualifier.
use vstd::prelude::*;

pub mod definition;

verus! {

/// The segments of one qualifier of a street, in the order they were listed.
#[derive(Debug)]
pub struct StreetQualifier<M> {
    pub measures: Vec<M>,
}

/// A street: its name and, for each qualifier it is listed under, the
/// segments listed under it. No qualifier appears twice.
#[derive(Debug)]
pub struct StreetDefinition<M> {
    pub name: String,
    pub qualifiers: Vec<(String, StreetQualifier<M>)>,
}

/// The segments of `input` listed under street `name` and qualifier `q`, in
/// order.
pub open spec fn group_measures<M>(input: Seq<(String, String, M)>, name: Seq<char>, q: Seq<char>) -> Seq<M>
    decreases input.len(),
{
    if input.len() == 0 {
        seq![]
    } else {
        let rest = group_measures(input.drop_last(), name, q);
        let e = input.last();
        if e.0@ == name && e.1@ == q {
            rest.push(e.2)
        } else {
            rest
        }
    }
}

/// Whether `streets` groups the segments of `input`: no street name twice,
/// no qualifier twice within a street, each qualifier holding exactly the
/// segments listed under its street and qualifier, in order, none of them
/// empty, every street with at least one qualifier, and every listed segment
/// falling under some street and qualifier.
pub open spec fn grouped<M>(streets: Seq<StreetDefinition<M>>, input: Seq<(String, String, M)>) -> bool {
    &&& forall|i: int| 0 <= i < streets.len() ==> #[trigger] streets[i].qualifiers@.len() > 0
    &&& forall|i: int, j: int|
        0 <= i < streets.len() && 0 <= j < streets.len() && i != j ==> #[trigger] streets[i].name@
            != #[trigger] streets[j].name@
    &&& forall|i: int, a: int, b: int|
        0 <= i < streets.len() && 0 <= a < streets[i].qualifiers@.len() && 0 <= b
            < streets[i].qualifiers@.len() && a != b ==> #[trigger] streets[i].qualifiers@[a].0@
            != #[trigger] streets[i].qualifiers@[b].0@
    &&& forall|i: int, a: int|
        0 <= i < streets.len() && 0 <= a < streets[i].qualifiers@.len() ==> {
            &&& (#[trigger] streets[i].qualifiers@[a]).1.measures@ == group_measures(
                input,
                streets[i].name@,
                streets[i].qualifiers@[a].0@,
            )
            &&& streets[i].qualifiers@[a].1.measures@.len() > 0
        }
    &&& forall|k: int|
        0 <= k < input.len() ==> exists|i: int, a: int|
            0 <= i < streets.len() && 0 <= a < streets[i].qualifiers@.len() && #[trigger] input[k].0@
                == streets[i].name@ && input[k].1@ == (#[trigger] streets[i].qualifiers@[a]).0@
}

proof fn lemma_group_push<M>(input: Seq<(String, String, M)>, x: (String, String, M), name: Seq<char>, q: Seq<char>)
    ensures
        group_measures(input.push(x), name, q) == if x.0@ == name && x.1@ == q {
            group_measures(input, name, q).push(x.2)
        } else {
            group_measures(input, name, q)
        },
{
    assert(input.push(x).drop_last() =~= input);
}

proof fn lemma_group_absent<M>(input: Seq<(String, String, M)>, name: Seq<char>, q: Seq<char>)
    requires
        forall|k: int| 0 <= k < input.len() ==> !(#[trigger] input[k].0@ == name && input[k].1@ == q),
    ensures
        group_measures(input, name, q) == Seq::<M>::empty(),
    decreases input.len(),
{
    if input.len() > 0 {
        let init = input.drop_last();
        assert forall|k: int| 0 <= k < init.len() implies !(#[trigger] init[k].0@ == name && init[k].1@ == q) by {
            assert(init[k] == input[k]);
        }
        lemma_group_absent(init, name, q);
        assert(input.last() == input[input.len() - 1]);
    }
}

proof fn lemma_group_nonempty<M>(input: Seq<(String, String, M)>, name: Seq<char>, q: Seq<char>)
    requires
        group_measures(input, name, q).len() > 0,
    ensures
        exists|k: int| 0 <= k < input.len() && #[trigger] input[k].0@ == name && input[k].1@ == q,
    decreases input.len(),
{
    let init = input.drop_last();
    if input.last().0@ == name && input.last().1@ == q {
        assert(input[input.len() - 1].0@ == name);
    } else {
        lemma_group_nonempty(init, name, q);
        let k = choose|k: int| 0 <= k < init.len() && #[trigger] init[k].0@ == name && init[k].1@ == q;
        assert(input[k] == init[k]);
    }
}

/// Whether some listed segment names the street `name`.
pub open spec fn street_listed<M>(input: Seq<(String, String, M)>, name: Seq<char>) -> bool {
    exists|k: int| 0 <= k < input.len() && #[trigger] input[k].0@ == name
}

/// Whether some listed segment names the street `name` with qualifier `q`.
pub open spec fn qualifier_listed<M>(input: Seq<(String, String, M)>, name: Seq<char>, q: Seq<char>) -> bool {
    exists|k: int| 0 <= k < input.len() && #[trigger] input[k].0@ == name && input[k].1@ == q
}

/// Grouping makes up no street and no qualifier: every street, and every
/// qualifier of it, is named together by some listed segment.
pub proof fn lemma_grouped_streets_are_listed<M>(streets: Seq<StreetDefinition<M>>, input: Seq<(String, String, M)>)
    requires
        grouped(streets, input),
    ensures
        forall|i: int, a: int|
            0 <= i < streets.len() && 0 <= a < streets[i].qualifiers@.len() ==> #[trigger] qualifier_listed(
                input,
                streets[i].name@,
                streets[i].qualifiers@[a].0@,
            ),
        forall|i: int| 0 <= i < streets.len() ==> #[trigger] street_listed(input, streets[i].name@),
{
    assert forall|i: int, a: int|
        0 <= i < streets.len() && 0 <= a < streets[i].qualifiers@.len() implies #[trigger] qualifier_listed(
            input,
            streets[i].name@,
            streets[i].qualifiers@[a].0@,
        ) by {
        lemma_group_nonempty(input, streets[i].name@, streets[i].qualifiers@[a].0@);
    }
    assert forall|i: int| 0 <= i < streets.len() implies #[trigger] street_listed(input, streets[i].name@) by {
        let q = streets[i].qualifiers@[0];
        lemma_group_nonempty(input, streets[i].name@, q.0@);
        let k = choose|k: int| 0 <= k < input.len() && #[trigger] input[k].0@ == streets[i].name@ && input[k].1@ == q.0@;
        assert(input[k].0@ == streets[i].name@);
    }
}

fn find_street<M>(streets: &Vec<StreetDefinition<M>>, name: &String) -> (r: Option<usize>)
    ensures
        match r {
            Some(i) => i < streets@.len() && streets@[i as int].name@ == name@,
            None => forall|i: int| 0 <= i < streets@.len() ==> #[trigger] streets@[i].name@ != name@,
        },
{
    let n = streets.len();
    let mut i: usize = 0;
    while i < n
        invariant
            n == streets@.len(),
            i <= n,
            forall|k: int| 0 <= k < i ==> #[trigger] streets@[k].name@ != name@,
        decreases n - i,
    {
        if streets[i].name == *name {
            return Some(i);
        }
        i = i + 1;
    }
    None
}

fn find_qualifier<M>(qualifiers: &Vec<(String, StreetQualifier<M>)>, q: &String) -> (r: Option<usize>)
    ensures
        match r {
            Some(a) => a < qualifiers@.len() && qualifiers@[a as int].0@ == q@,
            None => forall|a: int| 0 <= a < qualifiers@.len() ==> #[trigger] qualifiers@[a].0@ != q@,
        },
{
    let n = qualifiers.len();
    let mut a: usize = 0;
    while a < n
        invariant
            n == qualifiers@.len(),
            a <= n,
            forall|k: int| 0 <= k < a ==> #[trigger] qualifiers@[k].0@ != q@,
        decreases n - a,
    {
        if qualifiers[a].0 == *q {
            return Some(a);
        }
        a = a + 1;
    }
    None
}

/// `v` in reverse order.
fn reversed<T>(v: Vec<T>) -> (r: Vec<T>)
    ensures
        r@ == v@.reverse(),
{
    let ghost orig = v@;
    let mut v = v;
    let mut r: Vec<T> = Vec::new();
    while v.len() > 0
        invariant
            v@ == orig.take(orig.len() - r@.len()),
            r@.len() <= orig.len(),
            forall|j: int| 0 <= j < r@.len() ==> #[trigger] r@[j] == orig[orig.len() - 1 - j],
        decreases v@.len(),
    {
        let x = v.pop().unwrap();
        r.push(x);
        assert(v@ =~= orig.take(orig.len() - r@.len()));
    }
    assert(r@ =~= orig.reverse());
    r
}

/// The values of a list of results, in order, or the first error.
pub open spec fn collect_spec<T, E>(rs: Seq<Result<T, E>>) -> Result<Seq<T>, E>
    decreases rs.len(),
{
    if rs.len() == 0 {
        Ok(seq![])
    } else {
        match rs[0] {
            Err(e) => Err(e),
            Ok(t) => match collect_spec(rs.drop_first()) {
                Ok(ts) => Ok(seq![t] + ts),
                Err(e) => Err(e),
            },
        }
    }
}

/// A list of results gives its values exactly when no result is an error,
/// and then one value per result, in order.
pub proof fn lemma_collect_spec<T, E>(rs: Seq<Result<T, E>>)
    ensures
        collect_spec(rs) is Ok <==> forall|i: int| 0 <= i < rs.len() ==> #[trigger] rs[i] is Ok,
        collect_spec(rs) matches Ok(v) ==> v.len() == rs.len() && forall|i: int|
            0 <= i < rs.len() ==> rs[i] == Ok::<T, E>(#[trigger] v[i]),
    decreases rs.len(),
{
    if rs.len() > 0 {
        let rest = rs.drop_first();
        lemma_collect_spec(rest);
        assert forall|i: int| 0 < i < rs.len() implies #[trigger] rs[i] == rest[i - 1] by {}
        if let Ok(v) = collect_spec(rs) {
            assert forall|i: int| 0 <= i < rs.len() implies rs[i] == Ok::<T, E>(#[trigger] v[i]) by {
                if i > 0 {
                    assert(rs[i] == rest[i - 1]);
                }
            }
        }
        if forall|i: int| 0 <= i < rs.len() ==> #[trigger] rs[i] is Ok {
            assert forall|i: int| 0 <= i < rest.len() implies #[trigger] rest[i] is Ok by {
                assert(rest[i] == rs[i + 1]);
            }
        }
        if collect_spec(rest) is Ok && rs[0] is Ok {
            assert forall|i: int| 0 <= i < rs.len() implies #[trigger] rs[i] is Ok by {
                if i > 0 {
                    assert(rs[i] == rest[i - 1]);
                }
            }
        }
    }
}

/// The number of segments held by a list of qualifiers.
pub open spec fn qualifier_total<M>(qs: Seq<(String, StreetQualifier<M>)>) -> int
    decreases qs.len(),
{
    if qs.len() == 0 {
        0
    } else {
        qualifier_total(qs.drop_last()) + qs.last().1.measures@.len()
    }
}

/// The number of segments held by a list of streets.
pub open spec fn street_total<M>(ss: Seq<StreetDefinition<M>>) -> int
    decreases ss.len(),
{
    if ss.len() == 0 {
        0
    } else {
        street_total(ss.drop_last()) + qualifier_total(ss.last().qualifiers@)
    }
}

proof fn lemma_qualifier_total_bump<M>(qs: Seq<(String, StreetQualifier<M>)>, qs2: Seq<(String, StreetQualifier<M>)>, a: int)
    requires
        qs.len() == qs2.len(),
        0 <= a < qs.len(),
        forall|b: int| 0 <= b < qs.len() && b != a ==> qs2[b] == qs[b],
        qs2[a].1.measures@.len() == qs[a].1.measures@.len() + 1,
    ensures
        qualifier_total(qs2) == qualifier_total(qs) + 1,
    decreases qs.len(),
{
    if a < qs.len() - 1 {
        lemma_qualifier_total_bump(qs.drop_last(), qs2.drop_last(), a);
        assert(qs2.last() == qs2[qs2.len() - 1]);
        assert(qs.last() == qs[qs.len() - 1]);
    } else {
        assert(qs.drop_last() =~= qs2.drop_last());
    }
}

proof fn lemma_street_total_bump<M>(ss: Seq<StreetDefinition<M>>, ss2: Seq<StreetDefinition<M>>, i: int)
    requires
        ss.len() == ss2.len(),
        0 <= i < ss.len(),
        forall|j: int| 0 <= j < ss.len() && j != i ==> ss2[j] == ss[j],
        qualifier_total(ss2[i].qualifiers@) == qualifier_total(ss[i].qualifiers@) + 1,
    ensures
        street_total(ss2) == street_total(ss) + 1,
    decreases ss.len(),
{
    if i < ss.len() - 1 {
        lemma_street_total_bump(ss.drop_last(), ss2.drop_last(), i);
        assert(ss2.last() == ss2[ss2.len() - 1]);
        assert(ss.last() == ss[ss.len() - 1]);
    } else {
        assert(ss.drop_last() =~= ss2.drop_last());
    }
}

/// The values of a list of results, in order, or its first error.
pub fn collect_results<T, E>(rs: Vec<Result<T, E>>) -> (res: Result<Vec<T>, E>)
    ensures
        match collect_spec(rs@) {
            Ok(w) => res matches Ok(v) && v@ == w,
            Err(f) => res == Err::<Vec<T>, E>(f),
        },
{
    let ghost orig = rs@;
    let mut pending = reversed(rs);
    let mut out: Vec<T> = Vec::new();
    proof {
        assert(orig.skip(0) =~= orig);
        if let Ok(w) = collect_spec(orig) {
            assert(out@ + w =~= w);
        }
    }
    while pending.len() > 0
        invariant
            orig == rs@,
            pending@.len() <= orig.len(),
            forall|j: int| 0 <= j < pending@.len() ==> #[trigger] pending@[j] == orig[orig.len() - 1 - j],
            collect_spec(orig) == match collect_spec(orig.skip(orig.len() - pending@.len())) {
                Ok(w) => Ok(out@ + w),
                Err(e) => Err(e),
            },
        decreases pending@.len(),
    {
        let ghost start = orig.len() - pending@.len();
        let r = pending.pop().unwrap();
        assert(r == orig[start]);
        assert(orig.skip(start).drop_first() =~= orig.skip(start + 1));
        assert(orig.skip(start)[0] == orig[start]);
        match r {
            Ok(t) => {
                proof {
                    if let Ok(w) = collect_spec(orig.skip(start + 1)) {
                        assert(out@ + (seq![t] + w) =~= out@.push(t) + w);
                    }
                }
                out.push(t);
            },
            Err(e) => {
                assert(orig.skip(start)[0] == Err::<T, E>(e));
                assert(collect_spec(orig.skip(start)) == Err::<Seq<T>, E>(e));
                return Err(e);
            },
        }
    }
    assert(orig.skip(orig.len() as int) =~= Seq::<Result<T, E>>::empty());
    assert(out@ + seq![] =~= out@);
    Ok(out)
}

impl<M> StreetDefinition<M> {
    /// Groups the segments of a list of records by street and qualifier, or
    /// gives the first record's error: one bad record spoils the whole list,
    /// since a street's segments are spread over many records.
    pub fn from_records<E>(records: Vec<Result<(String, String, M), E>>) -> (res: Result<Vec<StreetDefinition<M>>, E>)
        ensures
            match collect_spec(records@) {
                Ok(segments) => res matches Ok(streets) && grouped(streets@, segments) && street_total(
                    streets@,
                ) == records@.len(),
                Err(f) => res == Err::<Vec<StreetDefinition<M>>, E>(f),
            },
    {
        proof {
            lemma_collect_spec(records@);
        }
        let segments = collect_results(records)?;
        Ok(Self::group(segments))
    }

    /// Groups segments, each listed with its street name and qualifier, by
    /// street and then by qualifier, keeping the order of the segments within
    /// each group.
    pub fn group(input: Vec<(String, String, M)>) -> (streets: Vec<StreetDefinition<M>>)
        ensures
            grouped(streets@, input@),
            street_total(streets@) == input@.len(),
    {
        let ghost orig = input@;
        let mut pending = reversed(input);
        let mut streets: Vec<StreetDefinition<M>> = Vec::new();
        while pending.len() > 0
            invariant
                pending@.len() <= orig.len(),
                forall|j: int| 0 <= j < pending@.len() ==> #[trigger] pending@[j] == orig[orig.len() - 1 - j],
                grouped(streets@, orig.take(orig.len() - pending@.len())),
                street_total(streets@) == orig.len() - pending@.len(),
            decreases pending@.len(),
        {
            let ghost done = orig.take(orig.len() - pending@.len());
            let ghost old_streets = streets@;
            let (name, q, m) = pending.pop().unwrap();
            let ghost x = (name, q, m);
            assert(x == orig[done.len() as int]);
            assert(orig.take(orig.len() - pending@.len()) =~= done.push(x));
            match find_street(&streets, &name) {
                Some(i) => {
                    match find_qualifier(&streets[i].qualifiers, &q) {
                        Some(a) => {
                            streets[i].qualifiers[a].1.measures.push(m);
                            proof {
                                lemma_grouped_extend(old_streets, streets@, done, x, i as int, a as int);
                                lemma_qualifier_total_bump(old_streets[i as int].qualifiers@, streets@[i as int].qualifiers@, a as int);
                                lemma_street_total_bump(old_streets, streets@, i as int);
                            }
                        },
                        None => {
                            proof {
                                lemma_absent_group(old_streets, done, name@, q@);
                            }
                            let mut measures = Vec::new();
                            measures.push(m);
                            streets[i].qualifiers.push((q, StreetQualifier { measures }));
                            proof {
                                lemma_grouped_new_qualifier(old_streets, streets@, done, x, i as int);
                                assert(streets@[i as int].qualifiers@.drop_last() =~= old_streets[i as int].qualifiers@);
                                assert(qualifier_total(streets@[i as int].qualifiers@) == qualifier_total(old_streets[i as int].qualifiers@) + 1);
                                lemma_street_total_bump(old_streets, streets@, i as int);
                            }
                        },
                    }
                },
                None => {
                    proof {
                        lemma_absent_group(old_streets, done, name@, q@);
                    }
                    let mut measures = Vec::new();
                    measures.push(m);
                    let mut qualifiers = Vec::new();
                    qualifiers.push((q, StreetQualifier { measures }));
                    streets.push(StreetDefinition { name, qualifiers });
                    proof {
                        lemma_grouped_new_street(old_streets, streets@, done, x);
                        assert(streets@.drop_last() =~= old_streets);
                        let qs = streets@.last().qualifiers@;
                        assert(qs.drop_last() =~= Seq::<(String, StreetQualifier<M>)>::empty());
                        assert(qs.len() == 1);
                        assert(qs.last() == qs[0]);
                        assert(qs[0].1.measures@.len() == 1);
                        assert(qualifier_total(qs.drop_last()) == 0);
                        assert(qualifier_total(qs) == 1);
                        assert(street_total(streets@) == street_total(old_streets) + 1);
                    }
                },
            }
        }
        assert(orig.take(orig.len() as int) =~= orig);
        streets
    }
}

/// Where no grouped street and qualifier is (`name`, `q`), no segment was
/// listed under them.
proof fn lemma_absent_group<M>(streets: Seq<StreetDefinition<M>>, done: Seq<(String, String, M)>, name: Seq<char>, q: Seq<char>)
    requires
        grouped(streets, done),
        forall|i: int, a: int|
            0 <= i < streets.len() && 0 <= a < streets[i].qualifiers@.len() ==> !(streets[i].name@
                == name && (#[trigger] streets[i].qualifiers@[a]).0@ == q),
    ensures
        group_measures(done, name, q) == Seq::<M>::empty(),
{
    assert forall|k: int| 0 <= k < done.len() implies !(#[trigger] done[k].0@ == name && done[k].1@ == q) by {
        let (i, a) = choose|i: int, a: int|
            0 <= i < streets.len() && 0 <= a < streets[i].qualifiers@.len() && #[trigger] done[k].0@
                == streets[i].name@ && done[k].1@ == (#[trigger] streets[i].qualifiers@[a]).0@;
    }
    lemma_group_absent(done, name, q);
}

proof fn lemma_grouped_extend<M>(
    old_streets: Seq<StreetDefinition<M>>,
    streets: Seq<StreetDefinition<M>>,
    done: Seq<(String, String, M)>,
    x: (String, String, M),
    i: int,
    a: int,
)
    requires
        grouped(old_streets, done),
        0 <= i < old_streets.len(),
        0 <= a < old_streets[i].qualifiers@.len(),
        old_streets[i].name@ == x.0@,
        old_streets[i].qualifiers@[a].0@ == x.1@,
        streets.len() == old_streets.len(),
        forall|j: int| 0 <= j < streets.len() && j != i ==> streets[j] == old_streets[j],
        streets[i].name == old_streets[i].name,
        streets[i].qualifiers@.len() == old_streets[i].qualifiers@.len(),
        forall|b: int|
            0 <= b < streets[i].qualifiers@.len() && b != a ==> streets[i].qualifiers@[b]
                == old_streets[i].qualifiers@[b],
        streets[i].qualifiers@[a].0 == old_streets[i].qualifiers@[a].0,
        streets[i].qualifiers@[a].1.measures@ == old_streets[i].qualifiers@[a].1.measures@.push(x.2),
    ensures
        grouped(streets, done.push(x)),
{
    let input = done.push(x);
    assert forall|j: int, b: int| 0 <= j < streets.len() && 0 <= b < streets[j].qualifiers@.len() implies {
        &&& (#[trigger] streets[j].qualifiers@[b]).1.measures@ == group_measures(
            input,
            streets[j].name@,
            streets[j].qualifiers@[b].0@,
        )
        &&& streets[j].qualifiers@[b].1.measures@.len() > 0
    } by {
        lemma_group_push(done, x, streets[j].name@, streets[j].qualifiers@[b].0@);
        if j != i {
            assert(streets[j] == old_streets[j]);
            assert(old_streets[j].name@ != old_streets[i].name@);
        } else if b != a {
            assert(streets[i].qualifiers@[b] == old_streets[i].qualifiers@[b]);
            assert(old_streets[i].qualifiers@[b].0@ != old_streets[i].qualifiers@[a].0@);
        }
    }
    assert forall|k: int| 0 <= k < input.len() implies exists|j: int, b: int|
        0 <= j < streets.len() && 0 <= b < streets[j].qualifiers@.len() && #[trigger] input[k].0@
            == streets[j].name@ && input[k].1@ == (#[trigger] streets[j].qualifiers@[b]).0@ by {
        if k == done.len() {
            assert(input[k] == x);
            assert(streets[i].qualifiers@[a].0@ == x.1@);
        } else {
            assert(input[k] == done[k]);
            let (j, b) = choose|j: int, b: int|
                0 <= j < old_streets.len() && 0 <= b < old_streets[j].qualifiers@.len() && #[trigger] done[k].0@
                    == old_streets[j].name@ && done[k].1@ == (#[trigger] old_streets[j].qualifiers@[b]).0@;
            if j != i {
                assert(streets[j] == old_streets[j]);
            } else if b != a {
                assert(streets[i].qualifiers@[b] == old_streets[i].qualifiers@[b]);
            }
            assert(streets[j].qualifiers@[b].0@ == old_streets[j].qualifiers@[b].0@);
        }
    }
    assert forall|j1: int, j2: int| 0 <= j1 < streets.len() && 0 <= j2 < streets.len() && j1 != j2 implies #[trigger] streets[j1].name@
        != #[trigger] streets[j2].name@ by {
        assert(streets[j1].name@ == old_streets[j1].name@);
        assert(streets[j2].name@ == old_streets[j2].name@);
    }
    assert forall|j: int, b1: int, b2: int|
        0 <= j < streets.len() && 0 <= b1 < streets[j].qualifiers@.len() && 0 <= b2
            < streets[j].qualifiers@.len() && b1 != b2 implies #[trigger] streets[j].qualifiers@[b1].0@
        != #[trigger] streets[j].qualifiers@[b2].0@ by {
        if j != i {
            assert(streets[j] == old_streets[j]);
        } else {
            assert(streets[i].qualifiers@[b1].0@ == old_streets[i].qualifiers@[b1].0@);
            assert(streets[i].qualifiers@[b2].0@ == old_streets[i].qualifiers@[b2].0@);
        }
    }
}

proof fn lemma_grouped_new_qualifier<M>(
    old_streets: Seq<StreetDefinition<M>>,
    streets: Seq<StreetDefinition<M>>,
    done: Seq<(String, String, M)>,
    x: (String, String, M),
    i: int,
)
    requires
        grouped(old_streets, done),
        0 <= i < old_streets.len(),
        old_streets[i].name@ == x.0@,
        forall|a: int| 0 <= a < old_streets[i].qualifiers@.len() ==> #[trigger] old_streets[i].qualifiers@[a].0@ != x.1@,
        group_measures(done, x.0@, x.1@) == Seq::<M>::empty(),
        streets.len() == old_streets.len(),
        forall|j: int| 0 <= j < streets.len() && j != i ==> streets[j] == old_streets[j],
        streets[i].name == old_streets[i].name,
        streets[i].qualifiers@.len() == old_streets[i].qualifiers@.len() + 1,
        forall|b: int|
            0 <= b < old_streets[i].qualifiers@.len() ==> streets[i].qualifiers@[b]
                == old_streets[i].qualifiers@[b],
        streets[i].qualifiers@.last().0 == x.1,
        streets[i].qualifiers@.last().1.measures@ == seq![x.2],
    ensures
        grouped(streets, done.push(x)),
{
    let input = done.push(x);
    let n = old_streets[i].qualifiers@.len();
    assert(streets[i].qualifiers@[n as int] == streets[i].qualifiers@.last());
    assert forall|j: int, b: int| 0 <= j < streets.len() && 0 <= b < streets[j].qualifiers@.len() implies {
        &&& (#[trigger] streets[j].qualifiers@[b]).1.measures@ == group_measures(
            input,
            streets[j].name@,
            streets[j].qualifiers@[b].0@,
        )
        &&& streets[j].qualifiers@[b].1.measures@.len() > 0
    } by {
        lemma_group_push(done, x, streets[j].name@, streets[j].qualifiers@[b].0@);
        if j != i {
            assert(streets[j] == old_streets[j]);
            assert(old_streets[j].name@ != old_streets[i].name@);
        } else if b < n {
            assert(streets[i].qualifiers@[b] == old_streets[i].qualifiers@[b]);
        } else {
            assert(seq![x.2] =~= Seq::<M>::empty().push(x.2));
        }
    }
    assert forall|k: int| 0 <= k < input.len() implies exists|j: int, b: int|
        0 <= j < streets.len() && 0 <= b < streets[j].qualifiers@.len() && #[trigger] input[k].0@
            == streets[j].name@ && input[k].1@ == (#[trigger] streets[j].qualifiers@[b]).0@ by {
        if k == done.len() {
            assert(input[k] == x);
            assert(streets[i].qualifiers@[n as int].0@ == x.1@);
        } else {
            assert(input[k] == done[k]);
            let (j, b) = choose|j: int, b: int|
                0 <= j < old_streets.len() && 0 <= b < old_streets[j].qualifiers@.len() && #[trigger] done[k].0@
                    == old_streets[j].name@ && done[k].1@ == (#[trigger] old_streets[j].qualifiers@[b]).0@;
            if j != i {
                assert(streets[j] == old_streets[j]);
            } else {
                assert(streets[i].qualifiers@[b] == old_streets[i].qualifiers@[b]);
            }
            assert(streets[j].qualifiers@[b].0@ == old_streets[j].qualifiers@[b].0@);
        }
    }
    assert forall|j1: int, j2: int| 0 <= j1 < streets.len() && 0 <= j2 < streets.len() && j1 != j2 implies #[trigger] streets[j1].name@
        != #[trigger] streets[j2].name@ by {
        assert(streets[j1].name@ == old_streets[j1].name@);
        assert(streets[j2].name@ == old_streets[j2].name@);
    }
    assert forall|j: int, b1: int, b2: int|
        0 <= j < streets.len() && 0 <= b1 < streets[j].qualifiers@.len() && 0 <= b2
            < streets[j].qualifiers@.len() && b1 != b2 implies #[trigger] streets[j].qualifiers@[b1].0@
        != #[trigger] streets[j].qualifiers@[b2].0@ by {
        if j != i {
            assert(streets[j] == old_streets[j]);
        } else {
            if b1 < n {
                assert(streets[i].qualifiers@[b1] == old_streets[i].qualifiers@[b1]);
            }
            if b2 < n {
                assert(streets[i].qualifiers@[b2] == old_streets[i].qualifiers@[b2]);
            }
        }
    }
}

proof fn lemma_grouped_new_street<M>(
    old_streets: Seq<StreetDefinition<M>>,
    streets: Seq<StreetDefinition<M>>,
    done: Seq<(String, String, M)>,
    x: (String, String, M),
)
    requires
        grouped(old_streets, done),
        forall|j: int| 0 <= j < old_streets.len() ==> #[trigger] old_streets[j].name@ != x.0@,
        group_measures(done, x.0@, x.1@) == Seq::<M>::empty(),
        streets.len() == old_streets.len() + 1,
        forall|j: int| 0 <= j < old_streets.len() ==> streets[j] == old_streets[j],
        streets.last().name == x.0,
        streets.last().qualifiers@.len() == 1,
        streets.last().qualifiers@[0].0 == x.1,
        streets.last().qualifiers@[0].1.measures@ == seq![x.2],
    ensures
        grouped(streets, done.push(x)),
{
    let input = done.push(x);
    let n = old_streets.len();
    assert(streets[n as int] == streets.last());
    assert forall|j: int, b: int| 0 <= j < streets.len() && 0 <= b < streets[j].qualifiers@.len() implies {
        &&& (#[trigger] streets[j].qualifiers@[b]).1.measures@ == group_measures(
            input,
            streets[j].name@,
            streets[j].qualifiers@[b].0@,
        )
        &&& streets[j].qualifiers@[b].1.measures@.len() > 0
    } by {
        lemma_group_push(done, x, streets[j].name@, streets[j].qualifiers@[b].0@);
        if j < n {
            assert(streets[j] == old_streets[j]);
        } else {
            assert(seq![x.2] =~= Seq::<M>::empty().push(x.2));
        }
    }
    assert forall|k: int| 0 <= k < input.len() implies exists|j: int, b: int|
        0 <= j < streets.len() && 0 <= b < streets[j].qualifiers@.len() && #[trigger] input[k].0@
            == streets[j].name@ && input[k].1@ == (#[trigger] streets[j].qualifiers@[b]).0@ by {
        if k == done.len() {
            assert(input[k] == x);
            assert(streets[n as int].qualifiers@[0].0@ == x.1@);
        } else {
            assert(input[k] == done[k]);
            let (j, b) = choose|j: int, b: int|
                0 <= j < old_streets.len() && 0 <= b < old_streets[j].qualifiers@.len() && #[trigger] done[k].0@
                    == old_streets[j].name@ && done[k].1@ == (#[trigger] old_streets[j].qualifiers@[b]).0@;
            assert(streets[j] == old_streets[j]);
        }
    }
    assert forall|j1: int, j2: int| 0 <= j1 < streets.len() && 0 <= j2 < streets.len() && j1 != j2 implies #[trigger] streets[j1].name@
        != #[trigger] streets[j2].name@ by {
        if j1 < n {
            assert(streets[j1] == old_streets[j1]);
        }
        if j2 < n {
            assert(streets[j2] == old_streets[j2]);
        }
    }
    assert forall|j: int, b1: int, b2: int|
        0 <= j < streets.len() && 0 <= b1 < streets[j].qualifiers@.len() && 0 <= b2
            < streets[j].qualifiers@.len() && b1 != b2 implies #[trigger] streets[j].qualifiers@[b1].0@
        != #[trigger] streets[j].qualifiers@[b2].0@ by {
        if j < n {
            assert(streets[j] == old_streets[j]);
        }
    }
}

} // verus!
