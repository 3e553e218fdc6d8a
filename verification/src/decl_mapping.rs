//! The correspondence between declarations and their specializations.

use vstd::prelude::*;
use vstd::string::*;
use crate::decl_id::DeclarationId;
use crate::text::decimal;
use crate::text::push_decimal;

verus! {

/// The identity that a mapping is looked up with.
pub type SourceDecl = DeclarationId;

/// The identity that a mapping hands back.
pub type DestinationDecl = DeclarationId;

/// Pairs of a source declaration and the declaration that takes its place, in
/// the order in which they were found. A source may stand in several pairs:
/// the first one counts.
#[derive(Clone, PartialEq, Eq)]
pub struct DeclMapping {
    pub mapping: Vec<(SourceDecl, DestinationDecl)>,
}

impl View for DeclMapping {
    type V = Seq<(DeclarationId, DeclarationId)>;

    open spec fn view(&self) -> Seq<(DeclarationId, DeclarationId)> {
        self.mapping@
    }
}

/// Pair `i` of `pairs` has the source `source`, and no earlier pair has.
pub open spec fn is_first_match(
    pairs: Seq<(DeclarationId, DeclarationId)>,
    source: DeclarationId,
    i: int,
) -> bool {
    &&& 0 <= i < pairs.len()
    &&& pairs[i].0 == source
    &&& forall|j: int| 0 <= j < i ==> (#[trigger] pairs[j]).0 != source
}

/// The destination of the first pair of `pairs` whose source is `source`.
pub open spec fn first_match(
    pairs: Seq<(DeclarationId, DeclarationId)>,
    source: DeclarationId,
) -> Option<DeclarationId> {
    if exists|i: int| is_first_match(pairs, source, i) {
        Some(pairs[choose|i: int| is_first_match(pairs, source, i)].1)
    } else {
        None
    }
}

/// What `id` becomes under `pairs`: its first match, or itself without one.
pub open spec fn destination(
    pairs: Seq<(DeclarationId, DeclarationId)>,
    id: DeclarationId,
) -> DeclarationId {
    match first_match(pairs, id) {
        Some(to) => to,
        None => id,
    }
}

/// The test that an entry carries the name `name`.
pub open spec fn named(name: Seq<char>) -> spec_fn((String, DeclarationId)) -> bool {
    |entry: (String, DeclarationId)| entry.0@ == name
}

/// The pair that `source` forms with the declaration of an entry.
pub open spec fn paired_with(source: DeclarationId) -> spec_fn((String, DeclarationId)) -> (
    DeclarationId,
    DeclarationId,
) {
    |entry: (String, DeclarationId)| (source, entry.1)
}

/// The pairs that `source` forms with the entries of `new` named `name`, in
/// the order of `new`.
pub open spec fn matches_in(
    new: Seq<(String, DeclarationId)>,
    name: Seq<char>,
    source: DeclarationId,
) -> Seq<(DeclarationId, DeclarationId)> {
    new.filter(named(name)).map_values(paired_with(source))
}

/// The pairs that an entry forms with the entries of `new` of its own name.
pub open spec fn matches_of(new: Seq<(String, DeclarationId)>) -> spec_fn(
    (String, DeclarationId),
) -> Seq<(DeclarationId, DeclarationId)> {
    |entry: (String, DeclarationId)| matches_in(new, entry.0@, entry.1)
}

/// Every pair of an entry of `original` and an entry of `new` with the same
/// name, ordered by the entry of `original` first and that of `new` second.
pub open spec fn correlate(
    original: Seq<(String, DeclarationId)>,
    new: Seq<(String, DeclarationId)>,
) -> Seq<(DeclarationId, DeclarationId)> {
    original.flat_map(matches_of(new))
}

/// A pair as text: the slot of the source, an arrow, the slot of the
/// destination.
pub open spec fn pair_text(pair: (DeclarationId, DeclarationId)) -> Seq<char> {
    decimal(pair.0.index as nat) + " -> "@ + decimal(pair.1.index as nat)
}

/// Pairs as text, in their order, with a comma between each two.
pub open spec fn pairs_text(pairs: Seq<(DeclarationId, DeclarationId)>) -> Seq<char>
    decreases pairs.len(),
{
    if pairs.len() == 0 {
        Seq::empty()
    } else if pairs.len() == 1 {
        pair_text(pairs[0])
    } else {
        pairs_text(pairs.drop_last()) + ", "@ + pair_text(pairs.last())
    }
}

/// An identity as text for someone who debugs: the name of its type with
/// its slot between braces.
pub open spec fn identity_debug_text(id: DeclarationId) -> Seq<char> {
    "DeclarationId { index: "@ + decimal(id.index as nat) + " }"@
}

/// A pair as text for someone who debugs.
pub open spec fn pair_debug_text(pair: (DeclarationId, DeclarationId)) -> Seq<char> {
    identity_debug_text(pair.0) + " -> "@ + identity_debug_text(pair.1)
}

/// Pairs as text for someone who debugs, in their order, with a comma
/// between each two.
pub open spec fn pairs_debug_text(pairs: Seq<(DeclarationId, DeclarationId)>) -> Seq<char>
    decreases pairs.len(),
{
    if pairs.len() == 0 {
        Seq::empty()
    } else if pairs.len() == 1 {
        pair_debug_text(pairs[0])
    } else {
        pairs_debug_text(pairs.drop_last()) + ", "@ + pair_debug_text(pairs.last())
    }
}

/// A mapping as text for someone who debugs: as [`mapping_text`], with each
/// identity written out as a value.
pub open spec fn mapping_debug_text(pairs: Seq<(DeclarationId, DeclarationId)>) -> Seq<char> {
    "DeclMapping { "@ + pairs_debug_text(pairs) + " }"@
}

/// A mapping as text: its pairs between braces behind its name.
pub open spec fn mapping_text(pairs: Seq<(DeclarationId, DeclarationId)>) -> Seq<char> {
    "DeclMapping { "@ + pairs_text(pairs) + " }"@
}

/// At most one pair is the first match of a source.
pub proof fn lemma_first_match_is_unique(
    pairs: Seq<(DeclarationId, DeclarationId)>,
    source: DeclarationId,
    i: int,
)
    requires
        is_first_match(pairs, source, i),
    ensures
        first_match(pairs, source) == Some(pairs[i].1),
{
    let k = choose|k: int| is_first_match(pairs, source, k);
    assert(is_first_match(pairs, source, k));
    if k < i {
        assert(pairs[k].0 != source);
    } else if i < k {
        assert(pairs[i].0 != source);
    }
}

/// Without a pair for `source` there is no match.
pub proof fn lemma_no_match(pairs: Seq<(DeclarationId, DeclarationId)>, source: DeclarationId)
    requires
        forall|j: int| 0 <= j < pairs.len() ==> (#[trigger] pairs[j]).0 != source,
    ensures
        first_match(pairs, source) is None,
        destination(pairs, source) == source,
{
    if exists|i: int| is_first_match(pairs, source, i) {
        let k = choose|k: int| is_first_match(pairs, source, k);
        assert(pairs[k].0 != source);
    }
}

/// `pair` joins entry `a` of `original` and entry `b` of `new`, which carry
/// the same name.
pub open spec fn is_pair_of(
    original: Seq<(String, DeclarationId)>,
    new: Seq<(String, DeclarationId)>,
    a: int,
    b: int,
    pair: (DeclarationId, DeclarationId),
) -> bool {
    &&& 0 <= a < original.len()
    &&& 0 <= b < new.len()
    &&& original[a].0@ == new[b].0@
    &&& pair == (original[a].1, new[b].1)
}

/// `pair` joins two entries of `original` and `new` that carry the same name.
pub open spec fn joins_same_name(
    original: Seq<(String, DeclarationId)>,
    new: Seq<(String, DeclarationId)>,
    pair: (DeclarationId, DeclarationId),
) -> bool {
    exists|a: int, b: int| is_pair_of(original, new, a, b, pair)
}

/// `pair` holds `source` and the declaration of entry `b` of `new`, which is
/// named `name`.
pub open spec fn is_match_of(
    new: Seq<(String, DeclarationId)>,
    name: Seq<char>,
    source: DeclarationId,
    b: int,
    pair: (DeclarationId, DeclarationId),
) -> bool {
    &&& 0 <= b < new.len()
    &&& new[b].0@ == name
    &&& pair == (source, new[b].1)
}

/// `pair` holds `source` and the declaration of an entry of `new` named
/// `name`.
pub open spec fn matches_name(
    new: Seq<(String, DeclarationId)>,
    name: Seq<char>,
    source: DeclarationId,
    pair: (DeclarationId, DeclarationId),
) -> bool {
    exists|b: int| is_match_of(new, name, source, b, pair)
}

/// Entry `j` of `new` is the first one named `name`.
pub open spec fn is_first_named(new: Seq<(String, DeclarationId)>, name: Seq<char>, j: int) -> bool {
    &&& 0 <= j < new.len()
    &&& new[j].0@ == name
    &&& forall|b: int| 0 <= b < j ==> (#[trigger] new[b]).0@ != name
}

proof fn lemma_matches_in_push(
    new: Seq<(String, DeclarationId)>,
    entry: (String, DeclarationId),
    name: Seq<char>,
    source: DeclarationId,
)
    ensures
        matches_in(new.push(entry), name, source) == if entry.0@ == name {
            matches_in(new, name, source).push((source, entry.1))
        } else {
            matches_in(new, name, source)
        },
{
    new.lemma_filter_push(entry, named(name));
    new.filter(named(name)).lemma_push_map_commute(paired_with(source), entry);
}

proof fn lemma_matches_in_nothing(name: Seq<char>, source: DeclarationId)
    ensures
        matches_in(Seq::empty(), name, source).len() == 0,
{
    reveal(Seq::filter);
}

/// The pairs of one source: each holds that source and the declaration of an
/// entry of that name, there is none exactly when no entry has the name, and
/// the first one holds the first such entry.
pub proof fn lemma_matches_in(
    new: Seq<(String, DeclarationId)>,
    name: Seq<char>,
    source: DeclarationId,
)
    ensures
        forall|k: int|
            0 <= k < matches_in(new, name, source).len() ==> matches_name(
                new,
                name,
                source,
                #[trigger] matches_in(new, name, source)[k],
            ),
        matches_in(new, name, source).len() == 0 <==> forall|b: int|
            0 <= b < new.len() ==> (#[trigger] new[b]).0@ != name,
        forall|j: int| #[trigger]
            is_first_named(new, name, j) ==> matches_in(new, name, source).len() > 0
                && matches_in(new, name, source)[0] == (source, new[j].1),
    decreases new.len(),
{
    if new.len() == 0 {
        lemma_matches_in_nothing(name, source);
        assert(new =~= Seq::empty());
    } else {
        let rest = new.drop_last();
        let last = new.last();
        assert(new =~= rest.push(last));
        lemma_matches_in(rest, name, source);
        lemma_matches_in_push(rest, last, name, source);
        let found = matches_in(new, name, source);
        let before = matches_in(rest, name, source);
        assert forall|k: int| 0 <= k < found.len() implies matches_name(
            new,
            name,
            source,
            #[trigger] found[k],
        ) by {
            if k < before.len() {
                assert(matches_name(rest, name, source, before[k]));
                let b = choose|b: int| is_match_of(rest, name, source, b, before[k]);
                assert(new[b] == rest[b]);
                assert(is_match_of(new, name, source, b, found[k]));
            } else {
                assert(is_match_of(new, name, source, new.len() - 1, found[k]));
            }
        }
        if found.len() == 0 {
            assert forall|b: int| 0 <= b < new.len() implies (#[trigger] new[b]).0@ != name by {
                if b < rest.len() {
                    assert(rest[b] == new[b]);
                }
            }
        } else if before.len() > 0 {
            assert(matches_name(rest, name, source, before[0]));
            let b = choose|b: int| is_match_of(rest, name, source, b, before[0]);
            assert(new[b] == rest[b]);
        } else {
            assert(new[new.len() - 1].0@ == name);
        }
        assert forall|j: int| #[trigger] is_first_named(new, name, j) implies found.len() > 0
            && found[0] == (source, new[j].1) by {
            if j < rest.len() {
                assert forall|b: int| 0 <= b < j implies (#[trigger] rest[b]).0@ != name by {
                    assert(new[b] == rest[b]);
                }
                assert(rest[j] == new[j]);
                assert(is_first_named(rest, name, j));
            } else {
                assert forall|b: int| 0 <= b < rest.len() implies (#[trigger] rest[b]).0@
                    != name by {
                    assert(new[b] == rest[b]);
                }
            }
        }
    }
}

proof fn lemma_correlate_push(
    original: Seq<(String, DeclarationId)>,
    entry: (String, DeclarationId),
    new: Seq<(String, DeclarationId)>,
)
    ensures
        correlate(original.push(entry), new) == correlate(original, new) + matches_in(
            new,
            entry.0@,
            entry.1,
        ),
{
    original.lemma_flat_map_push(matches_of(new), entry);
}

/// The mapping of a list cut in two is the mapping of its head followed by
/// that of its tail.
pub proof fn lemma_correlate_split(
    original: Seq<(String, DeclarationId)>,
    new: Seq<(String, DeclarationId)>,
    n: int,
)
    requires
        0 <= n <= original.len(),
    ensures
        correlate(original, new) == correlate(original.take(n), new) + correlate(
            original.skip(n),
            new,
        ),
    decreases original.len(),
{
    if n == original.len() {
        assert(original.take(n) =~= original);
        assert(original.skip(n) =~= Seq::empty());
        assert(correlate(original.skip(n), new) =~= Seq::empty());
        assert(correlate(original, new) + Seq::empty() =~= correlate(original, new));
    } else {
        let rest = original.drop_last();
        let last = original.last();
        assert(original =~= rest.push(last));
        assert(rest.take(n) =~= original.take(n));
        assert(rest.skip(n).push(last) =~= original.skip(n));
        lemma_correlate_split(rest, new, n);
        lemma_correlate_push(rest, last, new);
        lemma_correlate_push(rest.skip(n), last, new);
        let block = matches_in(new, last.0@, last.1);
        assert((correlate(rest.take(n), new) + correlate(rest.skip(n), new)) + block =~= correlate(
            rest.take(n),
            new,
        ) + (correlate(rest.skip(n), new) + block));
    }
}

/// A mapping holds exactly the pairs of two entries of the same name: each of
/// its pairs joins such entries, and each two such entries have their pair
/// in it.
pub proof fn lemma_correlate_pairs(
    original: Seq<(String, DeclarationId)>,
    new: Seq<(String, DeclarationId)>,
)
    ensures
        forall|k: int|
            0 <= k < correlate(original, new).len() ==> joins_same_name(
                original,
                new,
                #[trigger] correlate(original, new)[k],
            ),
        forall|a: int, b: int, pair: (DeclarationId, DeclarationId)| #[trigger]
            is_pair_of(original, new, a, b, pair) ==> correlate(original, new).contains(pair),
    decreases original.len(),
{
    let all = correlate(original, new);
    if original.len() == 0 {
        assert(all =~= Seq::empty());
    } else {
        let rest = original.drop_last();
        let last = original.last();
        let at = original.len() - 1;
        assert(original =~= rest.push(last));
        lemma_correlate_pairs(rest, new);
        lemma_correlate_push(rest, last, new);
        lemma_matches_in(new, last.0@, last.1);
        let head = correlate(rest, new);
        let block = matches_in(new, last.0@, last.1);
        assert forall|k: int| 0 <= k < all.len() implies joins_same_name(
            original,
            new,
            #[trigger] all[k],
        ) by {
            if k < head.len() {
                assert(joins_same_name(rest, new, head[k]));
                let (a, b) = choose|a: int, b: int| is_pair_of(rest, new, a, b, head[k]);
                assert(rest[a] == original[a]);
                assert(is_pair_of(original, new, a, b, all[k]));
            } else {
                let at_block = k - head.len();
                assert(matches_name(new, last.0@, last.1, block[at_block]));
                let b = choose|b: int| is_match_of(new, last.0@, last.1, b, block[at_block]);
                assert(is_pair_of(original, new, at, b, all[k]));
            }
        }
        assert forall|a: int, b: int, pair: (DeclarationId, DeclarationId)| #[trigger]
            is_pair_of(original, new, a, b, pair) implies all.contains(pair) by {
            if a < at {
                assert(rest[a] == original[a]);
                assert(is_pair_of(rest, new, a, b, pair));
                let k = choose|k: int| 0 <= k < head.len() && head[k] == pair;
                assert(all[k] == pair);
            } else {
                lemma_matches_in_holds(new, last.0@, last.1, b);
                let k = choose|k: int| 0 <= k < block.len() && block[k] == pair;
                assert(all[head.len() + k] == pair);
            }
        }
    }
}

proof fn lemma_matches_in_holds(
    new: Seq<(String, DeclarationId)>,
    name: Seq<char>,
    source: DeclarationId,
    b: int,
)
    requires
        0 <= b < new.len(),
        new[b].0@ == name,
    ensures
        matches_in(new, name, source).contains((source, new[b].1)),
    decreases new.len(),
{
    let rest = new.drop_last();
    let last = new.last();
    assert(new =~= rest.push(last));
    lemma_matches_in_push(rest, last, name, source);
    let found = matches_in(new, name, source);
    if b < rest.len() {
        assert(rest[b] == new[b]);
        lemma_matches_in_holds(rest, name, source, b);
        let before = matches_in(rest, name, source);
        let k = choose|k: int| 0 <= k < before.len() && before[k] == (source, new[b].1);
        assert(found[k] == (source, new[b].1));
    } else {
        assert(found[found.len() - 1] == (source, new[b].1));
    }
}

/// Lists that share no name give the empty mapping.
pub proof fn lemma_disjoint_names_give_empty_mapping(
    original: Seq<(String, DeclarationId)>,
    new: Seq<(String, DeclarationId)>,
)
    requires
        forall|a: int, b: int|
            0 <= a < original.len() && 0 <= b < new.len() ==> (#[trigger] original[a]).0@ != (
            #[trigger] new[b]).0@,
    ensures
        correlate(original, new) == Seq::<(DeclarationId, DeclarationId)>::empty(),
{
    lemma_correlate_pairs(original, new);
    let all = correlate(original, new);
    if all.len() > 0 {
        assert(joins_same_name(original, new, all[0]));
        let (a, b) = choose|a: int, b: int| is_pair_of(original, new, a, b, all[0]);
        assert(original[a].0@ == new[b].0@);
    }
    assert(all =~= Seq::empty());
}

/// Looking up a declaration of `original` gives the first declaration of
/// `new` that carries its name, however many carry it, as long as no earlier
/// entry of `original` holds the same declaration.
pub proof fn lemma_first_of_the_name_matches(
    original: Seq<(String, DeclarationId)>,
    new: Seq<(String, DeclarationId)>,
    i: int,
    j: int,
)
    requires
        0 <= i < original.len(),
        forall|a: int| 0 <= a < i ==> (#[trigger] original[a]).1 != original[i].1,
        is_first_named(new, original[i].0@, j),
    ensures
        first_match(correlate(original, new), original[i].1) == Some(new[j].1),
        destination(correlate(original, new), original[i].1) == new[j].1,
{
    let id = original[i].1;
    let all = correlate(original, new);
    let upto = original.take(i + 1);
    let head = correlate(original.take(i), new);
    let block = matches_in(new, original[i].0@, id);
    lemma_correlate_split(original, new, i + 1);
    assert(upto =~= original.take(i).push(original[i]));
    lemma_correlate_push(original.take(i), original[i], new);
    lemma_matches_in(new, original[i].0@, id);
    lemma_correlate_pairs(original.take(i), new);
    assert(all[head.len() as int] == block[0]);
    assert forall|k: int| 0 <= k < head.len() implies (#[trigger] all[k]).0 != id by {
        assert(all[k] == head[k]);
        assert(joins_same_name(original.take(i), new, head[k]));
        let (a, b) = choose|a: int, b: int| is_pair_of(original.take(i), new, a, b, head[k]);
        assert(original.take(i)[a] == original[a]);
    }
    assert(is_first_match(all, id, head.len() as int));
    lemma_first_match_is_unique(all, id, head.len() as int);
}

/// A declaration that stands in `original` under names that `new` lacks is
/// left as it is.
pub proof fn lemma_unmatched_name_gives_no_match(
    original: Seq<(String, DeclarationId)>,
    new: Seq<(String, DeclarationId)>,
    id: DeclarationId,
)
    requires
        forall|a: int, b: int|
            0 <= a < original.len() && 0 <= b < new.len() && (#[trigger] original[a]).1 == id
                ==> original[a].0@ != (#[trigger] new[b]).0@,
    ensures
        first_match(correlate(original, new), id) is None,
        destination(correlate(original, new), id) == id,
{
    lemma_correlate_pairs(original, new);
    let all = correlate(original, new);
    assert forall|k: int| 0 <= k < all.len() implies (#[trigger] all[k]).0 != id by {
        assert(joins_same_name(original, new, all[k]));
        let (a, b) = choose|a: int, b: int| is_pair_of(original, new, a, b, all[k]);
        assert(original[a].0@ == new[b].0@);
    }
    lemma_no_match(all, id);
}

impl DeclMapping {
    /// Whether the mapping holds no pair.
    pub fn is_empty(&self) -> (empty: bool)
        ensures
            empty == (self@.len() == 0),
    {
        self.mapping.len() == 0
    }

    /// The destination of the first pair whose source is `decl_id`, if a
    /// pair has that source.
    pub fn find_match(&self, decl_id: &SourceDecl) -> (found: Option<DestinationDecl>)
        ensures
            found == first_match(self@, *decl_id),
            found matches Some(destination) ==> exists|i: int|
                is_first_match(self@, *decl_id, i) && self@[i].1 == destination,
            found is None ==> forall|i: int|
                0 <= i < self@.len() ==> (#[trigger] self@[i]).0 != *decl_id,
    {
        let mut i: usize = 0;
        while i < self.mapping.len()
            invariant
                i <= self.mapping.len(),
                forall|j: int| 0 <= j < i ==> (#[trigger] self@[j]).0 != *decl_id,
            decreases self.mapping.len() - i,
        {
            if self.mapping[i].0 == *decl_id {
                proof {
                    lemma_first_match_is_unique(self@, *decl_id, i as int);
                }
                return Some(self.mapping[i].1);
            }
            i += 1;
        }
        proof {
            lemma_no_match(self@, *decl_id);
        }
        None
    }

    /// The mapping as text, such as `DeclMapping { 0 -> 4, 1 -> 5 }`.
    pub fn to_string(&self) -> (text: String)
        ensures
            text@ == mapping_text(self@),
    {
        let mut listed = String::from_str("");
        proof {
            reveal_strlit("");
            assert(listed@ =~= Seq::empty());
        }
        let mut i: usize = 0;
        while i < self.mapping.len()
            invariant
                i <= self.mapping.len(),
                listed@ == pairs_text(self@.take(i as int)),
            decreases self.mapping.len() - i,
        {
            if i > 0 {
                listed.append(", ");
            }
            push_decimal(&mut listed, self.mapping[i].0.index);
            listed.append(" -> ");
            push_decimal(&mut listed, self.mapping[i].1.index);
            proof {
                let upto = self@.take(i + 1);
                assert(upto.drop_last() =~= self@.take(i as int));
                assert(upto.last() == self@[i as int]);
                assert(listed@ =~= pairs_text(upto));
            }
            i += 1;
        }
        assert(self@.take(i as int) =~= self@);
        let mut text = String::from_str("DeclMapping { ");
        text.append(listed.as_str());
        text.append(" }");
        text
    }

    /// The mapping as text for someone who debugs, such as
    /// `DeclMapping { DeclarationId { index: 0 } -> DeclarationId { index: 4 } }`.
    pub fn to_debug_string(&self) -> (text: String)
        ensures
            text@ == mapping_debug_text(self@),
    {
        let mut listed = String::from_str("");
        proof {
            reveal_strlit("");
            assert(listed@ =~= Seq::empty());
        }
        let mut i: usize = 0;
        while i < self.mapping.len()
            invariant
                i <= self.mapping.len(),
                listed@ == pairs_debug_text(self@.take(i as int)),
            decreases self.mapping.len() - i,
        {
            if i > 0 {
                listed.append(", ");
            }
            listed.append("DeclarationId { index: ");
            push_decimal(&mut listed, self.mapping[i].0.index);
            listed.append(" }");
            listed.append(" -> ");
            listed.append("DeclarationId { index: ");
            push_decimal(&mut listed, self.mapping[i].1.index);
            listed.append(" }");
            proof {
                let upto = self@.take(i + 1);
                assert(upto.drop_last() =~= self@.take(i as int));
                assert(upto.last() == self@[i as int]);
                assert(listed@ =~= pairs_debug_text(upto));
            }
            i += 1;
        }
        assert(self@.take(i as int) =~= self@);
        let mut text = String::from_str("DeclMapping { ");
        text.append(listed.as_str());
        text.append(" }");
        text
    }

    /// Pairs each declaration of `original_decl_ids` with the declarations of
    /// `new_decl_ids` that carry the same name. Both lists are walked in
    /// their own order; a name of `original_decl_ids` that `new_decl_ids`
    /// lacks gives no pair.
    pub fn from_original_and_new_decl_ids(
        original_decl_ids: &Vec<(String, DeclarationId)>,
        new_decl_ids: &Vec<(String, DeclarationId)>,
    ) -> (decl_mapping: DeclMapping)
        ensures
            decl_mapping@ == correlate(original_decl_ids@, new_decl_ids@),
    {
        let mut mapping: Vec<(SourceDecl, DestinationDecl)> = Vec::new();
        let mut i: usize = 0;
        while i < original_decl_ids.len()
            invariant
                i <= original_decl_ids.len(),
                mapping@ == correlate(original_decl_ids@.take(i as int), new_decl_ids@),
            decreases original_decl_ids.len() - i,
        {
            let ghost before = mapping@;
            let ghost name = original_decl_ids@[i as int].0@;
            let original_decl_id = original_decl_ids[i].1;
            let mut j: usize = 0;
            while j < new_decl_ids.len()
                invariant
                    i < original_decl_ids.len(),
                    j <= new_decl_ids.len(),
                    name == original_decl_ids@[i as int].0@,
                    original_decl_id == original_decl_ids@[i as int].1,
                    mapping@ == before + matches_in(
                        new_decl_ids@.take(j as int),
                        name,
                        original_decl_id,
                    ),
                decreases new_decl_ids.len() - j,
            {
                proof {
                    let seen = new_decl_ids@.take(j as int);
                    let entry = new_decl_ids@[j as int];
                    assert(new_decl_ids@.take(j + 1) =~= seen.push(entry));
                    lemma_matches_in_push(seen, entry, name, original_decl_id);
                }
                if new_decl_ids[j].0 == original_decl_ids[i].0 {
                    mapping.push((original_decl_id, new_decl_ids[j].1));
                }
                j += 1;
            }
            proof {
                let done = original_decl_ids@.take(i as int);
                let entry = original_decl_ids@[i as int];
                assert(new_decl_ids@.take(j as int) =~= new_decl_ids@);
                assert(original_decl_ids@.take(i + 1) =~= done.push(entry));
                lemma_correlate_push(done, entry, new_decl_ids@);
            }
            i += 1;
        }
        proof {
            assert(original_decl_ids@.take(i as int) =~= original_decl_ids@);
        }
        DeclMapping { mapping }
    }
}

} // verus!
