//! Maps written on one line, such as `Name=Value,Name2=Value`.
use itertools::Itertools;
use std::collections::BTreeMap;
use vstd::laws_cmp::obeys_cmp;
use vstd::prelude::*;

use crate::text::{split_terminator, trim};

verus! {

broadcast use vstd::std_specs::btree::group_btree_axioms;

/// Error message for parsing a map
pub const PARSE_MAP_SYNTAX_MSG: &'static str =
    "Invalid syntax for map. Example: Name=Value,Name2=Value";

/// Why a map could not be read.
#[derive(Debug)]
pub enum ParseMapError<KE, VE> {
    /// A pair is not a name and a value parted by `=`.
    Syntax,
    /// A name was refused.
    Key(KE),
    /// A value was refused.
    Value(VE),
}

impl<KE, VE> ParseMapError<KE, VE> {
    /// The message for a map that is not written as one; a refused name or
    /// value has a message of its own.
    pub fn syntax_message(&self) -> (res: Option<&'static str>)
        ensures
            res is Some <==> self is Syntax,
            res matches Some(message) ==> message@ == PARSE_MAP_SYNTAX_MSG@,
    {
        match self {
            ParseMapError::Syntax => Some(PARSE_MAP_SYNTAX_MSG),
            _ => None,
        }
    }
}

/// The name and the value of one pair, without the white space around them.
pub open spec fn pair_fields(pair: Seq<char>) -> Option<(Seq<char>, Seq<char>)> {
    let parts = crate::text::terminated_pieces(pair, '=');
    if parts.len() == 2 {
        let first = crate::text::trimmed(parts[0]);
        let second = crate::text::trimmed(parts[1]);
        if first.len() == 0 || second.len() == 0 {
            None
        } else {
            Some((first, second))
        }
    } else {
        None
    }
}

/// The pairs of a map's text.
pub open spec fn map_pairs(text: Seq<char>) -> Seq<Seq<char>> {
    crate::text::terminated_pieces(text, ',')
}

/// `itertools::Itertools::collect_tuple` at two elements: the elements, if there
/// are exactly two.
#[verifier::external_body]
fn collect_pair<'a>(parts: Vec<&'a str>) -> (res: Option<(&'a str, &'a str)>)
    ensures
        parts@.len() == 2 ==> res == Some((parts@[0], parts@[1])),
        parts@.len() != 2 ==> res is None,
{
    parts.into_iter().collect_tuple()
}

/// Reads one pair.
pub fn split_pair<'a>(pair: &'a str) -> (res: Option<(&'a str, &'a str)>)
    ensures
        match res {
            Some((first, second)) => pair_fields(pair@) == Some((first@, second@)),
            None => pair_fields(pair@) is None,
        },
{
    let parts = split_terminator(pair, '=');
    let ghost texts = crate::text::views(parts@);
    match collect_pair(parts) {
        Some((first, second)) => {
            assert(texts[0] == first@ && texts[1] == second@);
            let first = trim(first);
            let second = trim(second);
            if first.is_empty() || second.is_empty() {
                None
            } else {
                Some((first, second))
            }
        },
        None => None,
    }
}

/// Whether `parse` may give `outcome` for `text`.
pub open spec fn gives<T, E, F: Fn(&str) -> Result<T, E>>(
    parse: F,
    text: Seq<char>,
    outcome: Result<T, E>,
) -> bool {
    exists|s: &str| s@ == text && #[trigger] call_ensures(parse, (s,), outcome)
}

/// Whether `parse` may accept `text`.
pub open spec fn may_accept<T, E, F: Fn(&str) -> Result<T, E>>(parse: F, text: Seq<char>) -> bool {
    exists|value: T| gives(parse, text, Ok(value))
}

/// Whether one pair may give this name and this value.
pub open spec fn pair_gives<
    K,
    V,
    KE,
    VE,
    FK: Fn(&str) -> Result<K, KE>,
    FV: Fn(&str) -> Result<V, VE>,
>(pair: Seq<char>, parse_key: FK, parse_value: FV, key: K, value: V) -> bool {
    match pair_fields(pair) {
        Some((first, second)) => {
            &&& gives(parse_key, first, Ok(key))
            &&& gives(parse_value, second, Ok(value))
        },
        None => false,
    }
}

/// Whether the first pairs of `text` give these names and values, one each.
pub open spec fn pairs_read<
    K,
    V,
    KE,
    VE,
    FK: Fn(&str) -> Result<K, KE>,
    FV: Fn(&str) -> Result<V, VE>,
>(text: Seq<char>, parse_key: FK, parse_value: FV, read: Seq<(K, V)>) -> bool {
    &&& read.len() <= map_pairs(text).len()
    &&& forall|i: int|
        0 <= i < read.len() ==> #[trigger] pair_gives(
            map_pairs(text)[i],
            parse_key,
            parse_value,
            read[i].0,
            read[i].1,
        )
}

/// What comes of a map's text of which these pairs were read: there are no more,
/// or the next one fails.
pub open spec fn pairs_outcome<
    K,
    V,
    KE,
    VE,
    FK: Fn(&str) -> Result<K, KE>,
    FV: Fn(&str) -> Result<V, VE>,
>(
    text: Seq<char>,
    parse_key: FK,
    parse_value: FV,
    read: Seq<(K, V)>,
    failure: Option<ParseMapError<KE, VE>>,
) -> bool {
    let pairs = map_pairs(text);
    let next = pair_fields(pairs[read.len() as int]);
    &&& pairs_read(text, parse_key, parse_value, read)
    &&& match failure {
        None => read.len() == pairs.len(),
        Some(ParseMapError::Syntax) => read.len() < pairs.len() && next is None,
        Some(ParseMapError::Key(error)) => {
            &&& read.len() < pairs.len()
            &&& next matches Some((first, _))
            &&& gives(parse_key, first, Err(error))
        },
        Some(ParseMapError::Value(error)) => {
            &&& read.len() < pairs.len()
            &&& next matches Some((first, second))
            &&& may_accept(parse_key, first)
            &&& gives(parse_value, second, Err(error))
        },
    }
}

/// The map with these names and values, entered in order: a later value takes
/// the place of an earlier one of the same name.
pub open spec fn entries<K, V>(read: Seq<(K, V)>) -> Map<K, V>
    decreases read.len(),
{
    if read.len() == 0 {
        Map::empty()
    } else {
        entries(read.drop_last()).insert(read.last().0, read.last().1)
    }
}

/// Whether `map` holds these names and values. It says so of names whose type has
/// a model of its order, as integers have; of names of another type, such as
/// `String`, it says only that there are no entries where nothing was read.
pub open spec fn holds<K: Ord, V>(map: BTreeMap<K, V>, read: Seq<(K, V)>) -> bool {
    &&& obeys_cmp::<K>() ==> map@ == entries(read)
    &&& read.len() == 0 ==> map@ == Map::<K, V>::empty()
}

/// What comes of a map's text of which these pairs were read.
pub open spec fn map_outcome<
    K: Ord,
    V,
    KE,
    VE,
    FK: Fn(&str) -> Result<K, KE>,
    FV: Fn(&str) -> Result<V, VE>,
>(
    text: Seq<char>,
    parse_key: FK,
    parse_value: FV,
    read: Seq<(K, V)>,
    res: Result<BTreeMap<K, V>, ParseMapError<KE, VE>>,
) -> bool {
    match res {
        Ok(map) => {
            &&& pairs_outcome(text, parse_key, parse_value, read, None)
            &&& holds(map, read)
        },
        Err(error) => pairs_outcome(text, parse_key, parse_value, read, Some(error)),
    }
}

/// Parses the names and values of an inline map, in the order in which they are
/// written
pub fn parse_pairs<
    K,
    V,
    KE,
    VE,
    FK: Fn(&str) -> Result<K, KE>,
    FV: Fn(&str) -> Result<V, VE>,
>(text: &str, parse_key: FK, parse_value: FV) -> (res: Result<Vec<(K, V)>, ParseMapError<KE, VE>>)
    requires
        forall|s: &str| call_requires(parse_key, (s,)),
        forall|s: &str| call_requires(parse_value, (s,)),
    ensures
        match res {
            Ok(read) => pairs_outcome(text@, parse_key, parse_value, read@, None),
            Err(error) => exists|read: Seq<(K, V)>|
                pairs_outcome(text@, parse_key, parse_value, read, Some(error)),
        },
{
    // Split pairs by commas
    let pairs = split_terminator(text, ',');
    let ghost texts = crate::text::views(pairs@);
    let mut read: Vec<(K, V)> = Vec::new();
    let mut i: usize = 0;
    while i < pairs.len()
        invariant
            forall|s: &str| call_requires(parse_key, (s,)),
            forall|s: &str| call_requires(parse_value, (s,)),
            texts == crate::text::views(pairs@),
            texts == map_pairs(text@),
            i <= pairs.len(),
            read@.len() == i,
            pairs_read(text@, parse_key, parse_value, read@),
        decreases pairs.len() - i,
    {
        assert(texts[i as int] == pairs@[i as int]@);
        // Split pairs by = then trim off any spacing
        let (first, second) = match split_pair(pairs[i]) {
            Some(fields) => fields,
            None => {
                let error = ParseMapError::Syntax;
                assert(pairs_outcome(text@, parse_key, parse_value, read@, Some(error)));
                return Err(error);
            },
        };
        let key = match parse_key(first) {
            Ok(key) => key,
            Err(error) => {
                assert(gives(parse_key, first@, Err(error)));
                let error = ParseMapError::Key(error);
                assert(pairs_outcome(text@, parse_key, parse_value, read@, Some(error)));
                return Err(error);
            },
        };
        assert(gives(parse_key, first@, Ok(key)));
        let value = match parse_value(second) {
            Ok(value) => value,
            Err(error) => {
                assert(may_accept(parse_key, first@));
                assert(gives(parse_value, second@, Err(error)));
                let error = ParseMapError::Value(error);
                assert(pairs_outcome(text@, parse_key, parse_value, read@, Some(error)));
                return Err(error);
            },
        };
        assert(gives(parse_value, second@, Ok(value)));
        assert(pair_gives(map_pairs(text@)[i as int], parse_key, parse_value, key, value));
        read.push((key, value));
        i = i + 1;
    }
    Ok(read)
}

/// Parses an inline map of values
///
/// Example: Name=Value,Name2=Value
pub fn parse_map<
    K: Ord,
    V,
    KE,
    VE,
    FK: Fn(&str) -> Result<K, KE>,
    FV: Fn(&str) -> Result<V, VE>,
>(text: &str, parse_key: FK, parse_value: FV) -> (res: Result<
    BTreeMap<K, V>,
    ParseMapError<KE, VE>,
>)
    requires
        forall|s: &str| call_requires(parse_key, (s,)),
        forall|s: &str| call_requires(parse_value, (s,)),
    ensures
        exists|read: Seq<(K, V)>| map_outcome(text@, parse_key, parse_value, read, res),
{
    let read = match parse_pairs(text, parse_key, parse_value) {
        Ok(read) => read,
        Err(error) => {
            let res = Err(error);
            proof {
                let read = choose|read: Seq<(K, V)>|
                    pairs_outcome(text@, parse_key, parse_value, read, Some(error));
                assert(map_outcome(text@, parse_key, parse_value, read, res));
            }
            return res;
        },
    };
    let ghost all = read@;
    let mut map: BTreeMap<K, V> = BTreeMap::new();
    for pair in it: read
        invariant
            it.seq() == all,
            holds(map, all.take(it.index() as int)),
    {
        assert(all.take(it.index() + 1).drop_last() =~= all.take(it.index() as int));
        let (key, value) = pair;
        map.insert(key, value);
    }
    assert(all.take(all.len() as int) =~= all);
    let res = Ok(map);
    assert(map_outcome(text@, parse_key, parse_value, all, res));
    res
}

/// Whether `s` can stand in a map's text as a name or a value and be read back:
/// it is not empty, no white space stands around it, and it holds no separator.
pub open spec fn plain_field(s: Seq<char>) -> bool {
    &&& s.len() > 0
    &&& crate::text::trimmed(s) == s
    &&& !s.contains('=')
    &&& !s.contains(',')
}

/// A pair as it is written.
pub open spec fn written_pair(pair: (Seq<char>, Seq<char>)) -> Seq<char> {
    pair.0.push('=') + pair.1
}

/// A map as it is written: its pairs, parted by commas.
pub open spec fn written_map(pairs: Seq<(Seq<char>, Seq<char>)>) -> Seq<char> {
    crate::text::joined(pairs.map_values(|pair: (Seq<char>, Seq<char>)| written_pair(pair)), ',')
}

proof fn lemma_blank_holds_no_separator(s: Seq<char>)
    requires
        crate::text::blank(s),
    ensures
        !s.contains('='),
        !s.contains(','),
{
}

/// The name and the value of a pair are read without the white space around them.
pub proof fn law_spacing_is_trimmed(
    left: Seq<char>,
    name: Seq<char>,
    before: Seq<char>,
    after: Seq<char>,
    value: Seq<char>,
    right: Seq<char>,
)
    requires
        plain_field(name),
        plain_field(value),
        crate::text::blank(left),
        crate::text::blank(before),
        crate::text::blank(after),
        crate::text::blank(right),
    ensures
        pair_fields((left + name + before).push('=') + (after + value + right)) == Some(
            (name, value),
        ),
{
    let first = left + name + before;
    let second = after + value + right;
    lemma_blank_holds_no_separator(left);
    lemma_blank_holds_no_separator(before);
    lemma_blank_holds_no_separator(after);
    lemma_blank_holds_no_separator(right);
    lemma_concat_holds_no(left, name, before, '=');
    lemma_concat_holds_no(after, value, right, '=');
    crate::text::law_one_piece(first, '=');
    crate::text::law_one_piece(second, '=');
    crate::text::law_pieces_part_at_separator(first, second, '=');
    let all = crate::text::pieces(first.push('=') + second, '=');
    assert(all =~= seq![first, second]);
    crate::text::law_trim_takes_padding(left, name, before);
    crate::text::law_trim_takes_padding(after, value, right);
}

proof fn lemma_concat_holds_no(a: Seq<char>, b: Seq<char>, c: Seq<char>, sep: char)
    requires
        !a.contains(sep),
        !b.contains(sep),
        !c.contains(sep),
    ensures
        !(a + b + c).contains(sep),
{
    let s = a + b + c;
    assert forall|i: int| 0 <= i < s.len() implies s[i] != sep by {
        if i < a.len() {
            assert(a.contains(a[i]));
        } else if i < a.len() + b.len() {
            assert(b.contains(b[i - a.len()]));
        } else {
            assert(c.contains(c[i - a.len() - b.len()]));
        }
    }
}

/// A map that was written is read back pair by pair.
pub proof fn law_map_reads_back(pairs: Seq<(Seq<char>, Seq<char>)>)
    requires
        forall|i: int|
            0 <= i < pairs.len() ==> plain_field((#[trigger] pairs[i]).0) && plain_field(
                pairs[i].1,
            ),
    ensures
        map_pairs(written_map(pairs)).len() == pairs.len(),
        forall|i: int|
            0 <= i < pairs.len() ==> pair_fields(#[trigger] map_pairs(written_map(pairs))[i])
                == Some(pairs[i]),
{
    let texts = pairs.map_values(|pair: (Seq<char>, Seq<char>)| written_pair(pair));
    let none = Seq::<char>::empty();
    if pairs.len() == 0 {
        assert(written_map(pairs) =~= none);
    } else {
        assert forall|i: int| 0 <= i < texts.len() implies !(#[trigger] texts[i]).contains(',') by {
            let (name, value) = pairs[i];
            assert(plain_field(pairs[i].0));
            lemma_concat_holds_no(name, seq!['='], value, ',');
            assert(texts[i] =~= name + seq!['='] + value);
        }
        crate::text::law_pieces_of_joined(texts, ',');
        assert(plain_field(pairs[pairs.len() - 1].0));
        assert(texts.last().len() > 0);
        assert forall|i: int| 0 <= i < pairs.len() implies pair_fields(
            #[trigger] map_pairs(written_map(pairs))[i],
        ) == Some(pairs[i]) by {
            let (name, value) = pairs[i];
            assert(plain_field(pairs[i].0));
            law_spacing_is_trimmed(none, name, none, none, value, none);
            assert((none + name + none).push('=') + (none + value + none) =~= texts[i]);
        }
    }
}

/// A map that was written is read, where the parsers refuse none of the names and
/// values in it: what is read is what the parsers make of them, in their order.
pub proof fn law_written_map_is_read<
    K,
    V,
    KE,
    VE,
    FK: Fn(&str) -> Result<K, KE>,
    FV: Fn(&str) -> Result<V, VE>,
>(
    pairs: Seq<(Seq<char>, Seq<char>)>,
    parse_key: FK,
    parse_value: FV,
    read: Seq<(K, V)>,
    failure: Option<ParseMapError<KE, VE>>,
)
    requires
        forall|i: int|
            0 <= i < pairs.len() ==> plain_field((#[trigger] pairs[i]).0) && plain_field(
                pairs[i].1,
            ),
        pairs_outcome(written_map(pairs), parse_key, parse_value, read, failure),
        forall|i: int, error: KE|
            0 <= i < pairs.len() ==> !#[trigger] gives(
                parse_key,
                pairs[i].0,
                Err::<K, KE>(error),
            ),
        forall|i: int, error: VE|
            0 <= i < pairs.len() ==> !#[trigger] gives(
                parse_value,
                pairs[i].1,
                Err::<V, VE>(error),
            ),
    ensures
        failure is None,
        read.len() == pairs.len(),
        forall|i: int|
            0 <= i < pairs.len() ==> gives(parse_key, (#[trigger] pairs[i]).0, Ok(read[i].0))
                && gives(parse_value, pairs[i].1, Ok(read[i].1)),
{
    let texts = map_pairs(written_map(pairs));
    law_map_reads_back(pairs);
    if read.len() < pairs.len() {
        assert(pair_fields(texts[read.len() as int]) == Some(pairs[read.len() as int]));
    }
    assert forall|i: int| 0 <= i < pairs.len() implies gives(
        parse_key,
        (#[trigger] pairs[i]).0,
        Ok(read[i].0),
    ) && gives(parse_value, pairs[i].1, Ok(read[i].1)) by {
        assert(pair_fields(texts[i]) == Some(pairs[i]));
        assert(pair_gives(texts[i], parse_key, parse_value, read[i].0, read[i].1));
    }
}

/// One comma behind the last pair changes nothing.
pub proof fn law_last_comma(text: Seq<char>)
    requires
        text.len() > 0,
        text.last() != ',',
    ensures
        map_pairs(text.push(',')) == map_pairs(text),
{
    crate::text::law_last_terminator(text, ',');
}

/// With parsers that refuse nothing, a map is read exactly where every pair is
/// written as one, and the only error is that of the syntax.
pub proof fn law_syntax_decides<
    K,
    V,
    KE,
    VE,
    FK: Fn(&str) -> Result<K, KE>,
    FV: Fn(&str) -> Result<V, VE>,
>(
    text: Seq<char>,
    parse_key: FK,
    parse_value: FV,
    read: Seq<(K, V)>,
    failure: Option<ParseMapError<KE, VE>>,
)
    requires
        pairs_outcome(text, parse_key, parse_value, read, failure),
        forall|field: Seq<char>, error: KE| !gives(parse_key, field, Err(error)),
        forall|field: Seq<char>, error: VE| !gives(parse_value, field, Err(error)),
    ensures
        failure is None <==> forall|i: int|
            0 <= i < map_pairs(text).len() ==> pair_fields(#[trigger] map_pairs(text)[i]) is Some,
        failure matches Some(error) ==> error is Syntax,
{
    let pairs = map_pairs(text);
    if failure is None {
        assert forall|i: int| 0 <= i < pairs.len() implies pair_fields(
            #[trigger] pairs[i],
        ) is Some by {
            assert(pair_gives(pairs[i], parse_key, parse_value, read[i].0, read[i].1));
        }
    } else {
        assert(pair_fields(pairs[read.len() as int]) is None);
    }
}

/// The empty text is a map without entries, whatever the names and the parsers.
pub proof fn law_empty_text<
    K: Ord,
    V,
    KE,
    VE,
    FK: Fn(&str) -> Result<K, KE>,
    FV: Fn(&str) -> Result<V, VE>,
>(parse_key: FK, parse_value: FV, res: Result<BTreeMap<K, V>, ParseMapError<KE, VE>>)
    requires
        exists|read: Seq<(K, V)>|
            map_outcome(Seq::<char>::empty(), parse_key, parse_value, read, res),
    ensures
        res matches Ok(map) && map@ == Map::<K, V>::empty(),
{
}

/// Of several values for one name the last one stays.
pub proof fn law_last_value_stays<K, V>(read: Seq<(K, V)>, i: int)
    requires
        0 <= i < read.len(),
        forall|j: int| i < j < read.len() ==> (#[trigger] read[j]).0 != read[i].0,
    ensures
        entries(read).contains_key(read[i].0),
        entries(read)[read[i].0] == read[i].1,
    decreases read.len(),
{
    if i < read.len() - 1 {
        let before = read.drop_last();
        assert(before[i] == read[i]);
        assert forall|j: int| i < j < before.len() implies (#[trigger] before[j]).0
            != before[i].0 by {
            assert(before[j] == read[j]);
        }
        law_last_value_stays(before, i);
        assert(read[read.len() - 1].0 != read[i].0);
    }
}

/// A map holds the names that were read and no others.
pub proof fn law_only_written_names<K, V>(read: Seq<(K, V)>, key: K)
    ensures
        entries(read).contains_key(key) <==> exists|i: int|
            0 <= i < read.len() && (#[trigger] read[i]).0 == key,
    decreases read.len(),
{
    if read.len() > 0 {
        let before = read.drop_last();
        law_only_written_names(before, key);
        assert(read[read.len() - 1] == read.last());
        if entries(before).contains_key(key) {
            let i = choose|i: int| 0 <= i < before.len() && (#[trigger] before[i]).0 == key;
            assert(read[i].0 == key);
        }
        if exists|i: int| 0 <= i < read.len() && (#[trigger] read[i]).0 == key {
            let i = choose|i: int| 0 <= i < read.len() && (#[trigger] read[i]).0 == key;
            if i < before.len() {
                assert(before[i].0 == key);
            }
        }
    }
}

/// Whether `parse` gives one outcome for one text.
pub open spec fn deterministic<T, E, F: Fn(&str) -> Result<T, E>>(parse: F) -> bool {
    forall|text: Seq<char>, one: Result<T, E>, other: Result<T, E>|
        #[trigger] gives(parse, text, one) && #[trigger] gives(parse, text, other) ==> one == other
}

/// Where two texts are read, the two joined by a comma are read too: the pairs of
/// the first and then those of the second. The first is neither empty nor ends
/// with a comma, for the comma behind it would then end an empty pair.
pub proof fn law_joined_pairs<
    K,
    V,
    KE,
    VE,
    FK: Fn(&str) -> Result<K, KE>,
    FV: Fn(&str) -> Result<V, VE>,
>(
    a: Seq<char>,
    b: Seq<char>,
    parse_key: FK,
    parse_value: FV,
    read_a: Seq<(K, V)>,
    read_b: Seq<(K, V)>,
    read: Seq<(K, V)>,
    failure: Option<ParseMapError<KE, VE>>,
)
    requires
        a.len() > 0,
        a.last() != ',',
        deterministic(parse_key),
        deterministic(parse_value),
        pairs_outcome(a, parse_key, parse_value, read_a, None),
        pairs_outcome(b, parse_key, parse_value, read_b, None),
        pairs_outcome(a.push(',') + b, parse_key, parse_value, read, failure),
    ensures
        failure is None,
        read == read_a + read_b,
{
    let pairs = map_pairs(a.push(',') + b);
    let both = read_a + read_b;
    crate::text::law_terminated_pieces_part_at_separator(a, b, ',');
    assert forall|i: int| 0 <= i < pairs.len() implies pair_gives(
        #[trigger] pairs[i],
        parse_key,
        parse_value,
        both[i].0,
        both[i].1,
    ) by {
        if i < read_a.len() {
            assert(pair_gives(map_pairs(a)[i], parse_key, parse_value, read_a[i].0, read_a[i].1));
        } else {
            let j = i - read_a.len();
            assert(pair_gives(map_pairs(b)[j], parse_key, parse_value, read_b[j].0, read_b[j].1));
        }
    }
    if read.len() < pairs.len() {
        let i = read.len() as int;
        assert(pair_gives(pairs[i], parse_key, parse_value, both[i].0, both[i].1));
    }
    assert forall|i: int| 0 <= i < read.len() implies read[i] == both[i] by {
        assert(pair_gives(pairs[i], parse_key, parse_value, read[i].0, read[i].1));
        assert(pair_gives(pairs[i], parse_key, parse_value, both[i].0, both[i].1));
    }
    assert(read =~= both);
}

/// Pairs entered behind others extend the map of those, and take their place where
/// the names are the same.
proof fn lemma_entries_of_both<K, V>(front: Seq<(K, V)>, back: Seq<(K, V)>)
    ensures
        entries(front + back) == entries(front).union_prefer_right(entries(back)),
    decreases back.len(),
{
    if back.len() == 0 {
        assert(front + back =~= front);
        assert(entries(front).union_prefer_right(entries(back)) =~= entries(front));
    } else {
        assert((front + back).drop_last() =~= front + back.drop_last());
        assert((front + back).last() == back.last());
        lemma_entries_of_both(front, back.drop_last());
        assert(entries(front + back) =~= entries(front).union_prefer_right(entries(back)));
    }
}

/// Where two texts are read, the two joined by a comma are read too, and their map
/// is that of the first text extended by that of the second, whose value stays for
/// a name that both hold.
pub proof fn law_joined_maps<
    K: Ord,
    V,
    KE,
    VE,
    FK: Fn(&str) -> Result<K, KE>,
    FV: Fn(&str) -> Result<V, VE>,
>(
    a: Seq<char>,
    b: Seq<char>,
    parse_key: FK,
    parse_value: FV,
    map_a: BTreeMap<K, V>,
    map_b: BTreeMap<K, V>,
    res: Result<BTreeMap<K, V>, ParseMapError<KE, VE>>,
)
    requires
        a.len() > 0,
        a.last() != ',',
        deterministic(parse_key),
        deterministic(parse_value),
        exists|read: Seq<(K, V)>|
            map_outcome(a, parse_key, parse_value, read, Ok::<_, ParseMapError<KE, VE>>(map_a)),
        exists|read: Seq<(K, V)>|
            map_outcome(b, parse_key, parse_value, read, Ok::<_, ParseMapError<KE, VE>>(map_b)),
        exists|read: Seq<(K, V)>|
            map_outcome(a.push(',') + b, parse_key, parse_value, read, res),
    ensures
        res is Ok,
        res matches Ok(map) ==> obeys_cmp::<K>() ==> map@ == map_a@.union_prefer_right(map_b@),
{
    let read_a = choose|read: Seq<(K, V)>|
        map_outcome(a, parse_key, parse_value, read, Ok::<_, ParseMapError<KE, VE>>(map_a));
    let read_b = choose|read: Seq<(K, V)>|
        map_outcome(b, parse_key, parse_value, read, Ok::<_, ParseMapError<KE, VE>>(map_b));
    let read = choose|read: Seq<(K, V)>|
        map_outcome(a.push(',') + b, parse_key, parse_value, read, res);
    let failure = match res {
        Ok(_) => None,
        Err(error) => Some(error),
    };
    law_joined_pairs(a, b, parse_key, parse_value, read_a, read_b, read, failure);
    lemma_entries_of_both(read_a, read_b);
}

/// Whether `text` is `field` with white space around it. The field is not empty and
/// has none at its own ends.
pub open spec fn surrounded(text: Seq<char>, field: Seq<char>) -> bool {
    &&& field.len() > 0
    &&& !crate::text::white_space(field.first())
    &&& !crate::text::white_space(field.last())
    &&& exists|left: Seq<char>, right: Seq<char>|
        #[trigger] crate::text::blank(left) && #[trigger] crate::text::blank(right) && text == left
            + field + right
}

proof fn lemma_surrounded(text: Seq<char>)
    requires
        crate::text::trimmed(text).len() > 0,
    ensures
        surrounded(text, crate::text::trimmed(text)),
{
    crate::text::law_trim_takes_white_space_only(text);
    crate::text::law_trimmed(text);
}

proof fn lemma_two_parts(pair: Seq<char>)
    requires
        crate::text::terminated_pieces(pair, '=').len() == 2,
    ensures
        ({
            let parts = crate::text::terminated_pieces(pair, '=');
            &&& !parts[0].contains('=')
            &&& !parts[1].contains('=')
            &&& pair == parts[0].push('=') + parts[1] || pair == (parts[0].push('=')
                + parts[1]).push('=')
        }),
{
    let parts = crate::text::terminated_pieces(pair, '=');
    crate::text::law_terminated_pieces(pair, '=');
    assert(parts.drop_last() =~= seq![parts[0]]);
    reveal_with_fuel(crate::text::joined, 2);
    assert(crate::text::joined(parts, '=') == parts[0].push('=') + parts[1]);
}

/// A pair is read exactly where it is a name, `=` and a value, each with white space
/// around it and no `=` in it, with at most one `=` more at the very end. These make
/// up all of its text, and they are what is read.
pub proof fn law_pair_is_read_whole(pair: Seq<char>, name: Seq<char>, value: Seq<char>)
    ensures
        pair_fields(pair) == Some((name, value)) <==> exists|first: Seq<char>, second: Seq<char>|
            {
                &&& #[trigger] surrounded(first, name)
                &&& #[trigger] surrounded(second, value)
                &&& !first.contains('=')
                &&& !second.contains('=')
                &&& pair == first.push('=') + second || pair == (first.push('=') + second).push('=')
            },
{
    let parts = crate::text::terminated_pieces(pair, '=');
    if pair_fields(pair) == Some((name, value)) {
        lemma_two_parts(pair);
        lemma_surrounded(parts[0]);
        lemma_surrounded(parts[1]);
        assert(surrounded(parts[0], name) && surrounded(parts[1], value));
    }
    if exists|first: Seq<char>, second: Seq<char>|
        {
            &&& #[trigger] surrounded(first, name)
            &&& #[trigger] surrounded(second, value)
            &&& !first.contains('=')
            &&& !second.contains('=')
            &&& pair == first.push('=') + second || pair == (first.push('=') + second).push('=')
        } {
        let (first, second) = choose|first: Seq<char>, second: Seq<char>|
            {
                &&& #[trigger] surrounded(first, name)
                &&& #[trigger] surrounded(second, value)
                &&& !first.contains('=')
                &&& !second.contains('=')
                &&& pair == first.push('=') + second || pair == (first.push('=') + second).push('=')
            };
        let (left, right) = choose|left: Seq<char>, right: Seq<char>|
            #[trigger] crate::text::blank(left) && #[trigger] crate::text::blank(right) && first
                == left + name + right;
        crate::text::law_trimmed_to(left, name, right);
        let (left, right) = choose|left: Seq<char>, right: Seq<char>|
            #[trigger] crate::text::blank(left) && #[trigger] crate::text::blank(right) && second
                == left + value + right;
        crate::text::law_trimmed_to(left, value, right);
        let plain = first.push('=') + second;
        crate::text::law_one_piece(first, '=');
        crate::text::law_one_piece(second, '=');
        crate::text::law_pieces_part_at_separator(first, second, '=');
        assert(crate::text::pieces(plain, '=') =~= seq![first, second]);
        assert(plain.last() == second.last());
        assert(second.contains(second.last()));
        crate::text::law_last_terminator(plain, '=');
        assert(parts =~= seq![first, second]);
    }
}

/// A pair with two `=` in it, or more, besides one at its very end, is not read.
pub proof fn law_pair_with_more_equals_signs(pair: Seq<char>, i: int, j: int)
    requires
        0 <= i < j < pair.len() - 1,
        pair[i] == '=',
        pair[j] == '=',
    ensures
        pair_fields(pair) is None,
{
    if let Some((name, value)) = pair_fields(pair) {
        lemma_two_parts(pair);
        let parts = crate::text::terminated_pieces(pair, '=');
        let n = parts[0].len() as int;
        if i < n {
            assert(parts[0].contains(parts[0][i]));
        } else {
            assert(parts[1].contains(parts[1][j - n - 1]));
        }
    }
}

/// A pair without `=` in front of its last character is not read.
pub proof fn law_pair_without_equals_sign(pair: Seq<char>)
    requires
        forall|i: int| 0 <= i < pair.len() - 1 ==> #[trigger] pair[i] != '=',
    ensures
        pair_fields(pair) is None,
{
    if let Some((name, value)) = pair_fields(pair) {
        lemma_two_parts(pair);
        let parts = crate::text::terminated_pieces(pair, '=');
        crate::text::law_trim_takes_white_space_only(parts[1]);
        assert(parts[1].len() > 0);
        assert(pair[parts[0].len() as int] == '=');
    }
}

/// The pairs of a map are parted at every comma and nowhere else: no pair holds one,
/// and joined by commas they are the text again, up to one comma at its end.
pub proof fn law_pairs_make_up_the_text(text: Seq<char>)
    ensures
        forall|i: int|
            0 <= i < map_pairs(text).len() ==> !(#[trigger] map_pairs(text)[i]).contains(','),
        text.len() == 0 <==> map_pairs(text).len() == 0,
        text.len() > 0 && text.last() != ',' ==> crate::text::joined(map_pairs(text), ',') == text,
        text.len() > 0 && text.last() == ',' ==> crate::text::joined(map_pairs(text), ',').push(
            ',',
        ) == text,
{
    crate::text::law_terminated_pieces(text, ',');
}

/// A map with a pair in it that is not written as one is never read. Where the pairs
/// before it are read, the error is that of the syntax.
pub proof fn law_malformed_pair_refuses_the_map<
    K: Ord,
    V,
    KE,
    VE,
    FK: Fn(&str) -> Result<K, KE>,
    FV: Fn(&str) -> Result<V, VE>,
>(
    text: Seq<char>,
    parse_key: FK,
    parse_value: FV,
    read: Seq<(K, V)>,
    res: Result<BTreeMap<K, V>, ParseMapError<KE, VE>>,
    at: int,
)
    requires
        map_outcome(text, parse_key, parse_value, read, res),
        0 <= at < map_pairs(text).len(),
        ({
            let pair = map_pairs(text)[at];
            ||| exists|i: int, j: int|
                0 <= i < j < pair.len() - 1 && #[trigger] pair[i] == '=' && #[trigger] pair[j]
                    == '='
            ||| forall|i: int| 0 <= i < pair.len() - 1 ==> #[trigger] pair[i] != '='
        }),
    ensures
        res is Err,
        read.len() <= at,
        read.len() == at ==> res == Err::<BTreeMap<K, V>, _>(ParseMapError::<KE, VE>::Syntax),
{
    let pair = map_pairs(text)[at];
    if forall|i: int| 0 <= i < pair.len() - 1 ==> #[trigger] pair[i] != '=' {
        law_pair_without_equals_sign(pair);
    } else {
        let (i, j) = choose|i: int, j: int|
            0 <= i < j < pair.len() - 1 && #[trigger] pair[i] == '=' && #[trigger] pair[j] == '=';
        law_pair_with_more_equals_signs(pair, i, j);
    }
    if read.len() > at {
        assert(pair_gives(pair, parse_key, parse_value, read[at].0, read[at].1));
    }
}

/// Each pair gives its own name and value: what the parsers returned for the two
/// texts of that pair. Where all is well every pair was read, and otherwise the one
/// behind those read is at fault: it is not written as a pair, or its name was
/// refused, or its value was, in this order.
pub proof fn law_each_pair_is_parsed<
    K,
    V,
    KE,
    VE,
    FK: Fn(&str) -> Result<K, KE>,
    FV: Fn(&str) -> Result<V, VE>,
>(
    text: Seq<char>,
    parse_key: FK,
    parse_value: FV,
    read: Seq<(K, V)>,
    failure: Option<ParseMapError<KE, VE>>,
    i: int,
)
    requires
        pairs_outcome(text, parse_key, parse_value, read, failure),
    ensures
        0 <= i < read.len() ==> (pair_fields(map_pairs(text)[i]) matches Some((name, value)) && {
            &&& exists|s: &str|
                s@ == name && #[trigger] call_ensures(parse_key, (s,), Ok(read[i].0))
            &&& exists|s: &str|
                s@ == value && #[trigger] call_ensures(parse_value, (s,), Ok(read[i].1))
        }),
        failure is None <==> read.len() == map_pairs(text).len(),
        failure is Some ==> read.len() < map_pairs(text).len(),
        failure matches Some(error) ==> (error is Syntax <==> pair_fields(
            map_pairs(text)[read.len() as int],
        ) is None),
        failure matches Some(ParseMapError::Key(error)) ==> (pair_fields(
            map_pairs(text)[read.len() as int],
        ) matches Some((name, _)) && exists|s: &str|
            s@ == name && #[trigger] call_ensures(parse_key, (s,), Err(error))),
        failure matches Some(ParseMapError::Value(error)) ==> (pair_fields(
            map_pairs(text)[read.len() as int],
        ) matches Some((name, value)) && {
            &&& exists|s: &str, key: K|
                s@ == name && #[trigger] call_ensures(parse_key, (s,), Ok(key))
            &&& exists|s: &str|
                s@ == value && #[trigger] call_ensures(parse_value, (s,), Err(error))
        }),
{
    if 0 <= i < read.len() {
        assert(pair_gives(map_pairs(text)[i], parse_key, parse_value, read[i].0, read[i].1));
    }
}

/// A map that was read holds the names of its pairs and no others, each with the
/// value of the last pair of that name.
pub proof fn law_map_holds_last_values<
    K: Ord,
    V,
    KE,
    VE,
    FK: Fn(&str) -> Result<K, KE>,
    FV: Fn(&str) -> Result<V, VE>,
>(
    text: Seq<char>,
    parse_key: FK,
    parse_value: FV,
    read: Seq<(K, V)>,
    map: BTreeMap<K, V>,
    i: int,
    key: K,
)
    requires
        map_outcome(text, parse_key, parse_value, read, Ok::<_, ParseMapError<KE, VE>>(map)),
        obeys_cmp::<K>(),
    ensures
        read.len() == map_pairs(text).len(),
        0 <= i < read.len() && (forall|j: int|
            i < j < read.len() ==> (#[trigger] read[j]).0 != read[i].0) ==> map@.contains_key(
            read[i].0,
        ) && map@[read[i].0] == read[i].1,
        map@.contains_key(key) <==> exists|j: int|
            0 <= j < read.len() && (#[trigger] read[j]).0 == key,
{
    if 0 <= i < read.len() && (forall|j: int|
        i < j < read.len() ==> (#[trigger] read[j]).0 != read[i].0) {
        law_last_value_stays(read, i);
    }
    law_only_written_names(read, key);
}

/// One pair is split into its name and its value, which with white space around them,
/// `=` between them and at most one more at the end make up all of its text.
pub proof fn law_pair_is_split<'a>(pair: &'a str, res: Option<(&'a str, &'a str)>)
    requires
        call_ensures(split_pair, (pair,), res),
    ensures
        res matches Some((name, value)) ==> exists|first: Seq<char>, second: Seq<char>|
            {
                &&& #[trigger] surrounded(first, name@)
                &&& #[trigger] surrounded(second, value@)
                &&& !first.contains('=')
                &&& !second.contains('=')
                &&& pair@ == first.push('=') + second || pair@ == (first.push('=') + second).push(
                    '=',
                )
            },
        res is None ==> forall|first: Seq<char>, second: Seq<char>, name: Seq<char>, value: Seq<
            char,
        >|
            #[trigger] surrounded(first, name) && #[trigger] surrounded(second, value)
                && !first.contains('=') && !second.contains('=') ==> pair@ != first.push('=')
                + second && pair@ != (first.push('=') + second).push('='),
{
    if let Some((name, value)) = res {
        law_pair_is_read_whole(pair@, name@, value@);
    } else {
        assert forall|first: Seq<char>, second: Seq<char>, name: Seq<char>, value: Seq<char>|
            #[trigger] surrounded(first, name) && #[trigger] surrounded(second, value)
                && !first.contains('=') && !second.contains('=') implies pair@ != first.push('=')
            + second && pair@ != (first.push('=') + second).push('=') by {
            law_pair_is_read_whole(pair@, name, value);
        }
    }
}

/// The message is that of the syntax, and only such an error has it.
pub proof fn law_syntax_message<KE, VE>(
    error: ParseMapError<KE, VE>,
    res: Option<&'static str>,
)
    requires
        call_ensures(ParseMapError::<KE, VE>::syntax_message, (&error,), res),
    ensures
        error is Syntax <==> res is Some,
        res matches Some(message) ==> message@
            == "Invalid syntax for map. Example: Name=Value,Name2=Value"@,
{
}

/// Parsing a map and parsing its pairs read the same text in the same way, and a map
/// with a malformed pair in it is never the result.
pub proof fn law_map_and_pairs_are_parsed<
    K: Ord,
    V,
    KE,
    VE,
    FK: Fn(&str) -> Result<K, KE>,
    FV: Fn(&str) -> Result<V, VE>,
>(
    text: &str,
    parse_key: FK,
    parse_value: FV,
    map: Result<BTreeMap<K, V>, ParseMapError<KE, VE>>,
    pairs: Result<Vec<(K, V)>, ParseMapError<KE, VE>>,
)
    requires
        call_ensures(
            parse_map::<K, V, KE, VE, FK, FV>,
            (text, parse_key, parse_value),
            map,
        ),
        call_ensures(
            parse_pairs::<K, V, KE, VE, FK, FV>,
            (text, parse_key, parse_value),
            pairs,
        ),
    ensures
        exists|read: Seq<(K, V)>| map_outcome(text@, parse_key, parse_value, read, map),
        map is Ok || pairs is Ok ==> forall|i: int|
            0 <= i < map_pairs(text@).len() ==> pair_fields(#[trigger] map_pairs(text@)[i]) is Some,
        pairs matches Ok(read) ==> read@.len() == map_pairs(text@).len(),
        text@.len() == 0 ==> (map matches Ok(map) && map@ == Map::<K, V>::empty()) && (
        pairs matches Ok(read) && read@.len() == 0),
{
    if map is Ok || pairs is Ok {
        assert forall|i: int| 0 <= i < map_pairs(text@).len() implies pair_fields(
            #[trigger] map_pairs(text@)[i],
        ) is Some by {
            let read = if pairs is Ok {
                pairs->Ok_0@
            } else {
                choose|read: Seq<(K, V)>|
                    map_outcome(text@, parse_key, parse_value, read, map)
            };
            law_each_pair_is_parsed(
                text@,
                parse_key,
                parse_value,
                read,
                None::<ParseMapError<KE, VE>>,
                i,
            );
        }
    }
    law_pairs_make_up_the_text(text@);
}

} // verus!
