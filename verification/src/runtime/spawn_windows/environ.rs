//! The order and the layout of a Windows environment block.
//!
//! A block is a run of entries `KEY=VALUE`, each closed by a NUL, with one more
//! NUL behind the last.  Windows wants the entries in the order of their keys,
//! letter case set aside.  Keys and values are sequences of UTF-16 code units.

use super::argv::{first_unit, lemma_first_unit, lemma_has_nul_concat};
use super::launch_quote::{has_nul, EQUALS, NUL};
use vstd::prelude::*;
use vstd::string::StrSliceExecFns;

verus! {

/// A variable of the environment: its key and its value.
pub type EnvPair = (Seq<u16>, Seq<u16>);

/// The text that `String::from_utf16_lossy` makes of a sequence of UTF-16 code
/// units.
pub uninterp spec fn utf16_lossy_text(units: Seq<u16>) -> Seq<char>;

/// The text that `str::to_lowercase` makes of a text.
pub uninterp spec fn lowercase_text(text: Seq<char>) -> Seq<char>;

/// `String::from_utf16_lossy` of std: decodes UTF-16 and puts U+FFFD in the
/// place of each unpaired surrogate.  The contract only names the result.
#[verifier::external_body]
fn utf16_lossy(units: &Vec<u16>) -> (text: String)
    ensures
        text@ == utf16_lossy_text(units@),
{
    String::from_utf16_lossy(units)
}

/// `str::to_lowercase` of std: the lowercase equivalent of a text as Unicode
/// defines it.  The contract only names the result.
#[verifier::external_body]
fn lowercase(text: &str) -> (lowered: String)
    ensures
        lowered@ == lowercase_text(text@),
{
    text.to_lowercase()
}

/// The text that `str::to_uppercase` makes of a text.
pub uninterp spec fn uppercase_text(text: Seq<char>) -> Seq<char>;

/// `str::to_uppercase` of std: the uppercase equivalent of a text as Unicode
/// defines it.  The contract only names the result.
#[verifier::external_body]
fn uppercase(text: &str) -> (raised: String)
    ensures
        raised@ == uppercase_text(text@),
{
    text.to_uppercase()
}

/// The text by which a key is told from the others, letter case set aside:
/// its uppercase form.
pub open spec fn upper_key(key: Seq<u16>) -> Seq<char> {
    uppercase_text(utf16_lossy_text(key))
}

/// The uppercase form of a key.
pub fn raised_key(key: &Vec<u16>) -> (raised: String)
    ensures
        raised@ == upper_key(key@),
{
    let text = utf16_lossy(key);
    uppercase(text.as_str())
}

/// True where no two variables have the same key, letter case set aside.
pub open spec fn unique_ignoring_case(pairs: Seq<EnvPair>) -> bool {
    forall|i: int, j: int|
        0 <= i < j < pairs.len() ==> upper_key(pairs[i].0) != upper_key(pairs[j].0)
}

/// The text by which a key is ordered: its lowercase form.
pub open spec fn sort_key(key: Seq<u16>) -> Seq<char> {
    lowercase_text(utf16_lossy_text(key))
}

/// The order of texts: by the first character in which they differ, a text
/// before every longer one that starts with it.
pub open spec fn text_le(a: Seq<char>, b: Seq<char>) -> bool
    decreases a.len(),
{
    if a.len() == 0 {
        true
    } else if b.len() == 0 {
        false
    } else if a[0] != b[0] {
        (a[0] as int) < (b[0] as int)
    } else {
        text_le(a.drop_first(), b.drop_first())
    }
}

/// True where the first pair may stand before the second in a block.
pub open spec fn key_le(x: EnvPair, y: EnvPair) -> bool {
    text_le(sort_key(x.0), sort_key(y.0))
}

/// A sorted run of pairs with one more pair put in, behind every pair that may
/// stand before it.
pub open spec fn insert_pair(sorted: Seq<EnvPair>, x: EnvPair) -> Seq<EnvPair>
    decreases sorted.len(),
{
    if sorted.len() == 0 {
        seq![x]
    } else if key_le(sorted.last(), x) {
        sorted.push(x)
    } else {
        insert_pair(sorted.drop_last(), x).push(sorted.last())
    }
}

/// The pairs in the order of their keys; pairs whose keys are alike keep the
/// order they came in.
pub open spec fn sort_pairs(pairs: Seq<EnvPair>) -> Seq<EnvPair>
    decreases pairs.len(),
{
    if pairs.len() == 0 {
        Seq::empty()
    } else {
        insert_pair(sort_pairs(pairs.drop_last()), pairs.last())
    }
}

/// One entry of a block.
pub open spec fn env_entry(pair: EnvPair) -> Seq<u16> {
    pair.0 + seq![EQUALS] + pair.1 + seq![NUL]
}

/// The entries of the pairs, one behind the other.
pub open spec fn env_entries(pairs: Seq<EnvPair>) -> Seq<u16>
    decreases pairs.len(),
{
    if pairs.len() == 0 {
        Seq::empty()
    } else {
        env_entries(pairs.drop_last()) + env_entry(pairs.last())
    }
}

/// The block for the pairs in the order given.  A block without entries is two
/// NULs.
pub open spec fn env_block(pairs: Seq<EnvPair>) -> Seq<u16> {
    if pairs.len() == 0 {
        seq![NUL, NUL]
    } else {
        env_entries(pairs) + seq![NUL]
    }
}

/// True where the key or the value of some pair holds a NUL.
pub open spec fn any_pair_has_nul(pairs: Seq<EnvPair>) -> bool {
    exists|i: int|
        0 <= i < pairs.len() && (has_nul((#[trigger] pairs[i]).0) || has_nul(pairs[i].1))
}

/// The key by which a variable is ordered.
pub fn lowered_key(key: &Vec<u16>) -> (lowered: String)
    ensures
        lowered@ == sort_key(key@),
{
    let text = utf16_lossy(key);
    lowercase(text.as_str())
}

/// Tells whether the first text may stand before the second.
pub fn text_before_or_equal(a: &str, b: &str) -> (r: bool)
    ensures
        r == text_le(a@, b@),
{
    let a_len = a.unicode_len();
    let b_len = b.unicode_len();
    let mut i: usize = 0;
    assert(a@.skip(0) =~= a@ && b@.skip(0) =~= b@);
    while i < a_len && i < b_len
        invariant
            a_len == a@.len(),
            b_len == b@.len(),
            i <= a_len,
            i <= b_len,
            text_le(a@, b@) == text_le(a@.skip(i as int), b@.skip(i as int)),
        decreases a_len - i,
    {
        let x = a.get_char(i);
        let y = b.get_char(i);
        proof {
            assert(a@.skip(i as int)[0] == x);
            assert(b@.skip(i as int)[0] == y);
            assert(a@.skip(i as int).drop_first() =~= a@.skip(i + 1));
            assert(b@.skip(i as int).drop_first() =~= b@.skip(i + 1));
        }
        if x != y {
            return (x as u32) < (y as u32);
        }
        i += 1;
    }
    i == a_len
}

/// Where the place of a new pair in a sorted run is known, the run with the
/// pair put in is the run cut at that place with the pair in between.
pub proof fn lemma_insert_at(sorted: Seq<EnvPair>, x: EnvPair, at: int)
    requires
        0 <= at <= sorted.len(),
        at > 0 ==> key_le(sorted[at - 1], x),
        forall|k: int| at <= k < sorted.len() ==> !key_le(#[trigger] sorted[k], x),
    ensures
        insert_pair(sorted, x) == sorted.insert(at, x),
    decreases sorted.len() - at,
{
    if at == sorted.len() {
        assert(sorted.insert(at, x) =~= sorted.push(x));
        if sorted.len() > 0 {
            assert(sorted.last() == sorted[at - 1]);
        }
    } else {
        assert(!key_le(sorted[sorted.len() - 1], x));
        let init = sorted.drop_last();
        lemma_insert_at(init, x, at);
        assert(init.insert(at, x).push(sorted.last()) =~= sorted.insert(at, x));
    }
}

/// Where the key of an entry ends: at the first `=` behind its first code unit.
pub open spec fn key_end(entry: Seq<u16>) -> int {
    if entry.len() == 0 {
        0
    } else {
        1 + first_unit(entry.drop_first(), EQUALS)
    }
}

/// The variable that an entry stands for.
pub open spec fn decode_entry(entry: Seq<u16>) -> EnvPair {
    (entry.take(key_end(entry)), entry.skip(key_end(entry) + 1))
}

/// The variables that a block holds, as a process reads them: entry by entry up
/// to the first empty one.
pub open spec fn decode_env_block(block: Seq<u16>) -> Seq<EnvPair>
    decreases block.len(),
{
    let n = first_unit(block, NUL);
    if n <= 0 || n >= block.len() {
        Seq::empty()
    } else {
        seq![decode_entry(block.take(n))] + decode_env_block(block.skip(n + 1))
    }
}

/// True for a variable that a block can hold and give back: its key is not
/// empty and holds no `=` behind its first code unit, and neither key nor value
/// holds a NUL.
pub open spec fn well_formed_pair(pair: EnvPair) -> bool {
    &&& pair.0.len() > 0
    &&& forall|i: int| 1 <= i < pair.0.len() ==> pair.0[i] != EQUALS
    &&& !has_nul(pair.0)
    &&& !has_nul(pair.1)
}

/// True where every variable is well formed.
pub open spec fn well_formed_pairs(pairs: Seq<EnvPair>) -> bool {
    forall|i: int| 0 <= i < pairs.len() ==> well_formed_pair(#[trigger] pairs[i])
}

/// The entries of a run of pairs are the entry of the first and the entries of
/// the others.
proof fn lemma_entries_front(pairs: Seq<EnvPair>)
    requires
        pairs.len() > 0,
    ensures
        env_entries(pairs) == env_entry(pairs[0]) + env_entries(pairs.drop_first()),
    decreases pairs.len(),
{
    let init = pairs.drop_last();
    if init.len() == 0 {
        assert(pairs.drop_first() =~= Seq::<EnvPair>::empty());
        assert(env_entries(init) =~= Seq::<u16>::empty());
        assert(env_entries(pairs) =~= env_entry(pairs[0]) + env_entries(pairs.drop_first()));
    } else {
        lemma_entries_front(init);
        assert(pairs.drop_first().drop_last() =~= init.drop_first());
        assert(pairs.drop_first().last() == pairs.last());
        assert(env_entries(pairs) =~= env_entry(pairs[0]) + env_entries(pairs.drop_first()));
    }
}

/// The text of an entry, without its NUL, is read back as the variable.
proof fn lemma_decode_entry(pair: EnvPair)
    requires
        well_formed_pair(pair),
    ensures
        decode_entry(pair.0 + seq![EQUALS] + pair.1) == pair,
        !has_nul(pair.0 + seq![EQUALS] + pair.1),
{
    let text = pair.0 + seq![EQUALS] + pair.1;
    let key_rest = pair.0.drop_first();
    assert(text.drop_first() =~= key_rest + seq![EQUALS] + pair.1);
    lemma_first_unit(key_rest, EQUALS, pair.1);
    assert(text.take(pair.0.len() as int) =~= pair.0);
    assert(text.skip(pair.0.len() as int + 1) =~= pair.1);
    lemma_has_nul_concat(pair.0, seq![EQUALS]);
    lemma_has_nul_concat(pair.0 + seq![EQUALS], pair.1);
}

/// The entries of well-formed variables, closed by a NUL, are read back as the
/// variables.
proof fn lemma_decode_entries(pairs: Seq<EnvPair>)
    requires
        well_formed_pairs(pairs),
    ensures
        decode_env_block(env_entries(pairs) + seq![NUL]) == pairs,
    decreases pairs.len(),
{
    let block = env_entries(pairs) + seq![NUL];
    if pairs.len() == 0 {
        assert(block =~= seq![NUL]);
        assert(decode_env_block(block) =~= pairs);
    } else {
        let rest = pairs.drop_first();
        let text = pairs[0].0 + seq![EQUALS] + pairs[0].1;
        let rest_block = env_entries(rest) + seq![NUL];
        lemma_entries_front(pairs);
        lemma_decode_entry(pairs[0]);
        assert(block =~= text + seq![NUL] + rest_block);
        assert forall|i: int| 0 <= i < text.len() implies text[i] != NUL by {}
        lemma_first_unit(text, NUL, rest_block);
        assert(block.take(text.len() as int) =~= text);
        assert(block.skip(text.len() as int + 1) =~= rest_block);
        assert forall|i: int| 0 <= i < rest.len() implies well_formed_pair(#[trigger] rest[i]) by {
            assert(rest[i] == pairs[i + 1]);
        }
        lemma_decode_entries(rest);
        assert(seq![pairs[0]] + rest =~= pairs);
    }
}

/// Reading a block gives back the variables it was written for, in the order
/// in which they were written.
pub proof fn lemma_env_block_round_trip(pairs: Seq<EnvPair>)
    requires
        well_formed_pairs(pairs),
    ensures
        decode_env_block(env_block(pairs)) == pairs,
{
    if pairs.len() == 0 {
        assert(decode_env_block(seq![NUL, NUL]) =~= pairs);
    } else {
        lemma_decode_entries(pairs);
    }
}

/// Putting a pair into a run adds that pair and nothing else.
proof fn lemma_insert_pair_permutes(sorted: Seq<EnvPair>, x: EnvPair)
    ensures
        insert_pair(sorted, x).to_multiset() == sorted.to_multiset().insert(x),
    decreases sorted.len(),
{
    broadcast use vstd::seq_lib::to_multiset_build;

    if sorted.len() == 0 {
        assert(seq![x] =~= sorted.push(x));
    } else if key_le(sorted.last(), x) {
    } else {
        let init = sorted.drop_last();
        lemma_insert_pair_permutes(init, x);
        assert(init.push(sorted.last()) =~= sorted);
        assert(init.to_multiset().insert(x).insert(sorted.last()) =~= init.to_multiset().insert(
            sorted.last(),
        ).insert(x));
    }
}

/// Sorting keeps every variable, each as often as it came.
pub proof fn lemma_sort_pairs_permutes(pairs: Seq<EnvPair>)
    ensures
        sort_pairs(pairs).to_multiset() == pairs.to_multiset(),
        sort_pairs(pairs).len() == pairs.len(),
    decreases pairs.len(),
{
    broadcast use vstd::seq_lib::to_multiset_build;

    if pairs.len() > 0 {
        let init = pairs.drop_last();
        lemma_sort_pairs_permutes(init);
        lemma_insert_pair_permutes(sort_pairs(init), pairs.last());
        assert(init.push(pairs.last()) =~= pairs);
    }
    sort_pairs(pairs).to_multiset_ensures();
    pairs.to_multiset_ensures();
}

/// Decoding the block written for an environment yields the same variables,
/// up to the order that the keys give them: what is read back is the sorted
/// environment, and that holds every variable as often as the environment
/// does.
pub proof fn lemma_encoded_environment_round_trip(env: Seq<EnvPair>)
    requires
        well_formed_pairs(env),
    ensures
        decode_env_block(env_block(sort_pairs(env))) == sort_pairs(env),
        sort_pairs(env).to_multiset() == env.to_multiset(),
{
    let sorted = sort_pairs(env);
    lemma_sort_pairs_permutes(env);
    sorted.to_multiset_ensures();
    env.to_multiset_ensures();
    assert forall|i: int| 0 <= i < sorted.len() implies well_formed_pair(#[trigger] sorted[i]) by {
        assert(sorted.contains(sorted[i]));
        assert(env.to_multiset().count(sorted[i]) > 0);
        assert(env.contains(sorted[i]));
    }
    lemma_env_block_round_trip(sorted);
}

/// Of two texts, one may stand before the other.
proof fn lemma_text_le_total(a: Seq<char>, b: Seq<char>)
    ensures
        text_le(a, b) || text_le(b, a),
    decreases a.len(),
{
    if a.len() > 0 && b.len() > 0 {
        if a[0] == b[0] {
            lemma_text_le_total(a.drop_first(), b.drop_first());
        } else {
            assert(a[0] as int != b[0] as int);
        }
    }
}

/// The order of texts carries over a text in between.
proof fn lemma_text_le_transitive(a: Seq<char>, b: Seq<char>, c: Seq<char>)
    requires
        text_le(a, b),
        text_le(b, c),
    ensures
        text_le(a, c),
    decreases a.len(),
{
    if a.len() > 0 && b.len() > 0 && c.len() > 0 && a[0] == b[0] && b[0] == c[0] {
        lemma_text_le_transitive(a.drop_first(), b.drop_first(), c.drop_first());
    }
}

/// True where each pair may stand before every pair behind it.
pub open spec fn sorted_by_key(pairs: Seq<EnvPair>) -> bool {
    forall|i: int, j: int| 0 <= i < j < pairs.len() ==> key_le(pairs[i], pairs[j])
}

/// Putting a pair into a sorted run leaves the run sorted.
proof fn lemma_insert_pair_sorted(sorted: Seq<EnvPair>, x: EnvPair)
    requires
        sorted_by_key(sorted),
    ensures
        sorted_by_key(insert_pair(sorted, x)),
    decreases sorted.len(),
{
    let out = insert_pair(sorted, x);
    if sorted.len() == 0 {
    } else if key_le(sorted.last(), x) {
        assert forall|i: int, j: int| 0 <= i < j < out.len() implies key_le(out[i], out[j]) by {
            if j == sorted.len() && i < sorted.len() - 1 {
                assert(key_le(sorted[i], sorted[sorted.len() - 1]));
                lemma_text_le_transitive(
                    sort_key(sorted[i].0),
                    sort_key(sorted.last().0),
                    sort_key(x.0),
                );
            }
        }
    } else {
        let init = sorted.drop_last();
        let inner = insert_pair(init, x);
        assert forall|i: int, j: int| 0 <= i < j < init.len() implies key_le(init[i], init[j]) by {
            assert(key_le(sorted[i], sorted[j]));
        }
        lemma_insert_pair_sorted(init, x);
        lemma_insert_pair_permutes(init, x);
        inner.to_multiset_ensures();
        init.to_multiset_ensures();
        lemma_text_le_total(sort_key(sorted.last().0), sort_key(x.0));
        assert forall|i: int, j: int| 0 <= i < j < out.len() implies key_le(out[i], out[j]) by {
            if j == inner.len() {
                assert(inner.contains(inner[i]));
                if inner[i] != x {
                    assert(inner.to_multiset().count(inner[i]) > 0);
                    assert(init.to_multiset().insert(x).count(inner[i]) > 0);
                    assert(init.to_multiset().count(inner[i]) > 0);
                    assert(init.contains(inner[i]));
                    let k = choose|k: int| 0 <= k < init.len() && init[k] == inner[i];
                    assert(key_le(sorted[k], sorted[sorted.len() - 1]));
                }
            } else {
                assert(key_le(inner[i], inner[j]));
            }
        }
    }
}

/// The sorted environment is in the order of its keys.
pub proof fn lemma_sort_pairs_sorted(pairs: Seq<EnvPair>)
    ensures
        sorted_by_key(sort_pairs(pairs)),
    decreases pairs.len(),
{
    if pairs.len() > 0 {
        lemma_sort_pairs_sorted(pairs.drop_last());
        lemma_insert_pair_sorted(sort_pairs(pairs.drop_last()), pairs.last());
    }
}

} // verus!
